//! Confinement of requested files to the served directory: the path text model
//! of Unix paths (`std::path::Path` components), joining, and the prefix check
//! that keeps a request from leaving the base directory.

use vstd::prelude::*;

use crate::status::HttpStatus;
use crate::text::{chars_equal, chars_of, string_from_chars};

verus! {

/// Adds a finished segment to the named components, unless it is empty (a
/// repeated or trailing separator) or `.` (the current directory).
pub open spec fn keep_segment(done: Seq<Seq<char>>, segment: Seq<char>) -> Seq<Seq<char>> {
    if segment.len() == 0 || segment == seq!['.'] {
        done
    } else {
        done.push(segment)
    }
}

/// Reads a path text from the left: the named components finished so far and
/// the segment still being read.
pub open spec fn scan_segments(s: Seq<char>) -> (Seq<Seq<char>>, Seq<char>)
    decreases s.len(),
{
    if s.len() == 0 {
        (Seq::empty(), Seq::empty())
    } else {
        let (done, current) = scan_segments(s.drop_last());
        if s.last() == '/' {
            (keep_segment(done, current), Seq::empty())
        } else {
            (done, current.push(s.last()))
        }
    }
}

/// The named components of a path text: its `/`-separated segments without
/// empty ones and without `.`.
pub open spec fn named_components(s: Seq<char>) -> Seq<Seq<char>> {
    keep_segment(scan_segments(s).0, scan_segments(s).1)
}

/// Whether a path text starts at the root directory.
pub open spec fn is_rooted(s: Seq<char>) -> bool {
    s.len() > 0 && s[0] == '/'
}

/// Whether a relative path text starts with the current directory `.`.
pub open spec fn leading_cur_dir(s: Seq<char>) -> bool {
    &&& !is_rooted(s)
    &&& s.len() > 0
    &&& s[0] == '.'
    &&& (s.len() == 1 || s[1] == '/')
}

/// The components of a path text, as `Path::components` yields them on Unix:
/// the root directory (written `/`), a leading current directory (written `.`),
/// then the named components.
pub open spec fn path_components(s: Seq<char>) -> Seq<Seq<char>> {
    (if is_rooted(s) {
        seq![seq!['/']]
    } else {
        Seq::empty()
    }) + (if leading_cur_dir(s) {
        seq![seq!['.']]
    } else {
        Seq::empty()
    }) + named_components(s)
}

/// Whether `path` lies under `base`: the components of `base` are the first
/// components of `path` (`Path::starts_with`).
pub open spec fn path_starts_with(path: Seq<char>, base: Seq<char>) -> bool {
    path_components(base).is_prefix_of(path_components(path))
}

/// The path text of `base` with `child` appended (`Path::join` on Unix): an
/// absolute `child` replaces `base`; otherwise a separator is put between the
/// two unless `base` is empty or already ends with one.
pub open spec fn joined(base: Seq<char>, child: Seq<char>) -> Seq<char> {
    if is_rooted(child) {
        child
    } else if base.len() == 0 || base.last() == '/' {
        base + child
    } else {
        base + seq!['/'] + child
    }
}

proof fn lemma_scan_without_separator(x: Seq<char>, y: Seq<char>)
    requires
        forall|i: int| 0 <= i < y.len() ==> y[i] != '/',
    ensures
        scan_segments(x + y).0 == scan_segments(x).0,
        scan_segments(x + y).1 == scan_segments(x).1 + y,
    decreases y.len(),
{
    if y.len() == 0 {
        assert(x + y =~= x);
        assert(scan_segments(x).1 + y =~= scan_segments(x).1);
    } else {
        let shorter = y.drop_last();
        lemma_scan_without_separator(x, shorter);
        assert((x + y).drop_last() =~= x + shorter);
        assert((x + y).last() == y.last());
        assert((scan_segments(x).1 + shorter).push(y.last()) =~= scan_segments(x).1 + y);
    }
}

/// A name without separators that is not `.`, put under a non-empty path with
/// `/`, names a path one component below it, and so inside it.
pub proof fn child_path_stays_inside(base: Seq<char>, name: Seq<char>)
    requires
        base.len() > 0,
        name.len() > 0,
        name != seq!['.'],
        forall|i: int| 0 <= i < name.len() ==> name[i] != '/',
    ensures
        path_components(base + seq!['/'] + name) == path_components(base).push(name),
        path_starts_with(base + seq!['/'] + name, base),
{
    let dir = base + seq!['/'];
    let joined_path = dir + name;
    assert(dir.drop_last() =~= base);
    assert(scan_segments(dir).0 == named_components(base));
    assert(scan_segments(dir).1 =~= Seq::<char>::empty());
    lemma_scan_without_separator(dir, name);
    assert(scan_segments(joined_path).1 =~= name);
    assert(named_components(joined_path) == named_components(base).push(name));
    assert(joined_path[0] == base[0]);
    assert(base.len() > 1 ==> joined_path[1] == base[1]);
    assert(base.len() == 1 ==> joined_path[1] == '/');
    assert(is_rooted(joined_path) == is_rooted(base));
    assert(leading_cur_dir(joined_path) == leading_cur_dir(base));
    let lead = (if is_rooted(base) {
        seq![seq!['/']]
    } else {
        Seq::<Seq<char>>::empty()
    }) + (if leading_cur_dir(base) {
        seq![seq!['.']]
    } else {
        Seq::<Seq<char>>::empty()
    });
    assert(path_components(base) == lead + named_components(base));
    assert(path_components(joined_path) == lead + named_components(base).push(name));
    assert(lead + named_components(base).push(name) =~= (lead + named_components(base)).push(
        name,
    ));
    let bc = path_components(base);
    assert(bc =~= bc.push(name).subrange(0, bc.len() as int));
}

/// Joining keeps the child at the end: an absolute child is the whole result;
/// a relative one follows the base and at most one added separator.
pub proof fn joined_ends_with_child(base: Seq<char>, child: Seq<char>)
    ensures
        joined(base, child).len() >= child.len(),
        joined(base, child).skip(joined(base, child).len() - child.len()) == child,
        is_rooted(child) ==> joined(base, child) == child,
        !is_rooted(child) ==> base.is_prefix_of(joined(base, child)),
        !is_rooted(child) ==> joined(base, child).len() <= base.len() + 1 + child.len(),
        !is_rooted(child) && base.len() > 0 && base.last() != '/' ==> joined(base, child)[base.len() as int] == '/',
{
    let j = joined(base, child);
    assert(j.skip(j.len() - child.len()) =~= child);
    if !is_rooted(child) {
        assert(base =~= j.subrange(0, base.len() as int));
    }
}

/// Whether `name` can be a named component of a path: not empty, without a
/// separator, and not `.`.
pub open spec fn is_component_name(name: Seq<char>) -> bool {
    &&& name.len() > 0
    &&& name != seq!['.']
    &&& forall|i: int| 0 <= i < name.len() ==> name[i] != '/'
}

/// The text `/n1/n2/.../nk` of a list of names (empty for no names).
pub open spec fn names_text(names: Seq<Seq<char>>) -> Seq<char>
    decreases names.len(),
{
    if names.len() == 0 {
        Seq::empty()
    } else {
        names_text(names.drop_last()) + seq!['/'] + names.last()
    }
}

/// The absolute path text of a list of names, as `canonicalize` writes paths:
/// `/` for no names, otherwise `/n1/n2/.../nk`.
pub open spec fn absolute_text(names: Seq<Seq<char>>) -> Seq<char> {
    if names.len() == 0 {
        seq!['/']
    } else {
        names_text(names)
    }
}

proof fn lemma_names_text(names: Seq<Seq<char>>)
    requires
        forall|i: int| 0 <= i < names.len() ==> is_component_name(#[trigger] names[i]),
    ensures
        named_components(names_text(names)) == names,
        names.len() > 0 ==> names_text(names).len() > 0 && names_text(names)[0] == '/',
    decreases names.len(),
{
    if names.len() == 0 {
        assert(scan_segments(Seq::<char>::empty()).0 =~= Seq::<Seq<char>>::empty());
        assert(scan_segments(Seq::<char>::empty()).1 =~= Seq::<char>::empty());
        assert(names =~= Seq::<Seq<char>>::empty());
    } else {
        let init = names.drop_last();
        let last = names.last();
        assert forall|i: int| 0 <= i < init.len() implies is_component_name(#[trigger] init[i]) by {
            assert(init[i] == names[i]);
        }
        lemma_names_text(init);
        assert(is_component_name(names[names.len() - 1]));
        let x = names_text(init);
        let d = x + seq!['/'];
        assert(d.drop_last() =~= x);
        assert(d.last() == '/');
        assert(scan_segments(d).0 == named_components(x));
        assert(scan_segments(d).1 =~= Seq::<char>::empty());
        lemma_scan_without_separator(d, last);
        assert(names_text(names) == d + last);
        assert(scan_segments(names_text(names)).1 =~= last);
        assert(named_components(names_text(names)) =~= init.push(last));
        assert(init.push(last) =~= names);
        if init.len() == 0 {
            assert(x =~= Seq::<char>::empty());
            assert(names_text(names)[0] == d[0]);
        } else {
            assert(names_text(names)[0] == x[0]);
        }
    }
}

/// The components of an absolute path text: the root, then its names.
pub proof fn absolute_text_components(names: Seq<Seq<char>>)
    requires
        forall|i: int| 0 <= i < names.len() ==> is_component_name(#[trigger] names[i]),
    ensures
        path_components(absolute_text(names)) == seq![seq!['/']] + names,
{
    lemma_names_text(names);
    if names.len() == 0 {
        let s = seq!['/'];
        assert(s.drop_last() =~= Seq::<char>::empty());
        assert(scan_segments(Seq::<char>::empty()).0 =~= Seq::<Seq<char>>::empty());
        assert(scan_segments(Seq::<char>::empty()).1 =~= Seq::<char>::empty());
        assert(scan_segments(s).0 =~= Seq::<Seq<char>>::empty());
        assert(scan_segments(s).1 =~= Seq::<char>::empty());
        assert(named_components(s) =~= Seq::<Seq<char>>::empty());
        assert(path_components(s) =~= seq![seq!['/']] + names);
    } else {
        assert(path_components(absolute_text(names)) =~= seq![seq!['/']] + names);
    }
}

/// A path lies under a base exactly when every component of the base equals
/// the component of the path at the same position.
pub proof fn path_under_base_matches_every_component(path: Seq<char>, base: Seq<char>)
    ensures
        path_starts_with(path, base) <==> (path_components(base).len() <= path_components(
            path,
        ).len() && forall|k: int|
            0 <= k < path_components(base).len() ==> path_components(base)[k] == path_components(
                path,
            )[k]),
{
    let bc = path_components(base);
    let pc = path_components(path);
    if bc.len() <= pc.len() && forall|k: int| 0 <= k < bc.len() ==> bc[k] == pc[k] {
        assert(bc =~= pc.subrange(0, bc.len() as int));
    }
    if path_starts_with(path, base) {
        assert forall|k: int| 0 <= k < bc.len() implies bc[k] == pc[k] by {
            assert(bc[k] == pc.subrange(0, bc.len() as int)[k]);
        }
    }
}

/// On absolute paths `/p1/.../pn` and `/b1/.../bm` made of names, the path lies
/// under the base exactly when `m <= n` and `bi == pi` for every `i <= m`: a
/// path that leaves the base at any position, not only the last, is refused.
pub proof fn absolute_path_under_base(path: Seq<Seq<char>>, base: Seq<Seq<char>>)
    requires
        forall|i: int| 0 <= i < path.len() ==> is_component_name(#[trigger] path[i]),
        forall|i: int| 0 <= i < base.len() ==> is_component_name(#[trigger] base[i]),
    ensures
        path_starts_with(absolute_text(path), absolute_text(base)) <==> (base.len() <= path.len()
            && forall|k: int| 0 <= k < base.len() ==> base[k] == path[k]),
{
    absolute_text_components(path);
    absolute_text_components(base);
    path_under_base_matches_every_component(absolute_text(path), absolute_text(base));
    let root: Seq<Seq<char>> = seq![seq!['/']];
    let bc = root + base;
    let pc = root + path;
    if base.len() <= path.len() && forall|k: int| 0 <= k < base.len() ==> base[k] == path[k] {
        assert forall|k: int| 0 <= k < bc.len() implies bc[k] == pc[k] by {
            if k > 0 {
                assert(bc[k] == base[k - 1]);
                assert(pc[k] == path[k - 1]);
            }
        }
    }
    if bc.len() <= pc.len() && forall|k: int| 0 <= k < bc.len() ==> bc[k] == pc[k] {
        assert forall|k: int| 0 <= k < base.len() implies base[k] == path[k] by {
            assert(bc[k + 1] == pc[k + 1]);
        }
    }
}

/// Why a requested path is not served.
#[derive(Debug, Clone, PartialEq, Eq)]
pub enum PathRejection<E> {
    /// The base directory or the requested path could not be resolved, for
    /// the reason given.
    Unresolved(E),
    /// The resolved path lies outside the base directory.
    AccessDenied,
}

/// Appends `child` to `base` as `base.join(child)` does.
pub fn join_path(base: &str, child: &str) -> (joined_path: String)
    ensures
        joined_path@ == joined(base@, child@),
{
    let b = chars_of(base);
    let c = chars_of(child);
    if c.len() > 0 && c[0] == '/' {
        return string_from_chars(c.as_slice());
    }
    let mut out = b;
    if out.len() > 0 && out[out.len() - 1] != '/' {
        out.push('/');
    }
    let ghost prefix = out@;
    let mut i: usize = 0;
    while i < c.len()
        invariant
            c@ == child@,
            i <= c@.len(),
            out@ == prefix + c@.take(i as int),
        decreases c@.len() - i,
    {
        out.push(c[i]);
        i = i + 1;
        assert(c@.take(i as int) == c@.take(i - 1).push(c@[i - 1]));
    }
    assert(c@.take(c@.len() as int) == c@);
    proof {
        if base@.len() == 0 || base@.last() == '/' {
            assert(prefix == base@);
        } else {
            assert(prefix == base@ + seq!['/']);
        }
    }
    string_from_chars(out.as_slice())
}

/// The components of a path text, each as its characters.
fn components_of(s: &Vec<char>) -> (r: Vec<Vec<char>>)
    ensures
        r@.len() == path_components(s@).len(),
        forall|k: int| 0 <= k < r@.len() ==> (#[trigger] r@[k])@ == path_components(s@)[k],
{
    let n = s.len();
    let mut done: Vec<Vec<char>> = Vec::new();
    if n > 0 && s[0] == '/' {
        done.push(vec!['/']);
    } else if n > 0 && s[0] == '.' && (n == 1 || s[1] == '/') {
        done.push(vec!['.']);
    }
    let ghost lead: Seq<Seq<char>> = if is_rooted(s@) {
        seq![seq!['/']]
    } else if leading_cur_dir(s@) {
        seq![seq!['.']]
    } else {
        Seq::empty()
    };
    assert(done@.len() == lead.len());
    assert(forall|k: int| 0 <= k < done@.len() ==> (#[trigger] done@[k])@ == lead[k]);
    let mut current: Vec<char> = Vec::new();
    let mut i: usize = 0;
    while i < n
        invariant
            n == s@.len(),
            i <= n,
            done@.len() == lead.len() + scan_segments(s@.take(i as int)).0.len(),
            forall|k: int| 0 <= k < done@.len() ==> (#[trigger] done@[k])@ == (lead + scan_segments(s@.take(i as int)).0)[k],
            current@ == scan_segments(s@.take(i as int)).1,
        decreases n - i,
    {
        let ghost before = s@.take(i as int);
        let ghost after = s@.take(i + 1);
        assert(after.drop_last() == before);
        assert(after.last() == s@[i as int]);
        let ch = s[i];
        if ch == '/' {
            let keep = current.len() > 0 && !(current.len() == 1 && current[0] == '.');
            proof {
                if current@.len() == 1 && current@[0] == '.' {
                    assert(current@ == seq!['.']);
                }
                if current@ == seq!['.'] {
                    assert(current@.len() == 1 && current@[0] == '.');
                }
            }
            let ghost old_done = done@;
            if keep {
                done.push(current);
            }
            current = Vec::new();
            proof {
                let full = lead + scan_segments(after).0;
                assert(done@.len() == full.len());
                assert forall|k: int| 0 <= k < done@.len() implies (#[trigger] done@[k])@ == full[k] by {
                    if k < old_done.len() {
                        assert(done@[k] == old_done[k]);
                    }
                }
            }
        } else {
            current.push(ch);
        }
        i = i + 1;
    }
    assert(s@.take(n as int) == s@);
    let ghost finished = done@;
    let ghost last = current@;
    if current.len() > 0 && !(current.len() == 1 && current[0] == '.') {
        done.push(current);
    }
    proof {
        if last.len() == 1 && last[0] == '.' {
            assert(last == seq!['.']);
        }
        if last == seq!['.'] {
            assert(last.len() == 1 && last[0] == '.');
        }
        let full = path_components(s@);
        assert(full == lead + named_components(s@));
        assert(done@.len() == full.len());
        assert forall|k: int| 0 <= k < done@.len() implies (#[trigger] done@[k])@ == full[k] by {
            if k < finished.len() {
                assert(done@[k] == finished[k]);
            }
        }
    }
    done
}

/// Whether `path` lies under `base`, comparing whole components as
/// `Path::starts_with` does.
pub fn starts_with_path(path: &str, base: &str) -> (r: bool)
    ensures
        r == path_starts_with(path@, base@),
        r == (path_components(base@).len() <= path_components(path@).len() && forall|k: int|
            0 <= k < path_components(base@).len() ==> path_components(base@)[k] == path_components(
                path@,
            )[k]),
{
    let p = components_of(&chars_of(path));
    let b = components_of(&chars_of(base));
    let ghost pc = path_components(path@);
    let ghost bc = path_components(base@);
    if b.len() > p.len() {
        return false;
    }
    let mut i: usize = 0;
    while i < b.len()
        invariant
            pc == path_components(path@),
            bc == path_components(base@),
            b@.len() == bc.len(),
            p@.len() == pc.len(),
            b@.len() <= p@.len(),
            forall|k: int| 0 <= k < b@.len() ==> (#[trigger] b@[k])@ == bc[k],
            forall|k: int| 0 <= k < p@.len() ==> (#[trigger] p@[k])@ == pc[k],
            i <= b@.len(),
            forall|k: int| 0 <= k < i ==> bc[k] == pc[k],
        decreases b@.len() - i,
    {
        if !chars_equal(b[i].as_slice(), p[i].as_slice()) {
            assert(bc[i as int] != pc.subrange(0, bc.len() as int)[i as int]);
            return false;
        }
        i = i + 1;
    }
    assert(bc =~= pc.subrange(0, bc.len() as int));
    true
}

/// Keeps a request inside the served directory. Given the outcome of
/// resolving the base directory and then the requested path to canonical form
/// (the second is not looked at when the first failed), yields the canonical
/// requested path when it lies under the base, and otherwise why not: the
/// first resolution error, or a denial.
pub fn validate_path<E>(canonical_base: Result<&str, E>, canonical_full: Result<&str, E>) -> (r: Result<
    String,
    PathRejection<E>,
>)
    ensures
        match (canonical_base, canonical_full) {
            (Err(e), _) => r == Err::<String, PathRejection<E>>(PathRejection::Unresolved(e)),
            (Ok(_), Err(e)) => r == Err::<String, PathRejection<E>>(PathRejection::Unresolved(e)),
            (Ok(base), Ok(full)) => if path_starts_with(full@, base@) {
                r matches Ok(p) && p@ == full@
            } else {
                r == Err::<String, PathRejection<E>>(PathRejection::AccessDenied)
            },
        },
{
    let base = match canonical_base {
        Err(e) => return Err(PathRejection::Unresolved(e)),
        Ok(base) => base,
    };
    let full = match canonical_full {
        Err(e) => return Err(PathRejection::Unresolved(e)),
        Ok(full) => full,
    };
    if starts_with_path(full, base) {
        Ok(full.to_owned())
    } else {
        Err(PathRejection::AccessDenied)
    }
}

/// The file a request for a stored file is answered with: the validated path,
/// or 404 whatever made validation fail.
pub fn served_file<E>(validated: Result<String, PathRejection<E>>) -> (r: Result<String, HttpStatus>)
    ensures
        match validated {
            Ok(p) => r == Ok::<String, HttpStatus>(p),
            Err(_) => r == Err::<String, HttpStatus>(HttpStatus::NotFound),
        },
{
    match validated {
        Ok(p) => Ok(p),
        Err(_) => Err(HttpStatus::NotFound),
    }
}

} // verus!
