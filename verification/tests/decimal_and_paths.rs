use peeker::decimal::{format_i32, parse_i32};
use peeker::paths::{join_path, served_file, starts_with_path, validate_path, PathRejection};
use peeker::status::HttpStatus;

#[test]
fn status_codes_are_the_http_numbers() {
    assert_eq!(HttpStatus::Success.code(), 200);
    assert_eq!(HttpStatus::Created.code(), 201);
    assert_eq!(HttpStatus::BadRequest.code(), 400);
    assert_eq!(HttpStatus::Unauthorized.code(), 401);
    assert_eq!(HttpStatus::Forbidden.code(), 403);
    assert_eq!(HttpStatus::NotFound.code(), 404);
    assert_eq!(HttpStatus::Conflict.code(), 409);
    assert_eq!(HttpStatus::InternalServerError.code(), 500);
}

#[test]
fn parse_i32_reads_signed_decimals() {
    assert_eq!(parse_i32("42"), Some(42));
    assert_eq!(parse_i32("-17"), Some(-17));
    assert_eq!(parse_i32("+5"), Some(5));
    assert_eq!(parse_i32("007"), Some(7));
    assert_eq!(parse_i32("-0"), Some(0));
    assert_eq!(parse_i32("2147483647"), Some(i32::MAX));
    assert_eq!(parse_i32("-2147483648"), Some(i32::MIN));
}

#[test]
fn parse_i32_refuses_what_str_parse_refuses() {
    for s in ["", "-", "+", "12a", " 1", "1 ", "--1", "+-1", "2147483648", "-2147483649", "99999999999999999999", "1.5", "٣"] {
        assert_eq!(parse_i32(s), None, "input {:?}", s);
        assert!(s.parse::<i32>().is_err(), "input {:?}", s);
    }
}

#[test]
fn parse_i32_agrees_with_str_parse() {
    for s in ["0", "1", "-1", "+0", "0000", "123456", "-99", "2147483647", "-2147483648", "x", "12x"] {
        assert_eq!(parse_i32(s), s.parse::<i32>().ok(), "input {:?}", s);
    }
}

#[test]
fn format_i32_writes_shortest_decimal() {
    assert_eq!(format_i32(0), "0");
    assert_eq!(format_i32(7), "7");
    assert_eq!(format_i32(-1), "-1");
    assert_eq!(format_i32(1234567), "1234567");
    assert_eq!(format_i32(i32::MAX), "2147483647");
    assert_eq!(format_i32(i32::MIN), "-2147483648");
    for v in [0, 5, -5, 10, -10, 99, 100, i32::MAX, i32::MIN] {
        assert_eq!(format_i32(v), v.to_string());
        assert_eq!(parse_i32(&format_i32(v)), Some(v));
    }
}

#[test]
fn join_path_appends_relative_children() {
    assert_eq!(join_path("/srv", "a/b.txt"), "/srv/a/b.txt");
    assert_eq!(join_path("/srv/", "a"), "/srv/a");
    assert_eq!(join_path("", "a"), "a");
    assert_eq!(join_path("/srv", ""), "/srv/");
}

#[test]
fn join_path_lets_absolute_children_replace_the_base() {
    assert_eq!(join_path("/srv", "/etc/passwd"), "/etc/passwd");
}

#[test]
fn join_path_agrees_with_std() {
    for (b, c) in [("/srv", "a/b"), ("/srv/", "a"), ("", "a"), ("/srv", ""), ("/srv", "/x"), ("a", "../b")] {
        let expected = std::path::Path::new(b).join(c);
        assert_eq!(join_path(b, c), expected.to_str().unwrap(), "{:?} {:?}", b, c);
    }
}

#[test]
fn starts_with_path_compares_whole_components() {
    assert!(starts_with_path("/srv/files/a.txt", "/srv/files"));
    assert!(starts_with_path("/srv/files", "/srv/files"));
    assert!(starts_with_path("/srv/files/", "/srv/files"));
    assert!(starts_with_path("/srv//files/./a", "/srv/files"));
    assert!(!starts_with_path("/srv/filesx", "/srv/files"));
    assert!(!starts_with_path("/srv", "/srv/files"));
    assert!(!starts_with_path("srv/a", "/srv"));
    assert!(starts_with_path("/anything", ""));
    assert!(starts_with_path("./a", "."));
    assert!(!starts_with_path("a", "."));
    assert!(starts_with_path("/srv/../etc", "/srv"));
}

#[test]
fn starts_with_path_agrees_with_std() {
    let cases = [
        ("/srv/files/a.txt", "/srv/files"),
        ("/srv/filesx", "/srv/files"),
        ("/srv//files/./a", "/srv/files/"),
        ("./a/b", "./a"),
        ("./a/b", "a"),
        (".", "./"),
        ("a/./b", "a/b"),
        ("/", "/"),
        ("", ""),
        ("a", ""),
        ("/a", "a"),
        ("../x", ".."),
        (".a/b", ".a"),
    ];
    for (p, b) in cases {
        assert_eq!(
            starts_with_path(p, b),
            std::path::Path::new(p).starts_with(b),
            "{:?} starts with {:?}",
            p,
            b
        );
    }
}

#[test]
fn validate_path_serves_only_paths_under_the_base() {
    type R<'a> = Result<&'a str, &'a str>;
    let ok = |p| -> R { Ok(p) };
    assert_eq!(validate_path(ok("/srv"), ok("/srv/a.txt")), Ok("/srv/a.txt".to_string()));
    assert_eq!(validate_path(ok("/srv"), ok("/srv")), Ok("/srv".to_string()));
    assert_eq!(validate_path(ok("/srv"), ok("/etc/passwd")), Err(PathRejection::AccessDenied));
    assert_eq!(validate_path(ok("/srv/app"), ok("/srv/application")), Err(PathRejection::AccessDenied));
}

#[test]
fn validate_path_hands_back_the_resolution_error() {
    assert_eq!(
        validate_path::<&str>(Err("base missing"), Ok("/srv/a")),
        Err(PathRejection::Unresolved("base missing"))
    );
    assert_eq!(
        validate_path::<&str>(Err("base missing"), Err("file missing")),
        Err(PathRejection::Unresolved("base missing"))
    );
    assert_eq!(
        validate_path::<&str>(Ok("/srv"), Err("file missing")),
        Err(PathRejection::Unresolved("file missing"))
    );
}

#[test]
fn served_file_answers_rejections_with_not_found() {
    assert_eq!(served_file::<()>(Ok("/srv/a".to_string())), Ok("/srv/a".to_string()));
    assert_eq!(served_file::<()>(Err(PathRejection::AccessDenied)), Err(HttpStatus::NotFound));
    assert_eq!(served_file(Err(PathRejection::Unresolved("gone"))), Err(HttpStatus::NotFound));
}
