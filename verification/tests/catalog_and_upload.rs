use peeker::auth::new_claims;
use peeker::catalog::{
    data_info_list, delete_permission, existence_outcome, link_outcome, link_precheck, lookup_outcome,
    paging_fits, paging_window, storage_outcome, tag_search_plan, AttachTagRequest, DataInfo, FileRecord,
    PagingQuerry, SearchByNameRequest, SearchByTagRequest, TagRequest,
};
use peeker::status::HttpStatus;
use peeker::upload::{
    creator_id, multipart_outcome, prepare_upload, stored_path, unnamed_file, upload_dir, upload_step,
    UploadStep,
};

fn record(id: i64, name: &str) -> FileRecord {
    FileRecord {
        id,
        name: name.to_string(),
        path: format!("./test_files/{}", id),
        creator: "1".to_string(),
    }
}

#[test]
fn paging_defaults_to_the_first_five_files() {
    assert_eq!(paging_window(&PagingQuerry { page: None, amount: None }), (0, 5));
    assert_eq!(paging_window(&PagingQuerry { page: Some(3), amount: Some(10) }), (20, 10));
    assert_eq!(paging_window(&PagingQuerry { page: Some(0), amount: Some(10) }), (0, 10));
    assert_eq!(paging_window(&PagingQuerry { page: Some(2), amount: None }), (5, 5));
    assert_eq!(paging_window(&PagingQuerry { page: None, amount: Some(0) }), (0, 0));
}

#[test]
fn consecutive_pages_are_adjacent() {
    for page in 1..6usize {
        let (a, n) = paging_window(&PagingQuerry { page: Some(page), amount: Some(7) });
        let (b, _) = paging_window(&PagingQuerry { page: Some(page + 1), amount: Some(7) });
        assert_eq!(b, a + n);
    }
}

#[test]
fn paging_fits_unless_the_offset_overflows() {
    assert!(paging_fits(&PagingQuerry { page: None, amount: None }));
    assert!(paging_fits(&PagingQuerry { page: Some(usize::MAX), amount: Some(1) }));
    assert!(!paging_fits(&PagingQuerry { page: Some(usize::MAX), amount: Some(2) }));
    assert!(paging_fits(&PagingQuerry { page: Some(1), amount: Some(usize::MAX) }));
}

#[test]
fn listings_show_id_name_and_path() {
    let files = vec![record(1, "a.txt"), record(9, "b.mp4")];
    let infos = data_info_list(&files);
    assert_eq!(
        infos,
        vec![
            DataInfo { id: 1, name: "a.txt".to_string(), path: "./test_files/1".to_string() },
            DataInfo { id: 9, name: "b.mp4".to_string(), path: "./test_files/9".to_string() },
        ]
    );
    assert!(data_info_list(&Vec::new()).is_empty());
}

#[test]
fn tag_search_without_tags_asks_nothing() {
    assert_eq!(tag_search_plan(&SearchByTagRequest { tag_ids: vec![] }), None);
    assert_eq!(tag_search_plan(&SearchByTagRequest { tag_ids: vec![4, 8, 15] }), Some(3));
}

#[test]
fn only_admins_delete() {
    assert_eq!(delete_permission(&new_claims("1", "admin", 0)), Ok(()));
    assert_eq!(delete_permission(&new_claims("1", "user", 0)), Err(HttpStatus::Forbidden));
    assert_eq!(delete_permission(&new_claims("1", "Admin", 0)), Err(HttpStatus::Forbidden));
    assert_eq!(delete_permission(&new_claims("1", "", 0)), Err(HttpStatus::Forbidden));
}

#[test]
fn lookups_map_to_statuses() {
    assert_eq!(lookup_outcome::<i64, ()>(Ok(Some(3))), Ok(3));
    assert_eq!(lookup_outcome::<i64, ()>(Ok(None)), Err(HttpStatus::NotFound));
    assert_eq!(lookup_outcome::<i64, &str>(Err("db")), Err(HttpStatus::InternalServerError));
    assert_eq!(existence_outcome::<i64, ()>(Ok(Some(3))), Ok(true));
    assert_eq!(existence_outcome::<i64, ()>(Ok(None)), Ok(false));
    assert_eq!(existence_outcome::<i64, &str>(Err("db")), Err(HttpStatus::InternalServerError));
    assert_eq!(storage_outcome::<u8, ()>(Ok(1)), Ok(1));
    assert_eq!(storage_outcome::<u8, &str>(Err("disk")), Err(HttpStatus::InternalServerError));
}

#[test]
fn links_need_both_ends_and_are_unique() {
    assert_eq!(link_precheck(true, true), Ok(()));
    assert_eq!(link_precheck(false, true), Err(HttpStatus::NotFound));
    assert_eq!(link_precheck(true, false), Err(HttpStatus::NotFound));
    assert_eq!(link_precheck(false, false), Err(HttpStatus::NotFound));
    assert_eq!(link_outcome::<()>(Ok(())), Ok(()));
    assert_eq!(link_outcome::<&str>(Err("duplicate")), Err(HttpStatus::BadRequest));
}

#[test]
fn catalog_requests_hold_their_fields() {
    let t = TagRequest { tag_name: "férias".to_string() };
    assert_eq!(t.tag_name, "férias");
    let a = AttachTagRequest { file_id: 1, tag_id: 2 };
    assert_eq!((a.file_id, a.tag_id), (1, 2));
    let s = SearchByNameRequest { file_name: "doc".to_string() };
    assert_eq!(s.file_name, "doc");
}

#[test]
fn upload_steps_store_the_first_named_field() {
    assert_eq!(upload_step(None), UploadStep::Reject(HttpStatus::BadRequest));
    assert_eq!(upload_step(Some(Some(String::new()))), UploadStep::Skip);
    assert_eq!(upload_step(Some(Some("video.mp4".to_string()))), UploadStep::Store("video.mp4".to_string()));
    assert_eq!(upload_step(Some(None)), UploadStep::Store("unnamed_file".to_string()));
    assert_eq!(unnamed_file(), "unnamed_file");
}

#[test]
fn multipart_failures_are_bad_requests() {
    assert_eq!(multipart_outcome::<u8, ()>(Ok(2)), Ok(2));
    assert_eq!(multipart_outcome::<u8, &str>(Err("broken")), Err(HttpStatus::BadRequest));
}

#[test]
fn creator_is_the_subject_number() {
    assert_eq!(creator_id("12"), "12");
    assert_eq!(creator_id("+7"), "7");
    assert_eq!(creator_id("-0"), "0");
    assert_eq!(creator_id("007"), "7");
    assert_eq!(creator_id("abc"), "0");
    assert_eq!(creator_id(""), "0");
    assert_eq!(creator_id("2147483648"), "0");
    assert_eq!(creator_id("-2147483648"), "-2147483648");
    assert_eq!(creator_id(&creator_id("+0012")), creator_id("+0012"));
}

#[test]
fn stored_paths_join_dir_and_id() {
    assert_eq!(stored_path("./test_files", "abc"), "./test_files/abc");
    assert_eq!(upload_dir(), "./test_files");
}

#[test]
fn prepared_uploads_get_a_fresh_id_in_the_upload_dir() {
    let claims = new_claims("5", "user", 0);
    let a = prepare_upload("clip.mp4".to_string(), &claims);
    let b = prepare_upload("clip.mp4".to_string(), &claims);
    assert_eq!(a.name, "clip.mp4");
    assert_eq!(a.id.len(), 36);
    assert!(uuid::Uuid::parse_str(&a.id).is_ok());
    assert!(a.id.chars().all(|c| c.is_ascii_digit() || ('a'..='f').contains(&c) || c == '-'));
    assert!(peeker::paths::starts_with_path(&a.path, upload_dir()));
    let id: Vec<char> = a.id.chars().collect();
    for (i, c) in id.iter().enumerate() {
        assert_eq!(*c == '-', i == 8 || i == 13 || i == 18 || i == 23);
    }
    assert_eq!(id[14], '4');
    assert!(matches!(id[19], '8' | '9' | 'a' | 'b'));
    assert_eq!(a.path, format!("./test_files/{}", a.id));
    assert_eq!(a.creator, "5");
    assert_ne!(a.id, b.id);
}
