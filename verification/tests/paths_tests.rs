use jpgshrink::{destination_path, has_jpg_extension, path_join, rfind_byte, ConvertError};

#[test]
fn destination_joins_parent_output_dir_and_stem() {
    assert_eq!(
        destination_path(b"/data/pics/photo.png", b"resized"),
        Ok(b"/data/pics/resized/photo.jpg".to_vec())
    );
}

#[test]
fn destination_for_bare_file_name() {
    assert_eq!(destination_path(b"photo.png", b"resized"), Ok(b"resized/photo.jpg".to_vec()));
}

#[test]
fn destination_with_absolute_output_dir_ignores_parent() {
    assert_eq!(
        destination_path(b"/data/pics/photo.png", b"/abs/out"),
        Ok(b"/abs/out/photo.jpg".to_vec())
    );
}

#[test]
fn destination_splits_at_last_dot_only() {
    assert_eq!(destination_path(b"a/b.tar.gz", b"out"), Ok(b"a/out/b.tar.jpg".to_vec()));
}

#[test]
fn destination_keeps_jpg_extension_for_jpg_source() {
    let dst = destination_path(b"x/y.jpg", b"resized").unwrap();
    assert_eq!(dst, b"x/resized/y.jpg".to_vec());
    assert!(has_jpg_extension(&dst));
}

#[test]
fn destination_under_root() {
    assert_eq!(destination_path(b"/photo.png", b"resized"), Ok(b"/resized/photo.jpg".to_vec()));
}

#[test]
fn path_without_stem_is_ugly() {
    // No dot to split a stem from: nothing to force a .jpg extension onto.
    assert_eq!(destination_path(b"noext", b"resized"), Err(ConvertError::UglyFile));
    // A directory-like path has an empty file name.
    assert_eq!(destination_path(b"some/dir/", b"resized"), Err(ConvertError::UglyFile));
    // A leading dot alone leaves no stem.
    assert_eq!(destination_path(b".jpg", b"resized"), Err(ConvertError::UglyFile));
    assert_eq!(destination_path(b"", b"resized"), Err(ConvertError::UglyFile));
}

#[test]
fn jpg_extension_is_case_and_spelling_sensitive() {
    assert!(has_jpg_extension(b"a/b.jpg"));
    assert!(has_jpg_extension(b"b.jpg"));
    assert!(!has_jpg_extension(b"a/b.jpeg"));
    assert!(!has_jpg_extension(b"a/b.JPG"));
    assert!(!has_jpg_extension(b"a/bjpg"));
    assert!(!has_jpg_extension(b".jpg"));
    assert!(!has_jpg_extension(b"a.jpg/c"));
    assert!(has_jpg_extension(b"a.png/c.jpg"));
}

#[test]
fn join_inserts_exactly_one_separator() {
    assert_eq!(path_join(b"a", b"b"), b"a/b".to_vec());
    assert_eq!(path_join(b"a/", b"b"), b"a/b".to_vec());
    assert_eq!(path_join(b"", b"b"), b"b".to_vec());
    assert_eq!(path_join(b"a", b"/b"), b"/b".to_vec());
}

#[test]
fn rfind_finds_last_occurrence() {
    assert_eq!(rfind_byte(b"a/b/c", b'/'), Some(3));
    assert_eq!(rfind_byte(b"abc", b'/'), None);
    assert_eq!(rfind_byte(b"/", b'/'), Some(0));
}
