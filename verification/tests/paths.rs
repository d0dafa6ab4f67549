use hangul_conv::default_output_for;
use hangul_conv::paths::{archive_file_name, choose_output, folder_name, FolderError};
use std::path::{Path, PathBuf};

#[test]
fn the_archive_goes_next_to_the_folder() {
    assert_eq!(default_output_for(Path::new("/a/b")), Ok(PathBuf::from("/a/b.zip")));
    assert_eq!(default_output_for(Path::new("/a/b/")), Ok(PathBuf::from("/a/b.zip")));
    assert_eq!(default_output_for(Path::new("/a/b/.")), Ok(PathBuf::from("/a/b.zip")));
    assert_eq!(default_output_for(Path::new("a//b")), Ok(PathBuf::from("a/b.zip")));
    assert_eq!(default_output_for(Path::new("b")), Ok(PathBuf::from("b.zip")));
    assert_eq!(default_output_for(Path::new("/b")), Ok(PathBuf::from("/b.zip")));
    assert_eq!(default_output_for(Path::new("../b")), Ok(PathBuf::from("../b.zip")));
    assert_eq!(default_output_for(Path::new("./b")), Ok(PathBuf::from("./b.zip")));
    assert_eq!(default_output_for(Path::new("b.d")), Ok(PathBuf::from("b.d.zip")));
}

#[test]
fn only_the_name_of_the_folder_is_normalized() {
    let folder = Path::new("/\u{1112}\u{1161}/\u{1100}\u{1173}\u{11af}");
    assert_eq!(
        default_output_for(folder),
        Ok(PathBuf::from("/\u{1112}\u{1161}/\u{ae00}.zip"))
    );
    assert_eq!(folder_name(folder), Ok("\u{ae00}".to_string()));
}

#[test]
fn a_folder_without_a_name_has_no_archive() {
    for path in ["/", "", ".", "..", "/..", "a/.."] {
        assert_eq!(default_output_for(Path::new(path)), Err(FolderError::NoName), "{}", path);
        assert_eq!(folder_name(Path::new(path)), Err(FolderError::NoName), "{}", path);
    }
    assert_eq!(FolderError::NoName.message(), "folder has no name");
}

#[test]
fn an_output_that_is_given_is_taken() {
    let given = Some(PathBuf::from("/x/out.zip"));
    assert_eq!(choose_output(given, Path::new("/")), Ok(PathBuf::from("/x/out.zip")));
    assert_eq!(choose_output(None, Path::new("/a/b")), Ok(PathBuf::from("/a/b.zip")));
    assert_eq!(choose_output(None, Path::new("/")), Err(FolderError::NoName));
}

#[test]
fn archives_are_named_after_their_folder() {
    assert_eq!(archive_file_name("a".to_string()), "a.zip");
    assert_eq!(archive_file_name(String::new()), ".zip");
}
