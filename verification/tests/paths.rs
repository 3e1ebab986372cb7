use std::path::PathBuf;

use rustconvert::paths::path;

#[test]
fn utf8_paths_are_passed_as_is() {
    let p = PathBuf::from("/tmp/.tmpX/67e55044.wav");
    assert_eq!(path(&p), "/tmp/.tmpX/67e55044.wav");
    let p = PathBuf::from("/tmp/thư mục/a b.pdf");
    assert_eq!(path(&p), "/tmp/thư mục/a b.pdf");
    assert_eq!(path(&PathBuf::new()), "");
}
