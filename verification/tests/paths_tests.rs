use asset_pipeline::paths::{
    extension_lower_or_bin, extension_of, file_name_of, file_stem_of, file_stem_or_image,
    is_allowed_image_extension, is_allowed_text_extension,
};

#[test]
fn file_name_takes_last_component() {
    assert_eq!(file_name_of("dir/sub/pic.png"), "pic.png");
    assert_eq!(file_name_of("pic.png"), "pic.png");
    assert_eq!(file_name_of("dir/"), "");
}

#[test]
fn extension_is_after_last_inner_dot() {
    assert_eq!(extension_of("a/b.tar.gz"), Some("gz".to_string()));
    assert_eq!(extension_of("a/b.PNG"), Some("PNG".to_string()));
    assert_eq!(extension_of("a/b"), None);
    assert_eq!(extension_of(".gitignore"), None);
    assert_eq!(extension_of("dir.d/plain"), None);
}

#[test]
fn stem_is_before_last_inner_dot() {
    assert_eq!(file_stem_of("a/b.tar.gz"), Some("b.tar".to_string()));
    assert_eq!(file_stem_of("a/plain"), Some("plain".to_string()));
    assert_eq!(file_stem_of(".gitignore"), Some(".gitignore".to_string()));
    assert_eq!(file_stem_of("dir/"), None);
}

#[test]
fn text_allow_list_is_case_insensitive() {
    assert!(is_allowed_text_extension("notes.md"));
    assert!(is_allowed_text_extension("notes.MD"));
    assert!(is_allowed_text_extension("notes.MarkDown"));
    assert!(is_allowed_text_extension("notes.TXT"));
    assert!(!is_allowed_text_extension("notes.png"));
    assert!(!is_allowed_text_extension("notes"));
}

#[test]
fn image_allow_list_is_case_insensitive() {
    assert!(is_allowed_image_extension("p.PNG"));
    assert!(is_allowed_image_extension("p.PnG"));
    assert!(is_allowed_image_extension("p.jpg"));
    assert!(is_allowed_image_extension("p.JPEG"));
    assert!(is_allowed_image_extension("p.gif"));
    assert!(is_allowed_image_extension("p.webp"));
    assert!(is_allowed_image_extension("p.svg"));
    assert!(is_allowed_image_extension("p.bmp"));
    assert!(is_allowed_image_extension("p.ico"));
    assert!(!is_allowed_image_extension("p.pdf"));
    assert!(!is_allowed_image_extension("p"));
    assert!(!is_allowed_image_extension(".png"));
}

#[test]
fn upload_extension_defaults_to_bin() {
    assert_eq!(extension_lower_or_bin("shot.PNG"), "png");
    assert_eq!(extension_lower_or_bin("archive.tar.GZ"), "gz");
    assert_eq!(extension_lower_or_bin("plain"), "bin");
}

#[test]
fn upload_stem_defaults_to_image() {
    assert_eq!(file_stem_or_image("dir/Shot 1.PNG"), "Shot 1");
    assert_eq!(file_stem_or_image("dir/"), "image");
}
