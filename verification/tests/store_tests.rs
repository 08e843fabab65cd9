use asset_pipeline::errors::PipelineError;
use asset_pipeline::store::{
    check_image_copy_request, check_image_copy_stat, check_text_read_request,
    check_text_read_stat, stored_file_name,
};

#[test]
fn stored_name_is_timestamp_dash_name() {
    assert_eq!(stored_file_name(1700000000000, "pic.png"), "1700000000000-pic.png");
    assert_eq!(stored_file_name(0, "a"), "0-a");
}

#[test]
fn distinct_names_never_collide() {
    let ts = 1700000000000;
    let a = stored_file_name(ts, "one.png");
    let b = stored_file_name(ts, "two.png");
    assert_ne!(a, b);
}

#[test]
fn distinct_timestamps_never_collide() {
    let a = stored_file_name(15, "x");
    let b = stored_file_name(1, "5-x");
    assert_ne!(a, b);
}

#[test]
fn identical_inputs_reuse_the_same_name() {
    let a = stored_file_name(7, "same.png");
    let b = stored_file_name(7, "same.png");
    assert_eq!(a, b);
}

#[test]
fn text_gate_rejects_png_before_any_read() {
    let e = check_text_read_request("notes.png").unwrap_err();
    assert!(matches!(e, PipelineError::InputValidation(_)));
    assert_eq!(e.message(), "unsupported file type");
}

#[test]
fn text_gate_accepts_markdown_paths() {
    assert!(check_text_read_request("notes.md").is_ok());
    assert!(check_text_read_request("notes.MARKDOWN").is_ok());
    assert!(check_text_read_request("notes.txt").is_ok());
}

#[test]
fn text_stat_gate_rejects_six_mebibyte_file() {
    let e = check_text_read_stat(true, 6 * 1024 * 1024).unwrap_err();
    assert_eq!(e.message(), "file too large");
}

#[test]
fn text_stat_gate_accepts_small_regular_file() {
    assert!(check_text_read_stat(true, 10).is_ok());
    assert!(check_text_read_stat(true, 5 * 1024 * 1024).is_ok());
}

#[test]
fn text_stat_gate_rejects_non_files() {
    let e = check_text_read_stat(false, 10).unwrap_err();
    assert_eq!(e.message(), "not a file");
}

#[test]
fn image_gate_checks_extension_and_size() {
    assert!(check_image_copy_request("shot.WEBP").is_ok());
    let e = check_image_copy_request("shot.pdf").unwrap_err();
    assert_eq!(e.message(), "unsupported image type");
    assert!(check_image_copy_stat(true, 20 * 1024 * 1024).is_ok());
    let e = check_image_copy_stat(true, 20 * 1024 * 1024 + 1).unwrap_err();
    assert_eq!(e.message(), "file too large");
    let e = check_image_copy_stat(false, 1).unwrap_err();
    assert_eq!(e.message(), "not a file");
}
