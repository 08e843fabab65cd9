use asset_pipeline::chars::{lower_str, trim_char_str, trim_ws_str, u64_to_string};
use asset_pipeline::errors::PipelineError;

#[test]
fn decimal_rendering() {
    assert_eq!(u64_to_string(0), "0");
    assert_eq!(u64_to_string(7), "7");
    assert_eq!(u64_to_string(1234567890), "1234567890");
    assert_eq!(u64_to_string(u64::MAX), "18446744073709551615");
}

#[test]
fn ascii_lowering() {
    assert_eq!(lower_str("MiXeD-09_z"), "mixed-09_z");
    assert_eq!(lower_str(""), "");
    assert_eq!(lower_str("\u{c9}t\u{e9}"), "\u{c9}t\u{e9}");
}

#[test]
fn whitespace_and_char_trimming() {
    assert_eq!(trim_ws_str(" \t a b \r\n"), "a b");
    assert_eq!(trim_ws_str("   "), "");
    assert_eq!(trim_ws_str("\u{a0}x\u{3000}"), "x");
    assert_eq!(trim_char_str("//a/b//", '/'), "a/b");
    assert_eq!(trim_char_str("aaa", 'a'), "");
}

#[test]
fn error_messages_pass_through() {
    let e = PipelineError::ResourceFailure("disk full".to_string());
    assert_eq!(e.message(), "disk full");
    let e = PipelineError::RemoteFailure("409 conflict".to_string());
    assert_eq!(e.message(), "409 conflict");
}
