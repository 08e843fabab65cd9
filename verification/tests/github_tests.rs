use asset_pipeline::errors::PipelineError;
use asset_pipeline::github::{
    access_from_flags, check_upload_source, choose_upload_encoding, commit_message, contents_url,
    default_branch, default_prefix, destination_path, github_api_version,
    interpret_upload_response, interpret_validate_response, prepare_publish, put_content_body,
    raw_content_url, repo_api_url, user_agent,
};

#[test]
fn url_builders_follow_the_templates() {
    assert_eq!(repo_api_url("o", "r"), "https://api.github.com/repos/o/r");
    assert_eq!(
        contents_url("o", "r", "images/1-a.png"),
        "https://api.github.com/repos/o/r/contents/images/1-a.png"
    );
    assert_eq!(
        raw_content_url("o", "r", "main", "images/1-a.png"),
        "https://raw.githubusercontent.com/o/r/main/images/1-a.png"
    );
}

#[test]
fn fixed_header_values() {
    assert_eq!(github_api_version(), "2022-11-28");
    assert_eq!(user_agent(), "Carbo Markdown Editor");
}

#[test]
fn branch_and_prefix_defaults() {
    assert_eq!(default_branch(""), "master");
    assert_eq!(default_branch("   "), "master");
    assert_eq!(default_branch(" dev "), "dev");
    assert_eq!(default_prefix(""), "images");
    assert_eq!(default_prefix(" / "), "images");
    assert_eq!(default_prefix(" /a/b/ "), "a/b");
    assert_eq!(default_prefix("assets"), "assets");
}

#[test]
fn destination_path_embeds_all_parts() {
    assert_eq!(
        destination_path("", 1700000000000, "pic", "png"),
        "images/1700000000000-pic.png"
    );
    assert_eq!(destination_path("/a/", 5, "s", "jpg"), "a/5-s.jpg");
}

#[test]
fn commit_message_embeds_the_path() {
    assert_eq!(
        commit_message("images/1-a.png"),
        "chore(images): add images/1-a.png"
    );
}

#[test]
fn request_body_is_valid_escaped_json() {
    let body = put_content_body("add \"x\"", "aGVsbG8=", "dev\\branch\n");
    let v: serde_json::Value = serde_json::from_str(&body).unwrap();
    assert_eq!(v["message"], "add \"x\"");
    assert_eq!(v["content"], "aGVsbG8=");
    assert_eq!(v["branch"], "dev\\branch\n");
}

#[test]
fn access_flags_fail_closed() {
    let r = access_from_flags(Some(true), None);
    assert!(r.push && !r.admin);
    let r = access_from_flags(Some(false), Some(true));
    assert!(!r.push && r.admin);
    let r = access_from_flags(None, None);
    assert!(!r.push && !r.admin);
}

#[test]
fn validate_reads_push_without_admin_key() {
    let r = interpret_validate_response(200, "{\"permissions\":{\"push\":true}}").unwrap();
    assert!(r.push);
    assert!(!r.admin);
}

#[test]
fn validate_defaults_missing_permissions_to_denied() {
    let r = interpret_validate_response(200, "{}").unwrap();
    assert!(!r.push && !r.admin);
    let r = interpret_validate_response(200, "{\"permissions\":{}}").unwrap();
    assert!(!r.push && !r.admin);
    let r =
        interpret_validate_response(200, "{\"permissions\":{\"push\":false,\"admin\":true}}")
            .unwrap();
    assert!(!r.push && r.admin);
}

#[test]
fn validate_ignores_unrelated_response_fields() {
    let body = "{\"id\":1,\"full_name\":\"o/r\",\"private\":false,\
                \"permissions\":{\"pull\":true,\"push\":true,\"admin\":false},\"size\":12}";
    let r = interpret_validate_response(204, body).unwrap();
    assert!(r.push);
    assert!(!r.admin);
}

#[test]
fn validate_surfaces_status_and_body() {
    let e = interpret_validate_response(404, "Not Found").unwrap_err();
    assert!(matches!(e, PipelineError::RemoteFailure(_)));
    assert_eq!(e.message(), "github validate failed: 404 Not Found");
}

#[test]
fn validate_rejects_malformed_success_body() {
    let e = interpret_validate_response(200, "{ not json").unwrap_err();
    assert!(matches!(e, PipelineError::RemoteFailure(_)));
}

#[test]
fn upload_url_embeds_server_confirmed_path_verbatim() {
    let body = "{\"content\":{\"path\":\"srv/echoed-elsewhere.png\"}}";
    let url = interpret_upload_response(201, body, "o", "r", "main").unwrap();
    assert_eq!(
        url,
        "https://raw.githubusercontent.com/o/r/main/srv/echoed-elsewhere.png"
    );
}

#[test]
fn upload_surfaces_status_and_body() {
    let e = interpret_upload_response(500, "boom", "o", "r", "main").unwrap_err();
    assert!(matches!(e, PipelineError::RemoteFailure(_)));
    assert_eq!(e.message(), "github upload failed: 500 boom");
}

#[test]
fn upload_rejects_success_body_without_path() {
    let e = interpret_upload_response(201, "{}", "o", "r", "main").unwrap_err();
    assert!(matches!(e, PipelineError::RemoteFailure(_)));
    let e = interpret_upload_response(201, "{\"content\":{}}", "o", "r", "main").unwrap_err();
    assert!(matches!(e, PipelineError::RemoteFailure(_)));
}

#[test]
fn upload_source_must_be_a_regular_file() {
    assert!(check_upload_source(true).is_ok());
    let e = check_upload_source(false).unwrap_err();
    assert!(matches!(e, PipelineError::InputValidation(_)));
    assert_eq!(e.message(), "not a file");
}

#[test]
fn under_budget_upload_keeps_bytes_and_extension() {
    let asset = choose_upload_encoding(b"hello".to_vec(), "dir/Pic.PNG", 100).unwrap();
    assert_eq!(asset.bytes, b"hello".to_vec());
    assert_eq!(asset.extension, "png");
    let asset = choose_upload_encoding(b"hello".to_vec(), "dir/plain", 100).unwrap();
    assert_eq!(asset.extension, "bin");
}

#[test]
fn prepare_publish_under_budget_is_fully_determined() {
    let r = prepare_publish(
        "o",
        "r",
        " ",
        "",
        "dir/My Pic.PNG",
        b"hello".to_vec(),
        1000,
        5,
    )
    .unwrap();
    assert_eq!(r.branch, "master");
    assert_eq!(r.destination_path, "images/5-My_Pic.png");
    assert_eq!(
        r.url,
        "https://api.github.com/repos/o/r/contents/images/5-My_Pic.png"
    );
    assert_eq!(
        r.body,
        "{\"message\":\"chore(images): add images/5-My_Pic.png\",\"content\":\"aGVsbG8=\",\"branch\":\"master\"}"
    );
}

#[test]
fn prepare_publish_over_budget_reencodes_as_jpeg() {
    let img = image::RgbImage::from_fn(2400, 800, |x, y| {
        let xf = x as f64;
        let yf = y as f64;
        let r = ((xf * 0.11).sin() * (yf * 0.07).cos() * 127.0 + 128.0) as u8;
        let g = ((xf * 0.05 + yf * 0.13).sin() * 127.0 + 128.0) as u8;
        let b = ((xf * 0.02).cos() * (yf * 0.03).sin() * 127.0 + 128.0) as u8;
        image::Rgb([r, g, b])
    });
    let mut png = Vec::new();
    image::DynamicImage::ImageRgb8(img)
        .write_to(&mut std::io::Cursor::new(&mut png), image::ImageFormat::Png)
        .unwrap();
    let budget: u64 = 500000;
    assert!(png.len() as u64 > budget);
    let r = prepare_publish("o", "r", "dev", "shots", "up/noise.png", png, budget, 9).unwrap();
    assert_eq!(r.branch, "dev");
    assert_eq!(r.destination_path, "shots/9-noise.jpg");
    assert_eq!(
        r.url,
        "https://api.github.com/repos/o/r/contents/shots/9-noise.jpg"
    );
    let v: serde_json::Value = serde_json::from_str(&r.body).unwrap();
    assert_eq!(v["branch"], "dev");
    assert_eq!(v["message"], "chore(images): add shots/9-noise.jpg");
    // the content is the base64 of a JPEG under the budget
    let content = v["content"].as_str().unwrap();
    let decoded = base64::Engine::decode(&base64::engine::general_purpose::STANDARD, content)
        .unwrap();
    assert!(decoded.len() as u64 <= budget);
    assert_eq!(&decoded[0..2], &[0xff, 0xd8]);
}
