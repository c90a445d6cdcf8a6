use theia_plugins::errors::ErrorKind;
use theia_plugins::json::{json_as_text, resolve_path, JsonValue};
use theia_plugins::resolver::TheiaPluginAPI;
use theia_plugins::version::Version;

fn doc_assets() -> JsonValue {
    JsonValue::Object(vec![(
        "assets".to_string(),
        JsonValue::Array(vec![JsonValue::Object(vec![(
            "url".to_string(),
            JsonValue::Text("X".to_string()),
        )])]),
    )])
}

#[test]
fn array_descent_resolves_first_element() {
    let doc = doc_assets();
    let path = vec!["assets".to_string(), "url".to_string()];
    let node = resolve_path(&doc, &path).unwrap();
    assert_eq!(json_as_text(node).unwrap().as_str(), "X");
}

#[test]
fn missing_key_fails_resolution() {
    let doc = doc_assets();
    let path = vec!["assets".to_string(), "size".to_string()];
    assert!(resolve_path(&doc, &path).is_none());
}

#[test]
fn empty_array_fails_resolution() {
    let doc = JsonValue::Object(vec![("assets".to_string(), JsonValue::Array(vec![]))]);
    let path = vec!["assets".to_string(), "url".to_string()];
    assert!(resolve_path(&doc, &path).is_none());
}

#[test]
fn build_url_inserts_remote_path() {
    let api = TheiaPluginAPI::new("https://reg/$$/latest", "v", "d");
    assert_eq!(api.build_url("my.plugin"), "https://reg/my.plugin/latest");
}

#[test]
fn template_without_marker_is_prefix_only() {
    let api = TheiaPluginAPI::new("https://reg/", "v", "d");
    assert_eq!(api.build_url("p"), "https://reg/p");
}

fn sample_api() -> TheiaPluginAPI {
    TheiaPluginAPI::new(
        "https://reg/$$/info",
        "versions.version",
        "versions.files.url",
    )
}

#[test]
fn metadata_parse_end_to_end() {
    let body =
        br#"{"versions":[{"version":"v1.2.3","files":[{"url":"https://dl/x.vsix"}]}]}"#.to_vec();
    let (ver, url) = sample_api().parse_json(&body).unwrap();
    assert_eq!(ver, Version { major: 1, minor: 2, patch: 3 });
    assert_eq!(url, "https://dl/x.vsix");
}

#[test]
fn malformed_body_is_parse_error() {
    let err = sample_api().parse_json(&b"not json".to_vec()).unwrap_err();
    assert_eq!(err.kind(), ErrorKind::Parse);
}

#[test]
fn missing_path_is_path_not_found() {
    let body = br#"{"other":1}"#.to_vec();
    let err = sample_api().parse_json(&body).unwrap_err();
    assert_eq!(err.kind(), ErrorKind::PathNotFound);
    assert_eq!(err.context(), "version");
}

#[test]
fn missing_download_path_names_it() {
    let body = br#"{"versions":[{"version":"1.2.3"}]}"#.to_vec();
    let err = sample_api().parse_json(&body).unwrap_err();
    assert_eq!(err.kind(), ErrorKind::PathNotFound);
    assert_eq!(err.context(), "download");
}

#[test]
fn non_string_version_is_wrong_type() {
    let body = br#"{"versions":[{"version":7,"files":[{"url":"u"}]}]}"#.to_vec();
    let err = sample_api().parse_json(&body).unwrap_err();
    assert_eq!(err.kind(), ErrorKind::WrongType);
}

#[test]
fn bad_version_string_is_version_format() {
    let body = br#"{"versions":[{"version":"1.2.x","files":[{"url":"u"}]}]}"#.to_vec();
    let err = sample_api().parse_json(&body).unwrap_err();
    assert_eq!(err.kind(), ErrorKind::VersionFormat);
    assert_eq!(err.context(), "1.2.x");
}
