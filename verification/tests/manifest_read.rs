use theia_plugins::errors::ErrorKind;
use theia_plugins::manifest::{ManifestRead, TheiaPluginLCL};
use theia_plugins::version::Version;

fn store() -> TheiaPluginLCL {
    TheiaPluginLCL::new("/tmp/plugins")
}

#[test]
fn missing_manifest_is_not_installed() {
    assert_eq!(store().get_version(&ManifestRead::Absent).unwrap(), None);
}

#[test]
fn unreadable_manifest_is_io_error() {
    let err = store()
        .get_version(&ManifestRead::Unreadable("denied".to_string()))
        .unwrap_err();
    assert_eq!(err.kind(), ErrorKind::Io);
}

#[test]
fn manifest_version_is_read() {
    let xml = r#"<?xml version="1.0" encoding="utf-8"?><PackageManifest><Metadata><Identity Language="en-US" Id="p" Version="1.40.2" Publisher="x"/></Metadata></PackageManifest>"#;
    let v = store()
        .get_version(&ManifestRead::Found(xml.to_string()))
        .unwrap();
    assert_eq!(v, Some(Version { major: 1, minor: 40, patch: 2 }));
}

#[test]
fn manifest_without_identity_is_format_error() {
    let err = store()
        .get_version(&ManifestRead::Found("<a><b/></a>".to_string()))
        .unwrap_err();
    assert_eq!(err.kind(), ErrorKind::ManifestFormat);
}

#[test]
fn identity_without_version_is_format_error() {
    let xml = r#"<m><Identity Id="p"/></m>"#;
    let err = store()
        .get_version(&ManifestRead::Found(xml.to_string()))
        .unwrap_err();
    assert_eq!(err.kind(), ErrorKind::ManifestFormat);
}

#[test]
fn first_identity_decides() {
    let xml = r#"<m><Identity Id="p"/><Identity Version="1.0.0"/></m>"#;
    let err = store()
        .get_version(&ManifestRead::Found(xml.to_string()))
        .unwrap_err();
    assert_eq!(err.kind(), ErrorKind::ManifestFormat);
}

#[test]
fn bad_version_in_manifest_is_version_format() {
    let xml = r#"<m><Identity Version="1.2.x"/></m>"#;
    let err = store()
        .get_version(&ManifestRead::Found(xml.to_string()))
        .unwrap_err();
    assert_eq!(err.kind(), ErrorKind::VersionFormat);
}

#[test]
fn manifest_path_is_under_plugin_dir() {
    assert_eq!(
        store().manifest_path("p"),
        "/tmp/plugins/p/extension.vsixmanifest"
    );
}
