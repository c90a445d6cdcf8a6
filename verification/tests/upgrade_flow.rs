use theia_plugins::errors::{ErrorKind, UpdateError};
use theia_plugins::upgrade::{conclude, plan_upgrade, Outcome, UpgradeStep};
use theia_plugins::version::Version;
use theia_plugins::TheiaPlugin;

fn v(s: &str) -> Version {
    Version::from_str(s).unwrap()
}

#[test]
fn equal_versions_skip() {
    let step = plan_upgrade(Ok(Some(v("1.2.3"))), Ok((v("1.2.3"), "u".to_string())));
    assert!(matches!(step, UpgradeStep::Skip));
}

#[test]
fn only_equality_skips() {
    let step = plan_upgrade(Ok(Some(v("2.0.0"))), Ok((v("1.2.3"), "u".to_string())));
    assert!(matches!(step, UpgradeStep::Fetch(_)));
}

#[test]
fn absent_installation_fetches_and_installs() {
    let step = plan_upgrade(Ok(None), Ok((v("1.2.3"), "https://dl".to_string())));
    match step {
        UpgradeStep::Fetch(url) => assert_eq!(url, "https://dl"),
        _ => panic!("expected a download"),
    }
    assert!(matches!(conclude(Ok(())), Outcome::Installed));
}

#[test]
fn lookup_failure_fails_the_unit() {
    let step = plan_upgrade(
        Err(UpdateError::Io("fault".to_string())),
        Ok((v("1.0.0"), "u".to_string())),
    );
    match step {
        UpgradeStep::Fail(e) => assert_eq!(e.kind(), ErrorKind::Io),
        _ => panic!("expected the unit to fail"),
    }
}

#[test]
fn install_failure_ends_in_failed_outcome() {
    let o = conclude(Err(UpdateError::Network("down".to_string())));
    match o {
        Outcome::Failed(e) => assert_eq!(e.kind(), ErrorKind::Network),
        _ => panic!("expected a failed outcome"),
    }
}

#[test]
fn response_judged_by_status_and_content_type() {
    let p = TheiaPlugin::new("https://r/$$", "version", "url", "/tmp/t");
    let body = br#"{"version":"0.1.0","url":"https://d"}"#.to_vec();
    let by_status = p.get_last_version(404, "application/json", &body).unwrap_err();
    assert_eq!(by_status.kind(), ErrorKind::Network);
    let by_type = p.get_last_version(200, "text/html", &body).unwrap_err();
    assert_eq!(by_type.kind(), ErrorKind::ContentType);
    let (ver, url) = p
        .get_last_version(200, "application/json; charset=utf-8", &body)
        .unwrap();
    assert_eq!(ver, v("0.1.0"));
    assert_eq!(url, "https://d");
}
