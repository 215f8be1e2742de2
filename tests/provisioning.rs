use mod_manager::provision::{
    needs_update, plan_provision, runner_executable, select_release, DownloadEvent,
    ProvisionError, ProvisionPlan, ReleaseAsset, ReleaseFeed, RunnerRelease, Timestamp, UmuAvailability,
};
use mod_manager::error::ErrorCode;

fn release(date: &str) -> RunnerRelease {
    RunnerRelease { release_date: date.to_string(), url: "https://example.invalid/umu-zipapp.tar".to_string() }
}

fn installs(p: &ProvisionPlan, date: &str) -> bool {
    match p {
        ProvisionPlan::Install { url, release_date } => {
            url == "https://example.invalid/umu-zipapp.tar" && release_date == date
        }
        ProvisionPlan::UseInstalled => false,
    }
}

#[test]
fn timestamps_parse_and_compare() {
    let t = Timestamp::parse("2024-01-01T00:00:00Z").unwrap();
    assert_eq!(t, Timestamp { secs: 1704067200, nanos: 0 });
    let u = Timestamp::parse("2024-01-01T01:00:00+01:00").unwrap();
    assert_eq!(u, t);
    let v = Timestamp::parse("2024-01-01T00:00:00.5Z").unwrap();
    assert_eq!(v.nanos, 500_000_000);
    assert!(v.is_later_than(&t));
    assert!(!t.is_later_than(&v));
    assert!(Timestamp::parse("yesterday").is_none());
}

#[test]
fn update_needed_only_for_newer_release() {
    let old = Timestamp { secs: 100, nanos: 0 };
    let new = Timestamp { secs: 200, nanos: 0 };
    assert!(needs_update(None, old));
    assert!(needs_update(Some(old), new));
    assert!(!needs_update(Some(new), old));
    assert!(!needs_update(Some(old), old));
}

#[test]
fn plan_with_earlier_marker_installs() {
    let p = plan_provision(
        UmuAvailability::Local,
        Some("2024-01-01T00:00:00Z".to_string()),
        Ok(release("2024-06-01T00:00:00Z")),
    )
    .unwrap();
    assert!(installs(&p, "2024-06-01T00:00:00Z"));
}

#[test]
fn plan_with_equal_or_later_marker_keeps_runner() {
    let same = plan_provision(
        UmuAvailability::Local,
        Some("2024-06-01T00:00:00Z".to_string()),
        Ok(release("2024-06-01T00:00:00Z")),
    )
    .unwrap();
    assert!(matches!(same, ProvisionPlan::UseInstalled));
    let later = plan_provision(
        UmuAvailability::Local,
        Some("2025-01-01T00:00:00Z".to_string()),
        Ok(release("2024-06-01T00:00:00Z")),
    )
    .unwrap();
    assert!(matches!(later, ProvisionPlan::UseInstalled));
}

#[test]
fn plan_without_marker_installs() {
    let p = plan_provision(UmuAvailability::Local, None, Ok(release("2024-06-01T00:00:00Z"))).unwrap();
    assert!(installs(&p, "2024-06-01T00:00:00Z"));
    let fresh = plan_provision(UmuAvailability::NotAvailable, None, Ok(release("2024-06-01T00:00:00Z"))).unwrap();
    assert!(installs(&fresh, "2024-06-01T00:00:00Z"));
}

#[test]
fn plan_failures() {
    let degraded = plan_provision(UmuAvailability::Local, None, Err(ProvisionError::Network)).unwrap();
    assert!(matches!(degraded, ProvisionPlan::UseInstalled));
    let bad_marker = plan_provision(UmuAvailability::Local, Some("garbage".to_string()), Ok(release("2024-06-01T00:00:00Z"))).unwrap();
    assert!(matches!(bad_marker, ProvisionPlan::UseInstalled));
    assert_eq!(
        plan_provision(UmuAvailability::NotAvailable, None, Err(ProvisionError::Network)).unwrap_err(),
        ProvisionError::Network
    );
    let global = plan_provision(UmuAvailability::Global, None, Err(ProvisionError::Network)).unwrap();
    assert!(matches!(global, ProvisionPlan::UseInstalled));
    assert_eq!(ProvisionError::InvalidJson.code(), ErrorCode::ExternalToolError);
}

fn asset(name: Option<&str>, url: Option<&str>) -> ReleaseAsset {
    ReleaseAsset { name: name.map(str::to_string), browser_download_url: url.map(str::to_string) }
}

fn feed(date: Option<&str>, assets: Option<Vec<ReleaseAsset>>) -> ReleaseFeed {
    ReleaseFeed { updated_at: date.map(str::to_string), assets }
}

#[test]
fn feed_selection() {
    let f = feed(
        Some("2024-06-01T00:00:00Z"),
        Some(vec![
            asset(Some("umu-launcher-1.0.tar.gz"), Some("https://x/a")),
            asset(Some("umu-launcher-1.0-zipapp.tar"), Some("https://x/zipapp")),
            asset(Some("other-zipapp"), Some("https://x/second")),
        ]),
    );
    let r = select_release(&f).unwrap();
    assert_eq!(r.release_date, "2024-06-01T00:00:00Z");
    assert_eq!(r.url, "https://x/zipapp");
}

#[test]
fn feed_errors() {
    assert_eq!(select_release(&feed(None, Some(vec![]))).unwrap_err(), ProvisionError::MissingReleaseDate);
    assert_eq!(select_release(&feed(Some("x"), None)).unwrap_err(), ProvisionError::MissingAssets);
    assert_eq!(
        select_release(&feed(Some("x"), Some(vec![asset(Some("plain.tar"), Some("u"))]))).unwrap_err(),
        ProvisionError::MissingDownloadUrl
    );
    assert_eq!(
        select_release(&feed(Some("x"), Some(vec![asset(Some("a-zipapp"), None), asset(Some("b-zipapp"), Some("u"))])))
            .unwrap_err(),
        ProvisionError::MissingDownloadUrl
    );
    assert_eq!(select_release(&feed(Some("x"), Some(vec![]))).unwrap_err(), ProvisionError::MissingDownloadUrl);
}

#[test]
fn select_release_directly() {
    let feed = ReleaseFeed {
        updated_at: Some("d".to_string()),
        assets: Some(vec![
            ReleaseAsset { name: None, browser_download_url: Some("u0".to_string()) },
            ReleaseAsset { name: Some("zipapp".to_string()), browser_download_url: Some("u1".to_string()) },
        ]),
    };
    let r = select_release(&feed).unwrap();
    assert_eq!(r.url, "u1");
    assert_eq!(r.release_date, "d");
}

#[test]
fn runner_location_and_events() {
    assert_eq!(runner_executable("/data/umu-launcher/"), "/data/umu-launcher/umu/umu-run");
    assert_eq!(DownloadEvent::Start.as_str(), "start");
    assert_eq!(DownloadEvent::Success.as_str(), "success");
    assert_eq!(DownloadEvent::Error.as_str(), "error");
}
