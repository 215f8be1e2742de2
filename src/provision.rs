//! Provisioning of the compatibility runner: reading the release feed and
//! deciding whether the installed runner is current.

use vstd::prelude::*;
use crate::error::ErrorCode;
use crate::paths::{join_of, join_path};
use crate::search::{first_match, lemma_first_match, lemma_first_match_at};
use crate::text::{contains, contains_seq};

verus! {

/// The instant an RFC 3339 text denotes, as seconds since the Unix epoch and
/// nanoseconds past that second, or `None` when the text is not RFC 3339.
pub uninterp spec fn rfc3339_instant(s: Seq<char>) -> Option<(i64, u32)>;

/// Relies on `chrono::DateTime::parse_from_rfc3339`, then `timestamp` and
/// `timestamp_subsec_nanos` of the result; the outcome depends on the text
/// alone.
#[verifier::external_body]
fn parse_rfc3339(s: &str) -> (r: Option<(i64, u32)>)
    ensures
        r == rfc3339_instant(s@),
{
    match chrono::DateTime::parse_from_rfc3339(s) {
        Ok(d) => {
            let u = d.with_timezone(&chrono::Utc);
            Some((u.timestamp(), u.timestamp_subsec_nanos()))
        },
        Err(_) => None,
    }
}

/// An instant in UTC.
#[derive(Clone, Copy, Debug, PartialEq, Eq, Structural)]
pub struct Timestamp {
    pub secs: i64,
    pub nanos: u32,
}

/// `a` is strictly later than `b`.
pub open spec fn later_than(a: Timestamp, b: Timestamp) -> bool {
    a.secs > b.secs || (a.secs == b.secs && a.nanos > b.nanos)
}

impl Timestamp {
    /// The instant of an RFC 3339 text.
    pub fn parse(s: &str) -> (r: Option<Timestamp>)
        ensures
            match rfc3339_instant(s@) {
                Some(p) => r == Some(Timestamp { secs: p.0, nanos: p.1 }),
                None => r is None,
            },
    {
        match parse_rfc3339(s) {
            Some(p) => Some(Timestamp { secs: p.0, nanos: p.1 }),
            None => None,
        }
    }

    /// Whether this instant is strictly later than `other`.
    pub fn is_later_than(&self, other: &Timestamp) -> (r: bool)
        ensures
            r == later_than(*self, *other),
    {
        self.secs > other.secs || (self.secs == other.secs && self.nanos > other.nanos)
    }
}

/// Whether the runner must be downloaded: when no version is recorded, or
/// when the release is strictly newer than the recorded version.
pub fn needs_update(installed: Option<Timestamp>, release: Timestamp) -> (r: bool)
    ensures
        r == match installed {
            Some(m) => later_than(release, m),
            None => true,
        },
{
    match installed {
        Some(m) => release.is_later_than(&m),
        None => true,
    }
}

/// Why provisioning failed.
#[derive(Clone, Copy, Debug, PartialEq, Eq, Structural)]
pub enum ProvisionError {
    /// The feed could not be fetched, or the download failed.
    Network,
    /// The feed is not a JSON document of the expected shape.
    InvalidJson,
    /// The feed has no release date.
    MissingReleaseDate,
    /// The feed has no asset list.
    MissingAssets,
    /// No asset of the wanted kind carries a download URL.
    MissingDownloadUrl,
}

impl ProvisionError {
    /// The error code under which a provisioning failure is reported.
    pub fn code(&self) -> (r: ErrorCode)
        ensures
            r == ErrorCode::ExternalToolError,
    {
        ErrorCode::ExternalToolError
    }
}

/// One asset of a release, as the feed lists it.
#[derive(Clone, Debug)]
pub struct ReleaseAsset {
    pub name: Option<String>,
    pub browser_download_url: Option<String>,
}

/// What the logic reads of the release feed.
#[derive(Clone, Debug)]
pub struct ReleaseFeed {
    pub updated_at: Option<String>,
    pub assets: Option<Vec<ReleaseAsset>>,
}

/// The latest runner release.
#[derive(Clone, Debug)]
pub struct RunnerRelease {
    pub release_date: String,
    pub url: String,
}

/// The marker that selects the self-contained runner package.
pub open spec fn asset_marker() -> Seq<char> {
    "zipapp"@
}

/// Whether an asset is the self-contained runner package.
pub open spec fn is_runner_asset(a: ReleaseAsset) -> bool {
    match a.name {
        Some(n) => contains_seq(n@, asset_marker()),
        None => false,
    }
}

/// The index of the first runner asset.
pub open spec fn first_runner_asset(assets: Seq<ReleaseAsset>) -> Option<int> {
    first_match(assets, |a: ReleaseAsset| is_runner_asset(a))
}

/// What the feed gives: the release date and the URL of the first runner
/// asset, or the first thing that is missing.
pub open spec fn release_of(f: ReleaseFeed) -> Result<(Seq<char>, Seq<char>), ProvisionError> {
    match f.updated_at {
        None => Err(ProvisionError::MissingReleaseDate),
        Some(d) => match f.assets {
            None => Err(ProvisionError::MissingAssets),
            Some(a) => match first_runner_asset(a@) {
                None => Err(ProvisionError::MissingDownloadUrl),
                Some(k) => match a@[k].browser_download_url {
                    None => Err(ProvisionError::MissingDownloadUrl),
                    Some(u) => Ok((d@, u@)),
                },
            },
        },
    }
}

/// The views of a release result.
pub open spec fn release_view(r: Result<RunnerRelease, ProvisionError>) -> Result<(Seq<char>, Seq<char>), ProvisionError> {
    match r {
        Ok(rel) => Ok((rel.release_date@, rel.url@)),
        Err(e) => Err(e),
    }
}

/// Selects the release from what was read of the feed.
pub fn select_release(feed: &ReleaseFeed) -> (r: Result<RunnerRelease, ProvisionError>)
    ensures
        release_view(r) == release_of(*feed),
{
    let date = match &feed.updated_at {
        Some(d) => d,
        None => return Err(ProvisionError::MissingReleaseDate),
    };
    let assets = match &feed.assets {
        Some(a) => a,
        None => return Err(ProvisionError::MissingAssets),
    };
    let mut i: usize = 0;
    while i < assets.len()
        invariant
            i <= assets.len(),
            feed.assets == Some(*assets),
            feed.updated_at == Some(*date),
            forall|j: int| 0 <= j < i ==> !is_runner_asset(#[trigger] assets@[j]),
        decreases assets.len() - i,
    {
        let hit = match &assets[i].name {
            Some(n) => {
                let c = contains(n.as_str(), "zipapp");
                c
            },
            None => false,
        };
        if hit {
            proof {
                assert(is_runner_asset(assets@[i as int]));
                lemma_first_match_at(assets@, |a: ReleaseAsset| is_runner_asset(a), i as int);
                assert(first_runner_asset(assets@) == Some(i as int));
                assert(feed.assets == Some(*assets));
                assert(feed.updated_at == Some(*date));
            }
            return match &assets[i].browser_download_url {
                Some(u) => Ok(RunnerRelease { release_date: date.clone(), url: u.clone() }),
                None => Err(ProvisionError::MissingDownloadUrl),
            };
        }
        i = i + 1;
    }
    proof {
        lemma_first_match(assets@, |a: ReleaseAsset| is_runner_asset(a));
        if first_runner_asset(assets@) is Some {
            let fk = first_runner_asset(assets@)->0;
            assert(!is_runner_asset(assets@[fk]));
        }
    }
    Err(ProvisionError::MissingDownloadUrl)
}

/// Where a runner is available.
#[derive(Clone, Copy, Debug, PartialEq, Eq, Structural)]
pub enum UmuAvailability {
    /// Installed in the manager's own data directory.
    Local,
    /// On the system's search path.
    Global,
    /// Nowhere.
    NotAvailable,
}

/// What to do about the runner before a launch.
#[derive(Clone, Debug)]
pub enum ProvisionPlan {
    /// Keep the runner that is there.
    UseInstalled,
    /// Download the archive at `url`, unpack it over the install directory,
    /// then record `release_date` as the installed version.
    Install { url: String, release_date: String },
}

/// The plan for a runner release: install it, recording its date.
pub open spec fn installs(p: ProvisionPlan, rel: RunnerRelease) -> bool {
    match p {
        ProvisionPlan::Install { url, release_date } => url == rel.url && release_date == rel.release_date,
        ProvisionPlan::UseInstalled => false,
    }
}

/// The decision for a locally installed runner, from the recorded version
/// and the fetched release: `Some(true)` to install, `Some(false)` to keep,
/// `None` when a date cannot be read.
pub open spec fn local_decision(marker: Option<String>, rel: RunnerRelease) -> Option<bool> {
    match marker {
        None => Some(true),
        Some(m) => match (rfc3339_instant(m@), rfc3339_instant(rel.release_date@)) {
            (Some(a), Some(b)) => Some(later_than(
                Timestamp { secs: b.0, nanos: b.1 },
                Timestamp { secs: a.0, nanos: a.1 },
            )),
            _ => None,
        },
    }
}

/// Decides what to do about the runner. A runner on the search path is used
/// as is. With a local runner, the release is installed when no version is
/// recorded or when it is strictly newer than the recorded one, and nothing
/// is done otherwise; a failed fetch or an unreadable date keeps the
/// installed runner. Without a runner the recorded version is not consulted:
/// a version file with no executable beside it marks an install that did not
/// complete, and keeping it would leave nothing to launch with. The fetched
/// release is installed then, and a failed fetch is fatal.
pub fn plan_provision(
    availability: UmuAvailability,
    marker: Option<String>,
    fetched: Result<RunnerRelease, ProvisionError>,
) -> (r: Result<ProvisionPlan, ProvisionError>)
    ensures
        availability == UmuAvailability::Global ==> r matches Ok(ProvisionPlan::UseInstalled),
        availability == UmuAvailability::NotAvailable ==> match fetched {
            Ok(rel) => r matches Ok(p) && installs(p, rel),
            Err(e) => r == Err::<ProvisionPlan, ProvisionError>(e),
        },
        availability == UmuAvailability::Local ==> match fetched {
            Ok(rel) => match local_decision(marker, rel) {
                Some(true) => r matches Ok(p) && installs(p, rel),
                _ => r matches Ok(ProvisionPlan::UseInstalled),
            },
            Err(_) => r matches Ok(ProvisionPlan::UseInstalled),
        },
{
    match availability {
        UmuAvailability::Global => Ok(ProvisionPlan::UseInstalled),
        UmuAvailability::NotAvailable => match fetched {
            Ok(rel) => Ok(ProvisionPlan::Install { url: rel.url, release_date: rel.release_date }),
            Err(e) => Err(e),
        },
        UmuAvailability::Local => match fetched {
            Err(_) => Ok(ProvisionPlan::UseInstalled),
            Ok(rel) => {
                let update = match &marker {
                    None => true,
                    Some(m) => match (Timestamp::parse(m.as_str()), Timestamp::parse(rel.release_date.as_str())) {
                        (Some(installed), Some(release)) => needs_update(Some(installed), release),
                        _ => false,
                    },
                };
                if update {
                    Ok(ProvisionPlan::Install { url: rel.url, release_date: rel.release_date })
                } else {
                    Ok(ProvisionPlan::UseInstalled)
                }
            },
        },
    }
}

/// The runner executable inside its install directory.
pub fn runner_executable(install_dir: &str) -> (r: String)
    ensures
        r@ == join_of(install_dir@, "umu/umu-run"@),
{
    join_path(install_dir, "umu/umu-run")
}

/// Progress of a download, as reported to the interface.
#[derive(Clone, Copy, Debug, PartialEq, Eq, Structural)]
pub enum DownloadEvent {
    Error,
    Success,
    Start,
}

impl DownloadEvent {
    /// The name under which the event is emitted.
    pub fn as_str(&self) -> (r: &'static str)
        ensures
            r@ == match self {
                DownloadEvent::Error => "error"@,
                DownloadEvent::Success => "success"@,
                DownloadEvent::Start => "start"@,
            },
    {
        match self {
            DownloadEvent::Error => "error",
            DownloadEvent::Success => "success",
            DownloadEvent::Start => "start",
        }
    }
}

} // verus!
