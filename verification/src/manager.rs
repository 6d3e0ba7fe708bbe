use vstd::prelude::*;
use vstd::string::StringExecFns;
use tokio::sync::broadcast;
use crate::arch::{patterns_of, Architecture};
use crate::config::InstallationConfig;
use crate::error::InstallError;
use crate::progress::{channel_send, channel_subscribe, clamped, progress_channel, progress_fraction, State, StateProgress};
use crate::release::{asset_score, first_qualifying, lemma_first_qualifying_at, lemma_first_qualifying_none, lemma_first_scoring_at, lemma_first_scoring_none, match_count, selected_asset, skipped_release, GitHubAsset, GitHubRelease};
use crate::text::{lowercase, str_contains};
use crate::version::{semver_parts, trimmed_v, version_lt, Version, VersionView};

verus! {

/// The orchestrator: owns the configuration and the installation state,
/// sequences release selection, download, extraction and service control
/// into the public operations, and republishes progress on a broadcast
/// channel. At most one logical operation runs at a time; callers serialize
/// their calls against one instance.
pub struct InstallationManager {
    is_installed: bool,
    current_version: Option<Version>,
    latest_version: Option<Version>,
    config: InstallationConfig,
    progress_tx: broadcast::Sender<StateProgress>,
}

/// The stations of the update operation.
#[derive(Clone, Copy, Debug, PartialEq, Eq, Structural)]
pub enum UpdateStage {
    Idle,
    Checking,
    Stopping,
    Installing,
    Starting,
    Done,
}

/// What the surrounding run reports back to the update machine.
#[derive(Clone, Copy, Debug, PartialEq, Eq, Structural)]
pub enum UpdateEvent {
    Begin,
    Checked(bool),
    ServiceStopped,
    InstallCompleted,
    ServiceStarted,
}

/// What the update machine asks the surrounding run to do next.
#[derive(Clone, Copy, Debug, PartialEq, Eq, Structural)]
pub enum UpdateAction {
    CheckForUpdates,
    StopService,
    RunInstall,
    StartService,
    Finish,
}

/// The event/stage pairs the update machine accepts.
pub open spec fn update_accepts(stage: UpdateStage, event: UpdateEvent) -> bool {
    match (stage, event) {
        (UpdateStage::Idle, UpdateEvent::Begin) => true,
        (UpdateStage::Checking, UpdateEvent::Checked(_)) => true,
        (UpdateStage::Stopping, UpdateEvent::ServiceStopped) => true,
        (UpdateStage::Installing, UpdateEvent::InstallCompleted) => true,
        (UpdateStage::Starting, UpdateEvent::ServiceStarted) => true,
        _ => false,
    }
}

/// The next stage and action for each accepted pair: check, and either stop
/// early when already up to date, or stop the service, reinstall, restart.
pub open spec fn update_next(stage: UpdateStage, event: UpdateEvent) -> (UpdateStage, UpdateAction) {
    match (stage, event) {
        (UpdateStage::Idle, UpdateEvent::Begin) => (
            UpdateStage::Checking,
            UpdateAction::CheckForUpdates,
        ),
        (UpdateStage::Checking, UpdateEvent::Checked(true)) => (
            UpdateStage::Stopping,
            UpdateAction::StopService,
        ),
        (UpdateStage::Checking, UpdateEvent::Checked(false)) => (
            UpdateStage::Done,
            UpdateAction::Finish,
        ),
        (UpdateStage::Stopping, UpdateEvent::ServiceStopped) => (
            UpdateStage::Installing,
            UpdateAction::RunInstall,
        ),
        (UpdateStage::Installing, UpdateEvent::InstallCompleted) => (
            UpdateStage::Starting,
            UpdateAction::StartService,
        ),
        (UpdateStage::Starting, UpdateEvent::ServiceStarted) => (
            UpdateStage::Done,
            UpdateAction::Finish,
        ),
        _ => (UpdateStage::Done, UpdateAction::Finish),
    }
}

/// The fixed progress checkpoint each accepted transition publishes, in
/// progress units: the update phase reports 0 at start, 200 after the stop,
/// 800 after the reinstall and 1000 after the restart.
pub open spec fn update_emits(stage: UpdateStage, event: UpdateEvent) -> Option<int> {
    match (stage, event) {
        (UpdateStage::Checking, UpdateEvent::Checked(true)) => Some(0int),
        (UpdateStage::Stopping, UpdateEvent::ServiceStopped) => Some(200int),
        (UpdateStage::Installing, UpdateEvent::InstallCompleted) => Some(800int),
        (UpdateStage::Starting, UpdateEvent::ServiceStarted) => Some(1000int),
        _ => None,
    }
}

impl InstallationManager {
    /// Whether the platform has reported an installed version.
    pub closed spec fn spec_is_installed(&self) -> bool {
        self.is_installed
    }

    /// The recorded installed version.
    pub closed spec fn spec_current_version(&self) -> Option<VersionView> {
        match self.current_version {
            Some(v) => Some(v@),
            None => None,
        }
    }

    /// The latest published version seen.
    pub closed spec fn spec_latest_version(&self) -> Option<VersionView> {
        match self.latest_version {
            Some(v) => Some(v@),
            None => None,
        }
    }

    /// The configuration the manager was built with.
    pub closed spec fn spec_config(&self) -> InstallationConfig {
        self.config
    }

    /// A fresh manager: nothing recorded as installed, no versions known.
    pub fn new(config: InstallationConfig) -> (r: InstallationManager)
        ensures
            !r.spec_is_installed(),
            r.spec_current_version() is None,
            r.spec_latest_version() is None,
            r.spec_config() == config,
    {
        InstallationManager {
            is_installed: false,
            current_version: None,
            latest_version: None,
            config,
            progress_tx: progress_channel(),
        }
    }

    /// A fresh manager over a configuration of just the required fields.
    pub fn with_defaults(install_path: String, github_repo: String, service_name: String) -> (r:
        InstallationManager)
        ensures
            !r.spec_is_installed(),
            r.spec_current_version() is None,
            r.spec_latest_version() is None,
            r.spec_config().install_path == install_path,
            r.spec_config().github_repo == github_repo,
            r.spec_config().service_name == service_name,
            r.spec_config().service_display_name is None,
            r.spec_config().service_description is None,
            r.spec_config().binary_name is None,
            r.spec_config().registry_path is None,
            r.spec_config().version_file_dir is None,
            r.spec_config().working_directory is None,
    {
        InstallationManager::new(InstallationConfig::new(install_path, github_repo, service_name))
    }

    /// The configuration.
    pub fn config(&self) -> (r: &InstallationConfig)
        ensures
            *r == self.spec_config(),
    {
        &self.config
    }

    /// A new subscription to the progress stream; it observes events sent
    /// from now on.
    pub fn subscribe(&self) -> broadcast::Receiver<StateProgress> {
        channel_subscribe(&self.progress_tx)
    }

    /// Whether the application is currently recorded as installed.
    pub fn is_installed(&self) -> (r: bool)
        ensures
            r == self.spec_is_installed(),
    {
        self.is_installed
    }

    /// The recorded installed version, if any.
    pub fn current_version(&self) -> (r: Option<&Version>)
        ensures
            match r {
                Some(v) => self.spec_current_version() == Some(v@),
                None => self.spec_current_version() is None,
            },
    {
        self.current_version.as_ref()
    }

    /// The latest published version seen, if any.
    pub fn latest_version(&self) -> (r: Option<&Version>)
        ensures
            match r {
                Some(v) => self.spec_latest_version() == Some(v@),
                None => self.spec_latest_version() is None,
            },
    {
        self.latest_version.as_ref()
    }

    /// Publish one progress event, clamped into range; with no subscribers
    /// this neither fails nor blocks, the event is simply not observed.
    pub fn broadcast_progress(&self, state: State, progress: i64) -> (ev: StateProgress)
        ensures
            ev.state == state,
            ev.progress == clamped(progress as int),
    {
        let ev = StateProgress::new(state, progress);
        let _ = channel_send(&self.progress_tx, ev);
        ev
    }

    /// The release-listing endpoint for the configured repository.
    pub fn releases_url(&self) -> (r: String)
        ensures
            r@ == "https://api.github.com/repos/"@ + self.spec_config().github_repo@
                + "/releases"@,
    {
        String::from_str("https://api.github.com/repos/").concat(
            self.config.github_repo.as_str(),
        ).concat("/releases")
    }

    /// The name of the per-service temporary download directory.
    pub fn download_dir_name(&self) -> (r: String)
        ensures
            r@ == "oim-"@ + self.spec_config().service_name@,
    {
        String::from_str("oim-").concat(self.config.service_name.as_str())
    }

    /// From the fetched release list (newest first), the first release that
    /// qualifies under the prerelease-inclusion flag; its tag is parsed and
    /// recorded as the latest version. Fails when no release qualifies or
    /// the tag is not a semantic version; the state is untouched then.
    pub fn get_latest_release(&mut self, releases: Vec<GitHubRelease>, include_prerelease: bool)
        -> (r: Result<GitHubRelease, InstallError>)
        ensures
            match first_qualifying(
                releases@.map_values(|x: GitHubRelease| x@),
                include_prerelease,
            ) {
                None => {
                    &&& r matches Err(e) && e is NoReleaseFound
                    &&& final(self).spec_latest_version() == old(self).spec_latest_version()
                    &&& final(self).spec_current_version() == old(self).spec_current_version()
                    &&& final(self).spec_is_installed() == old(self).spec_is_installed()
                    &&& final(self).spec_config() == old(self).spec_config()
                },
                Some(i) => {
                    let rel = releases@.map_values(|x: GitHubRelease| x@)[i];
                    match semver_parts(trimmed_v(rel.tag_name)) {
                        None => {
                            &&& r matches Err(e) && e is VersionParseError
                            &&& final(self).spec_latest_version() == old(
                                self,
                            ).spec_latest_version()
                            &&& final(self).spec_current_version() == old(
                                self,
                            ).spec_current_version()
                            &&& final(self).spec_is_installed() == old(self).spec_is_installed()
                            &&& final(self).spec_config() == old(self).spec_config()
                        },
                        Some(p) => {
                            &&& r matches Ok(rr) && rr@ == rel
                            &&& final(self).spec_latest_version() == Some(Version::parts_view(p))
                            &&& final(self).spec_current_version() == old(
                                self,
                            ).spec_current_version()
                            &&& final(self).spec_is_installed() == old(self).spec_is_installed()
                            &&& final(self).spec_config() == old(self).spec_config()
                        },
                    }
                },
            },
    {
        let ghost rv = releases@.map_values(|x: GitHubRelease| x@);
        let n = releases.len();
        let mut i: usize = 0;
        let mut found = false;
        while !found && i < n
            invariant
                rv == releases@.map_values(|x: GitHubRelease| x@),
                n == releases@.len(),
                0 <= i <= n,
                forall|j: int| 0 <= j < i ==> skipped_release(#[trigger] rv[j], include_prerelease),
                found ==> i < n && (include_prerelease || !rv[i as int].prerelease),
            decreases n - i + (if found { 0int } else { 1int }),
        {
            proof {
                assert(rv[i as int] == releases@[i as int]@);
            }
            if include_prerelease || !releases[i].prerelease {
                found = true;
            } else {
                i = i + 1;
            }
        }
        if !found {
            proof {
                lemma_first_qualifying_none(rv, include_prerelease);
            }
            return Err(InstallError::NoReleaseFound);
        }
        proof {
            lemma_first_qualifying_at(rv, include_prerelease, i as int);
        }
        let mut releases = releases;
        let release = releases.remove(i);
        proof {
            assert(release@ == rv[i as int]);
        }
        match Version::parse_tag(release.tag_name.as_str()) {
            Ok(v) => {
                self.latest_version = Some(v);
                Ok(release)
            },
            Err(e) => Err(e),
        }
    }

    /// Check for updates against the fetched release list and the version
    /// the platform reports installed: records the latest and installed
    /// versions, and answers whether an update is available — always when
    /// nothing is installed, otherwise exactly when the latest version
    /// strictly exceeds the installed one.
    pub fn check_for_updates(
        &mut self,
        releases: Vec<GitHubRelease>,
        installed: Option<Version>,
        include_prerelease: bool,
    ) -> (r: Result<bool, InstallError>)
        ensures
            match first_qualifying(
                releases@.map_values(|x: GitHubRelease| x@),
                include_prerelease,
            ) {
                None => r matches Err(e) && e is NoReleaseFound,
                Some(i) => {
                    let rel = releases@.map_values(|x: GitHubRelease| x@)[i];
                    match semver_parts(trimmed_v(rel.tag_name)) {
                        None => r matches Err(e) && e is VersionParseError,
                        Some(p) => {
                            &&& r matches Ok(b)
                            &&& final(self).spec_latest_version() == Some(Version::parts_view(p))
                            &&& final(self).spec_current_version() == (match installed {
                                Some(c) => Some(c@),
                                None => None::<VersionView>,
                            })
                            &&& final(self).spec_is_installed() == (installed is Some)
                            &&& b == (match installed {
                                Some(c) => version_lt(c@, Version::parts_view(p)),
                                None => true,
                            })
                            &&& final(self).spec_config() == old(self).spec_config()
                        },
                    }
                },
            },
    {
        match self.get_latest_release(releases, include_prerelease) {
            Ok(_) => {},
            Err(e) => {
                return Err(e);
            },
        }
        let up = match (&installed, &self.latest_version) {
            (Some(cur), Some(latest)) => cur.precedes(latest),
            _ => true,
        };
        self.is_installed = installed.is_some();
        self.current_version = installed;
        Ok(up)
    }

    /// Pick the asset for the architecture: lower-case each asset name,
    /// count which of the architecture's patterns it contains, and take the
    /// first asset matching at least two patterns, else the first matching
    /// at least one, else fail.
    pub fn select_asset(&self, release: &GitHubRelease, arch: &Architecture) -> (r: Result<
        GitHubAsset,
        InstallError,
    >)
        ensures
            match selected_asset(release@.assets, *arch) {
                Some(i) => r matches Ok(a) && a@ == release@.assets[i],
                None => r matches Err(e) && e is NoMatchingAsset,
            },
    {
        let patterns = arch.asset_patterns();
        let ghost av = release@.assets;
        let n = release.assets.len();
        let mut i: usize = 0;
        while i < n
            invariant
                av == release@.assets,
                n == release.assets@.len(),
                0 <= i <= n,
                patterns@.map_values(|p: &str| p@) == patterns_of(*arch),
                forall|j: int| 0 <= j < i ==> asset_score(#[trigger] av[j], *arch) < 2,
            decreases n - i,
        {
            proof {
                assert(av[i as int] == release.assets@[i as int]@);
            }
            let low = lowercase(release.assets[i].name.as_str());
            let c = count_matches(low.as_str(), &patterns);
            proof {
                assert(c == asset_score(av[i as int], *arch));
            }
            if c >= 2 {
                proof {
                    lemma_first_scoring_at(av, *arch, 2, i as int);
                }
                return Ok(release.assets[i].clone());
            }
            i = i + 1;
        }
        proof {
            lemma_first_scoring_none(av, *arch, 2);
        }
        let mut i: usize = 0;
        while i < n
            invariant
                av == release@.assets,
                n == release.assets@.len(),
                0 <= i <= n,
                patterns@.map_values(|p: &str| p@) == patterns_of(*arch),
                forall|j: int| 0 <= j < av.len() ==> asset_score(#[trigger] av[j], *arch) < 2,
                forall|j: int| 0 <= j < i ==> asset_score(#[trigger] av[j], *arch) < 1,
            decreases n - i,
        {
            proof {
                assert(av[i as int] == release.assets@[i as int]@);
            }
            let low = lowercase(release.assets[i].name.as_str());
            let c = count_matches(low.as_str(), &patterns);
            proof {
                assert(c == asset_score(av[i as int], *arch));
            }
            if c >= 1 {
                proof {
                    lemma_first_scoring_none(av, *arch, 2);
                    lemma_first_scoring_at(av, *arch, 1, i as int);
                }
                return Ok(release.assets[i].clone());
            }
            i = i + 1;
        }
        proof {
            lemma_first_scoring_none(av, *arch, 1);
        }
        Err(InstallError::NoMatchingAsset)
    }

    /// Announce the start of a download.
    pub fn download_started(&self) -> (ev: StateProgress)
        ensures
            ev == (StateProgress { state: State::Downloading, progress: 0 }),
    {
        self.broadcast_progress(State::Downloading, 0)
    }

    /// Publish the fraction downloaded so far; with an unknown or zero total
    /// no event is sent, and the start and completion events alone frame the
    /// transfer.
    pub fn download_progressed(&self, downloaded: u64, total: u64) -> (r: Option<StateProgress>)
        ensures
            r == if total > 0 {
                Some(
                    StateProgress {
                        state: State::Downloading,
                        progress: clamped(downloaded as int * 1000 / total as int) as u32,
                    },
                )
            } else {
                None::<StateProgress>
            },
    {
        if total > 0 {
            let f = progress_fraction(downloaded, total);
            Some(self.broadcast_progress(State::Downloading, f as i64))
        } else {
            None
        }
    }

    /// Announce the completion of a download.
    pub fn download_finished(&self) -> (ev: StateProgress)
        ensures
            ev == (StateProgress { state: State::Downloading, progress: 1000 }),
    {
        self.broadcast_progress(State::Downloading, 1000)
    }

    /// One step of the update operation: from the current stage and the
    /// event the surrounding run reports, the next stage and action, plus
    /// the checkpoint event published, if any. Beginning an update with
    /// nothing installed is refused.
    pub fn update_step(&self, stage: UpdateStage, event: UpdateEvent) -> (r: Result<
        (UpdateStage, UpdateAction, Option<StateProgress>),
        InstallError,
    >)
        requires
            update_accepts(stage, event),
        ensures
            stage is Idle && !self.spec_is_installed() ==> (r matches Err(e)
                && e is NotInstalledError),
            !(stage is Idle && !self.spec_is_installed()) ==> (r matches Ok(t) && t.0
                == update_next(stage, event).0 && t.1 == update_next(stage, event).1 && t.2
                == (match update_emits(stage, event) {
                Some(p) => Some((StateProgress { state: State::Updating, progress: p as u32 })),
                None => None::<StateProgress>,
            })),
    {
        match (stage, event) {
            (UpdateStage::Idle, UpdateEvent::Begin) => {
                if !self.is_installed {
                    return Err(InstallError::NotInstalledError);
                }
                Ok((UpdateStage::Checking, UpdateAction::CheckForUpdates, None))
            },
            (UpdateStage::Checking, UpdateEvent::Checked(true)) => {
                let ev = self.broadcast_progress(State::Updating, 0);
                Ok((UpdateStage::Stopping, UpdateAction::StopService, Some(ev)))
            },
            (UpdateStage::Checking, UpdateEvent::Checked(false)) => {
                Ok((UpdateStage::Done, UpdateAction::Finish, None))
            },
            (UpdateStage::Stopping, UpdateEvent::ServiceStopped) => {
                let ev = self.broadcast_progress(State::Updating, 200);
                Ok((UpdateStage::Installing, UpdateAction::RunInstall, Some(ev)))
            },
            (UpdateStage::Installing, UpdateEvent::InstallCompleted) => {
                let ev = self.broadcast_progress(State::Updating, 800);
                Ok((UpdateStage::Starting, UpdateAction::StartService, Some(ev)))
            },
            (UpdateStage::Starting, UpdateEvent::ServiceStarted) => {
                let ev = self.broadcast_progress(State::Updating, 1000);
                Ok((UpdateStage::Done, UpdateAction::Finish, Some(ev)))
            },
            _ => {
                proof {
                    assert(false);
                }
                Err(InstallError::NotInstalledError)
            },
        }
    }

    /// Record a completed installation of the given version.
    pub fn finish_install(&mut self, version: Version)
        ensures
            final(self).spec_is_installed(),
            final(self).spec_current_version() == Some(version@),
            final(self).spec_latest_version() == old(self).spec_latest_version(),
            final(self).spec_config() == old(self).spec_config(),
    {
        self.current_version = Some(version);
        self.is_installed = true;
    }

    /// Uninstalling requires a recorded installation.
    pub fn begin_uninstall(&self) -> (r: Result<(), InstallError>)
        ensures
            self.spec_is_installed() ==> (r matches Ok(u) && u == ()),
            !self.spec_is_installed() ==> (r matches Err(e) && e is NotInstalledError),
    {
        if !self.is_installed {
            return Err(InstallError::NotInstalledError);
        }
        Ok(())
    }

    /// Record a completed uninstallation: nothing installed, no installed
    /// version.
    pub fn finish_uninstall(&mut self)
        ensures
            !final(self).spec_is_installed(),
            final(self).spec_current_version() is None,
            final(self).spec_latest_version() == old(self).spec_latest_version(),
            final(self).spec_config() == old(self).spec_config(),
    {
        self.is_installed = false;
        self.current_version = None;
    }
}

/// How many of the patterns the (already lowercased) name contains.
fn count_matches(low: &str, patterns: &Vec<&str>) -> (c: usize)
    ensures
        c == match_count(low@, patterns@.map_values(|p: &str| p@)),
{
    let ghost pv = patterns@.map_values(|p: &str| p@);
    let mut c: usize = 0;
    let mut i: usize = 0;
    proof {
        assert(pv.take(0) =~= Seq::<Seq<char>>::empty());
    }
    while i < patterns.len()
        invariant
            pv == patterns@.map_values(|p: &str| p@),
            0 <= i <= patterns@.len(),
            c <= i,
            c == match_count(low@, pv.take(i as int)),
        decreases patterns@.len() - i,
    {
        proof {
            assert(pv.take(i + 1).drop_last() =~= pv.take(i as int));
            assert(pv.take(i + 1).last() == pv[i as int]);
            assert(pv[i as int] == patterns@[i as int]@);
        }
        if str_contains(low, patterns[i]) {
            c = c + 1;
        }
        i = i + 1;
    }
    proof {
        assert(pv.take(patterns@.len() as int) =~= pv);
    }
    c
}

} // verus!
