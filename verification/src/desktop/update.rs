//! Looking for new releases, downloading one, and the window that tells of it.

use crate::desktop::installer::{
    asset_views, copy_assets, pick_platform_asset, platform_asset, Architecture, AssetView,
    UpdateAsset,
};
use crate::desktop::settings::Platform;
use crate::desktop::units::{bytes_text, format_bytes, format_speed};
use crate::desktop::version::{is_update_newer, version_order};
use crate::json::opt_text;
use crate::order::Order;
use crate::text::{
    concat2, concat3, concat5, copy_texts, decimal, decimal_text, drop_leading, drop_trailing,
    has_prefix, pieces, same, split_on, texts, trim, trimmed, without_leading, without_trailing,
};
use vstd::prelude::*;
use vstd::string::*;

verus! {

/// Milliseconds between two checks.
pub const CHECK_INTERVAL_MS: u64 = 21600000;

/// Milliseconds that the first check waits, so that the window shows first.
pub const INITIAL_DELAY_MS: u64 = 4000;

/// Milliseconds between two reports of a download.
pub const REPORT_INTERVAL_MS: u64 = 80;

pub open spec fn update_api_url() -> Seq<char> {
    "https://api.github.com/repos/dardiao/hapcli/releases/latest"@
}

/// Where the check stands.
#[derive(Debug)]
pub enum UpdateStatus {
    Idle,
    Checking,
    UpToDate,
    UpdateAvailable { version: String, name: String, notes: String, assets: Vec<UpdateAsset> },
    Downloading { version: String, transferred: u64, total: u64, speed_bps: u64 },
    DownloadFailed { version: String, message: String },
    ReadyToInstall,
    Error(String),
}

/// A status by its texts.
pub enum StatusView {
    Idle,
    Checking,
    UpToDate,
    UpdateAvailable {
        version: Seq<char>,
        name: Seq<char>,
        notes: Seq<char>,
        assets: Seq<AssetView>,
    },
    Downloading { version: Seq<char>, transferred: u64, total: u64, speed_bps: u64 },
    DownloadFailed { version: Seq<char>, message: Seq<char> },
    ReadyToInstall,
    Error(Seq<char>),
}

impl View for UpdateStatus {
    type V = StatusView;

    open spec fn view(&self) -> StatusView {
        match *self {
            UpdateStatus::Idle => StatusView::Idle,
            UpdateStatus::Checking => StatusView::Checking,
            UpdateStatus::UpToDate => StatusView::UpToDate,
            UpdateStatus::UpdateAvailable { version, name, notes, assets } => {
                StatusView::UpdateAvailable {
                    version: version@,
                    name: name@,
                    notes: notes@,
                    assets: asset_views(assets@),
                }
            },
            UpdateStatus::Downloading { version, transferred, total, speed_bps } => {
                StatusView::Downloading { version: version@, transferred, total, speed_bps }
            },
            UpdateStatus::DownloadFailed { version, message } => {
                StatusView::DownloadFailed { version: version@, message: message@ }
            },
            UpdateStatus::ReadyToInstall => StatusView::ReadyToInstall,
            UpdateStatus::Error(message) => StatusView::Error(message@),
        }
    }
}

/// What the work in the background tells.
#[derive(Debug)]
pub enum UpdateCheckEvent {
    Result(UpdateStatus),
    Progress { transferred: u64, total: u64, speed_bps: u64 },
    Finished,
    Failed(String),
}

pub enum CheckEventView {
    Result(StatusView),
    Progress { transferred: u64, total: u64, speed_bps: u64 },
    Finished,
    Failed(Seq<char>),
}

impl View for UpdateCheckEvent {
    type V = CheckEventView;

    open spec fn view(&self) -> CheckEventView {
        match *self {
            UpdateCheckEvent::Result(status) => CheckEventView::Result(status@),
            UpdateCheckEvent::Progress { transferred, total, speed_bps } => {
                CheckEventView::Progress { transferred, total, speed_bps }
            },
            UpdateCheckEvent::Finished => CheckEventView::Finished,
            UpdateCheckEvent::Failed(message) => CheckEventView::Failed(message@),
        }
    }
}

/// A check to run in the background.
#[derive(Debug)]
pub struct CheckJob {
    pub current_version: String,
    pub delay_ms: u64,
    pub proxies: Vec<String>,
}

/// A download to run in the background.
#[derive(Debug)]
pub struct DownloadJob {
    pub asset: UpdateAsset,
    pub proxies: Vec<String>,
}

/// The state of the check, of a download and of their window. Times are in milliseconds.
#[derive(Debug)]
pub struct UpdateCheckState {
    pub status: UpdateStatus,
    pub show_notes: bool,
    pub dismissed: bool,
    pub last_check_at: Option<u64>,
    pub cancel_download: bool,
    pub last_version: Option<String>,
    pub last_assets: Vec<UpdateAsset>,
    pub proxies: Vec<String>,
}

#[verifier::ext_equal]
pub struct CheckStateView {
    pub status: StatusView,
    pub show_notes: bool,
    pub dismissed: bool,
    pub last_check_at: Option<u64>,
    pub cancel_download: bool,
    pub last_version: Option<Seq<char>>,
    pub last_assets: Seq<AssetView>,
    pub proxies: Seq<Seq<char>>,
}

impl View for UpdateCheckState {
    type V = CheckStateView;

    open spec fn view(&self) -> CheckStateView {
        CheckStateView {
            status: self.status@,
            show_notes: self.show_notes,
            dismissed: self.dismissed,
            last_check_at: self.last_check_at,
            cancel_download: self.cancel_download,
            last_version: opt_text(self.last_version),
            last_assets: asset_views(self.last_assets@),
            proxies: texts(self.proxies@),
        }
    }
}

pub open spec fn initial_check() -> CheckStateView {
    CheckStateView {
        status: StatusView::Idle,
        show_notes: false,
        dismissed: false,
        last_check_at: None,
        cancel_download: false,
        last_version: None,
        last_assets: Seq::empty(),
        proxies: Seq::empty(),
    }
}

/// The state once a check was asked for.
pub open spec fn check_begun(state: CheckStateView) -> CheckStateView {
    if state.status is Checking {
        state
    } else {
        CheckStateView {
            status: StatusView::Checking,
            dismissed: false,
            show_notes: false,
            ..state
        }
    }
}

/// The state once a download was asked for: it fails at once where there is no package.
pub open spec fn download_begun(
    state: CheckStateView,
    version: Seq<char>,
    assets: Seq<AssetView>,
    platform: Platform,
    architecture: Architecture,
) -> CheckStateView {
    if platform_asset(platform, architecture, assets) is None {
        CheckStateView {
            status: StatusView::DownloadFailed {
                version,
                message: "当前平台没有可用的自动更新安装包，请打开下载页手动安装"@,
            },
            ..state
        }
    } else {
        CheckStateView {
            status: StatusView::Downloading { version, transferred: 0, total: 0, speed_bps: 0 },
            last_version: Some(version),
            last_assets: assets,
            cancel_download: false,
            dismissed: false,
            ..state
        }
    }
}

/// What one report of the background changes.
pub open spec fn check_step(state: CheckStateView, event: CheckEventView, now: u64) -> CheckStateView {
    match event {
        CheckEventView::Result(status) => CheckStateView {
            status,
            last_check_at: Some(now),
            ..state
        },
        CheckEventView::Progress { transferred, total, speed_bps } => match state.status {
            StatusView::Downloading { version, .. } => CheckStateView {
                status: StatusView::Downloading { version, transferred, total, speed_bps },
                ..state
            },
            _ => state,
        },
        CheckEventView::Finished => CheckStateView { status: StatusView::ReadyToInstall, ..state },
        CheckEventView::Failed(message) => CheckStateView {
            status: StatusView::DownloadFailed {
                version: match state.last_version {
                    Some(version) => version,
                    None => Seq::empty(),
                },
                message,
            },
            ..state
        },
    }
}

pub open spec fn check_steps(
    state: CheckStateView,
    events: Seq<CheckEventView>,
    now: u64,
) -> CheckStateView
    decreases events.len(),
{
    if events.len() == 0 {
        state
    } else {
        check_step(check_steps(state, events.drop_last(), now), events.last(), now)
    }
}

pub open spec fn event_views(events: Seq<UpdateCheckEvent>) -> Seq<CheckEventView> {
    Seq::new(events.len(), |i: int| events[i]@)
}

/// Whether a check of itself is due.
pub open spec fn check_is_due(state: CheckStateView, enabled: bool, now: u64) -> bool {
    &&& enabled
    &&& !(state.status is Downloading)
    &&& match state.last_check_at {
        None => true,
        Some(at) => now - at >= CHECK_INTERVAL_MS,
    }
}

pub open spec fn check_delay(state: CheckStateView) -> u64 {
    if state.last_check_at is None {
        INITIAL_DELAY_MS
    } else {
        0
    }
}

/// The check that is started, where one is.
pub open spec fn is_check_job(
    job: Option<CheckJob>,
    state: CheckStateView,
    current: Seq<char>,
    delay: u64,
) -> bool {
    match job {
        None => state.status is Checking,
        Some(job) => {
            &&& !(state.status is Checking)
            &&& job.current_version@ == current
            &&& job.delay_ms == delay
            &&& texts(job.proxies@) == state.proxies
        },
    }
}

/// The download that is started, where there is a package.
pub open spec fn is_download_job(
    job: Option<DownloadJob>,
    state: CheckStateView,
    asset: Option<AssetView>,
) -> bool {
    match job {
        None => asset is None,
        Some(job) => asset == Some(job.asset@) && texts(job.proxies@) == state.proxies,
    }
}

impl Default for UpdateCheckState {
    fn default() -> (r: UpdateCheckState)
        ensures
            r@ == initial_check(),
    {
        let r = UpdateCheckState {
            status: UpdateStatus::Idle,
            show_notes: false,
            dismissed: false,
            last_check_at: None,
            cancel_download: false,
            last_version: None,
            last_assets: Vec::new(),
            proxies: Vec::new(),
        };
        assert(r@ =~= initial_check());
        r
    }
}

impl UpdateCheckState {
    pub fn set_proxies(&mut self, proxies: &[String])
        ensures
            final(self)@ == (CheckStateView { proxies: texts(proxies@), ..old(self)@ }),
    {
        self.proxies = copy_texts(proxies);
    }

    /// Begins a check, unless one is running.
    pub fn check_now(&mut self, current_version: &str, delay_ms: u64) -> (r: Option<CheckJob>)
        ensures
            final(self)@ == check_begun(old(self)@),
            is_check_job(r, old(self)@, current_version@, delay_ms),
    {
        if let UpdateStatus::Checking = &self.status {
            return None;
        }
        self.status = UpdateStatus::Checking;
        self.dismissed = false;
        self.show_notes = false;
        Some(
            CheckJob {
                current_version: current_version.to_string(),
                delay_ms,
                proxies: copy_texts(self.proxies.as_slice()),
            },
        )
    }

    pub fn start_download(
        &mut self,
        version: &str,
        assets: &[UpdateAsset],
        platform: Platform,
        architecture: Architecture,
    ) -> (r: Option<DownloadJob>)
        ensures
            final(self)@ == download_begun(
                old(self)@,
                version@,
                asset_views(assets@),
                platform,
                architecture,
            ),
            is_download_job(
                r,
                old(self)@,
                platform_asset(platform, architecture, asset_views(assets@)),
            ),
    {
        let asset = match pick_platform_asset(platform, architecture, assets) {
            Some(asset) => asset,
            None => {
                self.status = UpdateStatus::DownloadFailed {
                    version: version.to_string(),
                    message: "当前平台没有可用的自动更新安装包，请打开下载页手动安装".to_string(),
                };
                return None;
            },
        };
        self.last_version = Some(version.to_string());
        self.last_assets = copy_assets(assets);
        self.cancel_download = false;
        self.dismissed = false;
        self.status = UpdateStatus::Downloading {
            version: version.to_string(),
            transferred: 0,
            total: 0,
            speed_bps: 0,
        };
        Some(DownloadJob { asset, proxies: copy_texts(self.proxies.as_slice()) })
    }

    pub fn cancel_download_now(&mut self)
        ensures
            final(self)@ == (CheckStateView { cancel_download: true, ..old(self)@ }),
    {
        self.cancel_download = true;
    }

    /// Downloads what was last tried once more.
    pub fn retry_download(&mut self, platform: Platform, architecture: Architecture) -> (r: Option<
        DownloadJob,
    >)
        ensures
            final(self)@ == download_retried(old(self)@, platform, architecture),
            is_download_job(r, old(self)@, retried_asset(old(self)@, platform, architecture)),
    {
        let version = match &self.last_version {
            Some(version) => version.clone(),
            None => {
                return None;
            },
        };
        let assets = copy_assets(self.last_assets.as_slice());
        self.start_download(version.as_str(), assets.as_slice(), platform, architecture)
    }

    fn take_event(&mut self, event: UpdateCheckEvent, now: u64)
        ensures
            final(self)@ == check_step(old(self)@, event@, now),
    {
        match event {
            UpdateCheckEvent::Result(status) => {
                self.status = status;
                self.last_check_at = Some(now);
            },
            UpdateCheckEvent::Progress { transferred, total, speed_bps } => {
                let running = match &self.status {
                    UpdateStatus::Downloading { version, .. } => Some(version.clone()),
                    _ => None,
                };
                if let Some(version) = running {
                    self.status = UpdateStatus::Downloading {
                        version,
                        transferred,
                        total,
                        speed_bps,
                    };
                }
            },
            UpdateCheckEvent::Finished => {
                self.status = UpdateStatus::ReadyToInstall;
            },
            UpdateCheckEvent::Failed(message) => {
                let version = match &self.last_version {
                    Some(version) => version.clone(),
                    None => String::new(),
                };
                assert(version@ == match old(self)@.last_version {
                    Some(version) => version,
                    None => Seq::empty(),
                });
                self.status = UpdateStatus::DownloadFailed { version, message };
            },
        }
    }

    /// Takes what the background has told since the last frame.
    pub fn poll(&mut self, events: Vec<UpdateCheckEvent>, now: u64)
        ensures
            final(self)@ == check_steps(old(self)@, event_views(events@), now),
    {
        let ghost all = event_views(events@);
        let ghost first = self@;
        let mut events = events;
        let ghost mut done: int = 0;
        assert(all.take(0) == Seq::<CheckEventView>::empty());
        assert(all.skip(0) == all);
        while events.len() > 0
            invariant
                0 <= done <= all.len(),
                event_views(events@) == all.skip(done),
                events@.len() == all.len() - done,
                self@ == check_steps(first, all.take(done), now),
            decreases events.len(),
        {
            let ghost before = events@;
            let event = events.remove(0);
            proof {
                assert(all.skip(done)[0] == event@);
                assert(all.take(done + 1).drop_last() == all.take(done));
                assert(all.take(done + 1).last() == all[done]);
                assert(all[done] == event@);
                assert(event_views(events@) =~= all.skip(done + 1)) by {
                    assert forall|i: int| 0 <= i < events@.len() implies event_views(events@)[i]
                        == all.skip(done + 1)[i] by {
                        assert(events@[i] == before[i + 1]);
                        assert(event_views(before)[i + 1] == all.skip(done)[i + 1]);
                    }
                }
                done = done + 1;
            }
            self.take_event(event, now);
        }
        assert(all.take(done) == all);
    }

    /// Begins a check of itself: at once after the start, then every six hours.
    pub fn maybe_periodic_check(&mut self, current_version: &str, enabled: bool, now: u64) -> (r:
        Option<CheckJob>)
        ensures
            check_is_due(old(self)@, enabled, now) ==> final(self)@ == check_begun(old(self)@)
                && is_check_job(r, old(self)@, current_version@, check_delay(old(self)@)),
            !check_is_due(old(self)@, enabled, now) ==> final(self)@ == old(self)@ && r is None,
    {
        if !enabled {
            return None;
        }
        if let UpdateStatus::Downloading { .. } = &self.status {
            return None;
        }
        let (due, delay): (bool, u64) = match self.last_check_at {
            None => (true, INITIAL_DELAY_MS),
            Some(at) => (now >= at && now - at >= CHECK_INTERVAL_MS, 0),
        };
        if due {
            self.check_now(current_version, delay)
        } else {
            None
        }
    }
}

pub open spec fn download_retried(
    state: CheckStateView,
    platform: Platform,
    architecture: Architecture,
) -> CheckStateView {
    match state.last_version {
        None => state,
        Some(version) => download_begun(state, version, state.last_assets, platform, architecture),
    }
}

pub open spec fn retried_asset(
    state: CheckStateView,
    platform: Platform,
    architecture: Architecture,
) -> Option<AssetView> {
    if state.last_version is None {
        None
    } else {
        platform_asset(platform, architecture, state.last_assets)
    }
}

/// A release as the server describes it.
#[derive(Debug)]
pub struct GithubRelease {
    pub tag_name: String,
    pub name: Option<String>,
    pub body: Option<String>,
    pub prerelease: bool,
    pub draft: bool,
    pub assets: Vec<UpdateAsset>,
}

/// What a release means for a version: a final release that is newer is offered.
pub open spec fn release_offer(release: GithubRelease, current: Seq<char>) -> Option<StatusView> {
    let version = without_leading(release.tag_name@, 'v');
    if release.draft || release.prerelease || version_order(version, current) != Order::Greater {
        None
    } else {
        Some(
            StatusView::UpdateAvailable {
                version,
                name: match release.name {
                    Some(name) => name@,
                    None => release.tag_name@,
                },
                notes: match release.body {
                    Some(body) => body@,
                    None => Seq::empty(),
                },
                assets: asset_views(release.assets@),
            },
        )
    }
}

pub fn offer_release(release: GithubRelease, current_version: &str) -> (r: Option<UpdateStatus>)
    ensures
        match r {
            Some(status) => release_offer(release, current_version@) == Some(status@),
            None => release_offer(release, current_version@) is None,
        },
{
    if release.draft || release.prerelease {
        return None;
    }
    let version = drop_leading(release.tag_name.as_str(), 'v').to_string();
    if !is_update_newer(version.as_str(), current_version) {
        return None;
    }
    let name = match release.name {
        Some(name) => name,
        None => release.tag_name.clone(),
    };
    let notes = match release.body {
        Some(body) => body,
        None => String::new(),
    };
    assert(notes@ == match release.body {
        Some(body) => body@,
        None => Seq::empty(),
    });
    Some(UpdateStatus::UpdateAvailable { version, name, notes, assets: release.assets })
}

/// What came back from one address.
#[derive(Debug)]
pub enum ReleaseReply {
    /// The request failed.
    Unreachable(String),
    /// There is no release yet.
    NotFound,
    /// Another status than success.
    Refused(String),
    /// The answer could not be read.
    Unreadable(String),
    Release(GithubRelease),
}

/// Whether an address answered, and with what; otherwise why not.
pub open spec fn reply_outcome(reply: ReleaseReply, current: Seq<char>) -> Result<
    StatusView,
    Seq<char>,
> {
    match reply {
        ReleaseReply::Unreachable(error) => Err(error@),
        ReleaseReply::NotFound => Ok(StatusView::UpToDate),
        ReleaseReply::Refused(status) => Err("HTTP "@ + status@),
        ReleaseReply::Unreadable(error) => Err("解析失败: "@ + error@),
        ReleaseReply::Release(release) => match release_offer(release, current) {
            Some(status) => Ok(status),
            None => Ok(StatusView::UpToDate),
        },
    }
}

pub fn read_reply(reply: ReleaseReply, current_version: &str) -> (r: Result<UpdateStatus, String>)
    ensures
        match r {
            Ok(status) => reply_outcome(reply, current_version@) == Ok::<StatusView, Seq<char>>(
                status@,
            ),
            Err(error) => reply_outcome(reply, current_version@) == Err::<StatusView, Seq<char>>(
                error@,
            ),
        },
{
    match reply {
        ReleaseReply::Unreachable(error) => Err(error),
        ReleaseReply::NotFound => Ok(UpdateStatus::UpToDate),
        ReleaseReply::Refused(status) => Err(concat2("HTTP ", status.as_str())),
        ReleaseReply::Unreadable(error) => Err(concat2("解析失败: ", error.as_str())),
        ReleaseReply::Release(release) => match offer_release(release, current_version) {
            Some(status) => Ok(status),
            None => Ok(UpdateStatus::UpToDate),
        },
    }
}

/// The address of the server, then the same behind each proxy.
pub open spec fn release_addresses(proxies: Seq<Seq<char>>) -> Seq<Seq<char>> {
    seq![update_api_url()] + Seq::new(proxies.len(), |i: int| proxies[i] + update_api_url())
}

/// A check under way: the addresses that are left, and what the last of them said.
#[derive(Debug)]
pub struct ReleaseSearch {
    pub addresses: Vec<String>,
    pub asked: usize,
    pub last_error: String,
}

/// What a check does next.
#[derive(Debug)]
pub enum SearchStep {
    Ask(String),
    Done(UpdateStatus),
}

impl ReleaseSearch {
    pub open spec fn wf(&self) -> bool {
        self.asked <= self.addresses.len()
    }

    pub fn new(proxies: &[String]) -> (r: ReleaseSearch)
        ensures
            r.wf(),
            texts(r.addresses@) == release_addresses(texts(proxies@)),
            r.asked == 0,
            r.last_error@ == Seq::<char>::empty(),
    {
        let mut addresses: Vec<String> = Vec::new();
        addresses.push("https://api.github.com/repos/dardiao/hapcli/releases/latest".to_string());
        let mut i: usize = 0;
        while i < proxies.len()
            invariant
                i <= proxies.len(),
                addresses.len() == i + 1,
                addresses@[0]@ == update_api_url(),
                forall|j: int|
                    0 <= j < i ==> (#[trigger] addresses@[j + 1])@ == proxies@[j]@
                        + update_api_url(),
            decreases proxies.len() - i,
        {
            addresses.push(
                proxied(
                    "https://api.github.com/repos/dardiao/hapcli/releases/latest",
                    proxies[i].as_str(),
                ),
            );
            i = i + 1;
        }
        assert(texts(addresses@) =~= release_addresses(texts(proxies@))) by {
            assert forall|k: int| 0 <= k < addresses@.len() implies texts(addresses@)[k]
                == release_addresses(texts(proxies@))[k] by {
                if k > 0 {
                    assert(addresses@[(k - 1) + 1]@ == proxies@[k - 1]@ + update_api_url());
                }
            }
        }
        ReleaseSearch { addresses, asked: 0, last_error: String::new() }
    }

    /// The next address, or the end of the check when all have failed.
    pub fn next(&mut self) -> (r: SearchStep)
        requires
            old(self).wf(),
        ensures
            final(self).wf(),
            final(self).addresses@ == old(self).addresses@,
            final(self).last_error@ == old(self).last_error@,
            final(self).asked == next_asked(old(self).addresses@.len(), old(self).asked as nat),
            is_next_step(
                r,
                texts(old(self).addresses@),
                old(self).asked as nat,
                old(self).last_error@,
            ),
    {
        if self.asked < self.addresses.len() {
            let url = self.addresses[self.asked].clone();
            self.asked = self.asked + 1;
            SearchStep::Ask(url)
        } else {
            SearchStep::Done(
                UpdateStatus::Error(
                    concat2(
                        "无法连接更新服务器（直连与代理均失败）: ",
                        self.last_error.as_str(),
                    ),
                ),
            )
        }
    }

    /// Takes an answer: one that came ends the check, a failure leads to the next address.
    pub fn answered(&mut self, reply: ReleaseReply, current_version: &str) -> (r: SearchStep)
        requires
            old(self).wf(),
        ensures
            final(self).wf(),
            final(self).addresses@ == old(self).addresses@,
            match reply_outcome(reply, current_version@) {
                Ok(outcome) => {
                    &&& final(self).asked == old(self).asked
                    &&& final(self).last_error@ == old(self).last_error@
                    &&& r matches SearchStep::Done(status) && status@ == outcome
                },
                Err(error) => {
                    &&& final(self).last_error@ == error
                    &&& final(self).asked == next_asked(
                        old(self).addresses@.len(),
                        old(self).asked as nat,
                    )
                    &&& is_next_step(
                        r,
                        texts(old(self).addresses@),
                        old(self).asked as nat,
                        error,
                    )
                },
            },
    {
        match read_reply(reply, current_version) {
            Ok(status) => SearchStep::Done(status),
            Err(error) => {
                self.last_error = error;
                self.next()
            },
        }
    }
}

pub open spec fn next_asked(addresses: nat, asked: nat) -> nat {
    if asked < addresses {
        asked + 1
    } else {
        asked
    }
}

/// The next address is asked; behind the last one the check has failed.
pub open spec fn is_next_step(
    step: SearchStep,
    addresses: Seq<Seq<char>>,
    asked: nat,
    error: Seq<char>,
) -> bool {
    match step {
        SearchStep::Ask(url) => asked < addresses.len() && url@ == addresses[asked as int],
        SearchStep::Done(status) => asked >= addresses.len() && status@ == StatusView::Error(
            all_failed(error),
        ),
    }
}

pub open spec fn all_failed(error: Seq<char>) -> Seq<char> {
    "无法连接更新服务器（直连与代理均失败）: "@ + error
}

/// How a client that could not be made is told of.
pub fn client_failure(error: &str) -> (r: String)
    ensures
        r@ == "HTTP 客户端创建失败: "@ + error@,
{
    concat2("HTTP 客户端创建失败: ", error)
}

pub fn user_agent(current_version: &str) -> (r: String)
    ensures
        r@ == "hapcli-updater/"@ + current_version@,
{
    concat2("hapcli-updater/", current_version)
}

/// An address behind a proxy.
pub fn proxied(url: &str, prefix: &str) -> (r: String)
    ensures
        r@ == prefix@ + url@,
{
    concat2(prefix, url)
}

/// An item of the list of proxies, without what surrounds it.
pub open spec fn proxy_item(item: Seq<char>) -> Seq<char> {
    without_trailing(trimmed(item), '/')
}

/// A proxy as a prefix: with a scheme in front and one slash behind.
pub open spec fn proxy_prefix(item: Seq<char>) -> Seq<char> {
    if "http://"@.is_prefix_of(item) || "https://"@.is_prefix_of(item) {
        item + "/"@
    } else {
        "https://"@ + item + "/"@
    }
}

/// The prefixes of the items of a list; empty items do not count.
pub open spec fn proxy_prefixes(items: Seq<Seq<char>>) -> Seq<Seq<char>>
    decreases items.len(),
{
    if items.len() == 0 {
        Seq::empty()
    } else {
        let front = proxy_prefixes(items.drop_last());
        let item = proxy_item(items.last());
        if item.len() == 0 {
            front
        } else {
            front.push(proxy_prefix(item))
        }
    }
}

/// Reads the prefixes of a list that is separated by commas.
pub fn parse_proxy_prefixes(list: &str) -> (r: Vec<String>)
    ensures
        texts(r@) == proxy_prefixes(pieces(list@, ',')),
{
    let items = split_on(list, ',');
    let ghost all = texts(items@);
    let mut r: Vec<String> = Vec::new();
    let mut i: usize = 0;
    assert(all.take(0) == Seq::<Seq<char>>::empty());
    assert(texts(r@) =~= Seq::<Seq<char>>::empty());
    while i < items.len()
        invariant
            i <= items.len(),
            all == texts(items@),
            texts(r@) == proxy_prefixes(all.take(i as int)),
        decreases items.len() - i,
    {
        let item = drop_trailing(trim(items[i].as_str()), '/');
        let ghost before = r@;
        proof {
            assert(all.take(i + 1).drop_last() == all.take(i as int));
            assert(all.take(i + 1).last() == all[i as int]);
        }
        if item.unicode_len() > 0 {
            let prefix = if has_prefix(item, "http://") || has_prefix(item, "https://") {
                concat2(item, "/")
            } else {
                concat3("https://", item, "/")
            };
            r.push(prefix);
            assert(texts(r@) =~= texts(before).push(prefix@));
        }
        i = i + 1;
    }
    assert(all.take(i as int) == all);
    r
}

/// Every prefix has a scheme and ends in a slash, so that a whole address can follow it.
pub proof fn law_prefixes_are_complete(items: Seq<Seq<char>>, i: int)
    requires
        0 <= i < proxy_prefixes(items).len(),
    ensures
        "http://"@.is_prefix_of(proxy_prefixes(items)[i]) || "https://"@.is_prefix_of(
            proxy_prefixes(items)[i],
        ),
        proxy_prefixes(items)[i].last() == '/',
    decreases items.len(),
{
    let front = proxy_prefixes(items.drop_last());
    if i < front.len() {
        law_prefixes_are_complete(items.drop_last(), i);
    } else {
        let item = proxy_item(items.last());
        reveal_strlit("/");
        reveal_strlit("http://");
        reveal_strlit("https://");
        let prefix = proxy_prefix(item);
        if "http://"@.is_prefix_of(item) {
            assert(prefix.subrange(0, 7) =~= item.subrange(0, 7));
        } else if "https://"@.is_prefix_of(item) {
            assert(prefix.subrange(0, 8) =~= item.subrange(0, 8));
        } else {
            assert(prefix.subrange(0, 8) =~= "https://"@);
        }
    }
}

/// The proxy that answered fastest; of equally fast ones the first. A proxy that did not answer
/// has no time.
pub open spec fn fastest(times: Seq<Option<u64>>) -> Option<int>
    decreases times.len(),
{
    if times.len() == 0 {
        None
    } else {
        let front = fastest(times.drop_last());
        let at = times.len() - 1;
        match (front, times.last()) {
            (_, None) => front,
            (None, Some(_)) => Some(at),
            (Some(best), Some(time)) => if times[best] is Some && time < times[best]->Some_0 {
                Some(at)
            } else {
                front
            },
        }
    }
}

/// Picks the fastest proxy by what the probes of all of them took.
pub fn fastest_proxy(times: &[Option<u64>]) -> (r: Option<usize>)
    ensures
        match r {
            Some(at) => fastest(times@) == Some(at as int),
            None => fastest(times@) is None,
        },
{
    let mut best: Option<usize> = None;
    let mut i: usize = 0;
    assert(times@.take(0) == Seq::<Option<u64>>::empty());
    while i < times.len()
        invariant
            i <= times.len(),
            match best {
                Some(at) => fastest(times@.take(i as int)) == Some(at as int) && at < i
                    && times@[at as int] is Some,
                None => fastest(times@.take(i as int)) is None,
            },
        decreases times.len() - i,
    {
        proof {
            assert(times@.take(i + 1).drop_last() == times@.take(i as int));
            assert(times@.take(i + 1).last() == times@[i as int]);
        }
        if let Some(time) = times[i] {
            let better = match best {
                None => true,
                Some(at) => match times[at] {
                    Some(known) => time < known,
                    None => false,
                },
            };
            if better {
                best = Some(i);
            }
        }
        i = i + 1;
    }
    assert(times@.take(i as int) == times@);
    best
}

/// No proxy that answered was faster, and none is left out while one answered.
pub proof fn law_fastest_is_fastest(times: Seq<Option<u64>>)
    ensures
        fastest(times) is None <==> forall|j: int|
            0 <= j < times.len() ==> (#[trigger] times[j]) is None,
        fastest(times) matches Some(at) ==> 0 <= at < times.len() && times[at] is Some
            && forall|j: int|
            0 <= j < times.len() && (#[trigger] times[j]) is Some ==> times[at]->Some_0
                <= times[j]->Some_0,
    decreases times.len(),
{
    if times.len() > 0 {
        let front = times.drop_last();
        law_fastest_is_fastest(front);
        let last = times.len() - 1;
        assert(forall|j: int| 0 <= j < last ==> #[trigger] times[j] == front[j]);
        assert(times[last] == times.last());
        match fastest(front) {
            Some(at) => {
                assert(times[at] == front[at]);
                assert forall|j: int| 0 <= j < times.len() && (#[trigger] times[j]) is Some implies times[at]->Some_0
                    <= times[j]->Some_0 || fastest(times) == Some(last) by {
                    if j < last {
                        assert(front[j] is Some);
                    }
                }
                if fastest(times) == Some(last) {
                    assert forall|j: int| 0 <= j < times.len() && (#[trigger] times[j]) is Some implies times[last]->Some_0
                        <= times[j]->Some_0 by {
                        if j < last {
                            assert(front[j] is Some);
                        }
                    }
                }
            },
            None => {
                assert forall|j: int| 0 <= j < last implies (#[trigger] times[j]) is None by {
                    assert(front[j] is None);
                }
            },
        }
    }
}

/// Whether a download that failed is tried through a proxy.
pub fn tries_proxy(failed: bool, proxies: &[String]) -> (r: bool)
    ensures
        r == (failed && proxies@.len() > 0),
{
    failed && proxies.len() > 0
}

/// A download under way. Times are in milliseconds.
#[derive(Clone, Copy, Debug, PartialEq, Eq)]
pub struct DownloadRun {
    pub transferred: u64,
    pub total: u64,
    pub last_report: u64,
}

impl DownloadRun {
    pub fn new(content_length: Option<u64>, now: u64) -> (r: DownloadRun)
        ensures
            r.transferred == 0,
            r.total == match content_length {
                Some(total) => total,
                None => 0,
            },
            r.last_report == now,
    {
        let total: u64 = match content_length {
            Some(total) => total,
            None => 0,
        };
        DownloadRun { transferred: 0, total, last_report: now }
    }

    /// Counts what was read, and says whether it is time to report.
    pub fn received(&mut self, count: u64, now: u64) -> (r: bool)
        requires
            old(self).transferred + count <= u64::MAX,
        ensures
            final(self).transferred == old(self).transferred + count,
            final(self).total == old(self).total,
            r == (now - old(self).last_report >= REPORT_INTERVAL_MS),
            final(self).last_report == if r {
                now
            } else {
                old(self).last_report
            },
    {
        self.transferred = self.transferred + count;
        if now >= self.last_report && now - self.last_report >= REPORT_INTERVAL_MS {
            self.last_report = now;
            true
        } else {
            false
        }
    }

    /// How the download ended: what is announced has to arrive in full.
    pub fn finish(&self, cancelled: bool) -> (r: Result<(), String>)
        ensures
            match r {
                Ok(_) => !self.falls_short() && !cancelled,
                Err(message) => if self.falls_short() {
                    message@ == "下载不完整（"@ + decimal(self.transferred as nat) + "/"@ + decimal(
                        self.total as nat,
                    ) + " 字节）"@
                } else {
                    cancelled && message@ == "下载已取消"@
                },
            },
    {
        if self.total > 0 && self.transferred != self.total {
            return Err(
                concat5(
                    "下载不完整（",
                    decimal_text(self.transferred).as_str(),
                    "/",
                    decimal_text(self.total).as_str(),
                    " 字节）",
                ),
            );
        }
        if cancelled {
            return Err("下载已取消".to_string());
        }
        Ok(())
    }

    pub open spec fn falls_short(&self) -> bool {
        self.total > 0 && self.transferred != self.total
    }
}

/// What the window of the update shows.
#[derive(Debug)]
pub enum UpdateWindow {
    /// The new version waits for this program to end.
    CloseProgram,
    Hidden,
    Offer { heading: String, detail: String, notes: Option<String>, notes_label: &'static str },
    Progress { heading: String, detail: String, unknown_total: bool },
    Failure { heading: String, message: String },
}

pub enum UpdateWindowView {
    CloseProgram,
    Hidden,
    Offer {
        heading: Seq<char>,
        detail: Seq<char>,
        notes: Option<Seq<char>>,
        notes_label: Seq<char>,
    },
    Progress { heading: Seq<char>, detail: Seq<char>, unknown_total: bool },
    Failure { heading: Seq<char>, message: Seq<char> },
}

impl View for UpdateWindow {
    type V = UpdateWindowView;

    open spec fn view(&self) -> UpdateWindowView {
        match *self {
            UpdateWindow::CloseProgram => UpdateWindowView::CloseProgram,
            UpdateWindow::Hidden => UpdateWindowView::Hidden,
            UpdateWindow::Offer { heading, detail, notes, notes_label } => {
                UpdateWindowView::Offer {
                    heading: heading@,
                    detail: detail@,
                    notes: opt_text(notes),
                    notes_label: notes_label@,
                }
            },
            UpdateWindow::Progress { heading, detail, unknown_total } => {
                UpdateWindowView::Progress { heading: heading@, detail: detail@, unknown_total }
            },
            UpdateWindow::Failure { heading, message } => {
                UpdateWindowView::Failure { heading: heading@, message: message@ }
            },
        }
    }
}

pub open spec fn shown_notes(notes: Seq<char>) -> Seq<char> {
    if trimmed(notes).len() == 0 {
        "（本版本没有提供更新说明）"@
    } else {
        notes
    }
}

pub open spec fn progress_text(transferred: u64, total: u64, speed_bps: u64) -> Seq<char> {
    let speed = bytes_text(speed_bps as nat) + "/s"@;
    if total > 0 {
        bytes_text(transferred as nat) + " / "@ + bytes_text(total as nat) + " · "@ + speed
    } else {
        bytes_text(transferred as nat) + " · "@ + speed
    }
}

/// The window for a state; a version that is ignored is not offered.
pub open spec fn window_of(
    state: CheckStateView,
    ignored: Option<Seq<char>>,
    current: Seq<char>,
) -> UpdateWindowView {
    if state.status is ReadyToInstall {
        UpdateWindowView::CloseProgram
    } else if state.dismissed {
        UpdateWindowView::Hidden
    } else {
        match state.status {
            StatusView::UpdateAvailable { version, name, notes, .. } => if ignored == Some(
                version,
            ) {
                UpdateWindowView::Hidden
            } else {
                UpdateWindowView::Offer {
                    heading: "发现新版本 "@ + version,
                    detail: "当前版本 "@ + current + " · "@ + name,
                    notes: if state.show_notes {
                        Some(shown_notes(notes))
                    } else {
                        None
                    },
                    notes_label: if state.show_notes {
                        "收起更新内容"@
                    } else {
                        "更新了什么"@
                    },
                }
            },
            StatusView::Downloading { version, transferred, total, speed_bps } => {
                UpdateWindowView::Progress {
                    heading: "正在下载 v"@ + version + " …"@,
                    detail: progress_text(transferred, total, speed_bps),
                    unknown_total: total == 0,
                }
            },
            StatusView::DownloadFailed { version, message } => UpdateWindowView::Failure {
                heading: "更新 v"@ + version + " 失败"@,
                message,
            },
            _ => UpdateWindowView::Hidden,
        }
    }
}

fn progress_line(transferred: u64, total: u64, speed_bps: u64) -> (r: String)
    ensures
        r@ == progress_text(transferred, total, speed_bps),
{
    let speed = format_speed(speed_bps);
    if total > 0 {
        concat5(
            format_bytes(transferred).as_str(),
            " / ",
            format_bytes(total).as_str(),
            " · ",
            speed.as_str(),
        )
    } else {
        concat3(format_bytes(transferred).as_str(), " · ", speed.as_str())
    }
}

/// Whether an optional text is a given one.
fn is_text(text: &Option<String>, other: &str) -> (r: bool)
    ensures
        r == (opt_text(*text) == Some(other@)),
{
    match text {
        Some(text) => same(text.as_str(), other),
        None => false,
    }
}

/// The buttons of the window that were clicked.
#[derive(Clone, Copy, Debug, PartialEq, Eq, Structural)]
pub struct UpdateClicks {
    pub toggle_notes: bool,
    pub start: bool,
    pub ignore: bool,
    pub later: bool,
    pub cancel: bool,
    pub retry: bool,
    pub open_page: bool,
}

/// What the clicks ask of the program around.
#[derive(Debug)]
pub struct UpdateEffect {
    pub close: bool,
    pub job: Option<DownloadJob>,
    pub save_settings: bool,
    pub open_url: Option<String>,
}

/// What clicks change: the state and the version that is ignored.
pub open spec fn after_clicks(
    state: CheckStateView,
    ignored: Option<Seq<char>>,
    clicks: UpdateClicks,
    platform: Platform,
    architecture: Architecture,
) -> (CheckStateView, Option<Seq<char>>) {
    if state.status is ReadyToInstall || state.dismissed {
        (state, ignored)
    } else {
        match state.status {
            StatusView::UpdateAvailable { version, assets, .. } => if ignored == Some(version) {
                (state, ignored)
            } else {
                let noted = CheckStateView {
                    show_notes: state.show_notes != clicks.toggle_notes,
                    ..state
                };
                let begun = if clicks.start {
                    download_begun(noted, version, assets, platform, architecture)
                } else {
                    noted
                };
                (
                    if clicks.ignore || clicks.later {
                        CheckStateView { dismissed: true, ..begun }
                    } else {
                        begun
                    },
                    if clicks.ignore {
                        Some(version)
                    } else {
                        ignored
                    },
                )
            },
            StatusView::Downloading { .. } => (
                if clicks.cancel {
                    CheckStateView { cancel_download: true, dismissed: true, ..state }
                } else {
                    state
                },
                ignored,
            ),
            StatusView::DownloadFailed { .. } => {
                let tried = if clicks.retry {
                    download_retried(state, platform, architecture)
                } else {
                    state
                };
                (
                    if clicks.open_page || clicks.later {
                        CheckStateView { dismissed: true, ..tried }
                    } else {
                        tried
                    },
                    ignored,
                )
            },
            _ => (state, ignored),
        }
    }
}

/// The package whose download clicks begin.
pub open spec fn clicked_asset(
    state: CheckStateView,
    ignored: Option<Seq<char>>,
    clicks: UpdateClicks,
    platform: Platform,
    architecture: Architecture,
) -> Option<AssetView> {
    if state.status is ReadyToInstall || state.dismissed {
        None
    } else {
        match state.status {
            StatusView::UpdateAvailable { version, assets, .. } => if ignored != Some(version)
                && clicks.start {
                platform_asset(platform, architecture, assets)
            } else {
                None
            },
            StatusView::DownloadFailed { .. } => if clicks.retry {
                retried_asset(state, platform, architecture)
            } else {
                None
            },
            _ => None,
        }
    }
}

/// The page of a release.
pub open spec fn release_page(version: Seq<char>) -> Seq<char> {
    "https://github.com/dardiao/hapcli/releases/tag/v"@ + version
}

/// The page that clicks open.
pub open spec fn clicked_page(state: CheckStateView, clicks: UpdateClicks) -> Option<Seq<char>> {
    if state.dismissed || !clicks.open_page {
        None
    } else {
        match state.status {
            StatusView::DownloadFailed { version, .. } => Some(release_page(version)),
            _ => None,
        }
    }
}

/// Whether clicks put a version on the list of those that are not offered.
pub open spec fn clicked_ignore(
    state: CheckStateView,
    ignored: Option<Seq<char>>,
    clicks: UpdateClicks,
) -> bool {
    &&& !state.dismissed
    &&& clicks.ignore
    &&& state.status matches StatusView::UpdateAvailable { version, .. } && ignored != Some(version)
}

pub open spec fn is_update_effect(
    effect: UpdateEffect,
    state: CheckStateView,
    ignored: Option<Seq<char>>,
    clicks: UpdateClicks,
    platform: Platform,
    architecture: Architecture,
) -> bool {
    &&& effect.close == (state.status is ReadyToInstall)
    &&& is_download_job(
        effect.job,
        state,
        clicked_asset(state, ignored, clicks, platform, architecture),
    )
    &&& effect.save_settings == clicked_ignore(state, ignored, clicks)
    &&& opt_text(effect.open_url) == clicked_page(state, clicks)
}

impl UpdateCheckState {
    /// What the window shows now.
    pub fn window(&self, ignored: &Option<String>, current: &str) -> (r: UpdateWindow)
        ensures
            r@ == window_of(self@, opt_text(*ignored), current@),
    {
        if let UpdateStatus::ReadyToInstall = &self.status {
            return UpdateWindow::CloseProgram;
        }
        if self.dismissed {
            return UpdateWindow::Hidden;
        }
        match &self.status {
            UpdateStatus::UpdateAvailable { version, name, notes, .. } => {
                if is_text(ignored, version.as_str()) {
                    return UpdateWindow::Hidden;
                }
                let notes = if !self.show_notes {
                    None
                } else if trim(notes.as_str()).unicode_len() == 0 {
                    Some("（本版本没有提供更新说明）".to_string())
                } else {
                    Some(notes.clone())
                };
                UpdateWindow::Offer {
                    heading: concat2("发现新版本 ", version.as_str()),
                    detail: crate::text::concat4("当前版本 ", current, " · ", name.as_str()),
                    notes,
                    notes_label: if self.show_notes {
                        "收起更新内容"
                    } else {
                        "更新了什么"
                    },
                }
            },
            UpdateStatus::Downloading { version, transferred, total, speed_bps } => {
                UpdateWindow::Progress {
                    heading: concat3("正在下载 v", version.as_str(), " …"),
                    detail: progress_line(*transferred, *total, *speed_bps),
                    unknown_total: *total == 0,
                }
            },
            UpdateStatus::DownloadFailed { version, message } => UpdateWindow::Failure {
                heading: concat3("更新 v", version.as_str(), " 失败"),
                message: message.clone(),
            },
            _ => UpdateWindow::Hidden,
        }
    }

    fn offer_clicked(
        &mut self,
        version: String,
        assets: Vec<UpdateAsset>,
        ignored: &mut Option<String>,
        clicks: UpdateClicks,
        platform: Platform,
        architecture: Architecture,
    ) -> (r: UpdateEffect)
        requires
            !old(self).dismissed,
            old(self)@.status matches StatusView::UpdateAvailable { version: v, assets: a, .. } && v
                == version@ && a == asset_views(assets@),
            opt_text(*old(ignored)) != Some(version@),
        ensures
            (final(self)@, opt_text(*final(ignored))) == after_clicks(
                old(self)@,
                opt_text(*old(ignored)),
                clicks,
                platform,
                architecture,
            ),
            is_update_effect(
                r,
                old(self)@,
                opt_text(*old(ignored)),
                clicks,
                platform,
                architecture,
            ),
    {
        if clicks.toggle_notes {
            self.show_notes = !self.show_notes;
        }
        let job = if clicks.start {
            self.start_download(version.as_str(), assets.as_slice(), platform, architecture)
        } else {
            None
        };
        if clicks.ignore {
            *ignored = Some(version);
            self.dismissed = true;
        }
        if clicks.later {
            self.dismissed = true;
        }
        UpdateEffect { close: false, job, save_settings: clicks.ignore, open_url: None }
    }

    fn failure_clicked(
        &mut self,
        version: String,
        clicks: UpdateClicks,
        platform: Platform,
        architecture: Architecture,
        ignored: Ghost<Option<Seq<char>>>,
    ) -> (r: UpdateEffect)
        requires
            !old(self).dismissed,
            old(self)@.status matches StatusView::DownloadFailed { version: v, .. } && v
                == version@,
        ensures
            (final(self)@, ignored@) == after_clicks(
                old(self)@,
                ignored@,
                clicks,
                platform,
                architecture,
            ),
            is_update_effect(r, old(self)@, ignored@, clicks, platform, architecture),
    {
        let job = if clicks.retry {
            self.retry_download(platform, architecture)
        } else {
            None
        };
        let mut open_url: Option<String> = None;
        if clicks.open_page {
            open_url = Some(
                concat2("https://github.com/dardiao/hapcli/releases/tag/v", version.as_str()),
            );
            self.dismissed = true;
        }
        if clicks.later {
            self.dismissed = true;
        }
        UpdateEffect { close: false, job, save_settings: false, open_url }
    }

    /// Does what the clicks in the window ask.
    pub fn update_window(
        &mut self,
        ignored: &mut Option<String>,
        clicks: UpdateClicks,
        platform: Platform,
        architecture: Architecture,
    ) -> (r: UpdateEffect)
        ensures
            (final(self)@, opt_text(*final(ignored))) == after_clicks(
                old(self)@,
                opt_text(*old(ignored)),
                clicks,
                platform,
                architecture,
            ),
            is_update_effect(
                r,
                old(self)@,
                opt_text(*old(ignored)),
                clicks,
                platform,
                architecture,
            ),
    {
        if let UpdateStatus::ReadyToInstall = &self.status {
            return UpdateEffect { close: true, job: None, save_settings: false, open_url: None };
        }
        let idle = UpdateEffect { close: false, job: None, save_settings: false, open_url: None };
        if self.dismissed {
            return idle;
        }
        let offer = match &self.status {
            UpdateStatus::UpdateAvailable { version, assets, .. } => Some(
                (version.clone(), copy_assets(assets.as_slice())),
            ),
            _ => None,
        };
        if let Some((version, assets)) = offer {
            if is_text(ignored, version.as_str()) {
                return idle;
            }
            return self.offer_clicked(version, assets, ignored, clicks, platform, architecture);
        }
        if let UpdateStatus::Downloading { .. } = &self.status {
            if clicks.cancel {
                self.cancel_download_now();
                self.dismissed = true;
            }
            return idle;
        }
        let failed = match &self.status {
            UpdateStatus::DownloadFailed { version, .. } => Some(version.clone()),
            _ => None,
        };
        if let Some(version) = failed {
            return self.failure_clicked(
                version,
                clicks,
                platform,
                architecture,
                Ghost(opt_text(*ignored)),
            );
        }
        idle
    }
}

/// A version that was ignored, and a window that was put off, do not come back of themselves.
pub proof fn law_put_off_stays_hidden(
    state: CheckStateView,
    ignored: Option<Seq<char>>,
    clicks: UpdateClicks,
    platform: Platform,
    architecture: Architecture,
    current: Seq<char>,
)
    requires
        !(state.status is ReadyToInstall),
        clicks.later || clicks.ignore && state.status is UpdateAvailable,
        state.status is UpdateAvailable || state.status is DownloadFailed,
    ensures
        ({
            let (next, skipped) = after_clicks(state, ignored, clicks, platform, architecture);
            window_of(next, skipped, current) == UpdateWindowView::Hidden
        }),
{
}

/// Progress that comes while no download is running changes nothing.
pub proof fn law_late_progress_is_dropped(
    state: CheckStateView,
    transferred: u64,
    total: u64,
    speed_bps: u64,
    now: u64,
)
    requires
        !(state.status is Downloading),
    ensures
        check_step(state, CheckEventView::Progress { transferred, total, speed_bps }, now) == state,
{
}

/// A check that was asked for runs, and the window of the one before it is gone; one that runs is
/// left alone.
pub proof fn law_checks_begin_once(state: CheckStateView)
    ensures
        state.status is Checking ==> check_begun(state) == state,
        !(state.status is Checking) ==> ({
            let after = check_begun(state);
            &&& after.status is Checking
            &&& !after.dismissed && !after.show_notes
            &&& after.last_check_at == state.last_check_at
            &&& after.cancel_download == state.cancel_download
            &&& after.last_version == state.last_version
            &&& after.last_assets == state.last_assets
            &&& after.proxies == state.proxies
        }),
        check_begun(check_begun(state)) == check_begun(state),
        initial_check().status is Idle,
        initial_check().last_check_at is None,
        initial_check().last_version is None,
        !initial_check().show_notes && !initial_check().dismissed
            && !initial_check().cancel_download,
        initial_check().last_assets.len() == 0 && initial_check().proxies.len() == 0,
{
}

/// A download starts at nothing and remembers what it was of; without a package for this machine
/// it fails at once and nothing is remembered.
pub proof fn law_downloads_begin_at_nothing(
    state: CheckStateView,
    version: Seq<char>,
    assets: Seq<AssetView>,
    platform: Platform,
    architecture: Architecture,
)
    ensures
        ({
            let after = download_begun(state, version, assets, platform, architecture);
            &&& platform_asset(platform, architecture, assets) is Some ==> {
                &&& after.status == (StatusView::Downloading {
                    version,
                    transferred: 0,
                    total: 0,
                    speed_bps: 0,
                })
                &&& after.last_version == Some(version)
                &&& after.last_assets == assets
                &&& !after.cancel_download && !after.dismissed
                &&& after.show_notes == state.show_notes
                &&& after.proxies == state.proxies
                &&& after.last_check_at == state.last_check_at
            }
            &&& platform_asset(platform, architecture, assets) is None ==> {
                &&& after.status matches StatusView::DownloadFailed { version: of, message }
                &&& of == version
                &&& message == "当前平台没有可用的自动更新安装包，请打开下载页手动安装"@
                &&& after == (CheckStateView { status: after.status, ..state })
            }
        }),
{
}

/// Retrying downloads what was tried last, and nothing where nothing was.
pub proof fn law_retries_are_of_the_last_download(
    state: CheckStateView,
    version: Seq<char>,
    platform: Platform,
    architecture: Architecture,
)
    ensures
        state.last_version is None ==> download_retried(state, platform, architecture) == state
            && retried_asset(state, platform, architecture) is None,
        state.last_version == Some(version) ==> download_retried(state, platform, architecture)
            == download_begun(state, version, state.last_assets, platform, architecture),
        state.last_version == Some(version) ==> retried_asset(state, platform, architecture)
            == platform_asset(platform, architecture, state.last_assets),
{
}

/// What the background reports is what the state says: a result with its time, progress of the
/// download that runs and of no other, its end or its failure.
pub proof fn law_reports_are_taken(
    state: CheckStateView,
    status: StatusView,
    numbers: (u64, u64, u64),
    message: Seq<char>,
    now: u64,
)
    ensures
        check_step(state, CheckEventView::Result(status), now) == (CheckStateView {
            status,
            last_check_at: Some(now),
            ..state
        }),
        ({
            let after = check_step(
                state,
                CheckEventView::Progress {
                    transferred: numbers.0,
                    total: numbers.1,
                    speed_bps: numbers.2,
                },
                now,
            );
            &&& state.status matches StatusView::Downloading { version, .. } ==> after.status == (
            StatusView::Downloading {
                version,
                transferred: numbers.0,
                total: numbers.1,
                speed_bps: numbers.2,
            })
            &&& !(state.status is Downloading) ==> after == state
            &&& after == (CheckStateView { status: after.status, ..state })
        }),
        check_step(state, CheckEventView::Finished, now) == (CheckStateView {
            status: StatusView::ReadyToInstall,
            ..state
        }),
        ({
            let after = check_step(state, CheckEventView::Failed(message), now);
            &&& after.status matches StatusView::DownloadFailed { version, message: told }
            &&& told == message
            &&& state.last_version matches Some(last) ==> version == last
            &&& state.last_version is None ==> version.len() == 0
            &&& after == (CheckStateView { status: after.status, ..state })
        }),
{
}

/// Reports are taken in their order.
pub proof fn law_reports_are_taken_in_turn(
    state: CheckStateView,
    a: Seq<CheckEventView>,
    b: Seq<CheckEventView>,
    now: u64,
)
    ensures
        check_steps(state, a + b, now) == check_steps(check_steps(state, a, now), b, now),
        check_steps(state, Seq::empty(), now) == state,
        b.len() == 1 ==> check_steps(state, b, now) == check_step(state, b[0], now),
    decreases b.len(),
{
    if b.len() == 0 {
        assert(a + b =~= a);
    } else {
        law_reports_are_taken_in_turn(state, a, b.drop_last(), now);
        assert((a + b).drop_last() =~= a + b.drop_last());
        if b.len() == 1 {
            assert(b.drop_last() =~= Seq::<CheckEventView>::empty());
        }
    }
}

/// A check is due where none was made, then six hours after the last one; never while a download
/// runs or where checks are not wanted. The first one waits four seconds.
pub proof fn law_checks_are_six_hours_apart(state: CheckStateView, enabled: bool, now: u64, at: u64)
    ensures
        !enabled ==> !check_is_due(state, enabled, now),
        state.status is Downloading ==> !check_is_due(state, enabled, now),
        enabled && !(state.status is Downloading) && state.last_check_at is None ==> check_is_due(
            state,
            enabled,
            now,
        ),
        enabled && !(state.status is Downloading) && state.last_check_at == Some(at) ==> (
        check_is_due(state, enabled, now) <==> now >= at + 6 * 60 * 60 * 1000),
        state.last_check_at is None ==> check_delay(state) == 4 * 1000,
        state.last_check_at is Some ==> check_delay(state) == 0,
        REPORT_INTERVAL_MS == 80,
{
}

/// The job of a check or a download carries what the state holds.
pub proof fn law_jobs_carry_the_state(
    check: CheckJob,
    download: DownloadJob,
    state: CheckStateView,
    current: Seq<char>,
    delay: u64,
    asset: AssetView,
)
    ensures
        is_check_job(Some(check), state, current, delay) ==> check.current_version@ == current
            && check.delay_ms == delay && texts(check.proxies@) == state.proxies && !(
        state.status is Checking),
        is_check_job(None, state, current, delay) ==> state.status is Checking,
        is_download_job(Some(download), state, Some(asset)) ==> download.asset.name@ == asset.name
            && download.asset.browser_download_url@ == asset.url && texts(download.proxies@)
            == state.proxies,
        !is_download_job(Some(download), state, None),
        !is_download_job(None, state, Some(asset)),
        is_download_job(None, state, None),
{
}

/// A release is offered exactly where it is final and newer; it is offered with its own version,
/// name, notes and files.
pub proof fn law_newer_final_releases_are_offered(release: GithubRelease, current: Seq<char>)
    ensures
        release_offer(release, current) is Some <==> !release.draft && !release.prerelease
            && version_order(without_leading(release.tag_name@, 'v'), current) == Order::Greater,
        release_offer(release, current) matches Some(status) ==> {
            &&& status matches StatusView::UpdateAvailable { version, name, notes, assets }
            &&& version == without_leading(release.tag_name@, 'v')
            &&& release.name matches Some(told) ==> name == told@
            &&& release.name is None ==> name == release.tag_name@
            &&& release.body matches Some(told) ==> notes == told@
            &&& release.body is None ==> notes.len() == 0
            &&& assets == asset_views(release.assets@)
        },
{
}

/// An address that answers ends the search: with an offer, or with nothing new where there is no
/// release or none to offer. Everything else is an error, told by its cause.
pub proof fn law_answers_are_told_from_failures(
    reply: ReleaseReply,
    current: Seq<char>,
    error: Seq<char>,
    status: StatusView,
)
    ensures
        reply is NotFound ==> reply_outcome(reply, current) == Ok::<StatusView, Seq<char>>(
            StatusView::UpToDate,
        ),
        reply matches ReleaseReply::Unreachable(cause) ==> reply_outcome(reply, current) == Err::<
            StatusView,
            Seq<char>,
        >(cause@),
        reply matches ReleaseReply::Refused(cause) ==> reply_outcome(reply, current) == Err::<
            StatusView,
            Seq<char>,
        >(seq!['H', 'T', 'T', 'P', ' '] + cause@),
        reply matches ReleaseReply::Unreadable(cause) ==> reply_outcome(reply, current) == Err::<
            StatusView,
            Seq<char>,
        >("解析失败: "@ + cause@),
        reply matches ReleaseReply::Release(release) ==> (release_offer(release, current)
            matches Some(offer) ==> reply_outcome(reply, current) == Ok::<StatusView, Seq<char>>(
            offer,
        )),
        reply matches ReleaseReply::Release(release) ==> (release_offer(release, current) is None
            ==> reply_outcome(reply, current) == Ok::<StatusView, Seq<char>>(StatusView::UpToDate)),
{
    reveal_strlit("HTTP ");
    assert("HTTP "@ =~= seq!['H', 'T', 'T', 'P', ' ']);
}

/// The server is asked itself first, then behind each proxy in turn.
pub proof fn law_the_server_is_asked_first(proxies: Seq<Seq<char>>, i: int)
    ensures
        update_api_url() == "https://api.github.com/repos/dardiao/hapcli/releases/latest"@,
        release_addresses(proxies).len() == proxies.len() + 1,
        release_addresses(proxies)[0] == update_api_url(),
        0 <= i < proxies.len() ==> release_addresses(proxies)[i + 1] == proxies[i]
            + update_api_url(),
{
}

/// Addresses are asked one by one; when all are asked the check has failed, with the last error.
pub proof fn law_addresses_are_asked_in_turn(
    step: SearchStep,
    addresses: Seq<Seq<char>>,
    asked: nat,
    error: Seq<char>,
)
    requires
        is_next_step(step, addresses, asked, error),
    ensures
        asked < addresses.len() ==> next_asked(addresses.len(), asked) == asked + 1 && (
        step matches SearchStep::Ask(url) && url@ == addresses[asked as int]),
        asked >= addresses.len() ==> next_asked(addresses.len(), asked) == asked && (
        step matches SearchStep::Done(status) && status@ == StatusView::Error(
            "无法连接更新服务器（直连与代理均失败）: "@ + error,
        )),
{
}

/// Proxies are read one by one in their order; blanks around them and slashes behind them do not
/// count, and an item without anything else is none.
pub proof fn law_proxies_are_read_in_order(a: Seq<Seq<char>>, b: Seq<Seq<char>>)
    ensures
        proxy_prefixes(a + b) == proxy_prefixes(a) + proxy_prefixes(b),
        b.len() == 1 ==> ({
            let item = without_trailing(trimmed(b[0]), '/');
            &&& item.len() == 0 ==> proxy_prefixes(b).len() == 0
            &&& item.len() > 0 ==> proxy_prefixes(b) == seq![proxy_prefix(item)]
        }),
    decreases b.len(),
{
    if b.len() == 0 {
        assert(a + b =~= a);
        assert(proxy_prefixes(a + b) =~= proxy_prefixes(a) + proxy_prefixes(b));
    } else {
        law_proxies_are_read_in_order(a, b.drop_last());
        assert((a + b).drop_last() =~= a + b.drop_last());
        assert(proxy_prefixes(a + b) =~= proxy_prefixes(a) + proxy_prefixes(b));
        if b.len() == 1 {
            assert(b.drop_last() =~= Seq::<Seq<char>>::empty());
            assert(proxy_prefixes(b.drop_last()) =~= Seq::<Seq<char>>::empty());
            let item = without_trailing(trimmed(b[0]), '/');
            assert(item.len() > 0 ==> proxy_prefixes(b) =~= seq![proxy_prefix(item)]);
        }
    }
}

/// A proxy with a scheme keeps it, one without gets the secure one; either way a slash follows.
pub proof fn law_proxies_have_a_scheme(item: Seq<char>, rest: Seq<char>)
    ensures
        item == "http://"@ + rest ==> proxy_prefix(item) == item.push('/'),
        item == "https://"@ + rest ==> proxy_prefix(item) == item.push('/'),
        item.len() > 0 && item[0] != 'h' ==> proxy_prefix(item) == "https://"@ + item + seq!['/'],
        proxy_prefix(item).last() == '/',
{
    reveal_strlit("/");
    reveal_strlit("http://");
    reveal_strlit("https://");
    assert("/"@ =~= seq!['/']);
    assert(item + "/"@ =~= item.push('/'));
    if item == "http://"@ + rest {
        assert(item.subrange(0, "http://"@.len() as int) =~= "http://"@);
    }
    if item == "https://"@ + rest {
        assert(item.subrange(0, "https://"@.len() as int) =~= "https://"@);
    }
    if item.len() > 0 && item[0] != 'h' {
        assert("http://"@[0] == 'h');
        assert("https://"@[0] == 'h');
    }
    assert(("https://"@ + item + "/"@).last() == '/');
}

/// Which window is shown: a version that waits closes the program; a version is offered unless
/// it is ignored; a dismissed window is not shown.
pub proof fn law_the_window_tells_the_state(
    state: CheckStateView,
    ignored: Option<Seq<char>>,
    current: Seq<char>,
)
    ensures
        ({
            let shown = window_of(state, ignored, current);
            &&& shown is CloseProgram <==> state.status is ReadyToInstall
            &&& state.dismissed && !(state.status is ReadyToInstall) ==> shown is Hidden
            &&& !state.dismissed ==> (state.status matches StatusView::UpdateAvailable {
                version,
                name,
                notes,
                assets,
            } ==> {
                &&& ignored == Some(version) ==> shown is Hidden
                &&& ignored != Some(version) ==> {
                    &&& shown matches UpdateWindowView::Offer {
                        heading,
                        detail,
                        notes: told,
                        notes_label,
                    }
                    &&& heading == "发现新版本 "@ + version
                    &&& detail == "当前版本 "@ + current + seq![' ', '·', ' '] + name
                    &&& !state.show_notes ==> told is None && notes_label == "更新了什么"@
                    &&& state.show_notes ==> told == Some(shown_notes(notes)) && notes_label
                        == "收起更新内容"@
                }
            })
            &&& !state.dismissed ==> (state.status matches StatusView::Downloading {
                version,
                transferred,
                total,
                speed_bps,
            } ==> {
                &&& shown matches UpdateWindowView::Progress { heading, detail, unknown_total }
                &&& heading == "正在下载 v"@ + version + seq![' ', '…']
                &&& detail == progress_text(transferred, total, speed_bps)
                &&& unknown_total == (total == 0)
            })
            &&& !state.dismissed ==> (state.status matches StatusView::DownloadFailed {
                version,
                message,
            } ==> {
                &&& shown matches UpdateWindowView::Failure { heading, message: told }
                &&& heading == "更新 v"@ + version + " 失败"@
                &&& told == message
            })
            &&& state.status is Idle || state.status is Checking || state.status is UpToDate
                || state.status is Error ==> shown is Hidden
        }),
{
    reveal_strlit(" · ");
    reveal_strlit(" …");
    assert(" · "@ =~= seq![' ', '·', ' ']);
    assert(" …"@ =~= seq![' ', '…']);
}

/// Progress tells how much there is, of how much where that is known, and how fast it comes.
pub proof fn law_progress_is_told(transferred: u64, total: u64, speed_bps: u64, notes: Seq<char>)
    ensures
        total > 0 ==> progress_text(transferred, total, speed_bps) == bytes_text(transferred as nat)
            + seq![' ', '/', ' '] + bytes_text(total as nat) + seq![' ', '·', ' '] + bytes_text(
            speed_bps as nat,
        ) + seq!['/', 's'],
        total == 0 ==> progress_text(transferred, total, speed_bps) == bytes_text(
            transferred as nat,
        ) + seq![' ', '·', ' '] + bytes_text(speed_bps as nat) + seq!['/', 's'],
        trimmed(notes).len() > 0 ==> shown_notes(notes) == notes,
        trimmed(notes).len() == 0 ==> shown_notes(notes) == "（本版本没有提供更新说明）"@,
{
    reveal_strlit(" · ");
    reveal_strlit(" / ");
    reveal_strlit("/s");
    assert(" · "@ =~= seq![' ', '·', ' ']);
    assert(" / "@ =~= seq![' ', '/', ' ']);
    assert("/s"@ =~= seq!['/', 's']);
    if total > 0 {
        assert(progress_text(transferred, total, speed_bps) =~= bytes_text(transferred as nat)
            + seq![' ', '/', ' '] + bytes_text(total as nat) + seq![' ', '·', ' '] + bytes_text(
            speed_bps as nat,
        ) + seq!['/', 's']);
    } else {
        assert(progress_text(transferred, total, speed_bps) =~= bytes_text(transferred as nat)
            + seq![' ', '·', ' '] + bytes_text(speed_bps as nat) + seq!['/', 's']);
    }
}

/// What clicks do on an offer: the notes open and close, starting begins the download of what is
/// offered, ignoring keeps the version from being offered and hides the window, later hides it.
pub proof fn law_clicks_on_an_offer(
    state: CheckStateView,
    ignored: Option<Seq<char>>,
    clicks: UpdateClicks,
    platform: Platform,
    architecture: Architecture,
    version: Seq<char>,
    assets: Seq<AssetView>,
)
    requires
        !state.dismissed,
        state.status matches StatusView::UpdateAvailable { version: v, assets: a, .. } && v
            == version && a == assets,
        ignored != Some(version),
    ensures
        ({
            let after = after_clicks(state, ignored, clicks, platform, architecture);
            &&& after.1 == (if clicks.ignore {
                Some(version)
            } else {
                ignored
            })
            &&& after.0.show_notes == (if clicks.toggle_notes {
                !state.show_notes
            } else {
                state.show_notes
            })
            &&& after.0.dismissed == (clicks.ignore || clicks.later)
            &&& !clicks.start ==> after.0.status == state.status && after.0.last_version
                == state.last_version
            &&& clicks.start ==> after.0.status == download_begun(
                state,
                version,
                assets,
                platform,
                architecture,
            ).status
            &&& clicked_asset(state, ignored, clicks, platform, architecture) == (if clicks.start {
                platform_asset(platform, architecture, assets)
            } else {
                None
            })
            &&& clicked_ignore(state, ignored, clicks) == clicks.ignore
            &&& clicked_page(state, clicks) is None
        }),
{
}

/// What clicks do elsewhere: a download that is cancelled hides its window, a failed one can be
/// tried once more or have its page opened; in other states they do nothing.
pub proof fn law_clicks_on_a_download(
    state: CheckStateView,
    ignored: Option<Seq<char>>,
    clicks: UpdateClicks,
    platform: Platform,
    architecture: Architecture,
)
    requires
        !state.dismissed,
    ensures
        ({
            let after = after_clicks(state, ignored, clicks, platform, architecture);
            &&& !(state.status is UpdateAvailable) ==> after.1 == ignored && !clicked_ignore(
                state,
                ignored,
                clicks,
            )
            &&& state.status is Downloading ==> {
                &&& clicks.cancel ==> after.0 == (CheckStateView {
                    cancel_download: true,
                    dismissed: true,
                    ..state
                })
                &&& !clicks.cancel ==> after.0 == state
                &&& clicked_asset(state, ignored, clicks, platform, architecture) is None
            }
            &&& state.status matches StatusView::DownloadFailed { version, message } ==> {
                &&& clicks.retry && !clicks.open_page && !clicks.later ==> after.0
                    == download_retried(state, platform, architecture)
                &&& !clicks.retry ==> after.0 == (CheckStateView {
                    dismissed: clicks.open_page || clicks.later,
                    ..state
                })
                &&& clicks.open_page || clicks.later ==> after.0.dismissed
                &&& clicked_page(state, clicks) == (if clicks.open_page {
                    Some("https://github.com/dardiao/hapcli/releases/tag/v"@ + version)
                } else {
                    None
                })
                &&& clicked_asset(state, ignored, clicks, platform, architecture) == (if
                clicks.retry {
                    retried_asset(state, platform, architecture)
                } else {
                    None
                })
            }
            &&& state.status is Idle || state.status is Checking || state.status is UpToDate
                || state.status is Error || state.status is ReadyToInstall ==> after.0 == state
                && clicked_asset(state, ignored, clicks, platform, architecture) is None
                && clicked_page(state, clicks) is None
        }),
{
}

/// A hidden window takes no clicks.
pub proof fn law_hidden_windows_take_no_clicks(
    state: CheckStateView,
    ignored: Option<Seq<char>>,
    clicks: UpdateClicks,
    platform: Platform,
    architecture: Architecture,
)
    requires
        state.dismissed,
    ensures
        after_clicks(state, ignored, clicks, platform, architecture) == (state, ignored),
        clicked_asset(state, ignored, clicks, platform, architecture) is None,
        clicked_page(state, clicks) is None,
        !clicked_ignore(state, ignored, clicks),
{
}

/// A download falls short where its size was announced and another number of bytes arrived.
pub proof fn law_short_downloads_are_told(run: DownloadRun)
    ensures
        run.total == 0 ==> !run.falls_short(),
        run.total > 0 ==> (run.falls_short() <==> run.transferred != run.total),
{
}

/// What the clicks ask for is what is done: the program is closed for a version that waits, the
/// clicked package is downloaded, the settings are saved for an ignored version, and the clicked
/// page is opened.
pub proof fn law_effects_are_those_of_the_clicks(
    effect: UpdateEffect,
    state: CheckStateView,
    ignored: Option<Seq<char>>,
    clicks: UpdateClicks,
    platform: Platform,
    architecture: Architecture,
)
    requires
        is_update_effect(effect, state, ignored, clicks, platform, architecture),
    ensures
        effect.close <==> state.status is ReadyToInstall,
        effect.save_settings <==> clicked_ignore(state, ignored, clicks),
        effect.job is Some <==> clicked_asset(state, ignored, clicks, platform, architecture)
            is Some,
        effect.job matches Some(job) ==> clicked_asset(
            state,
            ignored,
            clicks,
            platform,
            architecture,
        ) == Some(job.asset@) && texts(job.proxies@) == state.proxies,
        effect.open_url matches Some(url) ==> clicked_page(state, clicks) == Some(url@),
        effect.open_url is None ==> clicked_page(state, clicks) is None,
{
}

} // verus!
