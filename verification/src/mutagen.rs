//! Data model for live daemon-reported synchronization sessions, with the
//! display helpers that summarize a session for the operator.

use vstd::prelude::*;
use vstd::string::StrSliceExecFns;
use vstd::string::StringExecFns;

use crate::text::dec_rep;
use crate::text::u64_to_string;

verus! {

/// When this session was last observed to complete a synchronization cycle.
#[derive(Debug, Clone, Copy, Default)]
pub enum SyncTime {
    /// Brand new session, no syncs yet.
    Never,
    /// Pre-existing session, sync history unknown.
    #[default]
    Unknown,
    /// Observed a sync at this time, in seconds since the Unix epoch.
    At(i64),
}

/// The state of one file inside a reported conflict.
#[derive(Debug)]
pub struct FileState {
    pub kind: String,
    pub digest: Option<String>,
}

/// Mathematical model of a `FileState`.
pub struct FileStateView {
    pub kind: Seq<char>,
    pub digest: Option<Seq<char>>,
}

impl View for FileState {
    type V = FileStateView;

    open spec fn view(&self) -> FileStateView {
        FileStateView { kind: self.kind@, digest: self.digest.deep_view() }
    }
}

impl DeepView for FileState {
    type V = FileStateView;

    open spec fn deep_view(&self) -> FileStateView {
        self.view()
    }
}

impl Clone for FileState {
    fn clone(&self) -> (res: Self)
        ensures
            res@ == self@,
    {
        FileState { kind: self.kind.clone(), digest: self.digest.clone() }
    }
}

/// One changed path on one side of a conflict.
#[derive(Debug)]
pub struct Change {
    pub path: String,
    pub old: Option<FileState>,
    pub new: Option<FileState>,
}

/// Mathematical model of a `Change`.
pub struct ChangeView {
    pub path: Seq<char>,
    pub old: Option<FileStateView>,
    pub new: Option<FileStateView>,
}

impl View for Change {
    type V = ChangeView;

    open spec fn view(&self) -> ChangeView {
        ChangeView { path: self.path@, old: self.old.deep_view(), new: self.new.deep_view() }
    }
}

impl DeepView for Change {
    type V = ChangeView;

    open spec fn deep_view(&self) -> ChangeView {
        self.view()
    }
}

impl Clone for Change {
    fn clone(&self) -> (res: Self)
        ensures
            res@ == self@,
    {
        Change { path: self.path.clone(), old: self.old.clone(), new: self.new.clone() }
    }
}

/// One conflict reported by the daemon: a root path and the changes each
/// side made under it.
#[derive(Debug)]
pub struct Conflict {
    pub root: String,
    pub alpha_changes: Vec<Change>,
    pub beta_changes: Vec<Change>,
}

/// Mathematical model of a `Conflict`.
pub struct ConflictView {
    pub root: Seq<char>,
    pub alpha_changes: Seq<ChangeView>,
    pub beta_changes: Seq<ChangeView>,
}

impl View for Conflict {
    type V = ConflictView;

    open spec fn view(&self) -> ConflictView {
        ConflictView {
            root: self.root@,
            alpha_changes: self.alpha_changes.deep_view(),
            beta_changes: self.beta_changes.deep_view(),
        }
    }
}

impl DeepView for Conflict {
    type V = ConflictView;

    open spec fn deep_view(&self) -> ConflictView {
        self.view()
    }
}

fn clone_changes(changes: &Vec<Change>) -> (res: Vec<Change>)
    ensures
        res.deep_view() == changes.deep_view(),
{
    let mut out: Vec<Change> = Vec::new();
    let mut i: usize = 0;
    while i < changes.len()
        invariant
            i <= changes.len(),
            out.deep_view() =~= changes.deep_view().subrange(0, i as int),
        decreases changes.len() - i,
    {
        let ghost prev = out.deep_view();
        out.push(changes[i].clone());
        proof {
            assert(out.deep_view() =~= prev.push(changes.deep_view()[i as int]));
            assert(out.deep_view() =~= changes.deep_view().subrange(0, i + 1));
        }
        i = i + 1;
    }
    proof {
        assert(out.deep_view() =~= changes.deep_view());
    }
    out
}

impl Clone for Conflict {
    fn clone(&self) -> (res: Self)
        ensures
            res@ == self@,
    {
        Conflict {
            root: self.root.clone(),
            alpha_changes: clone_changes(&self.alpha_changes),
            beta_changes: clone_changes(&self.beta_changes),
        }
    }
}

/// One endpoint of a session as the daemon reports it.
#[derive(Debug)]
pub struct Endpoint {
    pub protocol: String,
    pub path: String,
    pub host: Option<String>,
    pub connected: bool,
    pub scanned: bool,
    pub directories: Option<u64>,
    pub files: Option<u64>,
    pub symbolic_links: Option<u64>,
    pub total_file_size: Option<u64>,
}

/// Mathematical model of an `Endpoint`.
pub struct EndpointView {
    pub protocol: Seq<char>,
    pub path: Seq<char>,
    pub host: Option<Seq<char>>,
    pub connected: bool,
    pub scanned: bool,
    pub directories: Option<u64>,
    pub files: Option<u64>,
    pub symbolic_links: Option<u64>,
    pub total_file_size: Option<u64>,
}

impl View for Endpoint {
    type V = EndpointView;

    open spec fn view(&self) -> EndpointView {
        EndpointView {
            protocol: self.protocol@,
            path: self.path@,
            host: self.host.deep_view(),
            connected: self.connected,
            scanned: self.scanned,
            directories: self.directories,
            files: self.files,
            symbolic_links: self.symbolic_links,
            total_file_size: self.total_file_size,
        }
    }
}

impl DeepView for Endpoint {
    type V = EndpointView;

    open spec fn deep_view(&self) -> EndpointView {
        self.view()
    }
}

impl Clone for Endpoint {
    fn clone(&self) -> (res: Self)
        ensures
            res@ == self@,
    {
        Endpoint {
            protocol: self.protocol.clone(),
            path: self.path.clone(),
            host: self.host.clone(),
            connected: self.connected,
            scanned: self.scanned,
            directories: self.directories,
            files: self.files,
            symbolic_links: self.symbolic_links,
            total_file_size: self.total_file_size,
        }
    }
}

/// What `display_path` returns: `host:path` for a remote endpoint, the bare
/// path otherwise.
pub open spec fn display_path_rep(e: EndpointView) -> Seq<char> {
    match e.host {
        Some(h) => h + ":"@ + e.path,
        None => e.path,
    }
}

/// What `status_icon` returns for an endpoint's connection and scan state.
pub open spec fn status_icon_rep(e: EndpointView) -> Seq<char> {
    if !e.connected {
        "⊗"@
    } else if !e.scanned {
        "⟳"@
    } else {
        "✓"@
    }
}

/// What `stats_display` returns: file and directory counts where known.
pub open spec fn stats_display_rep(e: EndpointView) -> Seq<char> {
    match (e.files, e.directories) {
        (Some(f), Some(d)) => dec_rep(f as nat) + "f/"@ + dec_rep(d as nat) + "d"@,
        (Some(f), None) => dec_rep(f as nat) + "f"@,
        (None, Some(d)) => dec_rep(d as nat) + "d"@,
        (None, None) => Seq::empty(),
    }
}

impl Endpoint {
    /// The endpoint rendered as `host:path` for remotes, or the plain path.
    pub fn display_path(&self) -> (r: String)
        ensures
            r@ == display_path_rep(self@),
    {
        match &self.host {
            Some(h) => {
                let mut out = h.clone();
                out.append(":");
                out.append(self.path.as_str());
                proof {
                    reveal_strlit(":");
                }
                out
            },
            None => self.path.clone(),
        }
    }

    /// A one-character connection/scan status marker.
    pub fn status_icon(&self) -> (r: &'static str)
        ensures
            r@ == status_icon_rep(self@),
    {
        if !self.connected {
            "⊗"
        } else if !self.scanned {
            "⟳"
        } else {
            "✓"
        }
    }

    /// File and directory counts, e.g. `12f/3d`, or empty when unknown.
    pub fn stats_display(&self) -> (r: String)
        ensures
            r@ == stats_display_rep(self@),
    {
        proof {
            reveal_strlit("f/");
            reveal_strlit("f");
            reveal_strlit("d");
        }
        match (&self.files, &self.directories) {
            (Some(f), Some(d)) => {
                let mut out = u64_to_string(*f);
                out.append("f/");
                let ds = u64_to_string(*d);
                out.append(ds.as_str());
                out.append("d");
                out
            },
            (Some(f), None) => {
                let mut out = u64_to_string(*f);
                out.append("f");
                out
            },
            (None, Some(d)) => {
                let mut out = u64_to_string(*d);
                out.append("d");
                out
            },
            (None, None) => {
                proof {
                    assert(stats_display_rep(self@) =~= Seq::<char>::empty());
                }
                String::new()
            },
        }
    }
}

/// One live daemon-reported session.
#[derive(Debug)]
pub struct SyncSession {
    pub name: String,
    pub identifier: String,
    pub alpha: Endpoint,
    pub beta: Endpoint,
    pub status: String,
    pub paused: bool,
    pub mode: Option<String>,
    pub creation_time: Option<String>,
    pub successful_cycles: Option<u64>,
    pub conflicts: Vec<Conflict>,
    pub sync_time: SyncTime,
}

/// Mathematical model of a `SyncSession`.
pub struct SessionView {
    pub name: Seq<char>,
    pub identifier: Seq<char>,
    pub alpha: EndpointView,
    pub beta: EndpointView,
    pub status: Seq<char>,
    pub paused: bool,
    pub mode: Option<Seq<char>>,
    pub creation_time: Option<Seq<char>>,
    pub successful_cycles: Option<u64>,
    pub conflicts: Seq<ConflictView>,
    pub sync_time: SyncTime,
}

impl View for SyncSession {
    type V = SessionView;

    open spec fn view(&self) -> SessionView {
        SessionView {
            name: self.name@,
            identifier: self.identifier@,
            alpha: self.alpha@,
            beta: self.beta@,
            status: self.status@,
            paused: self.paused,
            mode: self.mode.deep_view(),
            creation_time: self.creation_time.deep_view(),
            successful_cycles: self.successful_cycles,
            conflicts: self.conflicts.deep_view(),
            sync_time: self.sync_time,
        }
    }
}

impl DeepView for SyncSession {
    type V = SessionView;

    open spec fn deep_view(&self) -> SessionView {
        self.view()
    }
}

fn clone_conflicts(conflicts: &Vec<Conflict>) -> (res: Vec<Conflict>)
    ensures
        res.deep_view() == conflicts.deep_view(),
{
    let mut out: Vec<Conflict> = Vec::new();
    let mut i: usize = 0;
    while i < conflicts.len()
        invariant
            i <= conflicts.len(),
            out.deep_view() =~= conflicts.deep_view().subrange(0, i as int),
        decreases conflicts.len() - i,
    {
        let ghost prev = out.deep_view();
        out.push(conflicts[i].clone());
        proof {
            assert(out.deep_view() =~= prev.push(conflicts.deep_view()[i as int]));
            assert(out.deep_view() =~= conflicts.deep_view().subrange(0, i + 1));
        }
        i = i + 1;
    }
    proof {
        assert(out.deep_view() =~= conflicts.deep_view());
    }
    out
}

impl Clone for SyncSession {
    fn clone(&self) -> (res: Self)
        ensures
            res@ == self@,
    {
        SyncSession {
            name: self.name.clone(),
            identifier: self.identifier.clone(),
            alpha: self.alpha.clone(),
            beta: self.beta.clone(),
            status: self.status.clone(),
            paused: self.paused,
            mode: self.mode.clone(),
            creation_time: self.creation_time.clone(),
            successful_cycles: self.successful_cycles,
            conflicts: clone_conflicts(&self.conflicts),
            sync_time: self.sync_time,
        }
    }
}

/// What `time_ago_text` returns for a sync time `t` read at wall-clock
/// second `now`.
pub open spec fn time_ago_rep(t: SyncTime, now: int) -> Seq<char> {
    match t {
        SyncTime::Never => "never"@,
        SyncTime::Unknown => "unknown"@,
        SyncTime::At(ts) => {
            let seconds = now - ts;
            if seconds < 60 {
                "just now"@
            } else if seconds < 120 {
                "1 min ago"@
            } else if seconds < 3600 {
                dec_rep((seconds / 60) as nat) + " mins ago"@
            } else if seconds < 7200 {
                "1 hour ago"@
            } else if seconds < 86400 {
                dec_rep((seconds / 3600) as nat) + " hours ago"@
            } else if seconds < 172800 {
                "1 day ago"@
            } else {
                dec_rep((seconds / 86400) as nat) + " days ago"@
            }
        },
    }
}

impl SyncSession {
    /// Whether the daemon reported any conflict for this session.
    pub fn has_conflicts(&self) -> (r: bool)
        ensures
            r == (self@.conflicts.len() > 0),
    {
        self.conflicts.len() > 0
    }

    /// How many conflicts the daemon reported.
    pub fn conflict_count(&self) -> (r: usize)
        ensures
            r == self@.conflicts.len(),
    {
        self.conflicts.len()
    }

    /// The alpha endpoint rendered for display.
    pub fn alpha_display(&self) -> (r: String)
        ensures
            r@ == display_path_rep(self@.alpha),
    {
        self.alpha.display_path()
    }

    /// The beta endpoint rendered for display.
    pub fn beta_display(&self) -> (r: String)
        ensures
            r@ == display_path_rep(self@.beta),
    {
        self.beta.display_path()
    }

    /// How long ago the last observed sync was, relative to `now` in seconds
    /// since the Unix epoch.
    pub fn time_ago_text(&self, now: i64) -> (r: String)
        ensures
            r@ == time_ago_rep(self@.sync_time, now as int),
    {
        proof {
            reveal_strlit("never");
            reveal_strlit("unknown");
            reveal_strlit("just now");
            reveal_strlit("1 min ago");
            reveal_strlit(" mins ago");
            reveal_strlit("1 hour ago");
            reveal_strlit(" hours ago");
            reveal_strlit("1 day ago");
            reveal_strlit(" days ago");
        }
        match self.sync_time {
            SyncTime::Never => String::from_str("never"),
            SyncTime::Unknown => String::from_str("unknown"),
            SyncTime::At(ts) => {
                let seconds: i128 = (now as i128) - (ts as i128);
                if seconds < 60 {
                    String::from_str("just now")
                } else if seconds < 120 {
                    String::from_str("1 min ago")
                } else if seconds < 3600 {
                    let mut out = u64_to_string((seconds / 60) as u64);
                    out.append(" mins ago");
                    out
                } else if seconds < 7200 {
                    String::from_str("1 hour ago")
                } else if seconds < 86400 {
                    let mut out = u64_to_string((seconds / 3600) as u64);
                    out.append(" hours ago");
                    out
                } else if seconds < 172800 {
                    String::from_str("1 day ago")
                } else {
                    let mut out = u64_to_string((seconds / 86400) as u64);
                    out.append(" days ago");
                    out
                }
            },
        }
    }

    /// How long ago the last observed sync was, read against the clock now.
    pub fn time_ago_display(&self) -> (r: String)
        ensures
            exists|now: int| r@ == time_ago_rep(self@.sync_time, now),
    {
        let now = now_unix();
        let r = self.time_ago_text(now);
        proof {
            assert(r@ == time_ago_rep(self@.sync_time, now as int));
        }
        r
    }
}

/// Relies on chrono's `Local::now`: the current wall-clock time, in seconds
/// since the Unix epoch. The result depends on the clock, so nothing is
/// promised of it.
#[verifier::external_body]
pub fn now_unix() -> i64 {
    chrono::Local::now().timestamp()
}

} // verus!
