//! Project configuration model and the reconciliation engine: classifying
//! each configured sync spec against the live session list, aggregating
//! conflicts, recommending a default fold state, and carrying operator fold
//! choices across rebuilds.

use vstd::prelude::*;
use vstd::seq_lib::*;
use vstd::string::StrSliceExecFns;
use vstd::string::StringExecFns;

use crate::mutagen::Conflict;
use crate::mutagen::SessionView;
use crate::mutagen::SyncSession;
use crate::mutagen::SyncTime;
use crate::text::contains_seq;
use crate::text::ends_with_seq;
use crate::text::find_char;
use crate::text::str_contains;
use crate::text::lemma_lex_total;
use crate::text::lemma_lex_trans;
use crate::text::lex_leq;
use crate::text::starts_with_seq;
use crate::text::str_ends_with;
use crate::text::str_eq;
use crate::text::str_lex_leq;
use crate::text::str_starts_with;
use crate::text::rfind_char;

verus! {

/// Ignore rules attached to a sync spec definition, in either of the two
/// accepted configuration shapes: a plain pattern list, or an options block
/// with a VCS flag and an explicit path list.
#[derive(Debug)]
pub enum IgnoreRules {
    Patterns(Vec<String>),
    Options { vcs: bool, paths: Vec<String> },
}

/// Mathematical model of `IgnoreRules`.
pub enum IgnoreRulesView {
    Patterns(Seq<Seq<char>>),
    Options { vcs: bool, paths: Seq<Seq<char>> },
}

impl View for IgnoreRules {
    type V = IgnoreRulesView;

    open spec fn view(&self) -> IgnoreRulesView {
        match self {
            IgnoreRules::Patterns(ps) => IgnoreRulesView::Patterns(ps.deep_view()),
            IgnoreRules::Options { vcs, paths } => IgnoreRulesView::Options {
                vcs: *vcs,
                paths: paths.deep_view(),
            },
        }
    }
}

impl DeepView for IgnoreRules {
    type V = IgnoreRulesView;

    open spec fn deep_view(&self) -> IgnoreRulesView {
        self.view()
    }
}

/// One configured endpoint pair, keyed by name inside a project file.
#[derive(Debug)]
pub struct SessionDefinition {
    pub alpha: String,
    pub beta: String,
    pub mode: Option<String>,
    pub ignore: Option<IgnoreRules>,
}

/// Mathematical model of a `SessionDefinition`.
pub struct SessionDefinitionView {
    pub alpha: Seq<char>,
    pub beta: Seq<char>,
    pub mode: Option<Seq<char>>,
    pub ignore: Option<IgnoreRulesView>,
}

impl View for SessionDefinition {
    type V = SessionDefinitionView;

    open spec fn view(&self) -> SessionDefinitionView {
        SessionDefinitionView {
            alpha: self.alpha@,
            beta: self.beta@,
            mode: self.mode.deep_view(),
            ignore: self.ignore.deep_view(),
        }
    }
}

impl DeepView for SessionDefinition {
    type V = SessionDefinitionView;

    open spec fn deep_view(&self) -> SessionDefinitionView {
        self.view()
    }
}

/// One parsed project configuration file: its path, the optional target name
/// taken from the file name, the configured spec definitions in file order,
/// and the ignore rules of the file's defaults block, if any.
#[derive(Debug)]
pub struct ProjectFile {
    pub path: String,
    pub target_name: Option<String>,
    pub sessions: Vec<(String, SessionDefinition)>,
    pub defaults_ignore: Option<IgnoreRules>,
}

/// Mathematical model of a `ProjectFile`.
pub struct ProjectFileView {
    pub path: Seq<char>,
    pub target_name: Option<Seq<char>>,
    pub sessions: Seq<(Seq<char>, SessionDefinitionView)>,
    pub defaults_ignore: Option<IgnoreRulesView>,
}

impl View for ProjectFile {
    type V = ProjectFileView;

    open spec fn view(&self) -> ProjectFileView {
        ProjectFileView {
            path: self.path@,
            target_name: self.target_name.deep_view(),
            sessions: self.sessions.deep_view(),
            defaults_ignore: self.defaults_ignore.deep_view(),
        }
    }
}

impl DeepView for ProjectFile {
    type V = ProjectFileView;

    open spec fn deep_view(&self) -> ProjectFileView {
        self.view()
    }
}

/// The final component of a `/`-separated path: everything after the last
/// slash, or the whole path when it has none.
pub open spec fn basename_rep(p: Seq<char>) -> Seq<char> {
    match p.index_of_last('/') {
        Some(i) => p.subrange(i + 1, p.len() as int),
        None => p,
    }
}

/// The final component of a `/`-separated path.
pub fn basename_of(path: &str) -> (r: &str)
    ensures
        r@ == basename_rep(path@),
{
    proof {
        path@.index_of_last_ensures('/');
    }
    match rfind_char(path, '/') {
        Some(i) => {
            proof {
                let iol = path@.index_of_last('/');
                assert(iol.is_some()) by {
                    if iol.is_none() {
                        assert(!path@.contains('/'));
                        assert(path@[i as int] == '/');
                    }
                }
                let k = iol.unwrap();
                assert(k == i);
            }
            let n = path.unicode_len();
            path.substring_char(i + 1, n)
        },
        None => {
            proof {
                let iol = path@.index_of_last('/');
                if iol.is_some() {
                    let k = iol.unwrap();
                    assert(path@[k] == '/');
                }
            }
            path
        },
    }
}

/// What `extract_target_name` returns: the target between the reserved
/// `mutagen-`/`.mutagen-` prefix and the `.yml` suffix of the file name,
/// when the name follows that convention.
pub open spec fn target_name_rep(path: Seq<char>) -> Option<Seq<char>> {
    let name = basename_rep(path);
    if starts_with_seq(name, "mutagen-"@) && ends_with_seq(name, ".yml"@) && name.len() >= "mutagen-"@.len()
        + ".yml"@.len() {
        Some(name.subrange("mutagen-"@.len() as int, name.len() - ".yml"@.len()))
    } else if starts_with_seq(name, ".mutagen-"@) && ends_with_seq(name, ".yml"@) && name.len()
        >= ".mutagen-"@.len() + ".yml"@.len() {
        Some(name.subrange(".mutagen-"@.len() as int, name.len() - ".yml"@.len()))
    } else {
        None
    }
}

/// The target name encoded in a project file's name, if it follows the
/// `mutagen-<target>.yml` or `.mutagen-<target>.yml` convention.
pub fn extract_target_name(path: &str) -> (r: Option<String>)
    ensures
        r.deep_view() == target_name_rep(path@),
{
    proof {
        reveal_strlit("mutagen-");
        reveal_strlit(".mutagen-");
        reveal_strlit(".yml");
    }
    let name = basename_of(path);
    let n = name.unicode_len();
    if str_starts_with(name, "mutagen-") && str_ends_with(name, ".yml") && n >= 12 {
        Some(name.substring_char(8, n - 4).to_owned())
    } else if str_starts_with(name, ".mutagen-") && str_ends_with(name, ".yml") && n >= 13 {
        Some(name.substring_char(9, n - 4).to_owned())
    } else {
        None
    }
}

/// The version-control directories that a `vcs: true` ignore block stands
/// for, matching the daemon's own VCS ignore set.
pub open spec fn vcs_dir_names() -> Seq<Seq<char>> {
    seq![".git"@, ".svn"@, ".hg"@, ".bzr"@, "_darcs"@, ".fossil-settings"@]
}

/// `acc` with `x` appended unless already present.
pub open spec fn add_pattern(acc: Seq<Seq<char>>, x: Seq<char>) -> Seq<Seq<char>> {
    if acc.contains(x) {
        acc
    } else {
        acc.push(x)
    }
}

/// `acc` with each element of `xs` appended in order, skipping duplicates.
pub open spec fn add_patterns_rep(acc: Seq<Seq<char>>, xs: Seq<Seq<char>>) -> Seq<Seq<char>>
    decreases xs.len(),
{
    if xs.len() == 0 {
        acc
    } else {
        add_patterns_rep(add_pattern(acc, xs[0]), xs.drop_first())
    }
}

proof fn lemma_add_patterns_snoc(acc: Seq<Seq<char>>, xs: Seq<Seq<char>>, x: Seq<char>)
    ensures
        add_patterns_rep(acc, xs.push(x)) == add_pattern(add_patterns_rep(acc, xs), x),
    decreases xs.len(),
{
    if xs.len() == 0 {
        assert(xs.push(x)[0] == x);
        assert(xs.push(x).drop_first() =~= Seq::<Seq<char>>::empty());
        assert(add_patterns_rep(acc, xs) == acc);
        assert(add_patterns_rep(add_pattern(acc, x), Seq::<Seq<char>>::empty()) == add_pattern(
            acc,
            x,
        ));
        assert(add_patterns_rep(acc, xs.push(x)) == add_patterns_rep(
            add_pattern(acc, x),
            xs.push(x).drop_first(),
        ));
    } else {
        assert(xs.push(x)[0] == xs[0]);
        assert(xs.push(x).drop_first() =~= xs.drop_first().push(x));
        lemma_add_patterns_snoc(add_pattern(acc, xs[0]), xs.drop_first(), x);
        assert(add_patterns_rep(acc, xs.push(x)) == add_patterns_rep(
            add_pattern(acc, xs[0]),
            xs.drop_first().push(x),
        ));
        assert(add_patterns_rep(acc, xs) == add_patterns_rep(
            add_pattern(acc, xs[0]),
            xs.drop_first(),
        ));
    }
}

/// The patterns one ignore block contributes, appended to `acc` without
/// duplicates; a `vcs: true` block contributes the VCS directories first.
pub open spec fn rules_patterns_rep(acc: Seq<Seq<char>>, r: IgnoreRulesView) -> Seq<Seq<char>> {
    match r {
        IgnoreRulesView::Patterns(ps) => add_patterns_rep(acc, ps),
        IgnoreRulesView::Options { vcs, paths } => add_patterns_rep(
            if vcs {
                add_patterns_rep(acc, vcs_dir_names())
            } else {
                acc
            },
            paths,
        ),
    }
}

/// What `get_ignore_patterns` returns: the default block's patterns, then
/// the spec's own, in order and without duplicates.
pub open spec fn ignore_patterns_rep(
    defaults: Option<IgnoreRulesView>,
    own: Option<IgnoreRulesView>,
) -> Seq<Seq<char>> {
    let base = match defaults {
        Some(d) => rules_patterns_rep(Seq::empty(), d),
        None => Seq::empty(),
    };
    match own {
        Some(o) => rules_patterns_rep(base, o),
        None => base,
    }
}

/// Whether some element of `v` reads as `x`.
fn vec_contains_str(v: &Vec<String>, x: &str) -> (r: bool)
    ensures
        r == v.deep_view().contains(x@),
{
    let mut i: usize = 0;
    while i < v.len()
        invariant
            i <= v.len(),
            forall|j: int| 0 <= j < i ==> v.deep_view()[j] != x@,
        decreases v.len() - i,
    {
        if str_eq(v[i].as_str(), x) {
            proof {
                assert(v.deep_view()[i as int] == x@);
            }
            return true;
        }
        i = i + 1;
    }
    false
}

/// Append `x` unless already present.
fn push_unique(acc: &mut Vec<String>, x: &str)
    ensures
        final(acc).deep_view() == add_pattern(old(acc).deep_view(), x@),
{
    if !vec_contains_str(acc, x) {
        let ghost prev = acc.deep_view();
        acc.push(x.to_owned());
        proof {
            assert(acc.deep_view() =~= prev.push(x@));
        }
    }
}

/// Append each element of `xs` unless already present.
fn append_unique(acc: &mut Vec<String>, xs: &Vec<String>)
    ensures
        final(acc).deep_view() == add_patterns_rep(old(acc).deep_view(), xs.deep_view()),
{
    let ghost base = acc.deep_view();
    let mut i: usize = 0;
    while i < xs.len()
        invariant
            i <= xs.len(),
            acc.deep_view() == add_patterns_rep(base, xs.deep_view().subrange(0, i as int)),
        decreases xs.len() - i,
    {
        push_unique(acc, xs[i].as_str());
        proof {
            lemma_add_patterns_snoc(base, xs.deep_view().subrange(0, i as int), xs.deep_view()[i as int]);
            assert(xs.deep_view().subrange(0, i + 1) =~= xs.deep_view().subrange(0, i as int).push(
                xs.deep_view()[i as int],
            ));
        }
        i = i + 1;
    }
    proof {
        assert(xs.deep_view().subrange(0, xs.deep_view().len() as int) =~= xs.deep_view());
    }
}

/// Append the patterns one ignore block contributes.
fn append_rules(acc: &mut Vec<String>, r: &IgnoreRules)
    ensures
        final(acc).deep_view() == rules_patterns_rep(old(acc).deep_view(), r@),
{
    match r {
        IgnoreRules::Patterns(ps) => append_unique(acc, ps),
        IgnoreRules::Options { vcs, paths } => {
            if *vcs {
                let ghost base = acc.deep_view();
                proof {
                    reveal_strlit(".git");
                    reveal_strlit(".svn");
                    reveal_strlit(".hg");
                    reveal_strlit(".bzr");
                    reveal_strlit("_darcs");
                    reveal_strlit(".fossil-settings");
                }
                push_unique(acc, ".git");
                push_unique(acc, ".svn");
                push_unique(acc, ".hg");
                push_unique(acc, ".bzr");
                push_unique(acc, "_darcs");
                push_unique(acc, ".fossil-settings");
                proof {
                    let v = vcs_dir_names();
                    let a1 = add_pattern(base, ".git"@);
                    let a2 = add_pattern(a1, ".svn"@);
                    let a3 = add_pattern(a2, ".hg"@);
                    let a4 = add_pattern(a3, ".bzr"@);
                    let a5 = add_pattern(a4, "_darcs"@);
                    let a6 = add_pattern(a5, ".fossil-settings"@);
                    let v1 = seq![".svn"@, ".hg"@, ".bzr"@, "_darcs"@, ".fossil-settings"@];
                    let v2 = seq![".hg"@, ".bzr"@, "_darcs"@, ".fossil-settings"@];
                    let v3 = seq![".bzr"@, "_darcs"@, ".fossil-settings"@];
                    let v4 = seq!["_darcs"@, ".fossil-settings"@];
                    let v5 = seq![".fossil-settings"@];
                    assert(v[0] == ".git"@);
                    assert(v1[0] == ".svn"@);
                    assert(v2[0] == ".hg"@);
                    assert(v3[0] == ".bzr"@);
                    assert(v4[0] == "_darcs"@);
                    assert(v5[0] == ".fossil-settings"@);
                    assert(v.drop_first() =~= v1);
                    assert(v1.drop_first() =~= v2);
                    assert(v2.drop_first() =~= v3);
                    assert(v3.drop_first() =~= v4);
                    assert(v4.drop_first() =~= v5);
                    assert(v5.drop_first() =~= Seq::<Seq<char>>::empty());
                    assert(add_patterns_rep(base, v) == add_patterns_rep(a1, v1));
                    assert(add_patterns_rep(a1, v1) == add_patterns_rep(a2, v2));
                    assert(add_patterns_rep(a2, v2) == add_patterns_rep(a3, v3));
                    assert(add_patterns_rep(a3, v3) == add_patterns_rep(a4, v4));
                    assert(add_patterns_rep(a4, v4) == add_patterns_rep(a5, v5));
                    assert(add_patterns_rep(a6, Seq::<Seq<char>>::empty()) == a6);
                    assert(add_patterns_rep(a5, v5) == add_patterns_rep(a6, v5.drop_first()));
                    assert(add_patterns_rep(a5, v5) == a6);
                    assert(acc.deep_view() == add_patterns_rep(base, v));
                }
            }
            append_unique(acc, paths);
        },
    }
}

impl SessionDefinition {
    /// The ignore patterns for this spec: the default block's patterns
    /// first, then the spec's own, each added once.
    pub fn get_ignore_patterns(&self, defaults: Option<&IgnoreRules>) -> (r: Vec<String>)
        ensures
            r.deep_view() == ignore_patterns_rep(defaults.deep_view(), self@.ignore),
    {
        let mut patterns: Vec<String> = Vec::new();
        proof {
            assert(patterns.deep_view() =~= Seq::<Seq<char>>::empty());
        }
        match defaults {
            Some(d) => append_rules(&mut patterns, d),
            None => {},
        }
        match &self.ignore {
            Some(o) => append_rules(&mut patterns, o),
            None => {},
        }
        patterns
    }
}

/// What `display_name` returns: `mutagen-<target>` when a target name is
/// set, else the file name without its `.yml` suffix, else `mutagen`.
pub open spec fn display_name_rep(f: ProjectFileView) -> Seq<char> {
    match f.target_name {
        Some(t) => "mutagen-"@ + t,
        None => {
            let name = basename_rep(f.path);
            if ends_with_seq(name, ".yml"@) {
                name.subrange(0, name.len() - ".yml"@.len())
            } else {
                "mutagen"@
            }
        },
    }
}

impl ProjectFile {
    /// The name under which this project is shown.
    pub fn display_name(&self) -> (r: String)
        ensures
            r@ == display_name_rep(self@),
    {
        proof {
            reveal_strlit("mutagen-");
            reveal_strlit("mutagen");
            reveal_strlit(".yml");
        }
        match &self.target_name {
            Some(t) => {
                let mut out = String::from_str("mutagen-");
                out.append(t.as_str());
                out
            },
            None => {
                let name = basename_of(self.path.as_str());
                let n = name.unicode_len();
                if str_ends_with(name, ".yml") {
                    name.substring_char(0, n - 4).to_owned()
                } else {
                    String::from_str("mutagen")
                }
            },
        }
    }
}

} // verus!

verus! {

/// The daemon's mode string for one-way (push) replication.
pub open spec fn one_way_mode() -> Seq<char> {
    "one-way-replica"@
}

/// The reserved session-name suffix for push sessions.
pub open spec fn push_name_of(name: Seq<char>) -> Seq<char> {
    name + "-push"@
}

/// `s` runs the spec named `name` as a two-way sync: exact name match,
/// mode not one-way.
pub open spec fn is_two_way_match(s: SessionView, name: Seq<char>) -> bool {
    s.name == name && s.mode != Some(one_way_mode())
}

/// `s` runs the spec named `name` as a push: name carries the reserved
/// suffix and the mode is one-way.
pub open spec fn is_push_match(s: SessionView, name: Seq<char>) -> bool {
    s.name == push_name_of(name) && s.mode == Some(one_way_mode())
}

/// Index of the first session matching spec `name` as a two-way sync.
pub open spec fn first_two_way(ss: Seq<SessionView>, name: Seq<char>) -> Option<int>
    decreases ss.len(),
{
    if ss.len() == 0 {
        None
    } else if is_two_way_match(ss[0], name) {
        Some(0)
    } else {
        match first_two_way(ss.drop_first(), name) {
            Some(i) => Some(i + 1),
            None => None,
        }
    }
}

/// Index of the first session matching spec `name` as a push.
pub open spec fn first_push(ss: Seq<SessionView>, name: Seq<char>) -> Option<int>
    decreases ss.len(),
{
    if ss.len() == 0 {
        None
    } else if is_push_match(ss[0], name) {
        Some(0)
    } else {
        match first_push(ss.drop_first(), name) {
            Some(i) => Some(i + 1),
            None => None,
        }
    }
}

/// `first_two_way` finds the earliest two-way match, or none exists.
pub proof fn lemma_first_two_way_ensures(ss: Seq<SessionView>, name: Seq<char>)
    ensures
        match first_two_way(ss, name) {
            Some(i) => 0 <= i < ss.len() && is_two_way_match(ss[i], name) && (forall|j: int|
                0 <= j < i ==> !is_two_way_match(ss[j], name)),
            None => forall|j: int| 0 <= j < ss.len() ==> !is_two_way_match(ss[j], name),
        },
    decreases ss.len(),
{
    if ss.len() > 0 && !is_two_way_match(ss[0], name) {
        lemma_first_two_way_ensures(ss.drop_first(), name);
        assert(forall|j: int| 0 < j < ss.len() ==> ss[j] == ss.drop_first()[j - 1]);
    }
}

/// `first_push` finds the earliest push match, or none exists.
pub proof fn lemma_first_push_ensures(ss: Seq<SessionView>, name: Seq<char>)
    ensures
        match first_push(ss, name) {
            Some(i) => 0 <= i < ss.len() && is_push_match(ss[i], name) && (forall|j: int|
                0 <= j < i ==> !is_push_match(ss[j], name)),
            None => forall|j: int| 0 <= j < ss.len() ==> !is_push_match(ss[j], name),
        },
    decreases ss.len(),
{
    if ss.len() > 0 && !is_push_match(ss[0], name) {
        lemma_first_push_ensures(ss.drop_first(), name);
        assert(forall|j: int| 0 < j < ss.len() ==> ss[j] == ss.drop_first()[j - 1]);
    }
}

/// Runtime classification of one configured sync spec.
#[derive(Debug, Clone, Copy, PartialEq, Eq, Structural)]
pub enum SyncSpecState {
    /// Spec defined but no session running.
    NotRunning,
    /// Running as two-way sync.
    RunningTwoWay,
    /// Running as one-way-replica (push).
    RunningPush,
}

/// One configured sync spec with its classified runtime state and, when
/// running, the session attached to it.
#[derive(Debug)]
pub struct SyncSpec {
    pub name: String,
    pub state: SyncSpecState,
    pub running_session: Option<SyncSession>,
}

/// Mathematical model of a `SyncSpec`.
pub struct SyncSpecView {
    pub name: Seq<char>,
    pub state: SyncSpecState,
    pub session: Option<SessionView>,
}

impl View for SyncSpec {
    type V = SyncSpecView;

    open spec fn view(&self) -> SyncSpecView {
        SyncSpecView {
            name: self.name@,
            state: self.state,
            session: self.running_session.deep_view(),
        }
    }
}

impl DeepView for SyncSpec {
    type V = SyncSpecView;

    open spec fn deep_view(&self) -> SyncSpecView {
        self.view()
    }
}

/// The spec has a session attached.
pub open spec fn spec_is_running(s: SyncSpecView) -> bool {
    s.session.is_some()
}

/// The spec's attached session reports at least one conflict.
pub open spec fn spec_has_conflicts(s: SyncSpecView) -> bool {
    match s.session {
        Some(sess) => sess.conflicts.len() > 0,
        None => false,
    }
}

/// The spec's attached session is paused.
pub open spec fn spec_is_paused(s: SyncSpecView) -> bool {
    match s.session {
        Some(sess) => sess.paused,
        None => false,
    }
}

impl SyncSpec {
    /// Whether this spec has a running session.
    pub fn is_running(&self) -> (r: bool)
        ensures
            r == spec_is_running(self@),
    {
        self.running_session.is_some()
    }

    /// Conflicts of the running session, if one is attached.
    pub fn conflicts(&self) -> (r: Option<&Vec<Conflict>>)
        ensures
            match r {
                Some(c) => self@.session matches Some(s) && c.deep_view() == s.conflicts,
                None => self@.session is None,
            },
    {
        match &self.running_session {
            Some(s) => Some(&s.conflicts),
            None => None,
        }
    }

    /// Whether the running session reports conflicts.
    pub fn has_conflicts(&self) -> (r: bool)
        ensures
            r == spec_has_conflicts(self@),
    {
        match &self.running_session {
            Some(s) => s.conflicts.len() > 0,
            None => false,
        }
    }

    /// Whether the running session is paused.
    pub fn is_paused(&self) -> (r: bool)
        ensures
            r == spec_is_paused(self@),
    {
        match &self.running_session {
            Some(s) => s.paused,
            None => false,
        }
    }
}

/// The classification of spec `name` against the session list: a two-way
/// match wins, a push match is only looked for absent one, else the spec is
/// not running and nothing attaches.
pub open spec fn classify_rep(name: Seq<char>, ss: Seq<SessionView>) -> SyncSpecView {
    match first_two_way(ss, name) {
        Some(i) => SyncSpecView {
            name,
            state: SyncSpecState::RunningTwoWay,
            session: Some(ss[i]),
        },
        None => match first_push(ss, name) {
            Some(i) => SyncSpecView { name, state: SyncSpecState::RunningPush, session: Some(ss[i]) },
            None => SyncSpecView { name, state: SyncSpecState::NotRunning, session: None },
        },
    }
}

/// Whether this session's mode marks one-way replication.
fn session_is_one_way(s: &SyncSession) -> (r: bool)
    ensures
        r == (s@.mode == Some(one_way_mode())),
{
    match &s.mode {
        Some(m) => str_eq(m.as_str(), "one-way-replica"),
        None => false,
    }
}

/// Index of the first session that runs `name` as a two-way sync.
fn find_two_way_session(sessions: &[SyncSession], name: &str) -> (r: Option<usize>)
    ensures
        match r {
            Some(i) => first_two_way(sessions.deep_view(), name@) == Some(i as int),
            None => first_two_way(sessions.deep_view(), name@) is None,
        },
{
    proof {
        lemma_first_two_way_ensures(sessions.deep_view(), name@);
    }
    let n = sessions.len();
    let mut i: usize = 0;
    while i < n
        invariant
            n == sessions@.len(),
            i <= n,
            forall|j: int| 0 <= j < i ==> !is_two_way_match(sessions.deep_view()[j], name@),
        decreases n - i,
    {
        let s = &sessions[i];
        if str_eq(s.name.as_str(), name) && !session_is_one_way(s) {
            proof {
                assert(is_two_way_match(sessions.deep_view()[i as int], name@));
                lemma_first_two_way_ensures(sessions.deep_view(), name@);
            }
            return Some(i);
        }
        i = i + 1;
    }
    None
}

/// Index of the first session that runs `name` as a push.
fn find_push_session(sessions: &[SyncSession], name: &str) -> (r: Option<usize>)
    ensures
        match r {
            Some(i) => first_push(sessions.deep_view(), name@) == Some(i as int),
            None => first_push(sessions.deep_view(), name@) is None,
        },
{
    proof {
        lemma_first_push_ensures(sessions.deep_view(), name@);
        reveal_strlit("-push");
    }
    let push_name = String::from_str(name).concat("-push");
    let n = sessions.len();
    let mut i: usize = 0;
    while i < n
        invariant
            n == sessions@.len(),
            i <= n,
            push_name@ == push_name_of(name@),
            forall|j: int| 0 <= j < i ==> !is_push_match(sessions.deep_view()[j], name@),
        decreases n - i,
    {
        let s = &sessions[i];
        if str_eq(s.name.as_str(), push_name.as_str()) && session_is_one_way(s) {
            proof {
                assert(is_push_match(sessions.deep_view()[i as int], name@));
                lemma_first_push_ensures(sessions.deep_view(), name@);
            }
            return Some(i);
        }
        i = i + 1;
    }
    None
}

/// Classify one configured spec against the live session list.
fn classify_spec(name: &String, sessions: &[SyncSession]) -> (r: SyncSpec)
    ensures
        r@ == classify_rep(name@, sessions.deep_view()),
{
    proof {
        lemma_first_two_way_ensures(sessions.deep_view(), name@);
        lemma_first_push_ensures(sessions.deep_view(), name@);
    }
    match find_two_way_session(sessions, name.as_str()) {
        Some(i) => SyncSpec {
            name: name.clone(),
            state: SyncSpecState::RunningTwoWay,
            running_session: Some(sessions[i].clone()),
        },
        None => match find_push_session(sessions, name.as_str()) {
            Some(i) => SyncSpec {
                name: name.clone(),
                state: SyncSpecState::RunningPush,
                running_session: Some(sessions[i].clone()),
            },
            None => SyncSpec {
                name: name.clone(),
                state: SyncSpecState::NotRunning,
                running_session: None,
            },
        },
    }
}

/// The classification of every spec a project file configures, in file
/// order.
pub open spec fn configured_specs_rep(f: ProjectFileView, ss: Seq<SessionView>) -> Seq<
    SyncSpecView,
> {
    Seq::new(f.sessions.len(), |i: int| classify_rep(f.sessions[i].0, ss))
}

/// The specs are in lexicographic order of their names.
pub open spec fn specs_sorted_by_name(s: Seq<SyncSpecView>) -> bool {
    forall|i: int, j: int| 0 <= i < j < s.len() ==> lex_leq(#[trigger] s[i].name, #[trigger] s[j].name)
}

/// A sequence with `x` placed at position `p` carries the same elements
/// plus `x`.
proof fn lemma_multiset_insert_mid<A>(s: Seq<A>, p: int, x: A)
    requires
        0 <= p <= s.len(),
    ensures
        s.insert(p, x).to_multiset() == s.to_multiset().insert(x),
{
    broadcast use vstd::seq_lib::group_to_multiset_ensures;

    let pre = s.subrange(0, p);
    let suf = s.subrange(p, s.len() as int);
    assert(s =~= pre + suf);
    assert(s.insert(p, x) =~= pre.push(x) + suf);
    lemma_multiset_commutative(pre, suf);
    lemma_multiset_commutative(pre.push(x), suf);
    assert(pre.push(x).to_multiset() =~= pre.to_multiset().insert(x));
    assert(s.insert(p, x).to_multiset() =~= s.to_multiset().insert(x));
}

/// Insert `x` into a name-sorted spec list, keeping it sorted.
fn insert_spec_sorted(v: &mut Vec<SyncSpec>, x: SyncSpec)
    requires
        specs_sorted_by_name(old(v).deep_view()),
    ensures
        specs_sorted_by_name(final(v).deep_view()),
        final(v).deep_view().to_multiset() == old(v).deep_view().to_multiset().insert(x@),
{
    let ghost old_dv = v.deep_view();
    let mut p: usize = 0;
    while p < v.len() && str_lex_leq(v[p].name.as_str(), x.name.as_str())
        invariant
            v.deep_view() == old_dv,
            p <= v.len(),
            forall|k: int| 0 <= k < p ==> lex_leq(old_dv[k].name, x@.name),
        decreases v.len() - p,
    {
        p = p + 1;
    }
    proof {
        if (p as int) < old_dv.len() {
            lemma_lex_total(old_dv[p as int].name, x@.name);
        }
        assert(forall|k: int| p <= k < old_dv.len() ==> lex_leq(
            x@.name,
            #[trigger] old_dv[k].name,
        )) by {
            if (p as int) < old_dv.len() {
                assert forall|k: int| p <= k < old_dv.len() implies lex_leq(
                    x@.name,
                    #[trigger] old_dv[k].name,
                ) by {
                    if k > p {
                        lemma_lex_trans(x@.name, old_dv[p as int].name, old_dv[k].name);
                    }
                }
            }
        }
    }
    v.insert(p, x);
    proof {
        let new_dv = v.deep_view();
        assert(new_dv.len() == old_dv.len() + 1);
        assert forall|i: int| 0 <= i < new_dv.len() implies new_dv[i] == old_dv.insert(
            p as int,
            x@,
        )[i] by {
            if i < p {
                assert(v@[i] == old(v)@[i]);
            } else if i == p {
                assert(v@[i] == x);
            } else {
                assert(v@[i] == old(v)@[i - 1]);
            }
        }
        assert(new_dv =~= old_dv.insert(p as int, x@));
        lemma_multiset_insert_mid(old_dv, p as int, x@);
        let new_dv = v.deep_view();
        assert forall|i: int, j: int| 0 <= i < j < new_dv.len() implies lex_leq(
            #[trigger] new_dv[i].name,
            #[trigger] new_dv[j].name,
        ) by {
            assert(new_dv =~= old_dv.insert(p as int, x@));
        }
    }
}

} // verus!

verus! {

/// Build the classified, name-sorted spec list for one project file.
pub fn build_sync_specs(project_file: &ProjectFile, sessions: &[SyncSession]) -> (r: Vec<
    SyncSpec,
>)
    ensures
        r.deep_view().to_multiset() == configured_specs_rep(
            project_file@,
            sessions.deep_view(),
        ).to_multiset(),
        specs_sorted_by_name(r.deep_view()),
{
    broadcast use vstd::seq_lib::group_to_multiset_ensures;

    let ghost goal = configured_specs_rep(project_file@, sessions.deep_view());
    let mut out: Vec<SyncSpec> = Vec::new();
    proof {
        assert(out.deep_view() =~= Seq::<SyncSpecView>::empty());
        assert(goal.subrange(0, 0) =~= Seq::<SyncSpecView>::empty());
        assert(out.deep_view().to_multiset() =~= goal.subrange(0, 0).to_multiset());
    }
    let n = project_file.sessions.len();
    let mut i: usize = 0;
    while i < n
        invariant
            n == project_file.sessions@.len(),
            i <= n,
            goal == configured_specs_rep(project_file@, sessions.deep_view()),
            goal.len() == n,
            out.deep_view().to_multiset() == goal.subrange(0, i as int).to_multiset(),
            specs_sorted_by_name(out.deep_view()),
        decreases n - i,
    {
        let name = &project_file.sessions[i].0;
        let item = classify_spec(name, sessions);
        proof {
            assert(project_file@.sessions[i as int].0 == name@);
            assert(item@ == goal[i as int]);
        }
        insert_spec_sorted(&mut out, item);
        proof {
            goal.subrange(0, i as int).to_multiset_ensures();
            assert(goal.subrange(0, i + 1) =~= goal.subrange(0, i as int).push(goal[i as int]));
            assert(goal.subrange(0, i as int).push(goal[i as int]).to_multiset() =~= goal.subrange(
                0,
                i as int,
            ).to_multiset().insert(goal[i as int]));
            assert(goal.subrange(0, i + 1).to_multiset() == goal.subrange(0, i as int).push(
                goal[i as int],
            ).to_multiset());
        }
        i = i + 1;
    }
    proof {
        assert(goal.subrange(0, goal.len() as int) =~= goal);
    }
    out
}

/// The auto-unfold recommendation for a project's specs: unfold when any
/// spec has a conflict, when running and idle specs are mixed, or when both
/// two-way and push sessions are present.
pub open spec fn auto_unfold_rep(specs: Seq<SyncSpecView>) -> bool {
    ||| (exists|i: int| 0 <= i < specs.len() && spec_has_conflicts(#[trigger] specs[i]))
    ||| ((exists|i: int| 0 <= i < specs.len() && spec_is_running(#[trigger] specs[i])) && (exists|
        i: int,
    | 0 <= i < specs.len() && !spec_is_running(#[trigger] specs[i])))
    ||| ((exists|i: int|
        0 <= i < specs.len() && (#[trigger] specs[i]).state == SyncSpecState::RunningTwoWay) && (
    exists|i: int|
        0 <= i < specs.len() && (#[trigger] specs[i]).state == SyncSpecState::RunningPush))
}

/// Whether a project's spec list should start unfolded.
pub fn should_auto_unfold_specs(specs: &[SyncSpec]) -> (r: bool)
    ensures
        r == auto_unfold_rep(specs.deep_view()),
{
    let ghost dv = specs.deep_view();
    let mut any_conflict = false;
    let mut any_running = false;
    let mut any_idle = false;
    let mut any_two_way = false;
    let mut any_push = false;
    let n = specs.len();
    let mut i: usize = 0;
    while i < n
        invariant
            n == dv.len(),
            dv == specs.deep_view(),
            i <= n,
            any_conflict == (exists|j: int| 0 <= j < i && spec_has_conflicts(#[trigger] dv[j])),
            any_running == (exists|j: int| 0 <= j < i && spec_is_running(#[trigger] dv[j])),
            any_idle == (exists|j: int| 0 <= j < i && !spec_is_running(#[trigger] dv[j])),
            any_two_way == (exists|j: int|
                0 <= j < i && (#[trigger] dv[j]).state == SyncSpecState::RunningTwoWay),
            any_push == (exists|j: int|
                0 <= j < i && (#[trigger] dv[j]).state == SyncSpecState::RunningPush),
        decreases n - i,
    {
        let s = &specs[i];
        if s.has_conflicts() {
            any_conflict = true;
        }
        if s.is_running() {
            any_running = true;
        } else {
            any_idle = true;
        }
        match s.state {
            SyncSpecState::RunningTwoWay => {
                any_two_way = true;
            },
            SyncSpecState::RunningPush => {
                any_push = true;
            },
            SyncSpecState::NotRunning => {},
        }
        proof {
            assert(dv[i as int] == s@);
        }
        i = i + 1;
    }
    any_conflict || (any_running && any_idle) || (any_two_way && any_push)
}

/// One project as shown in the dashboard: its configuration file, its
/// classified specs, and whether its spec rows are folded away.
#[derive(Debug)]
pub struct Project {
    pub file: ProjectFile,
    pub specs: Vec<SyncSpec>,
    pub folded: bool,
}

/// Mathematical model of a `Project`.
pub struct ProjectView {
    pub file: ProjectFileView,
    pub specs: Seq<SyncSpecView>,
    pub folded: bool,
}

impl View for Project {
    type V = ProjectView;

    open spec fn view(&self) -> ProjectView {
        ProjectView { file: self.file@, specs: self.specs.deep_view(), folded: self.folded }
    }
}

impl DeepView for Project {
    type V = ProjectView;

    open spec fn deep_view(&self) -> ProjectView {
        self.view()
    }
}

/// Reconcile every project file against the live session list: classify
/// and sort each file's specs, and default the fold state to the inverse of
/// the auto-unfold recommendation.
pub fn correlate_projects_with_sessions(
    project_files: Vec<ProjectFile>,
    sessions: &[SyncSession],
) -> (r: Vec<Project>)
    ensures
        r.deep_view().len() == project_files.deep_view().len(),
        forall|i: int|
            0 <= i < r.deep_view().len() ==> {
                let p = #[trigger] r.deep_view()[i];
                &&& p.file == project_files.deep_view()[i]
                &&& p.specs.to_multiset() == configured_specs_rep(
                    project_files.deep_view()[i],
                    sessions.deep_view(),
                ).to_multiset()
                &&& specs_sorted_by_name(p.specs)
                &&& p.folded == !auto_unfold_rep(p.specs)
            },
{
    let ghost orig = project_files.deep_view();
    let mut files = project_files;
    let mut out: Vec<Project> = Vec::new();
    proof {
        assert(files.deep_view() =~= orig.skip(0));
    }
    while files.len() > 0
        invariant
            out.deep_view().len() + files.deep_view().len() == orig.len(),
            files.deep_view() =~= orig.skip(out.deep_view().len() as int),
            forall|i: int|
                0 <= i < out.deep_view().len() ==> {
                    let p = #[trigger] out.deep_view()[i];
                    &&& p.file == orig[i]
                    &&& p.specs.to_multiset() == configured_specs_rep(
                        orig[i],
                        sessions.deep_view(),
                    ).to_multiset()
                    &&& specs_sorted_by_name(p.specs)
                    &&& p.folded == !auto_unfold_rep(p.specs)
                },
        decreases files.len(),
    {
        let ghost done = out.deep_view().len() as int;
        let ghost pre = files.deep_view();
        let ghost pre_vec = files@;
        let f = files.remove(0);
        proof {
            assert(f@ == pre[0]);
            assert(files@ == pre_vec.remove(0));
            assert forall|k: int| 0 <= k < files@.len() implies files.deep_view()[k] == pre[k
                + 1] by {
                assert(files@[k] == pre_vec[k + 1]);
            }
            assert(files.deep_view() =~= pre.skip(1));
            assert(pre.skip(1) =~= orig.skip(done + 1));
            assert(f@ == orig[done]);
        }
        let specs = build_sync_specs(&f, sessions);
        let unfold = should_auto_unfold_specs(specs.as_slice());
        let ghost prev_out = out.deep_view();
        out.push(Project { file: f, specs, folded: !unfold });
        proof {
            assert(out.deep_view() =~= prev_out.push(out.deep_view().last()));
        }
    }
    out
}

/// The fold flag the previous generation recorded for a project at `path`,
/// if one with that file path existed; of several, the latest wins.
pub open spec fn prior_fold(prev: Seq<ProjectView>, path: Seq<char>) -> Option<bool>
    decreases prev.len(),
{
    if prev.len() == 0 {
        None
    } else if prev.last().file.path == path {
        Some(prev.last().folded)
    } else {
        prior_fold(prev.drop_last(), path)
    }
}

/// One newly reconciled project with the previous generation's fold flag
/// carried over, when a project at the same path existed before.
pub open spec fn carried_project(prev: Seq<ProjectView>, p: ProjectView) -> ProjectView {
    match prior_fold(prev, p.file.path) {
        Some(b) => ProjectView { folded: b, ..p },
        None => p,
    }
}

/// What fold-state carryover produces: each new project keeps its own
/// reconciled state, with only the fold flag overwritten by the previous
/// generation's where the file path matches.
pub open spec fn carryover_rep(prev: Seq<ProjectView>, cur: Seq<ProjectView>) -> Seq<
    ProjectView,
> {
    Seq::new(cur.len(), |i: int| carried_project(prev, cur[i]))
}

/// The previous generation's fold flag for the project at `path`, if any.
fn find_prior_fold(prev: &Vec<Project>, path: &String) -> (r: Option<bool>)
    ensures
        r == prior_fold(prev.deep_view(), path@),
{
    let ghost dv = prev.deep_view();
    let mut j: usize = prev.len();
    proof {
        assert(dv.subrange(0, j as int) =~= dv);
    }
    while j > 0
        invariant
            dv == prev.deep_view(),
            j <= prev.len(),
            prior_fold(dv, path@) == prior_fold(dv.subrange(0, j as int), path@),
        decreases j,
    {
        j = j - 1;
        proof {
            assert(dv.subrange(0, j + 1).last() == dv[j as int]);
            assert(dv.subrange(0, j + 1).drop_last() =~= dv.subrange(0, j as int));
        }
        if str_eq(prev[j].file.path.as_str(), path.as_str()) {
            return Some(prev[j].folded);
        }
    }
    proof {
        assert(dv.subrange(0, 0) =~= Seq::<ProjectView>::empty());
    }
    None
}

/// Merge the previous generation's per-project fold flags into the newly
/// reconciled projects, keyed by exact file path.
pub fn carry_over_fold_state(prev: &Vec<Project>, current: Vec<Project>) -> (r: Vec<Project>)
    ensures
        r.deep_view() == carryover_rep(prev.deep_view(), current.deep_view()),
{
    let ghost orig = current.deep_view();
    let mut cur = current;
    let mut out: Vec<Project> = Vec::new();
    proof {
        assert(cur.deep_view() =~= orig.skip(0));
    }
    while cur.len() > 0
        invariant
            out.deep_view().len() + cur.deep_view().len() == orig.len(),
            cur.deep_view() =~= orig.skip(out.deep_view().len() as int),
            forall|i: int|
                0 <= i < out.deep_view().len() ==> #[trigger] out.deep_view()[i]
                    == carried_project(prev.deep_view(), orig[i]),
        decreases cur.len(),
    {
        let ghost done = out.deep_view().len() as int;
        let ghost pre = cur.deep_view();
        let ghost pre_vec = cur@;
        let mut p = cur.remove(0);
        proof {
            assert(p@ == pre[0]);
            assert(cur@ == pre_vec.remove(0));
            assert forall|k: int| 0 <= k < cur@.len() implies cur.deep_view()[k] == pre[k + 1] by {
                assert(cur@[k] == pre_vec[k + 1]);
            }
            assert(cur.deep_view() =~= pre.skip(1));
            assert(pre.skip(1) =~= orig.skip(done + 1));
            assert(p@ == orig[done]);
        }
        match find_prior_fold(prev, &p.file.path) {
            Some(b) => {
                p.folded = b;
            },
            None => {},
        }
        let ghost prev_out = out.deep_view();
        out.push(p);
        proof {
            assert(out.deep_view() =~= prev_out.push(out.deep_view().last()));
        }
    }
    proof {
        assert(out.deep_view() =~= carryover_rep(prev.deep_view(), orig));
    }
    out
}

} // verus!

verus! {

/// The projects are in lexicographic order of their display names.
pub open spec fn projects_sorted_by_name(s: Seq<ProjectView>) -> bool {
    forall|i: int, j: int|
        0 <= i < j < s.len() ==> lex_leq(
            display_name_rep(#[trigger] s[i].file),
            display_name_rep(#[trigger] s[j].file),
        )
}

/// Insert `x` into a display-name-sorted project list, keeping it sorted.
fn insert_project_sorted(v: &mut Vec<Project>, x: Project)
    requires
        projects_sorted_by_name(old(v).deep_view()),
    ensures
        projects_sorted_by_name(final(v).deep_view()),
        final(v).deep_view().to_multiset() == old(v).deep_view().to_multiset().insert(x@),
        final(v).deep_view().len() == old(v).deep_view().len() + 1,
{
    let ghost old_dv = v.deep_view();
    let x_name = x.file.display_name();
    let mut p: usize = 0;
    while p < v.len() && str_lex_leq(v[p].file.display_name().as_str(), x_name.as_str())
        invariant
            v.deep_view() == old_dv,
            p <= v.len(),
            x_name@ == display_name_rep(x@.file),
            forall|k: int|
                0 <= k < p ==> lex_leq(
                    display_name_rep(#[trigger] old_dv[k].file),
                    display_name_rep(x@.file),
                ),
        decreases v.len() - p,
    {
        p = p + 1;
    }
    proof {
        if (p as int) < old_dv.len() {
            lemma_lex_total(display_name_rep(old_dv[p as int].file), display_name_rep(x@.file));
        }
        assert forall|k: int| p <= k < old_dv.len() implies lex_leq(
            display_name_rep(x@.file),
            display_name_rep(#[trigger] old_dv[k].file),
        ) by {
            if k > p {
                lemma_lex_trans(
                    display_name_rep(x@.file),
                    display_name_rep(old_dv[p as int].file),
                    display_name_rep(old_dv[k].file),
                );
            }
        }
    }
    v.insert(p, x);
    proof {
        let new_dv = v.deep_view();
        assert(new_dv.len() == old_dv.len() + 1);
        assert forall|i: int| 0 <= i < new_dv.len() implies new_dv[i] == old_dv.insert(
            p as int,
            x@,
        )[i] by {
            if i < p {
                assert(v@[i] == old(v)@[i]);
            } else if i == p {
                assert(v@[i] == x);
            } else {
                assert(v@[i] == old(v)@[i - 1]);
            }
        }
        assert(new_dv =~= old_dv.insert(p as int, x@));
        lemma_multiset_insert_mid(old_dv, p as int, x@);
        assert forall|i: int, j: int| 0 <= i < j < new_dv.len() implies lex_leq(
            display_name_rep(#[trigger] new_dv[i].file),
            display_name_rep(#[trigger] new_dv[j].file),
        ) by {
            assert(new_dv =~= old_dv.insert(p as int, x@));
        }
    }
}

/// Order the projects alphabetically by display name.
pub fn sort_projects_by_display_name(projects: Vec<Project>) -> (r: Vec<Project>)
    ensures
        r.deep_view().to_multiset() == projects.deep_view().to_multiset(),
        projects_sorted_by_name(r.deep_view()),
{
    broadcast use vstd::seq_lib::group_to_multiset_ensures;

    let ghost orig = projects.deep_view();
    let mut rest = projects;
    let mut out: Vec<Project> = Vec::new();
    proof {
        assert(rest.deep_view() =~= orig.skip(0));
        assert(out.deep_view() =~= Seq::<ProjectView>::empty());
        assert(orig.subrange(0, 0) =~= Seq::<ProjectView>::empty());
        assert(out.deep_view().to_multiset() =~= orig.subrange(0, 0).to_multiset());
    }
    while rest.len() > 0
        invariant
            out.deep_view().len() + rest.deep_view().len() == orig.len(),
            rest.deep_view() =~= orig.skip(out.deep_view().len() as int),
            out.deep_view().to_multiset() == orig.subrange(
                0,
                out.deep_view().len() as int,
            ).to_multiset(),
            projects_sorted_by_name(out.deep_view()),
        decreases rest.len(),
    {
        let ghost done = out.deep_view().len() as int;
        let ghost pre = rest.deep_view();
        let ghost pre_vec = rest@;
        let p = rest.remove(0);
        proof {
            assert(p@ == pre[0]);
            assert(rest@ == pre_vec.remove(0));
            assert forall|k: int| 0 <= k < rest@.len() implies rest.deep_view()[k] == pre[k
                + 1] by {
                assert(rest@[k] == pre_vec[k + 1]);
            }
            assert(rest.deep_view() =~= pre.skip(1));
            assert(pre.skip(1) =~= orig.skip(done + 1));
            assert(p@ == orig[done]);
        }
        insert_project_sorted(&mut out, p);
        proof {
            orig.subrange(0, done).to_multiset_ensures();
            assert(orig.subrange(0, done + 1) =~= orig.subrange(0, done).push(orig[done]));
            assert(orig.subrange(0, done).push(orig[done]).to_multiset() =~= orig.subrange(
                0,
                done,
            ).to_multiset().insert(orig[done]));
            assert(orig.subrange(0, done + 1).to_multiset() == orig.subrange(0, done).push(
                orig[done],
            ).to_multiset());
        }
    }
    proof {
        assert(orig.subrange(0, orig.len() as int) =~= orig);
    }
    out
}

/// A spec name that no session matches, as a two-way sync or as a push,
/// reconciles to `NotRunning` with nothing attached.
pub proof fn lemma_unmatched_spec_not_running(name: Seq<char>, ss: Seq<SessionView>)
    requires
        forall|i: int| 0 <= i < ss.len() ==> !is_two_way_match(#[trigger] ss[i], name),
        forall|i: int| 0 <= i < ss.len() ==> !is_push_match(#[trigger] ss[i], name),
    ensures
        classify_rep(name, ss).state == SyncSpecState::NotRunning,
        classify_rep(name, ss).session is None,
{
    lemma_first_two_way_ensures(ss, name);
    lemma_first_push_ensures(ss, name);
}

/// A spec with some non-one-way session under its exact name reconciles to
/// `RunningTwoWay`, whatever push sessions coexist: two-way precedence.
pub proof fn lemma_two_way_precedence(name: Seq<char>, ss: Seq<SessionView>)
    requires
        exists|i: int| 0 <= i < ss.len() && is_two_way_match(#[trigger] ss[i], name),
    ensures
        classify_rep(name, ss).state == SyncSpecState::RunningTwoWay,
        classify_rep(name, ss).session matches Some(s) && is_two_way_match(s, name),
{
    lemma_first_two_way_ensures(ss, name);
    if first_two_way(ss, name) is None {
        let w = choose|i: int| 0 <= i < ss.len() && is_two_way_match(#[trigger] ss[i], name);
        assert(!is_two_way_match(ss[w], name));
    }
}

/// One spec in conflict forces the unfold recommendation, whatever the
/// other specs look like.
pub proof fn lemma_conflict_forces_unfold(specs: Seq<SyncSpecView>, i: int)
    requires
        0 <= i < specs.len(),
        spec_has_conflicts(specs[i]),
    ensures
        auto_unfold_rep(specs),
{
}

/// Fold-state carryover prefers the previous generation's flag: where a
/// project at the same path existed before, its fold flag stands, whatever
/// the fresh recommendation said.
pub proof fn lemma_carryover_prefers_prior(prev: Seq<ProjectView>, cur: Seq<ProjectView>, i: int)
    requires
        0 <= i < cur.len(),
        prior_fold(prev, cur[i].file.path) is Some,
    ensures
        carryover_rep(prev, cur)[i].folded == prior_fold(prev, cur[i].file.path).unwrap(),
{
}

/// Fold-state carryover is idempotent: a second pass with the same previous
/// generation changes nothing.
pub proof fn lemma_carryover_idempotent(prev: Seq<ProjectView>, cur: Seq<ProjectView>)
    ensures
        carryover_rep(prev, carryover_rep(prev, cur)) == carryover_rep(prev, cur),
{
    let once = carryover_rep(prev, cur);
    assert forall|i: int| 0 <= i < once.len() implies carryover_rep(prev, once)[i] == once[i] by {
        assert(once[i] == carried_project(prev, cur[i]));
        assert(once[i].file.path == cur[i].file.path);
    }
    assert(carryover_rep(prev, once) =~= once);
}

/// The number of successful cycles a session reports, zero when unknown.
pub open spec fn cycles_of(s: SessionView) -> u64 {
    match s.successful_cycles {
        Some(c) => c,
        None => 0,
    }
}

/// The latest previous session with this stable identifier, if any.
pub open spec fn last_by_identifier(olds: Seq<SessionView>, id: Seq<char>) -> Option<SessionView>
    decreases olds.len(),
{
    if olds.len() == 0 {
        None
    } else if olds.last().identifier == id {
        Some(olds.last())
    } else {
        last_by_identifier(olds.drop_last(), id)
    }
}

/// One refreshed session with its sync time carried over: a higher cycle
/// count than last time marks a sync now; an unseen identifier starts as
/// unknown on the first refresh, and afterwards as synced or never
/// depending on its cycle count.
pub open spec fn updated_session(
    s: SessionView,
    olds: Seq<SessionView>,
    first: bool,
    now: i64,
) -> SessionView {
    let st = match last_by_identifier(olds, s.identifier) {
        Some(o) => if cycles_of(s) > cycles_of(o) {
            SyncTime::At(now)
        } else {
            o.sync_time
        },
        None => if first {
            SyncTime::Unknown
        } else if cycles_of(s) > 0 {
            SyncTime::At(now)
        } else {
            SyncTime::Never
        },
    };
    SessionView {
        name: s.name,
        identifier: s.identifier,
        alpha: s.alpha,
        beta: s.beta,
        status: s.status,
        paused: s.paused,
        mode: s.mode,
        creation_time: s.creation_time,
        successful_cycles: s.successful_cycles,
        conflicts: s.conflicts,
        sync_time: st,
    }
}

/// What `update_sync_times` returns: every session with its sync time
/// carried over from the previous generation.
pub open spec fn updated_sessions_rep(
    ss: Seq<SessionView>,
    olds: Seq<SessionView>,
    first: bool,
    now: i64,
) -> Seq<SessionView> {
    Seq::new(ss.len(), |i: int| updated_session(ss[i], olds, first, now))
}

/// The latest previous session with this identifier, as an index.
fn find_last_by_identifier(olds: &Vec<SyncSession>, id: &String) -> (r: Option<usize>)
    ensures
        match r {
            Some(j) => j < olds.deep_view().len() && last_by_identifier(olds.deep_view(), id@)
                == Some(olds.deep_view()[j as int]),
            None => last_by_identifier(olds.deep_view(), id@) is None,
        },
{
    let ghost dv = olds.deep_view();
    let mut j: usize = olds.len();
    proof {
        assert(dv.subrange(0, j as int) =~= dv);
    }
    while j > 0
        invariant
            dv == olds.deep_view(),
            j <= olds.len(),
            last_by_identifier(dv, id@) == last_by_identifier(dv.subrange(0, j as int), id@),
        decreases j,
    {
        j = j - 1;
        proof {
            assert(dv.subrange(0, j + 1).last() == dv[j as int]);
            assert(dv.subrange(0, j + 1).drop_last() =~= dv.subrange(0, j as int));
        }
        if str_eq(olds[j].identifier.as_str(), id.as_str()) {
            return Some(j);
        }
    }
    proof {
        assert(dv.subrange(0, 0) =~= Seq::<SessionView>::empty());
    }
    None
}

/// Carry each session's observed sync time over from the previous
/// generation, matching sessions by their stable identifier.
pub fn update_sync_times(
    sessions: Vec<SyncSession>,
    old_sessions: &Vec<SyncSession>,
    first_refresh: bool,
    now: i64,
) -> (r: Vec<SyncSession>)
    ensures
        r.deep_view() == updated_sessions_rep(
            sessions.deep_view(),
            old_sessions.deep_view(),
            first_refresh,
            now,
        ),
{
    let ghost orig = sessions.deep_view();
    let mut rest = sessions;
    let mut out: Vec<SyncSession> = Vec::new();
    proof {
        assert(rest.deep_view() =~= orig.skip(0));
    }
    while rest.len() > 0
        invariant
            out.deep_view().len() + rest.deep_view().len() == orig.len(),
            rest.deep_view() =~= orig.skip(out.deep_view().len() as int),
            forall|i: int|
                0 <= i < out.deep_view().len() ==> #[trigger] out.deep_view()[i]
                    == updated_session(orig[i], old_sessions.deep_view(), first_refresh, now),
        decreases rest.len(),
    {
        let ghost done = out.deep_view().len() as int;
        let ghost pre = rest.deep_view();
        let ghost pre_vec = rest@;
        let mut s = rest.remove(0);
        proof {
            assert(s@ == pre[0]);
            assert(rest@ == pre_vec.remove(0));
            assert forall|k: int| 0 <= k < rest@.len() implies rest.deep_view()[k] == pre[k
                + 1] by {
                assert(rest@[k] == pre_vec[k + 1]);
            }
            assert(rest.deep_view() =~= pre.skip(1));
            assert(pre.skip(1) =~= orig.skip(done + 1));
            assert(s@ == orig[done]);
        }
        let new_cycles = match s.successful_cycles {
            Some(c) => c,
            None => 0,
        };
        let st = match find_last_by_identifier(old_sessions, &s.identifier) {
            Some(j) => {
                let o = &old_sessions[j];
                let old_cycles = match o.successful_cycles {
                    Some(c) => c,
                    None => 0,
                };
                if new_cycles > old_cycles {
                    SyncTime::At(now)
                } else {
                    o.sync_time
                }
            },
            None => {
                if first_refresh {
                    SyncTime::Unknown
                } else if new_cycles > 0 {
                    SyncTime::At(now)
                } else {
                    SyncTime::Never
                }
            },
        };
        s.sync_time = st;
        let ghost prev_out = out.deep_view();
        out.push(s);
        proof {
            assert(out.deep_view() =~= prev_out.push(s@));
            assert(s@ == updated_session(orig[done], old_sessions.deep_view(), first_refresh, now));
        }
    }
    proof {
        assert(out.deep_view() =~= updated_sessions_rep(
            orig,
            old_sessions.deep_view(),
            first_refresh,
            now,
        ));
    }
    out
}

/// Sessions attached to the first `n` specs, in order.
pub open spec fn attached_in_specs(specs: Seq<SyncSpecView>, n: int) -> Seq<SessionView>
    decreases n,
{
    if n <= 0 {
        Seq::empty()
    } else {
        attached_in_specs(specs, n - 1) + (match specs[n - 1].session {
            Some(s) => seq![s],
            None => Seq::empty(),
        })
    }
}

/// Sessions attached anywhere in the first `n` projects, in order.
pub open spec fn attached_sessions_rep(ps: Seq<ProjectView>, n: int) -> Seq<SessionView>
    decreases n,
{
    if n <= 0 {
        Seq::empty()
    } else {
        attached_sessions_rep(ps, n - 1) + attached_in_specs(
            ps[n - 1].specs,
            ps[n - 1].specs.len() as int,
        )
    }
}

/// Collect every session attached to some spec of some project, the
/// previous generation's running sessions.
pub fn attached_sessions(projects: &Vec<Project>) -> (r: Vec<SyncSession>)
    ensures
        r.deep_view() == attached_sessions_rep(
            projects.deep_view(),
            projects.deep_view().len() as int,
        ),
{
    let ghost ps = projects.deep_view();
    let mut out: Vec<SyncSession> = Vec::new();
    proof {
        assert(out.deep_view() =~= Seq::<SessionView>::empty());
        assert(out.deep_view() =~= attached_sessions_rep(ps, 0));
    }
    let mut i: usize = 0;
    while i < projects.len()
        invariant
            ps == projects.deep_view(),
            i <= projects.len(),
            out.deep_view() == attached_sessions_rep(ps, i as int),
        decreases projects.len() - i,
    {
        let project = &projects[i];
        let m = project.specs.len();
        proof {
            assert(project@ == ps[i as int]);
            assert(attached_in_specs(ps[i as int].specs, 0) =~= Seq::<SessionView>::empty());
            assert(out.deep_view() =~= attached_sessions_rep(ps, i as int) + attached_in_specs(
                ps[i as int].specs,
                0,
            ));
        }
        let mut j: usize = 0;
        while j < m
            invariant
                ps == projects.deep_view(),
                i < projects.len(),
                project == &projects[i as int],
                project@ == ps[i as int],
                m == project.specs.len(),
                j <= m,
                out.deep_view() == attached_sessions_rep(ps, i as int) + attached_in_specs(
                    ps[i as int].specs,
                    j as int,
                ),
            decreases m - j,
        {
            let ghost prev_out = out.deep_view();
            match &project.specs[j] {
                SyncSpec { running_session: Some(s), .. } => {
                    out.push(s.clone());
                    proof {
                        assert(ps[i as int].specs[j as int].session == Some(s@));
                        assert(out.deep_view() =~= prev_out.push(s@));
                        assert(out.deep_view() =~= attached_sessions_rep(ps, i as int)
                            + attached_in_specs(ps[i as int].specs, j + 1));
                    }
                },
                _ => {
                    proof {
                        assert(ps[i as int].specs[j as int].session is None);
                        assert(attached_in_specs(ps[i as int].specs, j + 1) =~= attached_in_specs(
                            ps[i as int].specs,
                            j as int,
                        ));
                    }
                },
            }
            j = j + 1;
        }
        proof {
            assert(out.deep_view() =~= attached_sessions_rep(ps, i + 1));
        }
        i = i + 1;
    }
    out
}

} // verus!

verus! {

/// The run `[i, j)` is one `/`-separated component of `s`: it touches a
/// slash or an end of the path on both sides and holds no slash itself.
pub open spec fn is_component(s: Seq<char>, i: int, j: int) -> bool {
    &&& 0 <= i <= j <= s.len()
    &&& (i == 0 || s[i - 1] == '/')
    &&& (j == s.len() || s[j] == '/')
    &&& forall|k: int| i <= k < j ==> s[k] != '/'
}

/// `m` is the only `*` in `pat`.
pub open spec fn lone_star(pat: Seq<char>, m: int) -> bool {
    &&& 0 <= m < pat.len()
    &&& pat[m] == '*'
    &&& forall|k: int| 0 <= k < pat.len() && k != m ==> pat[k] != '*'
}

/// One path component matches one exclude pattern: a pattern with exactly
/// one `*` matches by prefix and suffix; any other pattern matches by
/// substring.
pub open spec fn component_matches(name: Seq<char>, pat: Seq<char>) -> bool {
    if pat.contains('*') {
        exists|m: int|
            #[trigger] lone_star(pat, m) && starts_with_seq(name, pat.subrange(0, m))
                && ends_with_seq(name, pat.subrange(m + 1, pat.len() as int))
    } else {
        contains_seq(name, pat)
    }
}

/// A path is excluded when any of its components matches any pattern.
pub open spec fn excluded_rep(path: Seq<char>, patterns: Seq<Seq<char>>) -> bool {
    exists|pi: int, i: int, j: int|
        0 <= pi < patterns.len() && #[trigger] is_component(path, i, j) && component_matches(
            path.subrange(i, j),
            #[trigger] patterns[pi],
        )
}

/// Whether one component matches one pattern.
fn pattern_matches_component(comp: &str, pat: &str) -> (r: bool)
    ensures
        r == component_matches(comp@, pat@),
{
    match find_char(pat, '*') {
        None => {
            proof {
                assert(!pat@.contains('*')) by {
                    if pat@.contains('*') {
                        let w = choose|w: int| 0 <= w < pat@.len() && pat@[w] == '*';
                    }
                }
            }
            str_contains(comp, pat)
        },
        Some(m) => {
            proof {
                assert(pat@.contains('*'));
            }
            match rfind_char(pat, '*') {
                Some(m2) => {
                    if m2 != m {
                        proof {
                            assert(pat@[m as int] == '*');
                            assert(pat@[m2 as int] == '*');
                            assert forall|w: int| !(#[trigger] lone_star(pat@, w)) by {
                                if lone_star(pat@, w) {
                                    if w != m {
                                        assert(pat@[m as int] != '*');
                                    } else {
                                        assert(pat@[m2 as int] != '*');
                                    }
                                }
                            }
                        }
                        false
                    } else {
                        let n = pat.unicode_len();
                        let prefix = pat.substring_char(0, m);
                        let suffix = pat.substring_char(m + 1, n);
                        proof {
                            assert(lone_star(pat@, m as int)) by {
                                assert(forall|k: int|
                                    0 <= k < pat@.len() && k != m ==> pat@[k] != '*') by {
                                    assert(forall|k: int| 0 <= k < m ==> pat@[k] != '*');
                                    assert(forall|k: int|
                                        m < k < pat@.len() ==> pat@[k] != '*');
                                }
                            }
                            assert forall|w: int| lone_star(pat@, w) implies w == m by {
                                if w != m {
                                    assert(pat@[m as int] != '*');
                                }
                            }
                        }
                        str_starts_with(comp, prefix) && str_ends_with(comp, suffix)
                    }
                },
                None => {
                    proof {
                        assert(pat@[m as int] == '*');
                    }
                    false
                },
            }
        },
    }
}

/// Whether the path should be excluded from discovery: any `/`-separated
/// component matching any exclude pattern rules the whole path out.
pub fn should_exclude(path: &str, patterns: &[String]) -> (r: bool)
    ensures
        r == excluded_rep(path@, patterns.deep_view()),
{
    let ghost pats = patterns.deep_view();
    let n = path.unicode_len();
    let mut i: usize = 0;
    loop
        invariant
            n == path@.len(),
            pats == patterns.deep_view(),
            0 <= i <= n,
            i == 0 || path@[i - 1] == '/',
            forall|ci: int, cj: int|
                #[trigger] is_component(path@, ci, cj) && ci < i ==> forall|pi: int|
                    0 <= pi < pats.len() ==> !component_matches(
                        path@.subrange(ci, cj),
                        #[trigger] pats[pi],
                    ),
        decreases n - i,
    {
        let j = match crate::text::find_char_from(path, '/', i) {
            Some(k) => k,
            None => n,
        };
        proof {
            assert(is_component(path@, i as int, j as int));
            assert forall|cj: int| is_component(path@, i as int, cj) implies cj == j by {
                if cj < j {
                    assert(path@[cj] != '/');
                } else if cj > j {
                    assert(path@[j as int] == '/');
                }
            }
        }
        let comp = path.substring_char(i, j);
        let mut pi: usize = 0;
        while pi < patterns.len()
            invariant
                n == path@.len(),
                pats == patterns.deep_view(),
                i <= j <= n,
                comp@ == path@.subrange(i as int, j as int),
                is_component(path@, i as int, j as int),
                pi <= patterns.len(),
                forall|k: int| 0 <= k < pi ==> !component_matches(comp@, #[trigger] pats[k]),
            decreases patterns.len() - pi,
        {
            if pattern_matches_component(comp, patterns[pi].as_str()) {
                proof {
                    assert(component_matches(path@.subrange(i as int, j as int), pats[pi as int]));
                }
                return true;
            }
            pi = pi + 1;
        }
        proof {
            assert forall|ci: int, cj: int|
                #[trigger] is_component(path@, ci, cj) && ci < j + 1 implies forall|k: int|
                0 <= k < pats.len() ==> !component_matches(
                    path@.subrange(ci, cj),
                    #[trigger] pats[k],
                ) by {
                if ci < i {
                } else if ci == i {
                    assert(cj == j);
                } else {
                    assert(path@[ci - 1] == '/');
                    assert(i <= ci - 1 < j);
                    assert(false);
                }
            }
        }
        if j == n {
            proof {
                assert forall|ci: int, cj: int|
                    #[trigger] is_component(path@, ci, cj) implies ci < j + 1 by {
                    assert(ci <= path@.len());
                }
            }
            return false;
        }
        i = j + 1;
    }
}

/// The glob pattern that finds project files directly inside a directory.
pub fn dir_glob_pattern(dir: &str) -> (r: String)
    ensures
        r@ == dir@ + "/*.yml"@,
{
    proof {
        reveal_strlit("/*.yml");
    }
    let mut out = dir.to_owned();
    out.append("/*.yml");
    out
}

/// The glob patterns searched under one starting directory: the directory
/// itself, its conventional configuration subdirectories, and its direct
/// children.
pub fn base_search_patterns(start_dir: &str) -> (r: Vec<String>)
    ensures
        r.deep_view() == seq![
            start_dir@ + "/mutagen.yml"@,
            start_dir@ + "/mutagen-*.yml"@,
            start_dir@ + "/.mutagen.yml"@,
            start_dir@ + "/.mutagen-*.yml"@,
            start_dir@ + "/mutagen/*.yml"@,
            start_dir@ + "/.mutagen/*.yml"@,
            start_dir@ + "/config/mutagen/*.yml"@,
            start_dir@ + "/conf/mutagen/*.yml"@,
            start_dir@ + "/*/mutagen.yml"@,
            start_dir@ + "/*/mutagen-*.yml"@,
            start_dir@ + "/*/.mutagen.yml"@,
            start_dir@ + "/*/.mutagen-*.yml"@,
        ],
{
    proof {
        reveal_strlit("/mutagen.yml");
        reveal_strlit("/mutagen-*.yml");
        reveal_strlit("/.mutagen.yml");
        reveal_strlit("/.mutagen-*.yml");
        reveal_strlit("/mutagen/*.yml");
        reveal_strlit("/.mutagen/*.yml");
        reveal_strlit("/config/mutagen/*.yml");
        reveal_strlit("/conf/mutagen/*.yml");
        reveal_strlit("/*/mutagen.yml");
        reveal_strlit("/*/mutagen-*.yml");
        reveal_strlit("/*/.mutagen.yml");
        reveal_strlit("/*/.mutagen-*.yml");
    }
    let mut out: Vec<String> = Vec::new();
    let mut p = start_dir.to_owned();
    p.append("/mutagen.yml");
    out.push(p);
    let mut p = start_dir.to_owned();
    p.append("/mutagen-*.yml");
    out.push(p);
    let mut p = start_dir.to_owned();
    p.append("/.mutagen.yml");
    out.push(p);
    let mut p = start_dir.to_owned();
    p.append("/.mutagen-*.yml");
    out.push(p);
    let mut p = start_dir.to_owned();
    p.append("/mutagen/*.yml");
    out.push(p);
    let mut p = start_dir.to_owned();
    p.append("/.mutagen/*.yml");
    out.push(p);
    let mut p = start_dir.to_owned();
    p.append("/config/mutagen/*.yml");
    out.push(p);
    let mut p = start_dir.to_owned();
    p.append("/conf/mutagen/*.yml");
    out.push(p);
    let mut p = start_dir.to_owned();
    p.append("/*/mutagen.yml");
    out.push(p);
    let mut p = start_dir.to_owned();
    p.append("/*/mutagen-*.yml");
    out.push(p);
    let mut p = start_dir.to_owned();
    p.append("/*/.mutagen.yml");
    out.push(p);
    let mut p = start_dir.to_owned();
    p.append("/*/.mutagen-*.yml");
    out.push(p);
    proof {
        assert(out.deep_view() =~= seq![
            start_dir@ + "/mutagen.yml"@,
            start_dir@ + "/mutagen-*.yml"@,
            start_dir@ + "/.mutagen.yml"@,
            start_dir@ + "/.mutagen-*.yml"@,
            start_dir@ + "/mutagen/*.yml"@,
            start_dir@ + "/.mutagen/*.yml"@,
            start_dir@ + "/config/mutagen/*.yml"@,
            start_dir@ + "/conf/mutagen/*.yml"@,
            start_dir@ + "/*/mutagen.yml"@,
            start_dir@ + "/*/mutagen-*.yml"@,
            start_dir@ + "/*/.mutagen.yml"@,
            start_dir@ + "/*/.mutagen-*.yml"@,
        ]);
    }
    out
}

/// The glob patterns searched under one configured extra search path.
pub fn config_search_patterns(dir: &str) -> (r: Vec<String>)
    ensures
        r.deep_view() == seq![
            dir@ + "/mutagen.yml"@,
            dir@ + "/mutagen-*.yml"@,
            dir@ + "/.mutagen.yml"@,
            dir@ + "/.mutagen-*.yml"@,
        ],
{
    proof {
        reveal_strlit("/mutagen.yml");
        reveal_strlit("/mutagen-*.yml");
        reveal_strlit("/.mutagen.yml");
        reveal_strlit("/.mutagen-*.yml");
    }
    let mut out: Vec<String> = Vec::new();
    let mut p = dir.to_owned();
    p.append("/mutagen.yml");
    out.push(p);
    let mut p = dir.to_owned();
    p.append("/mutagen-*.yml");
    out.push(p);
    let mut p = dir.to_owned();
    p.append("/.mutagen.yml");
    out.push(p);
    let mut p = dir.to_owned();
    p.append("/.mutagen-*.yml");
    out.push(p);
    proof {
        assert(out.deep_view() =~= seq![
            dir@ + "/mutagen.yml"@,
            dir@ + "/mutagen-*.yml"@,
            dir@ + "/.mutagen.yml"@,
            dir@ + "/.mutagen-*.yml"@,
        ]);
    }
    out
}

/// The glob patterns searched under the user's home directory.
pub fn home_search_patterns(home: &str) -> (r: Vec<String>)
    ensures
        r.deep_view() == seq![
            home@ + "/.config/mutagen/projects/*.yml"@,
            home@ + "/.mutagen/projects/*.yml"@,
        ],
{
    proof {
        reveal_strlit("/.config/mutagen/projects/*.yml");
        reveal_strlit("/.mutagen/projects/*.yml");
    }
    let mut out: Vec<String> = Vec::new();
    let mut p = home.to_owned();
    p.append("/.config/mutagen/projects/*.yml");
    out.push(p);
    let mut p = home.to_owned();
    p.append("/.mutagen/projects/*.yml");
    out.push(p);
    proof {
        assert(out.deep_view() =~= seq![
            home@ + "/.config/mutagen/projects/*.yml"@,
            home@ + "/.mutagen/projects/*.yml"@,
        ]);
    }
    out
}

/// Expand a leading tilde in a filesystem path against the user's home
/// directory, as configured search paths allow.
pub fn expand_tilde_in_path(path: &str) -> (r: String)
    ensures
        exists|home: Option<Seq<char>>|
            crate::endpoint::EndpointAddress::expand_tilde_rep(
                crate::endpoint::EndpointAddressView::Local(path@),
                home,
            ) == crate::endpoint::EndpointAddressView::Local(r@),
{
    let expanded = crate::endpoint::EndpointAddress::Local(path.to_owned()).expand_tilde();
    match expanded {
        crate::endpoint::EndpointAddress::Local(p) => p,
        other => {
            proof {
                let h = choose|h: Option<Seq<char>>|
                    other@ == crate::endpoint::EndpointAddress::expand_tilde_rep(
                        crate::endpoint::EndpointAddressView::Local(path@),
                        h,
                    );
                assert(false);
            }
            path.to_owned()
        },
    }
}

} // verus!

verus! {

/// Conflicts reported across the first `n` specs' attached sessions.
pub open spec fn conflict_total(specs: Seq<SyncSpecView>, n: int) -> int
    decreases n,
{
    if n <= 0 {
        0
    } else {
        conflict_total(specs, n - 1) + (match specs[n - 1].session {
            Some(s) => s.conflicts.len() as int,
            None => 0,
        })
    }
}

proof fn lemma_conflict_total_nonneg(specs: Seq<SyncSpecView>, n: int)
    ensures
        conflict_total(specs, n) >= 0,
    decreases n,
{
    if n > 0 {
        lemma_conflict_total_nonneg(specs, n - 1);
    }
}

/// A project's total conflict count: the sum of the conflicts its attached
/// sessions report, saturating at the machine's limit.
pub fn project_conflict_count(project: &Project) -> (r: usize)
    ensures
        r == if conflict_total(project@.specs, project@.specs.len() as int) > usize::MAX {
            usize::MAX as int
        } else {
            conflict_total(project@.specs, project@.specs.len() as int)
        },
{
    let ghost specs = project@.specs;
    let mut total: usize = 0;
    let n = project.specs.len();
    let mut i: usize = 0;
    while i < n
        invariant
            specs == project@.specs,
            n == specs.len(),
            i <= n,
            total == if conflict_total(specs, i as int) > usize::MAX {
                usize::MAX as int
            } else {
                conflict_total(specs, i as int)
            },
        decreases n - i,
    {
        proof {
            lemma_conflict_total_nonneg(specs, i as int);
        }
        let c = match &project.specs[i].running_session {
            Some(s) => s.conflicts.len(),
            None => 0,
        };
        if total > usize::MAX - c {
            total = usize::MAX;
        } else {
            total = total + c;
        }
        i = i + 1;
    }
    total
}

/// Whether any spec of the project is running.
pub fn project_is_active(project: &Project) -> (r: bool)
    ensures
        r == exists|i: int|
            0 <= i < project@.specs.len() && spec_is_running(#[trigger] project@.specs[i]),
{
    let n = project.specs.len();
    let mut i: usize = 0;
    while i < n
        invariant
            n == project@.specs.len(),
            i <= n,
            forall|j: int| 0 <= j < i ==> !spec_is_running(#[trigger] project@.specs[j]),
        decreases n - i,
    {
        if project.specs[i].is_running() {
            proof {
                assert(spec_is_running(project@.specs[i as int]));
            }
            return true;
        }
        i = i + 1;
    }
    false
}

} // verus!
