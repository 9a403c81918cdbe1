//! Configuration: what can be set, what holds unless it is, and which files it
//! is read from.
//!
//! The files are `<config_dir>/renri/config.toml` for the user and then
//! `renri.toml` at the root of the repository; what comes later overrides what
//! came before.

use crate::paths;
use crate::process::{self, Action, ActionView, Reply, ReplyView};
use crate::render::{self, Field, FieldView, Piece, Table, TableView};
use crate::user_dirs;
use vstd::prelude::*;

verus! {

/// The whole configuration.
#[derive(Debug, Clone, PartialEq, Eq)]
pub struct Config {
    pub layout: LayoutConfig,
    pub hooks: HooksConfig,
    pub ui: UiConfig,
}

/// What to do in the background about a newer release.
#[derive(Debug, Clone, Copy, PartialEq, Eq, Structural)]
pub enum AutoUpdateMode {
    /// Nothing.
    Off,
    /// Look for one and tell.
    Notify,
    /// Install it, for the next launch.
    Install,
}

impl Default for AutoUpdateMode {
    fn default() -> (r: AutoUpdateMode)
        ensures
            r == AutoUpdateMode::Install,
    {
        AutoUpdateMode::Install
    }
}

/// What is shown, and updates.
#[derive(Debug, Clone, PartialEq, Eq)]
pub struct UiConfig {
    /// The list has a column for pull requests.
    pub show_pr: bool,
    /// Hours until the cache of pull requests is refreshed.
    pub pr_cache_ttl_hours: u64,
    /// What to do about newer releases; see [`UiConfig::update_mode`].
    pub auto_update: Option<AutoUpdateMode>,
    /// Deprecated: `true` for notify, `false` for off. It counts only where
    /// `auto_update` is not set.
    pub auto_update_check: Option<bool>,
    /// Time between two looks for a newer release, such as `24h`.
    pub update_check_interval: Option<String>,
}

/// What holds of newer releases, given what is set.
pub open spec fn mode(auto: Option<AutoUpdateMode>, check: Option<bool>) -> AutoUpdateMode {
    match (auto, check) {
        (Some(m), _) => m,
        (None, Some(true)) => AutoUpdateMode::Notify,
        (None, Some(false)) => AutoUpdateMode::Off,
        (None, None) => AutoUpdateMode::Install,
    }
}

/// The warning for a configuration in which the deprecated key counts.
pub open spec fn deprecation(auto: Option<AutoUpdateMode>, check: Option<bool>) -> Option<
    Seq<char>,
> {
    match (auto, check) {
        (None, Some(true)) => Some(
            "\u{26a0} [ui] auto_update_check is deprecated; use auto_update = \"notify\" (or \"off\"/\"install\") instead"@,
        ),
        (None, Some(false)) => Some(
            "\u{26a0} [ui] auto_update_check is deprecated; use auto_update = \"off\" (or \"notify\"/\"install\") instead"@,
        ),
        _ => None,
    }
}

impl UiConfig {
    /// What to do about newer releases: what `auto_update` says, else what the
    /// deprecated key says, else install them.
    pub fn update_mode(&self) -> (r: AutoUpdateMode)
        ensures
            r == mode(self.auto_update, self.auto_update_check),
    {
        if let Some(mode) = self.auto_update {
            return mode;
        }
        match self.auto_update_check {
            Some(true) => AutoUpdateMode::Notify,
            Some(false) => AutoUpdateMode::Off,
            None => AutoUpdateMode::default(),
        }
    }

    /// The warning to print once where the deprecated key counts.
    pub fn warn_deprecated_auto_update_check(&self) -> (r: Option<&'static str>)
        ensures
            r.deep_view() == deprecation(self.auto_update, self.auto_update_check),
    {
        if self.auto_update.is_some() {
            return None;
        }
        match self.auto_update_check {
            Some(true) => Some(
                "\u{26a0} [ui] auto_update_check is deprecated; use auto_update = \"notify\" (or \"off\"/\"install\") instead",
            ),
            Some(false) => Some(
                "\u{26a0} [ui] auto_update_check is deprecated; use auto_update = \"off\" (or \"notify\"/\"install\") instead",
            ),
            None => None,
        }
    }
}

/// Hours until the cache of pull requests is refreshed, unless configured.
pub fn default_pr_cache_ttl_hours() -> (r: u64)
    ensures
        r == 24,
{
    24
}

/// Nothing of this is configured.
pub open spec fn ui_unset(ui: UiConfig) -> bool {
    &&& !ui.show_pr
    &&& ui.pr_cache_ttl_hours == 24
    &&& ui.auto_update is None
    &&& ui.auto_update_check is None
    &&& ui.update_check_interval is None
}

impl Default for UiConfig {
    fn default() -> (r: UiConfig)
        ensures
            ui_unset(r),
    {
        UiConfig {
            show_pr: false,
            pr_cache_ttl_hours: default_pr_cache_ttl_hours(),
            auto_update: None,
            auto_update_check: None,
            update_check_interval: None,
        }
    }
}

/// Templates for where worktrees go.
#[derive(Debug, Clone, PartialEq, Eq)]
pub struct LayoutConfig {
    /// The directory of all worktrees.
    pub worktree_root: Option<String>,
    /// The path of one below it.
    pub worktree_path: Option<String>,
}

impl Default for LayoutConfig {
    fn default() -> (r: LayoutConfig)
        ensures
            r.worktree_root is None,
            r.worktree_path is None,
    {
        LayoutConfig { worktree_root: None, worktree_path: None }
    }
}

/// What to do when a worktree is made, and before one is removed.
#[derive(Debug, Clone, PartialEq, Eq)]
pub struct HooksConfig {
    pub post_create: Vec<HookSpec>,
    pub pre_remove: Vec<HookSpec>,
}

impl Default for HooksConfig {
    fn default() -> (r: HooksConfig)
        ensures
            r.post_create@.len() == 0,
            r.pre_remove@.len() == 0,
    {
        HooksConfig { post_create: Vec::new(), pre_remove: Vec::new() }
    }
}

/// One thing to do for a worktree. Every text is a template.
#[derive(Debug, Clone, PartialEq, Eq)]
pub enum HookSpec {
    /// Copy files into the worktree, each given as `src` or as `src -> dst`.
    Copy { files: Vec<String> },
    /// Make a symbolic link in the worktree.
    Symlink { src: String, dst: String },
    /// Run a command in the worktree.
    Command { run: String, shell: Option<String> },
}

/// Nothing is configured.
pub open spec fn unset(c: Config) -> bool {
    &&& c.layout.worktree_root is None
    &&& c.layout.worktree_path is None
    &&& c.hooks.post_create@.len() == 0
    &&& c.hooks.pre_remove@.len() == 0
    &&& ui_unset(c.ui)
}

impl Default for Config {
    fn default() -> (r: Config)
        ensures
            unset(r),
    {
        Config {
            layout: LayoutConfig::default(),
            hooks: HooksConfig::default(),
            ui: UiConfig::default(),
        }
    }
}

/// A configuration, and the files it was read from.
#[derive(Debug, Clone, PartialEq, Eq)]
pub struct LoadedConfig {
    pub config: Config,
    pub sources: Vec<String>,
}

impl Default for LoadedConfig {
    fn default() -> (r: LoadedConfig)
        ensures
            unset(r.config),
            r.sources@.len() == 0,
    {
        LoadedConfig { config: Config::default(), sources: Vec::new() }
    }
}

/// What loading the configuration comes to.
#[derive(Debug, PartialEq, Eq)]
pub enum LoadStep {
    /// Look whether a file is there.
    Do(Action),
    /// Read these files and merge them, later ones over earlier ones.
    Merge(Vec<String>),
    /// The configuration, or the message of the failure.
    Done(Result<LoadedConfig, String>),
}

/// The files that may hold the configuration, in the order they are read.
pub open spec fn candidates(
    global_dir: Option<Seq<char>>,
    repo_root: Option<Seq<char>>,
    windows: bool,
) -> Seq<Seq<char>> {
    (match global_dir {
        Some(dir) => seq![paths::join(paths::join(dir, "renri"@, windows), "config.toml"@, windows)],
        None => seq![],
    }) + match repo_root {
        Some(root) => seq![paths::join(root, "renri.toml"@, windows)],
        None => seq![],
    }
}

/// The files that were found.
pub open spec fn present(files: Seq<Seq<char>>, looks: Seq<ReplyView>) -> Seq<Seq<char>>
    decreases files.len(),
{
    if files.len() == 0 {
        seq![]
    } else {
        present(files.drop_last(), looks) + if process::found(looks[files.len() - 1]) {
            seq![files.last()]
        } else {
            seq![]
        }
    }
}

/// The files that may hold the configuration.
pub fn candidate_files(
    global_dir: Option<&str>,
    repo_root: Option<&str>,
    windows: bool,
) -> (r: Vec<String>)
    ensures
        r.deep_view() == candidates(global_dir.deep_view(), repo_root.deep_view(), windows),
        r@.len() <= 2,
{
    let mut files: Vec<String> = Vec::new();
    if let Some(dir) = global_dir {
        let sub = paths::joined(dir, "renri", windows);
        files.push(paths::joined(sub.as_str(), "config.toml", windows));
    }
    if let Some(root) = repo_root {
        files.push(paths::joined(root, "renri.toml", windows));
    }
    proof {
        assert(files.deep_view() =~= candidates(global_dir.deep_view(), repo_root.deep_view(), windows));
    }
    files
}

impl Config {
    /// The files that may hold the configuration of this user, for the
    /// repository at `repo_root`, if any.
    pub fn sources(repo_root: Option<&str>, windows: bool) -> (r: Vec<String>)
        ensures
            exists|dir: Option<Seq<char>>|
                r.deep_view() == #[trigger] candidates(dir, repo_root.deep_view(), windows),
    {
        let dir = user_dirs::config();
        let global: Option<&str> = match &dir {
            Some(d) => Some(d.as_str()),
            None => None,
        };
        candidate_files(global, repo_root, windows)
    }

    /// Loads the configuration from those of `files` that are there. `replies`
    /// holds what looks at them found so far, and `merged` what came of reading
    /// and merging them, once that was done. Where none is there, nothing is
    /// configured.
    pub fn load(
        files: &Vec<String>,
        replies: &[Reply],
        merged: Option<Result<Config, String>>,
    ) -> (r: LoadStep)
        ensures
            ({
                let all = files.deep_view();
                let looks = replies.deep_view();
                let there = present(all, looks);
                match r {
                    LoadStep::Do(a) => looks.len() < all.len() && a.deep_view()
                        == ActionView::Look(all[looks.len() as int]),
                    LoadStep::Merge(sources) => looks.len() >= all.len() && there.len() > 0
                        && merged is None && sources.deep_view() == there,
                    LoadStep::Done(Ok(loaded)) => {
                        &&& looks.len() >= all.len()
                        &&& loaded.sources.deep_view() == there
                        &&& if there.len() == 0 {
                            unset(loaded.config)
                        } else {
                            merged == Some(Ok::<Config, String>(loaded.config))
                        }
                    },
                    LoadStep::Done(Err(e)) => looks.len() >= all.len() && there.len() > 0
                        && merged == Some(Err::<Config, String>(e)),
                }
            }),
    {
        let ghost all = files.deep_view();
        let ghost looks = replies.deep_view();
        if replies.len() < files.len() {
            return LoadStep::Do(Action::Look(files[replies.len()].clone()));
        }
        let mut there: Vec<String> = Vec::new();
        let mut i: usize = 0;
        proof {
            assert(there.deep_view() =~= present(all.take(0), looks));
        }
        while i < files.len()
            invariant
                i <= files@.len() <= replies@.len(),
                all == files.deep_view(),
                looks == replies.deep_view(),
                there.deep_view() == present(all.take(i as int), looks),
            decreases files@.len() - i,
        {
            let ghost before = there.deep_view();
            proof {
                assert(all.take(i + 1).drop_last() =~= all.take(i as int));
                assert(all.take(i + 1).last() == files@[i as int]@);
                assert(before + seq![] =~= before);
            }
            if process::found_in(&replies[i]) {
                there.push(files[i].clone());
                proof {
                    assert(there.deep_view() =~= before + seq![files@[i as int]@]);
                }
            }
            i = i + 1;
        }
        proof {
            assert(all.take(i as int) =~= all);
            assert(there.deep_view().len() == there@.len());
        }
        if there.len() == 0 {
            return LoadStep::Done(Ok(LoadedConfig { config: Config::default(), sources: there }));
        }
        match merged {
            None => LoadStep::Merge(there),
            Some(Ok(config)) => LoadStep::Done(Ok(LoadedConfig { config, sources: there })),
            Some(Err(e)) => LoadStep::Done(Err(e)),
        }
    }
}

/// The table `vcs` for the time of loading: each field stands for a reference to
/// itself.
pub open spec fn placeholder_table() -> TableView {
    TableView {
        name: "vcs"@,
        fields: seq![
            FieldView { name: "owner"@, value: Some("{{ vcs.owner }}"@) },
            FieldView { name: "repo"@, value: Some("{{ vcs.repo }}"@) },
            FieldView { name: "host"@, value: Some("{{ vcs.host }}"@) },
            FieldView { name: "branch"@, value: Some("{{ vcs.branch }}"@) },
        ],
    }
}

/// The table `vcs` for the time of loading, when the branch is not known yet:
/// references to it are left for later.
pub fn placeholders() -> (r: Table)
    ensures
        r.deep_view() == placeholder_table(),
{
    let r = Table {
        name: "vcs".to_string(),
        fields: vec![
            Field { name: "owner".to_string(), value: Some("{{ vcs.owner }}".to_string()) },
            Field { name: "repo".to_string(), value: Some("{{ vcs.repo }}".to_string()) },
            Field { name: "host".to_string(), value: Some("{{ vcs.host }}".to_string()) },
            Field { name: "branch".to_string(), value: Some("{{ vcs.branch }}".to_string()) },
        ],
    };
    proof {
        assert(r.deep_view().fields =~= placeholder_table().fields);
    }
    r
}

/// The piece is text without braces, or a reference to the table `vcs`.
pub open spec fn is_deferred(p: Piece) -> bool {
    match p {
        Piece::Text(t) => !t.contains('{') && !t.contains('}'),
        Piece::Refer(t, f) => t == "vcs"@ && render::offered(t, f),
        Piece::Dashed(_, _) => false,
    }
}

/// References to `vcs` survive loading: a template of text and such references
/// comes out as it went in.
pub proof fn references_survive_loading(ps: Seq<Piece>)
    requires
        forall|i: int| 0 <= i < ps.len() ==> is_deferred(#[trigger] ps[i]),
    ensures
        render::plain(render::template(ps), seq![placeholder_table()]) == Some(
            render::template(ps),
        ),
{
    let scope = seq![placeholder_table()];
    deferred_stays(ps);
    assert forall|i: int| 0 <= i < ps.len() implies render::has_meaning(#[trigger] ps[i], scope) by {
        assert(is_deferred(ps[i]));
        if let Piece::Refer(t, f) = ps[i] {
            vcs_fields(f);
            placeholder_is_itself(f);
        }
    }
    render::pieces_are_rendered(ps, scope);
}

proof fn vcs_fields(f: Seq<char>)
    requires
        render::offered("vcs"@, f),
    ensures
        f == "owner"@ || f == "repo"@ || f == "host"@ || f == "branch"@,
{
    reveal_strlit("vcs");
    reveal_strlit("worktree");
    reveal_strlit("repo");
    assert("vcs"@.len() != "worktree"@.len() && "vcs"@.len() != "repo"@.len());
}

proof fn deferred_stays(ps: Seq<Piece>)
    requires
        forall|i: int| 0 <= i < ps.len() ==> is_deferred(#[trigger] ps[i]),
    ensures
        render::outcome(ps, seq![placeholder_table()]) == render::template(ps),
    decreases ps.len(),
{
    if ps.len() > 0 {
        let tail = ps.drop_first();
        assert forall|i: int| 0 <= i < tail.len() implies is_deferred(#[trigger] tail[i]) by {
            assert(tail[i] == ps[i + 1]);
        }
        deferred_stays(tail);
        assert(is_deferred(ps[0]));
        if let Piece::Refer(t, f) = ps[0] {
            vcs_fields(f);
            placeholder_is_itself(f);
        }
    }
}

proof fn placeholder_is_itself(f: Seq<char>)
    requires
        f == "owner"@ || f == "repo"@ || f == "host"@ || f == "branch"@,
    ensures
        render::value(seq![placeholder_table()], "vcs"@, f) == Some(
            render::written(Piece::Refer("vcs"@, f)),
        ),
{
    reveal_strlit("owner");
    reveal_strlit("repo");
    reveal_strlit("host");
    reveal_strlit("branch");
    reveal_strlit("vcs");
    reveal_strlit("{{ ");
    reveal_strlit(".");
    reveal_strlit(" }}");
    reveal_strlit("{{ vcs.owner }}");
    reveal_strlit("{{ vcs.repo }}");
    reveal_strlit("{{ vcs.host }}");
    reveal_strlit("{{ vcs.branch }}");
    reveal_with_fuel(render::field_value, 5);
    let s = placeholder_table().fields;
    assert(seq![placeholder_table()].last() == placeholder_table());
    assert("repo"@[0] != "host"@[0]);
    assert(s.drop_last() =~= seq![s[0], s[1], s[2]]);
    assert(s.drop_last().drop_last() =~= seq![s[0], s[1]]);
    assert(s.drop_last().drop_last().drop_last() =~= seq![s[0]]);
    assert("{{ vcs.owner }}"@ =~= render::written(Piece::Refer("vcs"@, "owner"@)));
    assert("{{ vcs.repo }}"@ =~= render::written(Piece::Refer("vcs"@, "repo"@)));
    assert("{{ vcs.host }}"@ =~= render::written(Piece::Refer("vcs"@, "host"@)));
    assert("{{ vcs.branch }}"@ =~= render::written(Piece::Refer("vcs"@, "branch"@)));
}

} // verus!
