//! Where a worktree goes: what is known of the repository, and the templates
//! that make a path of it.

use crate::paths;
use crate::render::{self, Field, FieldView, Piece, Rendering, RenderingView, Table, TableView};
use crate::strings;
use crate::text;
use vstd::prelude::*;
use vstd::string::*;

verus! {

/// Template for the directory that worktrees go to, unless configured.
pub const DEFAULT_WORKTREE_ROOT: &'static str = "{{ home() }}/wt";

/// Template for the path of a worktree below that directory, unless configured.
pub const DEFAULT_WORKTREE_PATH: &'static str =
    "{{ vcs.owner }}/{{ vcs.repo }}/{{ vcs.branch | replace(from='/', to='-') }}";

/// What is known of the repository, for templates to refer to as `vcs`.
#[derive(Debug, Clone, PartialEq, Eq)]
pub struct VcsContext {
    pub owner: String,
    pub repo: String,
    pub host: Option<String>,
    pub branch: String,
}

/// What a [`VcsContext`] stands for.
#[verifier::ext_equal]
pub struct VcsContextView {
    pub owner: Seq<char>,
    pub repo: Seq<char>,
    pub host: Option<Seq<char>>,
    pub branch: Seq<char>,
}

impl DeepView for VcsContext {
    type V = VcsContextView;

    open spec fn deep_view(&self) -> VcsContextView {
        VcsContextView {
            owner: self.owner@,
            repo: self.repo@,
            host: self.host.deep_view(),
            branch: self.branch@,
        }
    }
}

/// What follows the last `c`; all of `s` where there is none.
pub open spec fn after_last(s: Seq<char>, c: char) -> Seq<char> {
    s.skip(text::last_position(s, c) + 1)
}

/// What precedes the first `c`; all of `s` where there is none.
pub open spec fn before_first(s: Seq<char>, c: char) -> Seq<char> {
    s.take(text::position(s, c))
}

/// `s` without the slashes it begins with.
pub open spec fn trim_slashes(s: Seq<char>) -> Seq<char>
    decreases s.len(),
{
    if s.len() > 0 && s[0] == '/' {
        trim_slashes(s.drop_first())
    } else {
        s
    }
}

/// The host of a URL and the path that follows it. With a scheme, the host ends
/// at the first slash, and neither a user before it nor a port after it counts.
/// Without one, `user@host:path` is meant where no slash comes before the colon.
/// Anything else is a path.
pub open spec fn host_and_path(url: Seq<char>) -> (Option<Seq<char>>, Seq<char>) {
    match text::find(url, "://"@) {
        Some(scheme) => {
            let after = after_last(url.skip(scheme + 3), '@');
            let slash = text::position(after, '/');
            if slash < after.len() {
                (Some(before_first(after.take(slash), ':')), after.skip(slash + 1))
            } else {
                (Some(after), seq![])
            }
        },
        None => {
            let colon = text::position(url, ':');
            if colon < url.len() && !url.take(colon).contains('/') {
                (Some(after_last(url.take(colon), '@')), url.skip(colon + 1))
            } else {
                (None, url)
            }
        },
    }
}

/// The owner and the name of a repository: what precedes and what follows the
/// last slash of its path.
pub open spec fn owner_and_repo(path: Seq<char>) -> (Seq<char>, Seq<char>) {
    let p = trim_slashes(path);
    let k = text::last_position(p, '/');
    if k < 0 {
        (seq![], p)
    } else {
        (p.take(k), p.skip(k + 1))
    }
}

/// A URL without white space around it and without `.git` at its end.
pub open spec fn bare_url(url: Seq<char>) -> Seq<char> {
    let t = text::trim(url);
    if ".git"@.is_suffix_of(t) {
        t.take(t.len() - ".git"@.len())
    } else {
        t
    }
}

/// What the URL of `origin` says of the repository.
pub open spec fn origin_context(url: Seq<char>) -> VcsContextView {
    let (host, path) = host_and_path(bare_url(url));
    let (owner, repo) = owner_and_repo(path);
    VcsContextView { owner, repo, host, branch: seq![] }
}

/// What follows the last `c`; all of `s` where there is none.
fn text_after_last<'a>(s: &'a str, c: char) -> (r: &'a str)
    ensures
        r@ == after_last(s@, c),
{
    let v = strings::chars(s);
    let from: usize = match strings::last_position(&v, c) {
        Some(k) => k + 1,
        None => 0,
    };
    proof {
        assert(s@.subrange(from as int, s@.len() as int) =~= s@.skip(from as int));
    }
    s.substring_char(from, v.len())
}

/// Whether `c` stands in the first `n` characters.
fn has_char(v: &Vec<char>, n: usize, c: char) -> (r: bool)
    requires
        n <= v@.len(),
    ensures
        r == v@.take(n as int).contains(c),
{
    let mut i: usize = 0;
    while i < n
        invariant
            i <= n <= v@.len(),
            forall|j: int| 0 <= j < i ==> v@[j] != c,
        decreases n - i,
    {
        if v[i] == c {
            proof {
                assert(v@.take(n as int)[i as int] == c);
            }
            return true;
        }
        i = i + 1;
    }
    false
}

/// Splits a URL into its host and the path that follows.
pub fn split_host_and_path<'a>(url: &'a str) -> (r: (Option<String>, &'a str))
    ensures
        (r.0.deep_view(), r.1@) == host_and_path(url@),
{
    let v = strings::chars(url);
    proof {
        reveal_strlit("://");
    }
    if let Some(scheme) = strings::find(url, "://") {
        proof {
            assert(url@.subrange(scheme + 3, url@.len() as int) =~= url@.skip(scheme + 3));
        }
        let after = text_after_last(url.substring_char(scheme + 3, v.len()), '@');
        let a = strings::chars(after);
        let slash: usize = strings::position(&a, 0, '/');
        proof {
            assert(a@.skip(0) =~= a@);
        }
        if slash < a.len() {
            let colon: usize = strings::position(&a, 0, ':');
            let end: usize = if colon < slash {
                colon
            } else {
                slash
            };
            proof {
                first_within(a@, ':', slash as int);
                assert(after@.subrange(0, end as int) =~= before_first(
                    after@.take(slash as int),
                    ':',
                ));
                assert(after@.subrange(slash + 1, after@.len() as int) =~= after@.skip(slash + 1));
            }
            let host = after.substring_char(0, end).to_string();
            return (Some(host), after.substring_char(slash + 1, a.len()));
        }
        let rest = after.substring_char(a.len(), a.len());
        proof {
            assert(rest@ =~= seq![]);
        }
        return (Some(after.to_string()), rest);
    }
    let colon: usize = strings::position(&v, 0, ':');
    proof {
        assert(v@.skip(0) =~= v@);
    }
    if colon < v.len() && !has_char(&v, colon, '/') {
        proof {
            assert(url@.subrange(0, colon as int) =~= url@.take(colon as int));
            assert(url@.subrange(colon + 1, url@.len() as int) =~= url@.skip(colon + 1));
        }
        let host = text_after_last(url.substring_char(0, colon), '@').to_string();
        return (Some(host), url.substring_char(colon + 1, v.len()));
    }
    (None, url)
}

/// The first `c` among the first `n` characters is the first of all, if that is
/// among them.
proof fn first_within(s: Seq<char>, c: char, n: int)
    requires
        0 <= n <= s.len(),
    ensures
        text::position(s.take(n), c) == if text::position(s, c) < n {
            text::position(s, c)
        } else {
            n
        },
        text::position(s, c) >= 0,
    decreases s.len(),
{
    if s.len() > 0 && s[0] != c {
        if n > 0 {
            assert(s.take(n).drop_first() =~= s.drop_first().take(n - 1));
            first_within(s.drop_first(), c, n - 1);
        } else {
            first_within(s.drop_first(), c, 0);
        }
    }
}

/// Splits the path of a repository into its owner and its name.
pub fn split_owner_repo<'a>(path: &'a str) -> (r: (&'a str, &'a str))
    ensures
        (r.0@, r.1@) == owner_and_repo(path@),
{
    let v = strings::chars(path);
    let mut i: usize = 0;
    proof {
        assert(path@.skip(0) =~= path@);
    }
    while i < v.len() && v[i] == '/'
        invariant
            i <= v.len(),
            v@ == path@,
            trim_slashes(path@) == trim_slashes(path@.skip(i as int)),
        decreases v.len() - i,
    {
        proof {
            assert(path@.skip(i as int).drop_first() =~= path@.skip(i + 1));
        }
        i = i + 1;
    }
    let p = path.substring_char(i, v.len());
    proof {
        assert(p@ =~= path@.skip(i as int));
    }
    let w = strings::chars(p);
    match strings::last_position(&w, '/') {
        Some(k) => {
            proof {
                assert(p@.subrange(0, k as int) =~= p@.take(k as int));
                assert(p@.subrange(k + 1, p@.len() as int) =~= p@.skip(k + 1));
            }
            (p.substring_char(0, k), p.substring_char(k + 1, w.len()))
        },
        None => {
            let none = p.substring_char(0, 0);
            proof {
                assert(none@ =~= seq![]);
            }
            (none, p)
        },
    }
}

/// Reads the URL of `origin`.
pub fn parse_origin(url: &str) -> (r: VcsContext)
    ensures
        r.deep_view() == origin_context(url@),
{
    let trimmed = strings::trim(url);
    let no_git = match strings::strip_suffix(trimmed, ".git") {
        Some(rest) => rest,
        None => trimmed,
    };
    let (host, path) = split_host_and_path(no_git);
    let (owner, repo) = split_owner_repo(path);
    let branch = String::new();
    proof {
        assert(branch@ =~= seq![]);
    }
    VcsContext { owner: owner.to_string(), repo: repo.to_string(), host, branch }
}

/// What is known of a repository: what `origin` says, or else the local user as
/// its owner and its directory as its name.
pub open spec fn context(
    origin: Option<Seq<char>>,
    user: Seq<char>,
    root: Seq<char>,
    branch: Seq<char>,
    windows: bool,
) -> VcsContextView {
    match origin {
        Some(url) => VcsContextView { branch, ..origin_context(url) },
        None => VcsContextView {
            owner: user,
            repo: match paths::file_name(root, windows) {
                Some(name) => name,
                None => "repo"@,
            },
            host: None,
            branch,
        },
    }
}

/// What is known of a repository whose local user is `user`.
pub fn context_for(
    origin: Option<&str>,
    user: &str,
    repo_root: &str,
    branch: &str,
    windows: bool,
) -> (r: VcsContext)
    ensures
        r.deep_view() == context(origin.deep_view(), user@, repo_root@, branch@, windows),
{
    match origin {
        Some(url) => {
            let mut info = parse_origin(url);
            info.branch = branch.to_string();
            info
        },
        None => VcsContext {
            owner: user.to_string(),
            repo: match paths::base_name(repo_root, windows) {
                Some(name) => name,
                None => "repo".to_string(),
            },
            host: None,
            branch: branch.to_string(),
        },
    }
}

/// `whoami::username`: the name of the user who runs this. It depends on the
/// machine, so nothing is claimed of it.
#[verifier::external_body]
fn user_name() -> (r: String) {
    whoami::username()
}

/// Finds out what is known of a repository.
pub fn discover_vcs_context(
    origin: Option<&str>,
    repo_root: &str,
    branch: &str,
    windows: bool,
) -> (r: VcsContext)
    ensures
        exists|user: Seq<char>|
            r.deep_view() == #[trigger] context(origin.deep_view(), user, repo_root@, branch@, windows),
{
    let user = user_name();
    context_for(origin, user.as_str(), repo_root, branch, windows)
}

/// The values that layout templates may refer to.
pub open spec fn scope(vcs: VcsContextView) -> Seq<TableView> {
    seq![vcs_table(vcs)]
}

/// The table `vcs`.
pub open spec fn vcs_table(vcs: VcsContextView) -> TableView {
    TableView {
        name: "vcs"@,
        fields: seq![
            FieldView { name: "owner"@, value: Some(vcs.owner) },
            FieldView { name: "repo"@, value: Some(vcs.repo) },
            FieldView { name: "host"@, value: vcs.host },
            FieldView { name: "branch"@, value: Some(vcs.branch) },
        ],
    }
}

/// The table `vcs`.
pub fn table_of(vcs: &VcsContext) -> (r: Table)
    ensures
        r.deep_view() == vcs_table(vcs.deep_view()),
{
    let r = Table {
        name: "vcs".to_string(),
        fields: vec![
            Field { name: "owner".to_string(), value: Some(vcs.owner.clone()) },
            Field { name: "repo".to_string(), value: Some(vcs.repo.clone()) },
            Field { name: "host".to_string(), value: vcs.host.clone() },
            Field { name: "branch".to_string(), value: Some(vcs.branch.clone()) },
        ],
    };
    proof {
        assert(r.deep_view().fields =~= vcs_table(vcs.deep_view()).fields);
    }
    r
}

/// The path that the two rendered templates make up.
pub open spec fn laid_out(root: Seq<char>, sub: Seq<char>, windows: bool) -> Seq<char> {
    paths::join(text::trim(root), text::trim(sub), windows)
}

/// What comes of the two rendered templates: the path they make up, or which of
/// them failed.
pub open spec fn layout_result(
    root: Result<Seq<char>, Seq<char>>,
    sub: Result<Seq<char>, Seq<char>>,
    windows: bool,
) -> Result<Seq<char>, Seq<char>> {
    match (root, sub) {
        (Err(_), _) => Err("rendering layout.worktree_root"@),
        (Ok(_), Err(_)) => Err("rendering layout.worktree_path"@),
        (Ok(r), Ok(s)) => Ok(laid_out(r, s, windows)),
    }
}

/// The template configured, or else the default.
pub open spec fn chosen(configured: Option<Seq<char>>, default: Seq<char>) -> Seq<char> {
    match configured {
        Some(t) => t,
        None => default,
    }
}

/// The path that the two rendered templates make up.
pub fn lay_out(root: &str, sub: &str, windows: bool) -> (r: String)
    ensures
        r@ == laid_out(root@, sub@, windows),
{
    paths::joined(strings::trim(root), strings::trim(sub), windows)
}

/// Finding where a worktree goes: the first template is rendered, and where that
/// goes well the second.
pub open spec fn laying_out(
    vcs: VcsContextView,
    root_template: Option<Seq<char>>,
    path_template: Option<Seq<char>>,
    windows: bool,
    replies: Seq<Result<Seq<char>, Seq<char>>>,
) -> RenderingView {
    let (root, rest) = render::rendering(
        chosen(root_template, DEFAULT_WORKTREE_ROOT@),
        scope(vcs),
        replies,
    );
    match root {
        RenderingView::Ask(t) => RenderingView::Ask(t),
        RenderingView::Done(Err(e)) => RenderingView::Done(layout_result(Err(e), Err(e), windows)),
        RenderingView::Done(Ok(r)) => match render::rendering(
            chosen(path_template, DEFAULT_WORKTREE_PATH@),
            scope(vcs),
            rest,
        ).0 {
            RenderingView::Ask(t) => RenderingView::Ask(t),
            RenderingView::Done(s) => RenderingView::Done(layout_result(Ok(r), s, windows)),
        },
    }
}

/// Finds where a worktree goes. `replies` holds what came of the templates that
/// were asked to be rendered so far.
pub fn render_path(
    vcs: &VcsContext,
    root_template: Option<&str>,
    path_template: Option<&str>,
    windows: bool,
    replies: &[Result<String, String>],
) -> (r: Rendering)
    ensures
        r.deep_view() == laying_out(
            vcs.deep_view(),
            root_template.deep_view(),
            path_template.deep_view(),
            windows,
            render::results(replies@),
        ),
{
    let root_t = match root_template {
        Some(t) => t,
        None => DEFAULT_WORKTREE_ROOT,
    };
    let path_t = match path_template {
        Some(t) => t,
        None => DEFAULT_WORKTREE_PATH,
    };
    proof {
        let rs = render::results(replies@);
        assert(rs.skip(0) =~= rs);
    }
    let (root, k) = render::render(root_t, tables_of(vcs), replies, 0);
    let root = match root {
        Rendering::Ask(t) => return Rendering::Ask(t),
        Rendering::Done(Err(_)) => return Rendering::Done(
            Err("rendering layout.worktree_root".to_string()),
        ),
        Rendering::Done(Ok(r)) => r,
    };
    let (sub, _) = render::render(path_t, tables_of(vcs), replies, k);
    match sub {
        Rendering::Ask(t) => Rendering::Ask(t),
        Rendering::Done(Err(_)) => Rendering::Done(
            Err("rendering layout.worktree_path".to_string()),
        ),
        Rendering::Done(Ok(s)) => Rendering::Done(Ok(lay_out(root.as_str(), s.as_str(), windows))),
    }
}

/// The values that layout templates may refer to.
fn tables_of(vcs: &VcsContext) -> (r: Vec<Table>)
    ensures
        r.deep_view() == scope(vcs.deep_view()),
{
    let r = vec![table_of(vcs)];
    proof {
        assert(r.deep_view() =~= scope(vcs.deep_view()));
    }
    r
}

/// What comes of the rendered template for the directory of all worktrees.
pub open spec fn root_result(root: Result<Seq<char>, Seq<char>>) -> Result<Seq<char>, Seq<char>> {
    match root {
        Ok(s) => Ok(text::trim(s)),
        Err(_) => Err("rendering layout.worktree_root"@),
    }
}

/// Finding the directory that worktrees go to, where no repository is at hand.
pub open spec fn rooting(
    root_template: Option<Seq<char>>,
    replies: Seq<Result<Seq<char>, Seq<char>>>,
) -> RenderingView {
    match render::rendering(
        chosen(root_template, DEFAULT_WORKTREE_ROOT@),
        Seq::<TableView>::empty(),
        replies,
    ).0 {
        RenderingView::Ask(t) => RenderingView::Ask(t),
        RenderingView::Done(r) => RenderingView::Done(root_result(r)),
    }
}

/// Finds the directory that worktrees go to, where no repository is at hand.
/// `replies` holds what came of the template, once it was rendered.
pub fn render_worktree_root(
    root_template: Option<&str>,
    replies: &[Result<String, String>],
) -> (r: Rendering)
    ensures
        r.deep_view() == rooting(root_template.deep_view(), render::results(replies@)),
{
    let root_t = match root_template {
        Some(t) => t,
        None => DEFAULT_WORKTREE_ROOT,
    };
    let tables: Vec<Table> = Vec::new();
    proof {
        let rs = render::results(replies@);
        assert(rs.skip(0) =~= rs);
        assert(tables.deep_view() =~= Seq::<TableView>::empty());
    }
    match render::render(root_t, tables, replies, 0).0 {
        Rendering::Ask(t) => Rendering::Ask(t),
        Rendering::Done(Ok(s)) => Rendering::Done(Ok(strings::trim(s.as_str()).to_string())),
        Rendering::Done(Err(_)) => Rendering::Done(
            Err("rendering layout.worktree_root".to_string()),
        ),
    }
}

/// The path of a worktree below the directory of all of them, unless configured
/// otherwise: its owner, its repository and its branch with dashes for slashes.
pub open spec fn default_sub(vcs: VcsContextView) -> Seq<char> {
    vcs.owner + "/"@ + vcs.repo + "/"@ + text::replace_char(vcs.branch, '/', "-"@)
}

/// The pieces of the default template for the path.
spec fn default_pieces() -> Seq<Piece> {
    seq![
        Piece::Refer("vcs"@, "owner"@),
        Piece::Text("/"@),
        Piece::Refer("vcs"@, "repo"@),
        Piece::Text("/"@),
        Piece::Dashed("vcs"@, "branch"@),
    ]
}

/// The default template for the path always renders, to owner, repository and
/// branch, with dashes for the slashes of the branch; so wherever the first
/// template renders, that is where the worktree goes below it.
pub proof fn default_path_is_owner_repo_branch(
    vcs: VcsContextView,
    root_template: Option<Seq<char>>,
    windows: bool,
    replies: Seq<Result<Seq<char>, Seq<char>>>,
)
    ensures
        render::plain(DEFAULT_WORKTREE_PATH@, scope(vcs)) == Some(default_sub(vcs)),
        match render::rendering(
            chosen(root_template, DEFAULT_WORKTREE_ROOT@),
            scope(vcs),
            replies,
        ).0 {
            RenderingView::Done(Ok(root)) => laying_out(vcs, root_template, None, windows, replies)
                == RenderingView::Done(Ok(laid_out(root, default_sub(vcs), windows))),
            _ => true,
        },
{
    let ps = default_pieces();
    let sc = scope(vcs);
    default_template_is_written();
    fields_are_found(vcs);
    reveal_strlit("/");
    assert(render::all_have_meaning(ps, sc)) by {
        assert forall|i: int| 0 <= i < ps.len() implies render::has_meaning(
            #[trigger] ps[i],
            sc,
        ) by {
            if i == 1 || i == 3 {
                assert(!"/"@.contains('{') && !"/"@.contains('}'));
            }
        }
    }
    render::pieces_are_rendered(ps, sc);
    default_outcome(vcs);
}

proof fn fields_are_found(vcs: VcsContextView)
    ensures
        render::value(scope(vcs), "vcs"@, "owner"@) == Some(vcs.owner),
        render::value(scope(vcs), "vcs"@, "repo"@) == Some(vcs.repo),
        render::value(scope(vcs), "vcs"@, "host"@) == vcs.host,
        render::value(scope(vcs), "vcs"@, "branch"@) == Some(vcs.branch),
{
    reveal_strlit("owner");
    reveal_strlit("repo");
    reveal_strlit("host");
    reveal_strlit("branch");
    reveal_with_fuel(render::field_value, 5);
    let f = vcs_table(vcs).fields;
    assert(scope(vcs).last() == vcs_table(vcs));
    assert("owner"@.len() == 5 && "repo"@.len() == 4 && "host"@.len() == 4 && "branch"@.len() == 6);
    assert("repo"@[0] != "host"@[0]);
    assert(f.drop_last() =~= seq![f[0], f[1], f[2]]);
    assert(f.drop_last().drop_last() =~= seq![f[0], f[1]]);
    assert(f.drop_last().drop_last().drop_last() =~= seq![f[0]]);
}

proof fn default_template_is_written()
    ensures
        render::template(default_pieces()) == DEFAULT_WORKTREE_PATH@,
{
    reveal_strlit("{{ vcs.owner }}/{{ vcs.repo }}/{{ vcs.branch | replace(from='/', to='-') }}");
    reveal_strlit("{{ ");
    reveal_strlit(" }}");
    reveal_strlit("vcs");
    reveal_strlit(".");
    reveal_strlit("owner");
    reveal_strlit("repo");
    reveal_strlit("branch");
    reveal_strlit("/");
    reveal_strlit(" | replace(from='/', to='-') }}");
    reveal_with_fuel(render::template, 6);
    let p = default_pieces();
    let q = p.drop_first();
    assert(q =~= seq![p[1], p[2], p[3], p[4]]);
    assert(q.drop_first() =~= seq![p[2], p[3], p[4]]);
    assert(q.drop_first().drop_first() =~= seq![p[3], p[4]]);
    assert(q.drop_first().drop_first().drop_first() =~= seq![p[4]]);
    assert(q.drop_first().drop_first().drop_first().drop_first() =~= seq![]);
    assert(render::template(p) =~= DEFAULT_WORKTREE_PATH@);
}

proof fn default_outcome(vcs: VcsContextView)
    ensures
        render::outcome(default_pieces(), scope(vcs)) == default_sub(vcs),
{
    fields_are_found(vcs);
    reveal_with_fuel(render::outcome, 6);
    let p = default_pieces();
    let q = p.drop_first();
    assert(q =~= seq![p[1], p[2], p[3], p[4]]);
    assert(q.drop_first() =~= seq![p[2], p[3], p[4]]);
    assert(q.drop_first().drop_first() =~= seq![p[3], p[4]]);
    assert(q.drop_first().drop_first().drop_first() =~= seq![p[4]]);
    assert(q.drop_first().drop_first().drop_first().drop_first() =~= seq![]);
    assert(render::outcome(p, scope(vcs)) =~= default_sub(vcs));
}

/// A URL says the same with and without `.git` at its end.
pub proof fn git_suffix_makes_no_difference(url: Seq<char>)
    requires
        url.len() > 0 ==> !text::is_white(url.last()),
        !".git"@.is_suffix_of(url),
    ensures
        origin_context(url + ".git"@) == origin_context(url),
{
    reveal_strlit(".git");
    let long = url + ".git"@;
    assert(".git"@.is_suffix_of(long));
    let start = text::trim_start(url);
    trimmed_start_is_a_suffix(url);
    trim_start_appends(url, ".git"@);
    assert(text::trim(url) == start);
    assert(text::trim(long) == start + ".git"@) by {
        assert((start + ".git"@).last() == 't');
    }
    assert(".git"@.is_suffix_of(start + ".git"@));
    assert((start + ".git"@).take(start.len() as int) =~= start);
    if ".git"@.is_suffix_of(start) {
        assert(url.skip(url.len() - 4) =~= start.skip(start.len() - 4));
    }
}

/// What is left of a text without its leading white space is its end.
proof fn trimmed_start_is_a_suffix(s: Seq<char>)
    ensures
        text::trim_start(s).len() <= s.len(),
        text::trim_start(s) == s.skip(s.len() - text::trim_start(s).len()),
    decreases s.len(),
{
    if s.len() > 0 && text::is_white(s.first()) {
        let t = s.drop_first();
        trimmed_start_is_a_suffix(t);
        let n = text::trim_start(t).len();
        assert(t.skip(t.len() - n) =~= s.skip(s.len() - n));
    } else {
        assert(s.skip(0) =~= s);
    }
}

/// What follows a text that does not end in white space makes no difference to
/// the white space before it.
proof fn trim_start_appends(s: Seq<char>, end: Seq<char>)
    requires
        s.len() > 0 ==> !text::is_white(s.last()),
        end.len() > 0 && !text::is_white(end[0]),
    ensures
        text::trim_start(s + end) == text::trim_start(s) + end,
    decreases s.len(),
{
    if s.len() == 0 {
        assert(s + end =~= end);
    } else {
        assert((s + end)[0] == s[0]);
        if text::is_white(s[0]) {
            assert(s.len() > 1);
            assert((s + end).drop_first() =~= s.drop_first() + end);
            assert(s.drop_first().last() == s.last());
            trim_start_appends(s.drop_first(), end);
        }
    }
}

/// `git@host:path` and `https://host/path` name the same host and path.
pub proof fn scp_and_https_forms_agree(host: Seq<char>, path: Seq<char>)
    requires
        !host.contains('/') && !host.contains(':') && !host.contains('@'),
        !path.contains('@'),
        !text::contains(path, "://"@),
        !"//"@.is_prefix_of(path),
    ensures
        host_and_path("git@"@ + host + ":"@ + path) == (Some(host), path),
        host_and_path("https://"@ + host + "/"@ + path) == (Some(host), path),
{
    scp_form(host, path);
    https_form(host, path);
}

proof fn scp_form(host: Seq<char>, path: Seq<char>)
    requires
        !host.contains('/') && !host.contains(':') && !host.contains('@'),
        !text::contains(path, "://"@),
        !"//"@.is_prefix_of(path),
    ensures
        host_and_path("git@"@ + host + ":"@ + path) == (Some(host), path),
{
    reveal_strlit("git@");
    reveal_strlit(":");
    reveal_strlit("://");
    reveal_strlit("//");
    let user = "git@"@ + host;
    let url = user + ":"@ + path;
    let n = user.len() as int;
    assert(url[n] == ':');
    assert forall|i: int| 0 <= i < n implies url[i] != ':' && url[i] != '/' by {
        if i >= 4 {
            assert(url[i] == host[i - 4]);
            assert(host.contains(host[i - 4]));
        }
    }
    text::find_is_first(url, "://"@);
    assert forall|i: int| !text::occurs_at(url, "://"@, i) by {
        if text::occurs_at(url, "://"@, i) {
            let w = url.subrange(i, i + 3);
            assert(w[0] == url[i] && w[1] == url[i + 1] && w[2] == url[i + 2]);
            if i == n {
                assert(path[0] == '/' && path[1] == '/');
                assert(path.take(2) =~= "//"@);
            } else if i > n {
                assert(path.subrange(i - n - 1, i - n + 2) =~= w);
                assert(text::occurs_at(path, "://"@, i - n - 1));
            }
        }
    }
    first_at(url, ':', n);
    assert(url.take(n) =~= user);
    last_at(user, '@', 3);
    assert(user.skip(4) =~= host);
    assert(url.skip(n + 1) =~= path);
}

proof fn https_form(host: Seq<char>, path: Seq<char>)
    requires
        !host.contains('/') && !host.contains(':') && !host.contains('@'),
        !path.contains('@'),
    ensures
        host_and_path("https://"@ + host + "/"@ + path) == (Some(host), path),
{
    reveal_strlit("https://");
    reveal_strlit("/");
    reveal_strlit("://");
    let url = "https://"@ + host + "/"@ + path;
    let rest = host + "/"@ + path;
    let n = host.len() as int;
    assert(url.subrange(5, 8) =~= "://"@);
    assert(text::occurs_at(url, "://"@, 5));
    text::find_is_first(url, "://"@);
    assert forall|i: int| 0 <= i < 5 implies !text::occurs_at(url, "://"@, i) by {
        if text::occurs_at(url, "://"@, i) {
            assert(url.subrange(i, i + 3)[0] == url[i]);
            assert(url[i] == "https://"@[i]);
        }
    }
    assert(text::find(url, "://"@) == Some(5int));
    assert(url.skip(8) =~= rest);
    assert forall|i: int| 0 <= i < rest.len() implies rest[i] != '@' by {
        if i < n {
            assert(host.contains(host[i]));
        } else if i > n {
            assert(rest[i] == path[i - n - 1]);
            assert(path.contains(path[i - n - 1]));
        }
    }
    last_at(rest, '@', -1);
    assert(rest.skip(0) =~= rest);
    assert(rest[n] == '/');
    assert forall|i: int| 0 <= i < n implies rest[i] != '/' && host[i] != ':' by {
        assert(host.contains(host[i]));
    }
    first_at(rest, '/', n);
    assert(rest.take(n) =~= host);
    first_at(host, ':', n);
    assert(host.take(n) =~= host);
    assert(rest.skip(n + 1) =~= path);
}

/// With a scheme, neither the user before the host nor the port after it counts.
pub proof fn user_and_port_are_dropped(
    user: Seq<char>,
    host: Seq<char>,
    port: Seq<char>,
    path: Seq<char>,
)
    requires
        !user.contains('@'),
        !host.contains('/') && !host.contains(':') && !host.contains('@'),
        !port.contains('/') && !port.contains('@'),
        !path.contains('@'),
    ensures
        host_and_path("ssh://"@ + user + "@"@ + host + ":"@ + port + "/"@ + path) == (
            Some(host),
            path,
        ),
{
    reveal_strlit("ssh://");
    reveal_strlit("@");
    reveal_strlit(":");
    reveal_strlit("/");
    reveal_strlit("://");
    let url = "ssh://"@ + user + "@"@ + host + ":"@ + port + "/"@ + path;
    let after = user + "@"@ + host + ":"@ + port + "/"@ + path;
    let rest = host + ":"@ + port + "/"@ + path;
    let u = user.len() as int;
    let n = host.len() as int;
    let m = n + 1 + port.len();
    assert(url.subrange(3, 6) =~= "://"@);
    assert(text::occurs_at(url, "://"@, 3));
    text::find_is_first(url, "://"@);
    assert forall|i: int| 0 <= i < 3 implies !text::occurs_at(url, "://"@, i) by {
        if text::occurs_at(url, "://"@, i) {
            assert(url.subrange(i, i + 3)[0] == url[i]);
            assert(url[i] == "ssh://"@[i]);
        }
    }
    assert(text::find(url, "://"@) == Some(3int));
    assert(url.skip(6) =~= after);
    assert(after =~= user + "@"@ + rest);
    assert forall|i: int| 0 <= i < rest.len() implies rest[i] != '@' by {
        if i < n {
            assert(host.contains(host[i]));
        } else if n < i < m {
            assert(rest[i] == port[i - n - 1]);
            assert(port.contains(port[i - n - 1]));
        } else if i > m {
            assert(rest[i] == path[i - m - 1]);
            assert(path.contains(path[i - m - 1]));
        }
    }
    assert(after[u] == '@');
    assert forall|i: int| u < i < after.len() implies after[i] != '@' by {
        assert(after[i] == rest[i - u - 1]);
    }
    last_at(after, '@', u);
    assert(after.skip(u + 1) =~= rest);
    assert(rest[m] == '/');
    assert forall|i: int| 0 <= i < m implies rest[i] != '/' by {
        if i < n {
            assert(host.contains(host[i]));
        } else if i > n {
            assert(rest[i] == port[i - n - 1]);
            assert(port.contains(port[i - n - 1]));
        }
    }
    first_at(rest, '/', m);
    let both = rest.take(m);
    assert(both[n] == ':');
    assert forall|i: int| 0 <= i < n implies both[i] != ':' by {
        assert(host.contains(host[i]));
    }
    first_at(both, ':', n);
    assert(both.take(n) =~= host);
    assert(rest.skip(m + 1) =~= path);
}

/// Where the first `c` stands.
proof fn first_at(s: Seq<char>, c: char, n: int)
    requires
        0 <= n <= s.len(),
        n < s.len() ==> s[n] == c,
        forall|i: int| 0 <= i < n ==> s[i] != c,
    ensures
        text::position(s, c) == n,
    decreases s.len(),
{
    if n > 0 {
        first_at(s.drop_first(), c, n - 1);
    }
}

/// Where the last `c` stands.
proof fn last_at(s: Seq<char>, c: char, n: int)
    requires
        -1 <= n < s.len(),
        n >= 0 ==> s[n] == c,
        forall|i: int| n < i < s.len() ==> s[i] != c,
    ensures
        text::last_position(s, c) == n,
    decreases s.len(),
{
    if n < s.len() - 1 {
        last_at(s.drop_last(), c, n);
    }
}

} // verus!
