//! What the URL of `origin` says, and where worktrees go.

use crate::laws::listing_jj::position_is_first;
use crate::layout::{
    context, host_and_path, laying_out, origin_context, owner_and_repo, rooting, scope,
    trim_slashes, VcsContextView, DEFAULT_WORKTREE_PATH, DEFAULT_WORKTREE_ROOT,
};
use crate::paths;
use crate::render::{self, RenderingView, TableView};
use crate::text;
use vstd::prelude::*;

verus! {

/// `c` does not stand in `s`.
pub open spec fn lacks(s: Seq<char>, c: char) -> bool {
    forall|i: int| 0 <= i < s.len() ==> #[trigger] s[i] != c
}

/// `t` is what follows the last `c` of `s`, or all of `s` where there is none.
pub open spec fn is_after_last(t: Seq<char>, s: Seq<char>, c: char) -> bool {
    lacks(t, c) && (t == s || exists|k: int|
        0 <= k < s.len() && #[trigger] s[k] == c && t == s.skip(k + 1))
}

/// `t` is what precedes the first `c` of `s`, or all of `s` where there is none.
pub open spec fn is_before_first(t: Seq<char>, s: Seq<char>, c: char) -> bool {
    lacks(t, c) && (t == s || exists|k: int|
        0 <= k < s.len() && #[trigger] s[k] == c && t == s.take(k))
}

pub proof fn last_position_is_last(s: Seq<char>, c: char)
    ensures
        -1 <= text::last_position(s, c) < s.len(),
        text::last_position(s, c) >= 0 ==> s[text::last_position(s, c)] == c,
        forall|j: int| text::last_position(s, c) < j < s.len() ==> s[j] != c,
    decreases s.len(),
{
    if s.len() > 0 && s.last() != c {
        let t = s.drop_last();
        last_position_is_last(t, c);
        assert forall|j: int| text::last_position(s, c) < j < s.len() implies s[j] != c by {
            if j < t.len() {
                assert(t[j] == s[j]);
            }
        }
    }
}

proof fn after_last_is(s: Seq<char>, c: char)
    ensures
        is_after_last(crate::layout::after_last(s, c), s, c),
{
    last_position_is_last(s, c);
    let k = text::last_position(s, c);
    let t = crate::layout::after_last(s, c);
    assert forall|i: int| 0 <= i < t.len() implies #[trigger] t[i] != c by {
        assert(t[i] == s[k + 1 + i]);
    }
    if k < 0 {
        assert(t =~= s);
    } else {
        assert(s[k] == c);
    }
}

proof fn before_first_is(s: Seq<char>, c: char)
    ensures
        is_before_first(crate::layout::before_first(s, c), s, c),
{
    position_is_first(s, c);
    let k = text::position(s, c);
    let t = crate::layout::before_first(s, c);
    if k == s.len() {
        assert(t =~= s);
    } else {
        assert(s[k] == c);
    }
}

/// A colon and two slashes stand in `s` at `i`.
pub open spec fn scheme_at(s: Seq<char>, i: int) -> bool {
    0 <= i && i + 3 <= s.len() && s[i] == ':' && s[i + 1] == '/' && s[i + 2] == '/'
}

proof fn scheme_is_found(s: Seq<char>)
    ensures
        match text::find(s, "://"@) {
            Some(i) => scheme_at(s, i) && forall|j: int| 0 <= j < i ==> !scheme_at(s, j),
            None => forall|j: int| !scheme_at(s, j),
        },
{
    reveal_strlit("://");
    let p = "://"@;
    text::find_is_first(s, p);
    assert forall|j: int| scheme_at(s, j) == text::occurs_at(s, p, j) by {
        if scheme_at(s, j) {
            assert(s.subrange(j, j + 3) =~= p);
        }
        if text::occurs_at(s, p, j) {
            let w = s.subrange(j, j + 3);
            assert(w[0] == s[j] && w[1] == s[j + 1] && w[2] == s[j + 2]);
        }
    }
}

/// A URL with a scheme, whatever the scheme: what follows the last `@` is the host,
/// up to a port or the first slash, and then the path.
pub proof fn urls_with_a_scheme_are_taken_apart(url: Seq<char>, i: int)
    requires
        scheme_at(url, i),
        forall|j: int| 0 <= j < i ==> !scheme_at(url, j),
    ensures
        exists|rest: Seq<char>|
            {
                &&& #[trigger] is_after_last(rest, url.skip(i + 3), '@')
                &&& match host_and_path(url) {
                    (Some(host), path) => if lacks(rest, '/') {
                        host == rest && path.len() == 0
                    } else {
                        exists|k: int|
                            {
                                &&& 0 <= k < rest.len()
                                &&& #[trigger] rest[k] == '/'
                                &&& lacks(rest.take(k), '/')
                                &&& is_before_first(host, rest.take(k), ':')
                                &&& path == rest.skip(k + 1)
                            }
                    },
                    (None, _) => false,
                }
            },
{
    scheme_is_found(url);
    assert(text::find(url, "://"@) == Some(i));
    let after = url.skip(i + 3);
    let rest = crate::layout::after_last(after, '@');
    after_last_is(after, '@');
    position_is_first(rest, '/');
    let k = text::position(rest, '/');
    if k < rest.len() {
        assert(rest[k] == '/');
        before_first_is(rest.take(k), ':');
    } else {
        assert(lacks(rest, '/'));
    }
    assert(is_after_last(rest, url.skip(i + 3), '@'));
}

/// A URL without a scheme: where a colon comes before any slash, what precedes it
/// is the host, without a user, and what follows it the path. Anything else is a
/// path, and names no host.
pub proof fn urls_without_a_scheme_are_taken_apart(url: Seq<char>)
    requires
        forall|j: int| !scheme_at(url, j),
    ensures
        match host_and_path(url) {
            (Some(host), path) => exists|k: int|
                {
                    &&& 0 <= k < url.len()
                    &&& #[trigger] url[k] == ':'
                    &&& lacks(url.take(k), ':')
                    &&& lacks(url.take(k), '/')
                    &&& is_after_last(host, url.take(k), '@')
                    &&& path == url.skip(k + 1)
                },
            (None, path) => path == url && forall|k: int|
                0 <= k < url.len() && #[trigger] url[k] == ':' ==> exists|j: int|
                    0 <= j < k && (#[trigger] url[j] == '/' || url[j] == ':'),
        },
{
    scheme_is_found(url);
    position_is_first(url, ':');
    let k = text::position(url, ':');
    if k < url.len() {
        let head = url.take(k);
        after_last_is(head, '@');
        if head.contains('/') {
            let j = choose|j: int| 0 <= j < head.len() && head[j] == '/';
            assert(url[j] == '/');
            assert forall|m: int| 0 <= m < url.len() && #[trigger] url[m] == ':' implies exists|
                j: int,
            |
                0 <= j < m && (#[trigger] url[j] == '/' || url[j] == ':') by {
                assert(k <= m);
                assert(url[j] == '/');
            }
        } else {
            assert(url[k] == ':');
            assert forall|i: int| 0 <= i < head.len() implies #[trigger] head[i] != '/' by {
                assert(head.contains(head[i]));
            }
        }
    }
}

proof fn slashes_are_trimmed(s: Seq<char>)
    ensures
        trim_slashes(s).len() <= s.len(),
        trim_slashes(s) == s.skip(s.len() - trim_slashes(s).len()),
        forall|i: int| 0 <= i < s.len() - trim_slashes(s).len() ==> #[trigger] s[i] == '/',
        trim_slashes(s).len() > 0 ==> trim_slashes(s)[0] != '/',
    decreases s.len(),
{
    if s.len() > 0 && s[0] == '/' {
        let t = s.drop_first();
        slashes_are_trimmed(t);
        let n = trim_slashes(t).len();
        assert(t.skip(t.len() - n) =~= s.skip(s.len() - n));
        assert forall|i: int| 0 <= i < s.len() - n implies #[trigger] s[i] == '/' by {
            if i > 0 {
                assert(t[i - 1] == s[i]);
            }
        }
    } else {
        assert(s.skip(0) =~= s);
    }
}

/// The name of a repository is what follows the last slash of its path, and its
/// owner is all that precedes that, without slashes at the beginning.
pub proof fn paths_name_owner_and_repo(path: Seq<char>)
    ensures
        ({
            let (owner, repo) = owner_and_repo(path);
            &&& lacks(repo, '/')
            &&& exists|k: int|
                #![trigger lead(path, k)]
                {
                    let p = path.skip(k);
                    &&& 0 <= k <= path.len()
                    &&& lead(path, k)
                    &&& p.len() > 0 ==> p[0] != '/'
                    &&& if lacks(p, '/') {
                        owner.len() == 0 && repo == p
                    } else {
                        p == owner + seq!['/'] + repo
                    }
                }
        }),
{
    slashes_are_trimmed(path);
    let p = trim_slashes(path);
    let k = path.len() - p.len();
    last_position_is_last(p, '/');
    let n = text::last_position(p, '/');
    let (owner, repo) = owner_and_repo(path);
    assert(lead(path, k));
    assert(path.skip(k) == p);
    if n >= 0 {
        assert(p[n] == '/');
        assert(owner + seq!['/'] + repo =~= p);
        assert forall|i: int| 0 <= i < repo.len() implies #[trigger] repo[i] != '/' by {
            assert(repo[i] == p[n + 1 + i]);
        }
        assert(!lacks(p, '/'));
    } else {
        assert(lacks(p, '/'));
    }
}

/// The first `k` characters are slashes.
pub open spec fn lead(path: Seq<char>, k: int) -> bool {
    forall|i: int| 0 <= i < k ==> #[trigger] path[i] == '/'
}

/// `bare` is the URL without white space around it and without one `.git` at its
/// end.
pub open spec fn is_bare(bare: Seq<char>, url: Seq<char>) -> bool {
    let t = text::trim(url);
    ||| t == bare + ".git"@
    ||| t == bare && !".git"@.is_suffix_of(t)
}

/// What `origin` says of the host, the owner and the repository is what its URL
/// says, and no branch.
pub proof fn origin_says_what_its_url_says(url: Seq<char>, bare: Seq<char>)
    requires
        is_bare(bare, url),
    ensures
        origin_context(url).host == host_and_path(bare).0,
        (origin_context(url).owner, origin_context(url).repo) == owner_and_repo(
            host_and_path(bare).1,
        ),
        origin_context(url).branch.len() == 0,
{
    let t = text::trim(url);
    if t == bare + ".git"@ {
        assert(".git"@.is_suffix_of(t)) by {
            assert(t.skip(bare.len() as int) =~= ".git"@);
        }
        assert(t.take(t.len() - ".git"@.len()) =~= bare);
    }
}

/// What is known of a repository: what `origin` says where there is one; else the
/// user owns it and it is called like its directory. The branch is the one given.
pub proof fn repositories_without_origin_are_the_users(
    origin: Option<Seq<char>>,
    user: Seq<char>,
    root: Seq<char>,
    branch: Seq<char>,
    windows: bool,
)
    ensures
        ({
            let c = context(origin, user, root, branch, windows);
            &&& c.branch == branch
            &&& origin is Some ==> c.owner == origin_context(origin->0).owner && c.repo
                == origin_context(origin->0).repo && c.host == origin_context(origin->0).host
            &&& origin is None ==> c.owner == user && c.host is None && c.repo
                == match paths::file_name(root, windows) {
                Some(n) => n,
                None => "repo"@,
            }
        }),
{
}

/// A worktree goes where the second template says, below where the first says,
/// each without white space around it. The second is rendered only once the first
/// is, and the first failure is the result.
pub proof fn worktrees_go_below_their_root(
    vcs: VcsContextView,
    root_template: Option<Seq<char>>,
    path_template: Option<Seq<char>>,
    windows: bool,
    replies: Seq<Result<Seq<char>, Seq<char>>>,
)
    ensures
        ({
            let one = render::rendering(
                match root_template {
                    Some(t) => t,
                    None => DEFAULT_WORKTREE_ROOT@,
                },
                scope(vcs),
                replies,
            );
            let two = render::rendering(
                match path_template {
                    Some(t) => t,
                    None => DEFAULT_WORKTREE_PATH@,
                },
                scope(vcs),
                one.1,
            );
            laying_out(vcs, root_template, path_template, windows, replies) == match one.0 {
                RenderingView::Ask(t) => RenderingView::Ask(t),
                RenderingView::Done(Err(_)) => RenderingView::Done(
                    Err("rendering layout.worktree_root"@),
                ),
                RenderingView::Done(Ok(r)) => match two.0 {
                    RenderingView::Ask(t) => RenderingView::Ask(t),
                    RenderingView::Done(Err(_)) => RenderingView::Done(
                        Err("rendering layout.worktree_path"@),
                    ),
                    RenderingView::Done(Ok(s)) => RenderingView::Done(
                        Ok(paths::join(text::trim(r), text::trim(s), windows)),
                    ),
                },
            }
        }),
        rooting(root_template, replies) == match render::rendering(
            match root_template {
                Some(t) => t,
                None => DEFAULT_WORKTREE_ROOT@,
            },
            Seq::<TableView>::empty(),
            replies,
        ).0 {
            RenderingView::Ask(t) => RenderingView::Ask(t),
            RenderingView::Done(Err(_)) => RenderingView::Done(
                Err("rendering layout.worktree_root"@),
            ),
            RenderingView::Done(Ok(r)) => RenderingView::Done(Ok(text::trim(r))),
        },
{
}

/// A template that is plain needs no reply; any other takes the first reply, and
/// is asked for, with what is in scope, as long as there is none.
pub proof fn replies_are_taken_in_turn(
    src: Seq<char>,
    sc: Seq<TableView>,
    replies: Seq<Result<Seq<char>, Seq<char>>>,
)
    ensures
        match render::plain(src, sc) {
            Some(t) => render::rendering(src, sc, replies) == (RenderingView::Done(Ok(t)), replies),
            None => if replies.len() == 0 {
                match render::rendering(src, sc, replies).0 {
                    RenderingView::Ask(t) => t.source == src && t.scope == sc,
                    _ => false,
                }
            } else {
                render::rendering(src, sc, replies) == (
                    RenderingView::Done(replies[0]),
                    replies.drop_first(),
                )
            },
        },
{
}

} // verus!
