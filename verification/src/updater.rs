//! Updates of the program itself: how often to look for a newer release, and
//! what to tell the user.

use crate::config::AutoUpdateMode;
use crate::paths;
use crate::strings;
use crate::text;
use crate::user_dirs;
use vstd::prelude::*;

verus! {

/// The account that releases are published under.
pub const OWNER: &'static str = "yukimemi";

/// The name of the repository and of the program.
pub const NAME: &'static str = "renri";

/// A release.
#[derive(Debug, Clone, PartialEq, Eq)]
pub struct Release {
    pub tag_name: String,
    pub html_url: String,
}

/// What a [`Release`] stands for.
pub struct ReleaseView {
    pub tag_name: Seq<char>,
    pub html_url: Seq<char>,
}

impl DeepView for Release {
    type V = ReleaseView;

    open spec fn deep_view(&self) -> ReleaseView {
        ReleaseView { tag_name: self.tag_name@, html_url: self.html_url@ }
    }
}

/// `kaishin::default_interval`, in seconds: a day.
#[verifier::external_body]
fn kaishin_default_interval() -> (r: u64)
    ensures
        r == 86400,
{
    kaishin::default_interval().as_secs()
}

/// Seconds between two looks for a newer release, unless configured.
pub fn default_interval() -> (r: u64)
    ensures
        r == 86400,
{
    kaishin_default_interval()
}

/// How many of the characters are decimal digits.
pub open spec fn digits(s: Seq<char>) -> nat
    decreases s.len(),
{
    if s.len() == 0 {
        0
    } else {
        digits(s.drop_last()) + if '0' <= s.last() <= '9' {
            1nat
        } else {
            0nat
        }
    }
}

/// How many of the characters are decimal digits.
fn count_digits(s: &str) -> (r: usize)
    ensures
        r == digits(s@),
{
    let v = strings::chars(s);
    let mut n: usize = 0;
    let mut i: usize = 0;
    while i < v.len()
        invariant
            i <= v.len(),
            n <= i,
            v@ == s@,
            n == digits(s@.take(i as int)),
        decreases v.len() - i,
    {
        proof {
            assert(s@.take(i + 1).drop_last() =~= s@.take(i as int));
        }
        if '0' <= v[i] && v[i] <= '9' {
            n = n + 1;
        }
        i = i + 1;
    }
    proof {
        assert(s@.take(i as int) =~= s@);
    }
    n
}

/// The number that `s` ends with, white space aside, has a digit other than zero.
pub open spec fn has_begun(s: Seq<char>) -> bool
    decreases s.len(),
{
    if s.len() == 0 {
        false
    } else if '1' <= s.last() <= '9' {
        true
    } else if s.last() == '0' || text::is_white(s.last()) {
        has_begun(s.drop_last())
    } else {
        false
    }
}

/// How many of the characters are decimal digits other than the zeros that a
/// number begins with. White space does not end a number.
pub open spec fn significant(s: Seq<char>) -> nat
    decreases s.len(),
{
    if s.len() == 0 {
        0
    } else {
        significant(s.drop_last()) + if '0' <= s.last() <= '9' && has_begun(s) {
            1nat
        } else {
            0nat
        }
    }
}

/// How many of the characters are decimal digits other than the zeros that a
/// number begins with.
fn count_significant(s: &str) -> (r: usize)
    ensures
        r == significant(s@),
{
    let v = strings::chars(s);
    let mut n: usize = 0;
    let mut begun = false;
    let mut i: usize = 0;
    while i < v.len()
        invariant
            i <= v.len(),
            n <= i,
            v@ == s@,
            n == significant(s@.take(i as int)),
            begun == has_begun(s@.take(i as int)),
        decreases v.len() - i,
    {
        proof {
            assert(s@.take(i + 1).drop_last() =~= s@.take(i as int));
        }
        let c = v[i];
        if '1' <= c && c <= '9' {
            begun = true;
        } else if c != '0' && !strings::is_white(c) {
            begun = false;
        }
        if begun && '0' <= c && c <= '9' {
            n = n + 1;
        }
        i = i + 1;
    }
    proof {
        assert(s@.take(i as int) =~= s@);
    }
    n
}

/// How many digits a time span may be written with in any case.
pub const MAX_DIGITS: usize = 15;

/// How many significant digits a time span may be written with in any case.
pub const MAX_SIGNIFICANT: usize = 13;

/// The text has few enough digits, or few enough that are significant, to be read
/// as a time span.
pub open spec fn is_countable(s: Seq<char>) -> bool {
    digits(s) <= MAX_DIGITS || significant(s) <= MAX_SIGNIFICANT
}

/// The whole seconds of the time span that a text such as `24h` or `1d` gives;
/// none where it gives none.
pub uninterp spec fn seconds(s: Seq<char>) -> Option<u64>;

/// `kaishin::parse_interval`, in whole seconds: reads a time span, which depends
/// on the text alone. It panics where a span of the most seconds that can be
/// counted gains another one by a full second of nanoseconds. Such a second takes
/// two significant digits, as in `0.5s 0.5s`, or four digits in all, and the other
/// eleven do not reach that count, not even as years.
#[verifier::external_body]
fn kaishin_parse_interval(s: &str) -> (r: Option<u64>)
    requires
        is_countable(s@),
    ensures
        r == seconds(s@),
{
    kaishin::parse_interval(s).ok().map(|d| d.as_secs())
}

/// The interval that was read, or else the default.
pub fn interval_or_default(read: Option<u64>) -> (r: u64)
    ensures
        r == match read {
            Some(s) => s,
            None => 86400,
        },
{
    match read {
        Some(s) => s,
        None => default_interval(),
    }
}

/// Seconds between two looks for a newer release: what is configured, where it
/// can be read. What has too many digits to be [countable](is_countable) cannot.
pub fn check_interval(configured: Option<&str>) -> (r: u64)
    ensures
        r == match configured {
            Some(s) => if is_countable(s@) {
                match seconds(s@) {
                    Some(n) => n,
                    None => 86400,
                }
            } else {
                86400
            },
            None => 86400,
        },
{
    match configured {
        Some(s) => if count_digits(s) <= MAX_DIGITS || count_significant(s) <= MAX_SIGNIFICANT {
            interval_or_default(kaishin_parse_interval(s))
        } else {
            interval_or_default(None)
        },
        None => interval_or_default(None),
    }
}

/// `s` without the letters `v` that it begins with.
pub open spec fn without_v(s: Seq<char>) -> Seq<char>
    decreases s.len(),
{
    if s.len() > 0 && s[0] == 'v' {
        without_v(s.drop_first())
    } else {
        s
    }
}

/// What the user is told of a newer release.
pub open spec fn banner(bin: Seq<char>, version: Seq<char>, latest: ReleaseView) -> Seq<char> {
    let line = "\u{2699} "@ + bin + " "@ + without_v(latest.tag_name) + " available (current "@
        + version + ") \u{2014} run `"@ + bin + " self-update` to upgrade"@;
    if latest.html_url.len() > 0 {
        line + "\n  release notes: "@ + latest.html_url
    } else {
        line
    }
}

/// `kaishin::format_update_banner`: names the program, the release without the
/// `v` of its tag, the version that runs and the command to upgrade, and on a
/// line of its own the page of the release, if it has one.
#[verifier::external_body]
fn kaishin_banner(owner: &str, repo: &str, bin: &str, version: &str, latest: &Release) -> (r: String)
    ensures
        r@ == banner(bin@, version@, latest.deep_view()),
{
    kaishin::format_update_banner(
        &kaishin::KaishinOptions::new(owner, repo, bin, version),
        &kaishin::LatestRelease {
            tag_name: latest.tag_name.clone(),
            html_url: latest.html_url.clone(),
        },
    )
}

/// Where the time of the last look is kept, below the cache directory.
pub open spec fn state_file(cache: Seq<char>, windows: bool) -> Seq<char> {
    paths::join(paths::join(cache, "renri"@, windows), "last_update_check.json"@, windows)
}

/// Where the time of the last look is kept, below the cache directory.
pub fn state_path_in(cache: &str, windows: bool) -> (r: String)
    ensures
        r@ == state_file(cache@, windows),
{
    let dir = paths::joined(cache, "renri", windows);
    paths::joined(dir.as_str(), "last_update_check.json", windows)
}

/// Where the time of the last look is kept; none where the user has no cache
/// directory.
pub fn cache_state_path(windows: bool) -> (r: Option<String>)
    ensures
        r is Some ==> exists|cache: Seq<char>| r->0@ == #[trigger] state_file(cache, windows),
{
    let dir = user_dirs::cache();
    let cache: Option<&str> = match &dir {
        Some(d) => Some(d.as_str()),
        None => None,
    };
    state_path_for(cache, windows)
}

/// Where the time of the last look is kept, given the user's cache directory;
/// none without one, and only then.
pub fn state_path_for(cache: Option<&str>, windows: bool) -> (r: Option<String>)
    ensures
        r.deep_view() == match cache {
            Some(c) => Some(state_file(c@, windows)),
            None => None,
        },
{
    match cache {
        Some(c) => Some(state_path_in(c, windows)),
        None => None,
    }
}

/// How the program looks for newer releases.
#[derive(Debug, Clone, PartialEq, Eq)]
pub struct Checker {
    /// The version that runs.
    pub version: String,
    /// Seconds between two looks.
    pub interval: u64,
    /// Where the time of the last look is kept, if not where it is by default.
    pub state_path: Option<String>,
}

impl Checker {
    /// Looks once a day, and keeps the time of the last look in the cache
    /// directory.
    pub fn new(version: &str, windows: bool) -> (r: Result<Checker, String>)
        ensures
            r is Ok,
            r->Ok_0.version@ == version@,
            r->Ok_0.interval == 86400,
            r->Ok_0.state_path is Some ==> exists|cache: Seq<char>|
                r->Ok_0.state_path->0@ == #[trigger] state_file(cache, windows),
    {
        Ok(
            Checker {
                version: version.to_string(),
                interval: default_interval(),
                state_path: cache_state_path(windows),
            },
        )
    }

    /// Looks every `interval` seconds instead.
    pub fn interval(self, interval: u64) -> (r: Checker)
        ensures
            r == (Checker { interval, ..self }),
    {
        Checker { version: self.version, interval, state_path: self.state_path }
    }

    /// What the user is told of a newer release.
    pub fn format_banner(&self, latest: &Release) -> (r: String)
        ensures
            r@ == banner(NAME@, self.version@, latest.deep_view()),
    {
        kaishin_banner(OWNER, NAME, NAME, self.version.as_str(), latest)
    }
}

/// What to do in the background while a command runs.
#[derive(Debug, PartialEq, Eq)]
pub enum Background {
    Nothing,
    /// Tell of a release that was found before.
    Tell(Release),
    /// Look for a release, with what was found before at hand.
    Look(Option<Release>),
    /// Install a newer release, if there is one.
    Install,
}

/// What to do in the background. Neither a command that has to do with updates
/// itself, nor one under the kill switch, does anything. `due` says that the
/// last look is long enough ago, and `cached` is what was found before.
pub fn background(
    mode: AutoUpdateMode,
    quiet_command: bool,
    switched_off: bool,
    due: bool,
    cached: Option<Release>,
) -> (r: Background)
    ensures
        r == if quiet_command || switched_off || mode == AutoUpdateMode::Off {
            Background::Nothing
        } else if mode == AutoUpdateMode::Install {
            Background::Install
        } else if due {
            Background::Look(cached)
        } else {
            match cached {
                Some(latest) => Background::Tell(latest),
                None => Background::Nothing,
            }
        },
{
    if quiet_command || switched_off {
        return Background::Nothing;
    }
    match mode {
        AutoUpdateMode::Off => Background::Nothing,
        AutoUpdateMode::Install => Background::Install,
        AutoUpdateMode::Notify => {
            if due {
                return Background::Look(cached);
            }
            match cached {
                Some(latest) => Background::Tell(latest),
                None => Background::Nothing,
            }
        },
    }
}

/// What came of a look.
#[derive(Debug, PartialEq, Eq)]
pub enum Looked {
    /// A newer release.
    Found(Release),
    /// There is none.
    UpToDate,
    /// It failed, or took too long.
    Failed,
}

/// Which release to tell of: the one found, and one found before only where the
/// look failed.
pub fn to_tell(looked: Looked, cached: Option<Release>) -> (r: Option<Release>)
    ensures
        r == match looked {
            Looked::Found(latest) => Some(latest),
            Looked::UpToDate => None,
            Looked::Failed => cached,
        },
{
    match looked {
        Looked::Found(latest) => Some(latest),
        Looked::UpToDate => None,
        Looked::Failed => cached,
    }
}

} // verus!
