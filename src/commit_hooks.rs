use vstd::prelude::*;

use crate::classify::{is_prefix_of, starts_with};
use crate::rewrite::RewriteLogEvent;

verus! {

/// The characters with the Unicode `White_Space` property, which
/// `char::is_whitespace` and `str::trim` go by.
pub open spec fn is_white_space(c: char) -> bool {
    ('\u{9}' <= c && c <= '\u{d}') || c == ' ' || c == '\u{85}' || c == '\u{a0}' || c
        == '\u{1680}' || ('\u{2000}' <= c && c <= '\u{200a}') || c == '\u{2028}' || c
        == '\u{2029}' || c == '\u{202f}' || c == '\u{205f}' || c == '\u{3000}'
}

fn white_space(c: char) -> (r: bool)
    ensures
        r == is_white_space(c),
{
    ('\u{9}' <= c && c <= '\u{d}') || c == ' ' || c == '\u{85}' || c == '\u{a0}' || c
        == '\u{1680}' || ('\u{2000}' <= c && c <= '\u{200a}') || c == '\u{2028}' || c
        == '\u{2029}' || c == '\u{202f}' || c == '\u{205f}' || c == '\u{3000}'
}

/// Where the leading white space of `s` ends, looking from `i`.
pub open spec fn lead_end(s: Seq<char>, i: int) -> int
    decreases s.len() - i,
{
    if i < 0 || i >= s.len() || !is_white_space(s[i]) {
        i
    } else {
        lead_end(s, i + 1)
    }
}

/// Where the trailing white space of `s` begins, looking down from `j` to no
/// lower than `lo`.
pub open spec fn trail_start(s: Seq<char>, lo: int, j: int) -> int
    decreases j - lo,
{
    if j <= lo || j > s.len() || !is_white_space(s[j - 1]) {
        j
    } else {
        trail_start(s, lo, j - 1)
    }
}

/// `s` without leading and trailing white space.
pub open spec fn trimmed(s: Seq<char>) -> Seq<char> {
    let a = lead_end(s, 0);
    s.subrange(a, trail_start(s, a, s.len() as int))
}

/// `s` without leading and trailing white space.
fn trim_string(s: &str) -> (r: String)
    ensures
        r@ == trimmed(s@),
{
    let n = s.unicode_len();
    let mut a: usize = 0;
    while a < n && white_space(s.get_char(a))
        invariant
            n == s@.len(),
            a <= n,
            lead_end(s@, 0) == lead_end(s@, a as int),
        decreases n - a,
    {
        a = a + 1;
    }
    let mut b: usize = n;
    while b > a && white_space(s.get_char(b - 1))
        invariant
            n == s@.len(),
            a <= b <= n,
            a == lead_end(s@, 0),
            trail_start(s@, a as int, n as int) == trail_start(s@, a as int, b as int),
        decreases b - a,
    {
        b = b - 1;
    }
    s.substring_char(a, b).to_string()
}

pub open spec fn author_eq_flag() -> Seq<char> {
    "--author="@
}

pub open spec fn author_flag() -> Seq<char> {
    "--author"@
}

/// The author given on a `git commit` command line, looking from `args[i]`
/// on: the first `--author=<value>`, or `--author <value>` with the value as
/// the next argument.
pub open spec fn author_from(args: Seq<String>, i: int) -> Option<Seq<char>>
    decreases args.len() - i,
{
    if i < 0 || i >= args.len() {
        None
    } else if is_prefix_of(author_eq_flag(), args[i]@) {
        Some(args[i]@.subrange(author_eq_flag().len() as int, args[i]@.len() as int))
    } else if args[i]@ == author_flag() && i + 1 < args.len() {
        Some(args[i + 1]@)
    } else {
        author_from(args, i + 1)
    }
}

pub open spec fn opt_view(o: Option<String>) -> Option<Seq<char>> {
    match o {
        Some(s) => Some(s@),
        None => None,
    }
}

/// The value of the `--author` option of a `git commit` command line, if any.
pub fn extract_author_from_args(args: &Vec<String>) -> (r: Option<String>)
    ensures
        opt_view(r) == author_from(args@, 0),
{
    let eq_flag = String::from_str("--author=");
    let flag = String::from_str("--author");
    proof {
        reveal_strlit("--author=");
    }
    let mut i: usize = 0;
    while i < args.len()
        invariant
            i <= args@.len(),
            eq_flag@ == author_eq_flag(),
            flag@ == author_flag(),
            eq_flag@.len() == 9,
            author_from(args@, 0) == author_from(args@, i as int),
        decreases args@.len() - i,
    {
        let arg = &args[i];
        if starts_with(arg, &eq_flag) {
            let n = arg.as_str().unicode_len();
            return Some(arg.as_str().substring_char(9, n).to_string());
        }
        if *arg == flag && i + 1 < args.len() {
            return Some(args[i + 1].clone());
        }
        i = i + 1;
    }
    None
}

/// Whether `flag` is one of `args`.
pub fn has_flag(args: &Vec<String>, flag: &String) -> (r: bool)
    ensures
        r == exists|i: int| 0 <= i < args@.len() && #[trigger] args@[i]@ == flag@,
{
    let mut i: usize = 0;
    while i < args.len()
        invariant
            i <= args@.len(),
            forall|j: int| 0 <= j < i ==> #[trigger] args@[j]@ != flag@,
        decreases args@.len() - i,
    {
        if args[i] == *flag {
            return true;
        }
        i = i + 1;
    }
    false
}

/// `s` trimmed, when that leaves something.
pub open spec fn nonblank(s: Option<String>) -> Option<Seq<char>> {
    match s {
        Some(v) => if trimmed(v@).len() > 0 {
            Some(trimmed(v@))
        } else {
            None
        },
        None => None,
    }
}

pub open spec fn or_else(a: Option<Seq<char>>, b: Option<Seq<char>>) -> Option<Seq<char>> {
    if a is Some {
        a
    } else {
        b
    }
}

/// Position of the first `c` in `s` at or after `i`.
pub open spec fn find_char(s: Seq<char>, c: char, i: int) -> Option<int>
    decreases s.len() - i,
{
    if i < 0 || i >= s.len() {
        None
    } else if s[i] == c {
        Some(i)
    } else {
        find_char(s, c, i + 1)
    }
}

/// The sources of a commit's author, in the order they are consulted.
pub struct AuthorSources {
    /// What the `--author` option resolved to, if it was given and resolved.
    pub resolved_option: Option<String>,
    /// `GIT_AUTHOR_NAME`.
    pub env_name: Option<String>,
    /// `user.name` of the configuration.
    pub config_name: Option<String>,
    /// `GIT_AUTHOR_EMAIL`.
    pub env_email: Option<String>,
    /// `user.email` of the configuration.
    pub config_email: Option<String>,
    /// `EMAIL`, the fallback for both name and email.
    pub env_fallback: Option<String>,
}

/// The name that `EMAIL` yields: its text before the first `@`, when that is
/// not empty (taken from the untrimmed value).
pub open spec fn fallback_name(e: Seq<char>) -> Option<Seq<char>> {
    match find_char(e, '@', 0) {
        Some(p) => if p > 0 {
            Some(e.subrange(0, p))
        } else {
            None
        },
        None => None,
    }
}

/// `name <email>`, or whichever of the two is known, or `unknown`.
pub open spec fn format_author(name: Option<Seq<char>>, email: Option<Seq<char>>) -> Seq<char> {
    match (name, email) {
        (Some(n), Some(e)) => n + " <"@ + e + ">"@,
        (Some(n), None) => n,
        (None, Some(e)) => e,
        (None, None) => "unknown"@,
    }
}

/// The default author of a commit: the resolved `--author` value when it is
/// not blank; otherwise name and email by precedence (environment, then
/// configuration, then `EMAIL`).
pub open spec fn default_author_spec(src: AuthorSources) -> Seq<char> {
    match nonblank(src.resolved_option) {
        Some(a) => a,
        None => {
            let name0 = or_else(nonblank(src.env_name), nonblank(src.config_name));
            let email0 = or_else(nonblank(src.env_email), nonblank(src.config_email));
            let fallback = src.env_fallback;
            let use_fallback = (name0 is None || email0 is None) && nonblank(fallback) is Some;
            let e = fallback.unwrap()@;
            let name = if use_fallback && name0 is None {
                fallback_name(e)
            } else {
                name0
            };
            let email = if use_fallback && email0 is None {
                nonblank(fallback)
            } else {
                email0
            };
            format_author(name, email)
        },
    }
}

fn nonblank_of(s: &Option<String>) -> (r: Option<String>)
    ensures
        opt_view(r) == nonblank(*s),
{
    match s {
        Some(v) => {
            let t = trim_string(v.as_str());
            if t.as_str().unicode_len() > 0 {
                Some(t)
            } else {
                None
            }
        },
        None => None,
    }
}

fn find_at(s: &String) -> (r: Option<usize>)
    ensures
        match r {
            Some(p) => find_char(s@, '@', 0) == Some(p as int) && p < s@.len(),
            None => find_char(s@, '@', 0) is None,
        },
{
    let n = s.as_str().unicode_len();
    let mut i: usize = 0;
    while i < n
        invariant
            n == s@.len(),
            i <= n,
            find_char(s@, '@', 0) == find_char(s@, '@', i as int),
        decreases n - i,
    {
        if s.as_str().get_char(i) == '@' {
            return Some(i);
        }
        i = i + 1;
    }
    None
}

/// The default author of a commit, from its sources in precedence order.
pub fn get_commit_default_author(src: &AuthorSources) -> (r: String)
    ensures
        r@ == default_author_spec(*src),
{
    if let Some(a) = nonblank_of(&src.resolved_option) {
        return a;
    }
    let mut name = nonblank_of(&src.env_name);
    if name.is_none() {
        name = nonblank_of(&src.config_name);
    }
    let mut email = nonblank_of(&src.env_email);
    if email.is_none() {
        email = nonblank_of(&src.config_email);
    }
    if name.is_none() || email.is_none() {
        if let Some(e) = &src.env_fallback {
            let trimmed_e = nonblank_of(&src.env_fallback);
            if trimmed_e.is_some() {
                if name.is_none() {
                    match find_at(e) {
                        Some(p) => if p > 0 {
                            name = Some(e.as_str().substring_char(0, p).to_string());
                        },
                        None => {},
                    }
                }
                if email.is_none() {
                    email = trimmed_e;
                }
            }
        }
    }
    proof {
        reveal_strlit(" <");
        reveal_strlit(">");
        reveal_strlit("unknown");
    }
    match (name, email) {
        (Some(n), Some(e)) => {
            let mut r = n;
            r.append(" <");
            r.append(e.as_str());
            r.append(">");
            r
        },
        (Some(n), None) => n,
        (None, Some(e)) => e,
        (None, None) => String::from_str("unknown"),
    }
}

/// The rewrite event that a finished `git commit` produces: none when no new
/// HEAD landed; an amend when `--amend` was given and there was a previous
/// HEAD; a normal commit otherwise.
pub fn commit_post_command_event(
    amend: bool,
    original: Option<String>,
    new_sha: Option<String>,
) -> (r: Option<RewriteLogEvent>)
    ensures
        match new_sha {
            None => r is None,
            Some(n) => match original {
                Some(o) => if amend {
                    r == Some(RewriteLogEvent::CommitAmend { original: o, new: n })
                } else {
                    r == Some(RewriteLogEvent::Commit { original: Some(o), new: n })
                },
                None => r == Some(RewriteLogEvent::Commit { original: None, new: n }),
            },
        },
{
    match new_sha {
        None => None,
        Some(n) => match original {
            Some(o) => if amend {
                Some(RewriteLogEvent::commit_amend(o, n))
            } else {
                Some(RewriteLogEvent::commit(Some(o), n))
            },
            None => Some(RewriteLogEvent::commit(None, n)),
        },
    }
}

/// One commit of a history listing.
pub struct CommitEntry {
    pub sha: String,
    pub subject: String,
}

/// The commits of a listing whose lines alternate full SHA and subject,
/// looking from line `i` on: a line that trims to nothing is skipped; a
/// missing subject at the end is empty.
pub open spec fn log_entries(lines: Seq<String>, i: int) -> Seq<(Seq<char>, Seq<char>)>
    decreases lines.len() + 1 - i,
{
    if i < 0 || i >= lines.len() {
        Seq::empty()
    } else if trimmed(lines[i]@).len() == 0 {
        log_entries(lines, i + 1)
    } else {
        let subject = if i + 1 < lines.len() {
            trimmed(lines[i + 1]@)
        } else {
            Seq::empty()
        };
        seq![(trimmed(lines[i]@), subject)] + log_entries(lines, i + 2)
    }
}

pub open spec fn entry_views(es: Seq<CommitEntry>) -> Seq<(Seq<char>, Seq<char>)> {
    es.map_values(|e: CommitEntry| (e.sha@, e.subject@))
}

/// Parses a history listing of alternating SHA and subject lines.
pub fn parse_commit_log(lines: &Vec<String>) -> (r: Vec<CommitEntry>)
    ensures
        entry_views(r@) == log_entries(lines@, 0),
{
    let mut r: Vec<CommitEntry> = Vec::new();
    let mut i: usize = 0;
    while i < lines.len()
        invariant
            i <= lines@.len() + 1,
            entry_views(r@) + log_entries(lines@, i as int) == log_entries(lines@, 0),
        decreases lines@.len() + 1 - i,
    {
        let sha = trim_string(lines[i].as_str());
        if sha.as_str().unicode_len() == 0 {
            i = i + 1;
        } else {
            let has_subject = i + 1 < lines.len();
            let subject = if has_subject {
                trim_string(lines[i + 1].as_str())
            } else {
                String::new()
            };
            let ghost before = r@;
            r.push(CommitEntry { sha, subject });
            assert(entry_views(r@) =~= entry_views(before) + seq![(sha@, subject@)]);
            assert(entry_views(r@) + log_entries(lines@, i + 2) =~= entry_views(before)
                + log_entries(lines@, i as int));
            if has_subject {
                i = i + 2;
            } else {
                assert(log_entries(lines@, i + 2) =~= log_entries(lines@, i + 1));
                i = i + 1;
            }
        }
    }
    assert(log_entries(lines@, i as int) =~= Seq::<(Seq<char>, Seq<char>)>::empty());
    assert(entry_views(r@) =~= log_entries(lines@, 0));
    r
}

/// The first eight characters of a SHA, or all of it when shorter.
pub fn short_sha(sha: &String) -> (r: String)
    ensures
        r@ == sha@.subrange(0, if sha@.len() < 8 {
            sha@.len() as int
        } else {
            8
        }),
{
    let n = sha.as_str().unicode_len();
    let k: usize = if n < 8 {
        n
    } else {
        8
    };
    sha.as_str().substring_char(0, k).to_string()
}

} // verus!
