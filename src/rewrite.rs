use vstd::prelude::*;

use crate::classify::{is_prefix_of, starts_with, Contribution};
use crate::commit_hooks::{find_char, opt_view};
use crate::reconcile::{
    attribute, attribute_diff, carry, carry_lines, classes_of, diff_keys, flatten, keys_of,
    stats_match, stats_of, AttributedLine, FileAdditions,
};
use crate::stats::CommitStats;
use crate::working_log::{log_contributions, log_index, CheckpointRecord};

verus! {

/// A change of commit identity.
#[allow(inconsistent_fields)]
pub enum RewriteLogEvent {
    /// A normal commit; `original` is the previous HEAD, if there was one.
    Commit { original: Option<String>, new: String },
    /// `git commit --amend`: `original` is replaced by `new`.
    CommitAmend { original: String, new: String },
    /// The commits of `branch` up to `old` were squashed into `new`.
    Squash { branch: String, new: String, old: String },
}

impl RewriteLogEvent {
    pub fn commit(original: Option<String>, new: String) -> (r: RewriteLogEvent)
        ensures
            r == (RewriteLogEvent::Commit { original, new }),
    {
        RewriteLogEvent::Commit { original, new }
    }

    pub fn commit_amend(original: String, new: String) -> (r: RewriteLogEvent)
        ensures
            r == (RewriteLogEvent::CommitAmend { original, new }),
    {
        RewriteLogEvent::CommitAmend { original, new }
    }

    pub fn squash(branch: String, new: String, old: String) -> (r: RewriteLogEvent)
        ensures
            r == (RewriteLogEvent::Squash { branch, new, old }),
    {
        RewriteLogEvent::Squash { branch, new, old }
    }

    pub open spec fn new_sha_spec(&self) -> String {
        match self {
            RewriteLogEvent::Commit { new, .. } => *new,
            RewriteLogEvent::CommitAmend { new, .. } => *new,
            RewriteLogEvent::Squash { new, .. } => *new,
        }
    }

    /// The commit that the event produces.
    pub fn new_sha(&self) -> (r: String)
        ensures
            r == self.new_sha_spec(),
    {
        match self {
            RewriteLogEvent::Commit { new, .. } => new.clone(),
            RewriteLogEvent::CommitAmend { new, .. } => new.clone(),
            RewriteLogEvent::Squash { new, .. } => new.clone(),
        }
    }
}

/// The outcome of attributing one commit.
pub struct Reconciliation {
    /// Every authoritative added line with its class, in diff order.
    pub lines: Vec<AttributedLine>,
    pub stats: CommitStats,
    /// Whether the working log has been folded into this commit and is to be
    /// cleared.
    pub clears_working_log: bool,
}

/// `r` attributes the lines of `diff` for commit `sha` against `cs`.
pub open spec fn reconciles(
    r: Reconciliation,
    sha: String,
    diff: Seq<FileAdditions>,
    cs: Seq<Contribution>,
) -> bool {
    &&& keys_of(r.lines@) == diff_keys(diff)
    &&& classes_of(r.lines@) == attribute(cs, diff_keys(diff))
    &&& r.stats.commit_sha == sha
    &&& stats_match(r.stats, classes_of(r.lines@))
    &&& r.stats.wf()
}

/// What the working log contributes: nothing when it could not be read.
pub open spec fn readable_log(records: Option<&Vec<CheckpointRecord>>) -> Seq<Contribution> {
    match records {
        Some(v) => log_contributions(v@),
        None => Seq::empty(),
    }
}

fn log_contributions_of(records: Option<&Vec<CheckpointRecord>>) -> (r: Vec<Contribution>)
    ensures
        r@ == readable_log(records),
{
    match records {
        Some(v) => log_index(v),
        None => Vec::new(),
    }
}

fn finish(sha: String, diff: &Vec<FileAdditions>, cs: &Vec<Contribution>, clears: bool) -> (r:
    Reconciliation)
    ensures
        reconciles(r, sha, diff@, cs@),
        r.clears_working_log == clears,
{
    let lines = attribute_diff(cs, diff);
    let stats = stats_of(sha, &lines);
    Reconciliation { lines, stats, clears_working_log: clears }
}

/// Attribution of a normal commit: every added line of `diff` is classified
/// against the working log (`None`: the log could not be read, and every line
/// counts as human). The log is cleared afterwards when it was read.
pub fn reconcile_commit(
    original: Option<String>,
    new_sha: String,
    diff: &Vec<FileAdditions>,
    records: Option<&Vec<CheckpointRecord>>,
) -> (r: Reconciliation)
    ensures
        reconciles(r, new_sha, diff@, readable_log(records)),
        r.clears_working_log == (records is Some),
{
    let cs = log_contributions_of(records);
    finish(new_sha, diff, &cs, records.is_some())
}

/// Attribution of an amended commit: the lines of the new diff are matched
/// against the original commit's persisted attribution together with what the
/// working log captured since.
pub fn reconcile_amend(
    new_sha: String,
    diff: &Vec<FileAdditions>,
    original_lines: &Vec<AttributedLine>,
    records: Option<&Vec<CheckpointRecord>>,
) -> (r: Reconciliation)
    ensures
        reconciles(r, new_sha, diff@, carry(original_lines@) + readable_log(records)),
        r.clears_working_log == (records is Some),
{
    let mut cs = carry_lines(original_lines);
    let mut more = log_contributions_of(records);
    cs.append(&mut more);
    finish(new_sha, diff, &cs, records.is_some())
}

pub open spec fn views_of(commits: Seq<Vec<AttributedLine>>) -> Seq<Seq<AttributedLine>> {
    commits.map_values(|v: Vec<AttributedLine>| v@)
}

/// Attribution of a squash: the lines of the new diff are matched against the
/// union of the squashed commits' persisted attributions. Nothing is written,
/// so the same call serves as a dry run; the working log is left alone.
pub fn reconcile_squash(
    new_sha: String,
    diff: &Vec<FileAdditions>,
    squashed: &Vec<Vec<AttributedLine>>,
) -> (r: Reconciliation)
    ensures
        reconciles(r, new_sha, diff@, carry(flatten(views_of(squashed@)))),
        !r.clears_working_log,
{
    let mut cs: Vec<Contribution> = Vec::new();
    let mut i: usize = 0;
    while i < squashed.len()
        invariant
            i <= squashed@.len(),
            cs@ == carry(flatten(views_of(squashed@.subrange(0, i as int)))),
        decreases squashed@.len() - i,
    {
        let mut more = carry_lines(&squashed[i]);
        let ghost before = cs@;
        cs.append(&mut more);
        proof {
            let prev = views_of(squashed@.subrange(0, i as int));
            let next = views_of(squashed@.subrange(0, i + 1));
            assert(next.drop_last() =~= prev);
            assert(next.last() == squashed@[i as int]@);
            assert(carry(flatten(prev) + squashed@[i as int]@) =~= carry(flatten(prev)) + carry(
                squashed@[i as int]@,
            ));
        }
        i = i + 1;
    }
    assert(squashed@.subrange(0, squashed@.len() as int) =~= squashed@);
    finish(new_sha, diff, &cs, false)
}

/// Attribution for the commit that `event` produces: a normal commit is
/// classified against the working log; an amend against `original_lines`, the
/// original commit's persisted attribution, and the working log; a squash
/// against `squashed`, the persisted attributions of the squashed commits.
pub fn handle_rewrite_log_event(
    event: &RewriteLogEvent,
    diff: &Vec<FileAdditions>,
    records: Option<&Vec<CheckpointRecord>>,
    original_lines: &Vec<AttributedLine>,
    squashed: &Vec<Vec<AttributedLine>>,
) -> (r: Reconciliation)
    ensures
        match event {
            RewriteLogEvent::Commit { new, .. } => reconciles(
                r,
                *new,
                diff@,
                readable_log(records),
            ) && r.clears_working_log == (records is Some),
            RewriteLogEvent::CommitAmend { new, .. } => reconciles(
                r,
                *new,
                diff@,
                carry(original_lines@) + readable_log(records),
            ) && r.clears_working_log == (records is Some),
            RewriteLogEvent::Squash { new, .. } => reconciles(
                r,
                *new,
                diff@,
                carry(flatten(views_of(squashed@))),
            ) && !r.clears_working_log,
        },
{
    match event {
        RewriteLogEvent::Commit { original, new } => reconcile_commit(
            original.clone(),
            new.clone(),
            diff,
            records,
        ),
        RewriteLogEvent::CommitAmend { new, .. } => reconcile_amend(
            new.clone(),
            diff,
            original_lines,
            records,
        ),
        RewriteLogEvent::Squash { new, .. } => reconcile_squash(new.clone(), diff, squashed),
    }
}

/// The line that names `e` at the top of the attribution it produced.
pub open spec fn event_tag_spec(e: RewriteLogEvent) -> Seq<char> {
    match e {
        RewriteLogEvent::Commit { original, new } => "Rewrite-Event: commit "@ + match original {
            Some(o) => o@,
            None => "-"@,
        } + " "@ + new@,
        RewriteLogEvent::CommitAmend { original, new } => "Rewrite-Event: amend "@ + original@
            + " "@ + new@,
        RewriteLogEvent::Squash { branch, new, old } => "Rewrite-Event: squash "@ + branch@ + " "@
            + new@ + " "@ + old@,
    }
}

/// The attribution note that `e` writes: its tag line, then `payload`.
pub open spec fn event_note_spec(e: RewriteLogEvent, payload: Seq<char>) -> Seq<char> {
    event_tag_spec(e) + "\n"@ + payload
}

/// `note` was written for `e`: it opens with the tag line of `e`.
pub open spec fn applied_spec(note: Option<Seq<char>>, e: RewriteLogEvent) -> bool {
    match note {
        Some(n) => is_prefix_of(event_tag_spec(e) + "\n"@, n),
        None => false,
    }
}

/// The attribution note after handling `e`: the existing note, unchanged,
/// when `e` was already applied to it; else the note that `e` writes.
pub open spec fn note_for_event_spec(
    existing: Option<Seq<char>>,
    e: RewriteLogEvent,
    payload: Seq<char>,
) -> Seq<char> {
    if applied_spec(existing, e) {
        existing.unwrap()
    } else {
        event_note_spec(e, payload)
    }
}

/// The tag line of `e`.
pub fn event_tag(e: &RewriteLogEvent) -> (r: String)
    ensures
        r@ == event_tag_spec(*e),
{
    match e {
        RewriteLogEvent::Commit { original, new } => {
            let mut r = String::from_str("Rewrite-Event: commit ");
            match original {
                Some(o) => r.append(o.as_str()),
                None => r.append("-"),
            }
            r.append(" ");
            r.append(new.as_str());
            r
        },
        RewriteLogEvent::CommitAmend { original, new } => {
            let mut r = String::from_str("Rewrite-Event: amend ");
            r.append(original.as_str());
            r.append(" ");
            r.append(new.as_str());
            r
        },
        RewriteLogEvent::Squash { branch, new, old } => {
            let mut r = String::from_str("Rewrite-Event: squash ");
            r.append(branch.as_str());
            r.append(" ");
            r.append(new.as_str());
            r.append(" ");
            r.append(old.as_str());
            r
        },
    }
}

/// Whether the attribution note `note` was already written for `e`.
pub fn already_applied(note: &Option<String>, e: &RewriteLogEvent) -> (r: bool)
    ensures
        r == applied_spec(opt_view(*note), *e),
{
    match note {
        Some(n) => {
            let mut tag = event_tag(e);
            tag.append("\n");
            starts_with(n, &tag)
        },
        None => false,
    }
}

/// The attribution note to store for the commit that `e` produces, given its
/// existing note: replaying an event that was already applied changes
/// nothing.
pub fn note_for_event(existing: &Option<String>, e: &RewriteLogEvent, payload: &String) -> (r:
    String)
    ensures
        r@ == note_for_event_spec(opt_view(*existing), *e, payload@),
{
    if already_applied(existing, e) {
        match existing {
            Some(n) => n.clone(),
            None => String::new(),
        }
    } else {
        let mut r = event_tag(e);
        r.append("\n");
        r.append(payload.as_str());
        r
    }
}

/// Handling an event a second time leaves the attribution note as the first
/// handling left it, whatever attribution was computed the second time.
pub proof fn lemma_replay_is_noop(
    existing: Option<Seq<char>>,
    e: RewriteLogEvent,
    first: Seq<char>,
    second: Seq<char>,
)
    ensures
        note_for_event_spec(Some(note_for_event_spec(existing, e, first)), e, second)
            == note_for_event_spec(existing, e, first),
{
    let tag = event_tag_spec(e) + "\n"@;
    if !applied_spec(existing, e) {
        let n = event_note_spec(e, first);
        assert(n.subrange(0, tag.len() as int) =~= tag);
    }
}

/// The payload of an attribution note: what follows its first line; empty
/// when it has one line.
pub fn note_payload(note: &String) -> (r: String)
    ensures
        r@ == match find_char(note@, '\n', 0) {
            Some(p) => note@.subrange(p + 1, note@.len() as int),
            None => Seq::empty(),
        },
{
    let n = note.as_str().unicode_len();
    let mut i: usize = 0;
    while i < n
        invariant
            n == note@.len(),
            i <= n,
            find_char(note@, '\n', 0) == find_char(note@, '\n', i as int),
        decreases n - i,
    {
        if note.as_str().get_char(i) == '\n' {
            return note.as_str().substring_char(i + 1, n).to_string();
        }
        i = i + 1;
    }
    String::new()
}

} // verus!
