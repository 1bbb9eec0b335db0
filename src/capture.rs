use vstd::prelude::*;

use crate::working_log::{
    append_outcome, AgentIdentity, CheckpointAuthor, CheckpointRecord, FileDelta, LineRange, WorkingLog,
    WorkingLogError,
};

verus! {

/// What an agent integration reports about one run.
pub struct AgentRunResult {
    pub agent_id: AgentIdentity,
    pub is_human: bool,
    pub transcript: Option<String>,
    pub repo_working_dir: Option<String>,
}

impl AgentIdentity {
    pub fn copy(&self) -> (r: AgentIdentity)
        ensures
            r == *self,
    {
        AgentIdentity {
            tool: self.tool.clone(),
            session_id: self.session_id.clone(),
            model: self.model.clone(),
        }
    }
}

/// The author that a checkpoint is tagged with: `Human` when there is no agent
/// result or when it reports human work, the agent's identity otherwise.
pub open spec fn checkpoint_author_spec(result: Option<AgentRunResult>) -> CheckpointAuthor {
    match result {
        None => CheckpointAuthor::Human,
        Some(a) => if a.is_human {
            CheckpointAuthor::Human
        } else {
            CheckpointAuthor::Agent(a.agent_id)
        },
    }
}

/// The author that a checkpoint is tagged with.
pub fn checkpoint_author(result: &Option<AgentRunResult>) -> (r: CheckpointAuthor)
    ensures
        r == checkpoint_author_spec(*result),
{
    match result {
        None => CheckpointAuthor::Human,
        Some(a) => if a.is_human {
            CheckpointAuthor::Human
        } else {
            CheckpointAuthor::Agent(a.agent_id.copy())
        },
    }
}

/// The directory that capture runs against: the one the agent result reports,
/// else the invoking process's `cwd`.
pub fn capture_directory(result: &Option<AgentRunResult>, cwd: &String) -> (r: String)
    ensures
        match result {
            Some(a) => match a.repo_working_dir {
                Some(d) => r == d,
                None => r == *cwd,
            },
            None => r == *cwd,
        },
{
    match result {
        Some(a) => match &a.repo_working_dir {
            Some(d) => d.clone(),
            None => cwd.clone(),
        },
        None => cwd.clone(),
    }
}

/// How a file's lines changed: `old` and `new` share their first `prefix` and
/// last `suffix` lines; between them `removed` was replaced by `added`.
pub struct LineDelta {
    pub prefix: usize,
    pub suffix: usize,
    pub removed: Vec<String>,
    pub added: Vec<String>,
}

/// `d` is the delta from `old` to `new`, with the longest common prefix and,
/// after it, the longest common suffix.
pub open spec fn is_line_delta(old: Seq<String>, new: Seq<String>, d: LineDelta) -> bool {
    let p = d.prefix as int;
    let s = d.suffix as int;
    &&& p + s <= old.len()
    &&& p + s <= new.len()
    &&& forall|i: int| 0 <= i < p ==> #[trigger] old[i]@ == new[i]@
    &&& forall|i: int|
        0 <= i < s ==> #[trigger] old[old.len() - s + i]@ == new[new.len() - s + i]@
    &&& d.removed@ == old.subrange(p, old.len() - s)
    &&& d.added@ == new.subrange(p, new.len() - s)
    &&& (p == old.len() || p == new.len() || old[p]@ != new[p]@)
    &&& (p + s == old.len() || p + s == new.len() || old[old.len() - s - 1]@ != new[new.len() - s
        - 1]@)
}

fn clone_range(v: &Vec<String>, lo: usize, hi: usize) -> (r: Vec<String>)
    requires
        lo <= hi <= v@.len(),
    ensures
        r@ == v@.subrange(lo as int, hi as int),
{
    let mut r: Vec<String> = Vec::new();
    let mut i: usize = lo;
    while i < hi
        invariant
            lo <= i <= hi <= v@.len(),
            r@ == v@.subrange(lo as int, i as int),
        decreases hi - i,
    {
        r.push(v[i].clone());
        assert(r@ =~= v@.subrange(lo as int, i + 1));
        i = i + 1;
    }
    r
}

/// The line delta between two versions of a file.
pub fn line_delta(old: &Vec<String>, new: &Vec<String>) -> (r: LineDelta)
    ensures
        is_line_delta(old@, new@, r),
{
    let ol = old.len();
    let nl = new.len();
    let mut p: usize = 0;
    while p < ol && p < nl && old[p] == new[p]
        invariant
            p <= ol,
            p <= nl,
            ol == old@.len(),
            nl == new@.len(),
            forall|i: int| 0 <= i < p ==> #[trigger] old@[i]@ == new@[i]@,
        decreases ol - p,
    {
        p = p + 1;
    }
    let mut s: usize = 0;
    while p + s < ol && p + s < nl && old[ol - s - 1] == new[nl - s - 1]
        invariant
            p + s <= ol,
            p + s <= nl,
            ol == old@.len(),
            nl == new@.len(),
            forall|i: int| 0 <= i < s ==> #[trigger] old@[ol - s + i]@ == new@[nl - s + i]@,
        decreases ol - p - s,
    {
        assert forall|i: int| 0 <= i < s + 1 implies #[trigger] old@[ol - (s + 1) + i]@
            == new@[nl - (s + 1) + i]@ by {
            if i > 0 {
                assert(old@[ol - s + (i - 1)]@ == new@[nl - s + (i - 1)]@);
            }
        }
        s = s + 1;
    }
    let removed = clone_range(old, p, ol - s);
    let added = clone_range(new, p, nl - s);
    LineDelta { prefix: p, suffix: s, removed, added }
}

/// The ranges that a run of `len` lines at `start` occupies: none when empty.
pub open spec fn ranges_of(start: int, len: int) -> Seq<LineRange> {
    if len == 0 {
        Seq::empty()
    } else {
        seq![LineRange { start: start as u64, len: len as u64 }]
    }
}

fn range_vec(start: usize, len: usize) -> (r: Vec<LineRange>)
    ensures
        r@ == ranges_of(start as int, len as int),
{
    let mut r: Vec<LineRange> = Vec::new();
    if len > 0 {
        r.push(LineRange { start: start as u64, len: len as u64 });
        assert(r@ =~= ranges_of(start as int, len as int));
    } else {
        assert(r@ =~= ranges_of(start as int, len as int));
    }
    r
}

/// One file as it was at the previous checkpoint (or the last commit) and as
/// it is now.
pub struct FileSnapshot {
    pub path: String,
    pub before: Vec<String>,
    pub after: Vec<String>,
}

/// The delta of `f` is `d`: its ranges and added text come from the line delta
/// between the two versions.
pub open spec fn is_file_delta(f: FileSnapshot, d: FileDelta) -> bool {
    exists|ld: LineDelta|
        #[trigger] is_line_delta(f.before@, f.after@, ld) && d.path == f.path && d.added_text@
            == ld.added@ && d.added_ranges@ == ranges_of(ld.prefix as int, ld.added@.len() as int)
            && d.removed_ranges@ == ranges_of(ld.prefix as int, ld.removed@.len() as int)
}

/// The record of one file's change since the previous checkpoint.
pub fn file_delta(f: &FileSnapshot) -> (r: FileDelta)
    ensures
        is_file_delta(*f, r),
{
    let ld = line_delta(&f.before, &f.after);
    let added_ranges = range_vec(ld.prefix, ld.added.len());
    let removed_ranges = range_vec(ld.prefix, ld.removed.len());
    let ghost g = ld;
    let r = FileDelta {
        path: f.path.clone(),
        added_ranges,
        removed_ranges,
        added_text: ld.added,
    };
    assert(is_line_delta(f.before@, f.after@, g));
    r
}

/// The checkpoint record for `files`, one delta per file in the order given.
pub fn checkpoint_record(author: CheckpointAuthor, timestamp: u64, files: &Vec<FileSnapshot>) -> (r:
    CheckpointRecord)
    ensures
        r.author == author,
        r.timestamp == timestamp,
        r.patch@.len() == files@.len(),
        forall|i: int| 0 <= i < files@.len() ==> is_file_delta(files@[i], #[trigger] r.patch@[i]),
{
    let mut patch: Vec<FileDelta> = Vec::new();
    let mut i: usize = 0;
    while i < files.len()
        invariant
            i <= files@.len(),
            patch@.len() == i,
            forall|j: int| 0 <= j < i ==> is_file_delta(files@[j], #[trigger] patch@[j]),
        decreases files@.len() - i,
    {
        let d = file_delta(&files[i]);
        patch.push(d);
        i = i + 1;
    }
    CheckpointRecord { author, timestamp, patch }
}

/// Runs one checkpoint: with `reset`, discards the log; otherwise appends the
/// record of `files`, attributed as `checkpoint_author_spec` says, when the
/// log accepts it (see `append_outcome`).
pub fn checkpoint(
    log: &mut WorkingLog,
    agent: &Option<AgentRunResult>,
    timestamp: u64,
    files: &Vec<FileSnapshot>,
    reset: bool,
) -> (r: Result<(), WorkingLogError>)
    requires
        old(log).wf(),
    ensures
        final(log).wf(),
        final(log).root_spec() == old(log).root_spec(),
        reset ==> r is Ok && final(log).records_spec().len() == 0,
        !reset ==> r == append_outcome(old(log).root_spec(), old(log).records_spec(), timestamp),
        !reset && r is Err ==> final(log).records_spec() == old(log).records_spec(),
        !reset && r is Ok ==> final(log).records_spec().len() == old(log).records_spec().len() + 1
            && final(log).records_spec().drop_last() == old(log).records_spec() && ({
            let rec = final(log).records_spec().last();
            &&& rec.author == checkpoint_author_spec(*agent)
            &&& rec.timestamp == timestamp
            &&& (forall|i: int|
                0 <= i < old(log).records_spec().len() ==> #[trigger] old(
                    log,
                ).records_spec()[i].timestamp <= timestamp)
            &&& rec.patch@.len() == files@.len()
            &&& forall|i: int|
                0 <= i < files@.len() ==> is_file_delta(files@[i], #[trigger] rec.patch@[i])
        }),
{
    if reset {
        log.reset();
        return Ok(());
    }
    let author = checkpoint_author(agent);
    let rec = checkpoint_record(author, timestamp, files);
    let r = log.append(rec);
    proof {
        if r is Ok {
            assert(log.records_spec().drop_last() =~= old(log).records_spec());
            assert forall|i: int| 0 <= i < old(log).records_spec().len() implies #[trigger] old(
                log,
            ).records_spec()[i].timestamp <= timestamp by {
                assert(log.records_spec()[i] == old(log).records_spec()[i]);
                assert(log.records_spec()[old(log).records_spec().len() as int].timestamp == timestamp);
            }
        }
    }
    r
}

} // verus!
