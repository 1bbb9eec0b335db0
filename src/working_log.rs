use vstd::prelude::*;

use crate::classify::{AuthorKind, Contribution, LineClass};

verus! {

/// Identity of the AI agent that produced a set of edits.
pub struct AgentIdentity {
    pub tool: String,
    pub session_id: String,
    pub model: String,
}

/// Who a checkpoint is attributed to.
pub enum CheckpointAuthor {
    Human,
    Agent(AgentIdentity),
}

impl CheckpointAuthor {
    pub open spec fn kind_spec(&self) -> AuthorKind {
        match self {
            CheckpointAuthor::Human => AuthorKind::Human,
            CheckpointAuthor::Agent(_) => AuthorKind::Ai,
        }
    }

    pub fn kind(&self) -> (r: AuthorKind)
        ensures
            r == self.kind_spec(),
    {
        match self {
            CheckpointAuthor::Human => AuthorKind::Human,
            CheckpointAuthor::Agent(_) => AuthorKind::Ai,
        }
    }
}

/// A run of lines `[start, start + len)`, counted from zero.
#[derive(PartialEq, Eq, Structural, Clone, Copy, Debug)]
pub struct LineRange {
    pub start: u64,
    pub len: u64,
}

/// What one checkpoint changed in one file.
pub struct FileDelta {
    pub path: String,
    pub added_ranges: Vec<LineRange>,
    pub removed_ranges: Vec<LineRange>,
    pub added_text: Vec<String>,
}

/// One entry of the working log.
pub struct CheckpointRecord {
    pub author: CheckpointAuthor,
    pub timestamp: u64,
    pub patch: Vec<FileDelta>,
}

#[derive(PartialEq, Eq, Structural, Clone, Copy, Debug)]
pub enum WorkingLogError {
    /// The repository has no working directory.
    BareRepository,
    /// The record is stamped earlier than the last record of the log.
    OutOfOrder,
}

/// The append-only log of checkpoints since the last commit, scoped to one
/// working directory. Records are kept in capture order, the order in which
/// they were appended, and their timestamps never decrease along it.
pub struct WorkingLog {
    root: Option<String>,
    records: Vec<CheckpointRecord>,
}

/// What appending a record stamped `timestamp` gives: refused by a bare
/// repository, refused when the last record is stamped later, else done.
pub open spec fn append_outcome(
    root: Option<String>,
    rs: Seq<CheckpointRecord>,
    timestamp: u64,
) -> Result<(), WorkingLogError> {
    if root is None {
        Err(WorkingLogError::BareRepository)
    } else if rs.len() > 0 && timestamp < rs.last().timestamp {
        Err(WorkingLogError::OutOfOrder)
    } else {
        Ok(())
    }
}

pub open spec fn class_of_kind(k: AuthorKind) -> LineClass {
    match k {
        AuthorKind::Ai => LineClass::Ai,
        AuthorKind::Human => LineClass::Human,
    }
}

/// The added lines of one file delta, as contributions of kind `k`.
pub open spec fn delta_contributions(k: AuthorKind, d: FileDelta) -> Seq<Contribution> {
    Seq::new(
        d.added_text@.len(),
        |m: int|
            Contribution {
                path: d.path,
                text: d.added_text@[m],
                class: class_of_kind(k),
                carried: false,
            },
    )
}

pub open spec fn patch_contributions(k: AuthorKind, ds: Seq<FileDelta>) -> Seq<Contribution>
    decreases ds.len(),
{
    if ds.len() == 0 {
        Seq::empty()
    } else {
        patch_contributions(k, ds.drop_last()) + delta_contributions(k, ds.last())
    }
}

/// Every line that the records added, in capture order, with the kind of the
/// record's author.
pub open spec fn log_contributions(rs: Seq<CheckpointRecord>) -> Seq<Contribution>
    decreases rs.len(),
{
    if rs.len() == 0 {
        Seq::empty()
    } else {
        log_contributions(rs.drop_last()) + patch_contributions(
            rs.last().author.kind_spec(),
            rs.last().patch@,
        )
    }
}

/// Some record added `line` to `path`.
pub open spec fn recorded(rs: Seq<CheckpointRecord>, path: Seq<char>, line: Seq<char>) -> bool {
    exists|i: int, j: int, m: int|
        0 <= i < rs.len() && 0 <= j < rs[i].patch@.len() && 0 <= m
            < rs[i].patch@[j].added_text@.len() && #[trigger] rs[i].patch@[j].path@ == path
            && #[trigger] rs[i].patch@[j].added_text@[m]@ == line
}

/// The timestamps of `rs` never decrease.
pub open spec fn timestamps_ordered(rs: Seq<CheckpointRecord>) -> bool {
    forall|i: int, j: int| 0 <= i <= j < rs.len() ==> #[trigger] rs[i].timestamp <= #[trigger] rs[j].timestamp
}

impl WorkingLog {
    pub open spec fn wf(&self) -> bool {
        timestamps_ordered(self.records_spec())
    }

    pub closed spec fn records_spec(&self) -> Seq<CheckpointRecord> {
        self.records@
    }

    pub closed spec fn root_spec(&self) -> Option<String> {
        self.root
    }

    /// An empty log for the working directory `root`; `None` stands for a
    /// bare repository.
    pub fn new(root: Option<String>) -> (r: WorkingLog)
        ensures
            r.records_spec().len() == 0,
            r.root_spec() == root,
            r.wf(),
    {
        WorkingLog { root, records: Vec::new() }
    }

    /// Appends one record. A bare repository refuses it, and so does a log
    /// whose last record is stamped later; the log then stays as it was.
    pub fn append(&mut self, record: CheckpointRecord) -> (r: Result<(), WorkingLogError>)
        requires
            old(self).wf(),
        ensures
            final(self).wf(),
            final(self).root_spec() == old(self).root_spec(),
            r == append_outcome(old(self).root_spec(), old(self).records_spec(), record.timestamp),
            r is Ok ==> final(self).records_spec() == old(self).records_spec().push(record),
            r is Err ==> final(self).records_spec() == old(self).records_spec(),
    {
        if self.root.is_none() {
            return Err(WorkingLogError::BareRepository);
        }
        let n = self.records.len();
        if n > 0 && record.timestamp < self.records[n - 1].timestamp {
            return Err(WorkingLogError::OutOfOrder);
        }
        let ghost before = self.records@;
        self.records.push(record);
        assert forall|i: int, j: int| 0 <= i <= j < self.records@.len() implies #[trigger] self.records@[i].timestamp
            <= #[trigger] self.records@[j].timestamp by {
            if j == n as int && i < j {
                assert(before[i].timestamp <= before[n - 1].timestamp);
            }
        }
        Ok(())
    }

    /// The timestamp of the last record, if any.
    pub fn last_timestamp(&self) -> (r: Option<u64>)
        ensures
            r == (if self.records_spec().len() == 0 {
                None
            } else {
                Some(self.records_spec().last().timestamp)
            }),
    {
        let n = self.records.len();
        if n == 0 {
            None
        } else {
            Some(self.records[n - 1].timestamp)
        }
    }

    /// The records in capture order.
    pub fn read_all(&self) -> (r: &Vec<CheckpointRecord>)
        ensures
            r@ == self.records_spec(),
    {
        &self.records
    }

    /// Discards every record.
    pub fn reset(&mut self)
        ensures
            final(self).records_spec().len() == 0,
            final(self).wf(),
            final(self).root_spec() == old(self).root_spec(),
    {
        self.records = Vec::new();
    }

    pub fn is_empty(&self) -> (r: bool)
        ensures
            r == (self.records_spec().len() == 0),
    {
        self.records.len() == 0
    }

    /// The index that reconciliation matches against: every added line of
    /// every record, in capture order.
    pub fn contributions(&self) -> (r: Vec<Contribution>)
        ensures
            r@ == log_contributions(self.records_spec()),
    {
        log_index(&self.records)
    }
}

fn class_for(k: AuthorKind) -> (r: LineClass)
    ensures
        r == class_of_kind(k),
{
    match k {
        AuthorKind::Ai => LineClass::Ai,
        AuthorKind::Human => LineClass::Human,
    }
}

/// Every added line of every record of `records`, in capture order.
pub fn log_index(records: &Vec<CheckpointRecord>) -> (r: Vec<Contribution>)
    ensures
        r@ == log_contributions(records@),
{
    let mut r: Vec<Contribution> = Vec::new();
    let mut i: usize = 0;
    while i < records.len()
        invariant
            i <= records@.len(),
            r@ == log_contributions(records@.subrange(0, i as int)),
        decreases records@.len() - i,
    {
        let rec = &records[i];
        let k = rec.author.kind();
        let class = class_for(k);
        assert(records@.subrange(0, i + 1).drop_last() =~= records@.subrange(0, i as int));
        let ghost base = r@;
        let mut j: usize = 0;
        while j < rec.patch.len()
            invariant
                j <= rec.patch@.len(),
                class == class_of_kind(k),
                k == rec.author.kind_spec(),
                r@ == base + patch_contributions(k, rec.patch@.subrange(0, j as int)),
            decreases rec.patch@.len() - j,
        {
            let d = &rec.patch[j];
            assert(rec.patch@.subrange(0, j + 1).drop_last() =~= rec.patch@.subrange(0, j as int));
            let ghost mid = r@;
            let mut m: usize = 0;
            while m < d.added_text.len()
                invariant
                    m <= d.added_text@.len(),
                    class == class_of_kind(k),
                    r@ == mid + delta_contributions(k, *d).subrange(0, m as int),
                decreases d.added_text@.len() - m,
            {
                r.push(
                    Contribution {
                        path: d.path.clone(),
                        text: d.added_text[m].clone(),
                        class,
                        carried: false,
                    },
                );
                assert(r@ =~= mid + delta_contributions(k, *d).subrange(0, m + 1));
                m = m + 1;
            }
            assert(delta_contributions(k, *d).subrange(0, d.added_text@.len() as int)
                =~= delta_contributions(k, *d));
            assert(r@ =~= base + patch_contributions(k, rec.patch@.subrange(0, j + 1)));
            j = j + 1;
        }
        assert(rec.patch@.subrange(0, rec.patch@.len() as int) =~= rec.patch@);
        assert(r@ =~= log_contributions(records@.subrange(0, i + 1)));
        i = i + 1;
    }
    assert(records@.subrange(0, records@.len() as int) =~= records@);
    r
}

proof fn lemma_patch_member(k: AuthorKind, ds: Seq<FileDelta>, n: int)
    requires
        0 <= n < patch_contributions(k, ds).len(),
    ensures
        exists|j: int, m: int|
            0 <= j < ds.len() && 0 <= m < ds[j].added_text@.len() && patch_contributions(k, ds)[n]
                == delta_contributions(k, ds[j])[m],
    decreases ds.len(),
{
    let prev = patch_contributions(k, ds.drop_last());
    if n < prev.len() {
        lemma_patch_member(k, ds.drop_last(), n);
        let (j, m) = choose|j: int, m: int|
            0 <= j < ds.drop_last().len() && 0 <= m < ds.drop_last()[j].added_text@.len()
                && prev[n] == delta_contributions(k, ds.drop_last()[j])[m];
        assert(ds.drop_last()[j] == ds[j]);
    } else {
        assert(patch_contributions(k, ds)[n] == delta_contributions(k, ds.last())[n - prev.len()]);
    }
}

/// Each contribution of the index comes from a line that some record added.
pub proof fn lemma_log_member(rs: Seq<CheckpointRecord>, n: int)
    requires
        0 <= n < log_contributions(rs).len(),
    ensures
        recorded(rs, log_contributions(rs)[n].path@, log_contributions(rs)[n].text@),
        !log_contributions(rs)[n].carried,
    decreases rs.len(),
{
    let prev = log_contributions(rs.drop_last());
    if n < prev.len() {
        lemma_log_member(rs.drop_last(), n);
        let c = prev[n];
        let (i, j, m) = choose|i: int, j: int, m: int|
            0 <= i < rs.drop_last().len() && 0 <= j < rs.drop_last()[i].patch@.len() && 0 <= m
                < rs.drop_last()[i].patch@[j].added_text@.len() && #[trigger] rs.drop_last()[i].patch@[j].path@
                == c.path@ && #[trigger] rs.drop_last()[i].patch@[j].added_text@[m]@ == c.text@;
        assert(rs.drop_last()[i] == rs[i]);
        assert(log_contributions(rs)[n] == c);
    } else {
        let last = rs.last();
        let k = last.author.kind_spec();
        lemma_patch_member(k, last.patch@, n - prev.len());
        let (j, m) = choose|j: int, m: int|
            0 <= j < last.patch@.len() && 0 <= m < last.patch@[j].added_text@.len()
                && patch_contributions(k, last.patch@)[n - prev.len()] == delta_contributions(
                k,
                last.patch@[j],
            )[m];
        assert(log_contributions(rs)[n] == patch_contributions(k, last.patch@)[n - prev.len()]);
        assert(rs[rs.len() - 1] == last);
        assert(rs[rs.len() - 1].patch@[j].path@ == log_contributions(rs)[n].path@);
        assert(rs[rs.len() - 1].patch@[j].added_text@[m]@ == log_contributions(rs)[n].text@);
    }
}

} // verus!
