use vstd::prelude::*;

verus! {

/// Attribution summary of one commit.
pub struct CommitStats {
    pub commit_sha: String,
    pub git_diff_added_lines: u64,
    pub ai_additions: u64,
    pub human_additions: u64,
    pub mixed_additions: u64,
}

impl CommitStats {
    /// Every counted line lands in exactly one bucket.
    pub open spec fn wf(&self) -> bool {
        self.ai_additions + self.human_additions + self.mixed_additions
            == self.git_diff_added_lines
    }
}

/// The share `part / whole` as a whole percentage, rounded half up; zero when
/// `whole` is zero.
pub open spec fn percentage_spec(part: int, whole: int) -> int {
    if whole <= 0 {
        0
    } else {
        (200 * part + whole) / (2 * whole)
    }
}

/// Whole percentage of `part` in `whole`, rounded half up, guarded against a
/// zero `whole`.
pub fn percentage(part: u64, whole: u64) -> (r: u64)
    requires
        part <= whole,
    ensures
        r as int == percentage_spec(part as int, whole as int),
        r <= 100,
{
    if whole == 0 {
        0
    } else {
        let num: u128 = 200u128 * (part as u128) + (whole as u128);
        let den: u128 = 2u128 * (whole as u128);
        let q: u128 = num / den;
        proof {
            assert(q <= 100) by (nonlinear_arith)
                requires q == num / den, num == 200 * part + whole, den == 2 * whole, part <= whole, whole > 0;
        }
        q as u64
    }
}

impl CommitStats {
    /// Share of AI lines in the commit, as a whole percentage rounded half up.
    pub fn ai_percentage(&self) -> (r: u64)
        requires
            self.wf(),
        ensures
            r as int == percentage_spec(self.ai_additions as int, self.git_diff_added_lines as int),
    {
        percentage(self.ai_additions, self.git_diff_added_lines)
    }

    /// Share of human lines in the commit, as a whole percentage rounded half up.
    pub fn human_percentage(&self) -> (r: u64)
        requires
            self.wf(),
        ensures
            r as int == percentage_spec(
                self.human_additions as int,
                self.git_diff_added_lines as int,
            ),
    {
        percentage(self.human_additions, self.git_diff_added_lines)
    }
}

/// Totals over a range of commits.
#[derive(PartialEq, Eq, Structural, Clone, Copy, Debug)]
pub struct AggregateStats {
    pub total_commits: u64,
    pub commits_with_ai: u64,
    pub total_ai_lines: u64,
    pub total_human_lines: u64,
    pub total_mixed_lines: u64,
    pub total_additions: u64,
    pub ai_percentage: u64,
    pub human_percentage: u64,
}

pub open spec fn sum_ai(s: Seq<CommitStats>) -> nat
    decreases s.len(),
{
    if s.len() == 0 {
        0
    } else {
        sum_ai(s.drop_last()) + s.last().ai_additions as nat
    }
}

pub open spec fn sum_human(s: Seq<CommitStats>) -> nat
    decreases s.len(),
{
    if s.len() == 0 {
        0
    } else {
        sum_human(s.drop_last()) + s.last().human_additions as nat
    }
}

pub open spec fn sum_mixed(s: Seq<CommitStats>) -> nat
    decreases s.len(),
{
    if s.len() == 0 {
        0
    } else {
        sum_mixed(s.drop_last()) + s.last().mixed_additions as nat
    }
}

pub open spec fn sum_added(s: Seq<CommitStats>) -> nat
    decreases s.len(),
{
    if s.len() == 0 {
        0
    } else {
        sum_added(s.drop_last()) + s.last().git_diff_added_lines as nat
    }
}

/// How many of the commits have at least one AI line.
pub open spec fn count_with_ai(s: Seq<CommitStats>) -> nat
    decreases s.len(),
{
    if s.len() == 0 {
        0
    } else {
        count_with_ai(s.drop_last()) + if s.last().ai_additions > 0 {
            1nat
        } else {
            0nat
        }
    }
}

/// Over commits whose lines each land in exactly one bucket, the AI, human and
/// mixed totals add up to the total of added lines.
pub proof fn lemma_sums_partition(s: Seq<CommitStats>)
    requires
        forall|i: int| 0 <= i < s.len() ==> (#[trigger] s[i]).wf(),
    ensures
        sum_ai(s) + sum_human(s) + sum_mixed(s) == sum_added(s),
        count_with_ai(s) <= s.len(),
    decreases s.len(),
{
    if s.len() > 0 {
        assert(s.last() == s[s.len() - 1]);
        lemma_sums_partition(s.drop_last());
    }
}

proof fn lemma_sum_added_prefix(s: Seq<CommitStats>, i: int)
    requires
        0 <= i <= s.len(),
    ensures
        sum_added(s.subrange(0, i)) <= sum_added(s),
    decreases s.len() - i,
{
    if i < s.len() {
        lemma_sum_added_prefix(s, i + 1);
        assert(s.subrange(0, i + 1).drop_last() =~= s.subrange(0, i));
    } else {
        assert(s.subrange(0, i) =~= s);
    }
}

/// Sums the attribution of a range of commits and derives the overall
/// percentages the same way as for one commit.
pub fn aggregate_stats(commits: &Vec<CommitStats>) -> (r: AggregateStats)
    requires
        forall|i: int| 0 <= i < commits@.len() ==> (#[trigger] commits@[i]).wf(),
        sum_added(commits@) <= u64::MAX,
    ensures
        r.total_commits == commits@.len(),
        r.commits_with_ai == count_with_ai(commits@),
        r.total_ai_lines == sum_ai(commits@),
        r.total_human_lines == sum_human(commits@),
        r.total_mixed_lines == sum_mixed(commits@),
        r.total_additions == sum_added(commits@),
        r.total_ai_lines + r.total_human_lines + r.total_mixed_lines == r.total_additions,
        r.ai_percentage as int == percentage_spec(sum_ai(commits@) as int, sum_added(commits@) as int),
        r.human_percentage as int == percentage_spec(
            sum_human(commits@) as int,
            sum_added(commits@) as int,
        ),
{
    let ghost s = commits@;
    let mut with_ai: u64 = 0;
    let mut ai: u64 = 0;
    let mut human: u64 = 0;
    let mut mixed: u64 = 0;
    let mut added: u64 = 0;
    let mut i: usize = 0;
    while i < commits.len()
        invariant
            s == commits@,
            i <= s.len(),
            forall|k: int| 0 <= k < s.len() ==> (#[trigger] s[k]).wf(),
            sum_added(s) <= u64::MAX,
            with_ai == count_with_ai(s.subrange(0, i as int)),
            with_ai <= i,
            ai == sum_ai(s.subrange(0, i as int)),
            human == sum_human(s.subrange(0, i as int)),
            mixed == sum_mixed(s.subrange(0, i as int)),
            added == sum_added(s.subrange(0, i as int)),
            ai + human + mixed == added,
        decreases s.len() - i,
    {
        let c = &commits[i];
        proof {
            let next = s.subrange(0, i + 1);
            assert(next.drop_last() =~= s.subrange(0, i as int));
            assert(next.last() == s[i as int]);
            assert(s[i as int].wf());
            lemma_sum_added_prefix(s, i + 1);
        }
        if c.ai_additions > 0 {
            with_ai = with_ai + 1;
        }
        ai = ai + c.ai_additions;
        human = human + c.human_additions;
        mixed = mixed + c.mixed_additions;
        added = added + c.git_diff_added_lines;
        i = i + 1;
    }
    assert(s.subrange(0, s.len() as int) =~= s);
    proof {
        lemma_sums_partition(s);
    }
    AggregateStats {
        total_commits: i as u64,
        commits_with_ai: with_ai,
        total_ai_lines: ai,
        total_human_lines: human,
        total_mixed_lines: mixed,
        total_additions: added,
        ai_percentage: percentage(ai, added),
        human_percentage: percentage(human, added),
    }
}

} // verus!
