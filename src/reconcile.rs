use vstd::prelude::*;

use crate::classify::{
    carried_classes, classify, classify_line, exact_match, fused_match, has_exact, has_fused,
    log_count, AuthorKind, Contribution, LineClass,
};
use crate::stats::CommitStats;
use crate::working_log::{lemma_log_member, log_contributions, recorded, CheckpointRecord};

verus! {

/// The lines that the version-control diff reports as added to one file.
/// `added` is `None` when the diff of that file could not be computed (a binary
/// file, a rename without content change): the file is left out.
pub struct FileAdditions {
    pub path: String,
    pub added: Option<Vec<String>>,
}

/// One authoritative added line with its classification.
pub struct AttributedLine {
    pub path: String,
    pub text: String,
    pub class: LineClass,
}

/// The (file, text) pairs of the added lines of one file, in diff order.
pub open spec fn file_keys(f: FileAdditions) -> Seq<(Seq<char>, Seq<char>)> {
    match f.added {
        Some(v) => Seq::new(v@.len(), |i: int| (f.path@, v@[i]@)),
        None => Seq::empty(),
    }
}

/// The (file, text) pairs of every added line of a diff, file after file.
pub open spec fn diff_keys(d: Seq<FileAdditions>) -> Seq<(Seq<char>, Seq<char>)>
    decreases d.len(),
{
    if d.len() == 0 {
        Seq::empty()
    } else {
        diff_keys(d.drop_last()) + file_keys(d.last())
    }
}

pub open spec fn key_of(l: AttributedLine) -> (Seq<char>, Seq<char>) {
    (l.path@, l.text@)
}

pub open spec fn keys_of(ls: Seq<AttributedLine>) -> Seq<(Seq<char>, Seq<char>)> {
    ls.map_values(|l: AttributedLine| key_of(l))
}

pub open spec fn classes_of(ls: Seq<AttributedLine>) -> Seq<LineClass> {
    ls.map_values(|l: AttributedLine| l.class)
}

/// How many of `keys` equal `k`.
pub open spec fn count_key(keys: Seq<(Seq<char>, Seq<char>)>, k: (Seq<char>, Seq<char>)) -> nat
    decreases keys.len(),
{
    if keys.len() == 0 {
        0
    } else {
        count_key(keys.drop_last(), k) + if keys.last() == k {
            1nat
        } else {
            0nat
        }
    }
}

/// How many lines before line `i` of `keys` have its file and text: line `i`
/// is the `nth_of(keys, i)`-th line with that key.
pub open spec fn nth_of(keys: Seq<(Seq<char>, Seq<char>)>, i: int) -> nat {
    count_key(keys.subrange(0, i), keys[i])
}

/// The class of each of `keys` against the contributions `cs`.
pub open spec fn attribute(cs: Seq<Contribution>, keys: Seq<(Seq<char>, Seq<char>)>) -> Seq<
    LineClass,
> {
    Seq::new(keys.len(), |i: int| classify(cs, keys[i].0, keys[i].1, nth_of(keys, i)))
}

pub open spec fn count_class(s: Seq<LineClass>, c: LineClass) -> nat
    decreases s.len(),
{
    if s.len() == 0 {
        0
    } else {
        count_class(s.drop_last(), c) + if s.last() == c {
            1nat
        } else {
            0nat
        }
    }
}

/// `st` counts the lines whose classes are `classes`.
pub open spec fn stats_match(st: CommitStats, classes: Seq<LineClass>) -> bool {
    &&& st.git_diff_added_lines == classes.len()
    &&& st.ai_additions == count_class(classes, LineClass::Ai)
    &&& st.human_additions == count_class(classes, LineClass::Human)
    &&& st.mixed_additions == count_class(classes, LineClass::Mixed)
}

/// A persisted attribution turned back into contributions: each line keeps its
/// class and matches by exact text only.
pub open spec fn carry(ls: Seq<AttributedLine>) -> Seq<Contribution> {
    ls.map_values(
        |l: AttributedLine| Contribution { path: l.path, text: l.text, class: l.class, carried: true },
    )
}

/// Every line counts in exactly one of the three buckets.
pub proof fn lemma_buckets_partition(s: Seq<LineClass>)
    ensures
        count_class(s, LineClass::Ai) + count_class(s, LineClass::Human) + count_class(
            s,
            LineClass::Mixed,
        ) == s.len(),
    decreases s.len(),
{
    if s.len() > 0 {
        lemma_buckets_partition(s.drop_last());
    }
}

fn count_earlier(r: &Vec<AttributedLine>, path: &String, text: &String) -> (n: usize)
    ensures
        n == count_key(keys_of(r@), (path@, text@)),
{
    let mut n: usize = 0;
    let mut i: usize = 0;
    while i < r.len()
        invariant
            i <= r@.len(),
            n <= i,
            n == count_key(keys_of(r@).subrange(0, i as int), (path@, text@)),
        decreases r@.len() - i,
    {
        assert(keys_of(r@).subrange(0, i + 1).drop_last() =~= keys_of(r@).subrange(0, i as int));
        if r[i].path == *path && r[i].text == *text {
            n = n + 1;
        }
        i = i + 1;
    }
    assert(keys_of(r@).subrange(0, r@.len() as int) =~= keys_of(r@));
    n
}

/// Classifies every added line of `diff` against `cs`, in diff order; files
/// whose diff could not be computed are left out.
pub fn attribute_diff(cs: &Vec<Contribution>, diff: &Vec<FileAdditions>) -> (r: Vec<AttributedLine>)
    ensures
        keys_of(r@) == diff_keys(diff@),
        classes_of(r@) == attribute(cs@, diff_keys(diff@)),
{
    let mut r: Vec<AttributedLine> = Vec::new();
    let mut fi: usize = 0;
    while fi < diff.len()
        invariant
            fi <= diff@.len(),
            keys_of(r@) == diff_keys(diff@.subrange(0, fi as int)),
            forall|i: int|
                0 <= i < r@.len() ==> #[trigger] r@[i].class == classify(
                    cs@,
                    r@[i].path@,
                    r@[i].text@,
                    nth_of(keys_of(r@), i),
                ),
        decreases diff@.len() - fi,
    {
        let f = &diff[fi];
        assert(diff@.subrange(0, fi + 1).drop_last() =~= diff@.subrange(0, fi as int));
        let ghost base = keys_of(r@);
        match &f.added {
            None => {
                assert(file_keys(*f) =~= Seq::<(Seq<char>, Seq<char>)>::empty());
                assert(diff_keys(diff@.subrange(0, fi + 1)) =~= base);
            },
            Some(lines) => {
                let mut j: usize = 0;
                while j < lines.len()
                    invariant
                        j <= lines@.len(),
                        keys_of(r@) == base + Seq::new(
                            j as nat,
                            |i: int| (f.path@, lines@[i]@),
                        ),
                        forall|i: int|
                            0 <= i < r@.len() ==> #[trigger] r@[i].class == classify(
                                cs@,
                                r@[i].path@,
                                r@[i].text@,
                                nth_of(keys_of(r@), i),
                            ),
                    decreases lines@.len() - j,
                {
                    let nth = count_earlier(&r, &f.path, &lines[j]);
                    let class = classify_line(cs, &f.path, &lines[j], nth);
                    let ghost before = r@;
                    r.push(AttributedLine { path: f.path.clone(), text: lines[j].clone(), class });
                    proof {
                        let kb = keys_of(before);
                        let ka = keys_of(r@);
                        assert(ka =~= kb.push(key_of(r@.last())));
                        assert(ka.subrange(0, before.len() as int) =~= kb);
                        assert forall|i: int| 0 <= i < r@.len() implies #[trigger] r@[i].class
                            == classify(cs@, r@[i].path@, r@[i].text@, nth_of(keys_of(r@), i)) by {
                            if i < before.len() {
                                assert(ka.subrange(0, i) =~= kb.subrange(0, i));
                                assert(ka[i] == kb[i]);
                                assert(r@[i] == before[i]);
                            }
                        }
                    }
                    assert(keys_of(r@) =~= base + Seq::new(
                        (j + 1) as nat,
                        |i: int| (f.path@, lines@[i]@),
                    ));
                    j = j + 1;
                }
                assert(file_keys(*f) =~= Seq::new(
                    lines@.len(),
                    |i: int| (f.path@, lines@[i]@),
                ));
            },
        }
        fi = fi + 1;
    }
    assert(diff@.subrange(0, diff@.len() as int) =~= diff@);
    assert(classes_of(r@) =~= attribute(cs@, diff_keys(diff@)));
    r
}

/// Counts the classified lines into a `CommitStats` for `sha`.
pub fn stats_of(sha: String, lines: &Vec<AttributedLine>) -> (r: CommitStats)
    ensures
        r.commit_sha == sha,
        stats_match(r, classes_of(lines@)),
        r.wf(),
{
    let ghost cl = classes_of(lines@);
    let mut ai: u64 = 0;
    let mut human: u64 = 0;
    let mut mixed: u64 = 0;
    let mut i: usize = 0;
    while i < lines.len()
        invariant
            i <= lines@.len(),
            cl == classes_of(lines@),
            ai == count_class(cl.subrange(0, i as int), LineClass::Ai),
            human == count_class(cl.subrange(0, i as int), LineClass::Human),
            mixed == count_class(cl.subrange(0, i as int), LineClass::Mixed),
            ai + human + mixed == i,
        decreases lines@.len() - i,
    {
        assert(cl.subrange(0, i + 1).drop_last() =~= cl.subrange(0, i as int));
        proof {
            lemma_buckets_partition(cl.subrange(0, i as int));
        }
        match lines[i].class {
            LineClass::Ai => ai = ai + 1,
            LineClass::Human => human = human + 1,
            LineClass::Mixed => mixed = mixed + 1,
        }
        i = i + 1;
    }
    assert(cl.subrange(0, lines@.len() as int) =~= cl);
    CommitStats {
        commit_sha: sha,
        git_diff_added_lines: (ai + human) + mixed,
        ai_additions: ai,
        human_additions: human,
        mixed_additions: mixed,
    }
}

/// The paths of the files whose diff could not be computed, in diff order.
pub fn excluded_files(diff: &Vec<FileAdditions>) -> (r: Vec<String>)
    ensures
        r@.map_values(|s: String| s@) == diff@.filter(|f: FileAdditions| f.added is None).map_values(
            |f: FileAdditions| f.path@,
        ),
{
    let mut r: Vec<String> = Vec::new();
    let mut i: usize = 0;
    while i < diff.len()
        invariant
            i <= diff@.len(),
            r@.map_values(|s: String| s@) == diff@.subrange(0, i as int).filter(
                |f: FileAdditions| f.added is None,
            ).map_values(|f: FileAdditions| f.path@),
        decreases diff@.len() - i,
    {
        let ghost before = r@;
        assert(diff@.subrange(0, i + 1).drop_last() =~= diff@.subrange(0, i as int));
        reveal(Seq::filter);
        if diff[i].added.is_none() {
            r.push(diff[i].path.clone());
            assert(r@.map_values(|s: String| s@) =~= before.map_values(|s: String| s@).push(
                diff@[i as int].path@,
            ));
        } else {
            assert(r@ == before);
        }
        assert(r@.map_values(|s: String| s@) =~= diff@.subrange(0, i + 1).filter(
            |f: FileAdditions| f.added is None,
        ).map_values(|f: FileAdditions| f.path@));
        i = i + 1;
    }
    assert(diff@.subrange(0, diff@.len() as int) =~= diff@);
    r
}

/// Turns a persisted attribution back into contributions that match by exact
/// text only.
pub fn carry_lines(ls: &Vec<AttributedLine>) -> (r: Vec<Contribution>)
    ensures
        r@ == carry(ls@),
{
    let mut r: Vec<Contribution> = Vec::new();
    let mut i: usize = 0;
    while i < ls.len()
        invariant
            i <= ls@.len(),
            r@ == carry(ls@.subrange(0, i as int)),
        decreases ls@.len() - i,
    {
        let l = &ls[i];
        r.push(Contribution { path: l.path.clone(), text: l.text.clone(), class: l.class, carried: true });
        assert(r@ =~= carry(ls@.subrange(0, i + 1)));
        i = i + 1;
    }
    assert(ls@.subrange(0, ls@.len() as int) =~= ls@);
    r
}

proof fn lemma_no_match_counts(cs: Seq<Contribution>, path: Seq<char>, line: Seq<char>)
    requires
        forall|i: int| 0 <= i < cs.len() ==> !(#[trigger] cs[i].path@ == path && cs[i].text@ == line),
    ensures
        carried_classes(cs, path, line).len() == 0,
        log_count(cs, path, line) == 0,
    decreases cs.len(),
{
    if cs.len() > 0 {
        assert(cs.last() == cs[cs.len() - 1]);
        lemma_no_match_counts(cs.drop_last(), path, line);
    }
}

proof fn lemma_no_carried(cs: Seq<Contribution>, path: Seq<char>, line: Seq<char>)
    requires
        forall|i: int| 0 <= i < cs.len() ==> !(#[trigger] cs[i]).carried,
    ensures
        carried_classes(cs, path, line).len() == 0,
    decreases cs.len(),
{
    if cs.len() > 0 {
        assert(cs.last() == cs[cs.len() - 1]);
        lemma_no_carried(cs.drop_last(), path, line);
    }
}

/// A line of the diff that no contribution of its file has with the same text
/// is classified `Human`, never `Ai`, whichever copy of that text it is.
pub proof fn lemma_unattributed_is_human(
    cs: Seq<Contribution>,
    path: Seq<char>,
    line: Seq<char>,
    nth: nat,
)
    requires
        forall|i: int| 0 <= i < cs.len() ==> !(#[trigger] cs[i].path@ == path && cs[i].text@ == line),
    ensures
        classify(cs, path, line, nth) == LineClass::Human,
{
    lemma_no_match_counts(cs, path, line);
}

/// A line present in the diff but added by no record of the working log is
/// classified `Human`, never `Ai`.
pub proof fn lemma_unrecorded_line_is_human(
    records: Seq<CheckpointRecord>,
    path: Seq<char>,
    line: Seq<char>,
    nth: nat,
)
    requires
        !recorded(records, path, line),
    ensures
        classify(log_contributions(records), path, line, nth) == LineClass::Human,
{
    let cs = log_contributions(records);
    assert forall|i: int| 0 <= i < cs.len() implies !(#[trigger] cs[i].path@ == path
        && cs[i].text@ == line) by {
        lemma_log_member(records, i);
    }
    lemma_unattributed_is_human(cs, path, line, nth);
}

/// Each time the working log added a text to a file accounts for one line of
/// the diff with that text: a further copy of the text, such as one typed by
/// hand outside any checkpoint, is classified `Human`, never `Ai`.
pub proof fn lemma_extra_copy_is_human(
    records: Seq<CheckpointRecord>,
    path: Seq<char>,
    line: Seq<char>,
    nth: nat,
)
    requires
        nth >= log_count(log_contributions(records), path, line),
    ensures
        classify(log_contributions(records), path, line, nth) == LineClass::Human,
{
    let cs = log_contributions(records);
    assert forall|i: int| 0 <= i < cs.len() implies !(#[trigger] cs[i]).carried by {
        lemma_log_member(records, i);
    }
    lemma_no_carried(cs, path, line);
}

/// A line whose text, among the checkpoint lines of its file, only human work
/// produced, and into which no AI line is fused, is `Human`: a person who
/// replaces an agent's line with wholly new text wrote that line.
pub proof fn lemma_new_human_text_is_human(
    cs: Seq<Contribution>,
    path: Seq<char>,
    line: Seq<char>,
    nth: nat,
)
    requires
        forall|i: int| 0 <= i < cs.len() ==> !(#[trigger] cs[i]).carried,
        !has_exact(cs, path, line, AuthorKind::Ai),
        !has_fused(cs, path, line, AuthorKind::Ai),
    ensures
        classify(cs, path, line, nth) == LineClass::Human,
{
    lemma_no_carried(cs, path, line);
}

/// A line that a human checkpoint produced, into which an AI line is fused (a
/// person extended an agent's line at one end), is `Mixed` as long as it is
/// one of the copies of its text that the checkpoints account for.
pub proof fn lemma_fused_edit_is_mixed(
    cs: Seq<Contribution>,
    path: Seq<char>,
    line: Seq<char>,
    nth: nat,
)
    requires
        forall|i: int| 0 <= i < cs.len() ==> !(#[trigger] cs[i]).carried,
        has_exact(cs, path, line, AuthorKind::Human),
        has_fused(cs, path, line, AuthorKind::Ai),
        nth < log_count(cs, path, line),
    ensures
        classify(cs, path, line, nth) == LineClass::Mixed,
{
    lemma_no_carried(cs, path, line);
}

/// A line that only agents produced, with no human line fused into it, is
/// `Ai` as long as it is one of the copies of its text that the checkpoints
/// account for.
pub proof fn lemma_agent_text_is_ai(
    cs: Seq<Contribution>,
    path: Seq<char>,
    line: Seq<char>,
    nth: nat,
)
    requires
        forall|i: int| 0 <= i < cs.len() ==> !(#[trigger] cs[i]).carried,
        has_exact(cs, path, line, AuthorKind::Ai),
        !has_exact(cs, path, line, AuthorKind::Human),
        !has_fused(cs, path, line, AuthorKind::Human),
        nth < log_count(cs, path, line),
    ensures
        classify(cs, path, line, nth) == LineClass::Ai,
{
    lemma_no_carried(cs, path, line);
}

proof fn lemma_carried_len(ls: Seq<AttributedLine>, path: Seq<char>, line: Seq<char>)
    ensures
        carried_classes(carry(ls), path, line).len() == count_key(keys_of(ls), (path, line)),
        log_count(carry(ls), path, line) == 0,
    decreases ls.len(),
{
    if ls.len() > 0 {
        let dl = ls.drop_last();
        assert(carry(ls).drop_last() =~= carry(dl));
        assert(keys_of(ls).drop_last() =~= keys_of(dl));
        lemma_carried_len(dl, path, line);
    }
}

proof fn lemma_carried_nth(ls: Seq<AttributedLine>, i: int)
    requires
        0 <= i < ls.len(),
    ensures
        nth_of(keys_of(ls), i) < carried_classes(carry(ls), ls[i].path@, ls[i].text@).len(),
        carried_classes(carry(ls), ls[i].path@, ls[i].text@)[nth_of(keys_of(ls), i) as int]
            == ls[i].class,
    decreases ls.len(),
{
    let dl = ls.drop_last();
    let p = ls[i].path@;
    let t = ls[i].text@;
    assert(carry(ls).drop_last() =~= carry(dl));
    assert(keys_of(ls).drop_last() =~= keys_of(dl));
    lemma_carried_len(dl, p, t);
    if i == ls.len() - 1 {
        assert(keys_of(ls).subrange(0, i) =~= keys_of(dl));
    } else {
        lemma_carried_nth(dl, i);
        assert(keys_of(ls).subrange(0, i) =~= keys_of(dl).subrange(0, i));
        assert(dl[i] == ls[i]);
        assert(keys_of(ls)[i] == keys_of(dl)[i]);
    }
}

/// Re-matching the keys of an attribution against that attribution carried
/// over gives back every line's class.
pub proof fn lemma_reattribute(ls: Seq<AttributedLine>)
    ensures
        attribute(carry(ls), keys_of(ls)) == classes_of(ls),
{
    let cs = carry(ls);
    assert forall|i: int| 0 <= i < ls.len() implies #[trigger] classify(
        cs,
        ls[i].path@,
        ls[i].text@,
        nth_of(keys_of(ls), i),
    ) == ls[i].class by {
        let p = ls[i].path@;
        let t = ls[i].text@;
        lemma_carried_nth(ls, i);
        lemma_carried_len(ls, p, t);
        assert forall|k: AuthorKind| !#[trigger] has_exact(cs, p, t, k) by {
            if has_exact(cs, p, t, k) {
                let j = choose|j: int| 0 <= j < cs.len() && #[trigger] exact_match(cs[j], p, t, k);
                assert(cs[j].carried);
            }
        }
        assert forall|k: AuthorKind| !#[trigger] has_fused(cs, p, t, k) by {
            if has_fused(cs, p, t, k) {
                let j = choose|j: int| 0 <= j < cs.len() && #[trigger] fused_match(cs[j], p, t, k);
                assert(cs[j].carried);
            }
        }
    }
    assert(attribute(cs, keys_of(ls)) =~= classes_of(ls));
}

/// Amending a commit with no new checkpoints and an unchanged diff: matching
/// the same diff against the commit's persisted attribution gives every line
/// its former class, so the counts stay as they were.
pub proof fn lemma_amend_invariance(
    log: Seq<Contribution>,
    diff: Seq<FileAdditions>,
    first: Seq<AttributedLine>,
)
    requires
        keys_of(first) == diff_keys(diff),
        classes_of(first) == attribute(log, diff_keys(diff)),
    ensures
        attribute(carry(first) + Seq::<Contribution>::empty(), diff_keys(diff)) == classes_of(
            first,
        ),
        count_class(attribute(carry(first) + Seq::<Contribution>::empty(), diff_keys(diff)), LineClass::Ai)
            == count_class(attribute(log, diff_keys(diff)), LineClass::Ai),
        count_class(attribute(carry(first) + Seq::<Contribution>::empty(), diff_keys(diff)), LineClass::Human)
            == count_class(attribute(log, diff_keys(diff)), LineClass::Human),
{
    assert(carry(first) + Seq::<Contribution>::empty() =~= carry(first));
    lemma_reattribute(first);
}

/// The lines of several attributions, one after the other.
pub open spec fn flatten(commits: Seq<Seq<AttributedLine>>) -> Seq<AttributedLine>
    decreases commits.len(),
{
    if commits.len() == 0 {
        Seq::empty()
    } else {
        flatten(commits.drop_last()) + commits.last()
    }
}

/// Sum over several attributions of the number of lines of class `c`.
pub open spec fn sum_class(commits: Seq<Seq<AttributedLine>>, c: LineClass) -> nat
    decreases commits.len(),
{
    if commits.len() == 0 {
        0
    } else {
        sum_class(commits.drop_last(), c) + count_class(classes_of(commits.last()), c)
    }
}

proof fn lemma_count_concat(a: Seq<LineClass>, b: Seq<LineClass>, c: LineClass)
    ensures
        count_class(a + b, c) == count_class(a, c) + count_class(b, c),
    decreases b.len(),
{
    if b.len() > 0 {
        assert((a + b).drop_last() =~= a + b.drop_last());
        lemma_count_concat(a, b.drop_last(), c);
    } else {
        assert(a + b =~= a);
    }
}

proof fn lemma_flatten_count(commits: Seq<Seq<AttributedLine>>, c: LineClass)
    ensures
        count_class(classes_of(flatten(commits)), c) == sum_class(commits, c),
    decreases commits.len(),
{
    if commits.len() > 0 {
        lemma_flatten_count(commits.drop_last(), c);
        let a = flatten(commits.drop_last());
        let b = commits.last();
        assert(classes_of(a + b) =~= classes_of(a) + classes_of(b));
        lemma_count_concat(classes_of(a), classes_of(b), c);
    }
}

/// Squashing commits into one whose diff adds exactly their lines, in the
/// order of the commits: matching that diff against the commits' persisted
/// attributions gives as many lines of each class as the commits had
/// together; in particular the AI lines are conserved.
pub proof fn lemma_squash_conservation(
    commits: Seq<Seq<AttributedLine>>,
    diff: Seq<FileAdditions>,
)
    requires
        diff_keys(diff) == keys_of(flatten(commits)),
    ensures
        count_class(attribute(carry(flatten(commits)), diff_keys(diff)), LineClass::Ai)
            == sum_class(commits, LineClass::Ai),
        count_class(attribute(carry(flatten(commits)), diff_keys(diff)), LineClass::Human)
            == sum_class(commits, LineClass::Human),
        count_class(attribute(carry(flatten(commits)), diff_keys(diff)), LineClass::Mixed)
            == sum_class(commits, LineClass::Mixed),
{
    lemma_reattribute(flatten(commits));
    lemma_flatten_count(commits, LineClass::Ai);
    lemma_flatten_count(commits, LineClass::Human);
    lemma_flatten_count(commits, LineClass::Mixed);
}

} // verus!
