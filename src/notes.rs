use vstd::prelude::*;

use crate::classify::is_prefix_of;
use crate::stats::{percentage, percentage_spec, CommitStats};

verus! {

/// The line that opens the attribution block, preceded by the blank line that
/// separates it from earlier note content.
pub open spec fn block_start() -> Seq<char> {
    "\n\n--- AI Contribution Metadata ---"@
}

pub open spec fn digit_spec(d: nat) -> char {
    if d == 0 {
        '0'
    } else if d == 1 {
        '1'
    } else if d == 2 {
        '2'
    } else if d == 3 {
        '3'
    } else if d == 4 {
        '4'
    } else if d == 5 {
        '5'
    } else if d == 6 {
        '6'
    } else if d == 7 {
        '7'
    } else if d == 8 {
        '8'
    } else {
        '9'
    }
}

/// Decimal notation of `n`, without leading zeros.
pub open spec fn decimal_spec(n: nat) -> Seq<char>
    decreases n,
{
    if n < 10 {
        seq![digit_spec(n)]
    } else {
        decimal_spec(n / 10) + seq![digit_spec(n % 10)]
    }
}

fn digit_str(d: u64) -> (r: &'static str)
    requires
        d < 10,
    ensures
        r@ == seq![digit_spec(d as nat)],
{
    proof {
        reveal_strlit("0");
        reveal_strlit("1");
        reveal_strlit("2");
        reveal_strlit("3");
        reveal_strlit("4");
        reveal_strlit("5");
        reveal_strlit("6");
        reveal_strlit("7");
        reveal_strlit("8");
        reveal_strlit("9");
    }
    let r = if d == 0 {
        "0"
    } else if d == 1 {
        "1"
    } else if d == 2 {
        "2"
    } else if d == 3 {
        "3"
    } else if d == 4 {
        "4"
    } else if d == 5 {
        "5"
    } else if d == 6 {
        "6"
    } else if d == 7 {
        "7"
    } else if d == 8 {
        "8"
    } else {
        "9"
    };
    assert(r@ =~= seq![digit_spec(d as nat)]);
    r
}

/// Decimal notation of `n`.
pub fn decimal(n: u64) -> (r: String)
    ensures
        r@ == decimal_spec(n as nat),
    decreases n,
{
    if n < 10 {
        String::from_str(digit_str(n))
    } else {
        let mut s = decimal(n / 10);
        s.append(digit_str(n % 10));
        s
    }
}

/// The line that opens the attribution block.
pub open spec fn marker() -> Seq<char> {
    "--- AI Contribution Metadata ---"@
}

/// The six lines of the attribution block for `st`, stamped with the time
/// `generated`.
pub open spec fn body_spec(st: CommitStats, generated: Seq<char>) -> Seq<char> {
    marker()
        + "\n"@
        + "AI-Percentage: "@
        + decimal_spec(percentage_spec(st.ai_additions as int, st.git_diff_added_lines as int) as nat)
        + "%"@
        + "\n"@
        + "AI-Lines: "@
        + decimal_spec(st.ai_additions as nat)
        + "/"@
        + decimal_spec(st.git_diff_added_lines as nat)
        + "\n"@
        + "Human-Lines: "@
        + decimal_spec(st.human_additions as nat)
        + "/"@
        + decimal_spec(st.git_diff_added_lines as nat)
        + "\n"@
        + "Mixed-Lines: "@
        + decimal_spec(st.mixed_additions as nat)
        + "\n"@
        + "Generated: "@
        + generated
}

/// The attribution block for `st` as it is written into a note: a blank line
/// to separate it from what comes before, then its six lines.
pub open spec fn block_spec(st: CommitStats, generated: Seq<char>) -> Seq<char> {
    "\n"@ + "\n"@ + body_spec(st, generated)
}

/// A blank-line-separated attribution block starts at `i` of `s`.
pub open spec fn block_at(s: Seq<char>, i: int) -> bool {
    0 <= i && i + block_start().len() <= s.len() && s.subrange(i, i + block_start().len())
        == block_start()
}

/// Where the first blank-line-separated attribution block at or after `i`
/// starts; `s.len()` when there is none.
pub open spec fn first_block(s: Seq<char>, i: int) -> int
    decreases s.len() - i,
{
    if i < 0 || i >= s.len() {
        s.len() as int
    } else if block_at(s, i) {
        i
    } else {
        first_block(s, i + 1)
    }
}

/// Where the attribution block of a note begins: at 0 when the note opens
/// with the marker line, else where the first marker line preceded by a blank
/// line begins (its separating newlines included); `s.len()` when there is
/// none.
pub open spec fn block_begin(s: Seq<char>) -> int {
    if is_prefix_of(marker(), s) {
        0
    } else {
        first_block(s, 0)
    }
}

/// The note has an attribution block.
pub open spec fn has_block(s: Seq<char>) -> bool {
    block_begin(s) < s.len()
}

/// The position of the `k`-th newline (from zero) at or after `j`; `s.len()`
/// when there are fewer.
pub open spec fn line_end(s: Seq<char>, j: int, k: nat) -> int
    decreases s.len() - j,
{
    if j < 0 || j >= s.len() {
        s.len() as int
    } else if s[j] == '\n' {
        if k == 0 {
            j
        } else {
            line_end(s, j + 1, (k - 1) as nat)
        }
    } else {
        line_end(s, j + 1, k)
    }
}

/// Where the attribution block of a note ends: at the end of its sixth line,
/// before the newline that ends it, if any.
pub open spec fn block_end(s: Seq<char>) -> int {
    let b = block_begin(s);
    if b >= s.len() {
        s.len() as int
    } else if is_prefix_of(marker(), s) {
        line_end(s, 0, 5)
    } else {
        line_end(s, b + 2, 5)
    }
}

/// Note content with its attribution block left out; what comes before and
/// after the block is kept.
pub open spec fn strip_block(s: Seq<char>) -> Seq<char> {
    s.subrange(0, block_begin(s)) + s.subrange(block_end(s), s.len() as int)
}

/// The note after writing `block` into `existing`: the content without the
/// old attribution block, then the new block.
pub open spec fn merge_note(existing: Seq<char>, block: Seq<char>) -> Seq<char> {
    strip_block(existing) + block
}

pub open spec fn note_text(existing: Option<String>) -> Seq<char> {
    match existing {
        Some(s) => s@,
        None => Seq::empty(),
    }
}

/// Relies on `str::chars`: the characters of `s`, in order.
#[verifier::external_body]
fn chars_of(s: &str) -> (r: Vec<char>)
    ensures
        r@ == s@,
{
    s.chars().collect()
}

proof fn lemma_first_block_bounds(s: Seq<char>, i: int)
    requires
        0 <= i <= s.len(),
    ensures
        i <= first_block(s, i) <= s.len(),
        forall|j: int| i <= j < first_block(s, i) ==> !#[trigger] block_at(s, j),
        first_block(s, i) < s.len() ==> block_at(s, first_block(s, i)),
    decreases s.len() - i,
{
    if i < s.len() && !block_at(s, i) {
        lemma_first_block_bounds(s, i + 1);
    }
}

proof fn lemma_first_block_is(s: Seq<char>, i: int, k: int)
    requires
        0 <= i <= k < s.len(),
        forall|j: int| i <= j < k ==> !#[trigger] block_at(s, j),
        block_at(s, k),
    ensures
        first_block(s, i) == k,
    decreases k - i,
{
    if i < k {
        assert(!block_at(s, i));
        lemma_first_block_is(s, i + 1, k);
    }
}

proof fn lemma_no_block_is_len(s: Seq<char>, i: int)
    requires
        0 <= i <= s.len(),
        forall|j: int| i <= j < s.len() ==> !#[trigger] block_at(s, j),
    ensures
        first_block(s, i) == s.len(),
    decreases s.len() - i,
{
    if i < s.len() {
        assert(!block_at(s, i));
        lemma_no_block_is_len(s, i + 1);
    }
}

proof fn lemma_line_end_bounds(s: Seq<char>, j: int, k: nat)
    requires
        0 <= j <= s.len(),
    ensures
        j <= line_end(s, j, k) <= s.len(),
    decreases s.len() - j,
{
    if j < s.len() {
        if s[j] == '\n' {
            if k > 0 {
                lemma_line_end_bounds(s, j + 1, (k - 1) as nat);
            }
        } else {
            lemma_line_end_bounds(s, j + 1, k);
        }
    }
}

proof fn lemma_begin_end(s: Seq<char>)
    ensures
        0 <= block_begin(s) <= block_end(s) <= s.len(),
{
    lemma_first_block_bounds(s, 0);
    if block_begin(s) < s.len() {
        if is_prefix_of(marker(), s) {
            lemma_line_end_bounds(s, 0, 5);
        } else {
            reveal_strlit("\n\n--- AI Contribution Metadata ---");
            lemma_line_end_bounds(s, block_begin(s) + 2, 5);
        }
    }
}

/// `pat` occurs in `s` at `i`.
fn matches_at(s: &Vec<char>, pat: &Vec<char>, i: usize) -> (r: bool)
    requires
        i <= s@.len(),
    ensures
        r == (i + pat@.len() <= s@.len() && s@.subrange(i as int, i + pat@.len()) == pat@),
{
    let n = pat.len();
    let sl = s.len();
    if n > sl - i {
        return false;
    }
    let mut k: usize = 0;
    while k < n
        invariant
            n == pat@.len(),
            sl == s@.len(),
            i <= sl,
            i + n <= sl,
            k <= n,
            forall|j: int| 0 <= j < k ==> s@[i + j] == pat@[j],
        decreases n - k,
    {
        if s[i + k] != pat[k] {
            assert(s@.subrange(i as int, i + n)[k as int] != pat@[k as int]);
            return false;
        }
        k = k + 1;
    }
    assert(s@.subrange(i as int, i + n) =~= pat@);
    true
}

/// Where the attribution block of `s` begins and ends.
fn block_bounds(s: &Vec<char>) -> (r: (usize, usize))
    ensures
        r.0 == block_begin(s@),
        r.1 == block_end(s@),
        r.0 <= r.1 <= s@.len(),
{
    proof {
        lemma_begin_end(s@);
        reveal_strlit("\n\n--- AI Contribution Metadata ---");
    }
    let mark = chars_of("--- AI Contribution Metadata ---");
    let pat = chars_of("\n\n--- AI Contribution Metadata ---");
    let n = s.len();
    let at_start = matches_at(s, &mark, 0);
    let mut begin: usize = 0;
    if !at_start {
        let mut found = false;
        while begin < n
            invariant_except_break
                !found,
            invariant
                begin <= n,
                n == s@.len(),
                pat@ == block_start(),
                forall|j: int| 0 <= j < begin ==> !#[trigger] block_at(s@, j),
            ensures
                forall|j: int| 0 <= j < begin ==> !#[trigger] block_at(s@, j),
                found ==> begin < n && block_at(s@, begin as int),
                !found ==> begin == n,
            decreases n - begin,
        {
            if matches_at(s, &pat, begin) {
                found = true;
                break ;
            }
            begin = begin + 1;
        }
        proof {
            if found {
                lemma_first_block_is(s@, 0, begin as int);
            } else {
                lemma_no_block_is_len(s@, 0);
            }
        }
        if !found {
            return (n, n);
        }
    }
    let mut j: usize = if at_start {
        0
    } else {
        begin + 2
    };
    let ghost start = j as int;
    let mut k: usize = 5;
    while j < n
        invariant_except_break
            j < n ==> line_end(s@, start, 5) == line_end(s@, j as int, k as nat),
        invariant
            n == s@.len(),
            j <= n,
            line_end(s@, start, 5) == line_end(s@, j as int, k as nat),
        ensures
            line_end(s@, start, 5) == j,
        decreases n - j,
    {
        if s[j] == '\n' {
            if k == 0 {
                break ;
            }
            k = k - 1;
        }
        j = j + 1;
    }
    (begin, j)
}

/// `existing` without its attribution block.
pub fn strip_attribution_block(existing: &String) -> (r: String)
    ensures
        r@ == strip_block(existing@),
{
    let s = chars_of(existing.as_str());
    let (b, e) = block_bounds(&s);
    let n = s.len();
    let mut r = existing.as_str().substring_char(0, b).to_string();
    r.append(existing.as_str().substring_char(e, n));
    r
}

/// The note content after writing the attribution block of `stats`, stamped
/// `generated`, into the existing note (`None`: the commit has no note yet).
pub fn updated_note(existing: &Option<String>, stats: &CommitStats, generated: &String) -> (r:
    String)
    requires
        stats.wf(),
    ensures
        r@ == merge_note(note_text(*existing), block_spec(*stats, generated@)),
{
    let mut r = match existing {
        Some(e) => strip_attribution_block(e),
        None => {
            proof {
                lemma_no_block_is_len(Seq::<char>::empty(), 0);
                assert(Seq::<char>::empty().subrange(0, 0) + Seq::<char>::empty().subrange(0, 0)
                    =~= Seq::<char>::empty());
            }
            String::new()
        },
    };
    let pct = percentage(stats.ai_additions, stats.git_diff_added_lines);
    let total = decimal(stats.git_diff_added_lines);
    let mut b = String::from_str("--- AI Contribution Metadata ---");
    b.append("\n");
    b.append("AI-Percentage: ");
    b.append(decimal(pct).as_str());
    b.append("%");
    b.append("\n");
    b.append("AI-Lines: ");
    b.append(decimal(stats.ai_additions).as_str());
    b.append("/");
    b.append(total.as_str());
    b.append("\n");
    b.append("Human-Lines: ");
    b.append(decimal(stats.human_additions).as_str());
    b.append("/");
    b.append(total.as_str());
    b.append("\n");
    b.append("Mixed-Lines: ");
    b.append(decimal(stats.mixed_additions).as_str());
    b.append("\n");
    b.append("Generated: ");
    b.append(generated.as_str());
    assert(b@ == body_spec(*stats, generated@));
    let ghost kept = r@;
    r.append("\n");
    r.append("\n");
    r.append(b.as_str());
    assert(r@ =~= kept + block_spec(*stats, generated@));
    r
}

pub open spec fn count_nl(t: Seq<char>) -> nat
    decreases t.len(),
{
    if t.len() == 0 {
        0
    } else {
        count_nl(t.drop_last()) + if t.last() == '\n' {
            1nat
        } else {
            0nat
        }
    }
}

proof fn lemma_count_nl_concat(a: Seq<char>, b: Seq<char>)
    ensures
        count_nl(a + b) == count_nl(a) + count_nl(b),
    decreases b.len(),
{
    if b.len() > 0 {
        assert((a + b).drop_last() =~= a + b.drop_last());
        lemma_count_nl_concat(a, b.drop_last());
    } else {
        assert(a + b =~= a);
    }
}

proof fn lemma_no_nl(t: Seq<char>)
    requires
        forall|i: int| 0 <= i < t.len() ==> t[i] != '\n',
    ensures
        count_nl(t) == 0,
    decreases t.len(),
{
    if t.len() > 0 {
        lemma_no_nl(t.drop_last());
    }
}

proof fn lemma_count_newline()
    ensures
        count_nl("\n"@) == 1,
{
    reveal_strlit("\n");
    assert("\n"@.len() == 1);
    assert("\n"@[0] == '\n');
    assert("\n"@.drop_last() =~= Seq::<char>::empty());
    assert(count_nl(Seq::<char>::empty()) == 0);
}

proof fn lemma_decimal_no_nl(n: nat)
    ensures
        forall|i: int| 0 <= i < decimal_spec(n).len() ==> decimal_spec(n)[i] != '\n',
    decreases n,
{
    if n < 10 {
        assert(decimal_spec(n) =~= seq![digit_spec(n)]);
    } else {
        lemma_decimal_no_nl(n / 10);
        let a = decimal_spec(n / 10);
        assert forall|i: int| 0 <= i < decimal_spec(n).len() implies decimal_spec(n)[i] != '\n' by {
            if i < a.len() {
                assert(decimal_spec(n)[i] == a[i]);
            } else {
                assert(decimal_spec(n)[i] == digit_spec(n % 10));
            }
        }
    }
}

proof fn lemma_body_newlines(st: CommitStats, generated: Seq<char>)
    requires
        forall|i: int| 0 <= i < generated.len() ==> generated[i] != '\n',
    ensures
        count_nl(body_spec(st, generated)) == 5,
{
    reveal_strlit("--- AI Contribution Metadata ---");
    reveal_strlit("AI-Percentage: ");
    reveal_strlit("%");
    reveal_strlit("AI-Lines: ");
    reveal_strlit("/");
    reveal_strlit("Human-Lines: ");
    reveal_strlit("Mixed-Lines: ");
    reveal_strlit("Generated: ");
    let t0 = marker();
    lemma_no_nl(t0);
    let p1 = "\n"@;
    lemma_count_newline();
    lemma_count_nl_concat(t0, p1);
    let t1 = t0 + p1;
    let p2 = "AI-Percentage: "@;
    lemma_no_nl(p2);
    lemma_count_nl_concat(t1, p2);
    let t2 = t1 + p2;
    let p3 = decimal_spec(percentage_spec(st.ai_additions as int, st.git_diff_added_lines as int) as nat);
    lemma_decimal_no_nl(percentage_spec(st.ai_additions as int, st.git_diff_added_lines as int) as nat);
    lemma_no_nl(p3);
    lemma_count_nl_concat(t2, p3);
    let t3 = t2 + p3;
    let p4 = "%"@;
    lemma_no_nl(p4);
    lemma_count_nl_concat(t3, p4);
    let t4 = t3 + p4;
    let p5 = "\n"@;
    lemma_count_newline();
    lemma_count_nl_concat(t4, p5);
    let t5 = t4 + p5;
    let p6 = "AI-Lines: "@;
    lemma_no_nl(p6);
    lemma_count_nl_concat(t5, p6);
    let t6 = t5 + p6;
    let p7 = decimal_spec(st.ai_additions as nat);
    lemma_decimal_no_nl(st.ai_additions as nat);
    lemma_no_nl(p7);
    lemma_count_nl_concat(t6, p7);
    let t7 = t6 + p7;
    let p8 = "/"@;
    lemma_no_nl(p8);
    lemma_count_nl_concat(t7, p8);
    let t8 = t7 + p8;
    let p9 = decimal_spec(st.git_diff_added_lines as nat);
    lemma_decimal_no_nl(st.git_diff_added_lines as nat);
    lemma_no_nl(p9);
    lemma_count_nl_concat(t8, p9);
    let t9 = t8 + p9;
    let p10 = "\n"@;
    lemma_count_newline();
    lemma_count_nl_concat(t9, p10);
    let t10 = t9 + p10;
    let p11 = "Human-Lines: "@;
    lemma_no_nl(p11);
    lemma_count_nl_concat(t10, p11);
    let t11 = t10 + p11;
    let p12 = decimal_spec(st.human_additions as nat);
    lemma_decimal_no_nl(st.human_additions as nat);
    lemma_no_nl(p12);
    lemma_count_nl_concat(t11, p12);
    let t12 = t11 + p12;
    let p13 = "/"@;
    lemma_no_nl(p13);
    lemma_count_nl_concat(t12, p13);
    let t13 = t12 + p13;
    let p14 = decimal_spec(st.git_diff_added_lines as nat);
    lemma_decimal_no_nl(st.git_diff_added_lines as nat);
    lemma_no_nl(p14);
    lemma_count_nl_concat(t13, p14);
    let t14 = t13 + p14;
    let p15 = "\n"@;
    lemma_count_newline();
    lemma_count_nl_concat(t14, p15);
    let t15 = t14 + p15;
    let p16 = "Mixed-Lines: "@;
    lemma_no_nl(p16);
    lemma_count_nl_concat(t15, p16);
    let t16 = t15 + p16;
    let p17 = decimal_spec(st.mixed_additions as nat);
    lemma_decimal_no_nl(st.mixed_additions as nat);
    lemma_no_nl(p17);
    lemma_count_nl_concat(t16, p17);
    let t17 = t16 + p17;
    let p18 = "\n"@;
    lemma_count_newline();
    lemma_count_nl_concat(t17, p18);
    let t18 = t17 + p18;
    let p19 = "Generated: "@;
    lemma_no_nl(p19);
    lemma_count_nl_concat(t18, p19);
    let t19 = t18 + p19;
    let p20 = generated;
    lemma_no_nl(p20);
    lemma_count_nl_concat(t19, p20);
    let t20 = t19 + p20;
    assert(t20 =~= body_spec(st, generated));
}

/// Line-ending past every newline that is left.
proof fn lemma_line_end_past(s: Seq<char>, j: int, k: nat)
    requires
        0 <= j <= s.len(),
        count_nl(s.subrange(j, s.len() as int)) <= k,
    ensures
        line_end(s, j, k) == s.len(),
    decreases s.len() - j,
{
    if j < s.len() {
        let rest = s.subrange(j + 1, s.len() as int);
        assert(s.subrange(j, s.len() as int) =~= seq![s[j]] + rest);
        lemma_count_nl_concat(seq![s[j]], rest);
        assert(seq![s[j]].drop_last() =~= Seq::<char>::empty());
        if s[j] == '\n' {
            lemma_line_end_past(s, j + 1, (k - 1) as nat);
        } else {
            lemma_line_end_past(s, j + 1, k);
        }
    }
}

proof fn lemma_marker_chars()
    ensures
        marker().len() == 32,
        marker()[0] == '-',
        forall|k: int| 0 <= k < 32 ==> marker()[k] != '\n',
        block_start().len() == 34,
        block_start() == "\n"@ + "\n"@ + marker(),
        forall|k: int| 2 <= k < 34 ==> block_start()[k] != '\n',
{
    reveal_strlit("--- AI Contribution Metadata ---");
    reveal_strlit("\n\n--- AI Contribution Metadata ---");
    reveal_strlit("\n");
    assert(block_start() =~= "\n"@ + "\n"@ + marker());
}

/// Writing the attribution block of the same stats into a note twice gives the
/// note of a single write: the second block replaces the first, whatever time
/// each of them was stamped with, so the note neither grows nor holds two
/// blocks. This holds of a note with at most one block (nothing is left of a
/// block once its block is stripped) and of a stamp that is one line.
pub proof fn lemma_note_write_idempotent(
    existing: Seq<char>,
    st: CommitStats,
    first_stamp: Seq<char>,
    second_stamp: Seq<char>,
)
    requires
        !has_block(strip_block(existing)),
        forall|i: int| 0 <= i < first_stamp.len() ==> first_stamp[i] != '\n',
    ensures
        merge_note(merge_note(existing, block_spec(st, first_stamp)), block_spec(st, second_stamp))
            == merge_note(existing, block_spec(st, second_stamp)),
{
    let x = strip_block(existing);
    let b = block_spec(st, first_stamp);
    let y = x + b;
    let l = block_start().len() as int;
    let xl = x.len() as int;
    lemma_marker_chars();
    reveal_strlit("\n");
    assert(b.subrange(0, l) =~= block_start());
    assert(b[0] == '\n' && b[1] == '\n');
    // x has no block of either form
    lemma_first_block_bounds(x, 0);
    assert(!is_prefix_of(marker(), x));
    assert(first_block(x, 0) == xl);
    // y does not open with the marker
    if is_prefix_of(marker(), y) {
        if xl == 0 {
            assert(y[0] == b[0]);
            assert(y.subrange(0, 32)[0] == marker()[0]);
        } else if xl < 32 {
            assert(y[xl] == b[0]);
            assert(y.subrange(0, 32)[xl] == marker()[xl]);
        } else {
            assert(x.subrange(0, 32) =~= y.subrange(0, 32));
        }
    }
    assert(y.subrange(xl, xl + l) =~= b.subrange(0, l));
    assert(block_at(y, xl));
    assert forall|j: int| 0 <= j < xl implies !#[trigger] block_at(y, j) by {
        if block_at(y, j) {
            if j + l <= xl {
                assert(y.subrange(j, j + l) =~= x.subrange(j, j + l));
                assert(block_at(x, j));
            } else {
                let d = xl - j;
                assert(y[xl] == b[0]);
                assert(y.subrange(j, j + l)[d] == y[xl]);
                if d >= 2 {
                    assert(block_start()[d] == '\n');
                } else {
                    assert(y[xl + 1] == b[1]);
                    assert(y.subrange(j, j + l)[2] == y[xl + 1]);
                    assert(block_start()[2] == '\n');
                }
            }
        }
    }
    lemma_first_block_is(y, 0, xl);
    assert(block_begin(y) == xl);
    lemma_body_newlines(st, first_stamp);
    assert(y.subrange(xl + 2, y.len() as int) =~= body_spec(st, first_stamp));
    lemma_line_end_past(y, xl + 2, 5);
    assert(block_end(y) == y.len());
    assert(strip_block(y) =~= x);
}

/// The attribution block of a note; empty when the note has none.
pub fn attribution_block_text(note: &String) -> (r: String)
    ensures
        r@ == note@.subrange(block_begin(note@), block_end(note@)),
{
    let s = chars_of(note.as_str());
    let (b, e) = block_bounds(&s);
    note.as_str().substring_char(b, e).to_string()
}

/// What chrono writes for the UTC instant `secs` seconds and `nanos`
/// nanoseconds after the Unix epoch, in RFC 3339 form; `None` when chrono has
/// no such instant.
pub uninterp spec fn rfc3339_text(secs: int, nanos: int) -> Option<Seq<char>>;

/// Relies on chrono's `DateTime::from_timestamp`, which returns `None` for an
/// instant out of its range or an invalid nanosecond count, and on
/// `DateTime::to_rfc3339`, which writes the instant into a `String`.
#[verifier::external_body]
fn rfc3339_of(secs: i64, nanos: u32) -> (r: Option<String>)
    ensures
        match r {
            Some(t) => rfc3339_text(secs as int, nanos as int) == Some(t@),
            None => rfc3339_text(secs as int, nanos as int) is None,
        },
{
    chrono::DateTime::from_timestamp(secs, nanos).map(|d| d.to_rfc3339())
}

/// The note content after recording the attribution summary `stats` in the
/// note `existing` (`None`: the commit has no note yet), stamped with the
/// instant `secs`/`nanos` after the Unix epoch in RFC 3339 form. `None` when
/// that instant cannot be written.
pub fn append_ai_percentage_to_notes(
    existing: &Option<String>,
    stats: &CommitStats,
    secs: i64,
    nanos: u32,
) -> (r: Option<String>)
    requires
        stats.wf(),
    ensures
        match rfc3339_text(secs as int, nanos as int) {
            Some(stamp) => r is Some && r.unwrap()@ == merge_note(
                note_text(*existing),
                block_spec(*stats, stamp),
            ),
            None => r is None,
        },
{
    match rfc3339_of(secs, nanos) {
        Some(stamp) => Some(updated_note(existing, stats, &stamp)),
        None => None,
    }
}

} // verus!
