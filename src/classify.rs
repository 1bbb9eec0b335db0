use vstd::prelude::*;

verus! {

/// Which side of the attribution a piece of work falls on.
#[derive(PartialEq, Eq, Structural, Clone, Copy, Debug)]
pub enum AuthorKind {
    Ai,
    Human,
}

/// Classification of one added line at commit time.
#[derive(PartialEq, Eq, Structural, Clone, Copy, Debug)]
pub enum LineClass {
    Ai,
    Human,
    Mixed,
}

/// One line of text that some recorded work put into a file.
///
/// Lines captured by checkpoints take part in exact and fused matching; lines
/// carried over from an already persisted attribution (`carried`) take part in
/// exact matching only, so that re-matching a commit against its own
/// attribution gives that attribution back.
pub struct Contribution {
    pub path: String,
    pub text: String,
    pub class: LineClass,
    pub carried: bool,
}

/// A line of class `class` counts as work of kind `k`.
pub open spec fn covers(class: LineClass, k: AuthorKind) -> bool {
    match class {
        LineClass::Ai => k == AuthorKind::Ai,
        LineClass::Human => k == AuthorKind::Human,
        LineClass::Mixed => true,
    }
}

pub open spec fn is_prefix_of(p: Seq<char>, s: Seq<char>) -> bool {
    p.len() <= s.len() && s.subrange(0, p.len() as int) == p
}

pub open spec fn is_suffix_of(p: Seq<char>, s: Seq<char>) -> bool {
    p.len() <= s.len() && s.subrange(s.len() - p.len(), s.len() as int) == p
}

/// The fusion rule: `fragment` is a non-empty proper prefix or proper suffix of
/// `line`, i.e. the final line keeps the earlier text and extends it at one of
/// its boundaries.
pub open spec fn fused_into(fragment: Seq<char>, line: Seq<char>) -> bool {
    fragment.len() > 0 && fragment != line && (is_prefix_of(fragment, line) || is_suffix_of(
        fragment,
        line,
    ))
}

pub open spec fn exact_match(c: Contribution, path: Seq<char>, line: Seq<char>, k: AuthorKind) -> bool {
    !c.carried && c.path@ == path && c.text@ == line && covers(c.class, k)
}

pub open spec fn fused_match(c: Contribution, path: Seq<char>, line: Seq<char>, k: AuthorKind) -> bool {
    !c.carried && c.path@ == path && fused_into(c.text@, line) && covers(c.class, k)
}

/// Some checkpoint line of `path` has the text `line` and is work of kind `k`.
pub open spec fn has_exact(cs: Seq<Contribution>, path: Seq<char>, line: Seq<char>, k: AuthorKind) -> bool {
    exists|i: int| 0 <= i < cs.len() && #[trigger] exact_match(cs[i], path, line, k)
}

pub open spec fn has_fused(cs: Seq<Contribution>, path: Seq<char>, line: Seq<char>, k: AuthorKind) -> bool {
    exists|i: int| 0 <= i < cs.len() && #[trigger] fused_match(cs[i], path, line, k)
}

/// The classes of the carried lines of `path` with the text `line`, in order.
pub open spec fn carried_classes(cs: Seq<Contribution>, path: Seq<char>, line: Seq<char>) -> Seq<
    LineClass,
>
    decreases cs.len(),
{
    if cs.len() == 0 {
        Seq::empty()
    } else {
        let c = cs.last();
        carried_classes(cs.drop_last(), path, line) + if c.carried && c.path@ == path && c.text@
            == line {
            seq![c.class]
        } else {
            Seq::empty()
        }
    }
}

/// How many checkpoint lines of `path` have the text `line`.
pub open spec fn log_count(cs: Seq<Contribution>, path: Seq<char>, line: Seq<char>) -> nat
    decreases cs.len(),
{
    if cs.len() == 0 {
        0
    } else {
        let c = cs.last();
        log_count(cs.drop_last(), path, line) + if !c.carried && c.path@ == path && c.text@
            == line {
            1nat
        } else {
            0nat
        }
    }
}

/// Classification of the added line `line` of file `path` that is the `nth`
/// line of that file with that text in the diff (counted from zero, in diff
/// order, which is the order of position in the file), against the
/// contributions `cs`.
///
/// Each contribution with the same file and text accounts for one such line:
/// carried lines first, in their order, then checkpoint lines. A line beyond
/// their number is unattributed work and counts as `Human`; so is a line that
/// nothing with its text produced.
///
/// A matched line is `Mixed` when both kinds of work reach it, else the one
/// kind that does. Work reaches it through the carried line it matches (its
/// class), through every checkpoint line of the file with its text (the
/// line's checkpoint history), and through fusion with a checkpoint line.
pub open spec fn classify(cs: Seq<Contribution>, path: Seq<char>, line: Seq<char>, nth: nat) -> LineClass {
    let carried = carried_classes(cs, path, line);
    let m = carried.len();
    let n = log_count(cs, path, line);
    let ai = (nth < m && covers(carried[nth as int], AuthorKind::Ai)) || has_exact(
        cs,
        path,
        line,
        AuthorKind::Ai,
    ) || has_fused(cs, path, line, AuthorKind::Ai);
    let human = (nth < m && covers(carried[nth as int], AuthorKind::Human)) || has_exact(
        cs,
        path,
        line,
        AuthorKind::Human,
    ) || has_fused(cs, path, line, AuthorKind::Human);
    if nth >= m + n {
        LineClass::Human
    } else if ai && human {
        LineClass::Mixed
    } else if ai {
        LineClass::Ai
    } else {
        LineClass::Human
    }
}

pub fn covers_kind(class: LineClass, k: AuthorKind) -> (r: bool)
    ensures
        r == covers(class, k),
{
    match class {
        LineClass::Ai => k == AuthorKind::Ai,
        LineClass::Human => k == AuthorKind::Human,
        LineClass::Mixed => true,
    }
}

/// Whether `p` is a prefix of `s`.
pub fn starts_with(s: &String, p: &String) -> (r: bool)
    ensures
        r == is_prefix_of(p@, s@),
{
    let sl = s.as_str().unicode_len();
    let pl = p.as_str().unicode_len();
    if pl > sl {
        return false;
    }
    let mut i: usize = 0;
    while i < pl
        invariant
            pl == p@.len(),
            sl == s@.len(),
            pl <= sl,
            i <= pl,
            forall|j: int| 0 <= j < i ==> s@[j] == p@[j],
        decreases pl - i,
    {
        if s.as_str().get_char(i) != p.as_str().get_char(i) {
            assert(s@.subrange(0, pl as int)[i as int] != p@[i as int]);
            return false;
        }
        i = i + 1;
    }
    assert(s@.subrange(0, pl as int) =~= p@);
    true
}

/// Whether `p` is a suffix of `s`.
pub fn ends_with(s: &String, p: &String) -> (r: bool)
    ensures
        r == is_suffix_of(p@, s@),
{
    let sl = s.as_str().unicode_len();
    let pl = p.as_str().unicode_len();
    if pl > sl {
        return false;
    }
    let off: usize = sl - pl;
    let mut i: usize = 0;
    while i < pl
        invariant
            pl == p@.len(),
            sl == s@.len(),
            pl <= sl,
            off == sl - pl,
            i <= pl,
            forall|j: int| 0 <= j < i ==> s@[off + j] == p@[j],
        decreases pl - i,
    {
        if s.as_str().get_char(off + i) != p.as_str().get_char(i) {
            assert(s@.subrange(off as int, sl as int)[i as int] != p@[i as int]);
            return false;
        }
        i = i + 1;
    }
    assert(s@.subrange(off as int, sl as int) =~= p@);
    true
}

/// Exec form of `fused_into`.
pub fn is_fused_into(fragment: &String, line: &String) -> (r: bool)
    ensures
        r == fused_into(fragment@, line@),
{
    if fragment.as_str().unicode_len() == 0 || *fragment == *line {
        return false;
    }
    starts_with(line, fragment) || ends_with(line, fragment)
}

/// Classifies the added line `line` of file `path`, the `nth` line of that
/// file with that text in the diff, against `cs`.
pub fn classify_line(cs: &Vec<Contribution>, path: &String, line: &String, nth: usize) -> (r:
    LineClass)
    ensures
        r == classify(cs@, path@, line@, nth as nat),
{
    let mut exact_ai = false;
    let mut exact_human = false;
    let mut fused_ai = false;
    let mut fused_human = false;
    let mut carried_seen: usize = 0;
    let mut nth_class: Option<LineClass> = None;
    let mut logged: usize = 0;
    let mut i: usize = 0;
    while i < cs.len()
        invariant
            i <= cs@.len(),
            carried_seen == carried_classes(cs@.subrange(0, i as int), path@, line@).len(),
            nth_class == if nth < carried_seen {
                Some(carried_classes(cs@.subrange(0, i as int), path@, line@)[nth as int])
            } else {
                None::<LineClass>
            },
            logged == log_count(cs@.subrange(0, i as int), path@, line@),
            carried_seen + logged <= i,
            exact_ai == exists|j: int|
                0 <= j < i && #[trigger] exact_match(cs@[j], path@, line@, AuthorKind::Ai),
            exact_human == exists|j: int|
                0 <= j < i && #[trigger] exact_match(cs@[j], path@, line@, AuthorKind::Human),
            fused_ai == exists|j: int|
                0 <= j < i && #[trigger] fused_match(cs@[j], path@, line@, AuthorKind::Ai),
            fused_human == exists|j: int|
                0 <= j < i && #[trigger] fused_match(cs@[j], path@, line@, AuthorKind::Human),
        decreases cs@.len() - i,
    {
        let c = &cs[i];
        let ghost prev = cs@.subrange(0, i as int);
        let ghost next = cs@.subrange(0, i + 1);
        assert(next.drop_last() =~= prev);
        assert(next.last() == cs@[i as int]);
        let same_path = c.path == *path;
        let same_text = c.text == *line;
        let ai = covers_kind(c.class, AuthorKind::Ai);
        let human = covers_kind(c.class, AuthorKind::Human);
        if same_path && same_text {
            if c.carried {
                if carried_seen == nth {
                    nth_class = Some(c.class);
                }
                carried_seen = carried_seen + 1;
            } else {
                exact_ai = exact_ai || ai;
                exact_human = exact_human || human;
                logged = logged + 1;
            }
        }
        let fused = if same_path && !c.carried {
            is_fused_into(&c.text, line)
        } else {
            false
        };
        if fused {
            fused_ai = fused_ai || ai;
            fused_human = fused_human || human;
        }
        proof {
            let ii = i as int;
            assert(exact_match(cs@[ii], path@, line@, AuthorKind::Ai) == (!c.carried && same_path
                && same_text && ai));
            assert(exact_match(cs@[ii], path@, line@, AuthorKind::Human) == (!c.carried
                && same_path && same_text && human));
            assert(fused_match(cs@[ii], path@, line@, AuthorKind::Ai) == (fused && ai));
            assert(fused_match(cs@[ii], path@, line@, AuthorKind::Human) == (fused && human));
            assert(exact_ai == exists|j: int|
                0 <= j < i + 1 && #[trigger] exact_match(cs@[j], path@, line@, AuthorKind::Ai));
            assert(exact_human == exists|j: int|
                0 <= j < i + 1 && #[trigger] exact_match(cs@[j], path@, line@, AuthorKind::Human));
            assert(fused_ai == exists|j: int|
                0 <= j < i + 1 && #[trigger] fused_match(cs@[j], path@, line@, AuthorKind::Ai));
            assert(fused_human == exists|j: int|
                0 <= j < i + 1 && #[trigger] fused_match(cs@[j], path@, line@, AuthorKind::Human));
        }
        i = i + 1;
    }
    assert(cs@.subrange(0, cs@.len() as int) =~= cs@);
    let (carried_ai, carried_human) = match nth_class {
        Some(c) => (covers_kind(c, AuthorKind::Ai), covers_kind(c, AuthorKind::Human)),
        None => (false, false),
    };
    let ai = carried_ai || exact_ai || fused_ai;
    let human = carried_human || exact_human || fused_human;
    if nth >= carried_seen && nth - carried_seen >= logged {
        LineClass::Human
    } else if ai && human {
        LineClass::Mixed
    } else if ai {
        LineClass::Ai
    } else {
        LineClass::Human
    }
}

} // verus!
