use vstd::prelude::*;

verus! {

/// A command line that cannot be used.
#[derive(PartialEq, Eq, Structural, Clone, Copy, Debug)]
pub enum ArgError {
    /// `--author` without a value.
    MissingAuthor,
    /// `--prompt-id` without a value.
    MissingPromptId,
    /// `--hook-input` without a value.
    MissingHookInput,
    /// `--limit` without a value.
    MissingLimit,
    /// `--branch` without a value.
    MissingBranch,
    /// `--since` without a value.
    MissingSince,
    /// Fewer than the three commits that a squash needs.
    MissingSquashTarget,
    /// The argument at this position is not understood.
    Unknown(usize),
}

pub open spec fn is_digit(c: char) -> bool {
    '0' <= c && c <= '9'
}

/// Value of the decimal digits `s`.
pub open spec fn digits_value(s: Seq<char>) -> nat
    decreases s.len(),
{
    if s.len() == 0 {
        0
    } else {
        digits_value(s.drop_last()) * 10 + (s.last() as nat - '0' as nat) as nat
    }
}

/// The text of a count without its optional leading `+`.
pub open spec fn count_digits(s: Seq<char>) -> Seq<char> {
    if s.len() > 0 && s[0] == '+' {
        s.subrange(1, s.len() as int)
    } else {
        s
    }
}

/// An unsigned count as the standard integer parser reads it: an optional `+`
/// then at least one decimal digit, with a value that fits.
pub open spec fn count_spec(s: Seq<char>) -> Option<u64> {
    let d = count_digits(s);
    if d.len() > 0 && (forall|i: int| 0 <= i < d.len() ==> is_digit(#[trigger] d[i]))
        && digits_value(d) <= u64::MAX {
        Some(digits_value(d) as u64)
    } else {
        None
    }
}

/// Reads an unsigned count.
pub fn parse_count(s: &String) -> (r: Option<u64>)
    ensures
        r == count_spec(s@),
{
    let n = s.as_str().unicode_len();
    let start: usize = if n > 0 && s.as_str().get_char(0) == '+' {
        1
    } else {
        0
    };
    let ghost d = s@.subrange(start as int, n as int);
    assert(d =~= count_digits(s@));
    if start == n {
        return None;
    }
    let mut v: u64 = 0;
    let mut i: usize = start;
    while i < n
        invariant
            n == s@.len(),
            start <= i <= n,
            d == s@.subrange(start as int, n as int),
            d == count_digits(s@),
            d.len() > 0,
            forall|j: int| 0 <= j < i - start ==> is_digit(#[trigger] d[j]),
            v == digits_value(d.subrange(0, i - start)),
        decreases n - i,
    {
        let c = s.as_str().get_char(i);
        assert(d[i - start] == c);
        if !('0' <= c && c <= '9') {
            assert(!is_digit(d[i - start]));
            return None;
        }
        let dv = (c as u32 - '0' as u32) as u64;
        assert(d.subrange(0, i + 1 - start).drop_last() =~= d.subrange(0, i - start));
        if v > (u64::MAX - dv) / 10 {
            proof {
                lemma_digits_grow(d, (i + 1 - start) as int);
                assert(digits_value(d.subrange(0, i + 1 - start)) == v * 10 + dv);
                assert(v * 10 + dv > u64::MAX) by (nonlinear_arith)
                    requires
                        v > (u64::MAX - dv) / 10,
                        dv <= 9,
                ;
                if forall|j: int| 0 <= j < d.len() ==> is_digit(#[trigger] d[j]) {
                    assert(digits_value(d) > u64::MAX);
                }
            }
            return None;
        }
        proof {
            assert(v * 10 + dv <= u64::MAX) by (nonlinear_arith)
                requires
                    v <= (u64::MAX - dv) / 10,
                    dv <= 9,
            ;
        }
        v = v * 10 + dv;
        i = i + 1;
    }
    assert(d.subrange(0, n - start) =~= d);
    Some(v)
}

proof fn lemma_digits_mono(s: Seq<char>, k: int)
    requires
        0 <= k <= s.len(),
        forall|j: int| 0 <= j < s.len() ==> is_digit(#[trigger] s[j]),
    ensures
        digits_value(s.subrange(0, k)) <= digits_value(s),
    decreases s.len() - k,
{
    if k < s.len() {
        lemma_digits_mono(s, k + 1);
        assert(s.subrange(0, k + 1).drop_last() =~= s.subrange(0, k));
    } else {
        assert(s.subrange(0, k) =~= s);
    }
}

/// Once a prefix of `d` that is all digits is too large, `d` is too large or
/// not all digits.
proof fn lemma_digits_grow(d: Seq<char>, k: int)
    requires
        0 <= k <= d.len(),
    ensures
        (forall|j: int| 0 <= j < d.len() ==> is_digit(#[trigger] d[j])) ==> digits_value(
            d.subrange(0, k),
        ) <= digits_value(d),
{
    if forall|j: int| 0 <= j < d.len() ==> is_digit(#[trigger] d[j]) {
        lemma_digits_mono(d, k);
    }
}

/// Options of the repository statistics command.
pub struct StatsRepoArgs {
    pub limit: Option<u64>,
    pub branch: Option<String>,
    pub since: Option<String>,
    pub json: bool,
}

/// The repository statistics options read from `args[i..]` on top of `acc`.
/// A `--limit` value that is not a count leaves no limit.
pub open spec fn stats_repo_args_from(args: Seq<String>, i: int, acc: StatsRepoArgs) -> Result<
    StatsRepoArgs,
    ArgError,
>
    decreases args.len() - i,
{
    if i < 0 || i >= args.len() {
        Ok(acc)
    } else if args[i]@ == "--limit"@ {
        if i + 1 < args.len() {
            stats_repo_args_from(
                args,
                i + 2,
                StatsRepoArgs { limit: count_spec(args[i + 1]@), ..acc },
            )
        } else {
            Err(ArgError::MissingLimit)
        }
    } else if args[i]@ == "--branch"@ {
        if i + 1 < args.len() {
            stats_repo_args_from(args, i + 2, StatsRepoArgs { branch: Some(args[i + 1]), ..acc })
        } else {
            Err(ArgError::MissingBranch)
        }
    } else if args[i]@ == "--since"@ {
        if i + 1 < args.len() {
            stats_repo_args_from(args, i + 2, StatsRepoArgs { since: Some(args[i + 1]), ..acc })
        } else {
            Err(ArgError::MissingSince)
        }
    } else if args[i]@ == "--json"@ {
        stats_repo_args_from(args, i + 1, StatsRepoArgs { json: true, ..acc })
    } else {
        Err(ArgError::Unknown(i as usize))
    }
}

/// Reads the options of the repository statistics command; a later option
/// overrides an earlier one.
pub fn parse_stats_repo_args(args: &Vec<String>) -> (r: Result<StatsRepoArgs, ArgError>)
    ensures
        r == stats_repo_args_from(
            args@,
            0,
            StatsRepoArgs { limit: None, branch: None, since: None, json: false },
        ),
{
    proof {
        reveal_strlit("--limit");
        reveal_strlit("--branch");
        reveal_strlit("--since");
        reveal_strlit("--json");
    }
    let limit_flag = String::from_str("--limit");
    let branch_flag = String::from_str("--branch");
    let since_flag = String::from_str("--since");
    let json_flag = String::from_str("--json");
    let mut acc = StatsRepoArgs { limit: None, branch: None, since: None, json: false };
    let ghost start = acc;
    let mut i: usize = 0;
    while i < args.len()
        invariant
            i <= args@.len(),
            limit_flag@ == "--limit"@,
            branch_flag@ == "--branch"@,
            since_flag@ == "--since"@,
            json_flag@ == "--json"@,
            start == (StatsRepoArgs { limit: None, branch: None, since: None, json: false }),
            stats_repo_args_from(args@, i as int, acc) == stats_repo_args_from(args@, 0, start),
        decreases args@.len() - i,
    {
        if args[i] == limit_flag {
            if i + 1 < args.len() {
                acc = StatsRepoArgs { limit: parse_count(&args[i + 1]), ..acc };
                i = i + 2;
            } else {
                return Err(ArgError::MissingLimit);
            }
        } else if args[i] == branch_flag {
            if i + 1 < args.len() {
                acc = StatsRepoArgs { branch: Some(args[i + 1].clone()), ..acc };
                i = i + 2;
            } else {
                return Err(ArgError::MissingBranch);
            }
        } else if args[i] == since_flag {
            if i + 1 < args.len() {
                acc = StatsRepoArgs { since: Some(args[i + 1].clone()), ..acc };
                i = i + 2;
            } else {
                return Err(ArgError::MissingSince);
            }
        } else if args[i] == json_flag {
            acc = StatsRepoArgs { json: true, ..acc };
            i = i + 1;
        } else {
            return Err(ArgError::Unknown(i));
        }
    }
    Ok(acc)
}

/// Options of the checkpoint command. `preset` is the first argument, which
/// names the agent integration, if any.
pub struct CheckpointArgs {
    pub preset: Option<String>,
    pub author: Option<String>,
    pub show_working_log: bool,
    pub reset: bool,
    pub prompt_id: Option<String>,
    pub hook_input: Option<String>,
}

/// The checkpoint options read from `args[i..]` on top of `acc`; arguments
/// that are not options are passed over.
pub open spec fn checkpoint_args_from(args: Seq<String>, i: int, acc: CheckpointArgs) -> Result<
    CheckpointArgs,
    ArgError,
>
    decreases args.len() - i,
{
    if i < 0 || i >= args.len() {
        Ok(acc)
    } else if args[i]@ == "--author"@ {
        if i + 1 < args.len() {
            checkpoint_args_from(args, i + 2, CheckpointArgs { author: Some(args[i + 1]), ..acc })
        } else {
            Err(ArgError::MissingAuthor)
        }
    } else if args[i]@ == "--show-working-log"@ {
        checkpoint_args_from(args, i + 1, CheckpointArgs { show_working_log: true, ..acc })
    } else if args[i]@ == "--reset"@ {
        checkpoint_args_from(args, i + 1, CheckpointArgs { reset: true, ..acc })
    } else if args[i]@ == "--prompt-id"@ {
        if i + 1 < args.len() {
            checkpoint_args_from(
                args,
                i + 2,
                CheckpointArgs { prompt_id: Some(args[i + 1]), ..acc },
            )
        } else {
            Err(ArgError::MissingPromptId)
        }
    } else if args[i]@ == "--hook-input"@ {
        if i + 1 < args.len() {
            checkpoint_args_from(
                args,
                i + 2,
                CheckpointArgs { hook_input: Some(args[i + 1]), ..acc },
            )
        } else {
            Err(ArgError::MissingHookInput)
        }
    } else {
        checkpoint_args_from(args, i + 1, acc)
    }
}

pub open spec fn first_arg(args: Seq<String>) -> Option<String> {
    if args.len() > 0 {
        Some(args[0])
    } else {
        None
    }
}

/// Reads the options of the checkpoint command.
pub fn parse_checkpoint_args(args: &Vec<String>) -> (r: Result<CheckpointArgs, ArgError>)
    ensures
        r == checkpoint_args_from(
            args@,
            0,
            CheckpointArgs {
                preset: first_arg(args@),
                author: None,
                show_working_log: false,
                reset: false,
                prompt_id: None,
                hook_input: None,
            },
        ),
{
    proof {
        reveal_strlit("--author");
        reveal_strlit("--show-working-log");
        reveal_strlit("--reset");
        reveal_strlit("--prompt-id");
        reveal_strlit("--hook-input");
    }
    let author_flag = String::from_str("--author");
    let show_flag = String::from_str("--show-working-log");
    let reset_flag = String::from_str("--reset");
    let prompt_flag = String::from_str("--prompt-id");
    let hook_flag = String::from_str("--hook-input");
    let preset = if args.len() > 0 {
        Some(args[0].clone())
    } else {
        None
    };
    let mut acc = CheckpointArgs {
        preset,
        author: None,
        show_working_log: false,
        reset: false,
        prompt_id: None,
        hook_input: None,
    };
    let ghost start = acc;
    let mut i: usize = 0;
    while i < args.len()
        invariant
            i <= args@.len(),
            author_flag@ == "--author"@,
            show_flag@ == "--show-working-log"@,
            reset_flag@ == "--reset"@,
            prompt_flag@ == "--prompt-id"@,
            hook_flag@ == "--hook-input"@,
            start == (CheckpointArgs {
                preset: first_arg(args@),
                author: None,
                show_working_log: false,
                reset: false,
                prompt_id: None,
                hook_input: None,
            }),
            checkpoint_args_from(args@, i as int, acc) == checkpoint_args_from(args@, 0, start),
        decreases args@.len() - i,
    {
        if args[i] == author_flag {
            if i + 1 < args.len() {
                acc = CheckpointArgs { author: Some(args[i + 1].clone()), ..acc };
                i = i + 2;
            } else {
                return Err(ArgError::MissingAuthor);
            }
        } else if args[i] == show_flag {
            acc = CheckpointArgs { show_working_log: true, ..acc };
            i = i + 1;
        } else if args[i] == reset_flag {
            acc = CheckpointArgs { reset: true, ..acc };
            i = i + 1;
        } else if args[i] == prompt_flag {
            if i + 1 < args.len() {
                acc = CheckpointArgs { prompt_id: Some(args[i + 1].clone()), ..acc };
                i = i + 2;
            } else {
                return Err(ArgError::MissingPromptId);
            }
        } else if args[i] == hook_flag {
            if i + 1 < args.len() {
                acc = CheckpointArgs { hook_input: Some(args[i + 1].clone()), ..acc };
                i = i + 2;
            } else {
                return Err(ArgError::MissingHookInput);
            }
        } else {
            i = i + 1;
        }
    }
    Ok(acc)
}

/// Options of the single-commit statistics command.
pub struct StatsArgs {
    pub commit: Option<String>,
    pub json: bool,
}

/// The statistics options read from `args[i..]` on top of `acc`: `--json`, and
/// one commit; a second non-option argument is refused.
pub open spec fn stats_args_from(args: Seq<String>, i: int, acc: StatsArgs) -> Result<
    StatsArgs,
    ArgError,
>
    decreases args.len() - i,
{
    if i < 0 || i >= args.len() {
        Ok(acc)
    } else if args[i]@ == "--json"@ {
        stats_args_from(args, i + 1, StatsArgs { json: true, ..acc })
    } else if acc.commit is None {
        stats_args_from(args, i + 1, StatsArgs { commit: Some(args[i]), ..acc })
    } else {
        Err(ArgError::Unknown(i as usize))
    }
}

/// Reads the options of the single-commit statistics command.
pub fn parse_stats_args(args: &Vec<String>) -> (r: Result<StatsArgs, ArgError>)
    ensures
        r == stats_args_from(args@, 0, StatsArgs { commit: None, json: false }),
{
    let json_flag = String::from_str("--json");
    let mut acc = StatsArgs { commit: None, json: false };
    let ghost start = acc;
    let mut i: usize = 0;
    while i < args.len()
        invariant
            i <= args@.len(),
            json_flag@ == "--json"@,
            start == (StatsArgs { commit: None, json: false }),
            stats_args_from(args@, i as int, acc) == stats_args_from(args@, 0, start),
        decreases args@.len() - i,
    {
        if args[i] == json_flag {
            acc = StatsArgs { json: true, ..acc };
        } else if acc.commit.is_none() {
            acc = StatsArgs { commit: Some(args[i].clone()), ..acc };
        } else {
            return Err(ArgError::Unknown(i));
        }
        i = i + 1;
    }
    Ok(acc)
}

/// Options of the squash command: the branch, the squash commit and the tip
/// of the squashed commits, in that order, and `--dry-run`.
pub struct SquashArgs {
    pub positional: Vec<String>,
    pub dry_run: bool,
}

/// The squash options read from `args[i..]` with `pos` positional arguments
/// and `dry` for `--dry-run` so far.
pub open spec fn squash_args_from(args: Seq<String>, i: int, pos: Seq<String>, dry: bool) -> Result<
    (Seq<String>, bool),
    ArgError,
>
    decreases args.len() - i,
{
    if i < 0 || i >= args.len() {
        if pos.len() == 3 {
            Ok((pos, dry))
        } else {
            Err(ArgError::MissingSquashTarget)
        }
    } else if args[i]@ == "--dry-run"@ {
        squash_args_from(args, i + 1, pos, true)
    } else if pos.len() < 3 {
        squash_args_from(args, i + 1, pos.push(args[i]), dry)
    } else {
        Err(ArgError::Unknown(i as usize))
    }
}

/// Reads the options of the squash command.
pub fn parse_squash_args(args: &Vec<String>) -> (r: Result<SquashArgs, ArgError>)
    ensures
        match r {
            Ok(a) => squash_args_from(args@, 0, Seq::empty(), false) == Ok::<
                (Seq<String>, bool),
                ArgError,
            >((a.positional@, a.dry_run)),
            Err(e) => squash_args_from(args@, 0, Seq::empty(), false) == Err::<
                (Seq<String>, bool),
                ArgError,
            >(e),
        },
{
    let dry_flag = String::from_str("--dry-run");
    let mut positional: Vec<String> = Vec::new();
    let mut dry_run = false;
    let mut i: usize = 0;
    while i < args.len()
        invariant
            i <= args@.len(),
            dry_flag@ == "--dry-run"@,
            positional@.len() <= 3,
            squash_args_from(args@, i as int, positional@, dry_run) == squash_args_from(
                args@,
                0,
                Seq::empty(),
                false,
            ),
        decreases args@.len() - i,
    {
        if args[i] == dry_flag {
            dry_run = true;
        } else if positional.len() < 3 {
            positional.push(args[i].clone());
        } else {
            return Err(ArgError::Unknown(i));
        }
        i = i + 1;
    }
    if positional.len() == 3 {
        Ok(SquashArgs { positional, dry_run })
    } else {
        Err(ArgError::MissingSquashTarget)
    }
}

} // verus!
