use git_ai::capture::{
    capture_directory, checkpoint, checkpoint_author, line_delta, AgentRunResult, FileSnapshot,
};
use git_ai::classify::{classify_line, is_fused_into, AuthorKind, Contribution, LineClass};
use git_ai::reconcile::{attribute_diff, excluded_files, stats_of, AttributedLine, FileAdditions};
use git_ai::rewrite::{
    handle_rewrite_log_event, reconcile_amend, reconcile_commit, reconcile_squash,
    RewriteLogEvent,
};
use git_ai::stats::CommitStats;
use git_ai::working_log::{AgentIdentity, CheckpointAuthor, WorkingLog, WorkingLogError};
use git_ai::rewrite::{already_applied, event_tag, note_for_event, note_payload};

fn s(x: &str) -> String {
    x.to_string()
}

fn lines(xs: &[&str]) -> Vec<String> {
    xs.iter().map(|x| x.to_string()).collect()
}

fn codebot() -> AgentRunResult {
    AgentRunResult {
        agent_id: AgentIdentity { tool: s("codebot"), session_id: s("s1"), model: s("m") },
        is_human: false,
        transcript: None,
        repo_working_dir: None,
    }
}

fn snapshot(path: &str, before: &[&str], after: &[&str]) -> FileSnapshot {
    FileSnapshot { path: s(path), before: lines(before), after: lines(after) }
}

fn additions(path: &str, added: &[&str]) -> FileAdditions {
    FileAdditions { path: s(path), added: Some(lines(added)) }
}

fn counts(st: &CommitStats) -> (u64, u64, u64, u64) {
    (st.git_diff_added_lines, st.ai_additions, st.human_additions, st.mixed_additions)
}

fn new_log() -> WorkingLog {
    WorkingLog::new(Some(s("/repo")))
}

#[test]
fn agent_checkpoint_then_commit_counts_all_ai() {
    let mut log = new_log();
    let r = checkpoint(
        &mut log,
        &Some(codebot()),
        1,
        &vec![snapshot("a.txt", &[], &["one", "two", "three"])],
        false,
    );
    assert_eq!(r, Ok(()));
    let diff = vec![additions("a.txt", &["one", "two", "three"])];
    let rec = reconcile_commit(None, s("c1"), &diff, Some(log.read_all()));
    assert_eq!(counts(&rec.stats), (3, 3, 0, 0));
    assert_eq!(rec.stats.commit_sha, "c1");
    assert!(rec.clears_working_log);
}

fn agent_then_human(replacement: &str) -> CommitStats {
    let mut log = new_log();
    checkpoint(&mut log, &Some(codebot()), 1, &vec![snapshot("a.txt", &[], &["a", "b", "c"])], false)
        .unwrap();
    checkpoint(
        &mut log,
        &None,
        2,
        &vec![snapshot("a.txt", &["a", "b", "c"], &["a", "b", replacement])],
        false,
    )
    .unwrap();
    let diff = vec![additions("a.txt", &["a", "b", replacement])];
    reconcile_commit(Some(s("p")), s("c2"), &diff, Some(log.read_all())).stats
}

#[test]
fn human_replacement_with_new_text_is_human() {
    let st = agent_then_human("zzz");
    assert_eq!(counts(&st), (3, 2, 1, 0));
}

#[test]
fn human_extension_of_agent_line_is_mixed() {
    let st = agent_then_human("c // checked");
    assert_eq!(counts(&st), (3, 2, 0, 1));
}

#[test]
fn human_prefix_to_agent_line_is_mixed() {
    let st = agent_then_human("pub c");
    assert_eq!(counts(&st), (3, 2, 0, 1));
}

#[test]
fn unattributed_line_is_human() {
    let mut log = new_log();
    checkpoint(&mut log, &Some(codebot()), 1, &vec![snapshot("a.txt", &[], &["x"])], false).unwrap();
    let diff = vec![additions("a.txt", &["x", "typed by hand"]), additions("b.txt", &["x"])];
    let rec = reconcile_commit(None, s("c"), &diff, Some(log.read_all()));
    assert_eq!(rec.lines[1].class, LineClass::Human);
    assert_eq!(rec.lines[2].class, LineClass::Human);
    assert_eq!(counts(&rec.stats), (3, 1, 2, 0));
}

#[test]
fn unreadable_log_counts_every_line_human() {
    let diff = vec![additions("a.txt", &["x", "y"])];
    let rec = reconcile_commit(None, s("c"), &diff, None);
    assert_eq!(counts(&rec.stats), (2, 0, 2, 0));
    assert!(!rec.clears_working_log);
}

#[test]
fn buckets_sum_to_added_lines() {
    let cs = vec![
        Contribution { path: s("f"), text: s("a"), class: LineClass::Ai, carried: false },
        Contribution { path: s("f"), text: s("b"), class: LineClass::Human, carried: false },
        Contribution { path: s("f"), text: s("b"), class: LineClass::Ai, carried: false },
    ];
    let diff = vec![additions("f", &["a", "b", "c", "a"])];
    let ls = attribute_diff(&cs, &diff);
    let st = stats_of(s("x"), &ls);
    // one AI contribution of "a" accounts for the first "a" only
    assert_eq!(counts(&st), (4, 1, 2, 1));
    assert_eq!(st.ai_additions + st.human_additions + st.mixed_additions, st.git_diff_added_lines);
}

#[test]
fn excluded_file_does_not_count() {
    let diff = vec![
        FileAdditions { path: s("img.png"), added: None },
        additions("a.txt", &["x"]),
    ];
    let rec = reconcile_commit(None, s("c"), &diff, None);
    assert_eq!(rec.stats.git_diff_added_lines, 1);
    assert_eq!(excluded_files(&diff), vec![s("img.png")]);
}

#[test]
fn classification_is_per_file() {
    let cs = vec![Contribution { path: s("a"), text: s("x"), class: LineClass::Ai, carried: false }];
    assert_eq!(classify_line(&cs, &s("a"), &s("x"), 0), LineClass::Ai);
    assert_eq!(classify_line(&cs, &s("b"), &s("x"), 0), LineClass::Human);
}

#[test]
fn carried_lines_match_exactly_only() {
    let cs = vec![Contribution { path: s("a"), text: s("x"), class: LineClass::Human, carried: true }];
    let ai = Contribution { path: s("a"), text: s("x y"), class: LineClass::Ai, carried: false };
    let mut both = cs;
    both.push(ai);
    assert_eq!(classify_line(&both, &s("a"), &s("x y"), 0), LineClass::Ai);
}

#[test]
fn fusion_rule() {
    assert!(is_fused_into(&s("abc"), &s("abc; // x")));
    assert!(is_fused_into(&s("abc"), &s("let q = abc")));
    assert!(!is_fused_into(&s("abc"), &s("abc")));
    assert!(!is_fused_into(&s(""), &s("abc")));
    assert!(!is_fused_into(&s("b"), &s("abc")));
}

fn first_commit() -> (Vec<FileAdditions>, Vec<AttributedLine>, CommitStats) {
    let mut log = new_log();
    checkpoint(&mut log, &Some(codebot()), 1, &vec![snapshot("a", &[], &["p", "q"])], false).unwrap();
    checkpoint(&mut log, &None, 2, &vec![snapshot("a", &["p", "q"], &["p", "q", "r", "s"])], false)
        .unwrap();
    let diff = vec![additions("a", &["p", "q", "r", "s"]), additions("b", &["zz"])];
    let rec = reconcile_commit(None, s("c1"), &diff, Some(log.read_all()));
    (diff, rec.lines, rec.stats)
}

#[test]
fn amend_without_new_work_keeps_counts() {
    let (diff, lines1, st1) = first_commit();
    assert_eq!(counts(&st1), (5, 2, 3, 0));
    let empty = new_log();
    let rec = reconcile_amend(s("c1b"), &diff, &lines1, Some(empty.read_all()));
    assert_eq!(counts(&rec.stats), counts(&st1));
    assert_eq!(rec.stats.commit_sha, "c1b");
}

#[test]
fn amend_with_new_work_adds_it() {
    let (mut diff, lines1, _) = first_commit();
    let mut log = new_log();
    checkpoint(&mut log, &Some(codebot()), 3, &vec![snapshot("b", &["zz"], &["zz", "new"])], false)
        .unwrap();
    diff[1] = additions("b", &["zz", "new"]);
    let rec = reconcile_amend(s("c1c"), &diff, &lines1, Some(log.read_all()));
    assert_eq!(counts(&rec.stats), (6, 3, 3, 0));
}

#[test]
fn squash_of_disjoint_commits_conserves_ai() {
    let c1 = vec![
        AttributedLine { path: s("a"), text: s("x"), class: LineClass::Ai },
        AttributedLine { path: s("a"), text: s("y"), class: LineClass::Human },
    ];
    let c2 = vec![
        AttributedLine { path: s("b"), text: s("x"), class: LineClass::Ai },
        AttributedLine { path: s("a"), text: s("z"), class: LineClass::Mixed },
        AttributedLine { path: s("a"), text: s("w"), class: LineClass::Ai },
    ];
    let diff = vec![additions("a", &["x", "y", "z", "w"]), additions("b", &["x"])];
    let rec = reconcile_squash(s("sq"), &diff, &vec![c1, c2]);
    assert_eq!(counts(&rec.stats), (5, 3, 1, 1));
    assert!(!rec.clears_working_log);
}

#[test]
fn rewrite_events_dispatch() {
    let (diff, lines1, st1) = first_commit();
    let empty = new_log();
    let amend = RewriteLogEvent::commit_amend(s("c1"), s("c9"));
    let rec = handle_rewrite_log_event(&amend, &diff, Some(empty.read_all()), &lines1, &vec![]);
    assert_eq!(counts(&rec.stats), counts(&st1));
    assert_eq!(rec.stats.commit_sha, "c9");
    let plain = RewriteLogEvent::commit(Some(s("c1")), s("c10"));
    let rec = handle_rewrite_log_event(&plain, &diff, Some(empty.read_all()), &lines1, &vec![]);
    assert_eq!(counts(&rec.stats), (5, 0, 5, 0));
    let squash = RewriteLogEvent::squash(s("main"), s("c11"), s("c0"));
    assert_eq!(squash.new_sha(), "c11");
    let rec = handle_rewrite_log_event(&squash, &diff, None, &vec![], &vec![lines1]);
    assert_eq!(counts(&rec.stats), counts(&st1));
}

#[test]
fn bare_repository_refuses_checkpoint() {
    let mut log = WorkingLog::new(None);
    let r = checkpoint(&mut log, &None, 1, &vec![snapshot("a", &[], &["x"])], false);
    assert_eq!(r, Err(WorkingLogError::BareRepository));
    assert!(log.is_empty());
}

#[test]
fn reset_discards_records() {
    let mut log = new_log();
    checkpoint(&mut log, &None, 1, &vec![snapshot("a", &[], &["x"])], false).unwrap();
    assert!(!log.is_empty());
    assert_eq!(checkpoint(&mut log, &None, 2, &vec![], true), Ok(()));
    assert!(log.is_empty());
    assert_eq!(log.read_all().len(), 0);
}

#[test]
fn checkpoint_record_holds_delta() {
    let mut log = new_log();
    checkpoint(&mut log, &Some(codebot()), 7, &vec![snapshot("a", &["k", "old", "z"], &["k", "n1", "n2", "z"])], false)
        .unwrap();
    let rec = &log.read_all()[0];
    assert_eq!(rec.timestamp, 7);
    assert_eq!(rec.author.kind(), AuthorKind::Ai);
    let d = &rec.patch[0];
    assert_eq!(d.added_text, lines(&["n1", "n2"]));
    assert_eq!(d.added_ranges.len(), 1);
    assert_eq!((d.added_ranges[0].start, d.added_ranges[0].len), (1, 2));
    assert_eq!((d.removed_ranges[0].start, d.removed_ranges[0].len), (1, 1));
    assert_eq!(log.contributions().len(), 2);
}

#[test]
fn line_delta_prefix_and_suffix() {
    let d = line_delta(&lines(&["a", "b", "c", "d"]), &lines(&["a", "x", "d"]));
    assert_eq!((d.prefix, d.suffix), (1, 1));
    assert_eq!(d.removed, lines(&["b", "c"]));
    assert_eq!(d.added, lines(&["x"]));
    let d = line_delta(&lines(&[]), &lines(&["a"]));
    assert_eq!((d.prefix, d.suffix), (0, 0));
    assert_eq!(d.added, lines(&["a"]));
    let d = line_delta(&lines(&["a", "a"]), &lines(&["a", "a", "a"]));
    assert_eq!((d.prefix, d.suffix), (2, 0));
    assert_eq!(d.added, lines(&["a"]));
}

#[test]
fn human_flag_overrides_agent() {
    let mut r = codebot();
    r.is_human = true;
    assert!(matches!(checkpoint_author(&Some(r)), CheckpointAuthor::Human));
    assert!(matches!(checkpoint_author(&None), CheckpointAuthor::Human));
    match checkpoint_author(&Some(codebot())) {
        CheckpointAuthor::Agent(a) => assert_eq!((a.tool, a.session_id, a.model), (s("codebot"), s("s1"), s("m"))),
        CheckpointAuthor::Human => panic!("expected the agent"),
    }
}

#[test]
fn agent_directory_overrides_cwd() {
    assert_eq!(capture_directory(&Some(codebot()), &s("/cwd")), "/cwd");
    let mut r = codebot();
    r.repo_working_dir = Some(s("/other"));
    assert_eq!(capture_directory(&Some(r), &s("/cwd")), "/other");
    assert_eq!(capture_directory(&None, &s("/cwd")), "/cwd");
}

#[test]
fn hand_typed_copy_of_agent_line_is_human() {
    let mut log = new_log();
    checkpoint(&mut log, &Some(codebot()), 1, &vec![snapshot("a.rs", &["fn f() {"], &["fn f() {", "}"])], false)
        .unwrap();
    let diff = vec![additions("a.rs", &["}", "x", "}"])];
    let rec = reconcile_commit(None, s("c"), &diff, Some(log.read_all()));
    assert_eq!(rec.lines[0].class, LineClass::Ai);
    assert_eq!(rec.lines[2].class, LineClass::Human);
    assert_eq!(counts(&rec.stats), (3, 1, 2, 0));
}

#[test]
fn duplicates_match_one_contribution_each() {
    let cs = vec![
        Contribution { path: s("f"), text: s(""), class: LineClass::Ai, carried: false },
        Contribution { path: s("f"), text: s(""), class: LineClass::Ai, carried: false },
    ];
    assert_eq!(classify_line(&cs, &s("f"), &s(""), 0), LineClass::Ai);
    assert_eq!(classify_line(&cs, &s("f"), &s(""), 1), LineClass::Ai);
    assert_eq!(classify_line(&cs, &s("f"), &s(""), 2), LineClass::Human);
}

#[test]
fn carried_duplicates_keep_their_own_classes() {
    let first = vec![
        AttributedLine { path: s("f"), text: s("}"), class: LineClass::Ai },
        AttributedLine { path: s("f"), text: s("}"), class: LineClass::Human },
    ];
    let diff = vec![additions("f", &["}", "}"])];
    let rec = reconcile_amend(s("c2"), &diff, &first, None);
    assert_eq!(rec.lines[0].class, LineClass::Ai);
    assert_eq!(rec.lines[1].class, LineClass::Human);
}

#[test]
fn earlier_timestamp_is_refused() {
    let mut log = new_log();
    checkpoint(&mut log, &None, 5, &vec![snapshot("a", &[], &["x"])], false).unwrap();
    let r = checkpoint(&mut log, &None, 4, &vec![snapshot("a", &["x"], &["x", "y"])], false);
    assert_eq!(r, Err(WorkingLogError::OutOfOrder));
    assert_eq!(log.read_all().len(), 1);
    assert_eq!(log.last_timestamp(), Some(5));
    assert_eq!(checkpoint(&mut log, &None, 5, &vec![], false), Ok(()));
    assert_eq!(log.read_all().len(), 2);
}

#[test]
fn replayed_event_leaves_note_alone() {
    let e = RewriteLogEvent::commit(None, s("abc"));
    assert_eq!(event_tag(&e), "Rewrite-Event: commit - abc");
    let first = note_for_event(&None, &e, &s("[1]"));
    assert_eq!(first, "Rewrite-Event: commit - abc\n[1]");
    assert!(already_applied(&Some(first.clone()), &e));
    let again = note_for_event(&Some(first.clone()), &e, &s("[2]"));
    assert_eq!(again, first);
    let amend = RewriteLogEvent::commit_amend(s("abc"), s("def"));
    assert!(!already_applied(&Some(first.clone()), &amend));
    assert_eq!(note_for_event(&Some(first.clone()), &amend, &s("[3]")), "Rewrite-Event: amend abc def\n[3]");
    assert_eq!(note_payload(&first), "[1]");
    assert_eq!(note_payload(&s("one line")), "");
}
