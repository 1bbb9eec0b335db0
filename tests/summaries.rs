use git_ai::notes::{append_ai_percentage_to_notes, decimal, strip_attribution_block, updated_note};
use git_ai::stats::{aggregate_stats, percentage, CommitStats};

fn stats(ai: u64, human: u64, mixed: u64) -> CommitStats {
    CommitStats {
        commit_sha: "abc".to_string(),
        git_diff_added_lines: ai + human + mixed,
        ai_additions: ai,
        human_additions: human,
        mixed_additions: mixed,
    }
}

#[test]
fn aggregate_over_branch() {
    let r = aggregate_stats(&vec![stats(2, 8, 0), stats(5, 0, 0)]);
    assert_eq!(r.total_ai_lines, 7);
    assert_eq!(r.total_human_lines, 8);
    assert_eq!(r.total_additions, 15);
    assert_eq!(r.ai_percentage, 47);
    assert_eq!(r.human_percentage, 53);
    assert_eq!(r.total_commits, 2);
    assert_eq!(r.commits_with_ai, 2);
    assert_eq!(r.total_mixed_lines, 0);
}

#[test]
fn aggregate_counts_commits_with_ai() {
    let r = aggregate_stats(&vec![stats(0, 3, 0), stats(1, 0, 1), stats(0, 0, 0)]);
    assert_eq!(r.total_commits, 3);
    assert_eq!(r.commits_with_ai, 1);
    assert_eq!(r.total_mixed_lines, 1);
    assert_eq!(r.total_additions, 5);
    assert_eq!(r.ai_percentage, 20);
}

#[test]
fn aggregate_of_nothing() {
    let r = aggregate_stats(&vec![]);
    assert_eq!((r.total_commits, r.total_additions, r.ai_percentage, r.human_percentage), (0, 0, 0, 0));
}

#[test]
fn percentage_rounds_half_up() {
    assert_eq!(percentage(0, 0), 0);
    assert_eq!(percentage(1, 2), 50);
    assert_eq!(percentage(1, 3), 33);
    assert_eq!(percentage(2, 3), 67);
    assert_eq!(percentage(1, 200), 1);
    assert_eq!(percentage(1, 201), 0);
    assert_eq!(percentage(5, 5), 100);
    assert_eq!(percentage(u64::MAX, u64::MAX), 100);
    assert_eq!(stats(1, 7, 0).ai_percentage(), 13);
    assert_eq!(stats(1, 7, 0).human_percentage(), 88);
}

#[test]
fn decimal_text() {
    assert_eq!(decimal(0), "0");
    assert_eq!(decimal(7), "7");
    assert_eq!(decimal(1230), "1230");
    assert_eq!(decimal(u64::MAX), "18446744073709551615");
}

const BLOCK_2_8: &str = "\n\n--- AI Contribution Metadata ---\nAI-Percentage: 20%\nAI-Lines: 2/10\nHuman-Lines: 8/10\nMixed-Lines: 0\nGenerated: T1";

#[test]
fn note_block_format() {
    let r = updated_note(&None, &stats(2, 8, 0), &"T1".to_string());
    assert_eq!(r, BLOCK_2_8);
}

#[test]
fn note_keeps_earlier_content() {
    let r = updated_note(&Some("log line\nmore".to_string()), &stats(2, 8, 0), &"T1".to_string());
    assert_eq!(r, format!("log line\nmore{}", BLOCK_2_8));
}

#[test]
fn note_write_twice_keeps_one_block() {
    let once = updated_note(&Some("log".to_string()), &stats(2, 8, 0), &"T1".to_string());
    let twice = updated_note(&Some(once.clone()), &stats(2, 8, 0), &"T1".to_string());
    assert_eq!(twice, once);
    let later = updated_note(&Some(once), &stats(2, 8, 0), &"T2".to_string());
    assert_eq!(later, updated_note(&Some("log".to_string()), &stats(2, 8, 0), &"T2".to_string()));
    assert_eq!(later.matches("--- AI Contribution Metadata ---").count(), 1);
}

#[test]
fn strip_block_cases() {
    assert_eq!(strip_attribution_block(&"plain".to_string()), "plain");
    assert_eq!(strip_attribution_block(&format!("x{}", BLOCK_2_8)), "x");
    assert_eq!(strip_attribution_block(&"\n--- AI Contribution Metadata ---".to_string()), "\n--- AI Contribution Metadata ---");
    assert_eq!(strip_attribution_block(&"é\n\n--- AI Contribution Metadata ---\nrest".to_string()), "é");
}

#[test]
fn stamped_note_carries_instant() {
    let r = append_ai_percentage_to_notes(&Some("log".to_string()), &stats(1, 1, 0), 0, 0).unwrap();
    assert_eq!(r, "log\n\n--- AI Contribution Metadata ---\nAI-Percentage: 50%\nAI-Lines: 1/2\nHuman-Lines: 1/2\nMixed-Lines: 0\nGenerated: 1970-01-01T00:00:00+00:00");
    let r = append_ai_percentage_to_notes(&None, &stats(0, 1, 0), 1431648000, 0).unwrap();
    assert!(r.ends_with("Generated: 2015-05-15T00:00:00+00:00"));
    assert_eq!(append_ai_percentage_to_notes(&None, &stats(0, 1, 0), i64::MAX, 0), None);
}

#[test]
fn note_keeps_content_after_block() {
    let note = format!("head{}\ntail line", BLOCK_2_8);
    assert_eq!(strip_attribution_block(&note), "head\ntail line");
    let r = updated_note(&Some(note), &stats(2, 8, 0), &"T1".to_string());
    assert_eq!(r, format!("head\ntail line{}", BLOCK_2_8));
}

#[test]
fn note_opening_with_marker_is_recognised() {
    let note = BLOCK_2_8.trim_start_matches('\n').to_string();
    assert_eq!(strip_attribution_block(&note), "");
    let r = updated_note(&Some(note), &stats(2, 8, 0), &"T2".to_string());
    assert_eq!(r.matches("--- AI Contribution Metadata ---").count(), 1);
    assert!(r.ends_with("Generated: T2"));
}
