use git_ai::cli::{
    parse_checkpoint_args, parse_count, parse_squash_args, parse_stats_args, parse_stats_repo_args,
    ArgError,
};
use git_ai::commit_hooks::{
    commit_post_command_event, extract_author_from_args, get_commit_default_author, has_flag,
    parse_commit_log, short_sha, AuthorSources,
};
use git_ai::rewrite::RewriteLogEvent;

fn args(xs: &[&str]) -> Vec<String> {
    xs.iter().map(|x| x.to_string()).collect()
}

fn s(x: &str) -> Option<String> {
    Some(x.to_string())
}

fn sources() -> AuthorSources {
    AuthorSources {
        resolved_option: None,
        env_name: None,
        config_name: None,
        env_email: None,
        config_email: None,
        env_fallback: None,
    }
}

#[test]
fn author_option_forms() {
    assert_eq!(extract_author_from_args(&args(&["-m", "x", "--author=A <a@b>"])), s("A <a@b>"));
    assert_eq!(extract_author_from_args(&args(&["--author", "B", "--author=C"])), s("B"));
    assert_eq!(extract_author_from_args(&args(&["--author=", "x"])), s(""));
    assert_eq!(extract_author_from_args(&args(&["-m", "--author"])), None);
    assert_eq!(extract_author_from_args(&args(&[])), None);
    assert_eq!(extract_author_from_args(&args(&["--authors=x"])), None);
}

#[test]
fn default_author_precedence() {
    let mut src = sources();
    assert_eq!(get_commit_default_author(&src), "unknown");
    src.env_fallback = s(" jo@x.org ");
    assert_eq!(get_commit_default_author(&src), " jo <jo@x.org>");
    src.config_name = s("Conf");
    src.env_name = s("  ");
    assert_eq!(get_commit_default_author(&src), "Conf <jo@x.org>");
    src.env_name = s("  Env Name ");
    src.config_email = s("c@x");
    assert_eq!(get_commit_default_author(&src), "Env Name <c@x>");
    src.env_email = s("e@x");
    assert_eq!(get_commit_default_author(&src), "Env Name <e@x>");
    src.resolved_option = s("  Given <g@x>  ");
    assert_eq!(get_commit_default_author(&src), "Given <g@x>");
    src.resolved_option = s("   ");
    assert_eq!(get_commit_default_author(&src), "Env Name <e@x>");
}

#[test]
fn default_author_from_fallback_without_at() {
    let mut src = sources();
    src.env_fallback = s("nobody");
    assert_eq!(get_commit_default_author(&src), "nobody");
    src.env_fallback = s("@host");
    src.config_name = s("N");
    assert_eq!(get_commit_default_author(&src), "N <@host>");
}

#[test]
fn post_commit_events() {
    assert!(commit_post_command_event(true, s("o"), None).is_none());
    match commit_post_command_event(true, s("o"), s("n")) {
        Some(RewriteLogEvent::CommitAmend { original, new }) => assert_eq!((original, new), ("o".to_string(), "n".to_string())),
        _ => panic!("expected an amend"),
    }
    match commit_post_command_event(false, s("o"), s("n")) {
        Some(RewriteLogEvent::Commit { original, new }) => assert_eq!((original, new), (s("o"), "n".to_string())),
        _ => panic!("expected a commit"),
    }
    match commit_post_command_event(true, None, s("n")) {
        Some(RewriteLogEvent::Commit { original, new }) => assert_eq!((original, new), (None, "n".to_string())),
        _ => panic!("expected a commit"),
    }
}

#[test]
fn flags() {
    assert!(has_flag(&args(&["-q", "--amend"]), &"--amend".to_string()));
    assert!(!has_flag(&args(&["--amend=x"]), &"--amend".to_string()));
}

#[test]
fn commit_log_pairs() {
    let lines = args(&["  abc123  ", " first subject ", "", "def456", "second", "ghi789"]);
    let r = parse_commit_log(&lines);
    let got: Vec<(String, String)> = r.into_iter().map(|e| (e.sha, e.subject)).collect();
    assert_eq!(
        got,
        vec![
            ("abc123".to_string(), "first subject".to_string()),
            ("def456".to_string(), "second".to_string()),
            ("ghi789".to_string(), "".to_string()),
        ]
    );
}

#[test]
fn short_shas() {
    assert_eq!(short_sha(&"0123456789abcdef".to_string()), "01234567");
    assert_eq!(short_sha(&"abc".to_string()), "abc");
}

#[test]
fn counts() {
    assert_eq!(parse_count(&"42".to_string()), Some(42));
    assert_eq!(parse_count(&"+7".to_string()), Some(7));
    assert_eq!(parse_count(&"".to_string()), None);
    assert_eq!(parse_count(&"+".to_string()), None);
    assert_eq!(parse_count(&"-1".to_string()), None);
    assert_eq!(parse_count(&"4x".to_string()), None);
    assert_eq!(parse_count(&"18446744073709551615".to_string()), Some(u64::MAX));
    assert_eq!(parse_count(&"18446744073709551616".to_string()), None);
}

#[test]
fn stats_repo_options() {
    let r = parse_stats_repo_args(&args(&["--limit", "5", "--branch", "dev", "--json", "--since", "2024-01-01"])).unwrap();
    assert_eq!(r.limit, Some(5));
    assert_eq!(r.branch, s("dev"));
    assert_eq!(r.since, s("2024-01-01"));
    assert!(r.json);
    let r = parse_stats_repo_args(&args(&["--limit", "many"])).unwrap();
    assert_eq!(r.limit, None);
    assert!(matches!(parse_stats_repo_args(&args(&["--limit"])), Err(ArgError::MissingLimit)));
    assert!(matches!(parse_stats_repo_args(&args(&["--branch"])), Err(ArgError::MissingBranch)));
    assert!(matches!(parse_stats_repo_args(&args(&["--since"])), Err(ArgError::MissingSince)));
    assert!(matches!(parse_stats_repo_args(&args(&["--json", "x"])), Err(ArgError::Unknown(1))));
}

#[test]
fn checkpoint_options() {
    let r = parse_checkpoint_args(&args(&["codebot", "--hook-input", "{}", "--reset", "--author", "me"])).unwrap();
    assert_eq!(r.preset, s("codebot"));
    assert_eq!(r.hook_input, s("{}"));
    assert_eq!(r.author, s("me"));
    assert!(r.reset);
    assert!(!r.show_working_log);
    assert_eq!(r.prompt_id, None);
    let r = parse_checkpoint_args(&args(&["--show-working-log", "--prompt-id", "p"])).unwrap();
    assert!(r.show_working_log);
    assert_eq!(r.prompt_id, s("p"));
    assert_eq!(r.preset, s("--show-working-log"));
    assert!(parse_checkpoint_args(&args(&[])).unwrap().preset.is_none());
    assert!(matches!(parse_checkpoint_args(&args(&["x", "--author"])), Err(ArgError::MissingAuthor)));
    assert!(matches!(parse_checkpoint_args(&args(&["--prompt-id"])), Err(ArgError::MissingPromptId)));
    assert!(matches!(parse_checkpoint_args(&args(&["--hook-input"])), Err(ArgError::MissingHookInput)));
}

#[test]
fn stats_options() {
    let r = parse_stats_args(&args(&["--json", "HEAD~1"])).unwrap();
    assert!(r.json);
    assert_eq!(r.commit, s("HEAD~1"));
    assert!(parse_stats_args(&args(&[])).unwrap().commit.is_none());
    assert!(matches!(parse_stats_args(&args(&["a", "b"])), Err(ArgError::Unknown(1))));
}

#[test]
fn squash_options() {
    let r = parse_squash_args(&args(&["main", "--dry-run", "new", "old"])).unwrap();
    assert_eq!(r.positional, args(&["main", "new", "old"]));
    assert!(r.dry_run);
    let r = parse_squash_args(&args(&["main", "new", "old"])).unwrap();
    assert!(!r.dry_run);
    assert!(matches!(parse_squash_args(&args(&["main", "new"])), Err(ArgError::MissingSquashTarget)));
    assert!(matches!(parse_squash_args(&args(&["a", "b", "c", "d"])), Err(ArgError::Unknown(3))));
}

#[test]
fn author_trims_unicode_white_space() {
    let mut src = sources();
    src.resolved_option = s("\u{3000}\tGiven <g@x>\u{a0}\n");
    assert_eq!(get_commit_default_author(&src), "Given <g@x>");
    src.resolved_option = s("\u{2003} \u{85}");
    src.config_name = s(" n ");
    assert_eq!(get_commit_default_author(&src), "n");
}
