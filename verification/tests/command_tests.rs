use horikawa::command::{get_next_word_chunk, get_suggestion, help_text, Command, CommandError, RepeatModeArg};

#[test]
fn test_parse_add() {
    let cmd = Command::parse("add /path/to/file.mp3").unwrap();
    assert_eq!(cmd, Command::Add { path: "/path/to/file.mp3".to_string() });
}

#[test]
fn test_parse_add_alias() {
    let cmd = Command::parse("a /music").unwrap();
    assert_eq!(cmd, Command::Add { path: "/music".to_string() });
}

#[test]
fn test_parse_seek() {
    let cmd = Command::parse("seek 1:30").unwrap();
    assert_eq!(cmd, Command::Seek { position: 90 });
}

#[test]
fn test_parse_seek_seconds() {
    let cmd = Command::parse("seek 45").unwrap();
    assert_eq!(cmd, Command::Seek { position: 45 });
}

#[test]
fn test_parse_repeat_with_mode() {
    let cmd = Command::parse("repeat all").unwrap();
    assert_eq!(cmd, Command::Repeat { mode: Some(RepeatModeArg::All) });
}

#[test]
fn test_parse_repeat_toggle() {
    let cmd = Command::parse("repeat").unwrap();
    assert_eq!(cmd, Command::Repeat { mode: None });
}

#[test]
fn test_parse_unknown() {
    let result = Command::parse("foobar");
    assert!(matches!(result, Err(CommandError::Unknown(_))));
}

#[test]
fn test_parse_missing_arg() {
    let result = Command::parse("add");
    assert!(matches!(result, Err(CommandError::MissingArgument(_))));
}

#[test]
fn test_suggestion_partial_first_word() {
    assert_eq!(get_suggestion("go"), Some("to <path>".into()));
    assert_eq!(get_suggestion("pa"), Some("use".into()));
    assert_eq!(get_suggestion("sh"), Some("uffle".into()));
    assert_eq!(get_suggestion("n"), Some("ext".into()));
    assert_eq!(get_suggestion("h"), Some("elp".into()));
}

#[test]
fn test_suggestion_exact_command_with_hint() {
    assert_eq!(get_suggestion("goto"), Some(" <path>".into()));
    assert_eq!(get_suggestion("repeat"), Some(" [off|one|all]".into()));
    assert_eq!(get_suggestion("vol"), Some(" [0-100]".into()));
}

#[test]
fn test_suggestion_exact_command_no_hint() {
    assert_eq!(get_suggestion("play"), None);
    assert_eq!(get_suggestion("next"), None);
    assert_eq!(get_suggestion("help"), None);
    assert_eq!(get_suggestion("stop"), None);
}

#[test]
fn test_suggestion_command_space_hint() {
    assert_eq!(get_suggestion("goto "), Some("<path>".into()));
    assert_eq!(get_suggestion("repeat "), Some("[off|one|all]".into()));
    assert_eq!(get_suggestion("seek "), Some("<time>".into()));
}

#[test]
fn test_suggestion_command_space_no_hint() {
    assert_eq!(get_suggestion("play "), None);
    assert_eq!(get_suggestion("next "), None);
}

#[test]
fn test_suggestion_typing_args() {
    assert_eq!(get_suggestion("goto /music"), None);
    assert_eq!(get_suggestion("seek 1:30"), None);
    assert_eq!(get_suggestion("search foo"), None);
}

#[test]
fn test_suggestion_subcommand_parent_partial() {
    assert_eq!(get_suggestion("qu"), Some("eue add <path>".into()));
    assert_eq!(get_suggestion("playl"), Some("ist delete <name>".into()));
}

#[test]
fn test_suggestion_subcommand_parent_exact() {
    assert_eq!(get_suggestion("queue"), Some(" add <path>".into()));
    assert_eq!(get_suggestion("playlist"), Some(" delete <name>".into()));
}

#[test]
fn test_suggestion_subcommand_parent_space() {
    assert_eq!(get_suggestion("queue "), Some("add <path>".into()));
    assert_eq!(get_suggestion("playlist "), Some("delete <name>".into()));
}

#[test]
fn test_suggestion_subcommand_partial() {
    assert_eq!(get_suggestion("queue a"), Some("dd <path>".into()));
    assert_eq!(get_suggestion("queue cl"), Some("ear".into()));
    assert_eq!(get_suggestion("queue d"), Some("edup".into()));
    assert_eq!(get_suggestion("playlist d"), Some("elete <name>".into()));
    assert_eq!(get_suggestion("playlist s"), Some("ave <name>".into()));
}

#[test]
fn test_suggestion_subcommand_exact_with_hint() {
    assert_eq!(get_suggestion("queue add"), Some(" <path>".into()));
    assert_eq!(get_suggestion("playlist save"), Some(" <name>".into()));
    assert_eq!(get_suggestion("playlist delete"), Some(" <name>".into()));
}

#[test]
fn test_suggestion_subcommand_exact_no_hint() {
    assert_eq!(get_suggestion("queue clear"), None);
    assert_eq!(get_suggestion("queue remove"), None);
    assert_eq!(get_suggestion("playlist list"), None);
}

#[test]
fn test_suggestion_subcommand_space_hint() {
    assert_eq!(get_suggestion("queue add "), Some("<path>".into()));
    assert_eq!(get_suggestion("playlist save "), Some("<name>".into()));
}

#[test]
fn test_suggestion_subcommand_typing_args() {
    assert_eq!(get_suggestion("queue add /music"), None);
    assert_eq!(get_suggestion("playlist save my_list"), None);
}

#[test]
fn test_suggestion_empty_input() {
    assert_eq!(get_suggestion(""), None);
}

#[test]
fn test_suggestion_no_match() {
    assert_eq!(get_suggestion("xyz"), None);
    assert_eq!(get_suggestion("z"), None);
}

#[test]
fn test_next_word_chunk_word_only() {
    assert_eq!(get_next_word_chunk("ause"), "ause");
    assert_eq!(get_next_word_chunk("to"), "to");
}

#[test]
fn test_next_word_chunk_first_of_multiple() {
    assert_eq!(get_next_word_chunk("eue add <path>"), "eue");
    assert_eq!(get_next_word_chunk("to <path>"), "to");
}

#[test]
fn test_next_word_chunk_with_leading_space() {
    assert_eq!(get_next_word_chunk(" list"), " list");
    assert_eq!(get_next_word_chunk(" add <path>"), " add");
    assert_eq!(get_next_word_chunk(" <path>"), " <path>");
}

#[test]
fn test_next_word_chunk_empty() {
    assert_eq!(get_next_word_chunk(""), "");
}

#[test]
fn q_alone_is_dedup() {
    assert_eq!(Command::parse("q").unwrap(), Command::Dedup);
    assert_eq!(Command::parse("Q").unwrap(), Command::Dedup);
    assert_eq!(Command::parse("  q  ").unwrap(), Command::Dedup);
    assert_eq!(Command::parse("q add /x").unwrap(), Command::Add { path: "/x".to_string() });
    assert!(matches!(Command::parse("queue"), Err(CommandError::MissingArgument(_))));
}

#[test]
fn surrounding_space_and_word_case_are_ignored() {
    assert_eq!(Command::parse("  PLAY ").unwrap(), Command::Play);
    assert_eq!(Command::parse("ADD /Music").unwrap(), Command::Add { path: "/Music".to_string() });
    assert_eq!(Command::parse("\tSeek 1:05\n").unwrap(), Command::Seek { position: 65 });
    assert_eq!(Command::parse("Queue Dedup").unwrap(), Command::Dedup);
}

#[test]
fn every_help_command_is_known() {
    let mut seen = 0;
    for line in help_text().lines() {
        let t = line.trim();
        if let Some(rest) = t.strip_prefix('/') {
            let word = rest.split(' ').next().unwrap();
            assert!(
                !matches!(Command::parse(word), Err(CommandError::Unknown(_))),
                "unknown: {}",
                word
            );
            seen += 1;
        }
    }
    assert!(seen >= 19);
}
