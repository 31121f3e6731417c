use bi_parser::prelude::{BiError, BiField, BiReader, BiWriter};
use bi_parser::rere::clean::{confirms, validate_clean_flags, CleanFlagsError};
use bi_parser::rere::config::{init_config, remember, Config, ReplayResult, Timestamp};
use bi_parser::rere::list::{load_test_commands, split_commands, trim, TestListError};
use bi_parser::rere::naming::{snapshot_name, snapshot_name_with};
use bi_parser::rere::record::{write_record, write_snapshot};
use bi_parser::rere::replay::{
    check_count, compare_outputs, same_bytes, CountMismatch, DiffField, ReplayProgress,
};
use bi_parser::rere::shell::CommandOutput;
use bi_parser::rere::snapshot::{RecordedOutput, SnapshotError};

fn output(shell: &str, returncode: i32, stdout: &[u8], stderr: &[u8]) -> CommandOutput {
    CommandOutput {
        shell: shell.to_string(),
        returncode,
        stdout: stdout.to_vec(),
        stderr: stderr.to_vec(),
    }
}

fn recorded(shell: &str, returncode: i64, stdout: &[u8], stderr: &[u8]) -> RecordedOutput {
    RecordedOutput {
        shell: shell.to_string(),
        returncode,
        stdout: stdout.to_vec(),
        stderr: stderr.to_vec(),
    }
}

#[test]
fn clean_flags_allow_all_alone_or_some_of_the_rest() {
    assert_eq!(validate_clean_flags(true, false, false), Ok(()));
    assert_eq!(validate_clean_flags(false, true, false), Ok(()));
    assert_eq!(validate_clean_flags(false, false, true), Ok(()));
    assert_eq!(validate_clean_flags(false, true, true), Ok(()));
    assert_eq!(validate_clean_flags(true, true, false), Err(CleanFlagsError::AllWithOthers));
    assert_eq!(validate_clean_flags(true, false, true), Err(CleanFlagsError::AllWithOthers));
    assert_eq!(validate_clean_flags(true, true, true), Err(CleanFlagsError::AllWithOthers));
    assert_eq!(validate_clean_flags(false, false, false), Err(CleanFlagsError::NothingSelected));
}

#[test]
fn confirmation_is_a_lone_y() {
    let answers = ["y", "Y", "y\n", "  Y \r\n", "\u{a0}y\u{2003}", "", "n", "yes", "yy", "\n", "y y", "\u{212a}"];
    for answer in answers {
        assert_eq!(
            confirms(answer.as_bytes()),
            answer.trim().to_lowercase() == "y",
            "{:?}",
            answer
        );
    }
}

#[test]
fn trimming_agrees_with_the_standard_library() {
    let spaces = [
        '\u{9}', '\u{a}', '\u{b}', '\u{c}', '\u{d}', ' ', '\u{85}', '\u{a0}', '\u{1680}',
        '\u{2000}', '\u{2001}', '\u{2002}', '\u{2003}', '\u{2004}', '\u{2005}', '\u{2006}',
        '\u{2007}', '\u{2008}', '\u{2009}', '\u{200a}', '\u{2028}', '\u{2029}', '\u{202f}',
        '\u{205f}', '\u{3000}',
    ];
    for c in spaces {
        assert!(c.is_whitespace());
        let text = format!("{}ls -la{}{}", c, c, c);
        assert_eq!(trim(text.as_bytes()), b"ls -la", "{:?}", c);
        assert_eq!(trim(c.to_string().as_bytes()), b"");
    }
    let others = [
        '\u{8}', '\u{e}', '\u{1f}', '!', '\u{84}', '\u{86}', '\u{9f}', '\u{a1}', '\u{167f}',
        '\u{1681}', '\u{180e}', '\u{1fff}', '\u{200b}', '\u{200c}', '\u{2027}', '\u{202a}',
        '\u{202e}', '\u{2030}', '\u{205e}', '\u{2060}', '\u{2fff}', '\u{3001}', '\u{feff}',
        '\u{e9}', '\u{4e16}', '\u{1f600}',
    ];
    for c in others {
        assert!(!c.is_whitespace());
        let text = format!(" {}a b{} ", c, c);
        assert_eq!(trim(text.as_bytes()), text.trim().as_bytes(), "{:?}", c);
    }
    let mut code: u32 = 0;
    while code < 0x3100 {
        if let Some(c) = char::from_u32(code) {
            let text = format!("{}x{}", c, c);
            assert_eq!(trim(text.as_bytes()), text.trim().as_bytes(), "{:x}", code);
        }
        code += 1;
    }
    assert_eq!(trim(b""), b"");
    assert_eq!(trim(b" \t\r\n"), b"");
    assert_eq!(trim(b"  a  b  "), b"a  b");
}

#[test]
fn command_list_skips_blank_lines_and_comments() {
    let content = "echo 'test'\nls -la\n";
    assert_eq!(load_test_commands(content.as_bytes()).unwrap(), vec!["echo 'test'", "ls -la"]);
    let content = "\n  // a comment\n\techo one  \r\n\r\n//\n/ not a comment\necho two // trailing\nlast";
    assert_eq!(
        load_test_commands(content.as_bytes()).unwrap(),
        vec!["echo one", "/ not a comment", "echo two // trailing", "last"]
    );
    assert_eq!(
        split_commands(b"a\n\nb"),
        vec![b"a".to_vec(), b"b".to_vec()]
    );
}

#[test]
fn command_list_matches_the_iterator_formulation() {
    let contents = [
        "", "\n", "a", "a\n", "a\r\n", "a\rb\n", "\r", " a \n//b\n c", "//only\n  //comments\n",
        "x\n\n\ny\n", "\u{a0}echo\u{3000}\n", "a\n//", "a\n/", "é\nü // y\n",
    ];
    for content in contents {
        let expected: Vec<String> = content
            .lines()
            .filter(|line| {
                let trimmed = line.trim();
                !trimmed.is_empty() && !trimmed.starts_with("//")
            })
            .map(|s| s.trim().to_owned())
            .collect();
        match load_test_commands(content.as_bytes()) {
            Ok(shells) => assert_eq!(shells, expected, "{:?}", content),
            Err(TestListError::Empty) => assert!(expected.is_empty(), "{:?}", content),
            Err(other) => panic!("unexpected {:?} for {:?}", other, content),
        }
    }
}

#[test]
fn command_list_without_commands_is_refused() {
    assert!(matches!(load_test_commands(b""), Err(TestListError::Empty)));
    assert!(matches!(load_test_commands(b"// one\n\n   \n//two"), Err(TestListError::Empty)));
    assert!(matches!(load_test_commands(&[b'a', b'\n', 0xff, b'\n']), Err(TestListError::NotUtf8(_))));
    assert!(matches!(load_test_commands(&[b'/', b'/', 0xff, b'\n', b'a']), Ok(_)));
}

#[test]
fn default_configuration() {
    let config = Config::default();
    assert_eq!(config.common.test_file, "test.list");
    assert_eq!(config.common.snapshot_dir, "snapshots");
    assert_eq!(config.common.history, 3);
    assert!(config.record.overwrite);
    assert!(config.replay.fail_fast);
    assert!(config.state.latest_snapshots.is_empty());
    assert!(config.state.record_timestamps.is_empty());
    assert!(config.state.record_elapsed_time.is_empty());
    assert!(config.state.replay_timestamps.is_empty());
    assert!(config.state.replay_elapsed_time.is_empty());
    assert!(config.state.replay_results.is_empty());
    assert!(config.get_latest_snapshot().is_none());
}

#[test]
fn configuration_takes_the_options_given() {
    let config = init_config(
        Some("custom_test.list".to_string()),
        Some("custom_snapshots".to_string()),
        5,
        None,
        Some(false),
    );
    assert_eq!(config.common.test_file, "custom_test.list");
    assert_eq!(config.common.snapshot_dir, "custom_snapshots");
    assert_eq!(config.common.history, 5);
    assert!(config.record.overwrite);
    assert!(!config.replay.fail_fast);
    let config = init_config(None, None, 0, Some(false), None);
    assert_eq!(config.common.test_file, "test.list");
    assert_eq!(config.common.snapshot_dir, "snapshots");
    assert_eq!(config.common.history, 0);
    assert!(!config.record.overwrite);
    assert!(config.replay.fail_fast);
}

#[test]
fn history_keeps_the_newest_runs() {
    let mut list = vec![3, 2, 1];
    remember(&mut list, 4, 3);
    assert_eq!(list, vec![4, 3, 2]);
    remember(&mut list, 5, 5);
    assert_eq!(list, vec![5, 4, 3, 2]);
    remember(&mut list, 6, 0);
    assert!(list.is_empty());

    let mut config = init_config(None, None, 2, None, None);
    for (i, name) in ["a.bi", "b.bi", "c.bi"].iter().enumerate() {
        config.update_latest_record(
            name.to_string(),
            Timestamp { secs: i as i64, nanos: 7 },
            100 + i as u64,
        );
    }
    assert_eq!(config.state.latest_snapshots, vec!["c.bi", "b.bi"]);
    assert_eq!(
        config.state.record_timestamps,
        vec![Timestamp { secs: 2, nanos: 7 }, Timestamp { secs: 1, nanos: 7 }]
    );
    assert_eq!(config.state.record_elapsed_time, vec![102, 101]);
    assert_eq!(config.get_latest_snapshot().unwrap(), "c.bi");
    assert!(config.state.replay_results.is_empty());

    config.update_latest_replay(Timestamp { secs: 9, nanos: 0 }, 5, ReplayResult::Fail);
    config.update_latest_replay(Timestamp { secs: 10, nanos: 0 }, 6, ReplayResult::Pass);
    config.update_latest_replay(Timestamp { secs: 11, nanos: 0 }, 7, ReplayResult::Pass);
    assert_eq!(config.state.replay_results, vec![ReplayResult::Pass, ReplayResult::Pass]);
    assert_eq!(config.state.replay_elapsed_time, vec![7, 6]);
    assert_eq!(config.state.latest_snapshots, vec!["c.bi", "b.bi"]);

    config.reset();
    assert_eq!(config.common.history, 3);
    assert!(config.state.latest_snapshots.is_empty());
    assert!(config.state.replay_results.is_empty());
}

#[test]
fn reset_keeps_the_two_paths() {
    let mut config = init_config(Some("t".into()), Some("s".into()), 9, Some(false), Some(false));
    config.update_latest_record("x.bi".into(), Timestamp { secs: 1, nanos: 2 }, 3);
    config.reset();
    assert_eq!(config.common.test_file, "t");
    assert_eq!(config.common.snapshot_dir, "s");
    assert_eq!(config.common.history, 3);
    assert!(config.record.overwrite);
    assert!(config.replay.fail_fast);
    assert!(config.get_latest_snapshot().is_none());
}

#[test]
fn snapshot_names() {
    assert_eq!(snapshot_name_with("test.list", None), "test.list.bi");
    assert_eq!(
        snapshot_name_with("test.list", Some("20240102_030405")),
        "test.list_20240102_030405.bi"
    );
    assert_eq!(snapshot_name("test.list", true, 0).unwrap(), "test.list.bi");
    assert_eq!(snapshot_name("test.list", true, i64::MAX).unwrap(), "test.list.bi");
    assert_eq!(snapshot_name("test.list", false, 0).unwrap(), "test.list_19700101_000000.bi");
    assert_eq!(
        snapshot_name("test.list", false, 1_704_164_645).unwrap(),
        "test.list_20240102_030405.bi"
    );
    assert_eq!(snapshot_name("t", false, -1).unwrap(), "t_19691231_235959.bi");
    assert!(snapshot_name("t", false, i64::MAX).is_none());
}

#[test]
fn snapshot_layout_is_count_then_four_fields_a_command() {
    let outputs = vec![output("echo hi", 0, b"hi\n", b""), output("false", 1, b"", b"oops")];
    let mut writer = BiWriter::new(Vec::new());
    write_snapshot(&mut writer, &outputs).unwrap();
    let expected: &[u8] = b":i count 2\n\
        :b shell 7\necho hi\n:s returncode 0\n:b stdout 3\nhi\n\n:b stderr 0\n\n\
        :b shell 5\nfalse\n:s returncode 1\n:b stdout 0\n\n:b stderr 4\noops\n";
    assert_eq!(writer.as_bytes(), expected);

    let mut single = BiWriter::new(b"x".to_vec());
    write_record(&mut single, &output("a", -1, b"b", b"c")).unwrap();
    assert_eq!(
        single.into_inner(),
        b"x:b shell 1\na\n:s returncode -1\n:b stdout 1\nb\n:b stderr 1\nc\n"
    );

    let mut empty = BiWriter::new(Vec::new());
    write_snapshot(&mut empty, &[]).unwrap();
    assert_eq!(empty.into_inner(), b":i count 0\n");
}

#[test]
fn snapshot_reads_back_as_recorded() {
    let outputs = vec![
        output("echo h\u{e9}", 0, b"h\xc3\xa9\n", b""),
        output("exit 3", 3, &[0, 255, 10], b":i count 9\n"),
        output("kill", -1, b"", b""),
    ];
    let mut writer = BiWriter::new(Vec::new());
    write_snapshot(&mut writer, &outputs).unwrap();
    let mut reader = BiReader::new(writer.into_inner());
    assert_eq!(reader.read_count().unwrap(), 3);
    for output in &outputs {
        let record = reader.read_record().unwrap();
        assert_eq!(record.shell, output.shell);
        assert_eq!(record.returncode, output.returncode as i64);
        assert_eq!(record.stdout, output.stdout);
        assert_eq!(record.stderr, output.stderr);
        assert!(compare_outputs(&record, output, false).is_empty());
    }
    assert_eq!(reader.remaining_len(), 0);
    assert!(matches!(
        reader.read_record().unwrap_err(),
        SnapshotError::Read(BiError::ParseError(_))
    ));
}

#[test]
fn snapshot_with_the_wrong_fields_is_refused() {
    let mut reader = BiReader::new(b":s count 2\n".to_vec());
    assert!(matches!(reader.read_count().unwrap_err(), SnapshotError::ExpectedCount));
    assert_eq!(reader.remaining_len(), 0);
    let mut reader = BiReader::new(b":b count 1\nx\n".to_vec());
    assert!(matches!(reader.read_count().unwrap_err(), SnapshotError::ExpectedCount));
    let mut reader = BiReader::new(b":i shell 1\nrest".to_vec());
    assert!(matches!(reader.read_record().unwrap_err(), SnapshotError::ExpectedShell));
    assert_eq!(reader.remaining_len(), 4);
    let mut reader = BiReader::new(b":b shell 1\n\xff\n:s returncode 0\n".to_vec());
    assert!(matches!(reader.read_record().unwrap_err(), SnapshotError::ShellNotUtf8(_)));
    assert_eq!(reader.remaining_len(), 16);
    let mut reader = BiReader::new(b":b shell 1\na\n:i returncode 0\n".to_vec());
    assert!(matches!(reader.read_record().unwrap_err(), SnapshotError::ExpectedReturnCode));
    let mut reader = BiReader::new(b":b shell 1\na\n:s returncode 0\n:i stdout 0\n".to_vec());
    assert!(matches!(reader.read_record().unwrap_err(), SnapshotError::ExpectedStdout));
    let mut reader =
        BiReader::new(b":b shell 1\na\n:s returncode 0\n:b stdout 0\n\n:s stderr 0\n".to_vec());
    assert!(matches!(reader.read_record().unwrap_err(), SnapshotError::ExpectedStderr));
    let mut reader = BiReader::new(b":b shell 1\na\n:s returncode 0\n:b stdout 0\n\n".to_vec());
    assert!(matches!(
        reader.read_record().unwrap_err(),
        SnapshotError::Read(BiError::ParseError(_))
    ));
    let mut reader = BiReader::new(b":b any 1\na\n:s names -2\n:b are 1\nb\n:b fine 1\nc\n".to_vec());
    let record = reader.read_record().unwrap();
    assert_eq!(record.shell, "a");
    assert_eq!(record.returncode, -2);
    assert_eq!(record.stdout, b"b");
    assert_eq!(record.stderr, b"c");
}

#[test]
fn comparison_reports_what_differs() {
    let expected = recorded("ls", 0, b"out", b"err");
    assert!(compare_outputs(&expected, &output("ls", 0, b"out", b"err"), false).is_empty());
    assert!(compare_outputs(&expected, &output("ls", 0, b"out", b"err"), true).is_empty());
    assert_eq!(
        compare_outputs(&expected, &output("ls -l", 0, b"out", b"err"), false),
        vec![DiffField::ShellCommand]
    );
    assert_eq!(
        compare_outputs(&expected, &output("ls", 1, b"out", b"err"), false),
        vec![DiffField::ReturnCode]
    );
    assert_eq!(
        compare_outputs(&expected, &output("ls", 0, b"ou", b"err"), false),
        vec![DiffField::Stdout]
    );
    assert_eq!(
        compare_outputs(&expected, &output("ls", 0, b"out", b"erR"), false),
        vec![DiffField::Stderr]
    );
    assert_eq!(
        compare_outputs(&expected, &output("x", 2, b"", b""), false),
        vec![DiffField::ShellCommand, DiffField::ReturnCode, DiffField::Stdout, DiffField::Stderr]
    );
    assert_eq!(
        compare_outputs(&expected, &output("ls", 2, b"", b""), true),
        vec![DiffField::ReturnCode]
    );
    let wide = recorded("ls", 1 << 40, b"", b"");
    assert_eq!(
        compare_outputs(&wide, &output("ls", 0, b"", b""), false),
        vec![DiffField::ReturnCode]
    );
    assert!(same_bytes(b"", b""));
    assert!(same_bytes(b"abc", b"abc"));
    assert!(!same_bytes(b"abc", b"abd"));
    assert!(!same_bytes(b"abc", b"ab"));
    assert_eq!(DiffField::ShellCommand.label(), "shell command");
    assert_eq!(DiffField::ReturnCode.label(), "return code");
    assert_eq!(DiffField::Stdout.label(), "stdout");
    assert_eq!(DiffField::Stderr.label(), "stderr");
}

#[test]
fn count_must_match_the_list() {
    assert_eq!(check_count(2, 2), Ok(()));
    assert_eq!(check_count(0, 0), Ok(()));
    assert_eq!(check_count(3, 2), Err(CountMismatch { commands: 2, recorded: 3 }));
    assert_eq!(
        check_count(u64::MAX, 0),
        Err(CountMismatch { commands: 0, recorded: u64::MAX })
    );
}

#[test]
fn replay_fails_only_when_it_stops_at_the_first_difference() {
    let mut progress = ReplayProgress::new(false);
    progress.note("ls", &vec![]);
    progress.note("ls", &vec![DiffField::Stdout, DiffField::Stderr]);
    assert!(!progress.stopped());
    assert_eq!(progress.result(), ReplayResult::Pass);
    let diffs = progress.into_diffs();
    assert_eq!(diffs.len(), 2);
    assert_eq!(diffs[0].shell, "ls");
    assert_eq!(diffs[0].field, DiffField::Stdout);
    assert_eq!(diffs[1].field, DiffField::Stderr);

    let mut progress = ReplayProgress::new(true);
    progress.note("a", &vec![]);
    assert!(!progress.stopped());
    assert_eq!(progress.result(), ReplayResult::Pass);
    progress.note("b", &vec![DiffField::ReturnCode]);
    assert!(progress.stopped());
    assert_eq!(progress.result(), ReplayResult::Fail);
    progress.note("c", &vec![]);
    assert!(progress.stopped());
    let diffs = progress.into_diffs();
    assert_eq!(diffs.len(), 1);
    assert_eq!(diffs[0].shell, "b");
    assert_eq!(diffs[0].field, DiffField::ReturnCode);
}

#[test]
fn replay_that_stops_early_does_not_run_another_command() {
    let mut progress = ReplayProgress::new(true);
    assert!(progress.admits("ls", "ls"));
    assert!(!progress.stopped());
    assert!(!progress.admits("ls", "ls -l"));
    assert!(progress.stopped());
    assert_eq!(progress.result(), ReplayResult::Fail);
    let diffs = progress.into_diffs();
    assert_eq!(diffs.len(), 1);
    assert_eq!(diffs[0].shell, "ls -l");
    assert_eq!(diffs[0].field, DiffField::ShellCommand);

    let mut progress = ReplayProgress::new(false);
    assert!(progress.admits("ls", "ls -l"));
    assert!(!progress.stopped());
    assert!(progress.into_diffs().is_empty());
}

#[test]
fn field_summary_is_the_first_line() {
    let field = BiField::Integer { name: b"count".to_vec(), value: 42 };
    assert_eq!(field.summary(), b":i count 42");
    let field = BiField::SignedInteger { name: b"code".to_vec(), value: -3 };
    assert_eq!(field.summary(), b":s code -3");
    let field = BiField::Blob { name: b"data".to_vec(), data: b"hello".to_vec() };
    assert_eq!(field.summary(), b":b data 5");
    assert_eq!(field.name(), b"data");
}
