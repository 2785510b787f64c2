use sorcerer::commands::Command;
use sorcerer::commands::CommandBatch;
use sorcerer::commands::CommandResult;
use sorcerer::commands::DataFormat;
use sorcerer::commands::FileInfo;
use sorcerer::commands::ResponseHandling;
use sorcerer::commands::StatusLevel;
use sorcerer::commands::TaskStatus;
use sorcerer::commands::handle_response;
use sorcerer::commands::parse_commands;
use sorcerer::engine::CommandExecutor;
use sorcerer::engine::Effect;
use sorcerer::engine::Outcome;
use sorcerer::engine::Step;
use sorcerer::engine::continue_command;
use sorcerer::engine::render_results;

/// Runs one command against the engine, playing the outside world with
/// the given outcomes (one per requested effect, in order).
fn run_command(
    exec: &mut CommandExecutor,
    cmd: Command,
    mut outcomes: Vec<Outcome>,
) -> CommandResult {
    let mut step = exec.execute(&cmd);
    loop {
        match step {
            Step::Done(result) => return result,
            Step::Need(_) => {
                assert!(!outcomes.is_empty(), "command wanted more effects than provided");
                let outcome = outcomes.remove(0);
                step = continue_command(&cmd, outcome);
            }
        }
    }
}

#[test]
fn test_batch_runs_every_command_in_order() {
    // A failing delete between two writes stops nothing: each command's
    // outcome is recorded on its own and rendered in order.
    let mut exec = CommandExecutor::new();
    let commands = vec![
        Command::Write { path: "/tmp/a".to_string(), content: "a".to_string() },
        Command::Delete { path: "/bad/path".to_string() },
        Command::Write { path: "/tmp/b".to_string(), content: "b".to_string() },
    ];
    let outcomes = vec![
        vec![Outcome::Unit(Ok(()))],
        vec![Outcome::Unit(Err("No such file or directory".to_string()))],
        vec![Outcome::Unit(Ok(()))],
    ];
    let mut results = Vec::new();
    for (cmd, out) in commands.into_iter().zip(outcomes.into_iter()) {
        results.push(run_command(&mut exec, cmd, out));
    }
    let report = render_results(&results);
    assert_eq!(
        report,
        "\u{2713} Successfully wrote to /tmp/a\n\
         \u{2717} Failed to delete /bad/path: No such file or directory\n\
         \u{2713} Successfully wrote to /tmp/b"
    );
}

#[test]
fn test_plain_prose_passes_through_verbatim() {
    let prose = "I cannot run any commands right now, sorry.";
    match handle_response(prose) {
        ResponseHandling::Passthrough(text) => assert_eq!(text, prose),
        ResponseHandling::Commands(_) => panic!("prose is not a command batch"),
    }
    // JSON that is not a batch passes through too.
    match handle_response("{\"commands\": 3}") {
        ResponseHandling::Passthrough(text) => assert_eq!(text, "{\"commands\": 3}"),
        ResponseHandling::Commands(_) => panic!("not a batch"),
    }
    assert!(parse_commands("just words").is_none());
    assert!(parse_commands("[1, 2, 3]").is_none());
    assert!(parse_commands("").is_none());
}

#[test]
fn test_batch_parsing_reads_fields() {
    let text = "{\"commands\": [\
        {\"cmd\": \"Write\", \"path\": \"/tmp/x\", \"content\": \"hi\"},\
        {\"cmd\": \"Think\", \"reasoning\": \"mull it over\"},\
        {\"cmd\": \"Search\", \"pattern\": \"fn main\", \"path\": null, \"file_type\": \"rust\"},\
        {\"cmd\": \"UpdatePlan\", \"plan_id\": \"p1\", \"task_id\": \"t2\", \"status\": \"in_progress\"},\
        {\"cmd\": \"Parse\", \"content\": \"{}\", \"format\": \"json\"},\
        {\"cmd\": \"Status\", \"message\": \"done\", \"level\": \"success\"},\
        {\"cmd\": \"Exec\", \"command\": \"ls\", \"args\": [\"-l\", \"/tmp\"]}\
    ]}";
    let batch: CommandBatch = parse_commands(text).unwrap();
    assert_eq!(batch.commands.len(), 7);
    match &batch.commands[0] {
        Command::Write { path, content } => {
            assert_eq!(path, "/tmp/x");
            assert_eq!(content, "hi");
        }
        _ => panic!("first command is a write"),
    }
    assert!(matches!(&batch.commands[1], Command::Think { .. }));
    match &batch.commands[2] {
        Command::Search { pattern, path, file_type } => {
            assert_eq!(pattern, "fn main");
            assert!(path.is_none());
            assert_eq!(file_type.as_deref(), Some("rust"));
        }
        _ => panic!("third command is a search"),
    }
    match &batch.commands[3] {
        Command::UpdatePlan { status, .. } => {
            assert!(matches!(status, TaskStatus::InProgress));
        }
        _ => panic!("fourth command updates a plan"),
    }
    match &batch.commands[4] {
        Command::Parse { format, .. } => assert!(matches!(format, DataFormat::Json)),
        _ => panic!("fifth command parses"),
    }
    match &batch.commands[5] {
        Command::Status { level, .. } => assert!(matches!(level, StatusLevel::Success)),
        _ => panic!("sixth command reports status"),
    }
    match &batch.commands[6] {
        Command::Exec { command, args } => {
            assert_eq!(command, "ls");
            assert_eq!(args, &vec!["-l".to_string(), "/tmp".to_string()]);
        }
        _ => panic!("seventh command runs a process"),
    }

    // A batch with one malformed command is not a batch at all.
    assert!(parse_commands("{\"commands\": [{\"cmd\": \"Nope\"}]}").is_none());
    assert!(parse_commands("{\"commands\": [{\"cmd\": \"Read\"}]}").is_none());
}

#[test]
fn test_read_and_edit_flow() {
    let mut exec = CommandExecutor::new();
    let read = Command::Read { path: "/tmp/f".to_string() };
    let r = run_command(&mut exec, read, vec![Outcome::Text(Ok("file body".to_string()))]);
    assert!(matches!(&r, CommandResult::Success(m) if m == "file body"));

    // An edit reads, rewrites in the engine, then writes back.
    let edit = Command::Edit {
        path: "/tmp/f".to_string(),
        pattern: "old".to_string(),
        replacement: "new".to_string(),
    };
    let mut step = exec.execute(&edit);
    assert!(matches!(&step, Step::Need(Effect::ReadFile { path }) if path == "/tmp/f"));
    step = continue_command(&edit, Outcome::Text(Ok("old old stuff".to_string())));
    match &step {
        Step::Need(Effect::WriteFile { path, content }) => {
            assert_eq!(path, "/tmp/f");
            assert_eq!(content, "new new stuff");
        }
        _ => panic!("the edit wants its write-back"),
    }
    step = continue_command(&edit, Outcome::Unit(Ok(())));
    match step {
        Step::Done(CommandResult::Success(m)) => {
            assert_eq!(m, "Successfully edited /tmp/f");
        }
        _ => panic!("the edit is done"),
    }

    let failing = Command::Read { path: "/missing".to_string() };
    let r = run_command(&mut exec, failing, vec![Outcome::Text(Err("gone".to_string()))]);
    assert!(matches!(&r, CommandResult::Error(m) if m == "Failed to read /missing: gone"));
}

#[test]
fn test_exec_outcomes() {
    let mut exec = CommandExecutor::new();
    let cmd = Command::Exec { command: "ls".to_string(), args: vec![] };
    let ok = run_command(
        &mut exec,
        cmd,
        vec![Outcome::Proc { ok: true, stdout: "a\nb\n".to_string(), stderr: String::new() }],
    );
    assert!(matches!(&ok, CommandResult::Success(m) if m == "a\nb\n"));

    let cmd = Command::Exec { command: "false".to_string(), args: vec![] };
    let bad = run_command(
        &mut exec,
        cmd,
        vec![Outcome::Proc { ok: false, stdout: String::new(), stderr: "boom".to_string() }],
    );
    assert!(matches!(&bad, CommandResult::Error(m) if m == "Command failed: boom"));

    let cmd = Command::Exec { command: "nosuch".to_string(), args: vec![] };
    let err = run_command(&mut exec, cmd, vec![Outcome::ProcFailed("not found".to_string())]);
    assert!(matches!(&err, CommandResult::Error(m) if m == "Failed to execute command: not found"));
}

#[test]
fn test_listing_filter_and_preview_cap() {
    let mut exec = CommandExecutor::new();
    let cmd = Command::List { path: "/tmp".to_string(), pattern: Some("log".to_string()) };
    let files = vec![
        FileInfo { path: "/tmp/a.log".to_string(), is_dir: false, size: 3 },
        FileInfo { path: "/tmp/b.txt".to_string(), is_dir: false, size: 4 },
        FileInfo { path: "/tmp/logs".to_string(), is_dir: true, size: 0 },
    ];
    let r = run_command(&mut exec, cmd, vec![Outcome::Listing(Ok(files))]);
    match &r {
        CommandResult::FileList(kept) => {
            assert_eq!(kept.len(), 2);
            assert_eq!(kept[0].path, "/tmp/a.log");
            assert_eq!(kept[1].path, "/tmp/logs");
            assert!(kept[1].is_dir);
        }
        _ => panic!("a listing comes back"),
    }

    // Twelve entries render as ten lines of preview plus a suffix.
    let many: Vec<FileInfo> = (0..12)
        .map(|i| FileInfo { path: format!("/d/f{i}"), is_dir: false, size: i })
        .collect();
    let report = render_results(&vec![CommandResult::FileList(many)]);
    let lines: Vec<&str> = report.lines().collect();
    assert_eq!(lines.len(), 12);
    assert_eq!(lines[0], "Found 12 files");
    assert_eq!(lines[1], "  \u{1F4C4} /d/f0");
    assert_eq!(lines[10], "  \u{1F4C4} /d/f9");
    assert_eq!(lines[11], "  ... and 2 more");
}

#[test]
fn test_search_parses_match_records() {
    let mut exec = CommandExecutor::new();
    let cmd = Command::Search {
        pattern: "let".to_string(),
        path: None,
        file_type: None,
    };
    let stdout = "{\"type\":\"begin\",\"data\":{\"path\":{\"text\":\"src/a.rs\"}}}\n{\"type\":\"match\",\"data\":{\"path\":{\"text\":\"src/a.rs\"},\"lines\":{\"text\":\"  let x = 1;\\n\"},\"line_number\":3,\"absolute_offset\":10,\"submatches\":[]}}\n{\"type\":\"end\",\"data\":{\"path\":{\"text\":\"src/a.rs\"}}}\n";
    let r = run_command(&mut exec, cmd, vec![Outcome::Text(Ok(stdout.to_string()))]);
    match &r {
        CommandResult::SearchResults(ms) => {
            assert_eq!(ms.len(), 1);
            assert_eq!(ms[0].file, "src/a.rs");
            assert_eq!(ms[0].line, 3);
            assert_eq!(ms[0].content, "let x = 1;");
        }
        _ => panic!("search results come back"),
    }

    let cmd = Command::Search { pattern: "x".to_string(), path: None, file_type: None };
    let r = run_command(&mut exec, cmd, vec![Outcome::Text(Err("rg missing".to_string()))]);
    assert!(matches!(&r, CommandResult::Error(m) if m == "Search failed: rg missing"));
}

#[test]
fn test_scratch_memory_round_trip() {
    let mut exec = CommandExecutor::new();
    let r = run_command(
        &mut exec,
        Command::Remember { key: "color".to_string(), value: "purple".to_string() },
        vec![],
    );
    assert!(matches!(&r, CommandResult::Success(m) if m == "Remembered: color"));

    let r = run_command(&mut exec, Command::Recall { key: "color".to_string() }, vec![]);
    assert!(matches!(&r, CommandResult::Success(m) if m == "purple"));

    // Overwriting keeps one value per key.
    run_command(
        &mut exec,
        Command::Remember { key: "color".to_string(), value: "green".to_string() },
        vec![],
    );
    let r = run_command(&mut exec, Command::Recall { key: "color".to_string() }, vec![]);
    assert!(matches!(&r, CommandResult::Success(m) if m == "green"));

    let r = run_command(&mut exec, Command::Recall { key: "shape".to_string() }, vec![]);
    assert!(matches!(&r, CommandResult::Error(m) if m == "No memory found for key: shape"));
}

#[test]
fn test_plan_and_quiet_commands() {
    let mut exec = CommandExecutor::new();
    let r = run_command(
        &mut exec,
        Command::Plan { tasks: vec!["first".to_string(), "second".to_string()] },
        vec![Outcome::Id("plan-17".to_string())],
    );
    assert!(matches!(&r, CommandResult::Success(m) if m == "plan-17"));

    for cmd in [
        Command::Think { reasoning: "hmm".to_string() },
        Command::UpdatePlan {
            plan_id: "p".to_string(),
            task_id: "t".to_string(),
            status: TaskStatus::Completed,
        },
        Command::Status { message: "ok".to_string(), level: StatusLevel::Info },
    ] {
        let r = run_command(&mut exec, cmd, vec![]);
        assert!(matches!(r, CommandResult::Empty));
    }
    // Quiet results contribute no report lines.
    let report = render_results(&vec![CommandResult::Empty, CommandResult::Empty]);
    assert_eq!(report, "");
}

#[test]
fn test_fetch_outcomes() {
    let mut exec = CommandExecutor::new();
    let plain = Command::WebFetch { url: "http://e.com".to_string(), extract: None };
    let r = run_command(&mut exec, plain, vec![Outcome::Text(Ok("<html>".to_string()))]);
    assert!(matches!(&r, CommandResult::Success(m) if m == "<html>"));

    let with_extract = Command::WebFetch {
        url: "http://e.com".to_string(),
        extract: Some("title".to_string()),
    };
    let r = run_command(&mut exec, with_extract, vec![Outcome::Text(Ok("<html>".to_string()))]);
    assert!(matches!(&r, CommandResult::Success(m) if m == "Fetched from http://e.com: title"));

    let failing = Command::WebFetch { url: "http://e.com".to_string(), extract: None };
    let r = run_command(&mut exec, failing, vec![Outcome::Text(Err("timeout".to_string()))]);
    assert!(matches!(&r, CommandResult::Error(m) if m == "Failed to fetch http://e.com: timeout"));
}

#[test]
fn test_parse_command_against_real_parsers() {
    let mut exec = CommandExecutor::new();

    let json_input = "{\"a\": [1, true, null]}";
    let r = run_command(
        &mut exec,
        Command::Parse { content: json_input.to_string(), format: DataFormat::Json },
        vec![],
    );
    let expected = format!(
        "{:?}",
        serde_json::from_str::<serde_json::Value>(json_input).unwrap()
    );
    match &r {
        CommandResult::Value(v) => assert_eq!(v, &expected),
        _ => panic!("JSON parses"),
    }

    let yaml_input = "a: 1\nb: two\n";
    let r = run_command(
        &mut exec,
        Command::Parse { content: yaml_input.to_string(), format: DataFormat::Yaml },
        vec![],
    );
    let expected = format!(
        "{:?}",
        serde_yaml::from_str::<serde_json::Value>(yaml_input).unwrap()
    );
    match &r {
        CommandResult::Value(v) => assert_eq!(v, &expected),
        _ => panic!("YAML parses"),
    }

    let toml_input = "a = 1\n";
    let r = run_command(
        &mut exec,
        Command::Parse { content: toml_input.to_string(), format: DataFormat::Toml },
        vec![],
    );
    let expected = format!("{:?}", toml::from_str::<toml::Value>(toml_input).unwrap());
    match &r {
        CommandResult::Success(v) => assert_eq!(v, &expected),
        _ => panic!("TOML parses into a success"),
    }

    let bad = "not: [valid, json";
    let r = run_command(
        &mut exec,
        Command::Parse { content: bad.to_string(), format: DataFormat::Json },
        vec![],
    );
    let expected_err = serde_json::from_str::<serde_json::Value>(bad).unwrap_err().to_string();
    match &r {
        CommandResult::Error(m) => {
            assert_eq!(m, &format!("Failed to parse JSON: {expected_err}"));
        }
        _ => panic!("bad JSON is an error"),
    }

    let r = run_command(
        &mut exec,
        Command::Parse { content: "<a/>".to_string(), format: DataFormat::Xml },
        vec![],
    );
    assert!(matches!(&r, CommandResult::Error(m) if m == "XML parsing not implemented"));
}

#[test]
fn test_report_command_rendering() {
    let mut exec = CommandExecutor::new();
    let cmd = Command::Report {
        title: "Findings".to_string(),
        sections: vec![
            sorcerer::commands::Section {
                title: "One".to_string(),
                content: "first".to_string(),
            },
            sorcerer::commands::Section {
                title: "Two".to_string(),
                content: "second".to_string(),
            },
        ],
    };
    let r = run_command(&mut exec, cmd, vec![]);
    match &r {
        CommandResult::Success(m) => {
            assert_eq!(m, "# Findings\n\n## One\n\nfirst\n\n## Two\n\nsecond\n\n");
        }
        _ => panic!("a report renders"),
    }
}

#[test]
fn test_search_preview_cap() {
    let matches: Vec<sorcerer::commands::SearchMatch> = (0..7)
        .map(|i| sorcerer::commands::SearchMatch {
            file: format!("f{i}.rs"),
            line: i + 1,
            content: format!("line {i}"),
        })
        .collect();
    let report = render_results(&vec![CommandResult::SearchResults(matches)]);
    let lines: Vec<&str> = report.lines().collect();
    assert_eq!(lines.len(), 7);
    assert_eq!(lines[0], "Found 7 matches");
    assert_eq!(lines[1], "  f0.rs:1 - line 0");
    assert_eq!(lines[5], "  f4.rs:5 - line 4");
    assert_eq!(lines[6], "  ... and 2 more");
}

#[test]
fn test_batch_grammar_tolerates_whitespace_and_escapes() {
    let text = " \n {\"commands\" : [ {\"cmd\" : \"Write\" , \"path\" : \"/tmp/quoted\" ,\
 \"content\" : \"say \\\"hi\\\"\\nthen stop\" } ] } \n";
    let batch = parse_commands(text).unwrap();
    assert_eq!(batch.commands.len(), 1);
    match &batch.commands[0] {
        Command::Write { path, content } => {
            assert_eq!(path, "/tmp/quoted");
            assert_eq!(content, "say \"hi\"\nthen stop");
        }
        _ => panic!("the command is a write"),
    }

    // Trailing junk after the object makes the whole reply plain text.
    assert!(parse_commands("{\"commands\": []} extra").is_none());
    // An empty batch is still a batch.
    let empty = parse_commands("{\"commands\": []}").unwrap();
    assert_eq!(empty.commands.len(), 0);
    assert_eq!(render_results(&Vec::new()), "");
}

#[test]
fn test_batch_grammar_first_field_wins() {
    // Repeated fields read by their first occurrence.
    let text = "{\"commands\": [{\"cmd\": \"Read\", \"path\": \"/a\", \"path\": \"/b\"}]}";
    let batch = parse_commands(text).unwrap();
    match &batch.commands[0] {
        Command::Read { path } => assert_eq!(path, "/a"),
        _ => panic!("the command is a read"),
    }
}

#[test]
fn test_batch_grammar_unicode_escapes() {
    // \uXXXX escapes decode, surrogate pairs included.
    let text = "{\"commands\": [{\"cmd\": \"Write\", \"path\": \"/tmp/u\",\
 \"content\": \"\\u0041 and \\uD83E\\uDDD9\"}]}";
    let batch = parse_commands(text).unwrap();
    match &batch.commands[0] {
        Command::Write { content, .. } => assert_eq!(content, "A and \u{1F9D9}"),
        _ => panic!("the command is a write"),
    }

    // A lone surrogate is not a string: the reply is plain text.
    assert!(parse_commands(
        "{\"commands\": [{\"cmd\": \"Think\", \"reasoning\": \"\\uD83E\"}]}"
    )
    .is_none());
}

#[test]
fn test_batch_grammar_tolerates_numbers_in_extra_fields() {
    // Floats, negative numbers and overlong integers in fields the
    // grammar does not read leave the batch intact.
    let text = "{\"commands\": [{\"cmd\": \"Think\", \"reasoning\": \"x\",\
 \"temperature\": -1.5e2, \"budget\": 99999999999999999999999}]}";
    let batch = parse_commands(text).unwrap();
    assert!(matches!(&batch.commands[0], Command::Think { .. }));

    // A numeric value where a string is required still refuses the command.
    assert!(parse_commands("{\"commands\": [{\"cmd\": \"Think\", \"reasoning\": 7}]}").is_none());
}
