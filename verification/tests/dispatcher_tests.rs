use mdbook_validator::assertions::{check_assertions, report_outcome, Observed};
use mdbook_validator::cache::SandboxCache;
use mdbook_validator::chapter::{advance, plan_chapter, ChapterPlan, ChapterRun};
use mdbook_validator::config::{Config, ValidatorConfig, ValidatorTable};
use mdbook_validator::container::ValidationResult;
use mdbook_validator::dispatcher::{step, Action, Event, Stage};
use mdbook_validator::host_validator::HostValidationResult;
use mdbook_validator::preprocessor::ValidatorBlock;
use mdbook_validator::{ValidatorError, ValidatorPreprocessor};

fn sqlite_config() -> Config {
    let mut validators = ValidatorTable::new();
    validators.insert(
        "sqlite".to_owned(),
        ValidatorConfig {
            container: "keinos/sqlite3:3.47.2".to_owned(),
            script: "validators/validate-sqlite.sh".to_owned(),
            exec_command: None,
        },
    );
    validators.insert(
        "python".to_owned(),
        ValidatorConfig {
            container: "python".to_owned(),
            script: "validators/validate-python.sh".to_owned(),
            exec_command: Some("python3 -".to_owned()),
        },
    );
    Config {
        validators,
        fail_fast: true,
        fixtures_dir: None,
    }
}

fn blocks_of(content: &str) -> Vec<ValidatorBlock> {
    ValidatorPreprocessor::find_validator_blocks(content)
}

fn ok_exec(stdout: &str, stderr: &str) -> Event {
    Event::ExecFinished(ValidationResult {
        exit_code: 0,
        stdout: stdout.to_owned(),
        stderr: stderr.to_owned(),
    })
}

fn exec_exit(code: i64, stderr: &str) -> Event {
    Event::ExecFinished(ValidationResult {
        exit_code: code,
        stdout: String::new(),
        stderr: stderr.to_owned(),
    })
}

fn host(code: i32, stdout: &str, stderr: &str) -> Event {
    Event::HostFinished(HostValidationResult {
        exit_code: code,
        stdout: stdout.to_owned(),
        stderr: stderr.to_owned(),
    })
}

fn strings(items: &[&str]) -> Vec<String> {
    items.iter().map(|s| (*s).to_owned()).collect()
}

const HAPPY: &str = "```sql validator=sqlite\n<!--SETUP\nsqlite3 /tmp/test.db 'CREATE TABLE t(x INTEGER); INSERT INTO t VALUES(42);'\n-->\nSELECT * FROM t;\n<!--ASSERT\nrows >= 1\n-->\n```\n";

#[test]
fn happy_path_runs_setup_then_query_then_host_validator() {
    let config = sqlite_config();
    let blocks = blocks_of(HAPPY);
    assert_eq!(blocks.len(), 1);
    let block = &blocks[0];
    let mut cache = SandboxCache::new();

    let s = step(&config, "Chapter 1", block, &mut cache, Stage::Start, Event::Begin);
    match &s.action {
        Action::CheckScript { script } => assert_eq!(script, "validators/validate-sqlite.sh"),
        other => panic!("unexpected action {other:?}"),
    }

    let s = step(
        &config,
        "Chapter 1",
        block,
        &mut cache,
        s.stage,
        Event::ScriptFound {
            path: "/book/validators/validate-sqlite.sh".to_owned(),
        },
    );
    match &s.action {
        Action::StartSandbox {
            image_name,
            image_tag,
            fixtures_dir,
        } => {
            assert_eq!(image_name, "keinos/sqlite3");
            assert_eq!(image_tag, "3.47.2");
            assert!(fixtures_dir.is_none());
        }
        other => panic!("unexpected action {other:?}"),
    }
    assert_eq!(cache.len(), 0);

    let s = step(
        &config,
        "Chapter 1",
        block,
        &mut cache,
        s.stage,
        Event::SandboxStarted {
            session: "abc123".to_owned(),
        },
    );
    assert_eq!(cache.get("sqlite"), Some("abc123".to_owned()));
    match &s.action {
        Action::Exec {
            session,
            cmd,
            stdin,
        } => {
            assert_eq!(session, "abc123");
            assert_eq!(
                *cmd,
                strings(&[
                    "sh",
                    "-c",
                    "sqlite3 /tmp/test.db 'CREATE TABLE t(x INTEGER); INSERT INTO t VALUES(42);'"
                ])
            );
            assert!(stdin.is_none());
        }
        other => panic!("unexpected action {other:?}"),
    }

    let s = step(&config, "Chapter 1", block, &mut cache, s.stage, ok_exec("", ""));
    match &s.action {
        Action::Exec {
            session,
            cmd,
            stdin,
        } => {
            assert_eq!(session, "abc123");
            assert_eq!(*cmd, strings(&["sh", "-c", "sqlite3 -json /tmp/test.db"]));
            assert_eq!(stdin.as_deref(), Some("SELECT * FROM t;"));
        }
        other => panic!("unexpected action {other:?}"),
    }

    let s = step(
        &config,
        "Chapter 1",
        block,
        &mut cache,
        s.stage,
        ok_exec("[{\"x\":42}]", "warn"),
    );
    match &s.action {
        Action::RunHostValidator {
            script_path,
            stdin,
            assertions,
            expect,
            container_stderr,
        } => {
            assert_eq!(script_path, "/book/validators/validate-sqlite.sh");
            assert_eq!(stdin, "[{\"x\":42}]");
            assert_eq!(assertions.as_deref(), Some("rows >= 1"));
            assert!(expect.is_none());
            assert_eq!(container_stderr, "warn");
        }
        other => panic!("unexpected action {other:?}"),
    }

    let s = step(&config, "Chapter 1", block, &mut cache, s.stage, host(0, "", ""));
    assert!(matches!(s.action, Action::Finish(Ok(()))));
    assert!(matches!(s.stage, Stage::Done));

    assert_eq!(
        ValidatorPreprocessor::strip_markers_from_chapter(HAPPY),
        "```sql validator=sqlite\nSELECT * FROM t;\n```"
    );
}

#[test]
fn hidden_block_is_validated_like_any_other() {
    let content = "Text\n\n```sql validator=sqlite hidden\n<!--SETUP\nCREATE TABLE t;\n-->\nSELECT * FROM t;\n```\n\nMore\n";
    let blocks = match plan_chapter(content) {
        ChapterPlan::Validate(blocks) => blocks,
        other => panic!("unexpected plan {other:?}"),
    };
    assert_eq!(blocks.len(), 1);
    assert!(blocks[0].hidden);
    assert!(!blocks[0].skip);
    let config = sqlite_config();
    let mut cache = SandboxCache::new();
    let s = step(&config, "c", &blocks[0], &mut cache, Stage::Start, Event::Begin);
    assert!(matches!(s.action, Action::CheckScript { .. }));
    assert_eq!(
        ValidatorPreprocessor::strip_markers_from_chapter(content),
        "Text\n\nMore"
    );
}

#[test]
fn skip_and_hidden_together_reject_the_chapter_before_any_work() {
    let content = "```sql validator=sqlite\nSELECT 1;\n```\n\n```sql validator=sqlite skip hidden\nSELECT 2;\n```\n";
    match plan_chapter(content) {
        ChapterPlan::Rejected(e) => {
            assert!(matches!(e, ValidatorError::MutuallyExclusiveAttributes));
            assert_eq!(e.code(), "E011");
            assert_eq!(
                e.to_string(),
                "[E011] 'hidden' and 'skip' are mutually exclusive"
            );
        }
        other => panic!("unexpected plan {other:?}"),
    }
}

#[test]
fn unknown_validator_fails_with_its_name() {
    let config = Config::default();
    let blocks = blocks_of("```sql validator=nonexistent\nSELECT 1;\n```\n");
    let mut cache = SandboxCache::new();
    let s = step(&config, "c", &blocks[0], &mut cache, Stage::Start, Event::Begin);
    match s.action {
        Action::Finish(Err(ValidatorError::UnknownValidator { name })) => {
            assert_eq!(name, "nonexistent")
        }
        other => panic!("unexpected action {other:?}"),
    }
    assert_eq!(cache.len(), 0);
}

#[test]
fn failed_assertion_is_a_validation_failure_that_shows_the_source() {
    let config = sqlite_config();
    let blocks = blocks_of("```sql validator=sqlite\nSELECT 1 as value;\n<!--ASSERT\nrows = 999\n-->\n```\n");
    let mut cache = SandboxCache::new();
    let s = step(
        &config,
        "Ch",
        &blocks[0],
        &mut cache,
        Stage::AwaitHost,
        host(1, "", "Assertion failed: rows = 999 (got 1)"),
    );
    match s.action {
        Action::Finish(Err(e)) => {
            assert_eq!(e.code(), "E006");
            match &e {
                ValidatorError::ValidationFailed { exit_code, message } => {
                    assert_eq!(*exit_code, 1);
                    assert_eq!(
                        message,
                        "in 'Ch' (validator: sqlite):\n\nCode:\nSELECT 1 as value;\n\nValidator stderr:\nAssertion failed: rows = 999 (got 1)"
                    );
                }
                other => panic!("unexpected error {other:?}"),
            }
            assert!(e.to_string().contains("SELECT 1 as value;"));
            assert!(e.to_string().starts_with("[E006] Validation failed (exit 1): "));
        }
        other => panic!("unexpected action {other:?}"),
    }
}

#[test]
fn validation_failure_shows_both_streams_when_present() {
    let config = sqlite_config();
    let blocks = blocks_of("```sql validator=sqlite\nSELECT 1;\n```\n");
    let mut cache = SandboxCache::new();
    let s = step(
        &config,
        "Ch",
        &blocks[0],
        &mut cache,
        Stage::AwaitHost,
        host(3, "out text", "err text"),
    );
    match s.action {
        Action::Finish(Err(ValidatorError::ValidationFailed { exit_code, message })) => {
            assert_eq!(exit_code, 3);
            assert_eq!(
                message,
                "in 'Ch' (validator: sqlite):\n\nCode:\nSELECT 1;\n\nValidator stderr:\nerr text\nValidator stdout:\nout text"
            );
        }
        other => panic!("unexpected action {other:?}"),
    }
    let s = step(
        &config,
        "Ch",
        &blocks[0],
        &mut cache,
        Stage::AwaitHost,
        host(-7, "", ""),
    );
    match s.action {
        Action::Finish(Err(ValidatorError::ValidationFailed { exit_code, message })) => {
            assert_eq!(exit_code, -7);
            assert_eq!(message, "in 'Ch' (validator: sqlite):\n\nCode:\nSELECT 1;\n");
        }
        other => panic!("unexpected action {other:?}"),
    }
}

#[test]
fn double_at_lines_are_validated_without_their_prefix() {
    let content = "```sql validator=sqlite\n@@SELECT 1 as hidden_result;\nSELECT 2 as visible_result;\n```\n";
    let config = sqlite_config();
    let blocks = blocks_of(content);
    let mut cache = SandboxCache::new();
    cache.remember("sqlite", "s1");
    let s = step(
        &config,
        "c",
        &blocks[0],
        &mut cache,
        Stage::AwaitScript,
        Event::ScriptFound {
            path: "/v.sh".to_owned(),
        },
    );
    match s.action {
        Action::Exec { stdin, cmd, .. } => {
            assert_eq!(
                stdin.as_deref(),
                Some("SELECT 1 as hidden_result;\nSELECT 2 as visible_result;")
            );
            // the content is fed, never made part of the command
            assert!(cmd.iter().all(|part| !part.contains("SELECT")));
        }
        other => panic!("unexpected action {other:?}"),
    }
    assert_eq!(
        ValidatorPreprocessor::strip_markers_from_chapter(content),
        "```sql validator=sqlite\nSELECT 2 as visible_result;\n```"
    );
}

#[test]
fn skipped_block_passes_at_once_and_touches_nothing() {
    let config = Config::default();
    let blocks = blocks_of("```sql validator=whatever skip\nSELECT 1;\n```\n");
    assert!(blocks[0].skip);
    let mut cache = SandboxCache::new();
    let s = step(&config, "c", &blocks[0], &mut cache, Stage::Start, Event::Begin);
    assert!(matches!(s.action, Action::Finish(Ok(()))));
    assert!(matches!(s.stage, Stage::Done));
    assert_eq!(cache.len(), 0);
}

#[test]
fn second_block_of_a_validator_reuses_the_session() {
    let content = "```sql validator=sqlite\nSELECT 1;\n```\n\n```py validator=python\nprint(1)\n```\n\n```sql validator=sqlite\nSELECT 2;\n```\n";
    let config = sqlite_config();
    let blocks = match plan_chapter(content) {
        ChapterPlan::Validate(blocks) => blocks,
        other => panic!("unexpected plan {other:?}"),
    };
    assert_eq!(blocks.len(), 3);
    let mut cache = SandboxCache::new();
    let mut run = ChapterRun::new(blocks);
    let mut event = Event::Begin;
    let mut started: Vec<String> = Vec::new();
    let mut sessions: Vec<(usize, String, Option<String>)> = Vec::new();
    let mut guard = 0;
    loop {
        guard += 1;
        assert!(guard < 100);
        let (next, action) = advance(&config, "c", &mut cache, run, event);
        run = next;
        event = match action {
            Action::CheckScript { script } => Event::ScriptFound {
                path: format!("/root/{script}"),
            },
            Action::StartSandbox { image_name, .. } => {
                started.push(image_name.clone());
                Event::SandboxStarted {
                    session: format!("session-of-{image_name}"),
                }
            }
            Action::Exec { session, stdin, .. } => {
                sessions.push((run.index, session, stdin));
                ok_exec("[]", "")
            }
            Action::RunHostValidator { .. } => host(0, "", ""),
            Action::Finish(result) => {
                assert!(result.is_ok());
                break;
            }
        };
    }
    assert_eq!(started, vec!["keinos/sqlite3".to_owned(), "python".to_owned()]);
    assert_eq!(
        sessions,
        vec![
            (
                0,
                "session-of-keinos/sqlite3".to_owned(),
                Some("SELECT 1;".to_owned())
            ),
            (1, "session-of-python".to_owned(), Some("print(1)".to_owned())),
            (
                2,
                "session-of-keinos/sqlite3".to_owned(),
                Some("SELECT 2;".to_owned())
            ),
        ]
    );
    assert_eq!(cache.len(), 2);
    assert_eq!(run.index, 3);
}

#[test]
fn run_stops_at_the_first_block_that_fails() {
    let content = "```sql validator=sqlite skip\nSELECT 0;\n```\n\n```sql validator=sqlite\nSELECT 1;\n```\n\n```sql validator=sqlite\nSELECT 2;\n```\n";
    let config = sqlite_config();
    let blocks = blocks_of(content);
    let mut cache = SandboxCache::new();
    let run = ChapterRun::new(blocks);
    let (run, action) = advance(&config, "c", &mut cache, run, Event::Begin);
    // the skipped block asked for nothing; the second block asks for its script
    assert_eq!(run.index, 1);
    assert!(matches!(action, Action::CheckScript { .. }));
    let (run, action) = advance(
        &config,
        "c",
        &mut cache,
        run,
        Event::ScriptMissing {
            path: "/book/validators/validate-sqlite.sh".to_owned(),
        },
    );
    assert_eq!(run.index, 1);
    match action {
        Action::Finish(Err(e)) => {
            assert_eq!(e.code(), "E010");
            assert_eq!(
                e.to_string(),
                "[E010] Script not found: /book/validators/validate-sqlite.sh"
            );
        }
        other => panic!("unexpected action {other:?}"),
    }
}

#[test]
fn chapter_of_skipped_blocks_passes_without_an_action() {
    let content = "```a validator=x skip\n1\n```\n\n```b validator=y skip\n2\n```\n";
    let config = Config::default();
    let mut cache = SandboxCache::new();
    let (run, action) = advance(
        &config,
        "c",
        &mut cache,
        ChapterRun::new(blocks_of(content)),
        Event::Begin,
    );
    assert!(matches!(action, Action::Finish(Ok(()))));
    assert_eq!(run.index, 2);
    assert_eq!(cache.len(), 0);
}

#[test]
fn empty_chapter_and_chapter_without_validator_blocks_are_untouched() {
    assert!(matches!(plan_chapter(""), ChapterPlan::Untouched));
    assert!(matches!(
        plan_chapter("# Title\n\n```rust\nfn main() {}\n```\n"),
        ChapterPlan::Untouched
    ));
    assert!(matches!(
        plan_chapter("```sql validator=\nSELECT 1;\n```\n"),
        ChapterPlan::Untouched
    ));
}

#[test]
fn invalid_definition_fails_before_the_script_is_looked_for() {
    let mut validators = ValidatorTable::new();
    validators.insert(
        "a".to_owned(),
        ValidatorConfig {
            container: String::new(),
            script: "s.sh".to_owned(),
            exec_command: None,
        },
    );
    validators.insert(
        "b".to_owned(),
        ValidatorConfig {
            container: "img".to_owned(),
            script: String::new(),
            exec_command: None,
        },
    );
    let config = Config {
        validators,
        fail_fast: true,
        fixtures_dir: None,
    };
    let mut cache = SandboxCache::new();
    let blocks = blocks_of("```x validator=a\n1\n```\n\n```x validator=b\n2\n```\n");
    let s = step(&config, "c", &blocks[0], &mut cache, Stage::Start, Event::Begin);
    match s.action {
        Action::Finish(Err(e)) => assert_eq!(
            e.to_string(),
            "[E008] Invalid validator config for 'a': container cannot be empty"
        ),
        other => panic!("unexpected action {other:?}"),
    }
    let s = step(&config, "c", &blocks[1], &mut cache, Stage::Start, Event::Begin);
    match s.action {
        Action::Finish(Err(e)) => assert_eq!(
            e.to_string(),
            "[E008] Invalid validator config for 'b': script path cannot be empty"
        ),
        other => panic!("unexpected action {other:?}"),
    }
}

#[test]
fn sandbox_and_fixtures_failures_have_their_own_codes() {
    let mut config = sqlite_config();
    config.fixtures_dir = Some("fixtures".to_owned());
    let blocks = blocks_of("```sql validator=sqlite\nSELECT 1;\n```\n");
    let mut cache = SandboxCache::new();
    let s = step(
        &config,
        "c",
        &blocks[0],
        &mut cache,
        Stage::AwaitScript,
        Event::ScriptFound {
            path: "/v.sh".to_owned(),
        },
    );
    match &s.action {
        Action::StartSandbox { fixtures_dir, .. } => {
            assert_eq!(fixtures_dir.as_deref(), Some("fixtures"))
        }
        other => panic!("unexpected action {other:?}"),
    }
    let await_sandbox = || Stage::AwaitSandbox {
        script_path: "/v.sh".to_owned(),
    };
    let s = step(
        &config,
        "c",
        &blocks[0],
        &mut cache,
        await_sandbox(),
        Event::SandboxFailed {
            message: "daemon not running".to_owned(),
        },
    );
    match s.action {
        Action::Finish(Err(e)) => assert_eq!(
            e.to_string(),
            "[E002] Container startup failed: Failed to start container 'keinos/sqlite3:3.47.2': daemon not running"
        ),
        other => panic!("unexpected action {other:?}"),
    }
    let s = step(
        &config,
        "c",
        &blocks[0],
        &mut cache,
        await_sandbox(),
        Event::FixturesMissing {
            path: "/book/fixtures".to_owned(),
        },
    );
    match s.action {
        Action::Finish(Err(e)) => assert_eq!(
            e.to_string(),
            "[E009] Fixtures directory error: fixtures_dir '/book/fixtures' does not exist"
        ),
        other => panic!("unexpected action {other:?}"),
    }
    let s = step(
        &config,
        "c",
        &blocks[0],
        &mut cache,
        await_sandbox(),
        Event::FixturesNotDirectory {
            path: "/book/fixtures".to_owned(),
        },
    );
    match s.action {
        Action::Finish(Err(e)) => assert_eq!(
            e.to_string(),
            "[E009] Fixtures directory error: fixtures_dir '/book/fixtures' is not a directory"
        ),
        other => panic!("unexpected action {other:?}"),
    }
    assert_eq!(cache.len(), 0);
}

#[test]
fn setup_and_query_failures_carry_exit_code_and_stderr() {
    let config = sqlite_config();
    let blocks = blocks_of("```sql validator=sqlite\n<!--SETUP\n  BAD;  \n-->\n  SELECT 1;  \n```\n");
    let mut cache = SandboxCache::new();
    let s = step(
        &config,
        "Ch",
        &blocks[0],
        &mut cache,
        Stage::AwaitSetup {
            script_path: "/v.sh".to_owned(),
            session: "s".to_owned(),
        },
        exec_exit(2, "near BAD: syntax error"),
    );
    match s.action {
        Action::Finish(Err(e)) => assert_eq!(
            e.to_string(),
            "[E004] Setup script failed (exit 2): in 'Ch' (validator: sqlite):\n\nScript:\nBAD;\n\nError:\nnear BAD: syntax error"
        ),
        other => panic!("unexpected action {other:?}"),
    }
    let s = step(
        &config,
        "Ch",
        &blocks[0],
        &mut cache,
        Stage::AwaitQuery {
            script_path: "/v.sh".to_owned(),
        },
        exec_exit(-1, "killed"),
    );
    match s.action {
        Action::Finish(Err(e)) => assert_eq!(
            e.to_string(),
            "[E005] Query execution failed (exit -1): in 'Ch' (validator: sqlite):\n\nSQL:\nSELECT 1;\n\nError:\nkilled"
        ),
        other => panic!("unexpected action {other:?}"),
    }
    let s = step(
        &config,
        "Ch",
        &blocks[0],
        &mut cache,
        Stage::AwaitSetup {
            script_path: "/v.sh".to_owned(),
            session: "s".to_owned(),
        },
        Event::ExecFailed {
            message: "create_exec failed: gone".to_owned(),
        },
    );
    match s.action {
        Action::Finish(Err(e)) => assert_eq!(
            e.to_string(),
            "[E003] Container exec failed: Setup exec failed: create_exec failed: gone"
        ),
        other => panic!("unexpected action {other:?}"),
    }
    let s = step(
        &config,
        "Ch",
        &blocks[0],
        &mut cache,
        Stage::AwaitQuery {
            script_path: "/v.sh".to_owned(),
        },
        Event::ExecFailed {
            message: "stream broke".to_owned(),
        },
    );
    match s.action {
        Action::Finish(Err(e)) => assert_eq!(
            e.to_string(),
            "[E003] Container exec failed: Query exec failed: stream broke"
        ),
        other => panic!("unexpected action {other:?}"),
    }
}

#[test]
fn exit_codes_beyond_32_bits_wrap_as_a_cast_does() {
    let config = sqlite_config();
    let blocks = blocks_of("```sql validator=sqlite\nSELECT 1;\n```\n");
    let mut cache = SandboxCache::new();
    let s = step(
        &config,
        "Ch",
        &blocks[0],
        &mut cache,
        Stage::AwaitQuery {
            script_path: "/v.sh".to_owned(),
        },
        exec_exit(4294967297, ""),
    );
    match s.action {
        Action::Finish(Err(ValidatorError::QueryFailed { exit_code, .. })) => {
            assert_eq!(exit_code, 1)
        }
        other => panic!("unexpected action {other:?}"),
    }
}

#[test]
fn empty_query_content_fails_after_setup_without_a_query() {
    let config = sqlite_config();
    let blocks = blocks_of("```sql validator=sqlite\n<!--SETUP\nCREATE TABLE t;\n-->\n@@\n```\n");
    assert_eq!(blocks.len(), 1);
    let mut cache = SandboxCache::new();
    cache.remember("sqlite", "s");
    let s = step(
        &config,
        "Ch",
        &blocks[0],
        &mut cache,
        Stage::AwaitScript,
        Event::ScriptFound {
            path: "/v.sh".to_owned(),
        },
    );
    assert!(matches!(s.action, Action::Exec { stdin: None, .. }));
    let s = step(&config, "Ch", &blocks[0], &mut cache, s.stage, ok_exec("", ""));
    match s.action {
        Action::Finish(Err(e)) => assert_eq!(
            e.to_string(),
            "[E006] Validation failed (exit -1): in 'Ch' (validator: sqlite): Query content is empty"
        ),
        other => panic!("unexpected action {other:?}"),
    }
}

#[test]
fn host_validator_that_cannot_run_is_a_validation_failure_without_exit_code() {
    let config = sqlite_config();
    let blocks = blocks_of("```sql validator=sqlite\nSELECT 1;\n```\n");
    let mut cache = SandboxCache::new();
    let s = step(
        &config,
        "Ch",
        &blocks[0],
        &mut cache,
        Stage::AwaitHost,
        Event::HostFailed {
            message: "Failed to spawn validator: /v.sh".to_owned(),
        },
    );
    match s.action {
        Action::Finish(Err(e)) => assert_eq!(
            e.to_string(),
            "[E006] Validation failed (exit -1): Host validator failed in 'Ch' (validator: sqlite): Failed to spawn validator: /v.sh"
        ),
        other => panic!("unexpected action {other:?}"),
    }
}

#[test]
fn an_event_that_the_stage_does_not_wait_for_ends_the_block() {
    let config = sqlite_config();
    let blocks = blocks_of("```sql validator=sqlite\nSELECT 1;\n```\n");
    let mut cache = SandboxCache::new();
    let s = step(&config, "Ch", &blocks[0], &mut cache, Stage::AwaitHost, Event::Begin);
    match s.action {
        Action::Finish(Err(e)) => {
            assert_eq!(e.to_string(), "[E003] Container exec failed: Unexpected event for this stage")
        }
        other => panic!("unexpected action {other:?}"),
    }
    let s = step(&config, "Ch", &blocks[0], &mut cache, Stage::Done, host(0, "", ""));
    assert!(matches!(s.action, Action::Finish(Err(_))));
}

#[test]
fn configured_exec_command_runs_the_query() {
    let config = sqlite_config();
    let blocks = blocks_of("```py validator=python\nprint('x')\n```\n");
    let mut cache = SandboxCache::new();
    cache.remember("python", "py-session");
    let s = step(
        &config,
        "c",
        &blocks[0],
        &mut cache,
        Stage::AwaitScript,
        Event::ScriptFound {
            path: "/p.sh".to_owned(),
        },
    );
    match s.action {
        Action::Exec {
            session,
            cmd,
            stdin,
        } => {
            assert_eq!(session, "py-session");
            assert_eq!(cmd, strings(&["sh", "-c", "python3 -"]));
            assert_eq!(stdin.as_deref(), Some("print('x')"));
        }
        other => panic!("unexpected action {other:?}"),
    }
}

#[test]
fn image_without_tag_starts_as_latest() {
    let config = sqlite_config();
    let blocks = blocks_of("```py validator=python\nprint('x')\n```\n");
    let mut cache = SandboxCache::new();
    let s = step(
        &config,
        "c",
        &blocks[0],
        &mut cache,
        Stage::AwaitScript,
        Event::ScriptFound {
            path: "/p.sh".to_owned(),
        },
    );
    match s.action {
        Action::StartSandbox {
            image_name,
            image_tag,
            ..
        } => {
            assert_eq!(image_name, "python");
            assert_eq!(image_tag, "latest");
        }
        other => panic!("unexpected action {other:?}"),
    }
}

#[test]
fn cache_keeps_the_first_session_of_a_name() {
    let mut cache = SandboxCache::new();
    assert_eq!(cache.get("sqlite"), None);
    cache.remember("sqlite", "first");
    cache.remember("osquery", "other");
    cache.remember("sqlite", "second");
    assert_eq!(cache.get("sqlite"), Some("first".to_owned()));
    assert_eq!(cache.get("osquery"), Some("other".to_owned()));
    assert_eq!(cache.get("python"), None);
    assert_eq!(cache.len(), 2);
}

#[test]
fn block_marked_skip_and_hidden_is_refused_without_any_action() {
    let config = sqlite_config();
    let blocks = blocks_of("```sql validator=sqlite hidden skip\nSELECT 1;\n```\n");
    assert!(blocks[0].skip && blocks[0].hidden);
    let mut cache = SandboxCache::new();
    let s = step(&config, "c", &blocks[0], &mut cache, Stage::Start, Event::Begin);
    match s.action {
        Action::Finish(Err(e)) => assert_eq!(e.code(), "E011"),
        other => panic!("unexpected action {other:?}"),
    }
    assert!(matches!(s.stage, Stage::Done));
    assert_eq!(cache.len(), 0);
}

#[test]
fn fixtures_directory_that_cannot_be_resolved_is_a_fixtures_error() {
    let config = sqlite_config();
    let blocks = blocks_of("```sql validator=sqlite\nSELECT 1;\n```\n");
    let mut cache = SandboxCache::new();
    let s = step(
        &config,
        "c",
        &blocks[0],
        &mut cache,
        Stage::AwaitSandbox {
            script_path: "/v.sh".to_owned(),
        },
        Event::FixturesUnresolved {
            path: "/book/fixtures".to_owned(),
            message: "too many levels of symbolic links".to_owned(),
        },
    );
    match s.action {
        Action::Finish(Err(e)) => assert_eq!(
            e.to_string(),
            "[E009] Fixtures directory error: fixtures_dir '/book/fixtures' cannot be resolved: too many levels of symbolic links"
        ),
        other => panic!("unexpected action {other:?}"),
    }
}

#[test]
fn malformed_integer_ends_as_a_validation_failure_that_says_so() {
    let config = sqlite_config();
    let blocks = blocks_of("```sql validator=sqlite\nSELECT 1;\n<!--ASSERT\nrows >= many\n-->\n```\n");
    let observed = Observed {
        stdout: "[{\"1\":1}]".to_owned(),
        exit_code: 0,
        files: Vec::new(),
    };
    let assertions = blocks[0].markers.assertions.clone().unwrap();
    let reported = report_outcome(check_assertions(&assertions, &observed));
    assert_eq!(reported.exit_code, 1);
    let mut cache = SandboxCache::new();
    let s = step(
        &config,
        "Ch",
        &blocks[0],
        &mut cache,
        Stage::AwaitHost,
        Event::HostFinished(reported),
    );
    match s.action {
        Action::Finish(Err(e)) => {
            assert_eq!(e.code(), "E006");
            assert!(e.to_string().contains("invalid integer"));
            assert!(e.to_string().contains("rows >= many"));
        }
        other => panic!("unexpected action {other:?}"),
    }
}
