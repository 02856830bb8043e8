use mdbook_validator::container::ValidationResult;
use mdbook_validator::chapter::finish_chapter;
use mdbook_validator::script_mode::{
    next_block, plan_script_chapter, script_exec_failure, script_request, script_start_failure,
    script_step, script_verdict, ScriptAction, ScriptEvent,
};
use mdbook_validator::{ValidatorError, ValidatorPreprocessor};

const CONTENT: &str = "```sql validator=test skip\nSELECT 0;\n```\n\n```sql validator=test\n<!--SETUP\nCREATE TABLE t;\n-->\n@@SELECT 'hidden';\nSELECT 'visible';\n<!--ASSERT\nrows >= 1\n-->\n```\n\n```sql validator=test skip\nSELECT 9;\n```\n";

#[test]
fn skipped_blocks_are_passed_over() {
    let blocks = ValidatorPreprocessor::find_validator_blocks(CONTENT);
    assert_eq!(blocks.len(), 3);
    assert_eq!(next_block(&blocks, 0), Some(1));
    assert_eq!(next_block(&blocks, 1), Some(1));
    assert_eq!(next_block(&blocks, 2), None);
    assert_eq!(next_block(&blocks, 3), None);
    assert_eq!(next_block(&blocks, 17), None);
}

#[test]
fn block_goes_to_the_script_in_its_environment() {
    let blocks = ValidatorPreprocessor::find_validator_blocks(CONTENT);
    let request = script_request(&blocks[1]);
    assert_eq!(request.cmd, vec!["sh".to_owned(), "/validate.sh".to_owned()]);
    assert_eq!(
        request.env,
        Some(vec![
            "VALIDATOR_CONTENT=SELECT 'hidden';\nSELECT 'visible';".to_owned(),
            "VALIDATOR_SETUP=CREATE TABLE t;".to_owned(),
            "VALIDATOR_ASSERTIONS=rows >= 1".to_owned(),
        ])
    );
    assert!(!request.attach_stdin);
}

#[test]
fn exit_code_zero_passes_and_any_other_fails_with_the_streams() {
    let blocks = ValidatorPreprocessor::find_validator_blocks(
        "```sql validator=test\nSELECT 1;\n```\n",
    );
    let passed = ValidationResult {
        exit_code: 0,
        stdout: "ignored".to_owned(),
        stderr: "ignored too".to_owned(),
    };
    assert!(script_verdict("Test Chapter", &blocks[0], &passed).is_ok());
    let failed = ValidationResult {
        exit_code: 1,
        stdout: String::new(),
        stderr: "Validation error: something went wrong\n".to_owned(),
    };
    let e = script_verdict("Test Chapter", &blocks[0], &failed).unwrap_err();
    let error_msg = e.to_string();
    assert!(error_msg.contains("Validation failed"));
    assert!(error_msg.contains("exit code 1"));
    assert!(error_msg.contains("something went wrong"));
    assert_eq!(
        error_msg,
        "[E006] Validation failed (exit 1): in 'Test Chapter' (exit code 1):\n\nCode:\nSELECT 1;\n\nValidator stderr:\nValidation error: something went wrong\n"
    );
    let both = ValidationResult {
        exit_code: -3,
        stdout: "o".to_owned(),
        stderr: "e".to_owned(),
    };
    match script_verdict("c", &blocks[0], &both).unwrap_err() {
        ValidatorError::ValidationFailed { exit_code, message } => {
            assert_eq!(exit_code, -3);
            assert_eq!(
                message,
                "in 'c' (exit code -3):\n\nCode:\nSELECT 1;\n\nValidator stderr:\ne\nValidator stdout:\no"
            );
        }
        other => panic!("unexpected error {other:?}"),
    }
}

#[test]
fn failures_outside_the_script_have_their_codes() {
    assert_eq!(
        script_exec_failure("Ch 1", "create_exec failed").to_string(),
        "[E003] Container exec failed: Validation exec failed in 'Ch 1': create_exec failed"
    );
    assert_eq!(
        script_start_failure("Is Docker running?").to_string(),
        "[E002] Container startup failed: Failed to start container: Is Docker running?"
    );
}

fn finished(exit_code: i64, stdout: &str, stderr: &str) -> ScriptEvent {
    ScriptEvent::Finished(ValidationResult {
        exit_code,
        stdout: stdout.to_owned(),
        stderr: stderr.to_owned(),
    })
}

#[test]
fn chapter_without_blocks_is_not_planned() {
    assert!(plan_script_chapter("").is_none());
    assert!(plan_script_chapter("# Title\n\n```rust\nfn main() {}\n```\n").is_none());
    let blocks = plan_script_chapter(CONTENT).unwrap();
    assert_eq!(blocks.len(), 3);
}

#[test]
fn run_goes_through_the_blocks_in_order_and_passes() {
    let content = "```a validator=t\none\n```\n\n```b validator=t skip\ntwo\n```\n\n```c validator=t\nthree\n```\n";
    let blocks = plan_script_chapter(content).unwrap();
    let (index, action) = script_step("Ch", &blocks, 0, ScriptEvent::Begin);
    assert_eq!(index, 0);
    match action {
        ScriptAction::Run(request) => {
            assert_eq!(request.env, Some(vec!["VALIDATOR_CONTENT=one".to_owned()]))
        }
        other => panic!("unexpected action {other:?}"),
    }
    let (index, action) = script_step("Ch", &blocks, index, finished(0, "", ""));
    assert_eq!(index, 2);
    match action {
        ScriptAction::Run(request) => {
            assert_eq!(request.env, Some(vec!["VALIDATOR_CONTENT=three".to_owned()]))
        }
        other => panic!("unexpected action {other:?}"),
    }
    let (index, action) = script_step("Ch", &blocks, index, finished(0, "", ""));
    assert_eq!(index, 3);
    assert!(matches!(action, ScriptAction::Finish(Ok(()))));
}

#[test]
fn run_ends_at_the_first_block_that_fails() {
    let content = "```a validator=t\none\n```\n\n```c validator=t\nthree\n```\n";
    let blocks = plan_script_chapter(content).unwrap();
    let (index, _) = script_step("Ch", &blocks, 0, ScriptEvent::Begin);
    let (index, action) = script_step("Ch", &blocks, index, finished(2, "", "bad"));
    assert_eq!(index, 0);
    match action {
        ScriptAction::Finish(Err(e)) => assert_eq!(
            e.to_string(),
            "[E006] Validation failed (exit 2): in 'Ch' (exit code 2):\n\nCode:\none\n\nValidator stderr:\nbad"
        ),
        other => panic!("unexpected action {other:?}"),
    }
    let (index, action) = script_step(
        "Ch",
        &blocks,
        1,
        ScriptEvent::Failed {
            message: "gone".to_owned(),
        },
    );
    assert_eq!(index, 1);
    match action {
        ScriptAction::Finish(Err(e)) => assert_eq!(
            e.to_string(),
            "[E003] Container exec failed: Validation exec failed in 'Ch': gone"
        ),
        other => panic!("unexpected action {other:?}"),
    }
    let (_, action) = script_step("Ch", &blocks, 2, finished(0, "", ""));
    assert!(matches!(action, ScriptAction::Finish(Err(_))));
}

#[test]
fn chapter_of_skipped_blocks_passes_without_a_request() {
    let blocks = plan_script_chapter("```a validator=t skip\none\n```\n").unwrap();
    let (index, action) = script_step("Ch", &blocks, 0, ScriptEvent::Begin);
    assert_eq!(index, 1);
    assert!(matches!(action, ScriptAction::Finish(Ok(()))));
}

#[test]
fn failed_chapter_keeps_its_text_and_passed_chapter_is_rewritten() {
    let content = "```sql validator=t\n@@hidden\nSELECT 1;\n```\n";
    assert_eq!(
        finish_chapter(content, &Ok(())),
        Some("```sql validator=t\nSELECT 1;\n```".to_owned())
    );
    assert_eq!(
        finish_chapter(content, &Err(ValidatorError::MutuallyExclusiveAttributes)),
        None
    );
}
