use mdbook_validator::assertions::{
    check, check_assertions, check_assertions_with, parse_assertion, validate_on_host, Assertion,
    AssertionRunner, Comparison, FileReport, JsonShape, Observed,
};
use mdbook_validator::command::CommandRunner;
use mdbook_validator::host_validator::run_validator;

fn output(stdout: &str) -> Observed {
    Observed {
        stdout: stdout.to_owned(),
        exit_code: 0,
        files: Vec::new(),
    }
}

fn with_files() -> Observed {
    Observed {
        stdout: "hello world".to_owned(),
        exit_code: 3,
        files: vec![
            FileReport {
                path: "/tmp/out.txt".to_owned(),
                exists: true,
                is_dir: false,
                content: "line one line two".to_owned(),
            },
            FileReport {
                path: "/tmp/dir".to_owned(),
                exists: true,
                is_dir: true,
                content: String::new(),
            },
            FileReport {
                path: "/tmp/gone".to_owned(),
                exists: false,
                is_dir: false,
                content: String::new(),
            },
            FileReport {
                path: "/tmp/out.txt".to_owned(),
                exists: false,
                is_dir: false,
                content: "a later report on the same path".to_owned(),
            },
        ],
    }
}

#[test]
fn empty_assertion_text_passes() {
    assert_eq!(check_assertions("", &output("anything")), Ok(()));
    assert_eq!(check_assertions("\n  \n\t\n", &output("{broken")), Ok(()));
}

#[test]
fn contains_empty_string_holds_of_every_output() {
    for stdout in ["", "x", "[]", "{broken", "ünï\ncode"] {
        assert_eq!(check_assertions("contains \"\"", &output(stdout)), Ok(()));
        assert_eq!(
            check_assertions("stdout_contains \"\"", &output(stdout)),
            Ok(())
        );
    }
}

#[test]
fn rows_counts_the_elements_of_a_json_array() {
    let three = output("[1, {\"a\": [1, 2]}, \"x\"]");
    assert_eq!(check_assertions("rows = 3", &three), Ok(()));
    assert_eq!(check_assertions("rows >= 3", &three), Ok(()));
    assert_eq!(check_assertions("rows <= 3", &three), Ok(()));
    assert_eq!(check_assertions("rows > 2", &three), Ok(()));
    assert_eq!(check_assertions("rows < 4", &three), Ok(()));
    assert_eq!(
        check_assertions("rows > 3", &three),
        Err("Assertion failed: rows > 3 (got 3)".to_owned())
    );
    assert_eq!(
        check_assertions("rows < 3", &three),
        Err("Assertion failed: rows < 3 (got 3)".to_owned())
    );
    assert_eq!(
        check_assertions("rows = 999", &output("[{\"value\":1}]")),
        Err("Assertion failed: rows = 999 (got 1)".to_owned())
    );
}

#[test]
fn rows_of_null_is_zero() {
    assert_eq!(check_assertions("rows = 0", &output("null")), Ok(()));
    assert_eq!(check_assertions("rows = 0", &output(" null\n")), Ok(()));
    assert_eq!(
        check_assertions("rows >= 1", &output("null")),
        Err("Assertion failed: rows >= 1 (got 0)".to_owned())
    );
}

#[test]
fn rows_needs_an_array() {
    for stdout in ["", "{broken", "{\"a\": 1}", "12", "\"text\"", "[1, 2"] {
        assert_eq!(
            check_assertions("rows = 0", &output(stdout)),
            Err("Invalid JSON output: cannot count rows for 'rows = 0'".to_owned())
        );
    }
}

#[test]
fn malformed_integers_are_reported_with_the_assertion() {
    for line in [
        "rows = abc",
        "rows >= 1.5",
        "rows < +3",
        "rows = -",
        "rows = 12x",
        "rows = 99999999999999999999",
        "exit_code = zero",
        "exit_code = 0x10",
    ] {
        assert_eq!(
            check_assertions(line, &output("[]")),
            Err(format!("Assertion failed: invalid integer in '{line}'"))
        );
    }
}

#[test]
fn integers_at_the_edge_of_64_bits_are_read() {
    assert_eq!(
        check_assertions("rows > -9223372036854775808", &output("[]")),
        Ok(())
    );
    assert_eq!(
        check_assertions("rows < 9223372036854775807", &output("[]")),
        Ok(())
    );
    assert_eq!(
        check_assertions("rows < 9223372036854775808", &output("[]")),
        Err("Assertion failed: invalid integer in 'rows < 9223372036854775808'".to_owned())
    );
    assert_eq!(check_assertions("rows = 007", &output("[1,2,3,4,5,6,7]")), Ok(()));
    assert_eq!(check_assertions("rows = -0", &output("[]")), Ok(()));
}

#[test]
fn exit_code_is_compared_with_the_captured_one() {
    let observed = with_files();
    assert_eq!(check_assertions("exit_code = 3", &observed), Ok(()));
    assert_eq!(
        check_assertions("exit_code = 0", &observed),
        Err("Assertion failed: exit_code = 0 (got 3)".to_owned())
    );
    let negative = Observed {
        stdout: String::new(),
        exit_code: -1,
        files: Vec::new(),
    };
    assert_eq!(check_assertions("exit_code = -1", &negative), Ok(()));
    assert_eq!(
        check_assertions("exit_code = 1", &negative),
        Err("Assertion failed: exit_code = 1 (got -1)".to_owned())
    );
}

#[test]
fn contains_looks_for_the_text_between_the_quotes() {
    let observed = with_files();
    assert_eq!(check_assertions("contains \"lo wo\"", &observed), Ok(()));
    assert_eq!(check_assertions("stdout_contains \"hello world\"", &observed), Ok(()));
    assert_eq!(
        check_assertions("contains \"World\"", &observed),
        Err("Assertion failed: output does not contain \"World\"".to_owned())
    );
    assert_eq!(
        check_assertions("contains \"say \"hi\"\"", &output("they say \"hi\" twice")),
        Ok(())
    );
    assert_eq!(
        check_assertions("contains hello", &observed),
        Err("Unknown assertion syntax: contains hello".to_owned())
    );
    assert_eq!(
        check_assertions("contains \"", &observed),
        Err("Unknown assertion syntax: contains \"".to_owned())
    );
}

#[test]
fn file_assertions_go_by_the_first_report_on_the_path() {
    let observed = with_files();
    assert_eq!(check_assertions("file_exists /tmp/out.txt", &observed), Ok(()));
    assert_eq!(check_assertions("dir_exists /tmp/dir", &observed), Ok(()));
    assert_eq!(
        check_assertions("file_contains /tmp/out.txt \"line two\"", &observed),
        Ok(())
    );
    assert_eq!(
        check_assertions("file_contains   /tmp/out.txt    \"\"", &observed),
        Ok(())
    );
    assert_eq!(
        check_assertions("file_exists /tmp/dir", &observed),
        Err("Assertion failed: file does not exist: /tmp/dir".to_owned())
    );
    assert_eq!(
        check_assertions("file_exists /tmp/gone", &observed),
        Err("Assertion failed: file does not exist: /tmp/gone".to_owned())
    );
    assert_eq!(
        check_assertions("file_exists /never/reported", &observed),
        Err("Assertion failed: file does not exist: /never/reported".to_owned())
    );
    assert_eq!(
        check_assertions("dir_exists /tmp/out.txt", &observed),
        Err("Assertion failed: directory does not exist: /tmp/out.txt".to_owned())
    );
    assert_eq!(
        check_assertions("file_contains /tmp/out.txt \"later\"", &observed),
        Err("Assertion failed: file /tmp/out.txt does not contain \"later\"".to_owned())
    );
    assert_eq!(
        check_assertions("file_contains /tmp/dir \"\"", &observed),
        Err("Assertion failed: file /tmp/dir does not contain \"\"".to_owned())
    );
    assert_eq!(
        check_assertions("file_contains /tmp/out.txt", &observed),
        Err("Unknown assertion syntax: file_contains /tmp/out.txt".to_owned())
    );
}

#[test]
fn unknown_forms_are_reported() {
    for line in [
        "foobar = 123",
        "rows",
        "rows =",
        "rows == 1",
        "rows != 1",
        "rows=1",
        "ROWS = 1",
        "exit_code > 0",
        "exit_code =",
        "file_exists",
        "dir_exists",
        "-->",
    ] {
        assert_eq!(
            check_assertions(line, &output("[]")),
            Err(format!("Unknown assertion syntax: {line}"))
        );
    }
}

#[test]
fn the_first_failing_assertion_decides() {
    let text = "\n  rows >= 1  \ncontains \"b\"\r\n\nrows = 5\ncontains \"never reached\"\nnonsense\n";
    assert_eq!(
        check_assertions(text, &output("[\"a\", \"b\"]")),
        Err("Assertion failed: rows = 5 (got 2)".to_owned())
    );
    assert_eq!(
        check_assertions("rows >= 1\ncontains \"b\"", &output("[\"a\", \"b\"]")),
        Ok(())
    );
}

#[test]
fn a_given_shape_decides_the_rows_whatever_the_output_is() {
    let observed = output("this is no JSON");
    assert_eq!(
        check_assertions_with("rows = 4", &observed, JsonShape::Array(4)),
        Ok(())
    );
    assert_eq!(
        check_assertions_with("rows = 0", &observed, JsonShape::Null),
        Ok(())
    );
    assert_eq!(
        check_assertions_with("rows = 0", &observed, JsonShape::Other),
        Err("Invalid JSON output: cannot count rows for 'rows = 0'".to_owned())
    );
    assert_eq!(
        check_assertions_with("rows = 0", &observed, JsonShape::Invalid),
        Err("Invalid JSON output: cannot count rows for 'rows = 0'".to_owned())
    );
    assert_eq!(
        check_assertions_with("contains \"no JSON\"", &observed, JsonShape::Invalid),
        Ok(())
    );
}

#[test]
fn parse_assertion_reads_each_form() {
    assert!(matches!(
        parse_assertion("  rows >=   12  "),
        Assertion::Rows { op: Comparison::AtLeast, value } if value == "12"
    ));
    assert!(matches!(
        parse_assertion("rows <= x y"),
        Assertion::Rows { op: Comparison::AtMost, value } if value == "x y"
    ));
    assert!(matches!(
        parse_assertion("rows = 1"),
        Assertion::Rows { op: Comparison::Equal, value } if value == "1"
    ));
    assert!(matches!(
        parse_assertion("rows > 1"),
        Assertion::Rows { op: Comparison::MoreThan, value } if value == "1"
    ));
    assert!(matches!(
        parse_assertion("rows < 1"),
        Assertion::Rows { op: Comparison::LessThan, value } if value == "1"
    ));
    assert!(matches!(
        parse_assertion("exit_code = 7"),
        Assertion::ExitCode { value } if value == "7"
    ));
    assert!(matches!(
        parse_assertion("contains \"a b\""),
        Assertion::Contains { text } if text == "a b"
    ));
    assert!(matches!(
        parse_assertion("stdout_contains \"\""),
        Assertion::StdoutContains { text } if text.is_empty()
    ));
    assert!(matches!(
        parse_assertion("file_exists  /a/b "),
        Assertion::FileExists { path } if path == "/a/b"
    ));
    assert!(matches!(
        parse_assertion("dir_exists /a"),
        Assertion::DirExists { path } if path == "/a"
    ));
    assert!(matches!(
        parse_assertion("file_contains /a/b \"x \" y\""),
        Assertion::FileContains { path, text } if path == "/a/b" && text == "x \" y"
    ));
    assert!(matches!(parse_assertion(""), Assertion::Unknown));
    assert!(matches!(parse_assertion("row = 1"), Assertion::Unknown));
}

#[test]
fn check_names_the_line_it_was_given() {
    let assertion = parse_assertion("rows = 2");
    assert_eq!(
        check(&assertion, "as written", &output("[]"), JsonShape::Array(1)),
        Err("Assertion failed: as written (got 1)".to_owned())
    );
    assert_eq!(
        check(&Assertion::Unknown, "what", &output("[]"), JsonShape::Null),
        Err("Unknown assertion syntax: what".to_owned())
    );
}

#[test]
fn runner_finds_the_assertions_in_its_environment() {
    let runner = AssertionRunner;
    let env = [
        ("VALIDATOR_EXPECT", "rows = 9"),
        ("VALIDATOR_ASSERTIONS", "rows = 2"),
        ("VALIDATOR_ASSERTIONS", "rows = 3"),
    ];
    let passed = runner.run_script("ignored.sh", "[1, 2]", &env).unwrap();
    assert_eq!(passed.code, Some(0));
    assert!(passed.stdout.is_empty() && passed.stderr.is_empty());
    let failed = runner.run_script("ignored.sh", "[1]", &env).unwrap();
    assert_eq!(failed.code, Some(1));
    assert_eq!(
        failed.stderr,
        "Assertion failed: rows = 2 (got 1)".as_bytes().to_vec()
    );
    let none = runner
        .run_script("ignored.sh", "{broken", &[("VALIDATOR_EXPECT", "rows = 9")])
        .unwrap();
    assert_eq!(none.code, Some(0));
}

#[test]
fn no_assertions_and_empty_assertions_pass_on_the_host() {
    for assertions in [None, Some("")] {
        for input in ["[]", "", "null", "{broken"] {
            let result = run_validator(&AssertionRunner, "v.sh", input, assertions, None, None)
                .unwrap();
            assert_eq!(result.exit_code, 0);
            assert_eq!(result.stderr, "");
            let result = validate_on_host(input, assertions, Some("e"), Some("warn")).unwrap();
            assert_eq!(result.exit_code, 0);
        }
    }
}

#[test]
fn failing_assertion_is_reported_with_exit_code_one_and_its_message() {
    let result = validate_on_host("[1]", Some("rows = 2\ncontains \"ü\""), None, None).unwrap();
    assert_eq!(result.exit_code, 1);
    assert_eq!(result.stdout, "");
    assert_eq!(result.stderr, "Assertion failed: rows = 2 (got 1)");
    let result = validate_on_host("[\"ü\"]", Some("contains \"ö\""), None, None).unwrap();
    assert_eq!(result.stderr, "Assertion failed: output does not contain \"ö\"");
}
