use mdbook_validator::config::ValidatorConfig;
use mdbook_validator::ValidatorPreprocessor;

#[test]
fn preprocessor_has_correct_name() {
    let preprocessor = ValidatorPreprocessor::new();
    assert_eq!(preprocessor.name(), "validator");
}

#[test]
fn preprocessor_supports_html_renderer() {
    let preprocessor = ValidatorPreprocessor::new();
    assert!(preprocessor.supports_renderer("html").unwrap());
}

#[test]
fn preprocessor_supports_all_renderers() {
    // We validate and strip markers, producing valid markdown for any output format
    let preprocessor = ValidatorPreprocessor::new();
    assert!(preprocessor.supports_renderer("pdf").unwrap());
    assert!(preprocessor.supports_renderer("epub").unwrap());
    assert!(preprocessor.supports_renderer("markdown").unwrap());
}

#[test]
fn preprocessor_default_creates_instance() {
    let preprocessor = ValidatorPreprocessor::default();
    assert_eq!(preprocessor.name(), "validator");
}

fn definition(exec_command: Option<&str>) -> ValidatorConfig {
    ValidatorConfig {
        container: "image:1".to_owned(),
        script: "validate.sh".to_owned(),
        exec_command: exec_command.map(|c| c.to_owned()),
    }
}

#[test]
fn exec_command_defaults_go_by_validator_name() {
    assert_eq!(
        ValidatorPreprocessor::get_exec_command("sqlite", &definition(None)),
        "sqlite3 -json /tmp/test.db"
    );
    assert_eq!(
        ValidatorPreprocessor::get_exec_command("osquery", &definition(None)),
        "osqueryi --json"
    );
    assert_eq!(
        ValidatorPreprocessor::get_exec_command("python", &definition(None)),
        "cat"
    );
    assert_eq!(
        ValidatorPreprocessor::get_exec_command("", &definition(None)),
        "cat"
    );
}

#[test]
fn exec_command_from_configuration_wins() {
    assert_eq!(
        ValidatorPreprocessor::get_exec_command("sqlite", &definition(Some("python3 -"))),
        "python3 -"
    );
}
