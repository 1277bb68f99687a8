use fli::option_parser::{Value, ValueTypes};
use fli::Fli;

const NAME: &str = "fli";
const VERSION: &str = "0.1.0";
const DESCRIPTION: &str = "A declarative command-line parser";

fn fresh_app() -> Fli {
    Fli::new(NAME, VERSION, DESCRIPTION)
}

#[test]
fn test_init_fli_from_toml_macro() {
    let app = fresh_app();

    assert_eq!(app.name, NAME);
    assert_eq!(app.version, VERSION);
    assert_eq!(app.description, DESCRIPTION);
}

#[test]
fn test_init_fli_from_toml_name() {
    let app = fresh_app();
    assert!(!app.name.is_empty());
}

#[test]
fn test_init_fli_from_toml_version() {
    let app = fresh_app();
    assert!(!app.version.is_empty());
}

#[test]
fn test_init_fli_from_toml_description() {
    let app = fresh_app();
    // Description might be empty, so just check it exists
    let _ = app.description;
}

#[test]
fn test_init_fli_from_toml_returns_fli() {
    let app = fresh_app();

    // Should be able to use Fli methods
    assert_eq!(app.root_command.get_name(), "");
}

#[test]
fn test_init_fli_from_toml_multiple_calls() {
    let app1 = fresh_app();
    let app2 = fresh_app();

    assert_eq!(app1.name, app2.name);
    assert_eq!(app1.version, app2.version);
}

#[test]
fn test_init_fli_from_toml_can_add_commands() {
    let mut app = fresh_app();

    let result = app.command("test", "Test command");
    assert!(result.is_ok());
}

#[test]
fn test_init_fli_from_toml_can_add_options() {
    let mut app = fresh_app();
    app.add_option(
        "test",
        "Test option",
        "-t",
        "--test",
        ValueTypes::OptionalSingle(Some(Value::Bool(false))),
    );

    assert!(app.root_command.get_option_parser().has_option("-t"));
}
