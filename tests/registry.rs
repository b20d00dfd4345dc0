use cliply::App;
use cliply::ArgData;
use cliply::CliplyError;

fn argv(tokens: &[&str]) -> Vec<String> {
    tokens.iter().map(|t| t.to_string()).collect()
}

fn example_app() -> App {
    let mut app = App::new("Example", "0.1.0", "Alyx Shang");
    app.add_arg("greet", " generic greeting for the user", &false);
    app.add_arg("cgreet", "custom greeting for the user", &true);
    app
}

#[test]
fn version_info_format() {
    let app = App::new("Example", "0.1.0", "Alyx Shang");
    assert_eq!(app.version_info(), "Example v.0.1.0\nby Alyx Shang.");
}

#[test]
fn greet_long_form_is_used() {
    let app = example_app();
    assert!(app.arg_was_used("greet", &argv(&["--greet"])));
}

#[test]
fn was_used_accepts_each_spelling() {
    let app = example_app();
    assert!(app.arg_was_used("greet", &argv(&["prog", "-g"])));
    assert!(app.arg_was_used("greet", &argv(&["prog", "--greet"])));
    assert!(app.arg_was_used("greet", &argv(&["prog", "greet"])));
    assert!(!app.arg_was_used("greet", &argv(&["prog", "-greet", "--g", "greeting"])));
    assert!(!app.arg_was_used("greet", &argv(&[])));
}

#[test]
fn was_used_needs_no_registration() {
    let app = App::new("Example", "0.1.0", "Alyx Shang");
    assert!(app.arg_was_used("other", &argv(&["-o"])));
    assert!(!app.arg_was_used("other", &argv(&["-x"])));
}

#[test]
fn cgreet_data_is_returned() {
    let app = example_app();
    let r = app.get_arg_data("cgreet", &argv(&["--cgreet", "World"]));
    assert_eq!(r, Ok("World".to_string()));
}

#[test]
fn data_is_returned_untrimmed() {
    let app = example_app();
    let r = app.get_arg_data("cgreet", &argv(&["prog", "-c", "  two words  "]));
    assert_eq!(r, Ok("  two words  ".to_string()));
}

#[test]
fn cgreet_without_value_is_missing_data() {
    let app = example_app();
    let r = app.get_arg_data("cgreet", &argv(&["--cgreet"]));
    assert_eq!(r, Err(CliplyError::new("No data supplied to \"--cgreet\".")));
}

#[test]
fn missing_data_names_the_matched_spelling() {
    let app = example_app();
    let r = app.get_arg_data("cgreet", &argv(&["prog", "--cgreet", "x", "-c"]));
    assert_eq!(r.unwrap_err().to_string(), "No data supplied to \"-c\".");
}

#[test]
fn short_form_takes_priority() {
    let app = example_app();
    let r = app.get_arg_data("cgreet", &argv(&["cgreet", "a", "--cgreet", "b", "-c", "d"]));
    assert_eq!(r, Ok("d".to_string()));
    let r = app.get_arg_data("cgreet", &argv(&["cgreet", "a", "--cgreet", "b"]));
    assert_eq!(r, Ok("b".to_string()));
    let r = app.get_arg_data("cgreet", &argv(&["cgreet", "a"]));
    assert_eq!(r, Ok("a".to_string()));
}

#[test]
fn first_occurrence_is_used() {
    let app = example_app();
    let r = app.get_arg_data("cgreet", &argv(&["--cgreet", "one", "--cgreet", "two"]));
    assert_eq!(r, Ok("one".to_string()));
}

#[test]
fn absent_flag_has_empty_data() {
    let app = example_app();
    assert_eq!(app.get_arg_data("cgreet", &argv(&["prog", "--greet"])), Ok(String::new()));
    assert_eq!(app.get_arg_data("cgreet", &argv(&[])), Ok(String::new()));
}

#[test]
fn unregistered_or_dataless_flag_has_empty_data() {
    let app = example_app();
    assert_eq!(app.get_arg_data("greet", &argv(&["--greet", "x"])), Ok(String::new()));
    assert_eq!(app.get_arg_data("nope", &argv(&["--nope", "x"])), Ok(String::new()));
}

#[test]
fn help_short_form_is_built_in() {
    let app = example_app();
    let tokens = argv(&["-h"]);
    assert!(app.help_is(&tokens));
    assert!(app.arg_was_used("help", &tokens));
    assert!(!app.version_is(&tokens));
}

#[test]
fn version_spellings_are_detected() {
    let app = example_app();
    assert!(app.version_is(&argv(&["-v"])));
    assert!(app.version_is(&argv(&["--version"])));
    assert!(app.version_is(&argv(&["version"])));
    assert!(!app.version_is(&argv(&["--verbose"])));
}

#[test]
fn help_info_lists_flags_then_builtins() {
    let app = example_app();
    let text = app.help_info();
    let lines: Vec<&str> = text.split('\n').collect();
    assert_eq!(lines.len(), 4);
    assert_eq!(lines[0], "-g --greet greet         generic greeting for the user");
    assert_eq!(lines[1], "-c --cgreet cgreet DATA  custom greeting for the user");
    assert_eq!(lines[2], "-h --help help           displays this message");
    assert_eq!(lines[3], "-v --version version     displays app info");
}

#[test]
fn help_info_with_no_flags_has_two_lines() {
    let app = App::new("Example", "0.1.0", "Alyx Shang");
    assert_eq!(
        app.help_info(),
        "-h --help help           displays this message\n-v --version version     displays app info"
    );
}

#[test]
fn re_registration_overwrites_in_place() {
    let mut app = example_app();
    app.add_arg("greet", "hello again", &true);
    assert_eq!(app.args.len(), 2);
    assert_eq!(app.args[0].0, "greet");
    assert_eq!(app.args[0].1, ArgData::new("hello again", &true));
    let lines: Vec<String> = app.help_info().split('\n').map(|l| l.to_string()).collect();
    assert_eq!(lines[0], "-g --greet greet DATA  hello again");
    assert_eq!(
        app.get_arg_data("greet", &argv(&["--greet", "x"])),
        Ok("x".to_string())
    );
}

#[test]
fn arg_data_new_keeps_fields() {
    let d = ArgData::new("some help", &true);
    assert_eq!(d.help, "some help");
    assert!(d.data);
}

#[test]
fn error_carries_its_message() {
    let e = CliplyError::new("boom");
    assert_eq!(e.details, "boom");
    assert_eq!(e.to_string(), "boom");
}
