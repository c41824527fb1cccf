use pairswitch::git::interrogate_git_repository;
use pairswitch::log_format::{log_command, trailer_for};
use pairswitch::error::Error;
use pairswitch::run_command::{output_text, run, run_basic};
use pairswitch::structs::Contributor;

#[test]
fn basic_command_has_no_arguments_and_no_input() {
    let invocation = run_basic("git");
    assert_eq!(invocation.program, "git");
    assert!(invocation.arguments.is_empty());
    assert_eq!(invocation.std_in, "");
}

#[test]
fn command_keeps_program_arguments_and_input() {
    let invocation = run("git", &["shortlog", "-se", "--all"], "input");
    assert_eq!(invocation.program, "git");
    assert_eq!(invocation.arguments, vec!["shortlog", "-se", "--all"]);
    assert_eq!(invocation.std_in, "input");
    let none = run("ls", &[], "");
    assert!(none.arguments.is_empty());
}

#[test]
fn log_command_names_eight_fields() {
    let invocation = log_command(None);
    assert_eq!(invocation.program, "git");
    assert_eq!(invocation.std_in, "");
    assert_eq!(
        invocation.arguments,
        vec![
            "log",
            "--pretty=tformat:%H‖%h‖%s‖%an‖%ae‖%cn‖%ce‖%(trailers:key=Co-authored-by)」",
        ]
    );
}

#[test]
fn log_command_with_a_limit() {
    for (limit, text) in [
        (0u32, "--max-count=0"),
        (7, "--max-count=7"),
        (10, "--max-count=10"),
        (100, "--max-count=100"),
        (1905, "--max-count=1905"),
        (u32::MAX, "--max-count=4294967295"),
    ] {
        let invocation = log_command(Some(limit));
        assert_eq!(invocation.arguments.len(), 3);
        assert_eq!(invocation.arguments[0], "log");
        assert_eq!(invocation.arguments[2], text);
    }
}

#[test]
fn trailer_of_a_person() {
    let bo = Contributor { name: "Bo".to_string(), email: "bo@x.com".to_string() };
    assert_eq!(trailer_for(&bo), "Co-authored-by: Bo <bo@x.com>");
    let nobody = Contributor { name: String::new(), email: String::new() };
    assert_eq!(trailer_for(&nobody), "Co-authored-by:  <>");
}

#[test]
fn trailer_is_read_back_from_a_record() {
    let bo = Contributor { name: "Bo Li".to_string(), email: "bo@x.com".to_string() };
    let raw = format!("1‖2‖3‖4‖5‖6‖7‖{}\n」\n", trailer_for(&bo));
    let commits = interrogate_git_repository(&raw).unwrap();
    assert_eq!(commits[0].co_authors, vec![bo]);
}

#[test]
fn output_of_a_command_that_ended_well() {
    assert_eq!(output_text(true, "a‖b」\n".as_bytes()), Ok("a‖b」\n".to_string()));
    assert_eq!(output_text(true, b""), Ok(String::new()));
}

#[test]
fn command_that_did_not_end_well_has_failed() {
    assert_eq!(output_text(false, b"fatal: not a git repository"), Err(Error::CommandExecutionFailure));
    assert_eq!(output_text(false, b""), Err(Error::CommandExecutionFailure));
}

#[test]
fn output_that_is_not_text_is_a_failure() {
    assert_eq!(output_text(true, &[0x66, 0x6f, 0xff]), Err(Error::CommandExecutionFailure));
    assert_eq!(output_text(true, &[0xe2, 0x80]), Err(Error::CommandExecutionFailure));
    assert_eq!(output_text(true, &[0xed, 0xa0, 0x80]), Err(Error::CommandExecutionFailure));
    assert_eq!(output_text(true, &[0xc0, 0x80]), Err(Error::CommandExecutionFailure));
}

#[test]
fn output_of_the_log_is_read_into_commits() {
    let text = output_text(true, "1‖2‖3‖4‖5‖6‖7‖」\n".as_bytes()).unwrap();
    assert_eq!(interrogate_git_repository(&text).unwrap().len(), 1);
}
