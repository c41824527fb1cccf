use pairswitch::error::Error;

#[test]
fn failures_at_start_up_are_fatal() {
    assert!(Error::CommandExecutionFailure.is_fatal());
    assert!(Error::MalformedLogRecord { record: "x".to_string() }.is_fatal());
}

#[test]
fn failures_of_the_writer_are_not_fatal() {
    assert!(!Error::ConfigAlreadyExists.is_fatal());
    assert!(!Error::ConfigWriteFailure.is_fatal());
}

#[test]
fn messages() {
    assert_eq!(Error::CommandExecutionFailure.message(), "the command could not be run");
    assert_eq!(
        Error::MalformedLogRecord { record: "a‖b".to_string() }.message(),
        "malformed log record: a‖b"
    );
    assert_eq!(Error::ConfigAlreadyExists.message(), "the configuration already exists");
    assert_eq!(Error::ConfigWriteFailure.message(), "the configuration could not be written");
}

#[test]
fn errors_compare_by_kind_and_record() {
    let one = Error::MalformedLogRecord { record: "one".to_string() };
    let two = Error::MalformedLogRecord { record: "two".to_string() };
    assert_eq!(one, one.clone());
    assert_ne!(one, two);
    assert_ne!(one, Error::ConfigAlreadyExists);
    assert_ne!(Error::ConfigAlreadyExists, Error::ConfigWriteFailure);
    assert_eq!(Error::CommandExecutionFailure, Error::CommandExecutionFailure.clone());
}
