use flatkap::error::{Error, Result};

#[test]
fn generic_error_carries_its_message() {
    let error = Error::generic("Failed to find pid.");
    assert!(matches!(&error, Error::Generic { message } if message == "Failed to find pid."));
    assert_eq!(error.message(), "Failed to find pid.");
}

#[test]
fn io_error_carries_its_message() {
    let text = "No such file or directory (os error 2)";
    let error = Error::io(text.to_string());
    assert!(matches!(&error, Error::IOError { message } if message == text));
    assert_eq!(error.message(), text);
}

#[test]
fn static_text_becomes_a_generic_error() {
    let text = "No pidfs dir found for pid.";
    let error: Error = text.into();
    assert!(matches!(error, Error::Generic { message } if message == text));
    let from = Error::from("x");
    assert!(matches!(from, Error::Generic { message } if message == "x"));
}

fn lookup(found: Option<i32>) -> Result<i32> {
    Ok(found.ok_or("Failed to find pid.")?)
}

#[test]
fn question_mark_turns_static_text_into_an_error() {
    assert_eq!(lookup(Some(3)).unwrap(), 3);
    let text = "Failed to find pid.";
    assert!(matches!(lookup(None), Err(Error::Generic { message }) if message == text));
}

#[test]
fn report_names_the_kind_before_the_message() {
    assert_eq!(Error::generic("Failed to find pid.").report(), "Error: Failed to find pid.");
    assert_eq!(Error::io("denied".to_string()).report(), "IOError: denied");
    assert_eq!(Error::generic("").report(), "Error: ");
}

#[test]
fn duplicate_says_the_same() {
    let generic = Error::generic("a").duplicate();
    assert!(matches!(generic, Error::Generic { message } if message == "a"));
    let io = Error::io("b".to_string()).duplicate();
    assert!(matches!(io, Error::IOError { message } if message == "b"));
}
