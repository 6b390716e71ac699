use host_bridge::error::{BridgeError, ErrorKind};

#[test]
fn path_not_found_message() {
    let e = BridgeError::PathNotFound { path: "/no/such/dir".to_string() };
    assert_eq!(e.kind(), ErrorKind::NotFound);
    assert_eq!(e.message(), "Path does not exist: /no/such/dir");
}

#[test]
fn home_not_found_message() {
    let e = BridgeError::HomeNotFound;
    assert_eq!(e.kind(), ErrorKind::NotFound);
    assert_eq!(e.message(), "Could not determine home directory");
}

#[test]
fn directory_unreadable_message() {
    let e = BridgeError::DirectoryUnreadable { cause: "Permission denied (os error 13)".to_string() };
    assert_eq!(e.kind(), ErrorKind::ReadError);
    assert_eq!(e.message(), "Failed to read directory: Permission denied (os error 13)");
}

#[test]
fn file_unreadable_message() {
    let e = BridgeError::FileUnreadable {
        cause: "stream did not contain valid UTF-8".to_string(),
    };
    assert_eq!(e.kind(), ErrorKind::ReadError);
    assert_eq!(e.message(), "Failed to read file: stream did not contain valid UTF-8");
}

#[test]
fn file_unwritable_message() {
    let e = BridgeError::FileUnwritable {
        cause: "No space left on device (os error 28)".to_string(),
    };
    assert_eq!(e.kind(), ErrorKind::WriteError);
    assert_eq!(e.message(), "Failed to write file: No space left on device (os error 28)");
}

#[test]
fn message_with_empty_cause_is_the_opening() {
    let e = BridgeError::FileUnreadable { cause: String::new() };
    assert_eq!(e.message(), "Failed to read file: ");
}
