use host_bridge::error::{BridgeError, ErrorKind};
use host_bridge::files::{read_file_content, write_file_content};

#[test]
fn content_read_is_handed_on_unchanged() {
    let contents = ["", "one line", "two\nlines\n", "tab\tand\r\nreturn", "ünïcödé ✓"];
    for content in contents {
        assert_eq!(read_file_content(Ok(content.to_string())), Ok(content.to_string()));
    }
}

#[test]
fn failed_read_is_a_read_error() {
    let r = read_file_content(Err("No such file or directory (os error 2)".to_string()));
    let e = r.unwrap_err();
    assert_eq!(
        e,
        BridgeError::FileUnreadable { cause: "No such file or directory (os error 2)".to_string() }
    );
    assert_eq!(e.kind(), ErrorKind::ReadError);
    assert_eq!(e.message(), "Failed to read file: No such file or directory (os error 2)");
}

#[test]
fn write_that_succeeded_gives_nothing() {
    assert_eq!(write_file_content(Ok(())), Ok(()));
}

#[test]
fn failed_write_is_a_write_error() {
    let r = write_file_content(Err("Permission denied (os error 13)".to_string()));
    let e = r.unwrap_err();
    assert_eq!(
        e,
        BridgeError::FileUnwritable { cause: "Permission denied (os error 13)".to_string() }
    );
    assert_eq!(e.kind(), ErrorKind::WriteError);
    assert_eq!(e.message(), "Failed to write file: Permission denied (os error 13)");
}
