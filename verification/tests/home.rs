use host_bridge::error::{BridgeError, ErrorKind};
use host_bridge::home::{get_home_dir, home_dir_result};

#[test]
fn home_that_was_found_is_returned() {
    assert_eq!(home_dir_result(Some("/home/alice".to_string())), Ok("/home/alice".to_string()));
}

#[test]
fn home_that_was_not_found_is_an_error() {
    let e = home_dir_result(None).unwrap_err();
    assert_eq!(e, BridgeError::HomeNotFound);
    assert_eq!(e.kind(), ErrorKind::NotFound);
    assert_eq!(e.message(), "Could not determine home directory");
}

#[test]
fn home_of_this_user_is_a_directory() {
    match get_home_dir() {
        Ok(path) => {
            assert!(!path.is_empty());
            let found = std::path::Path::new(&path);
            assert!(found.is_dir() || !found.exists());
        },
        Err(e) => assert_eq!(e, BridgeError::HomeNotFound),
    }
}
