//! Host bridge: the operations a desktop shell offers to its user interface,
//! with the rules of each one stated as a contract.

pub mod entry;
pub mod error;
pub mod files;
pub mod greeting;
pub mod home;
pub mod listing;
pub mod order;
pub mod sorting;
pub mod system;

pub use entry::FileEntry;
pub use error::{BridgeError, ErrorKind};
pub use files::{read_file_content, write_file_content};
pub use greeting::greet;
pub use home::get_home_dir;
pub use listing::{read_directory, DirectoryRead};
pub use system::{get_system_info, SystemInfo};
