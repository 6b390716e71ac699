use host_bridge::system::{get_system_info, SystemInfo};

#[test]
fn system_info_holds_the_identifiers() {
    let info = get_system_info("linux", "x86_64", "unix");
    assert_eq!(
        info,
        SystemInfo {
            os: "linux".to_string(),
            arch: "x86_64".to_string(),
            family: "unix".to_string(),
        }
    );
}

#[test]
fn system_info_keeps_each_field_apart() {
    let info = get_system_info("windows", "aarch64", "windows");
    assert_eq!(info.os, "windows");
    assert_eq!(info.arch, "aarch64");
    assert_eq!(info.family, "windows");
    assert!(!info.os.is_empty() && !info.arch.is_empty() && !info.family.is_empty());
}
