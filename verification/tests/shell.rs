use deep_forge::shell::{get_backend_url, server_exe_candidates, server_exe_name, strip_extended_prefix, target_triple};

#[test]
fn extended_prefix() {
    assert_eq!(strip_extended_prefix(r"\\?\C:\models"), r"C:\models");
    assert_eq!(strip_extended_prefix(r"C:\models"), r"C:\models");
    assert_eq!(strip_extended_prefix(r"\\?"), r"\\?");
    assert_eq!(strip_extended_prefix(""), "");
}

#[test]
fn executables() {
    assert_eq!(target_triple("windows"), "x86_64-pc-windows-msvc");
    assert_eq!(target_triple("linux"), "x86_64-unknown-linux-gnu");
    assert_eq!(target_triple("macos"), "aarch64-apple-darwin");
    assert_eq!(
        server_exe_candidates("x86_64-pc-windows-msvc", ".exe"),
        vec!["deep-forge-server.exe".to_string(), "binaries/deep-forge-server-x86_64-pc-windows-msvc.exe".to_string()]
    );
    assert_eq!(server_exe_name(""), "deep-forge-server");
    assert_eq!(get_backend_url(), "http://localhost:8008");
}
