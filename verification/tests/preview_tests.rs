use md2html::preview::Platform;
use md2html::preview::viewer_command;

#[test]
fn linux_uses_xdg_open() {
    let (prog, args) = viewer_command(Platform::Linux, "out.html").unwrap();
    assert_eq!(prog, "xdg-open");
    assert_eq!(args, vec!["out.html".to_string()]);
}

#[test]
fn windows_uses_cmd_start() {
    let (prog, args) = viewer_command(Platform::Windows, "out.html").unwrap();
    assert_eq!(prog, "cmd");
    assert_eq!(args, vec!["/C".to_string(), "start".to_string(), "out.html".to_string()]);
}

#[test]
fn macos_uses_open() {
    let (prog, args) = viewer_command(Platform::MacOs, "out.html").unwrap();
    assert_eq!(prog, "open");
    assert_eq!(args, vec!["out.html".to_string()]);
}

#[test]
fn unknown_platform_has_no_command() {
    assert!(viewer_command(Platform::Unknown, "out.html").is_none());
}
