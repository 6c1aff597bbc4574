use osxrdp::auth::{dscl_args, verify_user_password};
use osxrdp::display::CaptureMode;
use osxrdp::permissions::check_screen_recording;
use osxrdp::startup::{capture_mode_from_env, is_helper, listen_address};

fn args(list: &[&str]) -> Vec<String> {
    list.iter().map(|s| s.to_string()).collect()
}

#[test]
fn helper_invocations() {
    assert!(is_helper(&args(&["osxrdp", "--display-mode-switch", "1", "2", "3"])));
    assert!(is_helper(&args(&["osxrdp", "--display-mode-restore", "1", "2", "3", "4"])));
    assert!(!is_helper(&args(&["osxrdp", "--display-mode-switch", "1", "2"])));
    assert!(!is_helper(&args(&["osxrdp", "--other", "1", "2", "3"])));
    assert!(!is_helper(&args(&[])));
}

#[test]
fn settings() {
    assert_eq!(listen_address(None), "0.0.0.0:3389");
    assert_eq!(listen_address(Some("127.0.0.1:1")), "127.0.0.1:1");
    assert_eq!(capture_mode_from_env(None), CaptureMode::H264);
    assert_eq!(capture_mode_from_env(Some("1")), CaptureMode::H264);
    assert_eq!(capture_mode_from_env(Some("0")), CaptureMode::Bgra);
    assert_eq!(capture_mode_from_env(Some("true")), CaptureMode::Bgra);
    assert_eq!(capture_mode_from_env(Some("")), CaptureMode::Bgra);
}

#[test]
fn passwords() {
    assert_eq!(dscl_args("ann", "s3cret"), ["/Local/Default", "-authonly", "ann", "s3cret"]);
    assert!(verify_user_password(Some(true)));
    assert!(!verify_user_password(Some(false)));
    assert!(!verify_user_password(None));
}

#[test]
fn screen_recording_permission() {
    for message in [
        "",
        "Access DENIED by user",
        "no Permission",
        "process is Not Entitled",
        "notentitled",
        "network down",
        "deni ed",
        "denied",
        "DENİED",
        "xpermissionx",
        "permissio",
    ] {
        let lower = message.to_lowercase();
        let refused =
            lower.contains("denied") || lower.contains("permission") || lower.contains("not entitled");
        assert_eq!(check_screen_recording(Some(message)), !refused, "{message}");
    }
    assert!(check_screen_recording(None));
}
