use osxrdp::display_mode::{
    helper_reply, parse_helper_args, parse_reply, plan_mode_switch, reply_line, restore_pending,
    DisplayModeSwitcher, HelperCommand, HelperError, ModeStep, PendingRestoreError, RestoreStep,
    SwitchOutcome, SwitchStep,
};
use osxrdp::mode_choice::{choose_mode, find_mode, DisplayMode};

fn mode(width: u64, height: u64) -> DisplayMode {
    DisplayMode { width, height }
}

fn strings(args: &[&str]) -> Vec<String> {
    args.iter().map(|s| s.to_string()).collect()
}

#[test]
fn helper_is_run_unless_the_display_is_there() {
    let s = DisplayModeSwitcher::new(69733378, 2560, 1600);
    assert!(!s.switched);
    assert!(matches!(s.switch_to_best_mode(1280, 800, 1280, 800), SwitchStep::Already(1280, 800)));
    let SwitchStep::RunHelper(args) = s.switch_to_best_mode(2560, 1600, 1280, 800) else {
        panic!("helper")
    };
    assert_eq!(args, ["--display-mode-switch", "69733378", "1280", "800"]);
}

#[test]
fn reply_of_the_helper() {
    assert_eq!(reply_line(1280, 800), "OK 1280 800\n");
    assert_eq!(reply_line(0, u64::MAX), format!("OK 0 {}\n", u64::MAX));
    assert_eq!(helper_reply(reply_line(1280, 800).as_bytes()), Some((1280, 800)));
    assert_eq!(helper_reply(reply_line(0, u32::MAX as u64).as_bytes()), Some((0, u32::MAX)));
}

#[test]
fn replies_that_are_understood() {
    for (text, want) in [
        ("OK 1 2", Some((1, 2))),
        ("  OK\t+1  007\r\n", Some((1, 7))),
        ("\u{3000}OK\u{2003}1\u{a0}2", Some((1, 2))),
        ("OK 1", None),
        ("OK 1 2 3", None),
        ("ok 1 2", None),
        ("OK -1 2", None),
        ("OK 1 2x", None),
        ("OK + 2", None),
        ("OK 4294967295 0", Some((u32::MAX, 0))),
        ("OK 4294967296 0", None),
        ("OK 0 99999999999999999999999999", None),
        ("OK 1\u{200b} 2", None),
        ("", None),
    ] {
        assert_eq!(parse_reply(text), want, "{text:?}");
        let trimmed = text.trim();
        let parts: Vec<&str> = trimmed.split_whitespace().collect();
        let expected = if parts.len() == 3 && parts[0] == "OK" {
            match (parts[1].parse::<u32>(), parts[2].parse::<u32>()) {
                (Ok(w), Ok(h)) => Some((w, h)),
                _ => None,
            }
        } else {
            None
        };
        assert_eq!(want, expected, "{text:?}");
    }
}

#[test]
fn reply_with_invalid_bytes() {
    assert_eq!(helper_reply(b"OK 1 2\xff"), None);
    assert_eq!(helper_reply(b"OK\xff 1 2"), None);
    assert_eq!(helper_reply(b"OK 1 2"), Some((1, 2)));
}

#[test]
fn switcher_takes_note_of_the_switch() {
    let mut s = DisplayModeSwitcher::new(1, 2560, 1600);
    assert_eq!(s.switch_finished(2560, 1600, None), SwitchOutcome::Failed);
    assert!(!s.switched);
    assert_eq!(s.switch_finished(2560, 1600, Some(b"no mode")), SwitchOutcome::Failed);
    assert!(!s.switched);
    assert_eq!(
        s.switch_finished(2560, 1600, Some(b"OK 2560 1600\n")),
        SwitchOutcome::Already(2560, 1600)
    );
    assert!(s.switched, "every resolution that is understood counts");
    let mut s = DisplayModeSwitcher::new(1, 2560, 1600);
    assert_eq!(
        s.switch_finished(2560, 1600, Some(b"OK 1280 800\n")),
        SwitchOutcome::Switched(1280, 800)
    );
    assert!(s.switched);
    assert_eq!(s.switch_finished(1280, 800, None), SwitchOutcome::Failed);
    assert!(s.switched);
    assert_eq!(
        s.switch_finished(1280, 800, Some(b"OK 1280 800")),
        SwitchOutcome::Already(1280, 800)
    );
    assert!(s.switched);
}

#[test]
fn reply_tells_whether_the_helper_switched() {
    let modes = mac_modes();
    for (now, target) in [
        (mode(1920, 1080), (1920, 1080)),
        (mode(1920, 1080), (1921, 1080)),
        (mode(2560, 1600), (1280, 800)),
    ] {
        let mut s = DisplayModeSwitcher::new(1, now.width, now.height);
        let (line, switched) = match plan_mode_switch(&modes, Some(now), target.0, target.1) {
            ModeStep::Stay { current_width, current_height } => {
                (reply_line(current_width, current_height), false)
            }
            ModeStep::Apply { width, height, .. } => {
                (reply_line(width as u64, height as u64), true)
            }
            ModeStep::NoMode => panic!("mode"),
        };
        let outcome =
            s.switch_finished(now.width as u32, now.height as u32, Some(line.as_bytes()));
        assert_eq!(matches!(outcome, SwitchOutcome::Switched(..)), switched);
        assert!(s.switched);
        assert!(matches!(s.restore(), RestoreStep::RunHelper(_)));
    }
}

#[test]
fn display_is_restored_once() {
    let mut s = DisplayModeSwitcher::new(5, 2560, 1600);
    assert!(matches!(s.restore(), RestoreStep::Nothing));
    s.switched = true;
    let RestoreStep::RunHelper(args) = s.restore() else { panic!("helper") };
    assert_eq!(args, ["--display-mode-restore", "5", "2560", "1600"]);
    assert!(matches!(s.restore(), RestoreStep::Nothing));
    let mut unknown = DisplayModeSwitcher::new_with_id(5, 2560, 0);
    assert!(matches!(unknown.restore(), RestoreStep::NoOriginalMode));
    assert!(matches!(unknown.restore(), RestoreStep::Nothing));
}

#[test]
fn pending_restore_round_trip() {
    let s = DisplayModeSwitcher::new(u32::MAX, u64::MAX, 0);
    assert_eq!(s.pending_restore(), format!("{}\n{}\n0", u32::MAX, u64::MAX));
    let back = restore_pending(&s.pending_restore()).unwrap();
    assert_eq!(back, DisplayModeSwitcher::new_with_id(u32::MAX, u64::MAX, 0));
}

#[test]
fn pending_restore_errors() {
    for (text, want) in [
        ("", PendingRestoreError::Format),
        ("1\n2", PendingRestoreError::Format),
        ("1\n2\n3\n4", PendingRestoreError::Format),
        ("x\n2\n3", PendingRestoreError::DisplayId),
        ("4294967296\n2\n3", PendingRestoreError::DisplayId),
        ("1\n \n3", PendingRestoreError::Width),
        ("1\n2\r\n3", PendingRestoreError::Width),
        ("1\n2\n18446744073709551616", PendingRestoreError::Height),
        ("1\n2\n-3", PendingRestoreError::Height),
    ] {
        assert_eq!(restore_pending(text), Err(want), "{text:?}");
    }
    assert_eq!(
        restore_pending(" \n1\n+2\n3\n\n"),
        Ok(DisplayModeSwitcher::new_with_id(1, 2, 3))
    );
}

#[test]
fn helper_arguments() {
    assert_eq!(
        parse_helper_args(&strings(&["osxrdp", "--display-mode-switch", "1", "1280", "800"])),
        Ok(HelperCommand::Switch { display_id: 1, width: 1280, height: 800 })
    );
    assert_eq!(
        parse_helper_args(&strings(&["x", "--display-mode-restore", "1", "4294967296", "8", "9"])),
        Ok(HelperCommand::Restore {
            display_id: 1,
            original_width: 4294967296,
            original_height: 8,
        })
    );
    for (args, want) in [
        (vec!["osxrdp"], HelperError::Usage),
        (vec!["osxrdp", "--display-mode-switch", "1", "2"], HelperError::Usage),
        (vec!["osxrdp", "--bogus", "x", "2", "3"], HelperError::DisplayId),
        (vec!["osxrdp", "--bogus", "1", "2", "3"], HelperError::UnknownArgument),
        (vec!["osxrdp", "--display-mode-switch", "1", "4294967296", "x"], HelperError::Width),
        (vec!["osxrdp", "--display-mode-switch", "1", "2", ""], HelperError::Height),
        (vec!["osxrdp", "--display-mode-restore", "1", "x", "3"], HelperError::Width),
        (vec!["osxrdp", "--display-mode-restore", "1", "2", "3 "], HelperError::Height),
    ] {
        assert_eq!(parse_helper_args(&strings(&args)), Err(want), "{args:?}");
    }
}

#[test]
fn helper_understands_the_switcher() {
    let s = DisplayModeSwitcher::new_with_id(9, 3024, 1964);
    let SwitchStep::RunHelper(mut args) = s.switch_to_best_mode(1, 1, 1024, 768) else {
        panic!("helper")
    };
    args.insert(0, "osxrdp".to_string());
    assert_eq!(
        parse_helper_args(&args),
        Ok(HelperCommand::Switch { display_id: 9, width: 1024, height: 768 })
    );
    let mut s = s;
    let RestoreStep::RunHelper(mut args) = s.restore() else { panic!("helper") };
    args.insert(0, "osxrdp".to_string());
    assert_eq!(
        parse_helper_args(&args),
        Ok(HelperCommand::Restore { display_id: 9, original_width: 3024, original_height: 1964 })
    );
}

fn float_choice(modes: &[DisplayMode], target_w: u32, target_h: u32) -> Option<usize> {
    let target_ratio = target_w as f64 / target_h as f64;
    let target_pixels = target_w as f64 * target_h as f64;
    let mut best = None;
    let mut best_ratio_diff = f64::MAX;
    let mut best_pixel_diff = f64::MAX;
    for relaxed in [false, true] {
        if best.is_some() {
            break;
        }
        for (i, m) in modes.iter().enumerate() {
            let (w, h) = (m.width as u32, m.height as u32);
            if w == 0 || h == 0 {
                continue;
            }
            let pixels = w as f64 * h as f64;
            let ratio_diff = (w as f64 / h as f64 - target_ratio).abs();
            let pixel_diff = (pixels - target_pixels).abs();
            if pixels < target_pixels * 0.25 {
                continue;
            }
            if !relaxed && !(ratio_diff < 0.02) {
                continue;
            }
            let closer = if relaxed {
                ratio_diff < best_ratio_diff
            } else {
                ratio_diff < best_ratio_diff - 0.001
            };
            if closer || (ratio_diff < best_ratio_diff + 0.001 && pixel_diff < best_pixel_diff) {
                best_ratio_diff = ratio_diff;
                best_pixel_diff = pixel_diff;
                best = Some(i);
            }
        }
    }
    best
}

fn mac_modes() -> Vec<DisplayMode> {
    vec![
        mode(2560, 1600),
        mode(1280, 800),
        mode(1440, 900),
        mode(1024, 768),
        mode(1920, 1080),
        mode(640, 480),
        mode(0, 100),
        mode(1280, 720),
        mode(1680, 1050),
        mode(4294968576, 800),
        mode(3840, 2160),
        mode(1366, 768),
        mode(1600, 900),
        mode(1, 1),
    ]
}

#[test]
fn chosen_mode_agrees_with_floating_point() {
    let modes = mac_modes();
    for w in (0u32..4200).step_by(137).chain([1, 2, 640, 1280, 1366, 1920, u32::MAX]) {
        for h in (0u32..2400).step_by(111).chain([1, 2, 480, 720, 768, 1080, u32::MAX]) {
            assert_eq!(choose_mode(&modes, w, h), float_choice(&modes, w, h), "{w}x{h}");
        }
    }
}

#[test]
fn exact_mode_is_chosen() {
    let modes = mac_modes();
    for (i, m) in modes.iter().enumerate() {
        if m.width as u32 as u64 == m.width && m.width > 0 && m.height > 0 {
            let got = choose_mode(&modes, m.width as u32, m.height as u32).unwrap();
            assert_eq!(got, i);
        }
    }
}

#[test]
fn mode_of_another_ratio_is_better_than_none() {
    let modes = vec![mode(1024, 768), mode(1280, 800)];
    assert_eq!(choose_mode(&modes, 1920, 1080), Some(1));
    assert_eq!(choose_mode(&modes, 3000, 3000), None, "modes with too few pixels");
    assert_eq!(choose_mode(&vec![], 1920, 1080), None);
    assert_eq!(choose_mode(&modes, 1920, 0), None);
}

#[test]
fn find_mode_is_exact() {
    let modes = mac_modes();
    assert_eq!(find_mode(&modes, 1280, 800), Some(1));
    assert_eq!(find_mode(&modes, 1280, 801), None);
    assert_eq!(find_mode(&modes, 4294968576, 800), Some(9));
}

#[test]
fn mode_switch_plans() {
    let modes = mac_modes();
    assert_eq!(
        plan_mode_switch(&modes, Some(mode(1999, 333)), 1999, 333),
        ModeStep::Stay { current_width: 1999, current_height: 333 }
    );
    assert_eq!(
        plan_mode_switch(&modes, Some(mode(1920, 1080)), 1921, 1080),
        ModeStep::Stay { current_width: 1920, current_height: 1080 }
    );
    assert_eq!(
        plan_mode_switch(&modes, None, 1280, 800),
        ModeStep::Apply { index: 1, width: 1280, height: 800 }
    );
    assert_eq!(plan_mode_switch(&vec![], None, 1280, 800), ModeStep::NoMode);
    assert_eq!(
        plan_mode_switch(&modes, None, 0, 0),
        ModeStep::Stay { current_width: 0, current_height: 0 }
    );
}
