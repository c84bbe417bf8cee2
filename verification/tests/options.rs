use mirror_sessions::options::{build_scrcpy_args, ScrcpyOptions};

#[test]
fn test_default_options() {
    let options = ScrcpyOptions::default();
    assert_eq!(options.max_size, Some(1920));
    assert_eq!(options.bit_rate, Some(8000000));
    assert_eq!(options.max_fps, Some(60));
    assert_eq!(options.stay_awake, true);
}

#[test]
fn default_args_with_target() {
    let options = ScrcpyOptions::default();
    let args = build_scrcpy_args(Some("emulator-5554"), &options);
    assert_eq!(
        args,
        vec![
            "-s".to_string(),
            "emulator-5554".to_string(),
            "--max-size".to_string(),
            "1920".to_string(),
            "--bit-rate".to_string(),
            "8000000".to_string(),
            "--max-fps".to_string(),
            "60".to_string(),
            "--stay-awake".to_string(),
        ]
    );
}

#[test]
fn empty_options_no_target_yields_no_args() {
    let options = ScrcpyOptions {
        max_size: None,
        bit_rate: None,
        max_fps: None,
        always_on_top: false,
        stay_awake: false,
        turn_screen_off: false,
    };
    let args = build_scrcpy_args(None, &options);
    assert!(args.is_empty());
}

#[test]
fn boolean_flags_appear_in_order() {
    let options = ScrcpyOptions {
        max_size: None,
        bit_rate: None,
        max_fps: None,
        always_on_top: true,
        stay_awake: true,
        turn_screen_off: true,
    };
    let args = build_scrcpy_args(None, &options);
    assert_eq!(
        args,
        vec![
            "--always-on-top".to_string(),
            "--stay-awake".to_string(),
            "--turn-screen-off".to_string(),
        ]
    );
}
