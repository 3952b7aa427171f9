use scrcpy_gui::ScrcpyConfig;
use scrcpy_gui::build_args;
use scrcpy_gui::connect_args;
use scrcpy_gui::devices_args;
use scrcpy_gui::disconnect_args;
use scrcpy_gui::pull_args;
use scrcpy_gui::rm_args;
use scrcpy_gui::screencap_args;

fn base_config() -> ScrcpyConfig {
    ScrcpyConfig {
        device_id: String::new(),
        max_size: 1280,
        max_fps: 30,
        bitrate: "4M".to_string(),
        video_codec: "h264".to_string(),
        audio_enabled: false,
        show_touches: true,
        stay_awake: false,
        fullscreen: false,
        borderless: false,
        always_on_top: false,
        turn_screen_off: false,
        record_path: None,
    }
}

#[test]
fn example_config_builds_exact_argument_sequence() {
    let args = build_args(&base_config());
    assert_eq!(
        args,
        vec![
            "--max-size=1280".to_string(),
            "--max-fps=30".to_string(),
            "--video-bit-rate=4M".to_string(),
            "--video-codec=h264".to_string(),
            "--no-audio".to_string(),
            "--show-touches".to_string(),
        ]
    );
}

#[test]
fn empty_device_id_adds_no_selector_pair() {
    let args = build_args(&base_config());
    assert!(!args.contains(&"-s".to_string()));
}

#[test]
fn nonempty_device_id_puts_selector_pair_first() {
    let mut config = base_config();
    config.device_id = "emulator-5554".to_string();
    let args = build_args(&config);
    assert_eq!(args[0], "-s");
    assert_eq!(args[1], "emulator-5554");
}

#[test]
fn audio_enabled_omits_no_audio_flag() {
    let mut config = base_config();
    config.audio_enabled = true;
    let args = build_args(&config);
    assert!(!args.contains(&"--no-audio".to_string()));
}

#[test]
fn each_toggle_contributes_its_flag_exactly_when_set() {
    let mut config = base_config();
    config.show_touches = false;
    config.stay_awake = true;
    config.fullscreen = true;
    config.borderless = true;
    config.always_on_top = true;
    config.turn_screen_off = true;
    let args = build_args(&config);
    assert!(!args.contains(&"--show-touches".to_string()));
    let tail: Vec<String> = args[4..].to_vec();
    assert_eq!(
        tail,
        vec![
            "--no-audio".to_string(),
            "--stay-awake".to_string(),
            "--fullscreen".to_string(),
            "--window-borderless".to_string(),
            "--always-on-top".to_string(),
            "--turn-screen-off".to_string(),
        ]
    );
}

#[test]
fn record_path_appends_record_flag() {
    let mut config = base_config();
    config.record_path = Some("/tmp/cap.mp4".to_string());
    let args = build_args(&config);
    assert_eq!(args.last().unwrap(), "--record=/tmp/cap.mp4");
}

#[test]
fn empty_record_path_appends_nothing() {
    let mut config = base_config();
    config.record_path = Some(String::new());
    let args = build_args(&config);
    assert_eq!(args.last().unwrap(), "--show-touches");
}

#[test]
fn default_config_has_documented_values() {
    let config = ScrcpyConfig::default();
    assert_eq!(config.device_id, "");
    assert_eq!(config.max_size, 1920);
    assert_eq!(config.max_fps, 60);
    assert_eq!(config.bitrate, "8M");
    assert_eq!(config.video_codec, "h264");
    assert!(config.audio_enabled);
    assert!(!config.show_touches);
    assert!(!config.stay_awake);
    assert!(!config.fullscreen);
    assert!(!config.borderless);
    assert!(!config.always_on_top);
    assert!(!config.turn_screen_off);
    assert!(config.record_path.is_none());
}

#[test]
fn default_config_builds_only_the_four_video_flags() {
    let args = build_args(&ScrcpyConfig::default());
    assert_eq!(
        args,
        vec![
            "--max-size=1920".to_string(),
            "--max-fps=60".to_string(),
            "--video-bit-rate=8M".to_string(),
            "--video-codec=h264".to_string(),
        ]
    );
}

#[test]
fn zero_dimensions_are_written_as_single_digits() {
    let mut config = base_config();
    config.max_size = 0;
    config.max_fps = 7;
    let args = build_args(&config);
    assert_eq!(args[0], "--max-size=0");
    assert_eq!(args[1], "--max-fps=7");
}

#[test]
fn listing_subcommand_arguments() {
    assert_eq!(devices_args(), vec!["devices".to_string(), "-l".to_string()]);
}

#[test]
fn connect_subcommand_targets_ip_and_port() {
    assert_eq!(
        connect_args("192.168.1.20", "5555"),
        vec!["connect".to_string(), "192.168.1.20:5555".to_string()]
    );
}

#[test]
fn disconnect_subcommand_names_the_device() {
    assert_eq!(
        disconnect_args("192.168.1.20:5555"),
        vec!["disconnect".to_string(), "192.168.1.20:5555".to_string()]
    );
}

#[test]
fn screenshot_invocations_without_device() {
    assert_eq!(
        screencap_args(""),
        vec![
            "shell".to_string(),
            "screencap".to_string(),
            "-p".to_string(),
            "/sdcard/screenshot.png".to_string(),
        ]
    );
    assert_eq!(
        pull_args("", "/tmp/shot.png"),
        vec![
            "pull".to_string(),
            "/sdcard/screenshot.png".to_string(),
            "/tmp/shot.png".to_string(),
        ]
    );
    assert_eq!(
        rm_args(""),
        vec![
            "shell".to_string(),
            "rm".to_string(),
            "/sdcard/screenshot.png".to_string(),
        ]
    );
}

#[test]
fn screenshot_invocations_with_device_put_selector_first() {
    assert_eq!(
        screencap_args("abc123"),
        vec![
            "-s".to_string(),
            "abc123".to_string(),
            "shell".to_string(),
            "screencap".to_string(),
            "-p".to_string(),
            "/sdcard/screenshot.png".to_string(),
        ]
    );
    assert_eq!(
        pull_args("abc123", "/tmp/shot.png"),
        vec![
            "-s".to_string(),
            "abc123".to_string(),
            "pull".to_string(),
            "/sdcard/screenshot.png".to_string(),
            "/tmp/shot.png".to_string(),
        ]
    );
    assert_eq!(
        rm_args("abc123"),
        vec![
            "-s".to_string(),
            "abc123".to_string(),
            "shell".to_string(),
            "rm".to_string(),
            "/sdcard/screenshot.png".to_string(),
        ]
    );
}
