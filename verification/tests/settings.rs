//! Settings, the panel, updates and the install.

use audio_mirror::config::{AppConfig, OutputConfig, LATENCY_MS};
use audio_mirror::devices::{monitored_output, DESKTOP};
use audio_mirror::install::{
    goes_on, is_newer, parse, register, taskkill_args, update_file, Data, Launch, Prepare,
};
use audio_mirror::tray::{opens_panel, panel_position, Anchor, Area, Panel, Toggle};
use audio_mirror::updater::{
    after_check, downloading, enabled, splash_rest, AfterCheck, Check, Progress, Stage,
    CHECK_EVERY_MS, RETRY_AFTER_MS,
};

#[test]
fn roundtrip_and_sanitize() {
    let mut cfg = AppConfig::default();
    cfg.output_mut("wasapi:a", "Headphones").enabled = true;
    cfg.output_mut("wasapi:a", "").fader = 0.5f32.to_bits();
    cfg.output_mut("wasapi:b", "Speakers");
    assert_eq!(cfg.outputs.len(), 2);
    assert_eq!(cfg.outputs[0].name, "Headphones");
    assert_eq!(cfg.outputs[0].fader, 0.5f32.to_bits());
    assert_eq!(cfg.outputs[1].fader, 1.0f32.to_bits());
    assert_eq!(cfg.enabled_count(), 1);

    let ec = cfg.engine_config(&vec![0.25f32.to_bits(), 1.0f32.to_bits()]);
    assert_eq!(ec.outputs.len(), 1);
    assert_eq!(ec.latency_ms, LATENCY_MS);
    assert_eq!(ec.outputs[0].id, "wasapi:a");
    assert_eq!(ec.outputs[0].gain, 0.25f32.to_bits());

    let bad = AppConfig {
        source: String::new(),
        outputs: vec![
            OutputConfig {
                id: "x".to_string(),
                fader: 4.0f32.to_bits(),
                ..OutputConfig::default()
            },
            OutputConfig::default(),
        ],
        onboarded: false,
    }
    .sanitize();
    assert_eq!(bad.outputs.len(), 1);
    assert_eq!(bad.outputs[0].fader, 1.0f32.to_bits());
    assert_eq!(bad.source, DESKTOP);
}

fn in_order() -> AppConfig {
    let mut cfg = AppConfig::default();
    cfg.output_mut("wasapi:a", "Headphones").enabled = true;
    cfg.output_mut("wasapi:a", "").fader = 0.5f32.to_bits();
    cfg.output_mut("wasapi:b", "Speakers").fader = 0;
    cfg.onboarded = true;
    cfg
}

#[test]
fn settings_in_order_are_read_as_they_were_stored() {
    assert_eq!(AppConfig::load(Some(in_order())), in_order());
    assert_eq!(AppConfig::load(None), AppConfig::default());
}

#[test]
fn sliders_stay_between_zero_and_one() {
    let mut cfg = AppConfig::default();
    for (given, kept) in [
        (0.5f32, 0.5f32),
        (-1.0, 0.0),
        (7.0, 1.0),
        (f32::NAN, 1.0),
        (f32::NEG_INFINITY, 1.0),
    ] {
        let r = cfg.set_output_volume("a", "A", given.to_bits());
        assert_eq!(f32::from_bits(r), kept, "{given}");
        assert_eq!(f32::from_bits(cfg.outputs[0].fader), kept);
    }
    assert_eq!(cfg.outputs.len(), 1);
}

#[test]
fn changes_touch_one_output() {
    let mut cfg = AppConfig::default();
    cfg.set_output_enabled("a", "A", true);
    cfg.set_output_muted("b", "B", true);
    cfg.set_output_enabled("b", "", true);
    cfg.set_source("input:x".to_string());
    assert_eq!(cfg.source, "input:x");
    assert!(!cfg.outputs[0].muted && cfg.outputs[1].muted);
    assert_eq!(cfg.outputs[1].name, "B");
    assert_eq!(cfg.enabled_count(), 2);
    cfg.forget_output("a");
    assert_eq!(cfg.outputs.len(), 1);
    assert_eq!(cfg.outputs[0].id, "b");
    cfg.forget_output("a");
    assert_eq!(cfg.outputs.len(), 1);
}

#[test]
fn pulse_monitor_maps_to_its_sink() {
    assert_eq!(
        monitored_output("pulseaudio:alsa_output.pci.analog-stereo.monitor").as_deref(),
        Some("pulseaudio:alsa_output.pci.analog-stereo")
    );
    assert_eq!(monitored_output("pulseaudio:alsa_input.usb"), None);
    assert_eq!(monitored_output("alsa:foo.monitor"), None);
}

const SCREEN: Area = Area {
    x: 0,
    y: 0,
    w: 1920,
    h: 1080,
};
const PANEL_SIZE: (i32, i32) = (380, 560);

fn area(x: i32, y: i32, w: i32, h: i32) -> Area {
    Area { x, y, w, h }
}

fn at(point: (f64, f64)) -> Anchor {
    Anchor {
        x: point.0.round() as i32,
        y: point.1.round() as i32,
        floor_y: point.1.floor() as i32,
    }
}

#[test]
fn bottom_taskbar_puts_panel_above_the_icon() {
    let work = area(0, 0, 1920, 1032);
    let pos = panel_position(SCREEN, work, at((1700.0, 1056.0)), PANEL_SIZE, 12);
    assert_eq!(pos, (1510, 1032 - 560 - 12));
}

#[test]
fn panel_never_leaves_the_work_area() {
    let work = area(0, 0, 1920, 1032);
    let pos = panel_position(SCREEN, work, at((1910.0, 1056.0)), PANEL_SIZE, 12);
    assert_eq!(pos.0, 1920 - 380 - 12);
}

#[test]
fn a_panel_without_room_for_its_margin_stays_inside() {
    let screen = area(0, 0, 392, 1080);
    let work = area(0, 0, 392, 1032);
    let pos = panel_position(screen, work, at((300.0, 1056.0)), PANEL_SIZE, 12);
    assert_eq!(pos, (12, 460));
    let pos = panel_position(screen, work, at((100.0, 1056.0)), PANEL_SIZE, 12);
    assert_eq!(pos, (0, 460));
    let work = area(5, 7, 300, 500);
    let pos = panel_position(screen, work, at((100.0, 1056.0)), PANEL_SIZE, 12);
    assert_eq!(pos, (5, 7));
}

#[test]
fn menu_bar_puts_panel_below() {
    let work = area(0, 25, 1920, 1055);
    let pos = panel_position(SCREEN, work, at((1500.0, 12.0)), PANEL_SIZE, 12);
    assert_eq!(pos, (1310, 37));
}

#[test]
fn side_taskbars_are_supported() {
    let left = area(60, 0, 1860, 1080);
    assert_eq!(
        panel_position(SCREEN, left, at((30.0, 900.0)), PANEL_SIZE, 12),
        (72, 1080 - 560 - 12)
    );
    let right = area(0, 0, 1860, 1080);
    assert_eq!(
        panel_position(SCREEN, right, at((1890.0, 300.0)), PANEL_SIZE, 12),
        (1860 - 380 - 12, 20)
    );
}

#[test]
fn hidden_taskbar_uses_the_icon_side() {
    let pos = panel_position(SCREEN, SCREEN, at((1800.0, 1075.0)), PANEL_SIZE, 12);
    assert_eq!(pos.1, 1080 - 560 - 12);
    let pos = panel_position(SCREEN, SCREEN, at((1800.0, 5.0)), PANEL_SIZE, 12);
    assert_eq!(pos.1, 12);
}

#[test]
fn of_equal_gaps_the_right_one_wins() {
    let inset = area(10, 10, 1900, 1060);
    let pos = panel_position(SCREEN, inset, at((960.0, 540.0)), PANEL_SIZE, 12);
    assert_eq!(pos, (10 + 1900 - 380 - 12, 260));
}

#[test]
fn the_dismissing_click_does_not_reopen() {
    let mut panel = Panel::new();
    panel.open_at(10_000);
    assert!(!panel.blurred(20_000));
    panel.focused();
    assert!(!panel.blurred(10_400));
    assert!(panel.blurred(10_401));
    assert_eq!(panel.toggle_panel(true, 10_401), Toggle::Hide);
    assert!(panel.hide_panel(true, 10_401));
    assert!(!panel.hide_panel(false, 90_000));
    assert_eq!(panel.hidden_at, 10_401);
    assert_eq!(panel.toggle_panel(false, 10_651), Toggle::Nothing);
    assert_eq!(panel.toggle_panel(false, 10_652), Toggle::Show);
    assert_eq!(panel.toggle_panel(false, 5), Toggle::Nothing);
}

#[test]
fn the_login_item_starts_in_the_tray() {
    assert!(opens_panel(&vec!["app".to_string()]));
    assert!(!opens_panel(&vec![
        "app".to_string(),
        "--autostart".to_string()
    ]));
}

#[test]
fn updates_are_looked_for_again() {
    assert_eq!(after_check(Check::Installed), AfterCheck::Done);
    assert_eq!(
        after_check(Check::UpToDate),
        AfterCheck::Wait(CHECK_EVERY_MS)
    );
    assert_eq!(after_check(Check::Failed), AfterCheck::Wait(RETRY_AFTER_MS));
    assert_eq!(CHECK_EVERY_MS, 6 * 60 * 60 * 1000);
    assert!(enabled(false) && !enabled(true));
    assert_eq!(splash_rest(100), Some(600));
    assert_eq!(splash_rest(700), Some(0));
    assert_eq!(splash_rest(701), None);
}

#[test]
fn downloads_are_shown_in_percent() {
    assert_eq!(Progress::default().stage, Stage::Checking);
    assert_eq!(
        downloading(50, Some(200)),
        Progress {
            stage: Stage::Downloading,
            percent: Some(25)
        }
    );
    assert_eq!(downloading(199, Some(200)).percent, Some(99));
    assert_eq!(downloading(900, Some(200)).percent, Some(100));
    assert_eq!(downloading(900, Some(0)).percent, None);
    assert_eq!(downloading(900, None).percent, None);
}

#[test]
fn versions_are_read_part_by_part() {
    assert_eq!(parse("1.2.3"), vec![1, 2, 3]);
    assert_eq!(parse(""), vec![0]);
    assert_eq!(parse("1..x.+4.-5.+"), vec![1, 0, 0, 4, 0, 0]);
    assert_eq!(
        parse("18446744073709551615.18446744073709551616"),
        vec![u64::MAX, 0]
    );
    for text in ["007", "1 ", " 1", "٣", "9999999999999999999999"] {
        assert_eq!(parse(text), vec![text.parse::<u64>().unwrap_or(0)], "{text}");
    }
    assert!(is_newer(&vec![1, 10], &vec![1, 9, 9]));
    assert!(is_newer(&vec![1, 0, 0], &vec![1, 0]));
    assert!(!is_newer(&vec![1, 0], &vec![1, 0]));
    assert!(!is_newer(&vec![1], &vec![1, 0]));
}

fn launch(installed: Option<&str>, in_place: bool, args: &[&str]) -> Launch {
    Launch {
        debug: false,
        located: true,
        args: args.iter().map(|a| a.to_string()).collect(),
        in_place,
        installed: installed.is_some(),
        installed_version: installed.map(|v| v.to_string()),
        version: "1.4.0".to_string(),
    }
}

#[test]
fn launches_install_themselves() {
    assert_eq!(
        launch(None, false, &[]).prepare(),
        Prepare::Relaunch { copy: true }
    );
    assert_eq!(
        launch(Some("1.4.0"), false, &[]).prepare(),
        Prepare::Relaunch { copy: true }
    );
    assert_eq!(
        launch(Some("1.10.0"), false, &[]).prepare(),
        Prepare::Relaunch { copy: false }
    );
    assert_eq!(launch(Some("1.4.0"), true, &[]).prepare(), Prepare::Refresh);
    assert_eq!(
        launch(Some("1.4.0"), true, &["--uninstall"]).prepare(),
        Prepare::Uninstall
    );
    let mut debug = launch(None, false, &["--uninstall"]);
    debug.debug = true;
    assert_eq!(debug.prepare(), Prepare::Run);
    let relaunch = Prepare::Relaunch { copy: true };
    assert!(goes_on(relaunch, false, true));
    assert!(goes_on(relaunch, true, false));
    assert!(!goes_on(relaunch, true, true));
    assert!(!goes_on(Prepare::Relaunch { copy: false }, false, true));
    assert!(goes_on(Prepare::Refresh, false, false));
    assert!(!goes_on(Prepare::Uninstall, true, true));
}

#[test]
fn the_install_is_registered() {
    let values = register("C:\\a.exe", "C:\\", "1.4.0", 5 * 1024 * 1024 + 1023);
    assert_eq!(values.len(), 11);
    assert_eq!(values[2].name, "DisplayIcon");
    assert_eq!(values[2].data, Data::Text("C:\\a.exe,0".to_string()));
    assert_eq!(
        values[6].data,
        Data::Text("\"C:\\a.exe\" --uninstall".to_string())
    );
    assert_eq!(values[7].data, values[6].data);
    assert_eq!(values[10].data, Data::Number(5 * 1024));
    assert_eq!(
        taskkill_args(4321),
        vec![
            "/F",
            "/T",
            "/IM",
            "audio-mirror.exe",
            "/FI",
            "PID ne 4321"
        ]
    );
    assert_eq!(update_file("1.5.0"), "audio-mirror-1.5.0.exe");
}
