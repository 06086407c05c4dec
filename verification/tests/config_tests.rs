use fool_engine::capture::EngineEvent as CaptureEvent;
use std::str::FromStr;
use fool_engine::config::{Args, BaseConfig, ConfigError, FSFallBack, LogLevel, UserDirs};
use fool_engine::events::EngineEvent;
use fool_engine::graphics::{Justify, LuaColor, LuaTextAlign, LuaTextWrap};
use fool_engine::window::{WinButtons, WinLevel, WinTheme, WindowButtons, WindowOptions};

#[test]
fn log_level_names() {
    assert_eq!(LogLevel::parse("info"), Some(LogLevel::Info));
    assert_eq!(LogLevel::parse("TRACE"), Some(LogLevel::Trace));
    assert_eq!(LogLevel::parse("Warn"), Some(LogLevel::Warn));
    assert_eq!(LogLevel::parse("off"), Some(LogLevel::Off));
    assert_eq!(LogLevel::parse("error"), Some(LogLevel::Error));
    assert_eq!(LogLevel::parse("debug"), Some(LogLevel::Debug));
    assert_eq!(LogLevel::parse("warning"), None);
    assert_eq!(LogLevel::parse(""), None);
}

#[test]
fn log_level_names_agree_with_log_crate() {
    for name in ["off", "ERROR", "wArN", "info", "Debug", "trace", "verbose", "", "info "] {
        let ours = LogLevel::parse(name).map(|l| format!("{:?}", l).to_uppercase());
        let theirs = log::LevelFilter::from_str(name).ok().map(|l| l.to_string().to_uppercase());
        assert_eq!(ours, theirs, "{}", name);
    }
}

#[test]
fn args_defaults_and_level() {
    let a = Args::default();
    assert_eq!(a.log_level, "info");
    assert_eq!(a.file_log, "./log.log");
    assert!(a.verbose);
    assert_eq!(a.level(), LogLevel::Info);
    let b = Args { log_level: "nonsense".to_string(), ..Args::default() };
    assert_eq!(b.level(), LogLevel::Info);
    let c = Args { log_level: "DEBUG".to_string(), ..Args::default() };
    assert_eq!(c.level(), LogLevel::Debug);
}

fn base() -> BaseConfig {
    BaseConfig {
        name: "Fool".to_string(),
        capture_path: "shots".to_string(),
        save_path: "saves".to_string(),
        assets_path: "assets".to_string(),
        fps: 60,
    }
}

#[test]
fn base_config_resolves_directories() {
    let dirs = UserDirs {
        picture_dir: Some("/home/u/Pictures".to_string()),
        document_dir: Some("/home/u/Documents".to_string()),
    };
    let c = base().build(Some(dirs), "/opt/game").unwrap();
    assert_eq!(c.name, "Fool");
    assert_eq!(c.fps, 60);
    assert_eq!(c.capture_path, "/home/u/Pictures/Fool/shots");
    assert_eq!(c.save_path, "/home/u/Documents/Fool/saves");
    assert_eq!(c.assets_path, "/opt/game/assets");
}

#[test]
fn base_config_falls_back_to_executable_dir() {
    let dirs = UserDirs { picture_dir: None, document_dir: None };
    let c = base().build(Some(dirs), "/opt/game").unwrap();
    assert_eq!(c.capture_path, "/opt/game/Fool/shots");
    assert_eq!(c.save_path, "/opt/game/Fool/saves");
}

#[test]
fn base_config_needs_user_dirs() {
    assert_eq!(base().build(None, "/opt/game").err(), Some(ConfigError::NoUserDirs));
}

#[test]
fn asset_and_capture_paths() {
    let f = FSFallBack { asset_path: "/opt/game/assets".to_string() };
    assert_eq!(f.full_path("img/a.png"), "/opt/game/assets/img/a.png");
    let e = CaptureEvent::Capture("frame.png".to_string());
    assert_eq!(e.capture_target("/home/u/Pictures/Fool/shots"), "/home/u/Pictures/Fool/shots/frame.png");
}

#[test]
fn engine_events() {
    assert!(matches!(EngineEvent::default(), EngineEvent::NoEvent));
    assert!(matches!(EngineEvent::load_cursor("hand".to_string()), EngineEvent::LoadCursor(n) if n == "hand"));
    assert!(matches!(EngineEvent::exit_window(), EngineEvent::ExitWindow));
}

#[test]
fn graphics_defaults() {
    assert_eq!(LuaColor::default(), LuaColor { r: 0, g: 0, b: 0, a: 0 });
    assert_eq!(LuaTextAlign::default(), LuaTextAlign::Middle);
    assert_eq!(LuaTextWrap::default(), LuaTextWrap::Whitespace);
    assert_eq!(LuaTextAlign::Start.justify(), Justify::Left);
    assert_eq!(LuaTextAlign::Middle.justify(), Justify::Center);
    assert_eq!(LuaTextAlign::End.justify(), Justify::Right);
}

#[test]
fn window_buttons() {
    let all = WindowButtons { close: true, minimize: true, maximize: true };
    assert_eq!(WinButtons(vec![]).buttons(), all);
    assert_eq!(WinButtons::default().buttons(), all);
    let b = WinButtons(vec!["CLOSE".to_string(), "Minimize".to_string(), "help".to_string()]);
    assert_eq!(b.buttons(), WindowButtons { close: true, minimize: true, maximize: false });
    let b = WinButtons(vec!["unknown".to_string()]);
    assert_eq!(b.buttons(), WindowButtons { close: false, minimize: false, maximize: false });
}

fn no_options() -> WindowOptions {
    WindowOptions {
        resizable: None,
        enabled_buttons: None,
        title: None,
        maximized: None,
        visible: None,
        transparent: None,
        blur: None,
        decorations: None,
        preferred_theme: None,
        content_protected: None,
        window_level: None,
        active: None,
        fullscreen: None,
    }
}

#[test]
fn window_defaults() {
    let f = no_options().flags();
    assert!(f.active);
    assert_eq!(f.window_level, WinLevel::Normal);
    assert!(!f.content_protected);
    assert_eq!(f.theme, None);
    assert!(f.decorations);
    assert!(!f.blur);
    assert!(!f.transparent);
    assert!(f.visible);
    assert!(f.maximized);
    assert_eq!(f.title, "Fool Engine");
    assert_eq!(f.enabled_buttons, WindowButtons { close: true, minimize: true, maximize: true });
    assert!(f.resizable);
    assert!(!f.fullscreen);
    assert_eq!(WinLevel::default(), WinLevel::Normal);
}

#[test]
fn window_configured() {
    let mut o = no_options();
    o.title = Some("Game".to_string());
    o.resizable = Some(false);
    o.fullscreen = Some(true);
    o.window_level = Some(WinLevel::AlwaysOnTop);
    o.preferred_theme = Some(WinTheme::Dark);
    o.enabled_buttons = Some(WinButtons(vec!["close".to_string()]));
    let f = o.flags();
    assert_eq!(f.title, "Game");
    assert!(!f.resizable);
    assert!(f.fullscreen);
    assert_eq!(f.window_level, WinLevel::AlwaysOnTop);
    assert_eq!(f.theme, Some(WinTheme::Dark));
    assert_eq!(f.enabled_buttons, WindowButtons { close: true, minimize: false, maximize: false });
    o.fullscreen = Some(false);
    assert!(!o.flags().fullscreen);
}
