use fool_engine::logging::{
    appender_name, archive_pattern, log_file_path, FilterResponse, ModuleFilter,
    StartupRollTrigger, LOG_FILE_COUNT,
};

#[test]
fn roll_once_when_log_exists() {
    let mut t = StartupRollTrigger::new(true);
    assert!(t.is_pre_process());
    assert!(t.trigger());
    assert!(!t.trigger());
    assert!(!t.trigger());
}

#[test]
fn never_roll_without_old_log() {
    let mut t = StartupRollTrigger::new(false);
    assert!(!t.trigger());
    assert!(!t.trigger());
    let mut d = StartupRollTrigger::default();
    assert!(!d.trigger());
}

#[test]
fn module_filter_accepts_listed_modules_and_submodules() {
    let f = ModuleFilter::new(&["minigfx", "engine::lua"]);
    assert_eq!(f.filter(Some("minigfx")), FilterResponse::Accept);
    assert_eq!(f.filter(Some("minigfx::render")), FilterResponse::Accept);
    assert_eq!(f.filter(Some("engine::lua::zipmod")), FilterResponse::Accept);
    assert_eq!(f.filter(Some("engine::physics")), FilterResponse::Reject);
    assert_eq!(f.filter(Some("wgpu")), FilterResponse::Reject);
    assert_eq!(f.filter(None), FilterResponse::Reject);
}

#[test]
fn module_filter_empty_list_rejects_all() {
    let f = ModuleFilter::new(&[]);
    assert_eq!(f.filter(Some("anything")), FilterResponse::Reject);
    assert_eq!(f.filter(None), FilterResponse::Reject);
}

#[test]
fn module_filter_empty_name_accepts_all() {
    let f = ModuleFilter::new(&["", ""]);
    assert_eq!(f.filter(Some("x::y")), FilterResponse::Accept);
    assert_eq!(f.filter(None), FilterResponse::Accept);
}

#[test]
fn log_path_choice() {
    assert_eq!(log_file_path("./logs/a.log", Some(true)), "./logs/a.log");
    assert_eq!(log_file_path("./missing/a.log", Some(false)), "./engine.log");
    assert_eq!(log_file_path("/", None), "./engine.log");
}

#[test]
fn rolled_file_pattern() {
    assert_eq!(archive_pattern("./log.log"), "./log.log.{}.gz");
    assert_eq!(LOG_FILE_COUNT, 7);
}

#[test]
fn appender_names() {
    assert_eq!(appender_name(true), "stdout");
    assert_eq!(appender_name(false), "logfile");
}
