use gm_master::logger::{LogConfig, LogLevel, Logger};
use gm_master::model::AppSettings;

#[test]
fn log_entries_carry_time_level_and_message() {
    assert_eq!(
        Logger::format_entry(LogLevel::Warning, "2024-01-01 00:00:00.000", "disk low"),
        "[2024-01-01 00:00:00.000] [WARN] disk low\n"
    );
    assert_eq!(LogLevel::Debug.as_str(), "DEBUG");
    assert_eq!(Logger::log_file_name("2024-02-03"), "gm-master-2024-02-03.log");
}

#[test]
fn a_new_logger_has_no_file_yet() {
    let config = LogConfig::in_dir("/var/log/gm".to_string());
    assert_eq!(config.max_log_files, 5);
    assert_eq!(config.max_log_size, 5 * 1024 * 1024);
    let logger = Logger::new(config.clone());
    assert_eq!(logger.config, config);
    assert!(logger.current_log_file.is_none());
}

#[test]
fn settings_default_and_change_their_path() {
    let mut s = AppSettings::with_download_path("/d".to_string());
    assert_eq!(s.theme, "system");
    assert!(s.auto_extract);
    assert!(!s.auto_open_folder);
    assert_eq!(s.language, "zh-CN");
    s.set_download_path("/e");
    assert_eq!(s.download_path, "/e");
    assert_eq!(s.theme, "system");
}
