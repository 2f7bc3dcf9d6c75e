use quest_shadowplay::config::{Config, ConfigError};

#[test]
fn test_default_config() {
    let config = Config::default();

    assert_eq!(config.buffer_duration_ms, 10_000);
    assert_eq!(config.target_fps, 90);
    assert!(config.validate().is_empty());
}

#[test]
fn test_validation_errors() {
    let mut config = Config::default();

    config.buffer_duration_ms = 2_000;
    assert!(!config.validate().is_empty());

    config.buffer_duration_ms = 10_000;
    assert!(config.validate().is_empty());

    config.target_fps = 200;
    assert!(!config.validate().is_empty());
}

#[test]
fn every_problem_is_listed() {
    let mut config = Config::high_quality();
    assert!(config.validate().is_empty());
    config.buffer_duration_ms = 70_000;
    config.video_bitrate = 10;
    let errors = config.validate();
    assert_eq!(errors.len(), 2);
    assert!(matches!(errors[0], ConfigError::BufferTooLong(70_000)));
    assert!(matches!(errors[1], ConfigError::BitrateTooLow(10)));
}

#[test]
fn presets_and_frame_count() {
    let low = Config::low_memory();
    assert_eq!(low.target_fps, 72);
    assert_eq!(low.max_capture_percentage, 50);
    assert_eq!(Config::default().buffer_frame_count(), 900);
}
