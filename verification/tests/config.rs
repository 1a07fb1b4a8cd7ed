use backlight::config::{ConfigError, Level, RunConfig};

#[test]
fn levels_lie_between_zero_and_one() {
    assert_eq!(Level::from_thousandths(0).unwrap().thousandths, 0);
    assert_eq!(Level::from_thousandths(1).unwrap().thousandths, 1);
    assert_eq!(Level::from_thousandths(1000).unwrap().thousandths, 1000);
    assert_eq!(Level::from_thousandths(1000), Some(Level::full()));
    assert_eq!(Level::from_thousandths(1001), None);
    assert_eq!(Level::from_thousandths(-1), None);
    assert_eq!(Level::from_thousandths(i64::MAX), None);
    assert_eq!(Level::from_thousandths(i64::MIN), None);
    assert_eq!(Level::from_thousandths(65536), None);
}

#[test]
fn settings_are_checked_in_order() {
    assert_eq!(RunConfig::new(1001, 2000, 0, None).unwrap_err(), ConfigError::BrightnessOutOfRange);
    assert_eq!(RunConfig::new(-1, 500, 60, None).unwrap_err(), ConfigError::BrightnessOutOfRange);
    assert_eq!(RunConfig::new(1000, 1001, 0, None).unwrap_err(), ConfigError::IntensityOutOfRange);
    assert_eq!(RunConfig::new(0, -5, 60, None).unwrap_err(), ConfigError::IntensityOutOfRange);
    assert_eq!(RunConfig::new(1000, 1000, 0, Some(1)).unwrap_err(), ConfigError::ZeroFps);
}

#[test]
fn accepted_settings_are_kept() {
    let c = RunConfig::new(250, 750, 30, Some(2)).unwrap();
    assert_eq!(c.brightness.thousandths, 250);
    assert_eq!(c.intensity.thousandths, 750);
    assert_eq!(c.fps, 30);
    assert_eq!(c.display, Some(2));
    assert_eq!(c.sample_step, 2);
    assert_eq!(c.backoff_millis, 15);
    assert_eq!(c.pace_millis, 60);
}

#[test]
fn default_settings_change_nothing() {
    let c = RunConfig::default();
    assert_eq!(c.brightness, Level::full());
    assert_eq!(c.intensity, Level::full());
    assert_eq!(c.fps, 60);
    assert_eq!(c.display, None);
    assert_eq!(c.sample_step, 2);
    assert_eq!(c.backoff_millis, 15);
    assert_eq!(c.pace_millis, 60);
}

#[test]
fn sample_step_must_be_positive() {
    let c = RunConfig::default();
    assert_eq!(c.with_sample_step(0).unwrap_err(), ConfigError::ZeroSampleStep);
    let d = c.with_sample_step(3).unwrap();
    assert_eq!(d.sample_step, 3);
    assert_eq!(d.fps, 60);
    assert_eq!(d.brightness, Level::full());
}

#[test]
fn waits_can_be_replaced() {
    let c = RunConfig::default().with_waits(5, 16);
    assert_eq!(c.backoff_millis, 5);
    assert_eq!(c.pace_millis, 16);
    assert_eq!(c.sample_step, 2);
}

#[test]
fn frame_interval_follows_the_rate() {
    assert_eq!(RunConfig::default().frame_interval_millis(), 16);
    assert_eq!(RunConfig::new(1000, 1000, 1, None).unwrap().frame_interval_millis(), 1000);
    assert_eq!(RunConfig::new(1000, 1000, 30, None).unwrap().frame_interval_millis(), 33);
    assert_eq!(RunConfig::new(1000, 1000, 1001, None).unwrap().frame_interval_millis(), 0);
}

#[test]
fn errors_say_what_is_expected() {
    assert_eq!(ConfigError::BrightnessOutOfRange.message(), "must be in range [0, 1]");
    assert_eq!(ConfigError::IntensityOutOfRange.message(), "must be in range [0, 1]");
    assert_eq!(ConfigError::ZeroFps.message(), "must be positive");
    assert_eq!(ConfigError::ZeroSampleStep.message(), "must be positive");
}
