use dvs::config::{Config, ConfigError};

#[test]
fn zero_decay_rate_is_rejected() {
    let r = Config::new(0, 60, 5, "result".to_string());
    assert_eq!(r.unwrap_err(), ConfigError::InvalidDecayRate);
}

#[test]
fn decay_rate_of_one_or_more_is_rejected() {
    let r = Config::new(1_000_000, 60, 5, "result".to_string());
    assert_eq!(r.unwrap_err(), ConfigError::InvalidDecayRate);
}

#[test]
fn frame_rate_out_of_range_is_rejected() {
    let low = Config::new(150_000, 0, 5, "result".to_string());
    assert_eq!(low.unwrap_err(), ConfigError::InvalidFrameRate);
    let high = Config::new(150_000, 121, 5, "result".to_string());
    assert_eq!(high.unwrap_err(), ConfigError::InvalidFrameRate);
}

#[test]
fn even_median_blur_is_rejected() {
    let r = Config::new(150_000, 60, 4, "result".to_string());
    assert_eq!(r.unwrap_err(), ConfigError::InvalidMedianBlur);
}

#[test]
fn median_blur_out_of_range_is_rejected() {
    let low = Config::new(150_000, 60, 0, "result".to_string());
    assert_eq!(low.unwrap_err(), ConfigError::InvalidMedianBlur);
    let high = Config::new(150_000, 60, 15, "result".to_string());
    assert_eq!(high.unwrap_err(), ConfigError::InvalidMedianBlur);
}

#[test]
fn short_output_name_is_rejected() {
    let r = Config::new(150_000, 60, 5, "out".to_string());
    assert_eq!(r.unwrap_err(), ConfigError::InvalidOutputFile);
}

#[test]
fn valid_flags_give_the_derived_interval() {
    let c = Config::new(150_000, 60, 5, "result".to_string()).expect("valid");
    assert_eq!(c.decay_rate_millionths, 150_000);
    assert_eq!(c.frame_rate, 60);
    assert_eq!(c.median_blur, 5);
    assert_eq!(c.frame_interval, 16666);
    let c120 = Config::new(150_000, 120, 5, "result".to_string()).expect("valid");
    assert_eq!(c120.frame_interval, 8333);
}
