use audio_friend::config::{
    initial_config, validate_settings, AppConfig, S3Config, DEFAULT_DEVICE_NAME,
};

fn bucket(fields: [&str; 4]) -> S3Config {
    S3Config {
        endpoint_url: fields[0].to_string(),
        bucket: fields[1].to_string(),
        access_key: fields[2].to_string(),
        secret_key: fields[3].to_string(),
    }
}

fn with_numbers(ring: &str, keepalive: &str) -> AppConfig {
    AppConfig {
        ring_buffer_secs: ring.to_string(),
        keepalive_secs: keepalive.to_string(),
        ..AppConfig::default()
    }
}

#[test]
fn defaults_are_three_and_ten_seconds_at_fifteen_percent() {
    let config = AppConfig::default();
    assert_eq!(config.input_device, "");
    assert_eq!(config.output_device, "");
    assert_eq!(config.input_threshold.bits, 0.15f32.to_bits());
    assert_eq!(config.output_threshold.bits, 0.15f32.to_bits());
    assert_eq!(config.ring_buffer_secs, "3");
    assert_eq!(config.keepalive_secs, "10");
    assert_eq!(config.ring_seconds(), 3);
    assert_eq!(config.keepalive_seconds(), 10);
    assert_eq!(validate_settings(&config), None);
    assert!(!config.s3.uploads_enabled());
    let s3 = S3Config::default();
    assert_eq!(
        [s3.endpoint_url, s3.bucket, s3.access_key, s3.secret_key],
        [String::new(), String::new(), String::new(), String::new()]
    );
}

#[test]
fn numbers_that_are_none_mean_the_defaults() {
    let config = with_numbers("x", "");
    assert_eq!((config.ring_seconds(), config.keepalive_seconds()), (3, 10));
    let config = with_numbers("18446744073709551616", "18446744073709551616");
    assert_eq!((config.ring_seconds(), config.keepalive_seconds()), (3, 10));
    let config = with_numbers("0", "0");
    assert_eq!((config.ring_seconds(), config.keepalive_seconds()), (0, 0));
    let config = with_numbers("+5", "0020");
    assert_eq!((config.ring_seconds(), config.keepalive_seconds()), (5, 20));
}

#[test]
fn ring_seconds_have_to_be_a_number_above_zero() {
    let problem = Some("Ring buffer seconds must be a whole number greater than 0".to_string());
    for text in ["", "0", "-1", "1.5", " 3", "three", "18446744073709551616"] {
        assert_eq!(validate_settings(&with_numbers(text, "10")), problem, "{text:?}");
    }
    assert_eq!(validate_settings(&with_numbers("0", "0")), problem);
    assert_eq!(validate_settings(&with_numbers("1", "10")), None);
    assert_eq!(validate_settings(&with_numbers(&usize::MAX.to_string(), "10")), None);
}

#[test]
fn keepalive_seconds_have_to_be_a_number_above_zero() {
    let problem = Some("Keepalive seconds must be a whole number greater than 0".to_string());
    for text in ["", "0", "-1", "1.5", "10 ", "ten", "18446744073709551616"] {
        assert_eq!(validate_settings(&with_numbers("3", text)), problem, "{text:?}");
    }
    assert_eq!(validate_settings(&with_numbers("3", "18446744073709551615")), None);
}

#[test]
fn the_bucket_has_to_be_complete_or_blank() {
    let problem = Some("Complete all S3 fields or leave all of them blank".to_string());
    for filled in 0..16u32 {
        let field = |i: u32| if filled & (1 << i) != 0 { "x" } else { " " };
        let config = AppConfig {
            s3: bucket([field(0), field(1), field(2), field(3)]),
            ..AppConfig::default()
        };
        let expected = if filled == 0 || filled == 15 { None } else { problem.clone() };
        assert_eq!(validate_settings(&config), expected, "{filled}");
    }
}

#[test]
fn an_empty_field_means_no_uploads() {
    assert!(bucket(["u", "b", "a", "s"]).uploads_enabled());
    assert!(!bucket(["", "b", "a", "s"]).uploads_enabled());
    assert!(!bucket(["u", "", "a", "s"]).uploads_enabled());
    assert!(!bucket(["u", "b", "", "s"]).uploads_enabled());
    assert!(!bucket(["u", "b", "a", ""]).uploads_enabled());
    assert!(!bucket(["", "", "", ""]).uploads_enabled());
}

#[test]
fn blank_fields_mean_no_uploads() {
    assert!(!bucket([" ", " ", " ", " "]).uploads_enabled());
    assert!(!bucket([" ", "\t", "\u{a0}", "  \n"]).uploads_enabled());
    assert!(!bucket(["", " ", " ", " "]).uploads_enabled());
    assert!(bucket([" ", "b", " ", " "]).uploads_enabled());
    assert!(bucket([" u ", "b", "a", "s"]).uploads_enabled());
}

#[test]
fn valid_settings_upload_where_a_field_is_filled() {
    for filled in 0..16u32 {
        let field = |i: u32| if filled & (1 << i) != 0 { "x" } else { " " };
        let config = AppConfig {
            s3: bucket([field(0), field(1), field(2), field(3)]),
            ..AppConfig::default()
        };
        if validate_settings(&config).is_none() {
            assert_eq!(config.s3.uploads_enabled(), filled != 0, "{filled}");
        }
    }
}

#[test]
fn settings_start_with_the_default_devices() {
    assert_eq!(DEFAULT_DEVICE_NAME, "__default__");
    let config = initial_config(None);
    assert_eq!(config.input_device, "__default__");
    assert_eq!(config.output_device, "__default__");
    assert_eq!(config.ring_buffer_secs, "3");
    let loaded = AppConfig {
        input_device: "Mic".to_string(),
        keepalive_secs: "7".to_string(),
        s3: bucket(["u", "b", "a", "s"]),
        ..AppConfig::default()
    };
    let config = initial_config(Some(loaded.clone()));
    assert_eq!(config.input_device, "Mic");
    assert_eq!(config.output_device, "__default__");
    assert_eq!(config.keepalive_secs, "7");
    assert_eq!(config.s3.bucket, "b");
    assert_eq!(loaded.output_device, "");
}
