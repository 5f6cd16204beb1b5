use holo_area_proxy::spf_config::{
    parse_env_bool, parse_env_u32, parse_unsigned, resolve_spf_defaults, spf_sources_from_env,
    yang_spf_defaults, IsisSpfConfig, SpfConfigSources,
};

fn dflt() -> IsisSpfConfig {
    IsisSpfConfig {
        enabled: true,
        initial_delay: 50,
        short_delay: 200,
        long_delay: 5000,
        hold_down: 10000,
        time_to_learn: 500,
    }
}

#[test]
fn resolve_prefers_file_over_env_over_dflt() {
    let file = SpfConfigSources {
        enabled: Some(false),
        initial_delay: Some(11),
        short_delay: None,
        long_delay: None,
        hold_down: None,
        time_to_learn: None,
    };
    let env = SpfConfigSources {
        enabled: Some(true),
        initial_delay: Some(22),
        short_delay: Some(33),
        long_delay: None,
        hold_down: None,
        time_to_learn: Some(44),
    };
    let got = resolve_spf_defaults(&file, &env, &dflt());
    assert!(!got.enabled);
    assert_eq!(got.initial_delay, 11);
    assert_eq!(got.short_delay, 33);
    assert_eq!(got.long_delay, 5000);
    assert_eq!(got.hold_down, 10000);
    assert_eq!(got.time_to_learn, 44);
}

#[test]
fn resolve_all_unset_uses_dflt() {
    let got = resolve_spf_defaults(
        &SpfConfigSources::default(),
        &SpfConfigSources::default(),
        &dflt(),
    );
    assert!(got.enabled);
    assert_eq!(got.initial_delay, 50);
    assert_eq!(got.short_delay, 200);
    assert_eq!(got.long_delay, 5000);
    assert_eq!(got.hold_down, 10000);
    assert_eq!(got.time_to_learn, 500);
}

#[test]
fn env_bool_invalid_falls_back() {
    // Direct unit of parser helpers via resolve path: invalid env is None.
    let env = SpfConfigSources {
        enabled: None, // as if env_bool rejected the value
        initial_delay: None,
        short_delay: None,
        long_delay: None,
        hold_down: None,
        time_to_learn: None,
    };
    let file = SpfConfigSources::default();
    let got = resolve_spf_defaults(&file, &env, &dflt());
    assert!(got.enabled);
}

#[test]
fn env_u32_invalid_treated_as_unset() {
    let env = SpfConfigSources {
        enabled: None,
        initial_delay: None, // invalid parse → None
        short_delay: Some(99),
        long_delay: None,
        hold_down: None,
        time_to_learn: None,
    };
    let got = resolve_spf_defaults(&SpfConfigSources::default(), &env, &dflt());
    assert_eq!(got.initial_delay, 50);
    assert_eq!(got.short_delay, 99);
}

#[test]
fn yang_defaults_match_documented_values() {
    assert_eq!(yang_spf_defaults(), dflt());
}

#[test]
fn env_bool_accepts_documented_words() {
    for w in ["1", "true", "TRUE", "Yes", "on", "ON"] {
        assert_eq!(parse_env_bool(w), Some(true), "{w}");
    }
    for w in ["0", "false", "False", "no", "NO", "off"] {
        assert_eq!(parse_env_bool(w), Some(false), "{w}");
    }
    for w in ["", "maybe", " true", "truee", "2", "ye"] {
        assert_eq!(parse_env_bool(w), None, "{w}");
    }
}

#[test]
fn env_u32_parses_like_rust() {
    assert_eq!(parse_env_u32("0"), Some(0));
    assert_eq!(parse_env_u32("50"), Some(50));
    assert_eq!(parse_env_u32("+50"), Some(50));
    assert_eq!(parse_env_u32("007"), Some(7));
    assert_eq!(parse_env_u32("4294967295"), Some(u32::MAX));
    assert_eq!(parse_env_u32("4294967296"), None);
    assert_eq!(parse_env_u32(""), None);
    assert_eq!(parse_env_u32("+"), None);
    assert_eq!(parse_env_u32("-1"), None);
    assert_eq!(parse_env_u32(" 5"), None);
    assert_eq!(parse_env_u32("5ms"), None);
    for s in ["12", "99999999999", "+0", "abc", "18446744073709551615"] {
        assert_eq!(parse_env_u32(s), s.parse::<u32>().ok(), "{s}");
        assert_eq!(parse_unsigned(s, u64::MAX), s.parse::<u64>().ok(), "{s}");
    }
}

#[test]
fn env_sources_ignore_invalid_values() {
    let env = spf_sources_from_env(
        Some("off"),
        Some("x"),
        Some("33"),
        None,
        Some("+10000"),
        Some("-5"),
    );
    assert_eq!(
        env,
        SpfConfigSources {
            enabled: Some(false),
            initial_delay: None,
            short_delay: Some(33),
            long_delay: None,
            hold_down: Some(10000),
            time_to_learn: None,
        }
    );
    let got = resolve_spf_defaults(&SpfConfigSources::default(), &env, &dflt());
    assert!(!got.enabled);
    assert_eq!(got.initial_delay, 50);
    assert_eq!(got.short_delay, 33);
}
