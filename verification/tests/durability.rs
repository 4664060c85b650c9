use uc2_node::node::durability::{
    eventual_fsync_interval_from_env, interval_warning, journal_durability_from_env,
    posture_warning, Durability, EnvVar,
};

fn env(v: &str) -> EnvVar {
    EnvVar::Value(v.to_string())
}

#[test]
fn unset_and_consistent_and_case_map_to_consistent() {
    assert_eq!(journal_durability_from_env(&EnvVar::Unset).unwrap(), Durability::Consistent);
    assert_eq!(journal_durability_from_env(&env("consistent")).unwrap(), Durability::Consistent);
    assert_eq!(journal_durability_from_env(&env("Consistent")).unwrap(), Durability::Consistent);
}

#[test]
fn eventual_maps_to_eventual() {
    assert_eq!(journal_durability_from_env(&env("eventual")).unwrap(), Durability::Eventual);
}

#[test]
fn unrecognized_value_is_refused_not_guessed() {
    let err = journal_durability_from_env(&env("fastest")).unwrap_err();
    assert!(err.contains("fastest"), "{err}");
}

#[test]
fn interval_unset_is_none_and_set_maps_under_eventual() {
    assert_eq!(
        eventual_fsync_interval_from_env(Durability::Eventual, &EnvVar::Unset).unwrap(),
        None
    );
    assert_eq!(
        eventual_fsync_interval_from_env(Durability::Eventual, &env("5")).unwrap(),
        Some(5)
    );
}

#[test]
fn interval_under_consistent_is_ignored_with_warning() {
    assert_eq!(
        eventual_fsync_interval_from_env(Durability::Consistent, &env("5")).unwrap(),
        None
    );
    assert_eq!(
        interval_warning(Durability::Consistent, &env("5")).unwrap(),
        "uc2_node: UC2_JOURNAL_EVENTUAL_FSYNC_MS=5 ignored — durability is Consistent (interval is Eventual-only)"
    );
    assert_eq!(interval_warning(Durability::Eventual, &env("5")), None);
    assert_eq!(interval_warning(Durability::Consistent, &EnvVar::Unset), None);
}

#[test]
fn interval_zero_or_garbage_is_refused() {
    assert!(eventual_fsync_interval_from_env(Durability::Eventual, &env("0")).is_err());
    assert!(eventual_fsync_interval_from_env(Durability::Eventual, &env("fast")).is_err());
}

#[test]
fn refusals_quote_the_value_and_name_the_variable() {
    assert_eq!(
        journal_durability_from_env(&env("Fast\"est")).unwrap_err(),
        "UC2_JOURNAL_DURABILITY=\"fast\\\"est\" unrecognized (expected 'consistent' or \
         'eventual'); refusing to guess a durability posture"
    );
    assert_eq!(
        eventual_fsync_interval_from_env(Durability::Eventual, &env("-1")).unwrap_err(),
        "UC2_JOURNAL_EVENTUAL_FSYNC_MS=\"-1\" invalid (expected a positive integer of \
         milliseconds); refusing to guess"
    );
    let bad = EnvVar::Unreadable("not unicode".to_string());
    assert_eq!(
        journal_durability_from_env(&bad).unwrap_err(),
        "UC2_JOURNAL_DURABILITY unreadable: not unicode"
    );
    assert_eq!(
        eventual_fsync_interval_from_env(Durability::Consistent, &bad).unwrap_err(),
        "UC2_JOURNAL_EVENTUAL_FSYNC_MS unreadable: not unicode"
    );
}

#[test]
fn an_empty_value_is_refused_and_only_eventual_warns() {
    assert_eq!(
        journal_durability_from_env(&env("")).unwrap_err(),
        "UC2_JOURNAL_DURABILITY=\"\" unrecognized (expected 'consistent' or 'eventual'); \
         refusing to guess a durability posture"
    );
    assert_eq!(journal_durability_from_env(&env("EVENTUAL")).unwrap(), Durability::Eventual);
    assert!(posture_warning(Durability::Consistent).is_none());
    assert!(posture_warning(Durability::Eventual).unwrap().contains("ASYNCHRONOUS"));
}

#[test]
fn intervals_are_read_as_std_reads_numbers() {
    let read = |v: &str| eventual_fsync_interval_from_env(Durability::Eventual, &env(v)).ok();
    for v in ["1", "+7", "007", "18446744073709551615", "18446744073709551616", "+", "", " 1", "1_0", "0"] {
        let std = v.parse::<u64>().ok().filter(|n| *n > 0).map(Some);
        assert_eq!(read(v), std, "{v:?}");
    }
}
