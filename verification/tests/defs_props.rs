//! Tests of the definition store: insertion order, key matching, the
//! export/import round trip through the environment convention, and the
//! drain-on-export contract.

use kj_build::defs::Cfg;
use kj_build::error::BuildError;

fn owned(s: &str) -> String {
    String::from(s)
}

#[test]
fn get_returns_matching_entries_in_order() {
    let mut cfg = Cfg::new(owned("A"));
    cfg.define_propagated("K", Some("1"));
    cfg.define_propagated("OTHER", None);
    cfg.define_propagated("K", Some("2"));
    let got = cfg.get_propagated_definition("K");
    assert_eq!(got, vec![(owned("A"), Some(owned("1"))), (owned("A"), Some(owned("2")))]);
    let other = cfg.get_propagated_definition("OTHER");
    assert_eq!(other, vec![(owned("A"), None)]);
}

#[test]
fn get_on_missing_key_is_empty_not_an_error() {
    let mut cfg = Cfg::new(owned("A"));
    cfg.define_propagated("K", Some("1"));
    assert_eq!(cfg.get_propagated_definition("ABSENT"), vec![]);
}

#[test]
fn export_then_import_round_trips() {
    let mut upstream = Cfg::new(owned("A"));
    upstream.define_propagated("FEATURE_X", Some("1"));
    upstream.define_propagated("LITE", None);
    let mut build = cc::Build::new();
    let payload = upstream.export_propagated_definitions(&mut build).unwrap();
    assert_eq!(payload, "[[\"A\",\"FEATURE_X\",\"1\"],[\"A\",\"LITE\",null]]");

    let env = vec![(owned("DEP_A_KJ_BUILD_PROPAGATED_DEFINITIONS"), payload)];
    let mut downstream = Cfg::new(owned("B"));
    downstream.import_propagated_definitions(&env).unwrap();
    let got = downstream.get_propagated_definition("FEATURE_X");
    assert_eq!(got, vec![(owned("A"), Some(owned("1")))]);
    let lite = downstream.get_propagated_definition("LITE");
    assert_eq!(lite, vec![(owned("A"), None)]);
}

#[test]
fn export_drains_the_store() {
    let mut cfg = Cfg::new(owned("A"));
    cfg.define_propagated("K", Some("1"));
    let mut build = cc::Build::new();
    let first = cfg.export_propagated_definitions(&mut build).unwrap();
    assert_eq!(first, "[[\"A\",\"K\",\"1\"]]");
    assert_eq!(cfg.get_propagated_definition("K"), vec![]);
    let second = cfg.export_propagated_definitions(&mut build).unwrap();
    assert_eq!(second, "[]");
}

#[test]
fn chained_propagation_preserves_order_and_owners() {
    let mut a = Cfg::new(owned("A"));
    a.define_propagated("FEATURE_X", Some("1"));
    let mut build_a = cc::Build::new();
    let payload_a = a.export_propagated_definitions(&mut build_a).unwrap();

    let env_b = vec![(owned("DEP_A_KJ_BUILD_PROPAGATED_DEFINITIONS"), payload_a)];
    let mut b = Cfg::new(owned("B"));
    b.import_propagated_definitions(&env_b).unwrap();
    assert_eq!(
        b.get_propagated_definition("FEATURE_X"),
        vec![(owned("A"), Some(owned("1")))]
    );
    b.define_propagated("FEATURE_X", Some("0"));
    let mut build_b = cc::Build::new();
    let payload_b = b.export_propagated_definitions(&mut build_b).unwrap();

    let env_c = vec![(owned("DEP_B_KJ_BUILD_PROPAGATED_DEFINITIONS"), payload_b)];
    let mut c = Cfg::new(owned("C"));
    c.import_propagated_definitions(&env_c).unwrap();
    assert_eq!(
        c.get_propagated_definition("FEATURE_X"),
        vec![(owned("A"), Some(owned("1"))), (owned("B"), Some(owned("0")))]
    );
}

#[test]
fn import_skips_unrelated_and_empty_name_entries() {
    let env = vec![
        (owned("PATH"), owned("/usr/bin")),
        (owned("DEP__KJ_BUILD_PROPAGATED_DEFINITIONS"), owned("not json")),
        (owned("DEP_X_KJ_BUILD_PROPAGATED"), owned("also not json")),
    ];
    let mut cfg = Cfg::new(owned("B"));
    cfg.import_propagated_definitions(&env).unwrap();
    assert_eq!(cfg.get_propagated_definition("ANYTHING"), vec![]);
}

#[test]
fn malformed_payload_names_the_offending_dependency() {
    let env = vec![(owned("DEP_UPSTREAM_KJ_BUILD_PROPAGATED_DEFINITIONS"), owned("{oops"))];
    let mut cfg = Cfg::new(owned("B"));
    let err = cfg.import_propagated_definitions(&env).unwrap_err();
    match err {
        BuildError::MalformedPropagation { ref dependency } => {
            assert_eq!(dependency, "UPSTREAM");
        },
        _ => panic!("wrong error kind"),
    }
    assert_eq!(err.message(), "propagated definitions from dependency UPSTREAM");
}

#[test]
fn import_accepts_multiple_upstream_entries() {
    let env = vec![
        (
            owned("DEP_ONE_KJ_BUILD_PROPAGATED_DEFINITIONS"),
            owned("[[\"ONE\",\"K\",\"1\"]]"),
        ),
        (
            owned("DEP_TWO_KJ_BUILD_PROPAGATED_DEFINITIONS"),
            owned("[[\"TWO\",\"K\",null]]"),
        ),
    ];
    let mut cfg = Cfg::new(owned("B"));
    cfg.import_propagated_definitions(&env).unwrap();
    assert_eq!(
        cfg.get_propagated_definition("K"),
        vec![(owned("ONE"), Some(owned("1"))), (owned("TWO"), None)]
    );
}

#[test]
fn error_messages_name_the_offending_item() {
    let missing = BuildError::MissingEnvironment { name: owned("OUT_DIR") };
    assert_eq!(missing.message(), "missing environment entry: OUT_DIR");
    let raw = BuildError::NonUtf8Path { path: owned("bad/\u{fffd}path") };
    assert_eq!(raw.message(), "non-text path: bad/\u{fffd}path");
    let fsf = BuildError::FilesystemFailure { path: owned("../gone.h") };
    assert_eq!(fsf.message(), "staging failed at: ../gone.h");
}

#[test]
fn failed_import_keeps_earlier_payloads_and_skips_later_ones() {
    let env = vec![
        (
            owned("DEP_FIRST_KJ_BUILD_PROPAGATED_DEFINITIONS"),
            owned("[[\"FIRST\",\"K\",\"1\"]]"),
        ),
        (owned("DEP_BAD_KJ_BUILD_PROPAGATED_DEFINITIONS"), owned("{oops")),
        (
            owned("DEP_LATER_KJ_BUILD_PROPAGATED_DEFINITIONS"),
            owned("[[\"LATER\",\"K\",\"2\"]]"),
        ),
    ];
    let mut cfg = Cfg::new(owned("B"));
    let err = cfg.import_propagated_definitions(&env).unwrap_err();
    match err {
        BuildError::MalformedPropagation { ref dependency } => assert_eq!(dependency, "BAD"),
        _ => panic!("wrong error kind"),
    }
    // Fail fast, no rollback: the first payload stays appended, the one
    // after the offending entry is never processed.
    assert_eq!(cfg.get_propagated_definition("K"), vec![(owned("FIRST"), Some(owned("1")))]);
}
