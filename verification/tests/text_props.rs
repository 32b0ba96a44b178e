//! Tests of the text helpers and of the environment-entry naming
//! convention.

use kj_build::defs::parse_env_dep;
use kj_build::text::{join_path, str_eq};

#[test]
fn str_eq_compares_by_contents() {
    assert!(str_eq("", ""));
    assert!(str_eq("abc", "abc"));
    assert!(!str_eq("abc", "abd"));
    assert!(!str_eq("abc", "abcd"));
    assert!(str_eq("naïve", "naïve"));
}

#[test]
fn join_path_inserts_one_separator() {
    assert_eq!(join_path("a", "b"), "a/b");
    assert_eq!(join_path("..", "parse/char.h"), "../parse/char.h");
    assert_eq!(join_path("", "x"), "/x");
}

#[test]
fn env_keys_follow_the_propagation_convention() {
    assert_eq!(
        parse_env_dep("DEP_KJ_KJ_BUILD_PROPAGATED_DEFINITIONS"),
        Some(String::from("KJ"))
    );
    assert_eq!(
        parse_env_dep("DEP_CAPNP_JSON_KJ_BUILD_PROPAGATED_DEFINITIONS"),
        Some(String::from("CAPNP_JSON"))
    );
    // An empty unit name does not count.
    assert_eq!(parse_env_dep("DEP__KJ_BUILD_PROPAGATED_DEFINITIONS"), None);
    // Prefix or suffix alone does not count.
    assert_eq!(parse_env_dep("DEP_KJ"), None);
    assert_eq!(parse_env_dep("KJ_KJ_BUILD_PROPAGATED_DEFINITIONS"), None);
    assert_eq!(parse_env_dep("PATH"), None);
}
