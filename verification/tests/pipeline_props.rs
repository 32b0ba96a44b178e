//! End-to-end tests of one unit invocation: staging, configuration,
//! link-library resolution, and export of the merged definition set.

use kj_build::ccbuild::BuildExt;
use kj_build::defs::Cfg;
use kj_build::error::BuildError;
use kj_build::filestore::FileStore;
use kj_build::pipeline::{bool_int_str, capnp_configure, imported_libdl, kj_configure, run_unit};
use kj_build::unit::{BuildUnit, FeatureSet};

fn owned(s: &str) -> String {
    String::from(s)
}

fn strings(xs: &[&str]) -> Vec<String> {
    xs.iter().map(|x| String::from(*x)).collect()
}

fn features_off() -> FeatureSet {
    FeatureSet {
        heavy: false,
        libdl: false,
        save_acquired_lock_info: false,
        track_lock_blocking: false,
        zlib: false,
    }
}

fn root_unit() -> BuildUnit {
    BuildUnit {
        name: owned("kj"),
        namespace: owned("kj"),
        source_root: owned(".."),
        out_root: owned("out"),
        headers: strings(&["common.h"]),
        private_headers: strings(&["miniposix.h"]),
        sources: strings(&["array.c++"]),
        optional_sources: strings(&["refcount.c++"]),
        auxiliary: Vec::new(),
        bridge_entry_points: strings(&["src/lib.rs"]),
        features: features_off(),
        seed_base_flags: true,
        plain_defines: Vec::new(),
        link_pthread: true,
        link_dl_on_import: false,
    }
}

#[test]
fn root_unit_invocation_stages_configures_and_exports() {
    let unit = root_unit();
    let mut fs = FileStore::new();
    fs.write("../common.h", b"h".to_vec());
    fs.write("../miniposix.h", b"m".to_vec());
    fs.write("../array.c++", b"a".to_vec());
    let mut build = cc::Build::new();
    let report = run_unit(&unit, &Vec::new(), &mut fs, &mut build).unwrap();

    assert_eq!(fs.read("out/headers/kj/common.h").unwrap(), b"h".to_vec());
    assert_eq!(fs.read("out/private-headers/kj/miniposix.h").unwrap(), b"m".to_vec());
    assert_eq!(fs.read("out/sources/kj/array.c++").unwrap(), b"a".to_vec());
    assert_eq!(report.plan.compile_inputs, strings(&["out/sources/kj/array.c++"]));
    assert_eq!(report.link_libs, strings(&["pthread"]));
    let registered: Vec<String> = build
        .get_files()
        .map(|p| p.to_string_lossy().into_owned())
        .collect();
    assert_eq!(registered, strings(&["out/sources/kj/array.c++"]));
    let expected = "[[\"kj\",\"KJ_CONTENTION_WARNING_THRESHOLD\",\"100\"],[\"kj\",\"KJ_SAVE_ACQUIRED_LOCK_INFO\",\"0\"],[\"kj\",\"KJ_TRACK_LOCK_BLOCKING\",\"0\"],[\"kj\",\"CAPNP_LITE\",null]]";
    assert_eq!(report.export_payload, expected);
}

#[test]
fn downstream_unit_links_dl_on_imported_request() {
    let mut unit = root_unit();
    unit.name = owned("capnp");
    unit.namespace = owned("capnp");
    unit.seed_base_flags = false;
    unit.link_dl_on_import = true;
    let env = vec![(
        owned("DEP_KJ_KJ_BUILD_PROPAGATED_DEFINITIONS"),
        owned("[[\"kj\",\"KJ_HAS_LIBDL\",\"1\"]]"),
    )];
    let mut fs = FileStore::new();
    fs.write("../common.h", b"h".to_vec());
    fs.write("../miniposix.h", b"m".to_vec());
    fs.write("../array.c++", b"a".to_vec());
    let mut build = cc::Build::new();
    let report = run_unit(&unit, &env, &mut fs, &mut build).unwrap();
    assert_eq!(report.link_libs, strings(&["pthread", "dl"]));
    // The imported definition rides along in the unit's own export.
    assert_eq!(report.export_payload, "[[\"kj\",\"KJ_HAS_LIBDL\",\"1\"]]");
}

#[test]
fn failed_import_aborts_the_whole_invocation() {
    let unit = root_unit();
    let env = vec![(owned("DEP_UP_KJ_BUILD_PROPAGATED_DEFINITIONS"), owned("nope"))];
    let mut fs = FileStore::new();
    fs.write("../common.h", b"h".to_vec());
    let mut build = cc::Build::new();
    let err = run_unit(&unit, &env, &mut fs, &mut build).unwrap_err();
    assert!(matches!(err, BuildError::MalformedPropagation { .. }));
    // Nothing was staged.
    assert!(fs.read("out/headers/kj/common.h").is_none());
}

#[test]
fn failed_staging_reports_the_missing_path() {
    let unit = root_unit();
    let mut fs = FileStore::new();
    fs.write("../common.h", b"h".to_vec());
    fs.write("../miniposix.h", b"m".to_vec());
    // "../array.c++" missing.
    let mut build = cc::Build::new();
    let err = run_unit(&unit, &Vec::new(), &mut fs, &mut build).unwrap_err();
    match err {
        BuildError::FilesystemFailure { ref path } => assert_eq!(path, "../array.c++"),
        _ => panic!("wrong error kind"),
    }
}

#[test]
fn configure_seeds_the_base_flags() {
    let mut build = cc::Build::new();
    let mut cfg = Cfg::new(owned("kj"));
    let f = FeatureSet { save_acquired_lock_info: true, ..features_off() };
    kj_configure(&mut build, &mut cfg, &f);
    assert_eq!(
        cfg.get_propagated_definition("KJ_CONTENTION_WARNING_THRESHOLD"),
        vec![(owned("kj"), Some(owned("100")))]
    );
    assert_eq!(
        cfg.get_propagated_definition("KJ_SAVE_ACQUIRED_LOCK_INFO"),
        vec![(owned("kj"), Some(owned("1")))]
    );
    assert_eq!(
        cfg.get_propagated_definition("KJ_TRACK_LOCK_BLOCKING"),
        vec![(owned("kj"), Some(owned("0")))]
    );
    assert_eq!(cfg.get_propagated_definition("CAPNP_LITE"), vec![]);
}

#[test]
fn configure_marks_the_lite_variant_only_without_heavy() {
    let mut build = cc::Build::new();
    let mut lite = Cfg::new(owned("kj"));
    capnp_configure(&mut build, &mut lite, &features_off());
    assert_eq!(lite.get_propagated_definition("CAPNP_LITE"), vec![(owned("kj"), None)]);

    let mut heavy = Cfg::new(owned("kj"));
    capnp_configure(&mut build, &mut heavy, &FeatureSet { heavy: true, ..features_off() });
    assert_eq!(heavy.get_propagated_definition("CAPNP_LITE"), vec![]);
}

#[test]
fn imported_libdl_takes_the_last_entry() {
    let mut cfg = Cfg::new(owned("x"));
    assert!(!imported_libdl(&cfg));
    cfg.define_propagated("KJ_HAS_LIBDL", Some("1"));
    assert!(imported_libdl(&cfg));
    cfg.define_propagated("KJ_HAS_LIBDL", None);
    // Most downstream wins: the last entry carries no value.
    assert!(!imported_libdl(&cfg));
}

#[test]
fn bool_int_str_renders_the_conventional_values() {
    assert_eq!(bool_int_str(true), "1");
    assert_eq!(bool_int_str(false), "0");
}

#[test]
fn propagate_definitions_chains_through_the_builder() {
    let mut cfg = Cfg::new(owned("A"));
    cfg.define_propagated("K", Some("1"));
    let mut build = cc::Build::new();
    let payload = build.propagate_definitions(&mut cfg).unwrap();
    assert_eq!(payload, "[[\"A\",\"K\",\"1\"]]");
    assert_eq!(cfg.get_propagated_definition("K"), vec![]);
}
