//! Tests of the hermetic staging plan and its executor over the in-memory
//! store: destination layout, byte-identical copies, idempotent restaging,
//! abort-at-first-missing semantics, and feature-gated source subsets.

use kj_build::error::BuildError;
use kj_build::filestore::{stage_all, FileStore};
use kj_build::staging::stage_plan;
use kj_build::unit::{BuildUnit, FeatureSet};

fn owned(s: &str) -> String {
    String::from(s)
}

fn strings(xs: &[&str]) -> Vec<String> {
    xs.iter().map(|x| String::from(*x)).collect()
}

fn features_off() -> FeatureSet {
    FeatureSet {
        heavy: false,
        libdl: false,
        save_acquired_lock_info: false,
        track_lock_blocking: false,
        zlib: false,
    }
}

fn sample_unit(heavy: bool) -> BuildUnit {
    BuildUnit {
        name: owned("kj"),
        namespace: owned("kj"),
        source_root: owned(".."),
        out_root: owned("out"),
        headers: strings(&["common.h", "parse/char.h"]),
        private_headers: strings(&["miniposix.h"]),
        sources: strings(&["array.c++", "common.c++"]),
        optional_sources: strings(&["refcount.c++"]),
        auxiliary: strings(&["schema.capnp.h"]),
        bridge_entry_points: strings(&["src/lib.rs"]),
        features: FeatureSet { heavy, ..features_off() },
        seed_base_flags: false,
        plain_defines: Vec::new(),
        link_pthread: false,
        link_dl_on_import: false,
    }
}

fn loaded_store(paths: &[(&str, &[u8])]) -> FileStore {
    let mut fs = FileStore::new();
    for (p, bytes) in paths {
        fs.write(p, bytes.to_vec());
    }
    fs
}

#[test]
fn plan_maps_each_role_to_its_namespaced_area() {
    let plan = stage_plan(&sample_unit(false));
    let entries: Vec<(String, String)> = plan
        .entries
        .iter()
        .map(|e| (e.original.clone(), e.staged.clone()))
        .collect();
    assert_eq!(
        entries,
        vec![
            (owned("../common.h"), owned("out/headers/kj/common.h")),
            (owned("../parse/char.h"), owned("out/headers/kj/parse/char.h")),
            (owned("../miniposix.h"), owned("out/private-headers/kj/miniposix.h")),
            (owned("../array.c++"), owned("out/sources/kj/array.c++")),
            (owned("../common.c++"), owned("out/sources/kj/common.c++")),
            (owned("../schema.capnp.h"), owned("out/sources/kj/schema.capnp.h")),
        ]
    );
    assert_eq!(
        plan.compile_inputs,
        strings(&["out/sources/kj/array.c++", "out/sources/kj/common.c++"])
    );
    assert_eq!(plan.exported_header_root, owned("out/headers"));
    assert_eq!(plan.private_header_root, owned("out/private-headers"));
}

#[test]
fn staging_copies_every_file_byte_identically() {
    let unit = sample_unit(false);
    let mut fs = loaded_store(&[
        ("../common.h", b"header bytes"),
        ("../parse/char.h", b"parse"),
        ("../miniposix.h", b"private"),
        ("../array.c++", b"int a;"),
        ("../common.c++", b"int b;"),
        ("../schema.capnp.h", b"aux"),
    ]);
    let plan = stage_plan(&unit);
    stage_all(&mut fs, &plan).unwrap();
    assert_eq!(fs.read("out/headers/kj/common.h").unwrap(), b"header bytes".to_vec());
    assert_eq!(fs.read("out/headers/kj/parse/char.h").unwrap(), b"parse".to_vec());
    assert_eq!(fs.read("out/private-headers/kj/miniposix.h").unwrap(), b"private".to_vec());
    assert_eq!(fs.read("out/sources/kj/array.c++").unwrap(), b"int a;".to_vec());
    assert_eq!(fs.read("out/sources/kj/common.c++").unwrap(), b"int b;".to_vec());
    assert_eq!(fs.read("out/sources/kj/schema.capnp.h").unwrap(), b"aux".to_vec());
}

#[test]
fn restaging_overwrites_without_duplication_or_residue() {
    let unit = sample_unit(false);
    let mut fs = loaded_store(&[
        ("../common.h", b"v1"),
        ("../parse/char.h", b"p"),
        ("../miniposix.h", b"m"),
        ("../array.c++", b"a"),
        ("../common.c++", b"c"),
        ("../schema.capnp.h", b"x"),
    ]);
    let plan = stage_plan(&unit);
    stage_all(&mut fs, &plan).unwrap();
    stage_all(&mut fs, &plan).unwrap();
    assert_eq!(fs.read("out/headers/kj/common.h").unwrap(), b"v1".to_vec());
    // A changed original is overwritten in place on the next staging run.
    fs.write("../common.h", b"v2".to_vec());
    stage_all(&mut fs, &plan).unwrap();
    assert_eq!(fs.read("out/headers/kj/common.h").unwrap(), b"v2".to_vec());
}

#[test]
fn missing_source_aborts_and_names_it_without_rolling_back() {
    let unit = sample_unit(false);
    // "../array.c++" is deliberately absent: everything before it must stay
    // staged, everything after it must not be processed.
    let mut fs = loaded_store(&[
        ("../common.h", b"h"),
        ("../parse/char.h", b"p"),
        ("../miniposix.h", b"m"),
        ("../common.c++", b"c"),
        ("../schema.capnp.h", b"x"),
    ]);
    let plan = stage_plan(&unit);
    let err = stage_all(&mut fs, &plan).unwrap_err();
    match err {
        BuildError::FilesystemFailure { ref path } => assert_eq!(path, "../array.c++"),
        _ => panic!("wrong error kind"),
    }
    assert_eq!(fs.read("out/headers/kj/common.h").unwrap(), b"h".to_vec());
    assert_eq!(fs.read("out/private-headers/kj/miniposix.h").unwrap(), b"m".to_vec());
    assert!(fs.read("out/sources/kj/array.c++").is_none());
    assert!(fs.read("out/sources/kj/common.c++").is_none());
    assert!(fs.read("out/sources/kj/schema.capnp.h").is_none());
}

#[test]
fn disabled_flag_keeps_optional_sources_out() {
    let plan = stage_plan(&sample_unit(false));
    for e in plan.entries.iter() {
        assert_ne!(e.original, owned("../refcount.c++"));
        assert_ne!(e.staged, owned("out/sources/kj/refcount.c++"));
    }
    assert!(!plan.compile_inputs.contains(&owned("out/sources/kj/refcount.c++")));
}

#[test]
fn enabled_flag_stages_both_subsets_once_each() {
    let plan = stage_plan(&sample_unit(true));
    assert_eq!(
        plan.compile_inputs,
        strings(&[
            "out/sources/kj/array.c++",
            "out/sources/kj/common.c++",
            "out/sources/kj/refcount.c++",
        ])
    );
    let mut staged: Vec<String> = plan.entries.iter().map(|e| e.staged.clone()).collect();
    let total = staged.len();
    staged.sort();
    staged.dedup();
    assert_eq!(staged.len(), total);
}

#[test]
fn store_reads_see_the_latest_write() {
    let mut fs = FileStore::new();
    assert!(fs.read("a/b").is_none());
    assert!(!fs.contains("a/b"));
    fs.write("a/b", b"one".to_vec());
    assert!(fs.contains("a/b"));
    assert_eq!(fs.read("a/b").unwrap(), b"one".to_vec());
    fs.write("a/b", b"two".to_vec());
    assert_eq!(fs.read("a/b").unwrap(), b"two".to_vec());
}
