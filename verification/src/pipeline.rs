//! The per-unit orchestrator: one parameterized sequence that imports
//! upstream definitions, stages the unit's declared files, registers the
//! staged sources as compilation inputs, resolves the unit's local
//! configuration, and exports the merged definition set for downstream
//! units.  Any failure stops the sequence at once.

use vstd::prelude::*;
use vstd::string::*;
use crate::ccbuild::{build_define, build_defs, build_file, build_files, build_flag};
use crate::codec::decoded_defs;
use crate::defs::{
    applied_defines, env_view, import_defs_spec, matches_of, Cfg, DefTriple,
};
use crate::error::BuildError;
use crate::filestore::{stage_all, stage_outcome, FileStore};
use crate::staging::{
    entries_view, plan_compile_inputs, plan_entries, stage_plan, StagingPlan,
};
use crate::text::{str_copy, strs_view};
use crate::unit::{BuildUnit, FeatureSet, UnitView};

verus! {

/// `"1"` for `true`, `"0"` for `false`.
pub open spec fn bool_int_view(p: bool) -> Seq<char> {
    if p {
        "1"@
    } else {
        "0"@
    }
}

/// Renders a flag as the conventional `"1"` / `"0"` definition value.
pub fn bool_int_str(p: bool) -> (r: &'static str)
    ensures
        r@ == bool_int_view(p),
{
    if p {
        "1"
    } else {
        "0"
    }
}

/// The base propagated flags a root unit seeds, in order: the contention
/// warning threshold and the two lock-diagnostic toggles.
pub open spec fn kj_base_defs(owner: Seq<char>, f: FeatureSet) -> Seq<DefTriple> {
    seq![
        (owner, "KJ_CONTENTION_WARNING_THRESHOLD"@, Some("100"@)),
        (owner, "KJ_SAVE_ACQUIRED_LOCK_INFO"@, Some(bool_int_view(f.save_acquired_lock_info))),
        (owner, "KJ_TRACK_LOCK_BLOCKING"@, Some(bool_int_view(f.track_lock_blocking))),
    ]
}

/// The full base flag set, with the lite-variant marker when the optional
/// subset is disabled.
pub open spec fn capnp_base_defs(owner: Seq<char>, f: FeatureSet) -> Seq<DefTriple> {
    kj_base_defs(owner, f) + if !f.heavy {
        seq![(owner, "CAPNP_LITE"@, None::<Seq<char>>)]
    } else {
        Seq::empty()
    }
}

/// Seeds the base lock-related propagated flags, and marks the compiler
/// invocation for dynamic loading when that feature is enabled.
pub fn kj_configure(build: &mut cc::Build, kj_cfg: &mut Cfg, features: &FeatureSet)
    ensures
        final(kj_cfg)@.name == old(kj_cfg)@.name,
        final(kj_cfg)@.defs == old(kj_cfg)@.defs + kj_base_defs(old(kj_cfg)@.name, *features),
        build_defs(*final(build)) == build_defs(*old(build)) + (if features.libdl {
            seq![("KJ_HAS_LIBDL"@, None::<Seq<char>>)]
        } else {
            Seq::empty()
        }),
        build_files(*final(build)) == build_files(*old(build)),
{
    kj_cfg.define_propagated("KJ_CONTENTION_WARNING_THRESHOLD", Some("100"));
    kj_cfg.define_propagated(
        "KJ_SAVE_ACQUIRED_LOCK_INFO",
        Some(bool_int_str(features.save_acquired_lock_info)),
    );
    kj_cfg.define_propagated(
        "KJ_TRACK_LOCK_BLOCKING",
        Some(bool_int_str(features.track_lock_blocking)),
    );
    if features.libdl {
        build_define(build, "KJ_HAS_LIBDL", None);
        proof {
            assert(build_defs(*build) =~= build_defs(*old(build)) + seq![
                ("KJ_HAS_LIBDL"@, None::<Seq<char>>),
            ]);
        }
    } else {
        proof {
            assert(build_defs(*build) =~= build_defs(*old(build)) + Seq::<
                (Seq<char>, Option<Seq<char>>),
            >::empty());
        }
    }
    proof {
        assert(kj_cfg@.defs =~= old(kj_cfg)@.defs + kj_base_defs(
            old(kj_cfg)@.name,
            *features,
        ));
    }
}

/// Seeds the base propagated flags and, when the optional subset is
/// disabled, the lite-variant marker.
pub fn capnp_configure(build: &mut cc::Build, kj_cfg: &mut Cfg, features: &FeatureSet)
    ensures
        final(kj_cfg)@.name == old(kj_cfg)@.name,
        final(kj_cfg)@.defs == old(kj_cfg)@.defs + capnp_base_defs(
            old(kj_cfg)@.name,
            *features,
        ),
        build_defs(*final(build)) == build_defs(*old(build)) + (if features.libdl {
            seq![("KJ_HAS_LIBDL"@, None::<Seq<char>>)]
        } else {
            Seq::empty()
        }),
        build_files(*final(build)) == build_files(*old(build)),
{
    kj_configure(build, kj_cfg, features);
    if !features.heavy {
        kj_cfg.define_propagated("CAPNP_LITE", None);
    }
    proof {
        assert(kj_cfg@.defs =~= old(kj_cfg)@.defs + capnp_base_defs(
            old(kj_cfg)@.name,
            *features,
        ));
    }
}

/// Whether the accumulated definitions request dynamic loading: the last
/// entry for the dynamic-loading key, if any, carries a value.
pub open spec fn libdl_requested(defs: Seq<DefTriple>) -> bool {
    let ms = matches_of(defs, "KJ_HAS_LIBDL"@);
    ms.len() > 0 && ms.last().1 is Some
}

/// Reads the dynamic-loading request out of a store, taking the last entry
/// for the key (most downstream wins).
pub fn imported_libdl(cfg: &Cfg) -> (r: bool)
    ensures
        r == libdl_requested(cfg@.defs),
{
    let ms = cfg.get_propagated_definition("KJ_HAS_LIBDL");
    let n = ms.len();
    if n == 0 {
        proof {
            assert(crate::defs::pairs_view(ms@).len() == 0);
        }
        false
    } else {
        let has = ms[n - 1].1.is_some();
        proof {
            let pv = crate::defs::pairs_view(ms@);
            assert(pv.len() == n);
            assert(pv.last() == (ms@[n - 1].0@, crate::text::opt_string_view(ms@[n - 1].1)));
        }
        has
    }
}

/// The platform link libraries a unit's artifact needs: the threading
/// library when declared, and the dynamic-loading library when the unit's
/// own feature or an imported request asks for it.
pub open spec fn unit_link_libs(u: UnitView, defs: Seq<DefTriple>) -> Seq<Seq<char>> {
    (if u.link_pthread {
        seq!["pthread"@]
    } else {
        Seq::empty()
    }) + (if u.features.libdl || (u.link_dl_on_import && libdl_requested(defs)) {
        seq!["dl"@]
    } else {
        Seq::empty()
    })
}

/// The definitions a unit ends up holding: everything imported, then the
/// base flags it seeds if it is the root unit.
pub open spec fn merged_defs(u: UnitView, imported: Seq<DefTriple>) -> Seq<DefTriple> {
    imported + if u.seed_base_flags {
        capnp_base_defs(u.name, u.features)
    } else {
        Seq::empty()
    }
}

/// The definitions applied to a unit's compiler invocation outside the
/// propagated set: the dynamic-loading marker a root unit sets, then the
/// unit's declared plain definitions.
pub open spec fn unit_plain_defines(u: UnitView) -> Seq<(Seq<char>, Option<Seq<char>>)> {
    (if u.seed_base_flags && u.features.libdl {
        seq![("KJ_HAS_LIBDL"@, None::<Seq<char>>)]
    } else {
        Seq::empty()
    }) + (if u.features.zlib {
        seq![("KJ_HAS_ZLIB"@, None::<Seq<char>>)]
    } else {
        Seq::empty()
    }) + u.plain_defines
}

/// What a completed unit invocation hands back to the build-script front
/// end: the staging plan (whose originals become rebuild triggers), the
/// link-library directives, and the exported definition payload for
/// downstream units.
#[derive(Debug)]
pub struct UnitReport {
    pub plan: StagingPlan,
    pub link_libs: Vec<String>,
    pub export_payload: String,
}

/// Runs one unit's whole invocation over a file store, in strict order:
/// import upstream definitions, stage the declared files, register the
/// staged sources as compilation inputs, resolve the local configuration,
/// and export the merged definition set for downstream units.  Any failure
/// aborts the invocation at once; nothing later is attempted.
pub fn run_unit(
    unit: &BuildUnit,
    env: &Vec<(String, String)>,
    fs: &mut FileStore,
    build: &mut cc::Build,
) -> (r: Result<UnitReport, BuildError>)
    ensures
        import_defs_spec(Seq::<DefTriple>::empty(), env_view(env@)) is Ok && stage_outcome(
            old(fs)@,
            plan_entries(unit@),
        ).1 is None ==> r is Ok,
        match r {
            Ok(rep) => import_defs_spec(Seq::<DefTriple>::empty(), env_view(env@)) matches Ok(
                imported,
            ) && {
                let merged = merged_defs(unit@, imported);
                &&& entries_view(rep.plan.entries@) == plan_entries(unit@)
                &&& strs_view(rep.plan.compile_inputs@) == plan_compile_inputs(unit@)
                &&& final(fs)@ == stage_outcome(old(fs)@, plan_entries(unit@)).0
                &&& stage_outcome(old(fs)@, plan_entries(unit@)).1 is None
                &&& build_files(*final(build)) == build_files(*old(build))
                    + plan_compile_inputs(unit@)
                &&& build_defs(*final(build)) == build_defs(*old(build)) + unit_plain_defines(
                    unit@,
                ) + applied_defines(merged)
                &&& decoded_defs(rep.export_payload@) == Some(merged)
                &&& strs_view(rep.link_libs@) == unit_link_libs(unit@, merged)
            },
            Err(e) => {
                &&& (e matches BuildError::MalformedPropagation { dependency } ==> (
                import_defs_spec(Seq::<DefTriple>::empty(), env_view(env@)) matches Err(dep)
                    && dependency@ == dep && final(fs)@ == old(fs)@ && *final(build) == *old(
                    build,
                )))
                &&& (e matches BuildError::FilesystemFailure { path } ==> {
                    &&& stage_outcome(old(fs)@, plan_entries(unit@)).1 == Some(path@)
                    &&& final(fs)@ == stage_outcome(old(fs)@, plan_entries(unit@)).0
                    &&& *final(build) == *old(build)
                })
                &&& (e matches BuildError::MalformedPropagation { dependency: _ } || e matches
                    BuildError::FilesystemFailure { path: _ })
            },
        },
{
    let mut cfg = Cfg::new(str_copy(unit.name.as_str()));
    match cfg.import_propagated_definitions(env) {
        Ok(_) => {},
        Err(e) => {
            return Err(e);
        },
    }
    let ghost imported = cfg@.defs;
    let plan = stage_plan(unit);
    match stage_all(fs, &plan) {
        Ok(_) => {},
        Err(e) => {
            return Err(e);
        },
    }
    let ghost fs_after = fs@;

    let m = plan.compile_inputs.len();
    proof {
        assert(build_files(*build) =~= build_files(*old(build)) + strs_view(
            plan.compile_inputs@,
        ).take(0));
    }
    let mut i: usize = 0;
    while i < m
        invariant
            m == plan.compile_inputs@.len(),
            i <= m,
            cfg@.defs == imported,
            cfg@.name == unit@.name,
            fs@ == fs_after,
            build_files(*build) == build_files(*old(build)) + strs_view(
                plan.compile_inputs@,
            ).take(i as int),
            build_defs(*build) == build_defs(*old(build)),
        decreases m - i,
    {
        build_file(build, plan.compile_inputs[i].as_str());
        proof {
            assert(strs_view(plan.compile_inputs@).take(i + 1) =~= strs_view(
                plan.compile_inputs@,
            ).take(i as int).push(plan.compile_inputs@[i as int]@));
            assert(build_files(*build) =~= build_files(*old(build)) + strs_view(
                plan.compile_inputs@,
            ).take(i + 1));
        }
        i += 1;
    }
    proof {
        assert(strs_view(plan.compile_inputs@).take(m as int) =~= strs_view(
            plan.compile_inputs@,
        ));
    }

    let ghost pre_plain: Seq<(Seq<char>, Option<Seq<char>>)> = if unit@.seed_base_flags
        && unit@.features.libdl {
        seq![("KJ_HAS_LIBDL"@, None::<Seq<char>>)]
    } else {
        Seq::empty()
    };
    if unit.seed_base_flags {
        capnp_configure(build, &mut cfg, &unit.features);
    }
    if unit.features.zlib {
        build_define(build, "KJ_HAS_ZLIB", None);
    }
    let ghost zlib_plain: Seq<(Seq<char>, Option<Seq<char>>)> = if unit@.features.zlib {
        seq![("KJ_HAS_ZLIB"@, None::<Seq<char>>)]
    } else {
        Seq::empty()
    };
    proof {
        assert(cfg@.defs =~= merged_defs(unit@, imported));
        assert(build_defs(*build) =~= build_defs(*old(build)) + pre_plain + zlib_plain);
    }
    let ghost merged = merged_defs(unit@, imported);

    let np = unit.plain_defines.len();
    proof {
        assert(build_defs(*build) =~= build_defs(*old(build)) + pre_plain + zlib_plain
            + crate::unit::defpairs_view(unit.plain_defines@).take(0));
    }
    let mut j: usize = 0;
    while j < np
        invariant
            np == unit.plain_defines@.len(),
            j <= np,
            cfg@.defs == merged,
            cfg@.name == unit@.name,
            fs@ == fs_after,
            merged == merged_defs(unit@, imported),
            build_files(*build) == build_files(*old(build)) + plan_compile_inputs(unit@),
            strs_view(plan.compile_inputs@) == plan_compile_inputs(unit@),
            entries_view(plan.entries@) == plan_entries(unit@),
            build_defs(*build) == build_defs(*old(build)) + pre_plain + zlib_plain
                + crate::unit::defpairs_view(unit.plain_defines@).take(j as int),
        decreases np - j,
    {
        let d = &unit.plain_defines[j];
        match &d.1 {
            Some(v) => build_define(build, d.0.as_str(), Some(v.as_str())),
            None => build_define(build, d.0.as_str(), None),
        }
        proof {
            assert(crate::unit::defpairs_view(unit.plain_defines@).take(j + 1)
                =~= crate::unit::defpairs_view(unit.plain_defines@).take(j as int).push(
                (d.0@, crate::text::opt_string_view(d.1)),
            ));
            assert(build_defs(*build) =~= build_defs(*old(build)) + pre_plain + zlib_plain
                + crate::unit::defpairs_view(unit.plain_defines@).take(j + 1));
        }
        j += 1;
    }
    proof {
        assert(crate::unit::defpairs_view(unit.plain_defines@).take(np as int)
            =~= crate::unit::defpairs_view(unit.plain_defines@));
        assert(pre_plain + zlib_plain + crate::unit::defpairs_view(unit.plain_defines@)
            == unit_plain_defines(unit@));
        assert(build_defs(*build) =~= build_defs(*old(build)) + unit_plain_defines(unit@));
    }

    build_flag(build, "-std=c++14");

    let mut link_libs: Vec<String> = Vec::new();
    if unit.link_pthread {
        link_libs.push(String::from_str("pthread"));
    }
    let wants_dl = unit.features.libdl || (unit.link_dl_on_import && imported_libdl(&cfg));
    if wants_dl {
        link_libs.push(String::from_str("dl"));
    }
    proof {
        assert(strs_view(link_libs@) =~= unit_link_libs(unit@, merged));
    }

    let payload = match cfg.export_propagated_definitions(build) {
        Ok(p) => p,
        Err(e) => {
            return Err(e);
        },
    };
    proof {
        assert(build_defs(*build) =~= build_defs(*old(build)) + unit_plain_defines(unit@)
            + applied_defines(merged));
    }
    Ok(UnitReport { plan, link_libs, export_payload: payload })
}

} // verus!
