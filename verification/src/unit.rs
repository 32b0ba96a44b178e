//! The declaration of one build unit: its name, its namespace, the shared
//! source tree it draws from, the isolated output root it stages into, its
//! declared file lists, and its compile-time configuration, all fixed before
//! any work begins and immutable for the whole invocation.

use vstd::prelude::*;
use crate::text::opt_string_view;

verus! {

/// The compile-time feature flags of one unit, resolved once from the
/// invoking build configuration before any staging or configuration work.
#[derive(Clone, Copy, Debug)]
pub struct FeatureSet {
    /// Selects the optional, larger portion of the shared source tree.
    pub heavy: bool,
    /// Compiles in the dynamic-loading capability.
    pub libdl: bool,
    /// Enables lock-acquisition diagnostics.
    pub save_acquired_lock_info: bool,
    /// Enables lock-blocking diagnostics.
    pub track_lock_blocking: bool,
    /// Compiles in compression support.
    pub zlib: bool,
}

/// The view of a list of `(key, optional value)` definition pairs.
pub open spec fn defpairs_view(s: Seq<(String, Option<String>)>) -> Seq<
    (Seq<char>, Option<Seq<char>>),
> {
    s.map_values(|p: (String, Option<String>)| (p.0@, opt_string_view(p.1)))
}

/// One build unit's declaration.  Created once per build-step invocation and
/// immutable afterwards.
pub struct BuildUnit {
    /// The unit's own name, also the owner tag of its local definitions.
    pub name: String,
    /// The exported header namespace, used as a path segment under every
    /// staging area.
    pub namespace: String,
    /// The root of the shared source tree the declared files are read from.
    pub source_root: String,
    /// The isolated per-unit output root everything is staged under.
    pub out_root: String,
    /// Public headers, exported to downstream units.
    pub headers: Vec<String>,
    /// Private headers, visible to this unit alone.
    pub private_headers: Vec<String>,
    /// Sources always compiled.
    pub sources: Vec<String>,
    /// Sources compiled only when the `heavy` feature is enabled.
    pub optional_sources: Vec<String>,
    /// Files staged next to the sources but not compiled.
    pub auxiliary: Vec<String>,
    /// Entry-point descriptors for the external bridge generator.  The
    /// library carries them as declaration data only; the build-script
    /// front end hands them to the generator, and nothing here reads them.
    pub bridge_entry_points: Vec<String>,
    /// The unit's resolved feature flags.
    pub features: FeatureSet,
    /// Whether this unit seeds the base propagated flag set (the root unit
    /// of the dependency graph does; downstream units only import).
    pub seed_base_flags: bool,
    /// Extra preprocessor definitions applied to this unit's compiler
    /// invocation only, never propagated.
    pub plain_defines: Vec<(String, Option<String>)>,
    /// Whether this unit's artifact requires the threading library.
    pub link_pthread: bool,
    /// Whether this unit links the dynamic-loading library when an imported
    /// definition declares it.
    pub link_dl_on_import: bool,
}

/// The mathematical form of a unit declaration.
pub ghost struct UnitView {
    pub name: Seq<char>,
    pub namespace: Seq<char>,
    pub source_root: Seq<char>,
    pub out_root: Seq<char>,
    pub headers: Seq<Seq<char>>,
    pub private_headers: Seq<Seq<char>>,
    pub sources: Seq<Seq<char>>,
    pub optional_sources: Seq<Seq<char>>,
    pub auxiliary: Seq<Seq<char>>,
    pub bridge_entry_points: Seq<Seq<char>>,
    pub features: FeatureSet,
    pub seed_base_flags: bool,
    pub plain_defines: Seq<(Seq<char>, Option<Seq<char>>)>,
    pub link_pthread: bool,
    pub link_dl_on_import: bool,
}

impl View for BuildUnit {
    type V = UnitView;

    open spec fn view(&self) -> UnitView {
        UnitView {
            name: self.name@,
            namespace: self.namespace@,
            source_root: self.source_root@,
            out_root: self.out_root@,
            headers: crate::text::strs_view(self.headers@),
            private_headers: crate::text::strs_view(self.private_headers@),
            sources: crate::text::strs_view(self.sources@),
            optional_sources: crate::text::strs_view(self.optional_sources@),
            auxiliary: crate::text::strs_view(self.auxiliary@),
            bridge_entry_points: crate::text::strs_view(self.bridge_entry_points@),
            features: self.features,
            seed_base_flags: self.seed_base_flags,
            plain_defines: defpairs_view(self.plain_defines@),
            link_pthread: self.link_pthread,
            link_dl_on_import: self.link_dl_on_import,
        }
    }
}

} // verus!
