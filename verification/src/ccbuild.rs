//! The compiler-invocation builder of the `cc` crate, declared for use in
//! verified code.  The builder is opaque here; its preprocessor-definition
//! list and its compiled-file list are tracked through the uninterpreted
//! names [`build_defs`] and [`build_files`], and each method the library
//! calls gets a wrapper whose contract states, over those names, what the
//! method appends.

use vstd::prelude::*;
use crate::defs::Cfg;
use crate::error::BuildError;
use crate::text::{opt_view};

verus! {

/// The `cc` crate's compiler-invocation builder.
#[verifier::external_type_specification]
#[verifier::external_body]
pub struct ExCcBuild(cc::Build);

/// The ordered `(key, optional value)` preprocessor definitions held by a
/// builder.
pub uninterp spec fn build_defs(b: cc::Build) -> Seq<(Seq<char>, Option<Seq<char>>)>;

/// The ordered compiled-file paths held by a builder.
pub uninterp spec fn build_files(b: cc::Build) -> Seq<Seq<char>>;

/// Relies on `cc::Build::define`: appends one `(key, value)` pair to the
/// builder's definition list and does not touch its file list.
#[verifier::external_body]
pub fn build_define(b: &mut cc::Build, var: &str, val: Option<&str>)
    ensures
        build_defs(*final(b)) == build_defs(*old(b)).push((var@, opt_view(val))),
        build_files(*final(b)) == build_files(*old(b)),
{
    b.define(var, val);
}

/// Relies on `cc::Build::file`: appends one path to the builder's
/// compiled-file list and does not touch its definition list.
#[verifier::external_body]
pub fn build_file(b: &mut cc::Build, path: &str)
    ensures
        build_files(*final(b)) == build_files(*old(b)).push(path@),
        build_defs(*final(b)) == build_defs(*old(b)),
{
    b.file(path);
}

/// Relies on `cc::Build::flag`: appends one compiler flag, touching neither
/// the definition list nor the file list.
#[verifier::external_body]
pub fn build_flag(b: &mut cc::Build, flag: &str)
    ensures
        build_defs(*final(b)) == build_defs(*old(b)),
        build_files(*final(b)) == build_files(*old(b)),
{
    b.flag(flag);
}

/// Chaining convenience on the builder itself: exporting a store's
/// definitions into this builder.
pub trait BuildExt {
    /// Behaves exactly as `Cfg::export_propagated_definitions` called with
    /// this builder: same payload, same applied definitions, same drain.
    fn propagate_definitions(&mut self, cfg: &mut Cfg) -> Result<String, BuildError>;
}

impl BuildExt for cc::Build {
    fn propagate_definitions(&mut self, cfg: &mut Cfg) -> (r: Result<String, BuildError>)
        ensures
            final(cfg)@.name == old(cfg)@.name,
            r matches Ok(payload) && {
                &&& crate::codec::decoded_defs(payload@) == Some(old(cfg)@.defs)
                &&& final(cfg)@.defs == Seq::<crate::defs::DefTriple>::empty()
                &&& build_defs(*final(self)) == build_defs(*old(self))
                    + crate::defs::applied_defines(old(cfg)@.defs)
                &&& build_files(*final(self)) == build_files(*old(self))
            },
    {
        cfg.export_propagated_definitions(self)
    }
}

} // verus!
