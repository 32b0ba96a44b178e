//! The definition store: a per-unit, ordered sequence of propagated
//! compile-time definitions, accumulated first by import from upstream units
//! and then by local additions, and drained once into the compiler
//! invocation on export.

use vstd::prelude::*;
use vstd::string::*;
use crate::ccbuild::{build_define, build_defs, build_files};
use crate::codec::{decode_defs, decoded_defs, encode_defs};
use crate::error::BuildError;
use crate::text::{opt_string_view, opt_view, str_eq, str_copy, opt_copy, opt_clone};

verus! {

/// The mathematical form of one propagated definition:
/// `(owner, key, optional value)`.
pub type DefTriple = (Seq<char>, Seq<char>, Option<Seq<char>>);

/// One compile-time definition, tagged with the unit that declared it.
pub struct PropagatedDefinition {
    pub owner: String,
    pub key: String,
    pub value: Option<String>,
}

impl View for PropagatedDefinition {
    type V = DefTriple;

    open spec fn view(&self) -> DefTriple {
        (self.owner@, self.key@, opt_string_view(self.value))
    }
}

/// The views of a list of definitions.
pub open spec fn defs_view(s: Seq<PropagatedDefinition>) -> Seq<DefTriple> {
    s.map_values(|d: PropagatedDefinition| d@)
}

/// The mathematical form of a definition store: its owning unit's name and
/// its ordered definition sequence.
pub ghost struct CfgView {
    pub name: Seq<char>,
    pub defs: Seq<DefTriple>,
}

/// A per-unit store of propagated compile-time definitions.
pub struct Cfg {
    name: String,
    propagated_definitions: Vec<PropagatedDefinition>,
}

impl View for Cfg {
    type V = CfgView;

    closed spec fn view(&self) -> CfgView {
        CfgView { name: self.name@, defs: defs_view(self.propagated_definitions@) }
    }
}

/// The entries of `defs` whose key is `k`, in order, each as
/// `(owner, value)`.
pub open spec fn matches_of(defs: Seq<DefTriple>, k: Seq<char>) -> Seq<
    (Seq<char>, Option<Seq<char>>),
>
    decreases defs.len(),
{
    if defs.len() == 0 {
        Seq::empty()
    } else {
        matches_of(defs.drop_last(), k) + (if defs.last().1 == k {
            seq![(defs.last().0, defs.last().2)]
        } else {
            Seq::empty()
        })
    }
}

/// The views of a list of `(owner, value)` pairs.
pub open spec fn pairs_view(s: Seq<(String, Option<String>)>) -> Seq<
    (Seq<char>, Option<Seq<char>>),
> {
    s.map_values(|p: (String, Option<String>)| (p.0@, opt_string_view(p.1)))
}

impl Cfg {
    /// A fresh store owned by the unit named `name`, with no definitions.
    pub fn new(name: String) -> (c: Cfg)
        ensures
            c@.name == name@,
            c@.defs == Seq::<DefTriple>::empty(),
    {
        let c = Cfg { name, propagated_definitions: Vec::new() };
        proof {
            assert(c@.defs =~= Seq::<DefTriple>::empty());
        }
        c
    }

    /// Appends `(self.name, var, val)` to the local sequence.  Purely
    /// additive: no uniqueness check, never fails.
    pub fn define_propagated(&mut self, var: &str, val: Option<&str>)
        ensures
            final(self)@.name == old(self)@.name,
            final(self)@.defs == old(self)@.defs.push(
                (old(self)@.name, var@, opt_view(val)),
            ),
    {
        let d = PropagatedDefinition {
            owner: str_copy(self.name.as_str()),
            key: str_copy(var),
            value: opt_copy(val),
        };
        self.propagated_definitions.push(d);
        proof {
            assert(final(self)@.defs =~= old(self)@.defs.push(
                (old(self)@.name, var@, opt_view(val)),
            ));
        }
    }

    /// Every entry whose key is `var`, in insertion order (imported before
    /// local), each tagged with the unit that defined it.  An empty list,
    /// not an error, when nothing matches.  Keys need not be unique: a
    /// caller that wants a single value takes the last entry, so the most
    /// downstream definition wins; that is the policy
    /// [`crate::pipeline::imported_libdl`] applies.
    pub fn get_propagated_definition(&self, var: &str) -> (r: Vec<(String, Option<String>)>)
        ensures
            pairs_view(r@) == matches_of(self@.defs, var@),
    {
        let mut out: Vec<(String, Option<String>)> = Vec::new();
        let n = self.propagated_definitions.len();
        proof {
            assert(pairs_view(out@) =~= matches_of(defs_view(
                self.propagated_definitions@.take(0),
            ), var@));
        }
        let mut i: usize = 0;
        while i < n
            invariant
                n == self.propagated_definitions.len(),
                i <= n,
                pairs_view(out@) == matches_of(
                    defs_view(self.propagated_definitions@.take(i as int)),
                    var@,
                ),
            decreases n - i,
        {
            let d = &self.propagated_definitions[i];
            let ghost prefix = defs_view(self.propagated_definitions@.take(i as int));
            let ghost next = defs_view(self.propagated_definitions@.take(i + 1));
            proof {
                assert(self.propagated_definitions@.take(i + 1).drop_last() =~= self
                    .propagated_definitions@.take(i as int));
                assert(next.drop_last() =~= prefix);
                assert(next.last() == self.propagated_definitions@[i as int]@);
            }
            if str_eq(d.key.as_str(), var) {
                out.push((str_copy(d.owner.as_str()), opt_clone(&d.value)));
                proof {
                    assert(pairs_view(out@) =~= matches_of(next, var@));
                }
            } else {
                proof {
                    assert(pairs_view(out@) =~= matches_of(next, var@));
                }
            }
            i += 1;
        }
        proof {
            assert(self.propagated_definitions@.take(n as int) =~= self
                .propagated_definitions@);
        }
        out
    }
}

/// The upstream unit name encoded in an environment-entry key, if the key
/// follows the propagation convention
/// `DEP_<unit>_KJ_BUILD_PROPAGATED_DEFINITIONS` with a nonempty unit name.
pub open spec fn env_dep_name(k: Seq<char>) -> Option<Seq<char>> {
    let p = "DEP_"@;
    let s = "_KJ_BUILD_PROPAGATED_DEFINITIONS"@;
    if k.len() > p.len() + s.len() && k.take(p.len() as int) == p && k.skip(k.len() - s.len())
        == s {
        Some(k.subrange(p.len() as int, k.len() - s.len()))
    } else {
        None
    }
}

/// Extracts the upstream unit name from an environment-entry key that
/// follows the propagation convention; `None` for every other key.
pub fn parse_env_dep(key: &str) -> (r: Option<String>)
    ensures
        match r {
            Some(d) => env_dep_name(key@) == Some(d@),
            None => env_dep_name(key@) is None,
        },
{
    proof {
        reveal_strlit("DEP_");
        reveal_strlit("_KJ_BUILD_PROPAGATED_DEFINITIONS");
    }
    let prefix = "DEP_";
    let suffix = "_KJ_BUILD_PROPAGATED_DEFINITIONS";
    let n = key.unicode_len();
    let plen = prefix.unicode_len();
    let slen = suffix.unicode_len();
    if n <= plen + slen {
        return None;
    }
    let head = key.substring_char(0, plen);
    if !str_eq(head, prefix) {
        return None;
    }
    let tail = key.substring_char(n - slen, n);
    if !str_eq(tail, suffix) {
        return None;
    }
    let mid = key.substring_char(plen, n - slen);
    Some(str_copy(mid))
}

/// The views of an environment snapshot: `(key, value)` pairs of text
/// entries.
pub open spec fn env_view(env: Seq<(String, String)>) -> Seq<(Seq<char>, Seq<char>)> {
    env.map_values(|e: (String, String)| (e.0@, e.1@))
}

/// The effect of scanning an environment snapshot: every entry following
/// the propagation convention has its payload decoded and appended, in
/// order; the first entry whose payload fails to decode yields the
/// offending upstream unit's name as the error.
pub open spec fn import_defs_spec(
    defs: Seq<DefTriple>,
    env: Seq<(Seq<char>, Seq<char>)>,
) -> Result<Seq<DefTriple>, Seq<char>>
    decreases env.len(),
{
    if env.len() == 0 {
        Ok(defs)
    } else {
        match env_dep_name(env.first().0) {
            None => import_defs_spec(defs, env.drop_first()),
            Some(dep) => match decoded_defs(env.first().1) {
                None => Err(dep),
                Some(d) => import_defs_spec(defs + d, env.drop_first()),
            },
        }
    }
}

/// The store contents after a scan that stops at the first undecodable
/// payload: the sequence so far, extended by every payload decoded before
/// the offending entry.  Equal to the `Ok` value of [`import_defs_spec`]
/// when every payload decodes.
pub open spec fn import_partial(
    defs: Seq<DefTriple>,
    env: Seq<(Seq<char>, Seq<char>)>,
) -> Seq<DefTriple>
    decreases env.len(),
{
    if env.len() == 0 {
        defs
    } else {
        match env_dep_name(env.first().0) {
            None => import_partial(defs, env.drop_first()),
            Some(dep) => match decoded_defs(env.first().1) {
                None => defs,
                Some(d) => import_partial(defs + d, env.drop_first()),
            },
        }
    }
}

/// The `(key, value)` pairs that applying a definition sequence to a
/// compiler invocation appends.
pub open spec fn applied_defines(defs: Seq<DefTriple>) -> Seq<(Seq<char>, Option<Seq<char>>)> {
    defs.map_values(|d: DefTriple| (d.1, d.2))
}

impl Cfg {
    /// Scans a text environment snapshot for upstream units' exported
    /// payloads and appends each decoded definition list to this store, in
    /// the order encountered.  Fails with
    /// [`BuildError::MalformedPropagation`], naming the offending upstream
    /// unit, when a payload fails to decode; payloads decoded before the
    /// offending entry remain appended (fail fast, no rollback) and later
    /// entries are not processed.  Entries not following the naming
    /// convention are skipped.
    pub fn import_propagated_definitions(&mut self, env: &Vec<(String, String)>) -> (r: Result<
        (),
        BuildError,
    >)
        ensures
            final(self)@.name == old(self)@.name,
            match r {
                Ok(_) => import_defs_spec(old(self)@.defs, env_view(env@)) == Ok::<
                    Seq<DefTriple>,
                    Seq<char>,
                >(final(self)@.defs),
                Err(e) => {
                    &&& import_defs_spec(old(self)@.defs, env_view(env@)) matches Err(dep)
                        && (e matches BuildError::MalformedPropagation { dependency }
                        && dependency@ == dep)
                    &&& final(self)@.defs == import_partial(old(self)@.defs, env_view(env@))
                },
            },
    {
        let n = env.len();
        proof {
            assert(env_view(env@).skip(0) =~= env_view(env@));
        }
        let mut i: usize = 0;
        while i < n
            invariant
                n == env.len(),
                i <= n,
                self@.name == old(self)@.name,
                import_defs_spec(self@.defs, env_view(env@).skip(i as int))
                    == import_defs_spec(old(self)@.defs, env_view(env@)),
                import_partial(self@.defs, env_view(env@).skip(i as int))
                    == import_partial(old(self)@.defs, env_view(env@)),
            decreases n - i,
        {
            let ghost before = self@.defs;
            let ghost rest = env_view(env@).skip(i as int);
            proof {
                assert(rest.first() == (env@[i as int].0@, env@[i as int].1@));
                assert(rest.drop_first() =~= env_view(env@).skip(i + 1));
            }
            let entry = &env[i];
            match parse_env_dep(entry.0.as_str()) {
                None => {
                },
                Some(dep) => {
                    match decode_defs(entry.1.as_str()) {
                        Ok(mut d) => {
                            let ghost dv = defs_view(d@);
                            self.propagated_definitions.append(&mut d);
                            proof {
                                assert(self@.defs =~= before + dv);
                            }
                        },
                        Err(_) => {
                            return Err(BuildError::MalformedPropagation { dependency: dep });
                        },
                    }
                },
            }
            i += 1;
        }
        proof {
            assert(env_view(env@).skip(n as int) =~= Seq::<(Seq<char>, Seq<char>)>::empty());
        }
        Ok(())
    }

    /// Serializes the entire current sequence (imported and local) into one
    /// exportable payload, applies every entry as a preprocessor definition
    /// on the given compiler invocation, in sequence order, and drains the
    /// store: after an export the sequence is empty, so a second export
    /// applies nothing further.  Always succeeds: serializing the sequence
    /// cannot fail.
    pub fn export_propagated_definitions(&mut self, build: &mut cc::Build) -> (r: Result<
        String,
        BuildError,
    >)
        ensures
            final(self)@.name == old(self)@.name,
            r matches Ok(payload) && {
                &&& decoded_defs(payload@) == Some(old(self)@.defs)
                &&& final(self)@.defs == Seq::<DefTriple>::empty()
                &&& build_defs(*final(build)) == build_defs(*old(build)) + applied_defines(
                    old(self)@.defs,
                )
                &&& build_files(*final(build)) == build_files(*old(build))
            },
    {
        let payload = encode_defs(&self.propagated_definitions);
        let n = self.propagated_definitions.len();
        proof {
            assert(build_defs(*build) =~= build_defs(*old(build)) + applied_defines(
                defs_view(self.propagated_definitions@.take(0)),
            ));
        }
        let mut i: usize = 0;
        while i < n
            invariant
                n == self.propagated_definitions.len(),
                i <= n,
                *self == *old(self),
                build_defs(*build) == build_defs(*old(build)) + applied_defines(
                    defs_view(self.propagated_definitions@.take(i as int)),
                ),
                build_files(*build) == build_files(*old(build)),
            decreases n - i,
        {
            let d = &self.propagated_definitions[i];
            let ghost prefix = defs_view(self.propagated_definitions@.take(i as int));
            match &d.value {
                Some(v) => build_define(build, d.key.as_str(), Some(v.as_str())),
                None => build_define(build, d.key.as_str(), None),
            }
            proof {
                assert(self.propagated_definitions@.take(i + 1).drop_last() =~= self
                    .propagated_definitions@.take(i as int));
                assert(defs_view(self.propagated_definitions@.take(i + 1)) =~= prefix.push(
                    self.propagated_definitions@[i as int]@,
                ));
                assert(applied_defines(prefix.push(self.propagated_definitions@[i as int]@))
                    =~= applied_defines(prefix).push(
                    (d.key@, opt_string_view(d.value)),
                ));
                assert(build_defs(*build) =~= build_defs(*old(build)) + applied_defines(
                    defs_view(self.propagated_definitions@.take(i + 1)),
                ));
            }
            i += 1;
        }
        proof {
            assert(self.propagated_definitions@.take(n as int) =~= self
                .propagated_definitions@);
        }
        self.propagated_definitions = Vec::new();
        proof {
            assert(final(self)@.defs =~= Seq::<DefTriple>::empty());
        }
        Ok(payload)
    }
}

/// Round trip: a store's exported payload, placed as the sole environment
/// entry of a fresh store under the propagation naming convention, imports
/// to exactly the exported triples, in order.
pub proof fn lemma_export_import_round_trip(
    key: Seq<char>,
    payload: Seq<char>,
    upstream: Seq<char>,
    defs: Seq<DefTriple>,
)
    requires
        decoded_defs(payload) == Some(defs),
        env_dep_name(key) == Some(upstream),
    ensures
        import_defs_spec(Seq::<DefTriple>::empty(), seq![(key, payload)]) == Ok::<
            Seq<DefTriple>,
            Seq<char>,
        >(defs),
{
    let env = seq![(key, payload)];
    let none = Seq::<DefTriple>::empty();
    assert(env.first() == (key, payload));
    assert(env.drop_first().len() == 0);
    assert(import_defs_spec(none + defs, env.drop_first()) == Ok::<Seq<DefTriple>, Seq<char>>(
        none + defs,
    ));
    assert(import_defs_spec(none, env) == import_defs_spec(none + defs, env.drop_first()));
    assert(none + defs =~= defs);
}

/// Draining: an export from an already-drained store (the state right after
/// any successful export) applies no further definitions to the compiler
/// invocation.
pub proof fn lemma_drained_export_applies_nothing(bdefs: Seq<(Seq<char>, Option<Seq<char>>)>)
    ensures
        bdefs + applied_defines(Seq::<DefTriple>::empty()) == bdefs,
{
    assert(applied_defines(Seq::<DefTriple>::empty()) =~= Seq::<
        (Seq<char>, Option<Seq<char>>),
    >::empty());
    assert(bdefs + applied_defines(Seq::<DefTriple>::empty()) =~= bdefs);
}

/// Each appended definition extends the matching list for its own key by one
/// `(owner, value)` entry, and leaves every other key's matching list
/// unchanged.
pub proof fn lemma_define_then_get(defs: Seq<DefTriple>, d: DefTriple, k: Seq<char>)
    ensures
        d.1 == k ==> matches_of(defs.push(d), k) == matches_of(defs, k).push((d.0, d.2)),
        d.1 != k ==> matches_of(defs.push(d), k) == matches_of(defs, k),
{
    assert(defs.push(d).drop_last() =~= defs);
    if d.1 == k {
        assert(matches_of(defs.push(d), k) =~= matches_of(defs, k).push((d.0, d.2)));
    } else {
        assert(matches_of(defs.push(d), k) =~= matches_of(defs, k));
    }
}

} // verus!
