//! The hermetic staging plan: the concrete mapping of every declared file of
//! one unit to its destination under the unit's isolated output root,
//! mirroring the shared tree's relative structure and namespacing every
//! destination by the unit's exported namespace, so that no two units and no
//! two declared files ever collide on a destination path.

use vstd::prelude::*;
use vstd::string::*;
use crate::text::{is_prefix, joined, join_path, strs_view, str_copy};
use crate::unit::{BuildUnit, UnitView};

verus! {

/// What a declared file is staged as.
#[derive(Clone, Copy, Debug, PartialEq, Eq, Structural)]
pub enum FileRole {
    /// A public header, exported to downstream units.
    Header,
    /// A private header, visible to this unit alone.
    PrivateHeader,
    /// A source registered as a compilation input at its staged path.
    Source,
    /// A file staged next to the sources but not compiled.
    Auxiliary,
}

/// One planned copy: the original path (watched for rebuilds), the staged
/// destination, and the file's role.
#[derive(Debug)]
pub struct StageEntry {
    pub original: String,
    pub staged: String,
    pub role: FileRole,
}

/// The mathematical form of one planned copy.
pub ghost struct EntryView {
    pub original: Seq<char>,
    pub staged: Seq<char>,
    pub role: FileRole,
}

impl View for StageEntry {
    type V = EntryView;

    open spec fn view(&self) -> EntryView {
        EntryView { original: self.original@, staged: self.staged@, role: self.role }
    }
}

/// The views of a list of planned copies.
pub open spec fn entries_view(es: Seq<StageEntry>) -> Seq<EntryView> {
    es.map_values(|e: StageEntry| e@)
}

/// A unit's staging plan: every planned copy in staging order (public
/// headers, private headers, sources, auxiliary files), the compilation
/// inputs at their staged paths, and the two header roots handed to the
/// compiler invocation.
#[derive(Debug)]
pub struct StagingPlan {
    pub entries: Vec<StageEntry>,
    pub compile_inputs: Vec<String>,
    pub exported_header_root: String,
    pub private_header_root: String,
}

/// The staging area a role maps to.  Public headers go under the exported
/// area, private headers under an owner-only area, sources and auxiliary
/// files under the compilation area.
pub open spec fn area_of(role: FileRole) -> Seq<char> {
    match role {
        FileRole::Header => "headers"@,
        FileRole::PrivateHeader => "private-headers"@,
        FileRole::Source => "sources"@,
        FileRole::Auxiliary => "sources"@,
    }
}

/// The staged destination of a declared file: the unit's output root, the
/// role's area, the unit's namespace, then the declared relative path.
pub open spec fn staged_path(u: UnitView, role: FileRole, rel: Seq<char>) -> Seq<char> {
    joined(joined(joined(u.out_root, area_of(role)), u.namespace), rel)
}

/// The original location of a declared file under the shared source tree.
pub open spec fn original_path(u: UnitView, rel: Seq<char>) -> Seq<char> {
    joined(u.source_root, rel)
}

/// The planned copies of one declared list under one role, in declared
/// order.
pub open spec fn role_entries(u: UnitView, rels: Seq<Seq<char>>, role: FileRole) -> Seq<
    EntryView,
> {
    rels.map_values(
        |rel: Seq<char>|
            EntryView {
                original: original_path(u, rel),
                staged: staged_path(u, role, rel),
                role,
            },
    )
}

/// The sources a unit compiles: the base list, and the optional list too
/// exactly when the `heavy` feature is enabled.
pub open spec fn selected_sources(u: UnitView) -> Seq<Seq<char>> {
    if u.features.heavy {
        u.sources + u.optional_sources
    } else {
        u.sources
    }
}

/// Every planned copy of a unit, in staging order.
pub open spec fn plan_entries(u: UnitView) -> Seq<EntryView> {
    role_entries(u, u.headers, FileRole::Header) + role_entries(
        u,
        u.private_headers,
        FileRole::PrivateHeader,
    ) + role_entries(u, selected_sources(u), FileRole::Source) + role_entries(
        u,
        u.auxiliary,
        FileRole::Auxiliary,
    )
}

/// The compilation inputs of a unit: its selected sources at their staged
/// paths, in order.
pub open spec fn plan_compile_inputs(u: UnitView) -> Seq<Seq<char>> {
    selected_sources(u).map_values(|rel: Seq<char>| staged_path(u, FileRole::Source, rel))
}

/// The area path segment of a role, as text.
fn area_str(role: FileRole) -> (r: &'static str)
    ensures
        r@ == area_of(role),
{
    match role {
        FileRole::Header => "headers",
        FileRole::PrivateHeader => "private-headers",
        FileRole::Source => "sources",
        FileRole::Auxiliary => "sources",
    }
}

/// The staged destination of one declared file, as text.
fn staged_path_str(unit: &BuildUnit, role: FileRole, rel: &str) -> (r: String)
    ensures
        r@ == staged_path(unit@, role, rel@),
{
    let area = area_str(role);
    let s1 = join_path(unit.out_root.as_str(), area);
    let s2 = join_path(s1.as_str(), unit.namespace.as_str());
    join_path(s2.as_str(), rel)
}

/// Appends the planned copies of one declared list under one role.
fn push_role_entries(entries: &mut Vec<StageEntry>, unit: &BuildUnit, rels: &Vec<String>, role: FileRole)
    ensures
        entries_view(final(entries)@) == entries_view(old(entries)@) + role_entries(
            unit@,
            strs_view(rels@),
            role,
        ),
{
    let ghost base = entries_view(old(entries)@);
    let n = rels.len();
    proof {
        assert(strs_view(rels@).take(0) =~= Seq::<Seq<char>>::empty());
        assert(base + role_entries(unit@, strs_view(rels@).take(0), role) =~= base);
    }
    let mut i: usize = 0;
    while i < n
        invariant
            n == rels.len(),
            i <= n,
            entries_view(entries@) == base + role_entries(
                unit@,
                strs_view(rels@).take(i as int),
                role,
            ),
        decreases n - i,
    {
        let rel = &rels[i];
        let e = StageEntry {
            original: join_path(unit.source_root.as_str(), rel.as_str()),
            staged: staged_path_str(unit, role, rel.as_str()),
            role,
        };
        let ghost prev = entries@;
        let ghost ev = e@;
        entries.push(e);
        proof {
            let rv = strs_view(rels@);
            assert(rv[i as int] == rels@[i as int]@);
            assert(ev == EntryView {
                original: original_path(unit@, rv[i as int]),
                staged: staged_path(unit@, role, rv[i as int]),
                role,
            });
            assert(entries_view(entries@) =~= entries_view(prev).push(ev));
            assert(role_entries(unit@, rv.take(i + 1), role) =~= role_entries(
                unit@,
                rv.take(i as int),
                role,
            ).push(ev));
            assert(entries_view(entries@) =~= base + role_entries(
                unit@,
                rv.take(i + 1),
                role,
            ));
        }
        i += 1;
    }
    proof {
        assert(strs_view(rels@).take(n as int) =~= strs_view(rels@));
    }
}

/// Appends the staged paths of one declared source list.
fn push_staged_paths(out: &mut Vec<String>, unit: &BuildUnit, rels: &Vec<String>)
    ensures
        strs_view(final(out)@) == strs_view(old(out)@) + strs_view(rels@).map_values(
            |rel: Seq<char>| staged_path(unit@, FileRole::Source, rel),
        ),
{
    let ghost base = strs_view(old(out)@);
    let ghost target = strs_view(rels@).map_values(
        |rel: Seq<char>| staged_path(unit@, FileRole::Source, rel),
    );
    let n = rels.len();
    proof {
        assert(base + target.take(0) =~= base);
    }
    let mut i: usize = 0;
    while i < n
        invariant
            n == rels.len(),
            i <= n,
            target == strs_view(rels@).map_values(
                |rel: Seq<char>| staged_path(unit@, FileRole::Source, rel),
            ),
            strs_view(out@) == base + target.take(i as int),
        decreases n - i,
    {
        let p = staged_path_str(unit, FileRole::Source, rels[i].as_str());
        let ghost prev = out@;
        let ghost pv = p@;
        out.push(p);
        proof {
            assert(strs_view(rels@)[i as int] == rels@[i as int]@);
            assert(pv == target[i as int]);
            assert(strs_view(out@) =~= strs_view(prev).push(pv));
            assert(target.take(i + 1) =~= target.take(i as int).push(target[i as int]));
            assert(strs_view(out@) =~= base + target.take(i + 1));
        }
        i += 1;
    }
    proof {
        assert(target.take(n as int) =~= target);
    }
}

/// Derives a unit's staging plan: every declared file mapped to its staged
/// destination in staging order, with the selected sources registered as
/// compilation inputs at their staged paths.  Purely derived from the
/// declaration; feature flags are resolved before any staging work.
pub fn stage_plan(unit: &BuildUnit) -> (p: StagingPlan)
    ensures
        entries_view(p.entries@) == plan_entries(unit@),
        strs_view(p.compile_inputs@) == plan_compile_inputs(unit@),
        p.exported_header_root@ == joined(unit@.out_root, "headers"@),
        p.private_header_root@ == joined(unit@.out_root, "private-headers"@),
{
    let mut entries: Vec<StageEntry> = Vec::new();
    proof {
        assert(entries_view(entries@) =~= Seq::<EntryView>::empty());
    }
    push_role_entries(&mut entries, unit, &unit.headers, FileRole::Header);
    push_role_entries(&mut entries, unit, &unit.private_headers, FileRole::PrivateHeader);
    push_role_entries(&mut entries, unit, &unit.sources, FileRole::Source);
    if unit.features.heavy {
        push_role_entries(&mut entries, unit, &unit.optional_sources, FileRole::Source);
    }
    proof {
        if unit@.features.heavy {
            assert(role_entries(unit@, unit@.sources, FileRole::Source) + role_entries(
                unit@,
                unit@.optional_sources,
                FileRole::Source,
            ) =~= role_entries(unit@, selected_sources(unit@), FileRole::Source));
        }
    }
    push_role_entries(&mut entries, unit, &unit.auxiliary, FileRole::Auxiliary);
    proof {
        assert(entries_view(entries@) =~= plan_entries(unit@));
    }

    let mut compile_inputs: Vec<String> = Vec::new();
    proof {
        assert(strs_view(compile_inputs@) =~= Seq::<Seq<char>>::empty());
    }
    push_staged_paths(&mut compile_inputs, unit, &unit.sources);
    if unit.features.heavy {
        push_staged_paths(&mut compile_inputs, unit, &unit.optional_sources);
    }
    proof {
        assert(strs_view(compile_inputs@) =~= plan_compile_inputs(unit@));
    }

    StagingPlan {
        entries,
        compile_inputs,
        exported_header_root: join_path(unit.out_root.as_str(), "headers"),
        private_header_root: join_path(unit.out_root.as_str(), "private-headers"),
    }
}

/// Pairwise-distinct strings.
pub open spec fn distinct_seqs(s: Seq<Seq<char>>) -> bool {
    forall|i: int, j: int| 0 <= i < j < s.len() ==> s[i] != s[j]
}

/// A well-formed unit declaration: the relative paths staged under each
/// area are pairwise distinct (the three lists staged under the compilation
/// area jointly so), and the shared source tree and the isolated output
/// root do not overlap.
pub open spec fn unit_wf(u: UnitView) -> bool {
    &&& distinct_seqs(u.headers)
    &&& distinct_seqs(u.private_headers)
    &&& distinct_seqs(u.sources + u.optional_sources + u.auxiliary)
    &&& !is_prefix(u.source_root + seq!['/'], u.out_root + seq!['/'])
    &&& !is_prefix(u.out_root + seq!['/'], u.source_root + seq!['/'])
}

/// A collision-free plan: no two copies share a destination, and no
/// destination coincides with any watched original.
pub open spec fn plan_wf(es: Seq<EntryView>) -> bool {
    &&& forall|i: int, j: int| 0 <= i < j < es.len() ==> es[i].staged != es[j].staged
    &&& forall|i: int, j: int|
        0 <= i < es.len() && 0 <= j < es.len() ==> es[i].staged != es[j].original
}

/// The planned copy of one declared file.
pub open spec fn mk_entry(u: UnitView, role: FileRole, rel: Seq<char>) -> EntryView {
    EntryView { original: original_path(u, rel), staged: staged_path(u, role, rel), role }
}

/// Two staged destinations of one unit coincide only for one relative path
/// staged under one area.
proof fn lemma_staged_path_inj(
    u: UnitView,
    r1: FileRole,
    rel1: Seq<char>,
    r2: FileRole,
    rel2: Seq<char>,
)
    requires
        staged_path(u, r1, rel1) == staged_path(u, r2, rel2),
    ensures
        area_of(r1) == area_of(r2),
        rel1 == rel2,
{
    reveal_strlit("headers");
    reveal_strlit("private-headers");
    reveal_strlit("sources");
    let a1 = area_of(r1);
    let a2 = area_of(r2);
    let s1 = staged_path(u, r1, rel1);
    let s2 = staged_path(u, r2, rel2);
    let k = u.out_root.len() + 1;
    assert(a1.len() > 0 && a2.len() > 0);
    assert(s1[k as int] == a1[0]);
    assert(s2[k as int] == a2[0]);
    assert(a1[0] == a2[0]);
    assert(a1 == a2);
    let p = joined(joined(u.out_root, a1), u.namespace) + seq!['/'];
    assert(s1 =~= p + rel1);
    assert(s2 =~= p + rel2);
    crate::text::lemma_concat_cancel(p, rel1, rel2);
}

/// No staged destination of a unit coincides with any watched original,
/// because the output root and the source tree do not overlap.
proof fn lemma_staged_not_original(u: UnitView, role: FileRole, rel1: Seq<char>, rel2: Seq<char>)
    requires
        !is_prefix(u.source_root + seq!['/'], u.out_root + seq!['/']),
        !is_prefix(u.out_root + seq!['/'], u.source_root + seq!['/']),
    ensures
        staged_path(u, role, rel1) != original_path(u, rel2),
{
    reveal_strlit("headers");
    reveal_strlit("private-headers");
    reveal_strlit("sources");
    let o = u.out_root + seq!['/'];
    let s = u.source_root + seq!['/'];
    let sp = staged_path(u, role, rel1);
    let op = original_path(u, rel2);
    assert(is_prefix(o, sp)) by {
        assert(sp.take(o.len() as int) =~= o);
    }
    assert(is_prefix(s, op)) by {
        assert(op.take(s.len() as int) =~= s);
    }
    if sp == op {
        if o.len() <= s.len() {
            crate::text::lemma_prefix_of_common(o, s, sp);
        } else {
            crate::text::lemma_prefix_of_common(s, o, sp);
        }
        assert(false);
    }
}

/// Removing the middle list of a distinct concatenation keeps the rest
/// distinct.
proof fn lemma_distinct_drop_middle(a: Seq<Seq<char>>, b: Seq<Seq<char>>, c: Seq<Seq<char>>)
    requires
        distinct_seqs(a + b + c),
    ensures
        distinct_seqs(a + c),
{
    let whole = a + b + c;
    assert forall|i: int, j: int| 0 <= i < j < (a + c).len() implies (a + c)[i] != (a + c)[j] by {
        let i2 = if i < a.len() {
            i
        } else {
            i + b.len()
        };
        let j2 = if j < a.len() {
            j
        } else {
            j + b.len()
        };
        assert((a + c)[i] == whole[i2]);
        assert((a + c)[j] == whole[j2]);
        assert(whole[i2] != whole[j2]);
    }
}

/// Characterizes the planned copy at one index: which declared list it came
/// from, and under which role.
proof fn lemma_plan_entry(u: UnitView, i: int)
    requires
        0 <= i < plan_entries(u).len(),
    ensures
        ({
            let h = u.headers.len();
            let p = u.private_headers.len();
            let s = selected_sources(u).len();
            let comb = selected_sources(u) + u.auxiliary;
            &&& plan_entries(u).len() == h + p + comb.len()
            &&& (i < h ==> plan_entries(u)[i] == mk_entry(u, FileRole::Header, u.headers[i]))
            &&& (h <= i < h + p ==> plan_entries(u)[i] == mk_entry(
                u,
                FileRole::PrivateHeader,
                u.private_headers[i - h],
            ))
            &&& (h + p <= i < h + p + s ==> plan_entries(u)[i] == mk_entry(
                u,
                FileRole::Source,
                comb[i - h - p],
            ))
            &&& (h + p + s <= i ==> plan_entries(u)[i] == mk_entry(
                u,
                FileRole::Auxiliary,
                comb[i - h - p],
            ))
        }),
{
    let ha = role_entries(u, u.headers, FileRole::Header);
    let pa = role_entries(u, u.private_headers, FileRole::PrivateHeader);
    let sa = role_entries(u, selected_sources(u), FileRole::Source);
    let aa = role_entries(u, u.auxiliary, FileRole::Auxiliary);
    assert(plan_entries(u) == ha + pa + sa + aa);
    let h = u.headers.len();
    let p = u.private_headers.len();
    let s = selected_sources(u).len();
    if i < h {
        assert(plan_entries(u)[i] == ha[i]);
    } else if i < h + p {
        assert(plan_entries(u)[i] == pa[i - h]);
    } else if i < h + p + s {
        assert(plan_entries(u)[i] == sa[i - h - p]);
        assert((selected_sources(u) + u.auxiliary)[i - h - p] == selected_sources(u)[i - h
            - p]);
    } else {
        assert(plan_entries(u)[i] == aa[i - h - p - s]);
        assert((selected_sources(u) + u.auxiliary)[i - h - p] == u.auxiliary[i - h - p - s]);
    }
}

/// The staging-plan invariant: a well-formed unit declaration yields a plan
/// whose destinations never collide, neither with each other nor with any
/// watched original, and whose compilation inputs are pairwise distinct.
pub proof fn lemma_plan_wf(u: UnitView)
    requires
        unit_wf(u),
    ensures
        plan_wf(plan_entries(u)),
        distinct_seqs(plan_compile_inputs(u)),
{
    reveal_strlit("headers");
    reveal_strlit("private-headers");
    reveal_strlit("sources");
    let es = plan_entries(u);
    let h = u.headers.len();
    let p = u.private_headers.len();
    let s = selected_sources(u).len();
    let comb = selected_sources(u) + u.auxiliary;
    assert(distinct_seqs(comb)) by {
        if u.features.heavy {
            assert(comb =~= u.sources + u.optional_sources + u.auxiliary);
        } else {
            lemma_distinct_drop_middle(u.sources, u.optional_sources, u.auxiliary);
            assert(comb =~= u.sources + u.auxiliary);
        }
    }
    assert forall|i: int, j: int| 0 <= i < j < es.len() implies es[i].staged != es[j].staged by {
        lemma_plan_entry(u, i);
        lemma_plan_entry(u, j);
        if es[i].staged == es[j].staged {
            lemma_staged_path_inj(u, es[i].role, rel_at(u, i), es[j].role, rel_at(u, j));
            assert(rel_at(u, i) == rel_at(u, j));
            assert(area_of(es[i].role) == area_of(es[j].role));
            let seg_i: int = if i < h {
                0
            } else if i < h + p {
                1
            } else {
                2
            };
            let seg_j: int = if j < h {
                0
            } else if j < h + p {
                1
            } else {
                2
            };
            if seg_i == 0 && seg_j == 0 {
                assert(u.headers[i] != u.headers[j]);
            } else if seg_i == 1 && seg_j == 1 {
                assert(u.private_headers[i - h] != u.private_headers[j - h]);
            } else if seg_i == 2 && seg_j == 2 {
                assert(comb[i - h - p] != comb[j - h - p]);
            } else {
                lemma_areas_distinct();
            }
            assert(false);
        }
    }
    assert forall|i: int, j: int|
        0 <= i < es.len() && 0 <= j < es.len() implies es[i].staged != es[j].original by {
        lemma_plan_entry(u, i);
        lemma_plan_entry(u, j);
        lemma_staged_not_original(u, es[i].role, rel_at(u, i), rel_at(u, j));
    }
    assert forall|i: int, j: int|
        0 <= i < j < plan_compile_inputs(u).len() implies plan_compile_inputs(u)[i]
        != plan_compile_inputs(u)[j] by {
        let sel = selected_sources(u);
        assert(plan_compile_inputs(u)[i] == staged_path(u, FileRole::Source, sel[i]));
        assert(plan_compile_inputs(u)[j] == staged_path(u, FileRole::Source, sel[j]));
        assert(comb[i] == sel[i] && comb[j] == sel[j]);
        if plan_compile_inputs(u)[i] == plan_compile_inputs(u)[j] {
            lemma_staged_path_inj(u, FileRole::Source, sel[i], FileRole::Source, sel[j]);
            assert(false);
        }
    }
}

/// Feature gating: with the optional subset disabled, the compilation
/// inputs are exactly the base sources and none of the optional files is
/// staged or compiled; with it enabled, base and optional sources are all
/// compiled; either way no destination appears twice.
pub proof fn lemma_feature_gating(u: UnitView)
    requires
        unit_wf(u),
    ensures
        !u.features.heavy ==> plan_compile_inputs(u) == u.sources.map_values(
            |rel: Seq<char>| staged_path(u, FileRole::Source, rel),
        ),
        u.features.heavy ==> plan_compile_inputs(u) == (u.sources + u.optional_sources)
            .map_values(|rel: Seq<char>| staged_path(u, FileRole::Source, rel)),
        distinct_seqs(plan_compile_inputs(u)),
        !u.features.heavy ==> forall|k: int, j: int|
            0 <= k < u.optional_sources.len() && 0 <= j < plan_entries(u).len()
                ==> plan_entries(u)[j].staged != staged_path(
                u,
                FileRole::Source,
                u.optional_sources[k],
            ),
        !u.features.heavy ==> forall|k: int|
            0 <= k < u.optional_sources.len() ==> !plan_compile_inputs(u).contains(
                staged_path(u, FileRole::Source, u.optional_sources[k]),
            ),
{
    lemma_plan_wf(u);
    let big = u.sources + u.optional_sources + u.auxiliary;
    if !u.features.heavy {
        let h = u.headers.len();
        let p = u.private_headers.len();
        let comb = selected_sources(u) + u.auxiliary;
        assert forall|k: int, j: int|
            0 <= k < u.optional_sources.len() && 0 <= j < plan_entries(u).len()
                implies plan_entries(u)[j].staged != staged_path(
            u,
            FileRole::Source,
            u.optional_sources[k],
        ) by {
            let t = staged_path(u, FileRole::Source, u.optional_sources[k]);
            lemma_plan_entry(u, j);
            if plan_entries(u)[j].staged == t {
                lemma_staged_path_inj(
                    u,
                    plan_entries(u)[j].role,
                    rel_at(u, j),
                    FileRole::Source,
                    u.optional_sources[k],
                );
                if j < h + p {
                    lemma_areas_distinct();
                } else {
                    let m = j - h - p;
                    lemma_opt_not_in_comb(u, k, m);
                }
                assert(false);
            }
        }
        assert forall|k: int|
            0 <= k < u.optional_sources.len() implies !plan_compile_inputs(u).contains(
            staged_path(u, FileRole::Source, u.optional_sources[k]),
        ) by {
            let t = staged_path(u, FileRole::Source, u.optional_sources[k]);
            assert forall|m: int|
                0 <= m < plan_compile_inputs(u).len() implies plan_compile_inputs(u)[m]
                != t by {
                if plan_compile_inputs(u)[m] == t {
                    lemma_staged_path_inj(
                        u,
                        FileRole::Source,
                        selected_sources(u)[m],
                        FileRole::Source,
                        u.optional_sources[k],
                    );
                    assert(big[m] == u.sources[m]);
                    assert(big[u.sources.len() + k] == u.optional_sources[k]);
                    assert(false);
                }
            }
        }
    }
}

/// With the optional subset disabled, an optional file's relative path
/// differs from every path staged under the compilation area.
proof fn lemma_opt_not_in_comb(u: UnitView, k: int, m: int)
    requires
        distinct_seqs(u.sources + u.optional_sources + u.auxiliary),
        !u.features.heavy,
        0 <= k < u.optional_sources.len(),
        0 <= m < (selected_sources(u) + u.auxiliary).len(),
    ensures
        (selected_sources(u) + u.auxiliary)[m] != u.optional_sources[k],
{
    let big = u.sources + u.optional_sources + u.auxiliary;
    let comb = selected_sources(u) + u.auxiliary;
    let m2 = if m < u.sources.len() {
        m
    } else {
        m + u.optional_sources.len()
    };
    assert(comb[m] == big[m2]);
    assert(u.optional_sources[k] == big[u.sources.len() + k]);
    assert(m2 != u.sources.len() + k);
    assert(big[m2] != big[u.sources.len() + k]);
}

/// The three staging areas are pairwise distinct path segments.
proof fn lemma_areas_distinct()
    ensures
        area_of(FileRole::Header) != area_of(FileRole::PrivateHeader),
        area_of(FileRole::Header) != area_of(FileRole::Source),
        area_of(FileRole::PrivateHeader) != area_of(FileRole::Source),
        area_of(FileRole::Source) == area_of(FileRole::Auxiliary),
{
    reveal_strlit("headers");
    reveal_strlit("private-headers");
    reveal_strlit("sources");
    assert("headers"@.len() == 7);
    assert("private-headers"@.len() == 15);
    assert("sources"@.len() == 7);
    assert("headers"@[0] == 'h');
    assert("sources"@[0] == 's');
}

/// The relative path behind the planned copy at one index.
spec fn rel_at(u: UnitView, i: int) -> Seq<char> {
    let h = u.headers.len();
    let p = u.private_headers.len();
    if i < h {
        u.headers[i]
    } else if i < h + p {
        u.private_headers[i - h]
    } else {
        (selected_sources(u) + u.auxiliary)[i - h - p]
    }
}

} // verus!
