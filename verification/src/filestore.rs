//! An in-memory path-to-bytes store, and the staging executor over it.
//! The store gives staging an exact meaning — a map from text paths to byte
//! contents — against which the copy loop is verified; the build-script
//! front end replays the same plan, in the same order and with the same
//! abort rule, against the real filesystem.

use vstd::prelude::*;
use vstd::string::*;
use crate::error::BuildError;
use crate::staging::{entries_view, plan_wf, EntryView, StagingPlan};
use crate::text::{str_copy, str_eq};

verus! {

/// The map a list of `(path, contents)` entries denotes; later entries win.
pub open spec fn store_map(es: Seq<(String, Vec<u8>)>) -> Map<Seq<char>, Seq<u8>>
    decreases es.len(),
{
    if es.len() == 0 {
        Map::empty()
    } else {
        store_map(es.drop_last()).insert(es.last().0@, es.last().1@)
    }
}

/// A store of file contents keyed by text path.  Writes append; reads see
/// the latest write of a path.
pub struct FileStore {
    entries: Vec<(String, Vec<u8>)>,
}

impl View for FileStore {
    type V = Map<Seq<char>, Seq<u8>>;

    closed spec fn view(&self) -> Map<Seq<char>, Seq<u8>> {
        store_map(self.entries@)
    }
}

/// The latest entry holding a key gives that key's mapped contents.
proof fn lemma_store_map_last(es: Seq<(String, Vec<u8>)>, i: int, k: Seq<char>)
    requires
        0 <= i < es.len(),
        es[i].0@ == k,
        forall|j: int| i < j < es.len() ==> (#[trigger] es[j].0)@ != k,
    ensures
        store_map(es).contains_key(k),
        store_map(es)[k] == es[i].1@,
    decreases es.len(),
{
    if i + 1 == es.len() {
    } else {
        assert(es[es.len() - 1].0@ != k);
        assert(es.drop_last()[i] == es[i]);
        assert(forall|j: int|
            i < j < es.drop_last().len() ==> (#[trigger] es.drop_last()[j].0)@ != k);
        lemma_store_map_last(es.drop_last(), i, k);
    }
}

/// A key under none of the entries is absent from the map.
proof fn lemma_store_map_absent(es: Seq<(String, Vec<u8>)>, k: Seq<char>)
    requires
        forall|a: int| 0 <= a < es.len() ==> (#[trigger] es[a].0)@ != k,
    ensures
        !store_map(es).contains_key(k),
    decreases es.len(),
{
    if es.len() > 0 {
        assert(forall|a: int|
            0 <= a < es.drop_last().len() ==> (#[trigger] es.drop_last()[a].0)@ != k);
        lemma_store_map_absent(es.drop_last(), k);
    }
}

/// A byte-for-byte copy.
fn bytes_copy(v: &Vec<u8>) -> (r: Vec<u8>)
    ensures
        r@ == v@,
{
    let mut r: Vec<u8> = Vec::new();
    let n = v.len();
    let mut i: usize = 0;
    while i < n
        invariant
            n == v.len(),
            i <= n,
            r@ == v@.take(i as int),
        decreases n - i,
    {
        r.push(v[i]);
        proof {
            assert(r@ =~= v@.take(i + 1));
        }
        i += 1;
    }
    proof {
        assert(v@.take(n as int) =~= v@);
    }
    r
}

impl FileStore {
    /// An empty store.
    pub fn new() -> (s: FileStore)
        ensures
            s@ == Map::<Seq<char>, Seq<u8>>::empty(),
    {
        FileStore { entries: Vec::new() }
    }

    /// The index of the latest entry holding `path`, if any.
    fn find_last(&self, path: &str) -> (r: Option<usize>)
        ensures
            match r {
                Some(i) => i < self.entries@.len() && self.entries@[i as int].0@ == path@
                    && forall|j: int|
                    i < j < self.entries@.len() ==> (#[trigger] self.entries@[j].0)@ != path@,
                None => forall|a: int|
                    0 <= a < self.entries@.len() ==> (#[trigger] self.entries@[a].0)@ != path@,
            },
    {
        let mut i = self.entries.len();
        while i > 0
            invariant
                i <= self.entries@.len(),
                forall|j: int|
                    i <= j < self.entries@.len() ==> (#[trigger] self.entries@[j].0)@ != path@,
            decreases i,
        {
            i -= 1;
            if str_eq(self.entries[i].0.as_str(), path) {
                return Some(i);
            }
        }
        None
    }

    /// The contents at `path`, if present.
    pub fn read(&self, path: &str) -> (r: Option<Vec<u8>>)
        ensures
            match r {
                Some(d) => self@.contains_key(path@) && d@ == self@[path@],
                None => !self@.contains_key(path@),
            },
    {
        match self.find_last(path) {
            Some(i) => {
                proof {
                    lemma_store_map_last(self.entries@, i as int, path@);
                }
                Some(bytes_copy(&self.entries[i].1))
            },
            None => {
                proof {
                    lemma_store_map_absent(self.entries@, path@);
                }
                None
            },
        }
    }

    /// Whether `path` is present.
    pub fn contains(&self, path: &str) -> (r: bool)
        ensures
            r == self@.contains_key(path@),
    {
        self.read(path).is_some()
    }

    /// Stores `data` at `path`, replacing any previous contents.
    pub fn write(&mut self, path: &str, data: Vec<u8>)
        ensures
            final(self)@ == old(self)@.insert(path@, data@),
    {
        self.entries.push((str_copy(path), data));
        proof {
            assert(self.entries@.drop_last() =~= old(self).entries@);
        }
    }
}

/// The effect of staging a planned copy list over a store, in order: each
/// copy reads the original and writes its bytes to the staged destination;
/// the first missing original stops everything after it and is reported.
pub open spec fn stage_outcome(fs0: Map<Seq<char>, Seq<u8>>, es: Seq<EntryView>) -> (
    Map<Seq<char>, Seq<u8>>,
    Option<Seq<char>>,
)
    decreases es.len(),
{
    if es.len() == 0 {
        (fs0, None)
    } else {
        let e = es.first();
        if fs0.contains_key(e.original) {
            stage_outcome(fs0.insert(e.staged, fs0[e.original]), es.drop_first())
        } else {
            (fs0, Some(e.original))
        }
    }
}

/// Stages every planned copy, in plan order: for each entry the original's
/// bytes are copied to the staged destination; a missing original aborts
/// immediately with [`BuildError::FilesystemFailure`] naming it, leaving
/// every earlier copy in place and every later entry unprocessed.
pub fn stage_all(fs: &mut FileStore, plan: &StagingPlan) -> (r: Result<(), BuildError>)
    ensures
        ({
            let o = stage_outcome(old(fs)@, entries_view(plan.entries@));
            &&& final(fs)@ == o.0
            &&& match r {
                Ok(_) => o.1 is None,
                Err(e) => o.1 is Some && (e matches BuildError::FilesystemFailure { path }
                    && path@ == o.1.unwrap()),
            }
        }),
{
    let ghost ev = entries_view(plan.entries@);
    let n = plan.entries.len();
    proof {
        assert(ev.skip(0) =~= ev);
    }
    let mut i: usize = 0;
    while i < n
        invariant
            n == plan.entries@.len(),
            ev == entries_view(plan.entries@),
            i <= n,
            stage_outcome(fs@, ev.skip(i as int)) == stage_outcome(old(fs)@, ev),
        decreases n - i,
    {
        let entry = &plan.entries[i];
        let ghost rest = ev.skip(i as int);
        proof {
            assert(rest.first() == ev[i as int]);
            assert(ev[i as int] == entry@);
            assert(rest.drop_first() =~= ev.skip(i + 1));
        }
        match fs.read(entry.original.as_str()) {
            Some(data) => {
                fs.write(entry.staged.as_str(), data);
            },
            None => {
                return Err(
                    BuildError::FilesystemFailure { path: str_copy(entry.original.as_str()) },
                );
            },
        }
        i += 1;
    }
    proof {
        assert(ev.skip(n as int) =~= Seq::<EntryView>::empty());
    }
    Ok(())
}

/// With every original present and a collision-free plan, staging reaches
/// every entry: each destination exists afterwards and holds exactly its
/// original's bytes; paths that are no destination keep their prior
/// contents, and nothing else appears.
pub proof fn lemma_stage_complete(fs0: Map<Seq<char>, Seq<u8>>, es: Seq<EntryView>)
    requires
        plan_wf(es),
        forall|i: int| 0 <= i < es.len() ==> fs0.contains_key(#[trigger] es[i].original),
    ensures
        ({
            let o = stage_outcome(fs0, es);
            &&& o.1 is None
            &&& forall|i: int|
                0 <= i < es.len() ==> o.0.contains_key(#[trigger] es[i].staged)
                    && o.0[es[i].staged] == fs0[es[i].original]
            &&& forall|k: Seq<char>|
                #[trigger] o.0.contains_key(k) <==> fs0.contains_key(k) || exists|i: int|
                    0 <= i < es.len() && es[i].staged == k
            &&& forall|k: Seq<char>|
                fs0.contains_key(k) && !(exists|i: int| 0 <= i < es.len() && es[i].staged == k)
                    ==> #[trigger] o.0[k] == fs0[k]
        }),
    decreases es.len(),
{
    if es.len() > 0 {
        let e = es.first();
        let fs1 = fs0.insert(e.staged, fs0[e.original]);
        let rest = es.drop_first();
        assert(forall|i: int| 0 <= i < rest.len() ==> rest[i] == es[i + 1]);
        assert(plan_wf(rest));
        assert(forall|i: int|
            0 <= i < rest.len() ==> fs1.contains_key(#[trigger] rest[i].original)
                && fs1[rest[i].original] == fs0[rest[i].original]);
        lemma_stage_complete(fs1, rest);
        let o = stage_outcome(fs0, es);
        assert(o == stage_outcome(fs1, rest));
        assert forall|i: int|
            0 <= i < es.len() implies o.0.contains_key(#[trigger] es[i].staged)
            && o.0[es[i].staged] == fs0[es[i].original] by {
            if i == 0 {
                assert(fs1.contains_key(e.staged));
                assert(!(exists|j: int| 0 <= j < rest.len() && rest[j].staged == e.staged));
                assert(o.0[e.staged] == fs1[e.staged]);
            } else {
                assert(es[i] == rest[i - 1]);
            }
        }
        assert forall|k: Seq<char>|
            #[trigger] o.0.contains_key(k) <==> fs0.contains_key(k) || exists|i: int|
                0 <= i < es.len() && es[i].staged == k by {
            if o.0.contains_key(k) {
                if fs1.contains_key(k) && !fs0.contains_key(k) {
                    assert(es[0].staged == k);
                }
                if !fs1.contains_key(k) {
                    let j = choose|j: int| 0 <= j < rest.len() && rest[j].staged == k;
                    assert(es[j + 1].staged == k);
                }
            }
            if fs0.contains_key(k) {
                assert(fs1.contains_key(k));
            }
            if exists|i: int| 0 <= i < es.len() && es[i].staged == k {
                let i = choose|i: int| 0 <= i < es.len() && es[i].staged == k;
                if i == 0 {
                    assert(fs1.contains_key(k));
                } else {
                    assert(rest[i - 1].staged == k);
                }
            }
        }
        assert forall|k: Seq<char>|
            fs0.contains_key(k) && !(exists|i: int| 0 <= i < es.len() && es[i].staged == k)
            implies #[trigger] o.0[k] == fs0[k] by {
            assert(k != e.staged);
            assert(fs1[k] == fs0[k]);
            assert(!(exists|j: int| 0 <= j < rest.len() && rest[j].staged == k)) by {
                if exists|j: int| 0 <= j < rest.len() && rest[j].staged == k {
                    let j = choose|j: int| 0 <= j < rest.len() && rest[j].staged == k;
                    assert(es[j + 1].staged == k);
                }
            }
        }
    }
}

/// Staging a plan whose copies are already in place changes nothing.
proof fn lemma_stage_noop(m: Map<Seq<char>, Seq<u8>>, es: Seq<EntryView>)
    requires
        forall|i: int|
            0 <= i < es.len() ==> m.contains_key(#[trigger] es[i].original) && m.contains_key(
                es[i].staged,
            ) && m[es[i].staged] == m[es[i].original],
    ensures
        stage_outcome(m, es) == (m, None::<Seq<char>>),
    decreases es.len(),
{
    if es.len() > 0 {
        let e = es.first();
        assert(m.insert(e.staged, m[e.original]) =~= m);
        let rest = es.drop_first();
        assert(forall|i: int| 0 <= i < rest.len() ==> rest[i] == es[i + 1]);
        lemma_stage_noop(m, rest);
    }
}

/// Staging the same declared set twice overwrites without duplication or
/// residue: the second run reproduces the first run's store exactly.
pub proof fn lemma_stage_idempotent(fs0: Map<Seq<char>, Seq<u8>>, es: Seq<EntryView>)
    requires
        plan_wf(es),
        forall|i: int| 0 <= i < es.len() ==> fs0.contains_key(#[trigger] es[i].original),
    ensures
        stage_outcome(stage_outcome(fs0, es).0, es) == (
            stage_outcome(fs0, es).0,
            None::<Seq<char>>,
        ),
{
    lemma_stage_complete(fs0, es);
    let m = stage_outcome(fs0, es).0;
    assert forall|i: int|
        0 <= i < es.len() implies m.contains_key(#[trigger] es[i].original) && m.contains_key(
        es[i].staged,
    ) && m[es[i].staged] == m[es[i].original] by {
        assert(!(exists|j: int| 0 <= j < es.len() && es[j].staged == es[i].original));
        assert(m[es[i].original] == fs0[es[i].original]);
    }
    lemma_stage_noop(m, es);
}

/// A missing original aborts staging at the first entry that needs it: that
/// entry's original is reported, every earlier copy is in place and not
/// rolled back, and no later entry is processed.
pub proof fn lemma_stage_aborts_at_first_missing(
    fs0: Map<Seq<char>, Seq<u8>>,
    es: Seq<EntryView>,
    k: int,
)
    requires
        plan_wf(es),
        0 <= k < es.len(),
        !fs0.contains_key(es[k].original),
        forall|i: int| 0 <= i < k ==> fs0.contains_key(#[trigger] es[i].original),
    ensures
        ({
            let o = stage_outcome(fs0, es);
            &&& o.1 == Some(es[k].original)
            &&& forall|i: int|
                0 <= i < k ==> o.0.contains_key(#[trigger] es[i].staged) && o.0[es[i].staged]
                    == fs0[es[i].original]
            &&& forall|key: Seq<char>|
                #[trigger] o.0.contains_key(key) <==> fs0.contains_key(key) || exists|i: int|
                    0 <= i < k && es[i].staged == key
            &&& forall|key: Seq<char>|
                fs0.contains_key(key) && !(exists|i: int| 0 <= i < k && es[i].staged == key)
                    ==> #[trigger] o.0[key] == fs0[key]
        }),
    decreases k,
{
    let o = stage_outcome(fs0, es);
    let e = es.first();
    let rest = es.drop_first();
    assert(forall|i: int| 0 <= i < rest.len() ==> rest[i] == es[i + 1]);
    if k == 0 {
        assert(o.0 == fs0);
        assert forall|key: Seq<char>|
            #[trigger] o.0.contains_key(key) <==> fs0.contains_key(key) || exists|i: int|
                0 <= i < k && es[i].staged == key by {}
    } else {
        let fs1 = fs0.insert(e.staged, fs0[e.original]);
        assert(plan_wf(rest));
        assert(!fs1.contains_key(rest[k - 1].original));
        assert(forall|i: int|
            0 <= i < k - 1 ==> fs1.contains_key(#[trigger] rest[i].original));
        lemma_stage_aborts_at_first_missing(fs1, rest, k - 1);
        assert(o == stage_outcome(fs1, rest));
        let o1 = stage_outcome(fs1, rest);
        assert forall|i: int|
            0 <= i < k implies o.0.contains_key(#[trigger] es[i].staged) && o.0[es[i].staged]
            == fs0[es[i].original] by {
            if i == 0 {
                assert(fs1.contains_key(e.staged));
                assert(!(exists|j: int| 0 <= j < k - 1 && rest[j].staged == e.staged)) by {
                    if exists|j: int| 0 <= j < k - 1 && rest[j].staged == e.staged {
                        let j = choose|j: int| 0 <= j < k - 1 && rest[j].staged == e.staged;
                        assert(es[j + 1].staged == es[0].staged);
                    }
                }
                assert(o1.0[e.staged] == fs1[e.staged]);
            } else {
                assert(es[i] == rest[i - 1]);
                assert(fs1[rest[i - 1].original] == fs0[rest[i - 1].original]);
            }
        }
        assert forall|key: Seq<char>|
            fs0.contains_key(key) && !(exists|i: int| 0 <= i < k && es[i].staged == key)
            implies #[trigger] o.0[key] == fs0[key] by {
            assert(es[0].staged != key);
            assert(fs1.contains_key(key) && fs1[key] == fs0[key]);
            assert(!(exists|j: int| 0 <= j < k - 1 && rest[j].staged == key)) by {
                if exists|j: int| 0 <= j < k - 1 && rest[j].staged == key {
                    let j = choose|j: int| 0 <= j < k - 1 && rest[j].staged == key;
                    assert(es[j + 1].staged == key);
                }
            }
        }
        assert forall|key: Seq<char>|
            #[trigger] o.0.contains_key(key) <==> fs0.contains_key(key) || exists|i: int|
                0 <= i < k && es[i].staged == key by {
            if o.0.contains_key(key) {
                if fs1.contains_key(key) && !fs0.contains_key(key) {
                    assert(es[0].staged == key);
                }
                if !fs1.contains_key(key) {
                    let j = choose|j: int| 0 <= j < k - 1 && rest[j].staged == key;
                    assert(es[j + 1].staged == key);
                }
            }
            if fs0.contains_key(key) {
                assert(fs1.contains_key(key));
            }
            if exists|i: int| 0 <= i < k && es[i].staged == key {
                let i = choose|i: int| 0 <= i < k && es[i].staged == key;
                if i == 0 {
                    assert(fs1.contains_key(key));
                } else {
                    assert(rest[i - 1].staged == key);
                }
            }
        }
    }
}

} // verus!
