//! Config overlays: values attached to proto items by their fully qualified name.
//!
//! Overlays are written in two ways, by key (one value given to many targets) and by
//! target (many keys given to one target). Initializing a config folds the by-key
//! entries into the by-target table without overwriting anything already there.
use vstd::prelude::*;
use crate::str_map::{entries_map, keys_unique, lemma_entries_map_index, lemma_entries_map_keys, StrMap};
use crate::text::views;

verus! {

/// serde_yaml's `Value`, the type of overlay values, which Verus sees as opaque.
#[verifier::external_type_specification]
#[verifier::external_body]
pub struct ExYamlValue(serde_yaml::Value);

/// Copies an overlay value (`serde_yaml::Value::clone`, which is derived: the copy is
/// the same value).
#[verifier::external_body]
pub(crate) fn clone_value(v: &serde_yaml::Value) -> (r: serde_yaml::Value)
    ensures
        r == *v,
{
    v.clone()
}

/// A value and the targets it is given to.
pub struct ValueTargets {
    pub value: serde_yaml::Value,
    pub targets: Vec<String>,
}

/// The targets of a by-key entry, as text.
pub open spec fn targets_of(vt: ValueTargets) -> Seq<Seq<char>> {
    views(vt.targets@)
}

/// Whether the by-key table gives key `k` to target `t`.
pub open spec fn targeted(by_key: Map<Seq<char>, ValueTargets>, t: Seq<char>, k: Seq<char>) -> bool {
    by_key.contains_key(k) && targets_of(by_key[k]).contains(t)
}

/// Whether target `t` has key `k` in the by-target table.
pub open spec fn has_pair(by_target: Map<Seq<char>, Map<Seq<char>, serde_yaml::Value>>, t: Seq<char>, k: Seq<char>) -> bool {
    by_target.contains_key(t) && by_target[t].contains_key(k)
}

/// The by-target table once the by-key table is folded in: a target has a key where
/// the by-target table gives it or the by-key table does, and the by-target value wins.
pub open spec fn merged(
    by_key: Map<Seq<char>, ValueTargets>,
    by_target: Map<Seq<char>, Map<Seq<char>, serde_yaml::Value>>,
) -> Map<Seq<char>, Map<Seq<char>, serde_yaml::Value>> {
    Map::new(
        |t: Seq<char>| by_target.contains_key(t) || exists|k: Seq<char>| #[trigger] targeted(by_key, t, k),
        |t: Seq<char>|
            Map::new(
                |k: Seq<char>| has_pair(by_target, t, k) || targeted(by_key, t, k),
                |k: Seq<char>| if has_pair(by_target, t, k) { by_target[t][k] } else { by_key[k].value },
            ),
    )
}

/// The overlays of a renderer config.
pub struct OverlayConfig {
    by_key: StrMap<ValueTargets>,
    by_target: StrMap<StrMap<serde_yaml::Value>>,
    is_initialized: bool,
}

/// A table of tables, by text.
pub open spec fn table_view(m: Map<Seq<char>, StrMap<serde_yaml::Value>>) -> Map<Seq<char>, Map<Seq<char>, serde_yaml::Value>> {
    m.map_values(|inner: StrMap<serde_yaml::Value>| inner@)
}

impl OverlayConfig {
    /// The by-key table.
    pub closed spec fn by_key_view(&self) -> Map<Seq<char>, ValueTargets> {
        self.by_key@
    }

    /// The by-target table.
    pub closed spec fn by_target_view(&self) -> Map<Seq<char>, Map<Seq<char>, serde_yaml::Value>> {
        table_view(self.by_target@)
    }

    /// Whether the by-key table has been folded into the by-target table.
    pub closed spec fn initialized(&self) -> bool {
        self.is_initialized
    }

    /// A config without overlays.
    pub fn default() -> (r: Self)
        ensures
            r.by_key_view() == Map::<Seq<char>, ValueTargets>::empty(),
            r.by_target_view() == Map::<Seq<char>, Map<Seq<char>, serde_yaml::Value>>::empty(),
            !r.initialized(),
    {
        let r = OverlayConfig { by_key: StrMap::new(), by_target: StrMap::new(), is_initialized: false };
        assert(table_view(r.by_target@) =~= Map::<Seq<char>, Map<Seq<char>, serde_yaml::Value>>::empty());
        r
    }

    /// A config from its two tables, not yet initialized.
    pub fn from_tables(by_key: StrMap<ValueTargets>, by_target: StrMap<StrMap<serde_yaml::Value>>) -> (r: Self)
        ensures
            r.by_key_view() == by_key@,
            r.by_target_view() == table_view(by_target@),
            !r.initialized(),
    {
        OverlayConfig { by_key, by_target, is_initialized: false }
    }

    /// A config from its two tables, initialized.
    pub fn new(by_key: StrMap<ValueTargets>, by_target: StrMap<StrMap<serde_yaml::Value>>) -> (r: Self)
        ensures
            r.by_key_view() == by_key@,
            r.by_target_view() == merged(by_key@, table_view(by_target@)),
            r.initialized(),
    {
        let mut config = OverlayConfig { by_key, by_target, is_initialized: false };
        config.initialize();
        config
    }

    /// The by-target table.
    pub fn by_target_table(&self) -> (r: &StrMap<StrMap<serde_yaml::Value>>)
        ensures
            table_view(r@) == self.by_target_view(),
    {
        &self.by_target
    }

    /// Whether `initialize` has run.
    pub fn is_initialized(&self) -> (r: bool)
        ensures
            r == self.initialized(),
    {
        self.is_initialized
    }

    /// The by-key table.
    pub fn by_key(&self) -> (r: &StrMap<ValueTargets>)
        ensures
            r@ == self.by_key_view(),
    {
        &self.by_key
    }

    /// The overlays of `target`.
    pub fn by_target(&self, target: &str) -> (r: Option<&StrMap<serde_yaml::Value>>)
        ensures
            r matches Some(m) ==> self.by_target_view().contains_key(target@) && m@ == self.by_target_view()[target@],
            r is None ==> !self.by_target_view().contains_key(target@),
    {
        self.by_target.get(target)
    }

    /// A copy of the overlays of `target`; empty when there is no target or none for it.
    pub fn by_target_opt_clone(&self, target: &Option<String>) -> (r: StrMap<serde_yaml::Value>)
        ensures
            r@ == (match target {
                Some(t) => if self.by_target_view().contains_key(t@) {
                    self.by_target_view()[t@]
                } else {
                    Map::empty()
                },
                None => Map::empty(),
            }),
    {
        match target {
            None => StrMap::new(),
            Some(name) => match self.by_target(name.as_str()) {
                None => StrMap::new(),
                Some(m) => clone_table(m),
            },
        }
    }

    /// Folds the by-key table into the by-target table, once: every target of a by-key
    /// entry gets its key and value, unless the by-target table already gives that
    /// target that key.
    pub fn initialize(&mut self)
        ensures
            final(self).initialized(),
            final(self).by_key_view() == old(self).by_key_view(),
            old(self).initialized() ==> final(self).by_target_view() == old(self).by_target_view(),
            !old(self).initialized() ==> final(self).by_target_view()
                == merged(old(self).by_key_view(), old(self).by_target_view()),
    {
        if self.is_initialized {
            return;
        }
        self.is_initialized = true;
        let ghost by_key = self.by_key@;
        let ghost orig = table_view(self.by_target@);
        let entries = self.by_key.entries();
        let mut i: usize = 0;
        while i < entries.len()
            invariant
                i <= entries@.len(),
                keys_unique(entries@),
                by_key == entries_map(entries@),
                by_key == self.by_key@,
                self.is_initialized,
                folded_upto(table_view(self.by_target@), orig, entries@, i as int, 0),
            decreases entries.len() - i,
        {
            let key = &entries[i].0;
            let vt = &entries[i].1;
            let mut j: usize = 0;
            while j < vt.targets.len()
                invariant
                    i < entries@.len(),
                    j <= vt.targets@.len(),
                    key == &entries@[i as int].0,
                    vt == &entries@[i as int].1,
                    keys_unique(entries@),
                    by_key == entries_map(entries@),
                    by_key == self.by_key@,
                    self.is_initialized,
                    folded_upto(table_view(self.by_target@), orig, entries@, i as int, j as int),
                decreases vt.targets.len() - j,
            {
                let target = &vt.targets[j];
                let ghost before = table_view(self.by_target@);
                let ghost bt0 = self.by_target@;
                let mut inner = match self.by_target.remove(target.as_str()) {
                    Some(m) => m,
                    None => StrMap::new(),
                };
                let ghost inner0 = inner@;
                assert(inner0 == (if before.contains_key(target@) { before[target@] } else { Map::empty() }));
                if !inner.contains_key(key.as_str()) {
                    inner.insert(key.clone(), clone_value(&vt.value));
                }
                let ghost inner1 = inner@;
                self.by_target.insert(target.clone(), inner);
                assert(table_view(self.by_target@) =~= before.insert(target@, inner1));
                assert(target@ == targets_of(entries@[i as int].1)[j as int]);
                proof {
                    lemma_fold_step(before, table_view(self.by_target@), orig, entries@, i as int, j as int);
                }
                j = j + 1;
            }
            proof {
                lemma_fold_next_entry(table_view(self.by_target@), orig, entries@, i as int);
            }
            i = i + 1;
        }
        proof {
            lemma_fold_complete(table_view(self.by_target@), orig, entries@);
        }
    }
}

/// A copy of a table of overlay values.
fn clone_table(m: &StrMap<serde_yaml::Value>) -> (r: StrMap<serde_yaml::Value>)
    ensures
        r@ == m@,
{
    let entries = m.entries();
    let mut r: StrMap<serde_yaml::Value> = StrMap::new();
    let mut i: usize = 0;
    while i < entries.len()
        invariant
            i <= entries@.len(),
            m@ == entries_map(entries@),
            r@ == entries_map(entries@.take(i as int)),
        decreases entries.len() - i,
    {
        r.insert(entries[i].0.clone(), clone_value(&entries[i].1));
        assert(entries@.take(i + 1).drop_last() =~= entries@.take(i as int));
        i = i + 1;
    }
    assert(entries@.take(entries@.len() as int) =~= entries@);
    r
}

/// Whether the by-key pair (`t`, `k`) has been handled after the first `i` entries and
/// the first `j` targets of entry `i`.
pub open spec fn done_upto(entries: Seq<(String, ValueTargets)>, i: int, j: int, t: Seq<char>, k: Seq<char>) -> bool {
    ||| exists|e: int| 0 <= e < i && #[trigger] entries[e].0@ == k && targets_of(entries[e].1).contains(t)
    ||| (0 <= i < entries.len() && entries[i].0@ == k && targets_of(entries[i].1).take(j).contains(t))
}

/// What the by-target table holds after the pairs up to (`i`, `j`) are folded into `orig`.
pub open spec fn folded_upto(
    cur: Map<Seq<char>, Map<Seq<char>, serde_yaml::Value>>,
    orig: Map<Seq<char>, Map<Seq<char>, serde_yaml::Value>>,
    entries: Seq<(String, ValueTargets)>,
    i: int,
    j: int,
) -> bool {
    &&& forall|t: Seq<char>| #[trigger] cur.contains_key(t) <==> (orig.contains_key(t)
        || exists|k: Seq<char>| #[trigger] done_upto(entries, i, j, t, k))
    &&& forall|t: Seq<char>, k: Seq<char>| #[trigger] has_pair(cur, t, k) <==> (has_pair(orig, t, k)
        || done_upto(entries, i, j, t, k))
    &&& forall|t: Seq<char>, k: Seq<char>| #[trigger] has_pair(cur, t, k) ==> cur[t][k] == (if has_pair(orig, t, k) {
        orig[t][k]
    } else {
        entries_map(entries)[k].value
    })
}

proof fn lemma_fold_step(
    before: Map<Seq<char>, Map<Seq<char>, serde_yaml::Value>>,
    after: Map<Seq<char>, Map<Seq<char>, serde_yaml::Value>>,
    orig: Map<Seq<char>, Map<Seq<char>, serde_yaml::Value>>,
    entries: Seq<(String, ValueTargets)>,
    i: int,
    j: int,
)
    requires
        keys_unique(entries),
        0 <= i < entries.len(),
        0 <= j < targets_of(entries[i].1).len(),
        folded_upto(before, orig, entries, i, j),
        ({
            let t = targets_of(entries[i].1)[j];
            let k = entries[i].0@;
            let inner = if before.contains_key(t) { before[t] } else { Map::empty() };
            after == before.insert(t, if inner.contains_key(k) { inner } else { inner.insert(k, entries[i].1.value) })
        }),
    ensures
        folded_upto(after, orig, entries, i, j + 1),
{
    let t0 = targets_of(entries[i].1)[j];
    let k0 = entries[i].0@;
    lemma_entries_map_index(entries, i);
    assert(targets_of(entries[i].1).take(j + 1) =~= targets_of(entries[i].1).take(j).push(t0));
    assert(targets_of(entries[i].1).take(j + 1)[j] == t0);
    assert(done_upto(entries, i, j + 1, t0, k0));
    assert forall|t: Seq<char>, k: Seq<char>| done_upto(entries, i, j + 1, t, k)
        <==> (done_upto(entries, i, j, t, k) || (t == t0 && k == k0)) by {
        if done_upto(entries, i, j + 1, t, k) && !(t == t0 && k == k0) {
            if !(exists|e: int| 0 <= e < i && #[trigger] entries[e].0@ == k && targets_of(entries[e].1).contains(t)) {
                let n = choose|n: int| 0 <= n < targets_of(entries[i].1).take(j + 1).len()
                    && #[trigger] targets_of(entries[i].1).take(j + 1)[n] == t;
                assert(n != j);
                assert(targets_of(entries[i].1).take(j)[n] == t);
            }
        }
        if done_upto(entries, i, j, t, k) {
            if !(exists|e: int| 0 <= e < i && #[trigger] entries[e].0@ == k && targets_of(entries[e].1).contains(t)) {
                let n = choose|n: int| 0 <= n < targets_of(entries[i].1).take(j).len()
                    && #[trigger] targets_of(entries[i].1).take(j)[n] == t;
                assert(targets_of(entries[i].1).take(j + 1)[n] == t);
            }
        }
    }
    assert forall|t: Seq<char>| #[trigger] after.contains_key(t) <==> (orig.contains_key(t)
        || exists|k: Seq<char>| #[trigger] done_upto(entries, i, j + 1, t, k)) by {
        if t == t0 {
            assert(done_upto(entries, i, j + 1, t, k0));
        } else {
            if exists|k: Seq<char>| #[trigger] done_upto(entries, i, j + 1, t, k) {
                let k = choose|k: Seq<char>| #[trigger] done_upto(entries, i, j + 1, t, k);
                assert(done_upto(entries, i, j, t, k));
            }
            if exists|k: Seq<char>| #[trigger] done_upto(entries, i, j, t, k) {
                let k = choose|k: Seq<char>| #[trigger] done_upto(entries, i, j, t, k);
                assert(done_upto(entries, i, j + 1, t, k));
            }
        }
    }
    assert forall|t: Seq<char>, k: Seq<char>| #[trigger] has_pair(after, t, k) <==> (has_pair(orig, t, k)
        || done_upto(entries, i, j + 1, t, k)) by {
        if t == t0 && k == k0 {
        } else {
            assert(has_pair(after, t, k) == has_pair(before, t, k));
        }
    }
    assert forall|t: Seq<char>, k: Seq<char>| #[trigger] has_pair(after, t, k) implies after[t][k] == (if has_pair(orig, t, k) {
        orig[t][k]
    } else {
        entries_map(entries)[k].value
    }) by {
        if t == t0 && k == k0 && !has_pair(before, t, k) {
            assert(!has_pair(orig, t, k));
        } else {
            assert(has_pair(before, t, k));
            assert(after[t][k] == before[t][k]);
        }
    }
}

proof fn lemma_fold_next_entry(
    cur: Map<Seq<char>, Map<Seq<char>, serde_yaml::Value>>,
    orig: Map<Seq<char>, Map<Seq<char>, serde_yaml::Value>>,
    entries: Seq<(String, ValueTargets)>,
    i: int,
)
    requires
        0 <= i < entries.len(),
        folded_upto(cur, orig, entries, i, targets_of(entries[i].1).len() as int),
    ensures
        folded_upto(cur, orig, entries, i + 1, 0),
{
    let n = targets_of(entries[i].1).len() as int;
    assert(targets_of(entries[i].1).take(n) =~= targets_of(entries[i].1));
    assert forall|t: Seq<char>, k: Seq<char>| done_upto(entries, i + 1, 0, t, k)
        <==> done_upto(entries, i, n, t, k) by {
        if done_upto(entries, i, n, t, k) {
            if !(exists|e: int| 0 <= e < i && #[trigger] entries[e].0@ == k && targets_of(entries[e].1).contains(t)) {
                assert(entries[i].0@ == k && targets_of(entries[i].1).contains(t));
            }
        }
        if done_upto(entries, i + 1, 0, t, k) {
            let e = choose|e: int| 0 <= e < i + 1 && #[trigger] entries[e].0@ == k && targets_of(entries[e].1).contains(t);
            if e == i {
                assert(targets_of(entries[i].1).take(n).contains(t));
            }
        }
    }
    assert forall|t: Seq<char>| #[trigger] cur.contains_key(t) <==> (orig.contains_key(t)
        || exists|k: Seq<char>| #[trigger] done_upto(entries, i + 1, 0, t, k)) by {
        if exists|k: Seq<char>| #[trigger] done_upto(entries, i + 1, 0, t, k) {
            let k = choose|k: Seq<char>| #[trigger] done_upto(entries, i + 1, 0, t, k);
            assert(done_upto(entries, i, n, t, k));
        }
        if exists|k: Seq<char>| #[trigger] done_upto(entries, i, n, t, k) {
            let k = choose|k: Seq<char>| #[trigger] done_upto(entries, i, n, t, k);
            assert(done_upto(entries, i + 1, 0, t, k));
        }
    }
}

proof fn lemma_fold_complete(
    cur: Map<Seq<char>, Map<Seq<char>, serde_yaml::Value>>,
    orig: Map<Seq<char>, Map<Seq<char>, serde_yaml::Value>>,
    entries: Seq<(String, ValueTargets)>,
)
    requires
        keys_unique(entries),
        folded_upto(cur, orig, entries, entries.len() as int, 0),
    ensures
        cur == merged(entries_map(entries), orig),
{
    let by_key = entries_map(entries);
    let len = entries.len() as int;
    assert forall|t: Seq<char>, k: Seq<char>| done_upto(entries, len, 0, t, k) <==> targeted(by_key, t, k) by {
        lemma_entries_map_keys(entries, k);
        if done_upto(entries, len, 0, t, k) {
            let e = choose|e: int| 0 <= e < len && #[trigger] entries[e].0@ == k && targets_of(entries[e].1).contains(t);
            lemma_entries_map_index(entries, e);
        }
        if targeted(by_key, t, k) {
            let e = choose|e: int| 0 <= e < entries.len() && #[trigger] entries[e].0@ == k;
            lemma_entries_map_index(entries, e);
            assert(entries[e].0@ == k && targets_of(entries[e].1).contains(t));
        }
    }
    let m = merged(by_key, orig);
    assert forall|t: Seq<char>| cur.contains_key(t) <==> m.contains_key(t) by {
        if exists|k: Seq<char>| #[trigger] done_upto(entries, len, 0, t, k) {
            let k = choose|k: Seq<char>| #[trigger] done_upto(entries, len, 0, t, k);
            assert(targeted(by_key, t, k));
        }
        if exists|k: Seq<char>| #[trigger] targeted(by_key, t, k) {
            let k = choose|k: Seq<char>| #[trigger] targeted(by_key, t, k);
            assert(done_upto(entries, len, 0, t, k));
        }
    }
    assert forall|t: Seq<char>| cur.contains_key(t) implies #[trigger] cur[t] =~= m[t] by {
        assert forall|k: Seq<char>| cur[t].contains_key(k) <==> m[t].contains_key(k) by {
            assert(has_pair(cur, t, k) == cur[t].contains_key(k));
        }
        assert forall|k: Seq<char>| cur[t].contains_key(k) implies cur[t][k] == m[t][k] by {
            assert(has_pair(cur, t, k));
        }
    }
    assert(cur =~= m);
}

/// Initializing twice is initializing once: the folded table is a fixed point of
/// folding the same by-key table in again.
pub proof fn lemma_merged_idempotent(
    by_key: Map<Seq<char>, ValueTargets>,
    by_target: Map<Seq<char>, Map<Seq<char>, serde_yaml::Value>>,
)
    ensures
        merged(by_key, merged(by_key, by_target)) == merged(by_key, by_target),
{
    let once = merged(by_key, by_target);
    let twice = merged(by_key, once);
    assert forall|t: Seq<char>| twice.contains_key(t) <==> once.contains_key(t) by {}
    assert forall|t: Seq<char>| twice.contains_key(t) implies #[trigger] twice[t] =~= once[t] by {
        assert forall|k: Seq<char>| twice[t].contains_key(k) <==> once[t].contains_key(k) by {
            assert(has_pair(once, t, k) == once[t].contains_key(k));
        }
    }
    assert(twice =~= once);
}

/// A value written for a target by target is what that target gets after
/// initialization, whatever the by-key table says.
pub proof fn lemma_by_target_overrides_by_key(
    by_key: Map<Seq<char>, ValueTargets>,
    by_target: Map<Seq<char>, Map<Seq<char>, serde_yaml::Value>>,
    t: Seq<char>,
    k: Seq<char>,
)
    requires
        has_pair(by_target, t, k),
    ensures
        has_pair(merged(by_key, by_target), t, k),
        merged(by_key, by_target)[t][k] == by_target[t][k],
{
}

/// A value given by key to a target that has no value for that key by target is what
/// that target gets after initialization.
pub proof fn lemma_by_key_fills_in(
    by_key: Map<Seq<char>, ValueTargets>,
    by_target: Map<Seq<char>, Map<Seq<char>, serde_yaml::Value>>,
    t: Seq<char>,
    k: Seq<char>,
)
    requires
        targeted(by_key, t, k),
        !has_pair(by_target, t, k),
    ensures
        has_pair(merged(by_key, by_target), t, k),
        merged(by_key, by_target)[t][k] == by_key[k].value,
{
    assert(merged(by_key, by_target).contains_key(t));
}

} // verus!
