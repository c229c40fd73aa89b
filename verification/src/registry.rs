//! The registry of module instances that a server runs.

use vstd::prelude::*;
use vstd::std_specs::btree::increasing_seq;
use vstd::std_specs::cmp::OrdSpec;
use vstd::std_specs::iter::IteratorSpec;
use vstd::string::StringExecFns;
use std::collections::BTreeMap;
use crate::api::decimal;
use crate::api::decimal_string;
use crate::types::ModuleInstanceId;
use crate::types::ModuleKind;

verus! {

broadcast use vstd::std_specs::btree::group_btree_axioms;

/// The prefix of the keys under which the module instance `id` keeps its
/// state in the database: `module/<id>/`.
pub open spec fn spec_database_prefix(id: ModuleInstanceId) -> Seq<char> {
    "module/"@ + decimal(id as nat) + "/"@
}

/// The prefix of the keys under which the module instance `id` keeps its
/// state in the database.
pub fn database_prefix(id: ModuleInstanceId) -> (prefix: String)
    ensures
        prefix@ == spec_database_prefix(id),
{
    let mut prefix = String::from_str("module/");
    let digits = decimal_string(id);
    prefix.append(digits.as_str());
    prefix.append("/");
    assert(prefix@ =~= spec_database_prefix(id));
    prefix
}

/// One registered module instance.
#[derive(Debug, Clone, PartialEq, Eq)]
pub struct ModuleEntry {
    pub id: ModuleInstanceId,
    pub kind: ModuleKind,
}

/// The module instances of a server, ordered by instance id.
///
/// The registry is filled once, while the server starts, and only read
/// afterwards; nothing is ever removed from it.
pub struct ModuleRegistry {
    modules: BTreeMap<ModuleInstanceId, ModuleKind>,
}

/// Whether the ids of `entries` strictly increase from front to back.
pub open spec fn ids_increase(entries: Seq<ModuleEntry>) -> bool {
    forall|i: int, j: int| 0 <= i < j < entries.len() ==> entries[i].id < entries[j].id
}

/// One more than the greatest instance id.
pub open spec fn id_limit() -> nat {
    65536
}

/// The modules of `modules` with an id below `limit`, by increasing id.
pub open spec fn entries_below(modules: Map<ModuleInstanceId, ModuleKind>, limit: nat) -> Seq<ModuleEntry>
    decreases limit,
{
    if limit == 0 {
        Seq::<ModuleEntry>::empty()
    } else {
        let before = entries_below(modules, (limit - 1) as nat);
        let id = (limit - 1) as ModuleInstanceId;
        if modules.contains_key(id) {
            before.push(ModuleEntry { id, kind: modules[id] })
        } else {
            before
        }
    }
}

/// `entries_below` lists exactly the modules with an id below the limit,
/// each once and with its kind, by increasing id.
pub proof fn lemma_entries_below(modules: Map<ModuleInstanceId, ModuleKind>, limit: nat)
    requires
        limit <= id_limit(),
    ensures
        ids_increase(entries_below(modules, limit)),
        forall|i: int|
            0 <= i < entries_below(modules, limit).len() ==> {
                let e = #[trigger] entries_below(modules, limit)[i];
                e.id < limit && modules.contains_key(e.id) && e.kind == modules[e.id]
            },
        forall|id: ModuleInstanceId|
            id < limit && modules.contains_key(id) ==> exists|i: int|
                0 <= i < entries_below(modules, limit).len() && #[trigger] entries_below(
                    modules,
                    limit,
                )[i].id == id,
    decreases limit,
{
    if limit > 0 {
        let before = entries_below(modules, (limit - 1) as nat);
        let all = entries_below(modules, limit);
        let last = (limit - 1) as ModuleInstanceId;
        lemma_entries_below(modules, (limit - 1) as nat);
        assert forall|i: int, j: int| 0 <= i < j < all.len() implies all[i].id < all[j].id by {
            if j < before.len() {
                assert(before[i].id < before[j].id);
            } else {
                assert(all[i] == before[i]);
            }
        }
        assert forall|i: int| 0 <= i < all.len() implies {
            let e = #[trigger] all[i];
            e.id < limit && modules.contains_key(e.id) && e.kind == modules[e.id]
        } by {
            if i < before.len() {
                assert(all[i] == before[i]);
            }
        }
        assert forall|id: ModuleInstanceId| id < limit && modules.contains_key(id) implies exists|
            i: int,
        | 0 <= i < all.len() && #[trigger] all[i].id == id by {
            if id < limit - 1 {
                let i = choose|i: int| 0 <= i < before.len() && #[trigger] before[i].id == id;
                assert(all[i].id == id);
            } else {
                assert(all[all.len() - 1].id == id);
            }
        }
    }
}

/// A list of modules by increasing id that holds exactly the modules of
/// `modules`, each with its kind, is the list of `entries_below` up to the
/// limit: as far as its ids lie below `limit`, it agrees with it. Gives the
/// number of those ids.
pub proof fn lemma_order_is_unique(
    modules: Map<ModuleInstanceId, ModuleKind>,
    listed: Seq<ModuleEntry>,
    limit: nat,
) -> (count: int)
    requires
        limit <= id_limit(),
        ids_increase(listed),
        forall|i: int|
            0 <= i < listed.len() ==> modules.contains_key((#[trigger] listed[i]).id) && listed[i].kind
                == modules[listed[i].id],
        forall|id: ModuleInstanceId|
            modules.contains_key(id) ==> exists|i: int|
                0 <= i < listed.len() && #[trigger] listed[i].id == id,
    ensures
        0 <= count <= listed.len(),
        forall|i: int| 0 <= i < count ==> (#[trigger] listed[i]).id < limit,
        forall|i: int| count <= i < listed.len() ==> (#[trigger] listed[i]).id >= limit,
        entries_below(modules, limit) == listed.subrange(0, count),
    decreases limit,
{
    if limit == 0 {
        assert(listed.subrange(0, 0) =~= Seq::<ModuleEntry>::empty());
        0
    } else {
        let before = lemma_order_is_unique(modules, listed, (limit - 1) as nat);
        let last = (limit - 1) as ModuleInstanceId;
        if modules.contains_key(last) {
            let at = choose|i: int| 0 <= i < listed.len() && #[trigger] listed[i].id == last;
            assert(at == before) by {
                if at < before {
                    assert(listed[at].id < limit - 1);
                } else if before < at {
                    assert(listed[before].id < listed[at].id);
                    assert(listed[before].id >= limit - 1);
                }
            }
            assert forall|i: int| before + 1 <= i < listed.len() implies (#[trigger] listed[i]).id
                >= limit by {
                assert(listed[before].id < listed[i].id);
            }
            assert(listed.subrange(0, before + 1) =~= listed.subrange(0, before).push(
                listed[before],
            ));
            before + 1
        } else {
            assert forall|i: int| before <= i < listed.len() implies (#[trigger] listed[i]).id
                >= limit by {
                assert(modules.contains_key(listed[i].id));
            }
            before
        }
    }
}

/// Ids that a map hands out in its order strictly increase.
proof fn lemma_map_order(ids: Seq<ModuleInstanceId>)
    requires
        increasing_seq(ids),
    ensures
        forall|i: int, j: int| 0 <= i < j < ids.len() ==> ids[i] < ids[j],
{
    assert forall|i: int, j: int| 0 <= i < j < ids.len() implies ids[i] < ids[j] by {
        assert(ids[i].cmp_spec(&ids[j]) is Less);
    }
}

impl ModuleRegistry {
    /// The registered modules, each kind under its instance id.
    pub closed spec fn modules(&self) -> Map<ModuleInstanceId, ModuleKind> {
        self.modules@
    }

    /// The entries in iteration order: by increasing id.
    pub open spec fn entries(&self) -> Seq<ModuleEntry> {
        entries_below(self.modules(), id_limit())
    }

    /// Ids are unique and iteration visits them in increasing order.
    pub open spec fn wf(&self) -> bool {
        ids_increase(self.entries())
    }

    /// The instance ids in iteration order.
    pub open spec fn ids(&self) -> Seq<ModuleInstanceId> {
        self.entries().map_values(|e: ModuleEntry| e.id)
    }

    /// Whether an instance with this id is registered.
    pub open spec fn has(&self, id: ModuleInstanceId) -> bool {
        exists|i: int| 0 <= i < self.entries().len() && #[trigger] self.entries()[i].id == id
    }

    /// The kind registered under `id`; meaningful only where `has(id)`.
    pub open spec fn kind_at(&self, id: ModuleInstanceId) -> Seq<char> {
        let i = choose|i: int| 0 <= i < self.entries().len() && #[trigger] self.entries()[i].id == id;
        self.entries()[i].kind@
    }

    /// Every registry is well-formed, and its entries are its modules: an
    /// id is registered exactly if the map holds it, with the kind that the
    /// map holds for it.
    pub proof fn lemma_entries_are_modules(&self)
        ensures
            self.wf(),
            forall|id: ModuleInstanceId| self.has(id) == self.modules().contains_key(id),
            forall|id: ModuleInstanceId|
                self.modules().contains_key(id) ==> self.kind_at(id) == self.modules()[id]@,
    {
        lemma_entries_below(self.modules(), id_limit());
        let entries = self.entries();
        assert forall|id: ModuleInstanceId| self.has(id) == self.modules().contains_key(id) by {
            if self.has(id) {
                let i = choose|i: int| 0 <= i < entries.len() && #[trigger] entries[i].id == id;
                assert(self.modules().contains_key(entries[i].id));
            }
        }
        assert forall|id: ModuleInstanceId| self.modules().contains_key(id) implies self.kind_at(
            id,
        ) == self.modules()[id]@ by {
            let i = choose|i: int| 0 <= i < entries.len() && #[trigger] entries[i].id == id;
            assert(entries[i].kind == self.modules()[entries[i].id]);
        }
    }

    /// There are as many entries as the map holds modules.
    pub proof fn lemma_entries_count(&self)
        requires
            self.modules().dom().finite(),
        ensures
            self.entries().len() == self.modules().dom().len(),
    {
        lemma_entries_below(self.modules(), id_limit());
        let ids = self.ids();
        assert forall|i: int, j: int| 0 <= i < j < ids.len() implies ids[i] != ids[j] by {
            assert(self.entries()[i].id < self.entries()[j].id);
        }
        assert(ids.no_duplicates());
        ids.unique_seq_to_set();
        assert(ids.to_set() =~= self.modules().dom()) by {
            assert forall|id: ModuleInstanceId| ids.to_set().contains(id)
                == self.modules().dom().contains(id) by {
                if ids.to_set().contains(id) {
                    let i = choose|i: int| 0 <= i < ids.len() && ids[i] == id;
                    assert(self.modules().contains_key(self.entries()[i].id));
                }
                if self.modules().contains_key(id) {
                    let i = choose|i: int|
                        0 <= i < self.entries().len() && #[trigger] self.entries()[i].id == id;
                    assert(ids[i] == id);
                }
            }
        }
    }

    /// A registry without modules.
    pub fn new() -> (registry: ModuleRegistry)
        ensures
            registry.wf(),
            registry.entries().len() == 0,
    {
        let registry = ModuleRegistry { modules: BTreeMap::new() };
        proof {
            registry.lemma_entries_are_modules();
            registry.lemma_entries_count();
        }
        registry
    }

    /// Number of registered instances.
    pub fn len(&self) -> (n: usize)
        ensures
            n == self.entries().len(),
    {
        proof {
            self.lemma_entries_count();
        }
        self.modules.len()
    }

    /// Whether an instance with this id is registered.
    pub fn contains(&self, id: ModuleInstanceId) -> (found: bool)
        ensures
            found == self.has(id),
    {
        proof {
            self.lemma_entries_are_modules();
        }
        self.modules.contains_key(&id)
    }

    /// The kind of the instance registered under `id`.
    pub fn kind_of(&self, id: ModuleInstanceId) -> (kind: Option<&ModuleKind>)
        ensures
            kind is Some <==> self.has(id),
            kind matches Some(k) ==> k@ == self.kind_at(id),
    {
        proof {
            self.lemma_entries_are_modules();
        }
        self.modules.get(&id)
    }

    /// Registers `kind` under `id`.
    ///
    /// Returns `false`, and changes nothing, where the id is already taken.
    pub fn insert(&mut self, id: ModuleInstanceId, kind: ModuleKind) -> (added: bool)
        ensures
            final(self).wf(),
            added == !old(self).has(id),
            !added ==> final(self).entries() == old(self).entries(),
            added ==> final(self).entries().len() == old(self).entries().len() + 1,
            forall|x: ModuleInstanceId| final(self).has(x) == (old(self).has(x) || x == id),
            added ==> final(self).kind_at(id) == kind@,
            forall|x: ModuleInstanceId|
                old(self).has(x) ==> final(self).kind_at(x) == old(self).kind_at(x),
    {
        proof {
            self.lemma_entries_are_modules();
            self.lemma_entries_count();
        }
        if self.modules.contains_key(&id) {
            return false;
        }
        self.modules.insert(id, kind);
        proof {
            self.lemma_entries_are_modules();
            self.lemma_entries_count();
        }
        true
    }

    /// The entries in iteration order: by increasing id.
    pub fn entries_in_order(&self) -> (listed: Vec<ModuleEntry>)
        ensures
            listed@ == self.entries(),
    {
        let mut listed: Vec<ModuleEntry> = Vec::new();
        let iter = self.modules.iter();
        let ghost pairs = iter.remaining();
        proof {
            assert(increasing_seq(pairs.map_values(|kv: (&ModuleInstanceId, &ModuleKind)| *kv.0)));
        }
        for kv in it: iter
            invariant
                it.seq() == pairs,
                listed@.len() == it.index(),
                forall|i: int|
                    0 <= i < listed@.len() ==> (#[trigger] listed@[i]).id == *pairs[i].0 && listed@[i].kind
                        == *pairs[i].1,
        {
            listed.push(ModuleEntry { id: *kv.0, kind: ModuleKind { name: kv.1.name.clone() } });
        }
        proof {
            let keys = pairs.map_values(|kv: (&ModuleInstanceId, &ModuleKind)| *kv.0);
            assert(listed@.len() == pairs.len());
            lemma_map_order(keys);
            assert forall|i: int, j: int| 0 <= i < j < listed@.len() implies listed@[i].id
                < listed@[j].id by {
                assert(keys[i] == listed@[i].id);
                assert(keys[j] == listed@[j].id);
            }
            assert forall|i: int| 0 <= i < listed@.len() implies self.modules().contains_key(
                (#[trigger] listed@[i]).id,
            ) && listed@[i].kind == self.modules()[listed@[i].id] by {
                assert(self.modules@.contains_key(*pairs[i].0));
            }
            assert forall|id: ModuleInstanceId| self.modules().contains_key(id) implies exists|
                i: int,
            | 0 <= i < listed@.len() && #[trigger] listed@[i].id == id by {
                let pair = (&id, &self.modules@[id]);
                assert(pairs.contains(pair));
                let i = choose|i: int| 0 <= i < pairs.len() && pairs[i] == pair;
                assert(listed@[i].id == id);
            }
            let count = lemma_order_is_unique(self.modules(), listed@, id_limit());
            assert(count == listed@.len()) by {
                if count < listed@.len() {
                    assert(listed@[count].id >= id_limit());
                }
            }
            assert(listed@.subrange(0, count) =~= listed@);
        }
        listed
    }
}

} // verus!
