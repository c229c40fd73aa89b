//! Identifiers and consensus items shared by every component.

use vstd::prelude::*;

verus! {

/// Identifies one federation member; members are ordered by this number.
pub type PeerId = u16;

/// Number of a consensus epoch; epochs only ever grow.
pub type EpochIndex = u64;

/// Identifies one configured module instance for the federation's lifetime.
pub type ModuleInstanceId = u16;

/// Name of a kind of module, such as `mint` or `wallet`.
#[derive(Clone, Debug, PartialEq, Eq)]
pub struct ModuleKind {
    pub name: String,
}

impl View for ModuleKind {
    type V = Seq<char>;

    open spec fn view(&self) -> Seq<char> {
        self.name@
    }
}

impl ModuleKind {
    pub fn new(name: &str) -> (kind: ModuleKind)
        ensures
            kind@ == name@,
    {
        ModuleKind { name: name.to_owned() }
    }

    /// Whether two kinds carry the same name.
    pub fn same_as(&self, other: &ModuleKind) -> (same: bool)
        ensures
            same == (self@ == other@),
    {
        self.name == other.name
    }

    pub fn duplicate(&self) -> (copy: ModuleKind)
        ensures
            copy@ == self@,
    {
        ModuleKind { name: self.name.clone() }
    }
}

/// A unit of work that the federation must agree on before it is applied.
#[derive(Clone, Debug, PartialEq, Eq)]
pub enum ConsensusItem {
    /// A user transaction, as submitted through the API.
    Transaction(Vec<u8>),
    /// A record proposed by the module instance with the given id.
    Module(ModuleInstanceId, Vec<u8>),
    /// Bookkeeping of the epoch itself; it carries no payload.
    EpochInfo,
}

/// What a [`ConsensusItem`] is, mathematically.
pub enum ConsensusItemView {
    Transaction(Seq<u8>),
    Module(ModuleInstanceId, Seq<u8>),
    EpochInfo,
}

impl View for ConsensusItem {
    type V = ConsensusItemView;

    open spec fn view(&self) -> ConsensusItemView {
        match self {
            ConsensusItem::Transaction(tx) => ConsensusItemView::Transaction(tx@),
            ConsensusItem::Module(id, payload) => ConsensusItemView::Module(*id, payload@),
            ConsensusItem::EpochInfo => ConsensusItemView::EpochInfo,
        }
    }
}

impl ConsensusItemView {
    /// The module instance that the item is routed to, if it names one.
    pub open spec fn module_id(self) -> Option<ModuleInstanceId> {
        match self {
            ConsensusItemView::Module(id, _) => Some(id),
            _ => None,
        }
    }
}

impl ConsensusItem {
    /// The module instance that the item is routed to, if it names one.
    pub fn module_id(&self) -> (id: Option<ModuleInstanceId>)
        ensures
            id == self@.module_id(),
    {
        match self {
            ConsensusItem::Module(id, _) => Some(*id),
            _ => None,
        }
    }

    /// Whether `self` and `other` are the same item.
    pub fn same_as(&self, other: &ConsensusItem) -> (same: bool)
        ensures
            same == (self@ == other@),
    {
        match (self, other) {
            (ConsensusItem::Transaction(a), ConsensusItem::Transaction(b)) => same_bytes(a, b),
            (ConsensusItem::Module(i, a), ConsensusItem::Module(j, b)) => *i == *j && same_bytes(
                a,
                b,
            ),
            (ConsensusItem::EpochInfo, ConsensusItem::EpochInfo) => true,
            _ => false,
        }
    }
}

/// Whether two vectors hold the same bytes.
pub fn same_bytes(a: &Vec<u8>, b: &Vec<u8>) -> (same: bool)
    ensures
        same == (a@ == b@),
{
    if a.len() != b.len() {
        return false;
    }
    let mut i: usize = 0;
    while i < a.len()
        invariant
            i <= a.len(),
            a.len() == b.len(),
            forall|j: int| 0 <= j < i ==> a@[j] == b@[j],
        decreases a.len() - i,
    {
        if a[i] != b[i] {
            return false;
        }
        i += 1;
    }
    assert(a@ =~= b@);
    true
}

} // verus!
