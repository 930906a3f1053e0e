//! Storage capacity of a node: a total and the part of it in use.
use vstd::prelude::*;

verus! {

/// The abstract state of a storage: its total and used capacity.
pub struct StorageView {
    pub total: nat,
    pub used: nat,
}

impl StorageView {
    /// A storage has a positive total and never uses more than it has.
    pub open spec fn wf(self) -> bool {
        self.total > 0 && self.used <= self.total
    }

    /// The capacity that is still free.
    pub open spec fn available(self) -> nat {
        (self.total - self.used) as nat
    }
}

/// The storage after `amount` more is allocated.
pub open spec fn allocated(s: StorageView, amount: nat) -> StorageView {
    StorageView { total: s.total, used: s.used + amount }
}

/// The storage after `amount` is freed; never below zero use.
pub open spec fn deallocated(s: StorageView, amount: nat) -> StorageView {
    StorageView {
        total: s.total,
        used: if amount >= s.used {
            0
        } else {
            (s.used - amount) as nat
        },
    }
}

/// The storage capacity of a node.
#[derive(Debug, Clone, PartialEq)]
pub struct Storage {
    total_capacity: u64,
    used_capacity: u64,
}

/// Why a storage operation was refused.
#[derive(Debug, PartialEq)]
pub enum StorageError {
    /// More was asked for than is free.
    InsufficientCapacity { required: u64, available: u64 },
    /// A storage of no capacity.
    InvalidCapacity,
}

impl View for Storage {
    type V = StorageView;

    closed spec fn view(&self) -> StorageView {
        StorageView { total: self.total_capacity as nat, used: self.used_capacity as nat }
    }
}

impl Storage {
    /// An empty storage of the given total; a total of zero is refused.
    pub fn new(total_capacity: u64) -> (r: Result<Self, StorageError>)
        ensures
            r is Err <==> total_capacity == 0,
            r matches Ok(s) ==> s@.wf() && s@ == (StorageView { total: total_capacity as nat, used: 0 }),
            r matches Err(e) ==> e == StorageError::InvalidCapacity,
    {
        if total_capacity == 0 {
            return Err(StorageError::InvalidCapacity);
        }
        Ok(Storage { total_capacity, used_capacity: 0 })
    }

    /// The storage with `amount` more in use; refused when less than
    /// `amount` is free.
    pub fn allocate(&self, amount: u64) -> (r: Result<Self, StorageError>)
        requires
            self@.wf(),
        ensures
            r is Ok <==> amount <= self@.available(),
            r matches Ok(s) ==> s@.wf() && s@ == allocated(self@, amount as nat),
            r matches Err(e) ==> e == (StorageError::InsufficientCapacity {
                required: amount,
                available: self@.available() as u64,
            }),
    {
        let available = self.available_capacity();
        if available < amount {
            return Err(StorageError::InsufficientCapacity { required: amount, available });
        }
        Ok(Storage { total_capacity: self.total_capacity, used_capacity: self.used_capacity + amount })
    }

    /// The storage with `amount` less in use, stopping at zero.
    pub fn deallocate(&self, amount: u64) -> (r: Self)
        requires
            self@.wf(),
        ensures
            r@.wf(),
            r@ == deallocated(self@, amount as nat),
    {
        let new_used = self.used_capacity.saturating_sub(amount);
        Storage { total_capacity: self.total_capacity, used_capacity: new_used }
    }

    /// The capacity that is still free.
    pub fn available_capacity(&self) -> (r: u64)
        requires
            self@.wf(),
        ensures
            r == self@.available(),
    {
        self.total_capacity.saturating_sub(self.used_capacity)
    }

    /// The total capacity.
    pub fn total_capacity(&self) -> (r: u64)
        ensures
            r == self@.total,
    {
        self.total_capacity
    }

    /// The capacity in use.
    pub fn used_capacity(&self) -> (r: u64)
        ensures
            r == self@.used,
    {
        self.used_capacity
    }
}

/// What is free and what is used always add up to the total.
pub proof fn law_available_plus_used(s: StorageView)
    requires
        s.wf(),
    ensures
        s.available() + s.used == s.total,
{
}

/// Freeing what was just allocated gives back the storage as it was.
pub proof fn law_allocate_then_deallocate(s: StorageView, amount: nat)
    requires
        s.wf(),
        amount <= s.available(),
    ensures
        deallocated(allocated(s, amount), amount) == s,
{
}

/// Allocation never overcommits: what stays free after it is what was
/// free less the amount.
pub proof fn law_allocate_reduces_available(s: StorageView, amount: nat)
    requires
        s.wf(),
        amount <= s.available(),
    ensures
        allocated(s, amount).wf(),
        allocated(s, amount).available() == s.available() - amount,
{
}

} // verus!
