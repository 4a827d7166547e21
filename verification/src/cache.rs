//! The record store ("cache"): the durable ledger of which records have been
//! accepted on-chain, keyed by their dense index. Loading the store from disk
//! and flushing it back are the host program's concern; everything here works
//! on the in-memory value.

use vstd::prelude::*;

verus! {

/// One record of the store: the metadata name, the link to the uploaded
/// metadata, and whether the record has been accepted on-chain.
#[verifier::ext_equal]
#[derive(Debug)]
pub struct CacheItem {
    pub name: String,
    pub metadata_link: String,
    pub on_chain: bool,
}

/// The ordered record mapping. Records are dense: the record with index `i`
/// sits at position `i`.
#[derive(Debug)]
pub struct CacheItems(pub Vec<CacheItem>);

/// Identity of the deployment target; empty until the target is created.
#[derive(Debug)]
pub struct CacheProgram {
    pub magic_hat: String,
}

impl CacheProgram {
    /// An empty program entry, for a store whose target does not exist yet.
    pub fn new() -> (r: CacheProgram)
        ensures
            r.magic_hat@ == Seq::<char>::empty(),
    {
        CacheProgram { magic_hat: String::new() }
    }

    /// A program entry naming a freshly created target.
    pub fn new_from_cm(magic_hat: String) -> (r: CacheProgram)
        ensures
            r.magic_hat == magic_hat,
    {
        CacheProgram { magic_hat }
    }
}

/// The record store: target identity plus the ordered record mapping.
#[derive(Debug)]
pub struct Cache {
    pub program: CacheProgram,
    pub items: CacheItems,
}

impl Cache {
    pub open spec fn spec_len(&self) -> nat {
        self.items.0@.len()
    }

    /// The record at `index`, if the store holds one.
    pub fn get(&self, index: u64) -> (r: Option<&CacheItem>)
        ensures
            match r {
                Some(item) => index < self.spec_len() && *item == self.items.0@[index as int],
                None => index >= self.spec_len(),
            },
    {
        if index < self.items.0.len() as u64 {
            Some(&self.items.0[index as usize])
        } else {
            None
        }
    }

    /// Record that the record at `index` has been accepted on-chain. Acceptance
    /// is never revoked: this only ever turns `on_chain` on.
    pub fn mark_accepted(&mut self, index: usize)
        requires
            index < old(self).spec_len(),
        ensures
            final(self).items.0@ == old(self).items.0@.update(
                index as int,
                CacheItem { on_chain: true, ..old(self).items.0@[index as int] },
            ),
            final(self).program == old(self).program,
    {
        self.items.0[index].on_chain = true;
    }
}

} // verus!
