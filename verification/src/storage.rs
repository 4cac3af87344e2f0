//! Files held in memory, each under the random identifier it was stored
//! with.

use std::collections::BTreeMap;
use vstd::prelude::*;

use crate::ids::{is_random_uuid, new_random_id};

verus! {

broadcast use {vstd::std_specs::btree::group_btree_axioms, vstd::laws_cmp::group_laws_cmp};

/// No file is stored under the identifier.
#[derive(Clone, Copy, Debug, PartialEq, Eq, Structural)]
pub struct FileNotFound;

/// Stored files, ordered by identifier.
pub struct MemStorage {
    files: BTreeMap<u128, Vec<u8>>,
}

impl View for MemStorage {
    type V = Map<u128, Seq<u8>>;

    closed spec fn view(&self) -> Map<u128, Seq<u8>> {
        self.files@.map_values(|f: Vec<u8>| f@)
    }
}

impl MemStorage {
    /// A storage without files.
    pub fn new() -> (r: MemStorage)
        ensures
            r@ == Map::<u128, Seq<u8>>::empty(),
    {
        let r = MemStorage { files: BTreeMap::new() };
        proof {
            assert(r@ =~= Map::<u128, Seq<u8>>::empty());
        }
        r
    }

    /// A new file to write the content of, before it is stored.
    pub fn create_file(&self) -> (r: Vec<u8>)
        ensures
            r@ == Seq::<u8>::empty(),
    {
        Vec::new()
    }

    /// Stores a file under a new random identifier and returns the
    /// identifier.
    pub fn store_file(&mut self, file: Vec<u8>) -> (r: u128)
        ensures
            is_random_uuid(r),
            final(self)@ == old(self)@.insert(r, file@),
    {
        let id = new_random_id();
        let ghost content = file@;
        self.files.insert(id, file);
        proof {
            assert(self@ =~= old(self)@.insert(id, content));
        }
        id
    }

    /// The content of the file stored under `id`.
    pub fn read_file(&self, id: u128) -> (r: Result<&Vec<u8>, FileNotFound>)
        ensures
            match r {
                Ok(f) => self@.contains_key(id) && f@ == self@[id],
                Err(_) => !self@.contains_key(id),
            },
    {
        match self.files.get(&id) {
            Some(f) => Ok(f),
            None => Err(FileNotFound),
        }
    }
}

/// A stored file reads back as what was stored, and storing a file leaves
/// the other files as they were.
pub proof fn law_read_after_store(files: Map<u128, Seq<u8>>, id: u128, content: Seq<u8>, other: u128)
    requires
        other != id,
    ensures
        files.insert(id, content).contains_key(id),
        files.insert(id, content)[id] == content,
        files.insert(id, content).contains_key(other) == files.contains_key(other),
        files.contains_key(other) ==> files.insert(id, content)[other] == files[other],
{
}

} // verus!
