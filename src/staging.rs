//! The staging-buffer store: byte vectors that the host fills and reads, each
//! named by a 32-bit id that is never handed out twice.
use std::collections::HashMap;
use vstd::prelude::*;

verus! {

broadcast use vstd::std_specs::hash::group_hash_axioms;

/// A handle on one buffer of a [`StagingBufferStore`].
#[derive(Clone, Copy, PartialEq, Eq, Debug)]
pub struct StagingBuffer {
    pub id: u32,
}

/// Owner of every live staging buffer.
pub struct StagingBufferStore {
    buffers: HashMap<u32, Vec<u8>>,
    next_id: u32,
}

impl StagingBufferStore {
    /// The live buffers, by id.
    pub closed spec fn contents(&self) -> Map<u32, Seq<u8>> {
        self.buffers@.map_values(|v: Vec<u8>| v@)
    }

    /// The id that the next allocation hands out.
    pub closed spec fn next_id(&self) -> u32 {
        self.next_id
    }

    /// Every live id was handed out before `next_id`.
    pub closed spec fn wf(&self) -> bool {
        forall|id: u32| #[trigger] self.buffers@.contains_key(id) ==> id < self.next_id
    }

    pub fn new() -> (r: Self)
        ensures
            r.wf(),
            r.contents() == Map::<u32, Seq<u8>>::empty(),
            r.next_id() == 0,
    {
        let r = StagingBufferStore { buffers: HashMap::new(), next_id: 0 };
        assert(r.contents() =~= Map::<u32, Seq<u8>>::empty());
        r
    }

    /// Stores `bytes` under a fresh id; `None` once every id has been used.
    pub fn insert_new(&mut self, bytes: Vec<u8>) -> (r: Option<StagingBuffer>)
        requires
            old(self).wf(),
        ensures
            final(self).wf(),
            old(self).next_id() == u32::MAX ==> r is None && *final(self) == *old(self),
            old(self).next_id() < u32::MAX ==> {
                &&& r == Some(StagingBuffer { id: old(self).next_id() })
                &&& final(self).next_id() == old(self).next_id() + 1
                &&& !old(self).contents().contains_key(old(self).next_id())
                &&& final(self).contents() == old(self).contents().insert(old(self).next_id(), bytes@)
            },
    {
        if self.next_id == u32::MAX {
            return None;
        }
        let id = self.next_id;
        let ghost bv = bytes@;
        self.buffers.insert(id, bytes);
        self.next_id = id + 1;
        assert(self.contents() =~= old(self).contents().insert(id, bv));
        Some(StagingBuffer { id })
    }

    /// The bytes of buffer `id`, if it is live.
    pub fn get(&self, id: u32) -> (r: Option<&Vec<u8>>)
        ensures
            match r {
                Some(v) => self.contents().contains_key(id) && v@ == self.contents()[id],
                None => !self.contents().contains_key(id),
            },
    {
        self.buffers.get(&id)
    }

    /// Removes buffer `id` and hands its bytes back, if it was live.
    pub fn take(&mut self, id: u32) -> (r: Option<Vec<u8>>)
        requires
            old(self).wf(),
        ensures
            final(self).wf(),
            final(self).next_id() == old(self).next_id(),
            final(self).contents() == old(self).contents().remove(id),
            match r {
                Some(v) => old(self).contents().contains_key(id) && v@ == old(self).contents()[id],
                None => !old(self).contents().contains_key(id),
            },
    {
        let r = self.buffers.remove(&id);
        assert(self.contents() =~= old(self).contents().remove(id));
        r
    }

    /// Puts `bytes` back under `id`, which must still be unused by a live buffer
    /// and must have been handed out before.
    pub fn put_back(&mut self, id: u32, bytes: Vec<u8>)
        requires
            old(self).wf(),
            id < old(self).next_id(),
        ensures
            final(self).wf(),
            final(self).next_id() == old(self).next_id(),
            final(self).contents() == old(self).contents().insert(id, bytes@),
    {
        let ghost bv = bytes@;
        self.buffers.insert(id, bytes);
        assert(self.contents() =~= old(self).contents().insert(id, bv));
    }
}

impl StagingBuffer {
    /// Allocates a zero-filled buffer of `byte_length` bytes.
    pub fn new(store: &mut StagingBufferStore, byte_length: usize) -> (r: Option<StagingBuffer>)
        requires
            old(store).wf(),
        ensures
            final(store).wf(),
            old(store).next_id() == u32::MAX ==> r is None && *final(store) == *old(store),
            old(store).next_id() < u32::MAX ==> {
                &&& r == Some(StagingBuffer { id: old(store).next_id() })
                &&& final(store).next_id() == old(store).next_id() + 1
                &&& final(store).contents() == old(store).contents().insert(
                    old(store).next_id(),
                    Seq::new(byte_length as nat, |i: int| 0u8),
                )
            },
    {
        let mut bytes: Vec<u8> = Vec::new();
        let mut i: usize = 0;
        while i < byte_length
            invariant
                i <= byte_length,
                bytes@ == Seq::new(i as nat, |k: int| 0u8),
            decreases byte_length - i,
        {
            bytes.push(0);
            i = i + 1;
            assert(bytes@ =~= Seq::new(i as nat, |k: int| 0u8));
        }
        store.insert_new(bytes)
    }

    /// Releases the buffer; later lookups of its id find nothing.
    pub fn free(&self, store: &mut StagingBufferStore)
        requires
            old(store).wf(),
        ensures
            final(store).wf(),
            final(store).next_id() == old(store).next_id(),
            final(store).contents() == old(store).contents().remove(self.id),
    {
        let _ = store.take(self.id);
    }

    /// The buffer's bytes, if it is still live.
    pub fn u8_view<'a>(&self, store: &'a StagingBufferStore) -> (r: Option<&'a Vec<u8>>)
        ensures
            match r {
                Some(v) => store.contents().contains_key(self.id) && v@ == store.contents()[self.id],
                None => !store.contents().contains_key(self.id),
            },
    {
        store.get(self.id)
    }
}

} // verus!
