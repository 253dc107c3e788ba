//! Putting chunks that arrive out of order back into file order.
use vstd::prelude::*;
use std::collections::HashMap;

verus! {

broadcast use vstd::std_specs::hash::group_hash_axioms;

/// Chunks received so far, keyed by their offset in the file, and how much of the
/// file has been handed out, in order, for writing.
pub struct Reassembler {
    pending: HashMap<u64, Vec<u8>>,
    next_offset: u64,
    total_size: u64,
    written: Ghost<Seq<u8>>,
}

/// Chunk `data` at `offset` holds exactly the bytes of `file` there.
pub open spec fn chunk_agrees(file: Seq<u8>, offset: nat, data: Seq<u8>) -> bool {
    offset + data.len() <= file.len() && file.subrange(offset as int, (offset + data.len()) as int) == data
}

impl Reassembler {
    /// The chunks waiting to be written, by offset.
    pub closed spec fn chunks(&self) -> Map<u64, Seq<u8>> {
        self.pending@.map_values(|v: Vec<u8>| v@)
    }

    /// The offset of the next chunk to be written.
    pub closed spec fn next_offset(&self) -> nat {
        self.next_offset as nat
    }

    /// The size of the whole file.
    pub closed spec fn total_size(&self) -> nat {
        self.total_size as nat
    }

    /// The bytes handed out for writing so far, in file order.
    pub closed spec fn written(&self) -> Seq<u8> {
        self.written@
    }

    /// The handed-out bytes end where the next chunk starts; once they reach past the
    /// largest offset, the next offset stays at the largest offset.
    pub closed spec fn wf(&self) -> bool {
        ||| self.next_offset as nat == self.written@.len()
        ||| (self.next_offset == u64::MAX && self.written@.len() >= u64::MAX)
    }

    /// Everything handed out so far is the start of `file`, and every pending chunk
    /// holds the bytes of `file` at its offset.
    pub open spec fn agrees_with(&self, file: Seq<u8>) -> bool {
        &&& self.written().len() <= file.len()
        &&& file.take(self.written().len() as int) == self.written()
        &&& forall|o: u64| #[trigger]
            self.chunks().contains_key(o) ==> chunk_agrees(file, o as nat, self.chunks()[o])
    }

    /// All of the file has been handed out.
    pub open spec fn complete(&self) -> bool {
        self.next_offset() >= self.total_size()
    }

    /// The buffer is complete exactly when the handed-out bytes reach the file's size,
    /// whatever that size.
    pub proof fn lemma_complete_iff_reached(&self)
        ensures
            self.complete() <==> self.next_offset() >= self.total_size(),
    {
    }

    /// An empty buffer for a file of `total_size` bytes; nothing is handed out yet.
    pub fn new(total_size: u64) -> (r: Reassembler)
        ensures
            r.wf(),
            r.chunks() == Map::<u64, Seq<u8>>::empty(),
            r.next_offset() == 0,
            r.total_size() == total_size,
            r.written() == Seq::<u8>::empty(),
    {
        let r = Reassembler {
            pending: HashMap::new(),
            next_offset: 0,
            total_size,
            written: Ghost(Seq::empty()),
        };
        assert(r.chunks() == Map::<u64, Seq<u8>>::empty());
        r
    }

    /// Keeps chunk `data`, which belongs at `offset`; a chunk kept earlier at the same
    /// offset is replaced. A chunk that holds the bytes of a file at its offset keeps
    /// the buffer in agreement with that file.
    pub fn store(&mut self, offset: u64, data: Vec<u8>)
        requires
            old(self).wf(),
        ensures
            final(self).wf(),
            final(self).chunks() == old(self).chunks().insert(offset, data@),
            final(self).next_offset() == old(self).next_offset(),
            final(self).total_size() == old(self).total_size(),
            final(self).written() == old(self).written(),
            forall|file: Seq<u8>|
                old(self).agrees_with(file) && chunk_agrees(file, offset as nat, data@)
                    ==> #[trigger] final(self).agrees_with(file),
    {
        let ghost data_view = data@;
        self.pending.insert(offset, data);
        assert(self.chunks() =~= old(self).chunks().insert(offset, data_view));
        assert forall|file: Seq<u8>|
            old(self).agrees_with(file) && chunk_agrees(file, offset as nat, data_view)
                implies #[trigger] self.agrees_with(file) by {
            assert forall|o: u64| #[trigger]
                self.chunks().contains_key(o) implies chunk_agrees(
                file,
                o as nat,
                self.chunks()[o],
            ) by {
                if o != offset {
                    assert(old(self).chunks().contains_key(o));
                }
            }
        }
    }

    /// All of the file has been handed out.
    pub fn is_complete(&self) -> (b: bool)
        ensures
            b == self.complete(),
            b == (self.next_offset() >= self.total_size()),
    {
        self.next_offset >= self.total_size
    }

    /// Takes the chunk that starts where the handed-out bytes end, if it has
    /// arrived, while the file is not yet complete; its bytes are appended to what has
    /// been handed out. A chunk that
    /// reaches past the largest offset moves the next offset to the largest offset,
    /// which completes any file.
    pub fn take_next(&mut self) -> (r: Option<Vec<u8>>)
        requires
            old(self).wf(),
            !old(self).complete(),
        ensures
            final(self).wf(),
            final(self).total_size() == old(self).total_size(),
            match r {
                Some(d) => {
                    &&& old(self).next_offset() <= u64::MAX
                    &&& old(self).chunks().contains_key(old(self).next_offset() as u64)
                    &&& d@ == old(self).chunks()[old(self).next_offset() as u64]
                    &&& final(self).chunks() == old(self).chunks().remove(
                        old(self).next_offset() as u64,
                    )
                    &&& final(self).next_offset() == if old(self).next_offset() + d@.len()
                        <= u64::MAX {
                        old(self).next_offset() + d@.len()
                    } else {
                        u64::MAX as nat
                    }
                    &&& final(self).written() == old(self).written() + d@
                },
                None => {
                    &&& !old(self).chunks().contains_key(old(self).next_offset() as u64)
                    &&& final(self).chunks() == old(self).chunks()
                    &&& final(self).next_offset() == old(self).next_offset()
                    &&& final(self).written() == old(self).written()
                },
            },
            forall|file: Seq<u8>| #[trigger]
                old(self).agrees_with(file) ==> final(self).agrees_with(file),
    {
        let key = self.next_offset;
        match self.pending.remove(&key) {
            Some(data) => {
                assert(old(self).pending@.contains_key(key));
                let len = data.len() as u64;
                self.next_offset = if len <= u64::MAX - key {
                    key + len
                } else {
                    u64::MAX
                };
                let ghost old_written = self.written@;
                self.written = Ghost(old_written + data@);
                assert(self.chunks() =~= old(self).chunks().remove(key));
                assert forall|file: Seq<u8>| #[trigger]
                    old(self).agrees_with(file) implies self.agrees_with(file) by {
                    let w = old_written;
                    assert(old(self).chunks().contains_key(key));
                    assert(chunk_agrees(file, key as nat, data@));
                    assert(file.take(self.written@.len() as int) =~= w + data@) by {
                        assert(file.take(w.len() as int) == w);
                        assert(file.subrange(key as int, (key + data@.len()) as int) == data@);
                    }
                    assert forall|o: u64| #[trigger]
                        self.chunks().contains_key(o) implies chunk_agrees(
                        file,
                        o as nat,
                        self.chunks()[o],
                    ) by {
                        assert(old(self).chunks().contains_key(o));
                    }
                }
                Some(data)
            },
            None => {
                assert(self.chunks() =~= old(self).chunks());
                None
            },
        }
    }
}

/// Once all of a file has been handed out, what was handed out is the file, provided
/// every chunk held the file's bytes at its offset.
pub proof fn lemma_complete_reassembly_is_file(r: Reassembler, file: Seq<u8>)
    requires
        r.agrees_with(file),
        r.complete(),
        file.len() == r.total_size(),
        r.wf(),
    ensures
        r.written() == file,
{
    assert(r.written().len() >= r.total_size());
    assert(file.take(file.len() as int) =~= file);
}

} // verus!
