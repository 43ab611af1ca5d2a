//! The receiver's chunk store: the staging area where a file's chunks are kept,
//! keyed by the file and the chunk's sequence number, until the file is
//! assembled.
use vstd::prelude::*;

use crate::transfer::concat_all;

verus! {

/// The record that marks a file as complete: its name and how many chunks
/// carry it.
#[derive(Clone, Debug, PartialEq, Eq)]
pub struct FileMeta {
    pub name: String,
    pub chunks: u32,
}

/// The mathematical content of a meta record.
pub struct FileMetaView {
    pub name: Seq<char>,
    pub chunks: u32,
}

impl View for FileMeta {
    type V = FileMetaView;

    open spec fn view(&self) -> FileMetaView {
        FileMetaView { name: self.name@, chunks: self.chunks }
    }
}

/// Errors of the store.
#[derive(Clone, Copy, Debug, PartialEq, Eq, Structural)]
pub enum StoreError {
    /// The chunk's sequence number is not the next one of its file.
    OutOfOrder,
}

#[derive(Debug)]
struct ChunkRecord {
    uuid: u128,
    bytes: Vec<u8>,
}

#[derive(Debug)]
struct MetaRecord {
    uuid: u128,
    meta: FileMeta,
}

spec fn chunks_in(records: Seq<ChunkRecord>, uuid: u128) -> Seq<Seq<u8>>
    decreases records.len(),
{
    if records.len() == 0 {
        Seq::empty()
    } else {
        let rest = chunks_in(records.drop_last(), uuid);
        if records.last().uuid == uuid {
            rest.push(records.last().bytes@)
        } else {
            rest
        }
    }
}

spec fn meta_in(records: Seq<MetaRecord>, uuid: u128) -> Option<FileMetaView>
    decreases records.len(),
{
    if records.len() == 0 {
        None
    } else if records.last().uuid == uuid {
        Some(records.last().meta@)
    } else {
        meta_in(records.drop_last(), uuid)
    }
}

/// Keyed staging of chunks and meta records. The chunks of one file come out
/// in the order they were put, which is the order of their sequence numbers.
#[derive(Debug)]
pub struct ChunkStore {
    chunks: Vec<ChunkRecord>,
    metas: Vec<MetaRecord>,
}

impl ChunkStore {
    /// The chunks held for the file `uuid`, in sequence order.
    pub closed spec fn chunks(&self, uuid: u128) -> Seq<Seq<u8>> {
        chunks_in(self.chunks@, uuid)
    }

    /// The meta record held for the file `uuid`.
    pub closed spec fn meta(&self, uuid: u128) -> Option<FileMetaView> {
        meta_in(self.metas@, uuid)
    }

    /// An empty store.
    pub fn new() -> (s: Self)
        ensures
            forall|u: u128| #[trigger] s.chunks(u) == Seq::<Seq<u8>>::empty() && s.meta(u) is None,
    {
        ChunkStore { chunks: Vec::new(), metas: Vec::new() }
    }

    /// Number of chunks held for the file `uuid`.
    pub fn chunk_count(&self, uuid: u128) -> (r: usize)
        ensures
            r == self.chunks(uuid).len(),
    {
        let mut n: usize = 0;
        let mut i: usize = 0;
        while i < self.chunks.len()
            invariant
                i <= self.chunks.len(),
                n == chunks_in(self.chunks@.take(i as int), uuid).len(),
                n <= i,
            decreases self.chunks.len() - i,
        {
            assert(self.chunks@.take(i + 1).drop_last() =~= self.chunks@.take(i as int));
            if self.chunks[i].uuid == uuid {
                n = n + 1;
            }
            i = i + 1;
        }
        assert(self.chunks@.take(i as int) =~= self.chunks@);
        n
    }

    /// Stores chunk `seq` of the file `uuid`; it must be the file's next chunk.
    pub fn put_chunk(&mut self, uuid: u128, seq: u32, bytes: Vec<u8>) -> (r: Result<(), StoreError>)
        ensures
            r is Ok <==> seq == old(self).chunks(uuid).len(),
            r is Ok ==> final(self).chunks(uuid) == old(self).chunks(uuid).push(bytes@),
            r is Err ==> r->Err_0 == StoreError::OutOfOrder,
            forall|u: u128| u != uuid || r is Err ==> #[trigger] final(self).chunks(u) == old(self).chunks(u),
            forall|u: u128| #[trigger] final(self).meta(u) == old(self).meta(u),
    {
        if seq as usize != self.chunk_count(uuid) {
            return Err(StoreError::OutOfOrder);
        }
        let ghost old_chunks = self.chunks@;
        self.chunks.push(ChunkRecord { uuid, bytes });
        assert(self.chunks@.drop_last() =~= old_chunks);
        Ok(())
    }

    /// Stores the meta record of the file `uuid`, replacing an earlier one.
    pub fn put_meta(&mut self, uuid: u128, meta: FileMeta)
        ensures
            final(self).meta(uuid) == Some(meta@),
            forall|u: u128| u != uuid ==> #[trigger] final(self).meta(u) == old(self).meta(u),
            forall|u: u128| #[trigger] final(self).chunks(u) == old(self).chunks(u),
    {
        let ghost old_metas = self.metas@;
        self.metas.push(MetaRecord { uuid, meta });
        assert(self.metas@.drop_last() =~= old_metas);
    }

    /// Deletes the chunks and the meta record of the file `uuid`.
    pub fn delete_file(&mut self, uuid: u128)
        ensures
            final(self).chunks(uuid) == Seq::<Seq<u8>>::empty(),
            final(self).meta(uuid) is None,
            forall|u: u128| u != uuid ==> #[trigger] final(self).chunks(u) == old(self).chunks(u),
            forall|u: u128| u != uuid ==> #[trigger] final(self).meta(u) == old(self).meta(u),
    {
        let ghost old_chunks = self.chunks@;
        let ghost old_metas = self.metas@;
        let mut kept: Vec<ChunkRecord> = Vec::new();
        let mut all: Vec<ChunkRecord> = Vec::new();
        std::mem::swap(&mut self.chunks, &mut all);
        // Move the records of other files into `kept`, in order.
        let ghost mut taken: Seq<ChunkRecord> = Seq::empty();
        while all.len() > 0
            invariant
                old_chunks == taken + all@,
                forall|u: u128|
                    #[trigger] chunks_in(kept@, u) == if u == uuid {
                        Seq::<Seq<u8>>::empty()
                    } else {
                        chunks_in(taken, u)
                    },
            decreases all.len(),
        {
            let rec = all.remove(0);
            let ghost rec_view = rec;
            let ghost old_taken = taken;
            let ghost old_kept = kept@;
            if rec.uuid != uuid {
                kept.push(rec);
                assert(kept@.drop_last() =~= old_kept);
            }
            proof {
                taken = taken.push(rec_view);
            }
            assert(taken.drop_last() =~= old_taken);
            assert forall|u: u128| #[trigger] chunks_in(kept@, u) == if u == uuid {
                Seq::<Seq<u8>>::empty()
            } else {
                chunks_in(taken, u)
            } by {
                assert(chunks_in(old_kept, u) == if u == uuid {
                    Seq::<Seq<u8>>::empty()
                } else {
                    chunks_in(old_taken, u)
                });
            }
        }
        assert(taken =~= old_chunks);
        self.chunks = kept;
        let mut kept_metas: Vec<MetaRecord> = Vec::new();
        let mut all_metas: Vec<MetaRecord> = Vec::new();
        std::mem::swap(&mut self.metas, &mut all_metas);
        let ghost mut taken_metas: Seq<MetaRecord> = Seq::empty();
        while all_metas.len() > 0
            invariant
                old_metas == taken_metas + all_metas@,
                forall|u: u128|
                    #[trigger] meta_in(kept_metas@, u) == if u == uuid {
                        None
                    } else {
                        meta_in(taken_metas, u)
                    },
            decreases all_metas.len(),
        {
            let rec = all_metas.remove(0);
            let ghost rec_view = rec;
            let ghost old_taken = taken_metas;
            let ghost old_kept = kept_metas@;
            if rec.uuid != uuid {
                kept_metas.push(rec);
                assert(kept_metas@.drop_last() =~= old_kept);
            }
            proof {
                taken_metas = taken_metas.push(rec_view);
            }
            assert(taken_metas.drop_last() =~= old_taken);
            assert forall|u: u128| #[trigger] meta_in(kept_metas@, u) == if u == uuid {
                None
            } else {
                meta_in(taken_metas, u)
            } by {
                assert(meta_in(old_kept, u) == if u == uuid {
                    None
                } else {
                    meta_in(old_taken, u)
                });
            }
        }
        assert(taken_metas =~= old_metas);
        self.metas = kept_metas;
    }
    /// The meta record of the file `uuid`.
    pub fn get_meta(&self, uuid: u128) -> (r: Option<&FileMeta>)
        ensures
            match r {
                Some(m) => self.meta(uuid) == Some(m@),
                None => self.meta(uuid) is None,
            },
    {
        let mut i: usize = self.metas.len();
        assert(self.metas@.take(i as int) =~= self.metas@);
        while i > 0
            invariant
                i <= self.metas.len(),
                meta_in(self.metas@, uuid) == meta_in(self.metas@.take(i as int), uuid),
            decreases i,
        {
            assert(self.metas@.take(i as int).drop_last() =~= self.metas@.take(i - 1));
            if self.metas[i - 1].uuid == uuid {
                return Some(&self.metas[i - 1].meta);
            }
            i = i - 1;
        }
        assert(self.metas@.take(0) =~= Seq::<MetaRecord>::empty());
        None
    }

    /// The chunks of the file `uuid`, in sequence order: what a scan of the
    /// file's key prefix yields.
    pub fn scan(&self, uuid: u128) -> (r: Vec<Vec<u8>>)
        ensures
            r@.len() == self.chunks(uuid).len(),
            forall|k: int| 0 <= k < r@.len() ==> #[trigger] r@[k]@ == self.chunks(uuid)[k],
    {
        let mut out: Vec<Vec<u8>> = Vec::new();
        let mut i: usize = 0;
        while i < self.chunks.len()
            invariant
                i <= self.chunks.len(),
                out@.len() == chunks_in(self.chunks@.take(i as int), uuid).len(),
                forall|k: int|
                    0 <= k < out@.len() ==> #[trigger] out@[k]@ == chunks_in(
                        self.chunks@.take(i as int),
                        uuid,
                    )[k],
            decreases self.chunks.len() - i,
        {
            assert(self.chunks@.take(i + 1).drop_last() =~= self.chunks@.take(i as int));
            if self.chunks[i].uuid == uuid {
                let b = self.chunks[i].bytes.clone();
                assert(b@ =~= self.chunks[i as int].bytes@);
                out.push(b);
            }
            i = i + 1;
        }
        assert(self.chunks@.take(i as int) =~= self.chunks@);
        out
    }

    /// The file `uuid` put together from its chunks, in order, once its meta
    /// record is there.
    pub fn assemble(&self, uuid: u128) -> (r: Option<Vec<u8>>)
        ensures
            self.meta(uuid) is None ==> r is None,
            self.meta(uuid) is Some ==> r is Some && r->0@ == concat_all(self.chunks(uuid)),
    {
        if self.get_meta(uuid).is_none() {
            return None;
        }
        let mut out: Vec<u8> = Vec::new();
        let mut i: usize = 0;
        while i < self.chunks.len()
            invariant
                i <= self.chunks.len(),
                out@ == concat_all(chunks_in(self.chunks@.take(i as int), uuid)),
            decreases self.chunks.len() - i,
        {
            assert(self.chunks@.take(i + 1).drop_last() =~= self.chunks@.take(i as int));
            if self.chunks[i].uuid == uuid {
                let ghost before = out@;
                out.extend_from_slice(self.chunks[i].bytes.as_slice());
                let ghost rest = chunks_in(self.chunks@.take(i as int), uuid);
                assert(rest.push(self.chunks[i as int].bytes@).drop_last() =~= rest);
                assert(out@ =~= before + self.chunks[i as int].bytes@);
            }
            i = i + 1;
        }
        assert(self.chunks@.take(i as int) =~= self.chunks@);
        Some(out)
    }
}

} // verus!
