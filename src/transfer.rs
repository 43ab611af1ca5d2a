//! The transfer protocol over the peers' data channel: the file catalog, the
//! chunking of a file, and the host's sender state machine.
use vstd::prelude::*;

use crate::file_tag::{FileState, FileTag};

verus! {

/// Size of every chunk but the last of a file, in bytes (64 KiB).
pub const CHUNK_SIZE: u64 = 65536;

/// Above this many buffered bytes the sender stops and waits for a drain (1 MiB).
pub const HIGH_WATERMARK: u64 = 1048576;

/// Once stopped, the sender goes on when the buffer is down to this (256 KiB).
pub const LOW_WATERMARK: u64 = 262144;

/// Number of chunks of `cs` bytes that carry a file of `size` bytes.
pub open spec fn chunk_count(size: nat, cs: nat) -> nat
    recommends
        cs > 0,
{
    if size == 0 {
        0
    } else {
        ((size - 1) as nat / cs + 1) as nat
    }
}

/// End (exclusive) of chunk `k` of a file of `size` bytes.
pub open spec fn chunk_end(size: nat, k: nat, cs: nat) -> nat {
    if (k + 1) * cs < size {
        (k + 1) * cs
    } else {
        size
    }
}

/// Chunk `k` of `source`, cut in chunks of `cs` bytes.
pub open spec fn chunk_of(source: Seq<u8>, k: nat, cs: nat) -> Seq<u8> {
    source.subrange((k * cs) as int, chunk_end(source.len(), k, cs) as int)
}

/// The chunks of `source`, in order.
pub open spec fn chunks_of(source: Seq<u8>, cs: nat) -> Seq<Seq<u8>> {
    Seq::new(chunk_count(source.len(), cs), |k: int| chunk_of(source, k as nat, cs))
}

/// The concatenation of `chunks`, in order.
pub open spec fn concat_all(chunks: Seq<Seq<u8>>) -> Seq<u8>
    decreases chunks.len(),
{
    if chunks.len() == 0 {
        Seq::empty()
    } else {
        concat_all(chunks.drop_last()) + chunks.last()
    }
}

proof fn lemma_chunk_bounds(size: nat, k: nat, cs: nat)
    requires
        cs > 0,
        k < chunk_count(size, cs),
    ensures
        k * cs < size,
        chunk_count(size, cs) * cs >= size,
{
    let q = ((size - 1) as nat / cs) as nat;
    assert(q * cs <= size - 1) by (nonlinear_arith)
        requires
            q == (size - 1) as nat / cs,
            size >= 1,
            cs > 0,
    ;
    assert(k * cs <= q * cs) by (nonlinear_arith)
        requires
            k <= q,
            cs > 0,
    ;
    assert((q + 1) * cs >= size) by (nonlinear_arith)
        requires
            q == (size - 1) as nat / cs,
            size >= 1,
            cs > 0,
    ;
}

proof fn lemma_prefix_reassembles(source: Seq<u8>, cs: nat, n: nat)
    requires
        cs > 0,
        n <= chunk_count(source.len(), cs),
    ensures
        concat_all(chunks_of(source, cs).take(n as int)) == source.subrange(
            0,
            if n * cs < source.len() { (n * cs) as int } else { source.len() as int },
        ),
    decreases n,
{
    let all = chunks_of(source, cs);
    if n == 0 {
        assert(concat_all(all.take(0)) =~= Seq::<u8>::empty());
        assert(source.subrange(0, 0) =~= Seq::<u8>::empty());
    } else {
        let m = (n - 1) as nat;
        lemma_prefix_reassembles(source, cs, m);
        lemma_chunk_bounds(source.len(), m, cs);
        assert(all.take(n as int).drop_last() =~= all.take(m as int));
        assert(all.take(n as int).last() == chunk_of(source, m, cs));
        assert(m * cs + cs == n * cs) by (nonlinear_arith)
            requires
                m + 1 == n,
        ;
        assert(source.subrange(0, (m * cs) as int) + chunk_of(source, m, cs) =~= source.subrange(
            0,
            chunk_end(source.len(), m, cs) as int,
        ));
    }
}

/// Cutting a file in chunks and joining the chunks again, in order, gives back
/// the file, byte for byte, for any positive chunk size.
pub proof fn lemma_chunks_reassemble(source: Seq<u8>, cs: nat)
    requires
        cs > 0,
    ensures
        concat_all(chunks_of(source, cs)) == source,
{
    let n = chunk_count(source.len(), cs);
    lemma_prefix_reassembles(source, cs, n);
    assert(chunks_of(source, cs).take(n as int) =~= chunks_of(source, cs));
    if source.len() > 0 {
        lemma_chunk_bounds(source.len(), (n - 1) as nat, cs);
    }
    assert(source.subrange(0, source.len() as int) =~= source);
}

/// The last chunk of a file whose size is not a multiple of the chunk size
/// holds the remainder of the size, and nothing pads it.
pub proof fn lemma_last_chunk_is_remainder(size: nat, cs: nat)
    requires
        cs > 0,
        size % cs != 0,
    ensures
        chunk_count(size, cs) >= 1,
        chunk_end(size, (chunk_count(size, cs) - 1) as nat, cs) == size,
        size - (chunk_count(size, cs) - 1) * cs == size % cs,
{
    let n = chunk_count(size, cs);
    let q = ((size - 1) as nat / cs) as nat;
    assert(size > 0) by {
        assert(0nat % cs == 0) by (nonlinear_arith)
            requires
                cs > 0,
        ;
    }
    assert(n - 1 == q);
    lemma_chunk_bounds(size, q, cs);
    assert(q * cs + cs >= size) by (nonlinear_arith)
        requires
            q == (size - 1) as nat / cs,
            size >= 1,
            cs > 0,
    ;
    assert(size - q * cs == size % cs) by (nonlinear_arith)
        requires
            q == (size - 1) as nat / cs,
            size >= 1,
            cs > 0,
            size % cs != 0,
    ;
}

/// One file of the host's catalog, as advertised to the client.
#[derive(Clone, Debug, PartialEq, Eq)]
pub struct FileInfo {
    pub name: String,
    pub uuid: u128,
    pub size: u64,
}

/// Host -> client: the host's whole catalog.
#[derive(Clone, Debug, PartialEq, Eq)]
pub struct FilesUpdate {
    pub files: Vec<FileInfo>,
}

/// Client -> host: "stream this file next".
#[derive(Clone, Copy, Debug, PartialEq, Eq, Structural)]
pub struct FileRequest {
    pub uuid: u128,
}

/// The mathematical content of a file entry.
pub struct FileItemView {
    pub state: FileState,
    pub name: Seq<char>,
    pub size: u64,
    pub uuid: u128,
    pub done: u64,
}

/// A file that one of the peers knows of, with its state and the bytes of it
/// transferred so far.
#[derive(Debug)]
pub struct FileItem {
    pub state: FileState,
    pub tag: FileTag,
    pub done: u64,
}

impl View for FileItem {
    type V = FileItemView;

    open spec fn view(&self) -> FileItemView {
        FileItemView {
            state: self.state,
            name: self.tag.name@,
            size: self.tag.size,
            uuid: self.tag.uuid,
            done: self.done,
        }
    }
}

/// A pending entry for the file that `info` describes.
pub open spec fn pending_item(name: Seq<char>, size: u64, uuid: u128) -> FileItemView {
    FileItemView { state: FileState::Pending, name, size, uuid, done: 0 }
}

/// Whether `items` holds an entry for `uuid`.
pub open spec fn holds(items: Seq<FileItemView>, uuid: u128) -> bool {
    exists|i: int| 0 <= i < items.len() && items[i].uuid == uuid
}

/// The position of the entry for `uuid` in `items` (meaningful when `holds`).
pub open spec fn position(items: Seq<FileItemView>, uuid: u128) -> int {
    choose|i: int| 0 <= i < items.len() && items[i].uuid == uuid
}

/// No two entries of `items` share an identifier.
pub open spec fn unique_ids(items: Seq<FileItemView>) -> bool {
    forall|i: int, j: int|
        0 <= i < items.len() && 0 <= j < items.len() && i != j ==> items[i].uuid != items[j].uuid
}

/// The list after a catalog was merged into it: each advertised file that the
/// list does not hold yet is added, pending, at the end; entries already there
/// are kept as they are.
pub open spec fn merged(items: Seq<FileItemView>, infos: Seq<FileInfo>) -> Seq<FileItemView>
    decreases infos.len(),
{
    if infos.len() == 0 {
        items
    } else {
        let m = merged(items, infos.drop_last());
        let f = infos.last();
        if holds(m, f.uuid) {
            m
        } else {
            m.push(pending_item(f.name@, f.size, f.uuid))
        }
    }
}

/// The files one peer knows of, in the order it learnt of them, one entry per
/// identifier.
#[derive(Debug)]
pub struct FileList {
    items: Vec<FileItem>,
}

impl View for FileList {
    type V = Seq<FileItemView>;

    closed spec fn view(&self) -> Seq<FileItemView> {
        self.items@.map_values(|it: FileItem| it@)
    }
}

impl FileList {
    /// The list's invariant: one entry per identifier.
    pub open spec fn wf(&self) -> bool {
        unique_ids(self@)
    }

    /// An empty list.
    pub fn new() -> (l: Self)
        ensures
            l.wf(),
            l@ == Seq::<FileItemView>::empty(),
    {
        let l = FileList { items: Vec::new() };
        assert(l@ =~= Seq::<FileItemView>::empty());
        l
    }

    /// Number of entries.
    pub fn len(&self) -> (r: usize)
        ensures
            r == self@.len(),
    {
        self.items.len()
    }

    /// The position of the entry for `uuid`.
    pub fn find(&self, uuid: u128) -> (r: Option<usize>)
        requires
            self.wf(),
        ensures
            match r {
                Some(i) => i < self@.len() && self@[i as int].uuid == uuid && holds(self@, uuid)
                    && position(self@, uuid) == i,
                None => !holds(self@, uuid),
            },
    {
        let mut i: usize = 0;
        while i < self.items.len()
            invariant
                i <= self.items.len(),
                self@.len() == self.items.len(),
                self.wf(),
                forall|k: int| 0 <= k < i ==> self@[k].uuid != uuid,
            decreases self.items.len() - i,
        {
            if self.items[i].tag.uuid == uuid {
                assert(self@[i as int].uuid == uuid);
                assert(holds(self@, uuid));
                assert(position(self@, uuid) == i);
                return Some(i);
            }
            i = i + 1;
        }
        None
    }

    /// The entry at position `i`.
    pub fn get(&self, i: usize) -> (r: &FileItem)
        requires
            i < self@.len(),
        ensures
            r@ == self@[i as int],
    {
        &self.items[i]
    }

    /// Adds a pending entry for `tag`, replacing an entry with its identifier.
    pub fn add_file(&mut self, tag: FileTag)
        requires
            old(self).wf(),
        ensures
            final(self).wf(),
            holds(old(self)@, tag.uuid) ==> final(self)@ == old(self)@.update(
                position(old(self)@, tag.uuid),
                pending_item(tag.name@, tag.size, tag.uuid),
            ),
            !holds(old(self)@, tag.uuid) ==> final(self)@ == old(self)@.push(
                pending_item(tag.name@, tag.size, tag.uuid),
            ),
    {
        let item = FileItem { state: FileState::Pending, tag, done: 0 };
        match self.find(item.tag.uuid) {
            Some(i) => {
                self.items.set(i, item);
                assert(self@ =~= old(self)@.update(i as int, item@));
            },
            None => {
                self.items.push(item);
                assert(self@ =~= old(self)@.push(item@));
            },
        }
    }

    /// Adds a pending entry for `info` unless an entry with its identifier is
    /// there already.
    fn add_if_absent(&mut self, info: &FileInfo)
        requires
            old(self).wf(),
        ensures
            final(self).wf(),
            holds(old(self)@, info.uuid) ==> final(self)@ == old(self)@,
            !holds(old(self)@, info.uuid) ==> final(self)@ == old(self)@.push(
                pending_item(info.name@, info.size, info.uuid),
            ),
    {
        if self.find(info.uuid).is_none() {
            let item = FileItem {
                state: FileState::Pending,
                tag: FileTag::new(info.name.clone(), info.size, info.uuid),
                done: 0,
            };
            self.items.push(item);
            assert(self@ =~= old(self)@.push(item@));
        }
    }

    /// Merges an advertised catalog into the list: new files are added, pending,
    /// and files already known keep their state (a file in the middle of its
    /// transfer is not reset).
    pub fn merge_update(&mut self, update: &FilesUpdate)
        requires
            old(self).wf(),
        ensures
            final(self).wf(),
            final(self)@ == merged(old(self)@, update.files@),
    {
        let mut k: usize = 0;
        while k < update.files.len()
            invariant
                k <= update.files.len(),
                self.wf(),
                self@ == merged(old(self)@, update.files@.take(k as int)),
            decreases update.files.len() - k,
        {
            self.add_if_absent(&update.files[k]);
            assert(update.files@.take(k + 1).drop_last() =~= update.files@.take(k as int));
            k = k + 1;
        }
        assert(update.files@.take(k as int) =~= update.files@);
    }

    /// Removes the entry for `uuid`, if any.
    pub fn remove_file(&mut self, uuid: u128)
        requires
            old(self).wf(),
        ensures
            final(self).wf(),
            holds(old(self)@, uuid) ==> final(self)@ == old(self)@.remove(position(old(self)@, uuid)),
            !holds(old(self)@, uuid) ==> final(self)@ == old(self)@,
    {
        match self.find(uuid) {
            Some(i) => {
                self.items.remove(i);
                assert(self@ =~= old(self)@.remove(i as int));
            },
            None => {},
        }
    }

    /// Sets the state of the entry for `uuid`, if any.
    pub fn set_state(&mut self, uuid: u128, state: FileState)
        requires
            old(self).wf(),
        ensures
            final(self).wf(),
            holds(old(self)@, uuid) ==> final(self)@ == old(self)@.update(
                position(old(self)@, uuid),
                FileItemView { state, ..old(self)@[position(old(self)@, uuid)] },
            ),
            !holds(old(self)@, uuid) ==> final(self)@ == old(self)@,
    {
        match self.find(uuid) {
            Some(i) => {
                let mut item = self.items.remove(i);
                item.state = state;
                self.items.insert(i, item);
                assert(self@ =~= old(self)@.update(i as int, item@));
            },
            None => {},
        }
    }

    /// Records that `done` bytes of the file `uuid` have been transferred; the
    /// entry is done once they are all of it.
    pub fn transfer_update(&mut self, uuid: u128, done: u64)
        requires
            old(self).wf(),
        ensures
            final(self).wf(),
            holds(old(self)@, uuid) ==> {
                let old_item = old(self)@[position(old(self)@, uuid)];
                final(self)@ == old(self)@.update(
                    position(old(self)@, uuid),
                    FileItemView {
                        done,
                        state: if done >= old_item.size { FileState::Done } else { old_item.state },
                        ..old_item
                    },
                )
            },
            !holds(old(self)@, uuid) ==> final(self)@ == old(self)@,
    {
        match self.find(uuid) {
            Some(i) => {
                let mut item = self.items.remove(i);
                item.done = done;
                if done >= item.tag.size {
                    item.state = FileState::Done;
                }
                self.items.insert(i, item);
                assert(self@ =~= old(self)@.update(i as int, item@));
            },
            None => {},
        }
    }

    /// The catalog frame that advertises the list.
    pub fn files_update(&self) -> (r: FilesUpdate)
        ensures
            r.files@.len() == self@.len(),
            forall|i: int|
                0 <= i < self@.len() ==> {
                    &&& #[trigger] r.files@[i].uuid == self@[i].uuid
                    &&& r.files@[i].name@ == self@[i].name
                    &&& r.files@[i].size == self@[i].size
                },
    {
        let mut files: Vec<FileInfo> = Vec::new();
        let mut i: usize = 0;
        while i < self.items.len()
            invariant
                i <= self.items.len(),
                self@.len() == self.items.len(),
                files@.len() == i,
                forall|k: int|
                    0 <= k < i ==> {
                        &&& #[trigger] files@[k].uuid == self@[k].uuid
                        &&& files@[k].name@ == self@[k].name
                        &&& files@[k].size == self@[k].size
                    },
            decreases self.items.len() - i,
        {
            let item = &self.items[i];
            files.push(FileInfo { name: item.tag.name.clone(), uuid: item.tag.uuid, size: item.tag.size });
            i = i + 1;
        }
        FilesUpdate { files }
    }
}

/// Where the host's sender stands.
#[derive(Clone, Copy, Debug, PartialEq, Eq, Structural)]
pub enum SenderState {
    Idle,
    /// Streaming the file `uuid` of `size` bytes; the bytes before `offset`
    /// have been handed to the channel.
    Streaming { uuid: u128, size: u64, offset: u64 },
}

/// What the sender makes of a request.
#[derive(Clone, Copy, Debug, PartialEq, Eq, Structural)]
pub enum RequestOutcome {
    /// The file's chunks follow.
    Started,
    /// The file is empty: it is complete with no chunk at all.
    Completed,
    /// No such file: the host re-advertises its catalog.
    UnknownFile,
    /// A file is streaming already; the request is ignored.
    Busy,
}

/// The sender's next move on a send tick.
#[derive(Clone, Copy, Debug, PartialEq, Eq, Structural)]
pub enum SendAction {
    /// Send the bytes `start..end` of the file `uuid` as one binary frame.
    Chunk { uuid: u128, start: u64, end: u64, size: u64 },
    /// The channel's buffer is too full: wait for it to drain.
    AwaitDrain,
    /// Nothing to send.
    Idle,
}

/// The host's sender: one file in flight at a time, cut in chunks, and held
/// back while the channel's buffer is above its high watermark.
#[derive(Debug)]
pub struct Sender {
    pub state: SenderState,
    /// Set when the buffer went above the high watermark; cleared once it is
    /// down to the low watermark.
    pub draining: bool,
}

impl Sender {
    /// The sender's invariant: a streaming file has bytes left to send, and
    /// the next chunk starts on a chunk boundary.
    pub open spec fn wf(&self) -> bool {
        match self.state {
            SenderState::Streaming { offset, size, .. } => offset < size && offset % CHUNK_SIZE
                == 0,
            SenderState::Idle => true,
        }
    }

    /// An idle sender.
    pub fn new() -> (s: Self)
        ensures
            s.wf(),
            s.state == SenderState::Idle,
            !s.draining,
    {
        Sender { state: SenderState::Idle, draining: false }
    }

    /// Handles the client's request for a file of `catalog`: an idle sender
    /// starts streaming it (an empty file is complete at once), marking it as
    /// transferring in the catalog.
    pub fn on_request(&mut self, catalog: &mut FileList, request: &FileRequest) -> (r: RequestOutcome)
        requires
            old(self).wf(),
            old(catalog).wf(),
        ensures
            final(self).wf(),
            final(catalog).wf(),
            old(self).state != SenderState::Idle ==> r == RequestOutcome::Busy && *final(self)
                == *old(self) && final(catalog)@ == old(catalog)@,
            old(self).state == SenderState::Idle && !holds(old(catalog)@, request.uuid) ==> r
                == RequestOutcome::UnknownFile && final(self).state == SenderState::Idle
                && final(catalog)@ == old(catalog)@,
            old(self).state == SenderState::Idle && holds(old(catalog)@, request.uuid) ==> {
                let p = position(old(catalog)@, request.uuid);
                let item = old(catalog)@[p];
                &&& item.size == 0 ==> r == RequestOutcome::Completed && final(self).state
                    == SenderState::Idle && final(catalog)@ == old(catalog)@.update(
                    p,
                    FileItemView { state: FileState::Done, ..item },
                )
                &&& item.size > 0 ==> r == RequestOutcome::Started && final(self).state
                    == (SenderState::Streaming { uuid: request.uuid, size: item.size, offset: 0 })
                    && !final(self).draining && final(catalog)@ == old(catalog)@.update(
                    p,
                    FileItemView { state: FileState::Transferring, ..item },
                )
            },
    {
        if self.state != SenderState::Idle {
            return RequestOutcome::Busy;
        }
        match catalog.find(request.uuid) {
            None => RequestOutcome::UnknownFile,
            Some(i) => {
                let size = catalog.get(i).tag.size;
                if size == 0 {
                    catalog.set_state(request.uuid, FileState::Done);
                    RequestOutcome::Completed
                } else {
                    catalog.set_state(request.uuid, FileState::Transferring);
                    self.state = SenderState::Streaming { uuid: request.uuid, size, offset: 0 };
                    self.draining = false;
                    RequestOutcome::Started
                }
            },
        }
    }

    /// The sender's next move, given the number of bytes that the channel
    /// holds buffered. No chunk is handed over while that number is above the
    /// high watermark; once above, the sender waits until it is down to the low
    /// watermark. Each chunk is the next `CHUNK_SIZE` bytes of the file, or
    /// what is left of it; after the last one the sender is idle again.
    pub fn next_action(&mut self, buffered_amount: u64) -> (r: SendAction)
        requires
            old(self).wf(),
        ensures
            final(self).wf(),
            r is Chunk ==> buffered_amount <= HIGH_WATERMARK,
            old(self).state == SenderState::Idle ==> r == SendAction::Idle && *final(self)
                == *old(self),
            match old(self).state {
                SenderState::Idle => true,
                SenderState::Streaming { uuid, size, offset } => {
                    let held = if old(self).draining {
                        buffered_amount > LOW_WATERMARK
                    } else {
                        buffered_amount > HIGH_WATERMARK
                    };
                    let end = if offset + CHUNK_SIZE < size { (offset + CHUNK_SIZE) as u64 } else { size };
                    &&& held ==> r == SendAction::AwaitDrain && final(self).draining
                        && final(self).state == old(self).state
                    &&& !held ==> r == (SendAction::Chunk { uuid, start: offset, end, size })
                        && !final(self).draining
                    &&& !held ==> offset == (offset / CHUNK_SIZE) * CHUNK_SIZE && end == chunk_end(
                        size as nat,
                        (offset / CHUNK_SIZE) as nat,
                        CHUNK_SIZE as nat,
                    )
                    &&& !held && end < size ==> final(self).state == (SenderState::Streaming {
                        uuid,
                        size,
                        offset: end,
                    })
                    &&& !held && end == size ==> final(self).state == SenderState::Idle
                },
            },
    {
        match self.state {
            SenderState::Idle => SendAction::Idle,
            SenderState::Streaming { uuid, size, offset } => {
                let held = if self.draining {
                    buffered_amount > LOW_WATERMARK
                } else {
                    buffered_amount > HIGH_WATERMARK
                };
                if held {
                    self.draining = true;
                    return SendAction::AwaitDrain;
                }
                self.draining = false;
                let end = if size - offset > CHUNK_SIZE { offset + CHUNK_SIZE } else { size };
                proof {
                    let q = (offset / CHUNK_SIZE) as nat;
                    assert(offset == q * CHUNK_SIZE) by (nonlinear_arith)
                        requires
                            offset % CHUNK_SIZE == 0,
                            q == offset / CHUNK_SIZE,
                    ;
                    assert((q + 1) * CHUNK_SIZE == offset + CHUNK_SIZE) by (nonlinear_arith)
                        requires
                            offset == q * CHUNK_SIZE,
                    ;
                    assert(((offset as int) + 65536) % 65536 == 0) by (nonlinear_arith)
                        requires
                            (offset as int) % 65536 == 0,
                    ;
                }
                if end < size {
                    self.state = SenderState::Streaming { uuid, size, offset: end };
                } else {
                    self.state = SenderState::Idle;
                }
                SendAction::Chunk { uuid, start: offset, end, size }
            },
        }
    }

    /// Gives up the file in flight after a transport error.
    pub fn abort(&mut self)
        ensures
            final(self).wf(),
            final(self).state == SenderState::Idle,
            !final(self).draining,
    {
        self.state = SenderState::Idle;
        self.draining = false;
    }
}

/// Bytes the sender has still to hand over.
pub open spec fn pending_bytes(s: SenderState) -> nat {
    match s {
        SenderState::Streaming { size, offset, .. } => (size - offset) as nat,
        SenderState::Idle => 0,
    }
}

/// The frames in which the sender hands over a file of `size` bytes while the
/// channel's buffer stays empty, each as its byte range: frame `k` is
/// `[k * CHUNK_SIZE, min((k + 1) * CHUNK_SIZE, size))`, the last one holds what
/// is left, and an empty file takes no frame at all.
pub fn frame_ranges(size: u64) -> (r: Vec<(u64, u64)>)
    ensures
        r@.len() == chunk_count(size as nat, CHUNK_SIZE as nat),
        forall|k: int|
            0 <= k < r@.len() ==> #[trigger] r@[k].0 == k * CHUNK_SIZE && r@[k].1 == chunk_end(
                size as nat,
                k as nat,
                CHUNK_SIZE as nat,
            ),
{
    let mut out: Vec<(u64, u64)> = Vec::new();
    if size == 0 {
        return out;
    }
    let mut sender = Sender {
        state: SenderState::Streaming { uuid: 0, size, offset: 0 },
        draining: false,
    };
    while sender.state != SenderState::Idle
        invariant
            sender.wf(),
            !sender.draining,
            size > 0,
            match sender.state {
                SenderState::Streaming { size: s, offset, .. } => s == size && offset
                    == out@.len() * CHUNK_SIZE && out@.len() < chunk_count(
                    size as nat,
                    CHUNK_SIZE as nat,
                ),
                SenderState::Idle => out@.len() == chunk_count(size as nat, CHUNK_SIZE as nat),
            },
            forall|k: int|
                0 <= k < out@.len() ==> #[trigger] out@[k].0 == k * CHUNK_SIZE && out@[k].1
                    == chunk_end(size as nat, k as nat, CHUNK_SIZE as nat),
        decreases pending_bytes(sender.state),
    {
        let ghost n = out@.len();
        let action = sender.next_action(0);
        proof {
            assert((n * 65536) / 65536 == n) by (nonlinear_arith);
        }
        match action {
            SendAction::Chunk { start, end, .. } => {
                proof {
                    if end == size {
                        let q = ((size - 1) as nat / 65536) as nat;
                        assert(q == n) by (nonlinear_arith)
                            requires
                                q == (size - 1) as nat / 65536,
                                n * 65536 < size,
                                (n + 1) * 65536 >= size,
                        ;
                    } else {
                        assert(end == (n + 1) * 65536);
                        lemma_chunk_bounds(size as nat, (n + 1) as nat, 65536);
                        let q = ((size - 1) as nat / 65536) as nat;
                        assert(n + 1 <= q) by (nonlinear_arith)
                            requires
                                q == (size - 1) as nat / 65536,
                                (n + 1) * 65536 < size,
                        ;
                    }
                }
                out.push((start, end));
            },
            _ => {},
        }
    }
    out
}

} // verus!
