//! The client's side of the transfer: one download at a time into the chunk
//! store, completion once the advertised size has arrived, and a queue of the
//! files accepted meanwhile.
use vstd::prelude::*;

use crate::file_tag::{FileState, FileTag};
use crate::store::{ChunkStore, FileMeta, FileMetaView};
use crate::transfer::{concat_all, holds, position, FileItemView, FileList, FileRequest, FilesUpdate};

verus! {

/// Errors of a received chunk.
#[derive(Clone, Copy, Debug, PartialEq, Eq, Structural)]
pub enum SaveError {
    /// No download is in progress.
    NoFile,
    /// The chunk would take the file past its advertised size.
    SizeMismatch,
    /// The file has as many chunks as can be numbered.
    TooManyChunks,
}

/// Downloads one file at a time into a chunk store.
#[derive(Debug)]
pub struct DownloadManager {
    store: ChunkStore,
    downloaded_volume: u64,
    file_tag: Option<FileTag>,
    chunk_counter: u32,
}

impl DownloadManager {
    /// The store that the chunks go to.
    pub closed spec fn stored(&self) -> ChunkStore {
        self.store
    }

    /// The file being downloaded: its name, size and identifier.
    pub closed spec fn file(&self) -> Option<(Seq<char>, u64, u128)> {
        match self.file_tag {
            Some(t) => Some((t.name@, t.size, t.uuid)),
            None => None,
        }
    }

    /// Bytes of the file received so far.
    pub closed spec fn volume(&self) -> u64 {
        self.downloaded_volume
    }

    /// Chunks of the file received so far.
    pub closed spec fn counter(&self) -> u32 {
        self.chunk_counter
    }

    /// A file is set and bytes of it are still to come.
    pub open spec fn is_active(&self) -> bool {
        self.file() is Some && self.volume() < (self.file()->0).1
    }

    /// The invariant: the store holds exactly the chunks received for the file,
    /// whose lengths add up to the bytes received, never more than the file's
    /// size; and a file whose bytes have all arrived has its meta record.
    pub open spec fn wf(&self) -> bool {
        match self.file() {
            Some((name, size, uuid)) => {
                &&& self.stored().chunks(uuid).len() == self.counter()
                &&& concat_all(self.stored().chunks(uuid)).len() == self.volume()
                &&& self.volume() <= size
                &&& self.volume() == size ==> self.stored().meta(uuid) == Some(
                    FileMetaView { name, chunks: self.counter() },
                )
            },
            None => self.volume() == 0 && self.counter() == 0,
        }
    }

    /// A manager with an empty store and no download.
    pub fn new() -> (m: Self)
        ensures
            m.wf(),
            m.file() is None,
            forall|u: u128| #[trigger] m.stored().chunks(u).len() == 0 && m.stored().meta(u) is None,
    {
        DownloadManager {
            store: ChunkStore::new(),
            downloaded_volume: 0,
            file_tag: None,
            chunk_counter: 0,
        }
    }

    /// The store that the chunks go to.
    pub fn store(&self) -> (r: &ChunkStore)
        ensures
            *r == self.stored(),
    {
        &self.store
    }

    /// Whether a download is in progress: a file is set and bytes of it are
    /// still to come.
    pub fn active(&self) -> (r: bool)
        ensures
            r == self.is_active(),
    {
        match &self.file_tag {
            Some(t) => self.downloaded_volume < t.size,
            None => false,
        }
    }

    /// The file being downloaded.
    pub fn get_file_tag(&self) -> (r: Option<FileTag>)
        ensures
            match r {
                Some(t) => self.file() == Some((t.name@, t.size, t.uuid)),
                None => self.file() is None,
            },
    {
        match &self.file_tag {
            Some(t) => Some(t.duplicate()),
            None => None,
        }
    }

    /// How far the download is: bytes received and bytes in all.
    pub fn get_progress(&self) -> (r: (u64, u64))
        ensures
            self.file() is Some ==> r == (self.volume(), (self.file()->0).1),
            self.file() is None ==> r == (0u64, 0u64),
    {
        match &self.file_tag {
            Some(t) => (self.downloaded_volume, t.size),
            None => (0, 0),
        }
    }

    /// Starts the download of `file_tag`, dropping what the store held of it.
    /// An empty file is complete at once, with a meta record of no chunks.
    pub fn new_file(&mut self, file_tag: FileTag)
        ensures
            final(self).wf(),
            final(self).file() == Some((file_tag.name@, file_tag.size, file_tag.uuid)),
            final(self).volume() == 0,
            final(self).counter() == 0,
            final(self).stored().chunks(file_tag.uuid).len() == 0,
            file_tag.size == 0 ==> final(self).stored().meta(file_tag.uuid) == Some(
                FileMetaView { name: file_tag.name@, chunks: 0 },
            ),
            file_tag.size > 0 ==> final(self).stored().meta(file_tag.uuid) is None,
            forall|u: u128|
                u != file_tag.uuid ==> #[trigger] final(self).stored().chunks(u) == old(
                    self,
                ).stored().chunks(u) && final(self).stored().meta(u) == old(self).stored().meta(u),
    {
        let uuid = file_tag.uuid;
        self.store.delete_file(uuid);
        if file_tag.size == 0 {
            self.store.put_meta(uuid, FileMeta { name: file_tag.name.clone(), chunks: 0 });
        }
        self.file_tag = Some(file_tag);
        self.downloaded_volume = 0;
        self.chunk_counter = 0;
        assert(concat_all(self.store.chunks(uuid)) =~= Seq::<u8>::empty());
    }

    /// Stores the next chunk of the download. The result says whether the file
    /// is complete with it, that is whether all its bytes have arrived; the
    /// meta record is written then.
    pub fn save_chunk(&mut self, chunk: Vec<u8>) -> (r: Result<bool, SaveError>)
        requires
            old(self).wf(),
        ensures
            final(self).wf(),
            !old(self).is_active() <==> r == Err::<bool, SaveError>(SaveError::NoFile),
            old(self).is_active() && old(self).volume() + chunk@.len() > (old(self).file()->0).1
                <==> r == Err::<bool, SaveError>(SaveError::SizeMismatch),
            old(self).is_active() && old(self).volume() + chunk@.len() <= (old(self).file()->0).1
                && old(self).counter() == u32::MAX <==> r == Err::<bool, SaveError>(
                SaveError::TooManyChunks,
            ),
            r is Err ==> *final(self) == *old(self),
            r is Ok ==> {
                let (name, size, uuid) = old(self).file()->0;
                &&& final(self).file() == old(self).file()
                &&& final(self).volume() == old(self).volume() + chunk@.len()
                &&& final(self).counter() == old(self).counter() + 1
                &&& final(self).stored().chunks(uuid) == old(self).stored().chunks(uuid).push(chunk@)
                &&& r->Ok_0 == (final(self).volume() == size)
                &&& final(self).stored().meta(uuid) == if r->Ok_0 {
                    Some(FileMetaView { name, chunks: final(self).counter() })
                } else {
                    old(self).stored().meta(uuid)
                }
                &&& forall|u: u128|
                    u != uuid ==> #[trigger] final(self).stored().chunks(u) == old(
                        self,
                    ).stored().chunks(u) && final(self).stored().meta(u) == old(self).stored().meta(
                        u,
                    )
            },
    {
        let (uuid, size) = match &self.file_tag {
            Some(t) => (t.uuid, t.size),
            None => {
                return Err(SaveError::NoFile);
            },
        };
        if self.downloaded_volume >= size {
            return Err(SaveError::NoFile);
        }
        let len = chunk.len();
        if len as u64 > size - self.downloaded_volume {
            return Err(SaveError::SizeMismatch);
        }
        if self.chunk_counter == u32::MAX {
            return Err(SaveError::TooManyChunks);
        }
        let ghost old_chunks = self.store.chunks(uuid);
        let ghost chunk_view = chunk@;
        let put = self.store.put_chunk(uuid, self.chunk_counter, chunk);
        assert(put is Ok);
        self.downloaded_volume = self.downloaded_volume + len as u64;
        self.chunk_counter = self.chunk_counter + 1;
        assert(old_chunks.push(chunk_view).drop_last() =~= old_chunks);
        if self.downloaded_volume == size {
            let name = match &self.file_tag {
                Some(t) => t.name.clone(),
                None => String::new(),
            };
            self.store.put_meta(uuid, FileMeta { name, chunks: self.chunk_counter });
            return Ok(true);
        }
        Ok(false)
    }
}

/// What became of a received chunk.
#[derive(Clone, Copy, Debug, PartialEq, Eq, Structural)]
pub enum ChunkOutcome {
    /// Stored; `done` of the file's `size` bytes have arrived.
    Progress { done: u64, size: u64 },
    /// Stored, and the file is complete. `next` is the request for the first
    /// queued file, which is now being downloaded, if any file was queued.
    Completed { next: Option<FileRequest> },
}

/// The list after `done` bytes of the file `uuid` have arrived: its entry
/// records them, and is done once they are all of it.
pub open spec fn after_progress(items: Seq<FileItemView>, uuid: u128, done: u64) -> Seq<
    FileItemView,
> {
    if holds(items, uuid) {
        let it = items[position(items, uuid)];
        items.update(
            position(items, uuid),
            FileItemView {
                done,
                state: if done >= it.size {
                    FileState::Done
                } else {
                    it.state
                },
                ..it
            },
        )
    } else {
        items
    }
}

/// The list once the file `uuid` is complete with its `done` bytes: its entry
/// records them and is done.
pub open spec fn after_completion(items: Seq<FileItemView>, uuid: u128, done: u64) -> Seq<
    FileItemView,
> {
    if holds(items, uuid) {
        items.update(
            position(items, uuid),
            FileItemView { done, state: FileState::Done, ..items[position(items, uuid)] },
        )
    } else {
        items
    }
}

/// Whether no entry before position `i` is queued.
pub open spec fn none_queued_before(items: Seq<FileItemView>, i: int) -> bool {
    forall|k: int| 0 <= k < i ==> #[trigger] items[k].state != FileState::Queued
}

/// The client's side of the transfer: the files the host advertised, and the
/// download in progress.
#[derive(Debug)]
pub struct ClientTransfer {
    files: FileList,
    manager: DownloadManager,
}

impl ClientTransfer {
    /// The files the client knows of.
    pub closed spec fn list(&self) -> FileList {
        self.files
    }

    /// The download manager.
    pub closed spec fn downloads(&self) -> DownloadManager {
        self.manager
    }

    /// The invariant of the list and of the manager.
    pub open spec fn wf(&self) -> bool {
        self.list().wf() && self.downloads().wf()
    }

    /// No file known, no download.
    pub fn new() -> (c: Self)
        ensures
            c.wf(),
            c.list()@ == Seq::<crate::transfer::FileItemView>::empty(),
            c.downloads().file() is None,
    {
        ClientTransfer { files: FileList::new(), manager: DownloadManager::new() }
    }

    /// The files the client knows of.
    pub fn files(&self) -> (r: &FileList)
        ensures
            *r == self.list(),
    {
        &self.files
    }

    /// The download manager.
    pub fn manager(&self) -> (r: &DownloadManager)
        ensures
            *r == self.downloads(),
    {
        &self.manager
    }

    /// Merges the host's catalog into the list; files in progress keep their
    /// state.
    pub fn on_files_update(&mut self, update: &FilesUpdate)
        requires
            old(self).wf(),
        ensures
            final(self).wf(),
            final(self).list()@ == crate::transfer::merged(old(self).list()@, update.files@),
            final(self).downloads() == old(self).downloads(),
    {
        self.files.merge_update(update);
    }

    /// The user accepts the file `uuid`. With no download in progress the
    /// download starts and the request to send to the host is returned (an
    /// empty file is complete at once); otherwise the file is queued.
    pub fn handle_file_accept(&mut self, uuid: u128) -> (r: Option<FileRequest>)
        requires
            old(self).wf(),
        ensures
            final(self).wf(),
            !holds(old(self).list()@, uuid) ==> r is None && *final(self) == *old(self),
            holds(old(self).list()@, uuid) ==> {
                let p = position(old(self).list()@, uuid);
                let item = old(self).list()@[p];
                &&& old(self).downloads().is_active() ==> r is None && final(self).list()@
                    == old(self).list()@.update(
                    p,
                    crate::transfer::FileItemView { state: FileState::Queued, ..item },
                ) && final(self).downloads() == old(self).downloads()
                &&& !old(self).downloads().is_active() ==> r == Some(FileRequest { uuid })
                    && final(self).downloads().file() == Some((item.name, item.size, uuid))
                    && final(self).downloads().counter() == 0
                    && final(self).downloads().stored().chunks(uuid).len() == 0
                    && (item.size == 0 ==> final(self).downloads().stored().meta(uuid) == Some(
                    FileMetaView { name: item.name, chunks: 0 },
                )) && (item.size > 0 ==> final(self).downloads().stored().meta(uuid) is None)
                    && (forall|u: u128|
                    u != uuid ==> #[trigger] final(self).downloads().stored().chunks(u) == old(
                        self,
                    ).downloads().stored().chunks(u) && final(self).downloads().stored().meta(u)
                        == old(self).downloads().stored().meta(u))
                    && final(self).downloads().volume() == 0 && final(self).list()@
                    == old(self).list()@.update(
                    p,
                    crate::transfer::FileItemView {
                        state: if item.size == 0 {
                            FileState::Done
                        } else {
                            FileState::Transferring
                        },
                        ..item
                    },
                )
            },
    {
        let i = match self.files.find(uuid) {
            Some(i) => i,
            None => {
                return None;
            },
        };
        if self.manager.active() {
            self.files.set_state(uuid, FileState::Queued);
            return None;
        }
        let tag = self.files.get(i).tag.duplicate();
        let empty = tag.size == 0;
        self.manager.new_file(tag);
        if empty {
            self.files.set_state(uuid, FileState::Done);
        } else {
            self.files.set_state(uuid, FileState::Transferring);
        }
        Some(FileRequest { uuid })
    }

    /// The position of the first queued file.
    fn first_queued(&self) -> (r: Option<usize>)
        requires
            self.wf(),
        ensures
            match r {
                Some(i) => i < self.list()@.len() && self.list()@[i as int].state
                    == FileState::Queued && none_queued_before(self.list()@, i as int),
                None => none_queued_before(self.list()@, self.list()@.len() as int),
            },
    {
        let mut i: usize = 0;
        while i < self.files.len()
            invariant
                i <= self.files@.len(),
                none_queued_before(self.files@, i as int),
            decreases self.files@.len() - i,
        {
            if self.files.get(i).state == FileState::Queued {
                return Some(i);
            }
            i = i + 1;
        }
        None
    }

    /// A binary frame arrived: stores it as the next chunk of the download.
    /// Once the file is complete its entry is done and the first queued file,
    /// if any, is accepted in turn.
    pub fn on_chunk(&mut self, chunk: Vec<u8>) -> (r: Result<ChunkOutcome, SaveError>)
        requires
            old(self).wf(),
        ensures
            final(self).wf(),
            r is Err ==> *final(self) == *old(self),
            !old(self).downloads().is_active() <==> r == Err::<ChunkOutcome, SaveError>(
                SaveError::NoFile,
            ),
            old(self).downloads().is_active() && old(self).downloads().volume() + chunk@.len() > (
            old(self).downloads().file()->0).1 <==> r == Err::<ChunkOutcome, SaveError>(
                SaveError::SizeMismatch,
            ),
            old(self).downloads().is_active() && old(self).downloads().volume() + chunk@.len() <= (
            old(self).downloads().file()->0).1 && old(self).downloads().counter() == u32::MAX
                <==> r == Err::<ChunkOutcome, SaveError>(SaveError::TooManyChunks),
            r is Ok ==> final(self).downloads().stored().chunks((old(self).downloads().file()->0).2)
                == old(self).downloads().stored().chunks((old(self).downloads().file()->0).2).push(
                chunk@,
            ),
            r is Ok ==> ((r matches Ok(ChunkOutcome::Completed { .. })) <==> old(self).downloads().volume() + chunk@.len() == (
            old(self).downloads().file()->0).1),
            match r {
                Ok(ChunkOutcome::Progress { done, size }) => {
                    &&& final(self).downloads().is_active()
                    &&& done == final(self).downloads().volume()
                    &&& size == (old(self).downloads().file()->0).1
                    &&& final(self).list()@ == after_progress(
                        old(self).list()@,
                        (old(self).downloads().file()->0).2,
                        done,
                    )
                },
                Ok(ChunkOutcome::Completed { next }) => {
                    let (name, size, uuid) = old(self).downloads().file()->0;
                    let finished = after_completion(old(self).list()@, uuid, size);
                    &&& final(self).downloads().stored().meta(uuid) == Some(
                        FileMetaView { name, chunks: (old(self).downloads().counter() + 1) as u32 },
                    )
                    &&& concat_all(final(self).downloads().stored().chunks(uuid)).len() == size
                    &&& next is None <==> none_queued_before(finished, finished.len() as int)
                    &&& next is None ==> final(self).list()@ == finished
                        && final(self).downloads().file() == old(self).downloads().file()
                    &&& next is Some ==> exists|q: int|
                        0 <= q < finished.len() && finished[q].state == FileState::Queued
                            && none_queued_before(finished, q) && next == Some(
                            FileRequest { uuid: finished[q].uuid },
                        ) && final(self).list()@ == finished.update(
                            q,
                            FileItemView {
                                state: if finished[q].size == 0 {
                                    FileState::Done
                                } else {
                                    FileState::Transferring
                                },
                                ..finished[q]
                            },
                        ) && final(self).downloads().file() == Some(
                            (finished[q].name, finished[q].size, finished[q].uuid),
                        ) && final(self).downloads().volume() == 0
                },
                Err(_) => true,
            },
    {
        let uuid = match &self.manager.file_tag {
            Some(t) => t.uuid,
            None => {
                return Err(SaveError::NoFile);
            },
        };
        let complete = match self.manager.save_chunk(chunk) {
            Ok(c) => c,
            Err(e) => {
                return Err(e);
            },
        };
        let (done, size) = self.manager.get_progress();
        let ghost listed = self.files@;
        self.files.transfer_update(uuid, done);
        if !complete {
            return Ok(ChunkOutcome::Progress { done, size });
        }
        let ghost progressed = self.files@;
        proof {
            if holds(listed, uuid) {
                let p = position(listed, uuid);
                assert(progressed[p].uuid == uuid);
                assert(holds(progressed, uuid));
                assert(position(progressed, uuid) == p);
            }
        }
        self.files.set_state(uuid, FileState::Done);
        proof {
            if holds(listed, uuid) {
                assert(self.files@ =~= after_completion(listed, uuid, size));
            } else {
                assert(self.files@ =~= after_completion(listed, uuid, size));
            }
        }
        let ghost finished = self.files@;
        let next = match self.first_queued() {
            Some(i) => {
                let q = self.files.get(i).tag.uuid;
                proof {
                    assert(holds(finished, q));
                    assert(position(finished, q) == i);
                    if q == uuid {
                        assert(holds(self.files@, uuid));
                        assert(position(self.files@, uuid) == i);
                    }
                }
                let request = self.handle_file_accept(q);
                assert(self.files@[i as int].uuid == q);
                request
            },
            None => None,
        };
        Ok(ChunkOutcome::Completed { next })
    }
}

/// The lengths of the chunks of a completely received file add up to its
/// size, and the store holds as many of them as its meta record says.
pub proof fn lemma_complete_file_has_its_size(m: &DownloadManager)
    requires
        m.wf(),
        m.file() is Some,
        m.volume() == (m.file()->0).1,
    ensures
        ({
            let (name, size, uuid) = m.file()->0;
            &&& concat_all(m.stored().chunks(uuid)).len() == size
            &&& m.stored().meta(uuid) is Some
            &&& m.stored().chunks(uuid).len() == m.stored().meta(uuid)->0.chunks
        }),
{
}

} // verus!
