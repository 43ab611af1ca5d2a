use filelink::file_tag::{FileState, FileTag};
use filelink::keys::{chunk_key, meta_key};
use filelink::receiver::{ChunkOutcome, ClientTransfer, DownloadManager, SaveError};
use filelink::store::{ChunkStore, StoreError};
use filelink::transfer::{
    frame_ranges, FileInfo, FileList, FileRequest, FilesUpdate, RequestOutcome, SendAction, Sender, SenderState,
    CHUNK_SIZE, HIGH_WATERMARK, LOW_WATERMARK,
};

const U: u128 = 0x67e55044_10b1_426f_9247_bb680e5fe0c8;
const V: u128 = 0x00000000_0000_0000_0000_000000000001;

fn source(n: usize) -> Vec<u8> {
    (0..n).map(|i| (i * 7 % 251) as u8).collect()
}

fn drain(sender: &mut Sender) -> Vec<(u64, u64)> {
    let mut out = Vec::new();
    loop {
        match sender.next_action(0) {
            SendAction::Chunk { start, end, .. } => out.push((start, end)),
            SendAction::Idle => return out,
            SendAction::AwaitDrain => panic!("no buffer, no wait"),
        }
    }
}

#[test]
fn catalog_and_transfer_of_three_chunks() {
    let data = source(131073);
    let mut catalog = FileList::new();
    catalog.add_file(FileTag::new("x.bin".to_string(), 131073, U));
    let mut client = ClientTransfer::new();
    client.on_files_update(&catalog.files_update());
    assert_eq!(client.files().len(), 1);
    let request = client.handle_file_accept(U).unwrap();
    assert_eq!(request, FileRequest { uuid: U });

    let mut sender = Sender::new();
    assert_eq!(sender.on_request(&mut catalog, &request), RequestOutcome::Started);
    let ranges = drain(&mut sender);
    assert_eq!(ranges, vec![(0, 65536), (65536, 131072), (131072, 131073)]);
    let sizes: Vec<u64> = ranges.iter().map(|(s, e)| e - s).collect();
    assert_eq!(sizes, vec![65536, 65536, 1]);

    let mut outcomes = Vec::new();
    for (s, e) in &ranges {
        outcomes.push(client.on_chunk(data[*s as usize..*e as usize].to_vec()).unwrap());
    }
    assert_eq!(outcomes[0], ChunkOutcome::Progress { done: 65536, size: 131073 });
    assert_eq!(outcomes[1], ChunkOutcome::Progress { done: 131072, size: 131073 });
    assert_eq!(outcomes[2], ChunkOutcome::Completed { next: None });

    let store = client.manager().store();
    let chunks = store.scan(U);
    assert_eq!(chunks.len(), 3);
    assert_eq!(chunks[2], vec![data[131072]]);
    let meta = store.get_meta(U).unwrap();
    assert_eq!(meta.name, "x.bin");
    assert_eq!(meta.chunks, 3);
    assert_eq!(chunk_key(U, 0), "$67e55044-10b1-426f-9247-bb680e5fe0c8-$0");
    assert_eq!(chunk_key(U, 1), "$67e55044-10b1-426f-9247-bb680e5fe0c8-$1");
    assert_eq!(chunk_key(U, 2), "$67e55044-10b1-426f-9247-bb680e5fe0c8-$2");
    assert_eq!(meta_key(U), "$67e55044-10b1-426f-9247-bb680e5fe0c8");
    let blob = store.assemble(U).unwrap();
    assert_eq!(blob.len(), 131073);
    assert_eq!(blob, data);
    assert_eq!(client.files().get(0).state, FileState::Done);
}

#[test]
fn queued_file_is_requested_after_the_first_completes() {
    let mut catalog = FileList::new();
    catalog.add_file(FileTag::new("a".to_string(), 10, U));
    catalog.add_file(FileTag::new("b".to_string(), 3, V));
    let mut client = ClientTransfer::new();
    client.on_files_update(&catalog.files_update());
    let first = client.handle_file_accept(U);
    assert_eq!(first, Some(FileRequest { uuid: U }));
    assert_eq!(client.handle_file_accept(V), None);
    assert_eq!(client.files().get(1).state, FileState::Queued);

    let mut sender = Sender::new();
    assert_eq!(sender.on_request(&mut catalog, &first.unwrap()), RequestOutcome::Started);
    assert_eq!(sender.on_request(&mut catalog, &FileRequest { uuid: V }), RequestOutcome::Busy);
    assert_eq!(client.on_chunk(vec![1; 6]).unwrap(), ChunkOutcome::Progress { done: 6, size: 10 });
    let done = client.on_chunk(vec![2; 4]).unwrap();
    assert_eq!(done, ChunkOutcome::Completed { next: Some(FileRequest { uuid: V }) });
    assert_eq!(client.files().get(0).state, FileState::Done);
    assert_eq!(client.files().get(1).state, FileState::Transferring);
    assert_eq!(client.on_chunk(vec![3; 3]).unwrap(), ChunkOutcome::Completed { next: None });
    assert_eq!(client.files().get(1).state, FileState::Done);
    assert_eq!(client.manager().store().assemble(U).unwrap(), vec![1, 1, 1, 1, 1, 1, 2, 2, 2, 2]);
    assert_eq!(client.manager().store().assemble(V).unwrap(), vec![3, 3, 3]);
}

#[test]
fn zero_byte_file_completes_with_no_chunk() {
    let mut catalog = FileList::new();
    catalog.add_file(FileTag::new("empty".to_string(), 0, U));
    let mut client = ClientTransfer::new();
    client.on_files_update(&catalog.files_update());
    let request = client.handle_file_accept(U).unwrap();
    assert_eq!(client.files().get(0).state, FileState::Done);
    let mut sender = Sender::new();
    assert_eq!(sender.on_request(&mut catalog, &request), RequestOutcome::Completed);
    assert_eq!(sender.state, SenderState::Idle);
    assert_eq!(catalog.get(0).state, FileState::Done);
    let store = client.manager().store();
    assert_eq!(store.get_meta(U).unwrap().chunks, 0);
    assert_eq!(store.chunk_count(U), 0);
    assert_eq!(store.assemble(U).unwrap(), Vec::<u8>::new());
    assert!(!client.manager().active());
}

#[test]
fn last_chunk_holds_the_remainder() {
    let mut catalog = FileList::new();
    catalog.add_file(FileTag::new("f".to_string(), 2 * CHUNK_SIZE + 5, U));
    let mut sender = Sender::new();
    assert_eq!(sender.on_request(&mut catalog, &FileRequest { uuid: U }), RequestOutcome::Started);
    let ranges = drain(&mut sender);
    assert_eq!(ranges.len(), 3);
    assert_eq!(ranges[2].1 - ranges[2].0, 5);
    let mut catalog = FileList::new();
    catalog.add_file(FileTag::new("g".to_string(), 2 * CHUNK_SIZE, V));
    assert_eq!(sender.on_request(&mut catalog, &FileRequest { uuid: V }), RequestOutcome::Started);
    let ranges = drain(&mut sender);
    assert_eq!(ranges, vec![(0, CHUNK_SIZE), (CHUNK_SIZE, 2 * CHUNK_SIZE)]);
}

#[test]
fn sender_waits_while_buffer_is_full() {
    let mut catalog = FileList::new();
    catalog.add_file(FileTag::new("f".to_string(), 3 * CHUNK_SIZE, U));
    let mut sender = Sender::new();
    sender.on_request(&mut catalog, &FileRequest { uuid: U });
    assert!(matches!(sender.next_action(HIGH_WATERMARK), SendAction::Chunk { start: 0, .. }));
    assert_eq!(sender.next_action(HIGH_WATERMARK + 1), SendAction::AwaitDrain);
    assert_eq!(sender.next_action(LOW_WATERMARK + 1), SendAction::AwaitDrain);
    assert!(matches!(sender.next_action(LOW_WATERMARK), SendAction::Chunk { start: 65536, .. }));
    sender.abort();
    assert_eq!(sender.next_action(0), SendAction::Idle);
}

#[test]
fn request_for_unknown_file_gets_the_catalog_again() {
    let mut catalog = FileList::new();
    catalog.add_file(FileTag::new("f".to_string(), 1, U));
    let mut sender = Sender::new();
    assert_eq!(sender.on_request(&mut catalog, &FileRequest { uuid: V }), RequestOutcome::UnknownFile);
    assert_eq!(sender.state, SenderState::Idle);
}

#[test]
fn readvertised_catalog_keeps_transfer_state() {
    let mut client = ClientTransfer::new();
    let update = FilesUpdate {
        files: vec![FileInfo { name: "a".to_string(), uuid: U, size: 4 }],
    };
    client.on_files_update(&update);
    client.handle_file_accept(U);
    let update2 = FilesUpdate {
        files: vec![
            FileInfo { name: "a".to_string(), uuid: U, size: 4 },
            FileInfo { name: "b".to_string(), uuid: V, size: 2 },
        ],
    };
    client.on_files_update(&update2);
    assert_eq!(client.files().len(), 2);
    assert_eq!(client.files().get(0).state, FileState::Transferring);
    assert_eq!(client.files().get(1).state, FileState::Pending);
    assert_eq!(client.files().get(1).tag.name(), "b");
}

#[test]
fn host_catalog_updates() {
    let mut catalog = FileList::new();
    catalog.add_file(FileTag::new("a".to_string(), 100, U));
    catalog.add_file(FileTag::new("b".to_string(), 5, V));
    catalog.transfer_update(U, 50);
    assert_eq!(catalog.get(0).done, 50);
    assert_eq!(catalog.get(0).state, FileState::Pending);
    catalog.transfer_update(U, 100);
    assert_eq!(catalog.get(0).state, FileState::Done);
    catalog.remove_file(U);
    assert_eq!(catalog.len(), 1);
    let update = catalog.files_update();
    assert_eq!(update.files, vec![FileInfo { name: "b".to_string(), uuid: V, size: 5 }]);
}

#[test]
fn chunk_errors() {
    let mut m = DownloadManager::new();
    assert_eq!(m.save_chunk(vec![1]), Err(SaveError::NoFile));
    m.new_file(FileTag::new("f".to_string(), 2, U));
    assert!(m.active());
    assert_eq!(m.save_chunk(vec![1, 2, 3]), Err(SaveError::SizeMismatch));
    assert_eq!(m.save_chunk(vec![1]), Ok(false));
    assert_eq!(m.get_progress(), (1, 2));
    assert_eq!(m.save_chunk(vec![2]), Ok(true));
    assert_eq!(m.save_chunk(vec![3]), Err(SaveError::NoFile));
    assert_eq!(m.get_file_tag().unwrap().uuid(), U);
}

#[test]
fn store_refuses_out_of_order_chunks() {
    let mut s = ChunkStore::new();
    assert_eq!(s.put_chunk(U, 1, vec![1]), Err(StoreError::OutOfOrder));
    assert_eq!(s.put_chunk(U, 0, vec![1]), Ok(()));
    assert_eq!(s.put_chunk(V, 0, vec![9]), Ok(()));
    assert_eq!(s.put_chunk(U, 1, vec![2]), Ok(()));
    assert_eq!(s.assemble(U), None);
    s.put_meta(U, filelink::store::FileMeta { name: "u".to_string(), chunks: 2 });
    assert_eq!(s.assemble(U), Some(vec![1, 2]));
    s.delete_file(U);
    assert_eq!(s.chunk_count(U), 0);
    assert!(s.get_meta(U).is_none());
    assert_eq!(s.scan(V), vec![vec![9]]);
}

#[test]
fn frame_sequences_of_whole_files() {
    assert_eq!(frame_ranges(0), Vec::<(u64, u64)>::new());
    assert_eq!(frame_ranges(1), vec![(0, 1)]);
    assert_eq!(frame_ranges(131073), vec![(0, 65536), (65536, 131072), (131072, 131073)]);
    assert_eq!(frame_ranges(131072), vec![(0, 65536), (65536, 131072)]);
}
