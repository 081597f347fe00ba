use nexkvm::checkpoint::bytes_before_entry;
use nexkvm::checkpoint::checkpoint_after_chunk;
use nexkvm::checkpoint::checkpoint_before_entry;
use nexkvm::checkpoint::has_files;
use nexkvm::checkpoint::next_file_position;
use nexkvm::checkpoint::terminal_checkpoint;
use nexkvm::checkpoint::validate_checkpoint;
use nexkvm::checkpoint::FilePosition;
use nexkvm::checkpoint::TransferCheckpoint;
use nexkvm::content::Content;
use nexkvm::content::FileDigest;
use nexkvm::content::PrefixRead;
use nexkvm::digest::digest_text;
use nexkvm::digest::manifest_digest;
use nexkvm::digest::parse_sha256_hex;
use nexkvm::files::check_kind;
use nexkvm::files::check_persisted_file;
use nexkvm::files::check_read_length;
use nexkvm::files::check_unchanged;
use nexkvm::files::is_owner_only;
use nexkvm::files::is_queue_record_name;
use nexkvm::files::next_block;
use nexkvm::files::quarantine_name;
use nexkvm::files::queue_record_names;
use nexkvm::files::FileError;
use nexkvm::files::FileFacts;
use nexkvm::files::FileKind;
use nexkvm::files::FileRole;
use nexkvm::ids::DeviceId;
use nexkvm::ids::TransferId;
use nexkvm::inbound::InboundAction;
use nexkvm::inbound::InboundTransfer;
use nexkvm::manifest::max_bytes;
use nexkvm::manifest::max_entries;
use nexkvm::manifest::validate_manifest_policy;
use nexkvm::manifest::FileTransferConfig;
use nexkvm::manifest::TransferEntry;
use nexkvm::manifest::TransferManifest;
use nexkvm::manifest::WireLimits;
use nexkvm::message::after_outbound;
use nexkvm::message::after_scan;
use nexkvm::message::check_lane;
use nexkvm::message::handle_idle_message;
use nexkvm::message::inbound_failure_reply;
use nexkvm::message::message_transfer_id;
use nexkvm::message::outbound_wins_collision;
use nexkvm::message::FileTransferMessage;
use nexkvm::message::IdleAction;
use nexkvm::message::LaneStep;
use nexkvm::message::OutboundResult;
use nexkvm::message::QueueScan;
use nexkvm::message::Reply;
use nexkvm::message::TransferPolicy;
use nexkvm::outbound::OutboundAction;
use nexkvm::outbound::OutboundTransfer;
use nexkvm::queue::confirm_record;
use nexkvm::queue::confirm_sources;
use nexkvm::queue::is_queued_before;
use nexkvm::queue::manifest_from_queue;
use nexkvm::queue::oldest_record;
use nexkvm::queue::queue_transfer;
use nexkvm::queue::validate_queue_record;
use nexkvm::queue::QueuedTransfer;
use nexkvm::receive::admit_existing_state;
use nexkvm::receive::fresh_receive_state;
use nexkvm::receive::reconcile_receive_checkpoint;
use nexkvm::receive::settle_receive_state;
use nexkvm::receive::ArtifactAction;
use nexkvm::receive::ObservedEntry;
use nexkvm::receive::ObservedFile;
use nexkvm::receive::PartFile;
use nexkvm::receive::ReceiveSession;
use nexkvm::receive::ReceiveWriteOutcome;
use nexkvm::receive::TransferChunk;
use nexkvm::sources::check_enabled;
use nexkvm::sources::check_root;
use nexkvm::sources::check_send_request;
use nexkvm::sources::BoundedCollection;
use nexkvm::sources::QueuedSource;
use nexkvm::sources::SourceCollector;
use nexkvm::sources::SourceKind;
use nexkvm::transfer_error::PeerReason;
use nexkvm::transfer_error::TransferError;
use nexkvm::walk::Place;
use nexkvm::walk::SourceWalk;

fn digest(content: &[u8]) -> [u8; 32] {
    let text = manifest_digest(content);
    parse_sha256_hex(&text).unwrap()
}

fn content(bytes: &[u8]) -> Content {
    let mut content = Content::new();
    assert!(content.absorb(bytes));
    content
}

fn digested(bytes: &[u8]) -> FileDigest {
    content(bytes).finish()
}

fn wire() -> WireLimits {
    WireLimits {
        max_manifest_entries: 10_000,
        max_total_bytes: 1 << 40,
        max_chunk_size: 65_536,
    }
}

fn enabled_config() -> FileTransferConfig {
    FileTransferConfig {
        enabled: true,
        download_dir: None,
        max_transfer_bytes: 1024,
        max_entries: 32,
    }
}

fn file(path: &str, content: &[u8]) -> TransferEntry {
    TransferEntry {
        relative_path: path.into(),
        is_dir: false,
        size_bytes: content.len() as u64,
        sha256: Some(digest(content)),
    }
}

fn dir(path: &str) -> TransferEntry {
    TransferEntry {
        relative_path: path.into(),
        is_dir: true,
        size_bytes: 0,
        sha256: None,
    }
}

const SENDER: DeviceId = DeviceId(11);
const RECEIVER: DeviceId = DeviceId(22);

fn manifest(entries: Vec<TransferEntry>) -> TransferManifest {
    let total_bytes = entries.iter().map(|entry| entry.size_bytes).sum();
    TransferManifest {
        id: TransferId(7),
        from: SENDER,
        to: Some(RECEIVER),
        entries,
        total_bytes,
    }
}

fn folder() -> TransferManifest {
    manifest(vec![
        dir("folder"),
        file("folder/a.txt", b"abc"),
        dir("folder/empty"),
        file("folder/z.txt", b"z"),
    ])
}

fn sources(manifest: &TransferManifest) -> Vec<QueuedSource> {
    manifest
        .entries
        .iter()
        .map(|entry| QueuedSource {
            absolute_path: format!("/src/{}", entry.relative_path),
            relative_path: entry.relative_path.clone(),
            is_dir: entry.is_dir,
            size_bytes: entry.size_bytes,
            sha256: entry.sha256.as_ref().map(digest_text),
        })
        .collect()
}

fn policy(peer: DeviceId, local: DeviceId) -> TransferPolicy {
    TransferPolicy {
        config: enabled_config(),
        wire: wire(),
        peer,
        local,
    }
}

fn at(file_index: u32, offset: u64, transferred_bytes: u64) -> TransferCheckpoint {
    TransferCheckpoint {
        id: TransferId(7),
        file_index,
        offset,
        transferred_bytes,
    }
}

fn chunk(file_index: u32, offset: u64, payload: &[u8], last: bool) -> TransferChunk {
    TransferChunk {
        transfer_id: TransferId(7),
        file_index,
        offset,
        plain_len: payload.len() as u32,
        compressed: false,
        final_chunk_for_file: last,
        payload: payload.to_vec(),
    }
}

const NOTHING: ObservedEntry = ObservedEntry {
    final_file: None,
    part_file: None,
};

fn whole(content: &[u8]) -> ObservedFile {
    ObservedFile {
        len: content.len() as u64,
        digest: Some(digested(content)),
    }
}

fn finished(content: &[u8]) -> ObservedEntry {
    ObservedEntry {
        final_file: Some(whole(content)),
        part_file: None,
    }
}

fn part(content: &[u8]) -> ObservedEntry {
    ObservedEntry {
        final_file: None,
        part_file: Some(whole(content)),
    }
}

fn opened(manifest: TransferManifest, observed: Vec<ObservedEntry>) -> ReceiveSession {
    let state = fresh_receive_state(manifest.id, "m".into());
    match ReceiveSession::open(manifest, state, &observed) {
        Ok((session, _)) => session,
        Err(error) => panic!("{error:?}"),
    }
}

fn fresh(manifest: TransferManifest) -> ReceiveSession {
    let observed = vec![NOTHING; manifest.entries.len()];
    opened(manifest, observed)
}

fn receiving(manifest: TransferManifest) -> InboundTransfer {
    InboundTransfer::accept(fresh(manifest)).0
}

fn sending(manifest: &TransferManifest, checkpoint: Option<TransferCheckpoint>) -> OutboundTransfer {
    let mut out = OutboundTransfer::offered(manifest.clone(), sources(manifest));
    let accept = FileTransferMessage::Accept {
        transfer_id: manifest.id,
        checkpoint,
    };
    out.on_message(&accept, &policy(RECEIVER, SENDER), &Vec::new());
    out
}

#[test]
fn root_count_limit_is_checked_before_source_inspection_or_allocation() {
    let mut config = enabled_config();
    config.max_entries = 1;

    let error = check_send_request(&config, wire(), 2).unwrap_err();

    assert!(error
        .message()
        .contains("source exceeds the configured manifest-entry limit"));
    assert!(check_send_request(&config, wire(), 1).is_ok());
}

#[test]
fn bounded_collection_keeps_only_the_limit_and_pulls_one_overflow_sentinel() {
    let pulled = std::cell::Cell::new(0usize);
    let overflowing = (0..100).map(|value| {
        pulled.set(pulled.get() + 1);
        value
    });

    let mut kept = BoundedCollection::new(3, wire()).unwrap();
    let mut error = None;
    for value in overflowing {
        if let Err(refused) = kept.offer(Ok(value), TransferError::TooManyEntries) {
            error = Some(refused);
            break;
        }
    }

    assert_eq!(pulled.get(), 4, "only one sentinel may be consumed");
    assert_eq!(error, Some(TransferError::TooManyEntries));

    let mut exact = BoundedCollection::new(3, wire()).unwrap();
    for value in 0..3 {
        exact.offer(Ok(value), TransferError::TooManyEntries).unwrap();
    }
    assert_eq!(exact.items, [0, 1, 2]);
    assert_eq!(
        exact.offer(Err(TransferError::TreeSymlink), TransferError::TooManyEntries),
        Err(TransferError::TreeSymlink)
    );
    assert_eq!(
        BoundedCollection::<u8>::new(10_001, wire()).unwrap_err(),
        TransferError::CollectionLimitTooLarge
    );
}

#[test]
fn inbound_policy_requires_authenticated_sender_target_and_portable_tree() {
    let config = enabled_config();
    let valid = manifest(vec![dir("folder"), file("folder/a.txt", b"a")]);
    let portable = vec![true, true];
    let check = |m: &TransferManifest, sender: DeviceId, portable: &Vec<bool>| {
        validate_manifest_policy(m, &config, wire(), sender, RECEIVER, portable)
    };
    check(&valid, SENDER, &portable).unwrap();

    let mut untargeted = valid.clone();
    untargeted.to = None;
    assert_eq!(
        check(&untargeted, SENDER, &portable),
        Err(TransferError::TargetMismatch)
    );
    assert_eq!(
        check(&valid, DeviceId(99), &portable),
        Err(TransferError::SenderMismatch)
    );

    let case_collision = manifest(vec![file("Readme.txt", b"a"), file("README.txt", b"b")]);
    assert_eq!(
        check(&case_collision, SENDER, &portable),
        Err(TransferError::CaseCollidingPaths)
    );
    let beyond_ascii = manifest(vec![file("Ä.txt", b"a"), file("ä.txt", b"b")]);
    assert_eq!(
        check(&beyond_ascii, SENDER, &portable),
        Err(TransferError::CaseCollidingPaths)
    );
    assert_eq!(
        check(&valid, SENDER, &vec![true, false]),
        Err(TransferError::PathNotPortable)
    );
    let child_first = manifest(vec![file("folder/a.txt", b"a"), dir("folder")]);
    assert_eq!(
        check(&child_first, SENDER, &portable),
        Err(TransferError::ChildBeforeParent)
    );
    let mut large = valid.clone();
    large.total_bytes = 1025;
    assert_eq!(
        check(&large, SENDER, &portable),
        Err(TransferError::ByteCountExceedsPolicy)
    );
    let mut narrow = enabled_config();
    narrow.max_entries = 1;
    assert_eq!(
        validate_manifest_policy(&valid, &narrow, wire(), SENDER, RECEIVER, &portable),
        Err(TransferError::EntryCountExceedsPolicy)
    );
    assert_eq!(max_entries(&narrow, wire()), 1);
    assert_eq!(max_bytes(&narrow, wire()), 1024);
}

#[test]
fn sources_are_collected_within_the_limits() {
    let mut sources = SourceCollector::new(4, 1024);
    sources
        .add("/t/folder".into(), "folder".into(), 0, true, None)
        .unwrap();
    sources
        .add("/t/folder/a.txt".into(), "folder/a.txt".into(), 3, true, Some(digested(b"abc")))
        .unwrap();
    assert_eq!(sources.remaining_entries(), Ok(2));
    assert_eq!(sources.total_bytes, 3);
    assert_eq!(
        sources.entries[1].sha256.as_deref(),
        Some(manifest_digest(b"abc").as_str())
    );
    assert_eq!(sources.entries[0].sha256, None);
    let refused = |path: &str, kind: SourceKind, len: u64, portable: bool| {
        sources.check(path, kind, len, portable).unwrap_err()
    };
    assert_eq!(refused("l", SourceKind::Symlink, 0, true), TransferError::TreeSymlink);
    assert_eq!(refused("p", SourceKind::Special, 0, true), TransferError::TreeSpecial);
    assert_eq!(refused("a\\b", SourceKind::File, 1, false), TransferError::PathNotPortable);
    assert_eq!(
        refused("folder/A.TXT", SourceKind::File, 1, true),
        TransferError::SourcePathsCollide
    );
    assert_eq!(refused("big", SourceKind::File, 1025, true), TransferError::TooManyBytes);
    assert_eq!(
        refused("huge", SourceKind::File, u64::MAX, true),
        TransferError::SourceByteOverflow
    );
    assert!(sources.check("b", SourceKind::File, 1021, true).is_ok());
    let mut full = SourceCollector::new(1, 10);
    full.add("/a".into(), "a".into(), 1, true, Some(digested(b"a")))
        .unwrap();
    assert_eq!(
        full.check("b", SourceKind::File, 1, true),
        Err(TransferError::TooManyEntries)
    );
}

#[test]
fn requests_and_roots_are_checked() {
    let mut off = enabled_config();
    off.enabled = false;
    assert_eq!(check_enabled(&off), Err(TransferError::Disabled));
    assert_eq!(check_enabled(&enabled_config()), Ok(()));
    assert_eq!(
        check_send_request(&enabled_config(), wire(), 0),
        Err(TransferError::NoSources)
    );
    let mut none = enabled_config();
    none.max_entries = 0;
    assert_eq!(
        check_send_request(&none, wire(), 1),
        Err(TransferError::NoEntriesAllowed)
    );
    let mut wide = enabled_config();
    wide.max_transfer_bytes = u64::MAX;
    assert_eq!(
        check_send_request(&wide, wire(), 1),
        Err(TransferError::ByteLimitExceedsWire)
    );
    let roots = vec!["same.txt".to_owned()];
    assert_eq!(
        check_root(&roots, "Same.TXT", SourceKind::File, true),
        Err(TransferError::BasenamesCollide)
    );
    assert_eq!(
        check_root(&roots, "link", SourceKind::Symlink, true),
        Err(TransferError::SourceSymlink)
    );
    assert_eq!(
        check_root(&roots, "fifo", SourceKind::Special, true),
        Err(TransferError::SourceSpecial)
    );
    assert_eq!(
        check_root(&roots, "odd", SourceKind::File, false),
        Err(TransferError::PathNotPortable)
    );
    assert!(check_root(&roots, "other.txt", SourceKind::Directory, true).is_ok());
}

fn queued(id: u128, at: u64) -> QueuedTransfer {
    let mut collected = SourceCollector::new(8, 1024);
    collected
        .add("/t/payload.bin".into(), "payload.bin".into(), 15, true, Some(digested(b"manifest digest")))
        .unwrap();
    queue_transfer(collected, TransferId(id), at)
}

#[test]
fn offered_manifests_hold_the_queued_digests() {
    let transfer = queued(7, 1);
    let offered = manifest_from_queue(&transfer, SENDER, RECEIVER, &vec![true]).unwrap();
    let queued_digest = parse_sha256_hex(transfer.entries[0].sha256.as_deref().unwrap()).unwrap();
    assert_eq!(offered.entries[0].sha256, Some(queued_digest));
    assert_eq!(queued_digest, digest(b"manifest digest"));
    assert_eq!(offered.id, TransferId(7));
    assert_eq!(offered.from, SENDER);
    assert_eq!(offered.to, Some(RECEIVER));
    assert_eq!(offered.total_bytes, 15);

    let mut short = transfer.clone();
    short.total_bytes = 14;
    assert_eq!(
        manifest_from_queue(&short, SENDER, RECEIVER, &vec![true]).unwrap_err(),
        TransferError::QueueTotalMismatch
    );
    let mut bare = transfer.clone();
    bare.entries[0].sha256 = None;
    assert_eq!(
        manifest_from_queue(&bare, SENDER, RECEIVER, &vec![true]).unwrap_err(),
        TransferError::QueuedFileWithoutDigest
    );
}

#[test]
fn identifiers_are_spelled_with_hyphens() {
    assert_eq!(
        TransferId(0x0123_4567_89ab_4def_8123_4567_89ab_cdef).text(),
        "01234567-89ab-4def-8123-456789abcdef"
    );
    let transfer = queued(0x0123_4567_89ab_4def_8123_4567_89ab_cdef, 1);
    assert_eq!(transfer.transfer_id, "01234567-89ab-4def-8123-456789abcdef");
    assert_eq!(
        transfer.id().unwrap(),
        TransferId(0x0123_4567_89ab_4def_8123_4567_89ab_cdef)
    );
    let mut bad = transfer.clone();
    bad.transfer_id = "no".into();
    assert_eq!(bad.id(), Err(TransferError::InvalidIdentifier));
}

#[test]
fn queue_records_are_validated_before_use() {
    let transfer = queued(7, 1);
    let name = TransferId(7).text();
    let check = |t: &QueuedTransfer, stem: Option<&str>| {
        validate_queue_record(stem, &enabled_config(), wire(), t)
    };
    assert_eq!(
        check(&transfer, Some(&name)).unwrap(),
        ["/t/payload.bin".to_owned()]
    );
    assert_eq!(
        check(&transfer, Some("other")).unwrap_err(),
        TransferError::QueueFilename
    );
    assert_eq!(check(&transfer, None).unwrap_err(), TransferError::QueueFilename);
    let mut old = transfer.clone();
    old.schema_version = 2;
    assert_eq!(check(&old, Some(&name)).unwrap_err(), TransferError::QueueSchema);
    let mut empty = transfer.clone();
    empty.entries.clear();
    assert_eq!(check(&empty, Some(&name)).unwrap_err(), TransferError::QueueEmpty);
    let mut heavy = transfer.clone();
    heavy.total_bytes = 1025;
    assert_eq!(
        check(&heavy, Some(&name)).unwrap_err(),
        TransferError::QueueByteLimit
    );
    let mut shouted = queued(0xab, 1);
    shouted.transfer_id = shouted.transfer_id.to_uppercase();
    let shouted_name = shouted.transfer_id.clone();
    assert_eq!(
        check(&shouted, Some(&shouted_name)).unwrap_err(),
        TransferError::NonCanonicalIdentifier
    );
    let mut nested = transfer.clone();
    nested.entries[0].relative_path = "folder/payload.bin".into();
    assert_eq!(
        check(&nested, Some(&name)).unwrap_err(),
        TransferError::NoSourceRoots
    );
}

#[test]
fn changed_sources_and_records_are_noticed() {
    let transfer = queued(7, 1);
    let mut same = SourceCollector::new(8, 1024);
    same.add("/t/payload.bin".into(), "payload.bin".into(), 15, true, Some(digested(b"manifest digest")))
        .unwrap();
    assert_eq!(confirm_sources(&transfer, &same), Ok(()));
    let mut changed = SourceCollector::new(8, 1024);
    changed
        .add("/t/payload.bin".into(), "payload.bin".into(), 15, true, Some(digested(b"manifest dIgest")))
        .unwrap();
    assert_eq!(
        confirm_sources(&transfer, &changed),
        Err(TransferError::SourcesChanged)
    );
    assert_eq!(confirm_record(&transfer, &queued(7, 1)), Ok(()));
    assert_eq!(
        confirm_record(&transfer, &queued(8, 1)),
        Err(TransferError::RecordChanged)
    );
}

#[test]
fn the_oldest_record_is_sent_first() {
    let records = vec![queued(3, 20), queued(2, 10), queued(1, 10), queued(9, 30)];
    assert_eq!(oldest_record(&records), Some(2));
    assert_eq!(oldest_record(&Vec::new()), None);
    assert!(is_queued_before(&records[1], &records[0]));
    assert!(is_queued_before(&records[2], &records[1]));
    assert!(!is_queued_before(&records[1], &records[2]));
}

#[test]
fn checkpoints_name_a_place_in_the_manifest() {
    let m = folder();
    assert_eq!(bytes_before_entry(&m, 3), Ok(3));
    for (checkpoint, verdict) in [
        (at(1, 2, 2), Ok(())),
        (at(3, 1, 4), Ok(())),
        (at(1, 4, 4), Err(TransferError::CheckpointPastFile)),
        (at(1, 2, 3), Err(TransferError::CheckpointInconsistent)),
        (at(4, 0, 4), Err(TransferError::CheckpointOutsideManifest)),
        (at(0, 0, 0), Err(TransferError::CheckpointAtDirectory)),
    ] {
        assert_eq!(validate_checkpoint(&m, checkpoint, false), verdict);
    }
    let mut foreign = at(1, 2, 2);
    foreign.id = TransferId(8);
    assert_eq!(
        validate_checkpoint(&m, foreign, false),
        Err(TransferError::CheckpointIdMismatch)
    );
    let ends_in_directory = manifest(vec![file("a", b"abc"), dir("d")]);
    assert_eq!(validate_checkpoint(&ends_in_directory, at(1, 0, 3), true), Ok(()));
    assert_eq!(
        validate_checkpoint(&ends_in_directory, at(1, 1, 3), true),
        Err(TransferError::DirectoryCheckpointOffset)
    );
    assert_eq!(terminal_checkpoint(&ends_in_directory), Ok(at(0, 3, 3)));
    assert_eq!(
        terminal_checkpoint(&manifest(vec![dir("c"), dir("d")])),
        Ok(at(1, 0, 0))
    );
    assert_eq!(terminal_checkpoint(&m), Ok(at(3, 1, 4)));
    assert_eq!(
        terminal_checkpoint(&manifest(vec![])),
        Err(TransferError::EmptyManifest)
    );
    assert!(has_files(&m) && !has_files(&manifest(vec![dir("d")])));
}

#[test]
fn positions_follow_checkpoints() {
    let m = folder();
    let place = |index: usize, offset: u64, transferred_bytes: u64| {
        Ok(Some(FilePosition {
            index,
            offset,
            transferred_bytes,
        }))
    };
    assert_eq!(next_file_position(&m, None), place(1, 0, 0));
    assert_eq!(next_file_position(&m, Some(at(1, 2, 2))), place(1, 2, 2));
    assert_eq!(next_file_position(&m, Some(at(1, 3, 3))), place(3, 0, 3));
    assert_eq!(next_file_position(&m, Some(at(3, 1, 4))), Ok(None));
    assert_eq!(checkpoint_after_chunk(&m, 1, 2), Ok(at(1, 2, 2)));
    assert_eq!(checkpoint_after_chunk(&m, 3, 1), Ok(at(3, 1, 4)));
    assert_eq!(checkpoint_before_entry(&m, 3), Ok(Some(at(1, 3, 3))));
    assert_eq!(checkpoint_before_entry(&m, 1), Ok(None));
}

#[test]
fn a_transfer_runs_to_its_acknowledged_end() {
    let m = folder();
    let offer = FileTransferMessage::Offer(m.clone());
    let portable = vec![true; 4];
    let receiver_policy = policy(SENDER, RECEIVER);
    let sender_policy = policy(RECEIVER, SENDER);
    assert_eq!(
        handle_idle_message(&offer, &receiver_policy, &portable, true),
        IdleAction::Receive
    );
    let mut out = OutboundTransfer::offered(m.clone(), sources(&m));
    let (mut inc, reply) = InboundTransfer::accept(fresh(m.clone()));
    assert_eq!(
        reply,
        Reply::Accept {
            transfer_id: m.id,
            checkpoint: None
        }
    );
    let accept = FileTransferMessage::Accept {
        transfer_id: m.id,
        checkpoint: None,
    };
    let none = Vec::new();
    assert_eq!(
        out.on_message(&accept, &sender_policy, &none),
        OutboundAction::OpenSource {
            file_index: 1,
            offset: 0
        }
    );
    let mut step = |out: &mut OutboundTransfer, index: u32, offset: u64, part: &[u8], last: bool, reached: u64| {
        let (action, sent) = out.on_chunk(part.to_vec());
        assert_eq!(action, OutboundAction::SendChunk);
        let sent = sent.unwrap();
        let expected = chunk(index, offset, part, last);
        assert_eq!(
            (sent.transfer_id, sent.file_index, sent.offset, sent.plain_len),
            (m.id, index, offset, part.len() as u32)
        );
        assert_eq!(sent.payload, expected.payload);
        assert_eq!((sent.final_chunk_for_file, sent.compressed), (last, false));
        let action = inc.on_message(FileTransferMessage::Chunk(sent), wire());
        assert!(matches!(action, InboundAction::Write(plan) if plan.final_chunk == last));
        let outcome = if last {
            ReceiveWriteOutcome::Published
        } else {
            ReceiveWriteOutcome::Partial
        };
        assert_eq!(inc.on_written(), InboundAction::Settle(outcome));
        let expected = at(index, offset + part.len() as u64, reached);
        assert_eq!(
            inc.on_settled(),
            InboundAction::PersistAndAnswer(Reply::Checkpoint(expected))
        );
        assert_eq!(
            out.on_message(&FileTransferMessage::Checkpoint(expected), &sender_policy, &none),
            OutboundAction::AcknowledgeAndRead(Reply::Ack(expected))
        );
        assert_eq!(
            inc.on_message(FileTransferMessage::Ack(expected), wire()),
            InboundAction::Continue
        );
    };
    assert_eq!(out.on_opened(Content::new()), OutboundAction::Read);
    step(&mut out, 1, 0, b"ab", false, 2);
    step(&mut out, 1, 2, b"c", true, 3);
    assert_eq!(
        out.on_file_end(),
        OutboundAction::OpenSource {
            file_index: 3,
            offset: 0
        }
    );
    assert_eq!(out.on_opened(Content::new()), OutboundAction::Read);
    step(&mut out, 3, 0, b"z", true, 4);
    let complete = Reply::Complete {
        transfer_id: m.id,
        transferred_bytes: 4,
    };
    assert_eq!(
        out.on_file_end(),
        OutboundAction::DeclareComplete(complete)
    );
    assert_eq!(
        inc.on_message(
            FileTransferMessage::Complete {
                transfer_id: m.id,
                transferred_bytes: 4
            },
            wire()
        ),
        InboundAction::PersistAnswerAndStop(Reply::Ack(at(3, 1, 4)))
    );
    assert!(inc.session.state.complete);
    assert_eq!(
        out.on_message(&FileTransferMessage::Ack(at(3, 1, 4)), &sender_policy, &none),
        OutboundAction::RemoveRecord
    );
    assert_eq!(
        after_outbound(&Ok(OutboundResult::Acknowledged)),
        LaneStep::Scan
    );
}

#[test]
fn both_sides_resume_where_the_receiver_stopped() {
    let m = folder();
    let mut out = OutboundTransfer::offered(m.clone(), sources(&m));
    let accept = FileTransferMessage::Accept {
        transfer_id: m.id,
        checkpoint: Some(at(1, 2, 2)),
    };
    assert_eq!(
        out.on_message(&accept, &policy(RECEIVER, SENDER), &vec![]),
        OutboundAction::OpenSource {
            file_index: 1,
            offset: 2
        }
    );
    let session = opened(m.clone(), vec![NOTHING, part(b"ab"), NOTHING, NOTHING]);
    let (mut inc, reply) = InboundTransfer::accept(session);
    assert_eq!(
        reply,
        Reply::Accept {
            transfer_id: m.id,
            checkpoint: Some(at(1, 2, 2))
        }
    );
    let action = inc.on_message(FileTransferMessage::Chunk(chunk(1, 2, b"c", true)), wire());
    assert!(matches!(action, InboundAction::Write(plan) if plan.part_file == PartFile::Resume));
}

#[test]
fn changed_or_refused_transfers_stay_queued() {
    let m = folder();
    let sender_policy = policy(RECEIVER, SENDER);
    let none = Vec::new();
    let start = || {
        let mut out = sending(&m, None);
        assert_eq!(out.on_opened(Content::new()), OutboundAction::Read);
        out
    };
    let mut changed = start();
    changed.on_chunk(b"axc".to_vec());
    changed.on_message(
        &FileTransferMessage::Checkpoint(at(1, 3, 3)),
        &sender_policy,
        &none,
    );
    assert_eq!(
        changed.on_file_end(),
        OutboundAction::AnswerAndRetain(Reply::Cancel {
            transfer_id: m.id,
            reason: PeerReason::SourceChanged
        })
    );
    let mut refused = OutboundTransfer::offered(m.clone(), sources(&m));
    assert_eq!(
        refused.on_message(
            &FileTransferMessage::Reject {
                transfer_id: m.id,
                reason: "no".into()
            },
            &sender_policy,
            &none
        ),
        OutboundAction::Retain
    );
    let mut cancelled = start();
    cancelled.on_chunk(b"abc".to_vec());
    assert_eq!(
        cancelled.on_message(
            &FileTransferMessage::Cancel {
                transfer_id: m.id,
                reason: "no".into()
            },
            &sender_policy,
            &none
        ),
        OutboundAction::Retain
    );
    let mut wrong = start();
    wrong.on_chunk(b"abc".to_vec());
    assert_eq!(
        wrong.on_message(&FileTransferMessage::Checkpoint(at(1, 2, 2)), &sender_policy, &none),
        OutboundAction::AnswerAndFail(
            Reply::Cancel {
                transfer_id: m.id,
                reason: PeerReason::InvalidCheckpoint
            },
            TransferError::InvalidPersistenceCheckpoint
        )
    );
    let mut stale = start();
    stale.on_chunk(b"abc".to_vec());
    let mut other = at(1, 3, 3);
    other.id = TransferId(8);
    assert_eq!(
        stale.on_message(&FileTransferMessage::Ack(other), &sender_policy, &none),
        OutboundAction::Ignore
    );
    assert_eq!(after_outbound(&Ok(OutboundResult::Retained)), LaneStep::PauseThenScan);
}

#[test]
fn crossing_offers_have_one_winner() {
    let mine = folder();
    let mut theirs = folder();
    theirs.id = TransferId(8);
    theirs.from = RECEIVER;
    theirs.to = Some(SENDER);
    assert!(outbound_wins_collision(&mine, &theirs) != outbound_wins_collision(&theirs, &mine));
    let portable = vec![true; 4];
    let mut a = OutboundTransfer::offered(mine.clone(), sources(&mine));
    let mut b = OutboundTransfer::offered(theirs.clone(), sources(&theirs));
    let to_a = a.on_message(
        &FileTransferMessage::Offer(theirs.clone()),
        &policy(RECEIVER, SENDER),
        &portable,
    );
    let to_b = b.on_message(
        &FileTransferMessage::Offer(mine.clone()),
        &policy(SENDER, RECEIVER),
        &portable,
    );
    let yields = |action: &OutboundAction| *action == OutboundAction::ReceiveInstead;
    assert!(yields(&to_a) != yields(&to_b));
    let keeps = if yields(&to_a) { to_b } else { to_a };
    assert!(matches!(
        keeps,
        OutboundAction::Answer(Reply::Reject {
            reason: PeerReason::CollisionLoser,
            ..
        })
    ));
}

#[test]
fn invalid_chunks_stop_the_transfer() {
    let invalid = |chunk: TransferChunk| {
        let mut inc = receiving(folder());
        inc.on_message(FileTransferMessage::Chunk(chunk), wire())
    };
    let mut compressed = chunk(1, 0, b"abc", true);
    compressed.compressed = true;
    let mut short = chunk(1, 0, b"abc", true);
    short.plain_len = 2;
    for refused in [
        compressed,
        short,
        chunk(3, 0, b"z", true),
        chunk(1, 1, b"bc", true),
        chunk(1, 0, b"abcd", true),
        chunk(1, 0, b"abc", false),
        chunk(1, 0, b"ab", true),
    ] {
        assert_eq!(
            invalid(refused),
            InboundAction::AnswerAndStop(Reply::Cancel {
                transfer_id: TransferId(7),
                reason: PeerReason::ContentInvalid
            })
        );
    }
    let verdict = |chunk: TransferChunk, wire: WireLimits| {
        fresh(folder()).begin_chunk(chunk, wire).unwrap_err()
    };
    let mut small = wire();
    small.max_chunk_size = 2;
    assert_eq!(verdict(chunk(1, 0, b"abc", true), small), TransferError::ChunkTooLarge);
    assert_eq!(verdict(chunk(3, 0, b"z", true), wire()), TransferError::ChunkWrongFile);
    assert_eq!(
        verdict(chunk(1, 1, b"bc", true), wire()),
        TransferError::ChunkNotContiguous
    );
    assert_eq!(
        verdict(chunk(1, 0, b"abcd", true), wire()),
        TransferError::ChunkPastFile
    );
    assert_eq!(
        verdict(chunk(1, 0, b"ab", true), wire()),
        TransferError::ChunkFinalMarker
    );
    let mut foreign = chunk(1, 0, b"abc", true);
    foreign.transfer_id = TransferId(8);
    assert_eq!(verdict(foreign, wire()), TransferError::ChunkIdMismatch);
}

#[test]
fn tampered_content_is_quarantined_and_not_counted() {
    let mut inc = receiving(manifest(vec![file("a", b"abc")]));
    inc.on_message(FileTransferMessage::Chunk(chunk(0, 0, b"abX", true)), wire());
    assert_eq!(
        inc.on_written(),
        InboundAction::Settle(ReceiveWriteOutcome::QuarantinedDigestMismatch)
    );
    assert_eq!(
        inc.on_settled(),
        InboundAction::PersistAnswerAndStop(Reply::Cancel {
            transfer_id: TransferId(7),
            reason: PeerReason::ContentInvalid
        })
    );
    assert!(!inc.session.state.complete);
    assert_eq!(inc.session.state.checkpoint(TransferId(7)), None);
}

#[test]
fn completion_needs_every_byte() {
    let complete = |transferred_bytes: u64| FileTransferMessage::Complete {
        transfer_id: TransferId(7),
        transferred_bytes,
    };
    let mut early = receiving(folder());
    assert_eq!(
        early.on_message(complete(4), wire()),
        InboundAction::Fail(TransferError::CompleteTooEarly)
    );
    let mut wrong = receiving(folder());
    assert_eq!(
        wrong.on_message(complete(3), wire()),
        InboundAction::Fail(TransferError::CompleteByteCount)
    );
    let mut stopped = receiving(folder());
    assert_eq!(
        stopped.on_message(
            FileTransferMessage::Cancel {
                transfer_id: TransferId(7),
                reason: "x".into()
            },
            wire()
        ),
        InboundAction::Stop
    );
    let mut failed = receiving(folder());
    assert!(matches!(failed.on_write_failed(), InboundAction::AnswerAndStop(_)));
}

#[test]
fn what_is_on_disk_decides_where_to_go_on() {
    let m = folder();
    let r = reconcile_receive_checkpoint(&m, &vec![NOTHING; 4]).unwrap();
    assert_eq!(r.checkpoint, None);
    assert!(r.incomplete);

    let r =
        reconcile_receive_checkpoint(&m, &vec![NOTHING, finished(b"abc"), NOTHING, finished(b"z")])
            .unwrap();
    assert_eq!(r.checkpoint, Some(at(3, 1, 4)));
    assert!(!r.incomplete);

    let wrong = finished(b"abX");
    let r = reconcile_receive_checkpoint(&m, &vec![NOTHING, wrong, NOTHING, finished(b"z")]).unwrap();
    assert_eq!(r.plans[1].final_action, ArtifactAction::Quarantine);
    assert_eq!(r.plans[3].final_action, ArtifactAction::Quarantine);
    assert_eq!(r.checkpoint, None);

    let r = reconcile_receive_checkpoint(&m, &vec![NOTHING, part(b"ab"), NOTHING, NOTHING]).unwrap();
    assert_eq!(r.checkpoint, Some(at(1, 2, 2)));
    assert_eq!(r.plans[1].part_action, ArtifactAction::Keep);
    let r = reconcile_receive_checkpoint(&m, &vec![NOTHING, part(b"abc"), NOTHING, NOTHING]).unwrap();
    assert_eq!(r.plans[1].part_action, ArtifactAction::Publish);
    assert_eq!(r.checkpoint, Some(at(1, 3, 3)));
    let r = reconcile_receive_checkpoint(&m, &vec![NOTHING, part(b"abX"), NOTHING, NOTHING]).unwrap();
    assert_eq!(r.plans[1].part_action, ArtifactAction::Quarantine);
    assert_eq!(r.checkpoint, None);
}

#[test]
fn tampered_final_chunk_is_quarantined_without_publishing_a_file() {
    let mut inc = receiving(manifest(vec![file("tampered.bin", b"good")]));
    let action = inc.on_message(FileTransferMessage::Chunk(chunk(0, 0, b"evil", true)), wire());
    assert!(matches!(action, InboundAction::Write(plan) if plan.final_chunk));
    assert_eq!(
        inc.on_written(),
        InboundAction::Settle(ReceiveWriteOutcome::QuarantinedDigestMismatch)
    );
    assert!(matches!(
        inc.on_settled(),
        InboundAction::PersistAnswerAndStop(Reply::Cancel {
            reason: PeerReason::ContentInvalid,
            ..
        })
    ));
    assert!(inc.session.state.checkpoint.is_none());
    assert!(!inc.session.state.complete);
    assert!(quarantine_name("tampered.bin.part", 1).starts_with("tampered.bin.part.corrupt-"));
}

#[test]
fn nonzero_resume_hashes_the_existing_prefix_before_publication() {
    let m = manifest(vec![file("resume.bin", b"abcdef")]);
    let mut session = fresh(m.clone());
    let plan = session.begin_chunk(chunk(0, 0, b"abc", false), wire()).unwrap();
    let outcome = session.store_chunk(plan).unwrap();
    assert_eq!(outcome, ReceiveWriteOutcome::Partial);
    let first = session.finish_chunk(plan, outcome).unwrap();
    assert_eq!(first.offset, 3);

    for (prefix, outcome) in [
        (b"abc", ReceiveWriteOutcome::Published),
        (b"abX", ReceiveWriteOutcome::QuarantinedDigestMismatch),
    ] {
        let resumed = opened(m.clone(), vec![part(prefix)]);
        assert_eq!(resumed.state.checkpoint(m.id), Some(first));
        let (mut inc, _) = InboundTransfer::accept(resumed);
        let action = inc.on_message(FileTransferMessage::Chunk(chunk(0, 3, b"def", true)), wire());
        assert!(matches!(action, InboundAction::Write(plan) if plan.part_file == PartFile::Resume));
        let mut read = PrefixRead::new(3);
        assert_eq!(read.wanted(), 3);
        assert_eq!(read.on_block(&prefix[..2]), Ok(()));
        assert_eq!(read.wanted(), 1);
        assert_eq!(read.on_block(&prefix[2..]), Ok(()));
        assert_eq!(read.wanted(), 0);
        inc.on_resumed(read.finish().unwrap());
        assert_eq!(inc.on_written(), InboundAction::Settle(outcome));
        let settled = inc.on_settled();
        if outcome == ReceiveWriteOutcome::Published {
            assert_eq!(
                settled,
                InboundAction::PersistAndAnswer(Reply::Checkpoint(at(0, 6, 6)))
            );
        } else {
            assert!(matches!(settled, InboundAction::PersistAnswerAndStop(_)));
        }
    }
    let mut cut = PrefixRead::new(3);
    assert_eq!(cut.on_block(b"ab"), Ok(()));
    assert_eq!(cut.on_block(b""), Err(TransferError::PrefixTruncated));
    assert_eq!(cut.finish().unwrap_err(), TransferError::PrefixTruncated);
}

#[test]
fn empty_file_is_digest_verified_and_published() {
    let m = manifest(vec![file("empty.bin", b"")]);
    let mut inc = receiving(m.clone());
    inc.on_message(FileTransferMessage::Chunk(chunk(0, 0, b"", true)), wire());
    assert_eq!(
        inc.on_written(),
        InboundAction::Settle(ReceiveWriteOutcome::Published)
    );
    assert_eq!(
        inc.on_settled(),
        InboundAction::PersistAndAnswer(Reply::Checkpoint(terminal_checkpoint(&m).unwrap()))
    );
}

const CHUNK_SIZE: usize = 1024 * 1024;

fn pass_on(out: &mut OutboundTransfer, m: &TransferManifest, piece: Vec<u8>) -> TransferChunk {
    let (action, sent) = out.on_chunk(piece);
    assert_eq!(action, OutboundAction::SendChunk);
    let sent = sent.unwrap();
    let end = sent.offset + u64::from(sent.plain_len);
    let reached = checkpoint_after_chunk(m, 0, end).unwrap();
    assert_eq!(
        out.on_message(
            &FileTransferMessage::Checkpoint(reached),
            &policy(RECEIVER, SENDER),
            &Vec::new()
        ),
        OutboundAction::AcknowledgeAndRead(Reply::Ack(reached))
    );
    sent
}

#[test]
fn source_mutation_during_stream_cancels_before_complete_and_retains_queue() {
    let m = manifest(vec![file("mutable.bin", &vec![b'a'; CHUNK_SIZE * 2])]);
    let mut out = sending(&m, None);
    assert_eq!(out.on_opened(Content::new()), OutboundAction::Read);
    let first = pass_on(&mut out, &m, vec![b'a'; CHUNK_SIZE]);
    assert_eq!(first.offset, 0);
    let second = pass_on(&mut out, &m, vec![b'b'; CHUNK_SIZE]);
    assert!(second.final_chunk_for_file);
    assert_eq!(
        out.on_file_end(),
        OutboundAction::AnswerAndRetain(Reply::Cancel {
            transfer_id: m.id,
            reason: PeerReason::SourceChanged
        })
    );
    assert_eq!(
        after_outbound(&Ok(OutboundResult::Retained)),
        LaneStep::PauseThenScan
    );
}

#[test]
fn files_are_read_chunk_by_chunk_to_their_end() {
    let m = manifest(vec![file("empty", b""), file("five", b"hello")]);
    let mut out = sending(&m, None);
    assert_eq!(out.on_opened(Content::new()), OutboundAction::Read);
    assert_eq!(out.next_read(false, 3), Some(0));
    assert_eq!(out.next_read(true, 3), None);
    pass_on(&mut out, &m, Vec::new());
    assert_eq!(
        out.on_file_end(),
        OutboundAction::OpenSource {
            file_index: 1,
            offset: 0
        }
    );
    assert_eq!(out.on_opened(Content::new()), OutboundAction::Read);
    assert_eq!(out.next_read(false, 3), Some(3));
    let (_, sent) = out.on_chunk(b"hel".to_vec());
    assert!(!sent.unwrap().final_chunk_for_file);
    out.on_message(
        &FileTransferMessage::Checkpoint(at(1, 3, 3)),
        &policy(RECEIVER, SENDER),
        &Vec::new(),
    );
    assert_eq!(out.next_read(true, 3), Some(2));
    let mut resumed = sending(&m, Some(at(1, 3, 3)));
    assert_eq!(resumed.on_opened(Content::new()), OutboundAction::Read);
    assert_eq!(resumed.next_read(false, 3), None);
}

#[test]
fn resume_prefix_is_included_in_source_digest_verification() {
    let queued = vec![b'a'; CHUNK_SIZE * 2];
    let m = manifest(vec![file("resume-source.bin", &queued)]);
    let resume = at(0, CHUNK_SIZE as u64, CHUNK_SIZE as u64);
    let finish = |source: &[u8]| {
        let mut out = sending(&m, Some(resume));
        assert_eq!(
            out.on_opened(content(&source[..CHUNK_SIZE])),
            OutboundAction::Read
        );
        let sent = pass_on(&mut out, &m, source[CHUNK_SIZE..].to_vec());
        assert_eq!(sent.offset, CHUNK_SIZE as u64);
        out.on_file_end()
    };
    let mut changed = queued.clone();
    changed[..8].copy_from_slice(b"changed!");
    assert_eq!(
        finish(&changed),
        OutboundAction::AnswerAndRetain(Reply::Cancel {
            transfer_id: m.id,
            reason: PeerReason::SourceChanged
        })
    );
    assert_eq!(
        finish(&queued),
        OutboundAction::DeclareComplete(Reply::Complete {
            transfer_id: m.id,
            transferred_bytes: 2 * CHUNK_SIZE as u64
        })
    );
    let mut cut = sending(&m, Some(resume));
    assert_eq!(
        cut.on_opened(content(b"ab")),
        OutboundAction::Fail(TransferError::PrefixTruncated)
    );
}

#[test]
fn same_size_source_mutation_never_leaves_a_corrupt_receiver_final() {
    let m = manifest(vec![file("mutable-receiver.bin", &vec![b'a'; CHUNK_SIZE * 2])]);
    let mut out = sending(&m, None);
    let mut inc = receiving(m.clone());
    let mut limits = wire();
    limits.max_chunk_size = CHUNK_SIZE;
    assert_eq!(out.on_opened(Content::new()), OutboundAction::Read);
    let first = pass_on(&mut out, &m, vec![b'a'; CHUNK_SIZE]);
    inc.on_message(FileTransferMessage::Chunk(first), limits);
    inc.on_written();
    let reached = at(0, CHUNK_SIZE as u64, CHUNK_SIZE as u64);
    assert_eq!(
        inc.on_settled(),
        InboundAction::PersistAndAnswer(Reply::Checkpoint(reached))
    );
    inc.on_message(FileTransferMessage::Ack(reached), limits);
    let second = pass_on(&mut out, &m, vec![b'b'; CHUNK_SIZE]);
    inc.on_message(FileTransferMessage::Chunk(second), limits);
    assert_eq!(
        inc.on_written(),
        InboundAction::Settle(ReceiveWriteOutcome::QuarantinedDigestMismatch)
    );
    assert!(matches!(
        inc.on_settled(),
        InboundAction::PersistAnswerAndStop(Reply::Cancel { .. })
    ));
    assert!(matches!(
        out.on_file_end(),
        OutboundAction::AnswerAndRetain(Reply::Cancel { .. })
    ));
    assert!(quarantine_name("mutable-receiver.bin.part", 1)
        .starts_with("mutable-receiver.bin.part.corrupt-"));
}

#[test]
fn traversal_is_deterministic_and_queue_is_durable() {
    let inner = ["z.txt", "empty", "a.txt"].map(String::from).to_vec();
    let mut walk = SourceWalk::start(
        &vec!["folder".to_string()],
        &vec!["/t/folder".to_string()],
        32,
        1024,
        false,
    );
    assert_eq!(walk.on_directory(true, &inner), Ok(()));
    assert_eq!(walk.on_file(3, true, digested(b"abc")), Ok(()));
    assert_eq!(walk.on_directory(true, &Vec::new()), Ok(()));
    assert_eq!(walk.on_file(1, true, digested(b"z")), Ok(()));
    let id = TransferId(7);
    let queued = queue_transfer(walk.finish().unwrap(), id, 1);
    assert_eq!(
        queued
            .entries
            .iter()
            .map(|entry| entry.relative_path.as_str())
            .collect::<Vec<_>>(),
        ["folder", "folder/a.txt", "folder/empty", "folder/z.txt"]
    );
    assert_eq!(queued.total_bytes, 4);
    assert_eq!(
        queue_record_names(&queued.transfer_id).0,
        format!("{}.toml", id.text())
    );
}

#[test]
fn the_order_of_listings_makes_no_difference() {
    let names = |list: &[&str]| list.iter().map(|name| name.to_string()).collect::<Vec<String>>();
    let walk = |roots: &[&str], inner: &[&str]| {
        let paths = roots.iter().map(|name| format!("/t/{name}")).collect();
        let mut walk = SourceWalk::start(&names(roots), &paths, 16, 1024, false);
        while let Some(Place { relative, .. }) = walk.next().cloned() {
            let inside = match relative.as_str() {
                "folder" => Some(names(inner)),
                "folder/b" => Some(names(&["z", "y"])),
                _ => None,
            };
            match inside {
                Some(found) => {
                    assert!(walk.check(SourceKind::Directory, 0, true).is_ok());
                    let mut listing = walk.listing(wire()).unwrap();
                    for name in found {
                        listing.offer(Ok(name), TransferError::TooManyEntries).unwrap();
                    }
                    walk.on_directory(true, &listing.items).unwrap();
                }
                None => walk
                    .on_file(relative.len() as u64, true, digested(relative.as_bytes()))
                    .unwrap(),
            }
        }
        let collected = walk.finish().unwrap();
        collected
            .entries
            .iter()
            .map(|entry| (entry.absolute_path.clone(), entry.relative_path.clone()))
            .collect::<Vec<(String, String)>>()
    };
    let expected: Vec<(String, String)> = [
        "Apple.txt",
        "folder",
        "folder/a",
        "folder/b",
        "folder/b/y",
        "folder/b/z",
        "folder/c",
        "zebra",
    ]
    .iter()
    .map(|path| (format!("/t/{path}"), path.to_string()))
    .collect();
    assert_eq!(walk(&["zebra", "folder", "Apple.txt"], &["c", "a", "b"]), expected);
    assert_eq!(walk(&["folder", "Apple.txt", "zebra"], &["b", "c", "a"]), expected);
}

#[test]
fn walks_stop_at_the_limits() {
    let names = vec!["folder".to_string()];
    let paths = vec!["/t/folder".to_string()];
    let mut walk = SourceWalk::start(&names, &paths, 2, 3, false);
    assert_eq!(
        walk.check(SourceKind::Symlink, 0, true),
        Err(TransferError::TreeSymlink)
    );
    let two = vec!["a".to_string(), "b".to_string()];
    assert_eq!(walk.on_directory(true, &two), Err(TransferError::TooManyEntries));
    assert_eq!(walk.on_directory(true, &vec!["a".to_string()]), Ok(()));
    assert_eq!(walk.listing(wire()).unwrap().max_items, 0);
    assert_eq!(
        walk.on_file(4, true, digested(b"four")),
        Err(TransferError::TooManyBytes)
    );
    assert!(walk.next().is_some());
    assert_eq!(walk.on_file(3, true, digested(b"abc")), Ok(()));
    assert_eq!(walk.listing(wire()).unwrap_err(), TransferError::EntryCountOverLimit);
    let collected = walk.finish().unwrap();
    assert_eq!(
        collected.entries[1].sha256.as_deref(),
        Some(manifest_digest(b"abc").as_str())
    );
}

#[test]
fn kept_states_belong_to_their_transfer() {
    let m = folder();
    let mut state = fresh_receive_state(m.id, "digest".into());
    assert_eq!(admit_existing_state(&state, m.id, "digest"), Ok(()));
    assert_eq!(
        admit_existing_state(&state, m.id, "other"),
        Err(TransferError::ForeignDestination)
    );
    assert_eq!(
        admit_existing_state(&state, TransferId(8), "digest"),
        Err(TransferError::ForeignDestination)
    );
    settle_receive_state(&m, &mut state, Some(at(1, 2, 2))).unwrap();
    assert_eq!(state.checkpoint(m.id), Some(at(1, 2, 2)));
    assert!(!state.complete);
    state.replace_checkpoint(None);
    assert_eq!(state.checkpoint(m.id), None);
}

#[test]
fn idle_lanes_answer_what_they_cannot_take() {
    let p = policy(SENDER, RECEIVER);
    let portable = vec![true; 4];
    let offer = FileTransferMessage::Offer(folder());
    assert_eq!(
        handle_idle_message(&offer, &p, &portable, false),
        IdleAction::Answer(Reply::Reject {
            transfer_id: TransferId(7),
            reason: PeerReason::AnotherActive
        })
    );
    assert_eq!(
        handle_idle_message(&offer, &policy(DeviceId(5), RECEIVER), &portable, true),
        IdleAction::Answer(Reply::Reject {
            transfer_id: TransferId(7),
            reason: PeerReason::PolicyViolation
        })
    );
    let none = Vec::new();
    assert_eq!(
        handle_idle_message(&FileTransferMessage::Chunk(chunk(0, 0, b"", true)), &p, &none, true),
        IdleAction::Answer(Reply::Cancel {
            transfer_id: TransferId(7),
            reason: PeerReason::NoneActive
        })
    );
    assert_eq!(
        handle_idle_message(&FileTransferMessage::Ack(at(0, 0, 0)), &p, &none, true),
        IdleAction::Answer(Reply::Cancel {
            transfer_id: TransferId(7),
            reason: PeerReason::NoneMatching
        })
    );
    assert_eq!(
        handle_idle_message(&FileTransferMessage::Other, &p, &none, true),
        IdleAction::Ignore
    );
    assert_eq!(message_transfer_id(&FileTransferMessage::Other), None);
    assert_eq!(message_transfer_id(&offer), Some(TransferId(7)));
    assert_eq!(
        inbound_failure_reply(TransferId(7)),
        Reply::Cancel {
            transfer_id: TransferId(7),
            reason: PeerReason::ValidationFailed
        }
    );
    assert_eq!(check_lane(true), Ok(()));
    assert_eq!(check_lane(false), Err(TransferError::LaneMismatch));
    assert_eq!(after_scan(true, QueueScan::Record), LaneStep::SendQueued);
    assert_eq!(after_scan(true, QueueScan::Empty), LaneStep::Wait);
    assert_eq!(after_scan(false, QueueScan::Record), LaneStep::Wait);
}

#[test]
fn digests_are_written_and_read_back() {
    assert_eq!(
        manifest_digest(b"abc"),
        "ba7816bf8f01cfea414140de5dae2223b00361a396177a9cb410ff61f20015ad"
    );
    assert_eq!(digest_text(&digest(b"")), manifest_digest(b""));
    assert_eq!(parse_sha256_hex("ab"), Err(TransferError::DigestLength));
    assert_eq!(
        parse_sha256_hex(&"g".repeat(64)),
        Err(TransferError::DigestDigits)
    );
    assert_eq!(parse_sha256_hex(&"Ab".repeat(32)), Ok([0xab; 32]));
}

#[test]
fn persisted_files_are_bounded_regular_and_private() {
    let facts = FileFacts {
        kind: FileKind::Regular,
        len: 64,
        mode: Some(0o100600),
        modified_nanos: Some(1),
    };
    assert_eq!(check_persisted_file(&facts, 64, true), Ok(()));
    assert_eq!(check_persisted_file(&facts, 63, true), Err(FileError::TooLong));
    let mut link = facts;
    link.kind = FileKind::Symlink;
    assert_eq!(check_persisted_file(&link, 64, false), Err(FileError::NotRegular));
    assert!(FileError::NotRegular
        .message("test persisted file", "/p", 64)
        .contains("is not a safe regular file"));
    let mut open = facts;
    open.mode = Some(0o100644);
    assert_eq!(check_persisted_file(&open, 64, true), Err(FileError::NotOwnerOnly));
    assert_eq!(check_persisted_file(&open, 64, false), Ok(()));
    assert!(is_owner_only(Some(0o40700), true) && is_owner_only(None, true));
    assert!(!is_owner_only(Some(0o40750), true));
    assert_eq!(check_read_length(64, 64), Ok(()));
    assert_eq!(check_read_length(65, 64), Err(FileError::TooLong));
    let mut grown = facts;
    grown.len = 65;
    assert_eq!(check_unchanged(&facts, &facts), Ok(()));
    assert_eq!(check_unchanged(&facts, &grown), Err(FileError::Changed));
    assert_eq!(next_block(10), 10);
    assert_eq!(next_block(1 << 20), 65_536);
    assert_ne!(quarantine_name("a.part", 1), quarantine_name("a.part", 2));
    let (temporary, name) = queue_record_names("0-1");
    assert_ne!(temporary, name);
    assert!(is_queue_record_name("0-1.toml") && !is_queue_record_name("0-1.toml.tmp"));
}

#[test]
fn each_role_takes_one_kind_of_file_and_no_link() {
    for (role, wanted, message) in [
        (
            FileRole::QueuedSource,
            FileKind::Regular,
            "queued source is no longer a regular file",
        ),
        (
            FileRole::ReceivedFile,
            FileKind::Regular,
            "receive destination contains an unsafe file",
        ),
        (
            FileRole::Artifact,
            FileKind::Regular,
            "refusing to quarantine an unsafe receive artifact",
        ),
        (
            FileRole::ReceiveState,
            FileKind::Regular,
            "receive state destination is unsafe",
        ),
        (
            FileRole::TransferDestination,
            FileKind::Directory,
            "existing transfer destination is unsafe",
        ),
        (
            FileRole::DownloadRoot,
            FileKind::Directory,
            "download root is not a safe directory",
        ),
        (
            FileRole::Queue,
            FileKind::Directory,
            "file-transfer queue is not a safe directory",
        ),
        (
            FileRole::NewQueue,
            FileKind::Directory,
            "file-transfer queue path is not a private directory",
        ),
    ] {
        for kind in [
            FileKind::Regular,
            FileKind::Directory,
            FileKind::Symlink,
            FileKind::Other,
        ] {
            let facts = FileFacts {
                kind,
                len: 1,
                mode: None,
                modified_nanos: None,
            };
            let expected = if kind == wanted { Ok(()) } else { Err(role) };
            assert_eq!(check_kind(&facts, role), expected);
        }
        assert_eq!(role.message(), message);
    }
}

#[test]
fn folders_are_walked_with_the_separator_of_the_platform() {
    let mut walk = SourceWalk::start(
        &vec!["folder".to_string()],
        &vec!["C:\\t\\folder".to_string()],
        8,
        8,
        true,
    );
    assert_eq!(walk.on_directory(true, &vec!["a.txt".to_string()]), Ok(()));
    let place = walk.next().cloned().unwrap();
    assert_eq!(place.absolute, "C:\\t\\folder\\a.txt");
    assert_eq!(place.relative, "folder/a.txt");
}
