//! Why a file transfer is refused or stopped.

use vstd::prelude::*;

verus! {

/// A reason for which a transfer step is refused locally.
#[derive(Clone, Copy, PartialEq, Eq, Structural, Debug)]
pub enum TransferError {
    /// Manifest sender does not match authenticated peer.
    SenderMismatch,
    /// Manifest is not targeted to this device.
    TargetMismatch,
    /// Manifest entry count exceeds policy.
    EntryCountExceedsPolicy,
    /// Manifest byte count exceeds policy.
    ByteCountExceedsPolicy,
    /// Source path is not portable.
    PathNotPortable,
    /// Manifest contains case-colliding paths.
    CaseCollidingPaths,
    /// Manifest child precedes a declared parent directory.
    ChildBeforeParent,
    /// Manifest byte total overflow.
    ManifestByteTotalOverflow,
    /// Checkpoint transfer id mismatch.
    CheckpointIdMismatch,
    /// Checkpoint entry index is outside the manifest.
    CheckpointOutsideManifest,
    /// Checkpoint points to a directory.
    CheckpointAtDirectory,
    /// Directory checkpoint has a non-zero offset.
    DirectoryCheckpointOffset,
    /// Checkpoint exceeds file length.
    CheckpointPastFile,
    /// Checkpoint byte total overflow.
    CheckpointByteTotalOverflow,
    /// Checkpoint aggregate byte count is inconsistent.
    CheckpointInconsistent,
    /// Cannot checkpoint an empty manifest.
    EmptyManifest,
    /// Terminal entry index does not fit wire format.
    TerminalIndexTooLarge,
    /// Chunk checkpoint byte total overflow.
    ChunkCheckpointOverflow,
    /// File index does not fit wire format.
    FileIndexTooLarge,
    /// File index does not fit wire.
    WireIndexTooLarge,
    /// Manifest file is missing its content digest.
    MissingDigest,
    /// Manifest and queue entry ordering diverged.
    OrderingDiverged,
    /// Manifest and queue entry types diverged.
    TypesDiverged,
    /// Chunk offset overflow.
    ChunkOffsetOverflow,
    /// Peer returned an invalid offer response.
    InvalidOfferResponse,
    /// Peer returned an invalid persistence checkpoint.
    InvalidPersistenceCheckpoint,
    /// Peer returned an invalid terminal acknowledgement.
    InvalidTerminalAck,
    /// Sender returned an invalid checkpoint acknowledgement.
    InvalidCheckpointAck,
    /// Sender returned an invalid transfer message.
    InvalidTransferMessage,
    /// Complete byte count does not match manifest.
    CompleteByteCount,
    /// Complete arrived before all files were persisted.
    CompleteTooEarly,
    /// Complete arrived with an open part writer.
    CompleteWithOpenWriter,
    /// Chunk transfer id mismatch.
    ChunkIdMismatch,
    /// Runtime accepts only bounded raw chunks.
    ChunkCompressed,
    /// Chunk payload length does not match plaintext length.
    ChunkPayloadLength,
    /// Chunk exceeds the runtime plaintext bound.
    ChunkTooLarge,
    /// Chunk arrived after every manifest file completed.
    ChunkAfterCompletion,
    /// Chunk file index is not the next manifest file.
    ChunkWrongFile,
    /// Chunk offset is not contiguous.
    ChunkNotContiguous,
    /// Chunk exceeds manifest file length.
    ChunkPastFile,
    /// Chunk final marker does not match manifest file length.
    ChunkFinalMarker,
    /// Received file content digest mismatch.
    DigestMismatch,
    /// Source was truncated while hashing its resume prefix.
    PrefixTruncated,
    /// Existing transfer destination belongs to a different manifest.
    ForeignDestination,
    /// Completed directory transfer has unexpected files.
    UnexpectedFiles,
    /// Completed transfer destination no longer matches its manifest.
    DestinationChanged,
    /// File transfer is disabled in config.
    Disabled,
    /// At least one source path is required.
    NoSources,
    /// File-transfer max_entries must be positive.
    NoEntriesAllowed,
    /// Configured file-transfer byte limit exceeds the wire limit.
    ByteLimitExceedsWire,
    /// Source exceeds the configured manifest-entry limit.
    TooManyEntries,
    /// Source symlinks are not allowed.
    SourceSymlink,
    /// Source must be a regular file or directory.
    SourceSpecial,
    /// Source basenames collide on a case-insensitive destination.
    BasenamesCollide,
    /// Source trees may not contain symlinks.
    TreeSymlink,
    /// Source trees may contain only regular files and directories.
    TreeSpecial,
    /// Source paths collide on a case-insensitive destination.
    SourcePathsCollide,
    /// Source byte total overflow.
    SourceByteOverflow,
    /// Source exceeds the configured transfer-byte limit.
    TooManyBytes,
    /// Bounded collection limit exceeds the manifest-entry cap.
    CollectionLimitTooLarge,
    /// Source entry count exceeds the configured manifest-entry limit.
    EntryCountOverLimit,
    /// SHA-256 digest must contain 64 hex digits.
    DigestLength,
    /// SHA-256 digest contains invalid hex.
    DigestDigits,
    /// Queued file is missing its content digest.
    QueuedFileWithoutDigest,
    /// Queue total does not match manifest.
    QueueTotalMismatch,
    /// Queued transfer has an invalid identifier.
    InvalidIdentifier,
    /// Unsupported file-transfer queue schema.
    QueueSchema,
    /// File-transfer queue filename does not match its identifier.
    QueueFilename,
    /// Queued transfer is empty.
    QueueEmpty,
    /// Queued transfer exceeds the configured entry limit.
    QueueEntryLimit,
    /// Queued transfer exceeds the configured byte limit.
    QueueByteLimit,
    /// Non-canonical transfer identifier.
    NonCanonicalIdentifier,
    /// Queued transfer has no source roots.
    NoSourceRoots,
    /// Queued sources changed after they were selected.
    SourcesChanged,
    /// File-transfer queue record changed before acknowledgement.
    RecordChanged,
    /// Non-file message reached file-transfer lane.
    LaneMismatch,
}

impl TransferError {
    /// The wording of the reason.
    pub open spec fn wording(self) -> Seq<char> {
        match self {
            TransferError::SenderMismatch => "manifest sender does not match authenticated peer"@,
            TransferError::TargetMismatch => "manifest is not targeted to this device"@,
            TransferError::EntryCountExceedsPolicy => "manifest entry count exceeds policy"@,
            TransferError::ByteCountExceedsPolicy => "manifest byte count exceeds policy"@,
            TransferError::PathNotPortable => "source path is not portable"@,
            TransferError::CaseCollidingPaths => "manifest contains case-colliding paths"@,
            TransferError::ChildBeforeParent => "manifest child precedes a declared parent directory"@,
            TransferError::ManifestByteTotalOverflow => "manifest byte total overflow"@,
            TransferError::CheckpointIdMismatch => "checkpoint transfer id mismatch"@,
            TransferError::CheckpointOutsideManifest => "checkpoint entry index is outside the manifest"@,
            TransferError::CheckpointAtDirectory => "checkpoint points to a directory"@,
            TransferError::DirectoryCheckpointOffset => "directory checkpoint has a non-zero offset"@,
            TransferError::CheckpointPastFile => "checkpoint exceeds file length"@,
            TransferError::CheckpointByteTotalOverflow => "checkpoint byte total overflow"@,
            TransferError::CheckpointInconsistent => "checkpoint aggregate byte count is inconsistent"@,
            TransferError::EmptyManifest => "cannot checkpoint an empty manifest"@,
            TransferError::TerminalIndexTooLarge => "terminal entry index does not fit wire format"@,
            TransferError::ChunkCheckpointOverflow => "chunk checkpoint byte total overflow"@,
            TransferError::FileIndexTooLarge => "file index does not fit wire format"@,
            TransferError::WireIndexTooLarge => "file index does not fit wire"@,
            TransferError::MissingDigest => "manifest file is missing its content digest"@,
            TransferError::OrderingDiverged => "manifest and queue entry ordering diverged"@,
            TransferError::TypesDiverged => "manifest and queue entry types diverged"@,
            TransferError::ChunkOffsetOverflow => "chunk offset overflow"@,
            TransferError::InvalidOfferResponse => "peer returned an invalid offer response"@,
            TransferError::InvalidPersistenceCheckpoint => "peer returned an invalid persistence checkpoint"@,
            TransferError::InvalidTerminalAck => "peer returned an invalid terminal acknowledgement"@,
            TransferError::InvalidCheckpointAck => "sender returned an invalid checkpoint acknowledgement"@,
            TransferError::InvalidTransferMessage => "sender returned an invalid transfer message"@,
            TransferError::CompleteByteCount => "complete byte count does not match manifest"@,
            TransferError::CompleteTooEarly => "complete arrived before all files were persisted"@,
            TransferError::CompleteWithOpenWriter => "complete arrived with an open part writer"@,
            TransferError::ChunkIdMismatch => "chunk transfer id mismatch"@,
            TransferError::ChunkCompressed => "runtime accepts only bounded raw chunks"@,
            TransferError::ChunkPayloadLength => "chunk payload length does not match plaintext length"@,
            TransferError::ChunkTooLarge => "chunk exceeds the runtime plaintext bound"@,
            TransferError::ChunkAfterCompletion => "chunk arrived after every manifest file completed"@,
            TransferError::ChunkWrongFile => "chunk file index is not the next manifest file"@,
            TransferError::ChunkNotContiguous => "chunk offset is not contiguous"@,
            TransferError::ChunkPastFile => "chunk exceeds manifest file length"@,
            TransferError::ChunkFinalMarker => "chunk final marker does not match manifest file length"@,
            TransferError::DigestMismatch => "received file content digest mismatch"@,
            TransferError::PrefixTruncated => "source was truncated while hashing its resume prefix"@,
            TransferError::ForeignDestination => "existing transfer destination belongs to a different manifest"@,
            TransferError::UnexpectedFiles => "completed directory transfer has unexpected files"@,
            TransferError::DestinationChanged => "completed transfer destination no longer matches its manifest"@,
            TransferError::Disabled => "file transfer is disabled in config"@,
            TransferError::NoSources => "at least one source path is required"@,
            TransferError::NoEntriesAllowed => "file-transfer max_entries must be positive"@,
            TransferError::ByteLimitExceedsWire => "configured file-transfer byte limit exceeds the wire limit"@,
            TransferError::TooManyEntries => "source exceeds the configured manifest-entry limit"@,
            TransferError::SourceSymlink => "source symlinks are not allowed"@,
            TransferError::SourceSpecial => "source must be a regular file or directory"@,
            TransferError::BasenamesCollide => "source basenames collide on a case-insensitive destination"@,
            TransferError::TreeSymlink => "source trees may not contain symlinks"@,
            TransferError::TreeSpecial => "source trees may contain only regular files and directories"@,
            TransferError::SourcePathsCollide => "source paths collide on a case-insensitive destination"@,
            TransferError::SourceByteOverflow => "source byte total overflow"@,
            TransferError::TooManyBytes => "source exceeds the configured transfer-byte limit"@,
            TransferError::CollectionLimitTooLarge => "bounded collection limit exceeds the manifest-entry cap"@,
            TransferError::EntryCountOverLimit => "source entry count exceeds the configured manifest-entry limit"@,
            TransferError::DigestLength => "SHA-256 digest must contain 64 hex digits"@,
            TransferError::DigestDigits => "SHA-256 digest contains invalid hex"@,
            TransferError::QueuedFileWithoutDigest => "queued file is missing its content digest"@,
            TransferError::QueueTotalMismatch => "queue total does not match manifest"@,
            TransferError::InvalidIdentifier => "queued transfer has an invalid identifier"@,
            TransferError::QueueSchema => "unsupported file-transfer queue schema"@,
            TransferError::QueueFilename => "file-transfer queue filename does not match its identifier"@,
            TransferError::QueueEmpty => "queued transfer is empty"@,
            TransferError::QueueEntryLimit => "queued transfer exceeds the configured entry limit"@,
            TransferError::QueueByteLimit => "queued transfer exceeds the configured byte limit"@,
            TransferError::NonCanonicalIdentifier => "non-canonical transfer identifier"@,
            TransferError::NoSourceRoots => "queued transfer has no source roots"@,
            TransferError::SourcesChanged => "queued sources changed after they were selected"@,
            TransferError::RecordChanged => "file-transfer queue record changed before acknowledgement"@,
            TransferError::LaneMismatch => "non-file message reached file-transfer lane"@,
        }
    }

    /// The wording of the reason.
    pub fn message(self) -> (m: &'static str)
        ensures
            m@ == self.wording(),
    {
        match self {
            TransferError::SenderMismatch => "manifest sender does not match authenticated peer",
            TransferError::TargetMismatch => "manifest is not targeted to this device",
            TransferError::EntryCountExceedsPolicy => "manifest entry count exceeds policy",
            TransferError::ByteCountExceedsPolicy => "manifest byte count exceeds policy",
            TransferError::PathNotPortable => "source path is not portable",
            TransferError::CaseCollidingPaths => "manifest contains case-colliding paths",
            TransferError::ChildBeforeParent => "manifest child precedes a declared parent directory",
            TransferError::ManifestByteTotalOverflow => "manifest byte total overflow",
            TransferError::CheckpointIdMismatch => "checkpoint transfer id mismatch",
            TransferError::CheckpointOutsideManifest => "checkpoint entry index is outside the manifest",
            TransferError::CheckpointAtDirectory => "checkpoint points to a directory",
            TransferError::DirectoryCheckpointOffset => "directory checkpoint has a non-zero offset",
            TransferError::CheckpointPastFile => "checkpoint exceeds file length",
            TransferError::CheckpointByteTotalOverflow => "checkpoint byte total overflow",
            TransferError::CheckpointInconsistent => "checkpoint aggregate byte count is inconsistent",
            TransferError::EmptyManifest => "cannot checkpoint an empty manifest",
            TransferError::TerminalIndexTooLarge => "terminal entry index does not fit wire format",
            TransferError::ChunkCheckpointOverflow => "chunk checkpoint byte total overflow",
            TransferError::FileIndexTooLarge => "file index does not fit wire format",
            TransferError::WireIndexTooLarge => "file index does not fit wire",
            TransferError::MissingDigest => "manifest file is missing its content digest",
            TransferError::OrderingDiverged => "manifest and queue entry ordering diverged",
            TransferError::TypesDiverged => "manifest and queue entry types diverged",
            TransferError::ChunkOffsetOverflow => "chunk offset overflow",
            TransferError::InvalidOfferResponse => "peer returned an invalid offer response",
            TransferError::InvalidPersistenceCheckpoint => "peer returned an invalid persistence checkpoint",
            TransferError::InvalidTerminalAck => "peer returned an invalid terminal acknowledgement",
            TransferError::InvalidCheckpointAck => "sender returned an invalid checkpoint acknowledgement",
            TransferError::InvalidTransferMessage => "sender returned an invalid transfer message",
            TransferError::CompleteByteCount => "complete byte count does not match manifest",
            TransferError::CompleteTooEarly => "complete arrived before all files were persisted",
            TransferError::CompleteWithOpenWriter => "complete arrived with an open part writer",
            TransferError::ChunkIdMismatch => "chunk transfer id mismatch",
            TransferError::ChunkCompressed => "runtime accepts only bounded raw chunks",
            TransferError::ChunkPayloadLength => "chunk payload length does not match plaintext length",
            TransferError::ChunkTooLarge => "chunk exceeds the runtime plaintext bound",
            TransferError::ChunkAfterCompletion => "chunk arrived after every manifest file completed",
            TransferError::ChunkWrongFile => "chunk file index is not the next manifest file",
            TransferError::ChunkNotContiguous => "chunk offset is not contiguous",
            TransferError::ChunkPastFile => "chunk exceeds manifest file length",
            TransferError::ChunkFinalMarker => "chunk final marker does not match manifest file length",
            TransferError::DigestMismatch => "received file content digest mismatch",
            TransferError::PrefixTruncated => "source was truncated while hashing its resume prefix",
            TransferError::ForeignDestination => "existing transfer destination belongs to a different manifest",
            TransferError::UnexpectedFiles => "completed directory transfer has unexpected files",
            TransferError::DestinationChanged => "completed transfer destination no longer matches its manifest",
            TransferError::Disabled => "file transfer is disabled in config",
            TransferError::NoSources => "at least one source path is required",
            TransferError::NoEntriesAllowed => "file-transfer max_entries must be positive",
            TransferError::ByteLimitExceedsWire => "configured file-transfer byte limit exceeds the wire limit",
            TransferError::TooManyEntries => "source exceeds the configured manifest-entry limit",
            TransferError::SourceSymlink => "source symlinks are not allowed",
            TransferError::SourceSpecial => "source must be a regular file or directory",
            TransferError::BasenamesCollide => "source basenames collide on a case-insensitive destination",
            TransferError::TreeSymlink => "source trees may not contain symlinks",
            TransferError::TreeSpecial => "source trees may contain only regular files and directories",
            TransferError::SourcePathsCollide => "source paths collide on a case-insensitive destination",
            TransferError::SourceByteOverflow => "source byte total overflow",
            TransferError::TooManyBytes => "source exceeds the configured transfer-byte limit",
            TransferError::CollectionLimitTooLarge => "bounded collection limit exceeds the manifest-entry cap",
            TransferError::EntryCountOverLimit => "source entry count exceeds the configured manifest-entry limit",
            TransferError::DigestLength => "SHA-256 digest must contain 64 hex digits",
            TransferError::DigestDigits => "SHA-256 digest contains invalid hex",
            TransferError::QueuedFileWithoutDigest => "queued file is missing its content digest",
            TransferError::QueueTotalMismatch => "queue total does not match manifest",
            TransferError::InvalidIdentifier => "queued transfer has an invalid identifier",
            TransferError::QueueSchema => "unsupported file-transfer queue schema",
            TransferError::QueueFilename => "file-transfer queue filename does not match its identifier",
            TransferError::QueueEmpty => "queued transfer is empty",
            TransferError::QueueEntryLimit => "queued transfer exceeds the configured entry limit",
            TransferError::QueueByteLimit => "queued transfer exceeds the configured byte limit",
            TransferError::NonCanonicalIdentifier => "non-canonical transfer identifier",
            TransferError::NoSourceRoots => "queued transfer has no source roots",
            TransferError::SourcesChanged => "queued sources changed after they were selected",
            TransferError::RecordChanged => "file-transfer queue record changed before acknowledgement",
            TransferError::LaneMismatch => "non-file message reached file-transfer lane",
        }
    }
}

/// A reason that is told to the peer when an offer is rejected or a transfer cancelled.
#[derive(Clone, Copy, PartialEq, Eq, Structural, Debug)]
pub enum PeerReason {
    /// Offer violates local transfer policy.
    PolicyViolation,
    /// Deterministic transfer collision loser.
    CollisionLoser,
    /// Another transfer is active.
    AnotherActive,
    /// Unexpected offer response.
    UnexpectedOfferResponse,
    /// Invalid persistence checkpoint.
    InvalidCheckpoint,
    /// Source changed after it was queued.
    SourceChanged,
    /// Invalid terminal acknowledgement.
    InvalidTerminalAck,
    /// Transfer validation or I/O failed.
    ValidationFailed,
    /// No transfer is active.
    NoneActive,
    /// No matching transfer is active.
    NoneMatching,
    /// Received file failed content validation.
    ContentInvalid,
}

impl PeerReason {
    /// The wording of the reason.
    pub open spec fn wording(self) -> Seq<char> {
        match self {
            PeerReason::PolicyViolation => "offer violates local transfer policy"@,
            PeerReason::CollisionLoser => "deterministic transfer collision loser"@,
            PeerReason::AnotherActive => "another transfer is active"@,
            PeerReason::UnexpectedOfferResponse => "unexpected offer response"@,
            PeerReason::InvalidCheckpoint => "invalid persistence checkpoint"@,
            PeerReason::SourceChanged => "source changed after it was queued"@,
            PeerReason::InvalidTerminalAck => "invalid terminal acknowledgement"@,
            PeerReason::ValidationFailed => "transfer validation or I/O failed"@,
            PeerReason::NoneActive => "no transfer is active"@,
            PeerReason::NoneMatching => "no matching transfer is active"@,
            PeerReason::ContentInvalid => "received file failed content validation"@,
        }
    }

    /// The wording of the reason.
    pub fn message(self) -> (m: &'static str)
        ensures
            m@ == self.wording(),
    {
        match self {
            PeerReason::PolicyViolation => "offer violates local transfer policy",
            PeerReason::CollisionLoser => "deterministic transfer collision loser",
            PeerReason::AnotherActive => "another transfer is active",
            PeerReason::UnexpectedOfferResponse => "unexpected offer response",
            PeerReason::InvalidCheckpoint => "invalid persistence checkpoint",
            PeerReason::SourceChanged => "source changed after it was queued",
            PeerReason::InvalidTerminalAck => "invalid terminal acknowledgement",
            PeerReason::ValidationFailed => "transfer validation or I/O failed",
            PeerReason::NoneActive => "no transfer is active",
            PeerReason::NoneMatching => "no matching transfer is active",
            PeerReason::ContentInvalid => "received file failed content validation",
        }
    }
}

} // verus!
