//! The content of files as it is read or written piece by piece, and its digest.

use vstd::prelude::*;

use crate::digest::same_digest;
use crate::files::block_of;
use crate::files::next_block;
use crate::outside::absorbed;
use crate::outside::sha256_of;
use crate::outside::ContentHasher;
use crate::transfer_error::TransferError;

verus! {

/// Bytes that came by so far, of which only their number and their digest are
/// kept. The view is the bytes themselves.
#[derive(Debug)]
pub struct Content {
    hasher: ContentHasher,
    len: u64,
}

impl View for Content {
    type V = Seq<u8>;

    closed spec fn view(&self) -> Seq<u8> {
        absorbed(self.hasher)
    }
}

impl Content {
    /// The number that is kept is that of the bytes.
    pub closed spec fn valid(self) -> bool {
        self.len == self@.len()
    }

    /// Nothing came by yet.
    pub fn new() -> (content: Self)
        ensures
            content.valid(),
            content@ == Seq::<u8>::empty(),
    {
        Content { hasher: ContentHasher::new(), len: 0 }
    }

    /// How many bytes came by.
    pub fn len(&self) -> (len: u64)
        requires
            self.valid(),
        ensures
            len == self@.len(),
    {
        self.len
    }

    /// Takes in the next bytes, unless they would be more than can be counted.
    pub fn absorb(&mut self, bytes: &[u8]) -> (taken: bool)
        requires
            old(self).valid(),
        ensures
            final(self).valid(),
            taken == (old(self)@.len() + bytes@.len() <= u64::MAX),
            final(self)@ == (if taken {
                old(self)@ + bytes@
            } else {
                old(self)@
            }),
    {
        match self.len.checked_add(bytes.len() as u64) {
            None => false,
            Some(len) => {
                self.hasher.update(bytes);
                self.len = len;
                true
            },
        }
    }

    /// The digest of everything that came by.
    pub fn finish(self) -> (digest: FileDigest)
        ensures
            digest@ == self@,
    {
        let content: Ghost<Seq<u8>> = Ghost(self@);
        FileDigest { bytes: self.hasher.finish(), content }
    }
}

/// The digest of a content. The view is the content.
#[derive(Clone, Copy)]
pub struct FileDigest {
    bytes: [u8; 32],
    content: Ghost<Seq<u8>>,
}

impl View for FileDigest {
    type V = Seq<u8>;

    closed spec fn view(&self) -> Seq<u8> {
        self.content@
    }
}

impl FileDigest {
    #[verifier::type_invariant]
    spec fn of_its_content(self) -> bool {
        self.bytes@ == sha256_of(self.content@)
    }

    /// The digest itself.
    pub fn bytes(&self) -> (bytes: [u8; 32])
        ensures
            bytes@ == sha256_of(self@),
    {
        proof {
            use_type_invariant(self);
        }
        self.bytes
    }

    /// Whether the content has the promised digest.
    pub fn keeps(&self, promised: &[u8; 32]) -> (kept: bool)
        ensures
            kept == (promised@ == sha256_of(self@)),
    {
        proof {
            use_type_invariant(self);
        }
        same_digest(promised, &self.bytes)
    }
}

/// The first bytes of a file that were sent or received before, on the way to
/// being read again: a resumed file's digest covers them too.
#[derive(Debug)]
pub struct PrefixRead {
    pub content: Content,
    pub length: u64,
}

impl PrefixRead {
    /// No more came by than the prefix holds.
    pub open spec fn valid(self) -> bool {
        self.content.valid() && self.content@.len() <= self.length
    }

    /// Nothing of a prefix was read yet.
    pub fn new(length: u64) -> (read: Self)
        ensures
            read.valid(),
            read.length == length,
            read.content@ == Seq::<u8>::empty(),
    {
        PrefixRead { content: Content::new(), length }
    }

    /// How many bytes to read next: none once the prefix is whole.
    pub fn wanted(&self) -> (wanted: u64)
        requires
            self.valid(),
        ensures
            wanted == block_of((self.length - self.content@.len()) as u64),
    {
        next_block(self.length - self.content.len())
    }

    /// Takes the bytes that were read. A file that ends within its prefix was
    /// truncated, and more than is left is not taken.
    pub fn on_block(&mut self, block: &[u8]) -> (r: Result<(), TransferError>)
        requires
            old(self).valid(),
        ensures
            final(self).valid(),
            final(self).length == old(self).length,
            if 0 < block@.len() <= old(self).length - old(self).content@.len() {
                &&& r == Ok::<(), TransferError>(())
                &&& final(self).content@ == old(self).content@ + block@
            } else {
                &&& r == Err::<(), TransferError>(TransferError::PrefixTruncated)
                &&& final(self).content@ == old(self).content@
            },
    {
        let left: u64 = self.length - self.content.len();
        if block.len() == 0 || block.len() as u64 > left {
            return Err(TransferError::PrefixTruncated);
        }
        let _ = self.content.absorb(block);
        Ok(())
    }

    /// The prefix, once it is whole.
    pub fn finish(self) -> (r: Result<Content, TransferError>)
        requires
            self.valid(),
        ensures
            match r {
                Ok(content) => content == self.content && self.content@.len() == self.length,
                Err(error) => self.content@.len() < self.length && error
                    == TransferError::PrefixTruncated,
            },
    {
        if self.content.len() == self.length {
            Ok(self.content)
        } else {
            Err(TransferError::PrefixTruncated)
        }
    }
}

} // verus!
