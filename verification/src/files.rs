//! Uploads: what MIME type a file is given, and how its size is metered while
//! it streams in.

use vstd::prelude::*;

use sha2::Digest;

use crate::auth::sha256;
use crate::config::MEBIBYTE;
use crate::text::{utf8_verdict, Utf8Verdict};

verus! {

/// Whether leading bytes read as text: no NUL, and UTF-8 apart from a
/// sequence the chunk boundary cut short, which further bytes could complete.
pub open spec fn reads_as_text(chunk: Seq<u8>) -> bool {
    !chunk.contains(0u8) && exists|more: Seq<u8>| #[trigger] vstd::utf8::valid_utf8(chunk + more)
}

/// Reports whether a chunk of bytes reads as UTF-8 text.
///
/// # Arguments
///
/// * `chunk` - Leading bytes of the file.
pub fn is_utf8_text(chunk: &[u8]) -> (r: bool)
    ensures
        r == reads_as_text(chunk@),
{
    let mut i: usize = 0;
    while i < chunk.len()
        invariant
            i <= chunk.len(),
            forall|j: int| 0 <= j < i ==> chunk@[j] != 0u8,
        decreases chunk.len() - i,
    {
        if chunk[i] == 0 {
            return false;
        }
        i = i + 1;
    }
    let verdict = utf8_verdict(chunk);
    proof {
        if vstd::utf8::valid_utf8(chunk@) {
            assert(chunk@ + Seq::<u8>::empty() =~= chunk@);
            assert(vstd::utf8::valid_utf8(chunk@ + Seq::<u8>::empty()));
        }
    }
    match verdict {
        Utf8Verdict::Invalid => false,
        _ => true,
    }
}

/// The MIME type `infer` recognises from leading bytes, if any.
pub uninterp spec fn inferred_mime(leading: Seq<u8>) -> Option<Seq<char>>;

/// Calls `infer::get` and takes the `mime_type` of the kind it matched; which
/// signatures it matches is not restated, only that it reads the bytes alone.
#[verifier::external_body]
fn infer_mime(leading: &[u8]) -> (r: Option<String>)
    ensures
        match r {
            Some(m) => inferred_mime(leading@) == Some(m@),
            None => inferred_mime(leading@) is None,
        },
{
    infer::get(leading).map(|kind| kind.mime_type().to_string())
}

/// The MIME type an upload is stored with, from its first chunk: what `infer`
/// recognises, else `text/plain` for text, else `application/octet-stream`.
pub open spec fn upload_mime(first_chunk: Seq<u8>) -> Seq<char> {
    match inferred_mime(first_chunk) {
        Some(m) => m,
        None => if reads_as_text(first_chunk) { "text/plain"@ } else { "application/octet-stream"@ },
    }
}

/// Picks the MIME type an upload is stored with from its first chunk.
pub fn chunk_mime(first_chunk: &[u8]) -> (r: String)
    ensures
        r@ == upload_mime(first_chunk@),
{
    match infer_mime(first_chunk) {
        Some(m) => m,
        None => if is_utf8_text(first_chunk) {
            String::from_str("text/plain")
        } else {
            String::from_str("application/octet-stream")
        },
    }
}

/// A SHA-256 hasher fed an upload chunk by chunk, holding `sha2::Sha256`
/// privately; what it has taken in is `absorbed`.
#[verifier::external_body]
pub struct Sha256Hasher {
    inner: sha2::Sha256,
}

/// The bytes a SHA-256 hasher has taken in so far, in order.
pub uninterp spec fn absorbed(h: Sha256Hasher) -> Seq<u8>;

/// Calls `Sha256::new`, a hasher that has taken in nothing.
#[verifier::external_body]
fn new_hasher() -> (r: Sha256Hasher)
    ensures
        absorbed(r) == Seq::<u8>::empty(),
{
    Sha256Hasher { inner: sha2::Sha256::new() }
}

/// Calls `Digest::update`, which appends the bytes to what the hasher has taken in.
#[verifier::external_body]
fn hasher_update(h: &mut Sha256Hasher, data: &[u8])
    ensures
        absorbed(*final(h)) == absorbed(*old(h)) + data@,
{
    h.inner.update(data)
}

/// Calls `Digest::finalize`: the SHA-256 of everything taken in.
#[verifier::external_body]
fn hasher_finish(h: Sha256Hasher) -> (r: [u8; 32])
    ensures
        r@ == sha256(absorbed(h)),
{
    h.inner.finalize().into()
}

/// Why an upload is refused while it streams in.
#[derive(Debug, Clone, Copy, PartialEq, Eq, Structural)]
pub enum UploadError {
    /// The stream passed the byte limit
    TooLarge { max: i64 },
    /// The stream held no bytes
    Empty,
}

/// Counts an upload's bytes as its chunks arrive, hashes them, and keeps the
/// MIME type of its first chunk.
pub struct UploadMeter {
    pub read_bytes: i64,
    pub max: i64,
    pub mime: String,
    /// Every byte taken so far, in order
    pub taken: Ghost<Seq<u8>>,
    /// Has taken in exactly `taken`
    pub hasher: Sha256Hasher,
}

impl UploadMeter {
    /// Whether the count and the hash both cover exactly the bytes taken.
    pub closed spec fn wf(&self) -> bool {
        &&& absorbed(self.hasher) == self.taken@
        &&& self.read_bytes == self.taken@.len()
        &&& (self.read_bytes == 0 || self.read_bytes <= self.max)
    }

    /// A meter for an upload rejected past `max` bytes.
    pub fn new(max: i64) -> (r: UploadMeter)
        ensures
            r.wf(),
            r.read_bytes == 0,
            r.taken@ == Seq::<u8>::empty(),
            r.max == max,
            r.mime@ == "application/octet-stream"@,
    {
        UploadMeter {
            read_bytes: 0,
            max,
            mime: String::from_str("application/octet-stream"),
            taken: Ghost(Seq::empty()),
            hasher: new_hasher(),
        }
    }

    /// Takes one chunk: the first decides the MIME type, and a chunk that
    /// carries the total past the limit is refused. A refused chunk is neither
    /// counted nor hashed.
    pub fn take_chunk(&mut self, chunk: &[u8]) -> (r: Result<(), UploadError>)
        requires
            old(self).wf(),
            chunk@.len() > 0,
        ensures
            final(self).wf(),
            final(self).max == old(self).max,
            final(self).mime@ == (if old(self).read_bytes == 0 { upload_mime(chunk@) } else { old(self).mime@ }),
            final(self).read_bytes == final(self).taken@.len(),
            old(self).read_bytes + chunk@.len() > old(self).max ==> r == Err::<(), UploadError>(UploadError::TooLarge { max: old(self).max })
                && final(self).taken@ == old(self).taken@ && final(self).read_bytes == old(self).read_bytes,
            old(self).read_bytes + chunk@.len() <= old(self).max ==> r is Ok && final(self).taken@ == old(self).taken@ + chunk@
                && final(self).read_bytes == old(self).read_bytes + chunk@.len(),
    {
        if self.read_bytes == 0 {
            self.mime = chunk_mime(chunk);
        }
        let over = if self.max < self.read_bytes {
            true
        } else {
            chunk.len() as u64 > (self.max - self.read_bytes) as u64
        };
        if over {
            return Err(UploadError::TooLarge { max: self.max });
        }
        self.read_bytes = self.read_bytes + chunk.len() as i64;
        hasher_update(&mut self.hasher, chunk);
        self.taken = Ghost(self.taken@ + chunk@);
        Ok(())
    }

    /// Ends the stream: an upload that held no bytes is refused, and one that
    /// did gives its size and the SHA-256 of its bytes.
    pub fn finish(self) -> (r: Result<(i64, [u8; 32]), UploadError>)
        requires
            self.wf(),
        ensures
            match r {
                Ok((size, digest)) => self.read_bytes > 0 && size == self.read_bytes && digest@ == sha256(self.taken@),
                Err(e) => self.read_bytes == 0 && e == UploadError::Empty,
            },
    {
        if self.read_bytes == 0 {
            return Err(UploadError::Empty);
        }
        let size = self.read_bytes;
        let digest = hasher_finish(self.hasher);
        Ok((size, digest))
    }
}

/// The largest upload body accepted: a mebibyte above the file limit, so the
/// streaming read rejects an oversized file first.
pub fn max_body_bytes(file_bytes_max: i64) -> (r: usize)
    requires
        0 <= file_bytes_max <= i64::MAX - MEBIBYTE,
        file_bytes_max + MEBIBYTE <= usize::MAX,
    ensures
        r == file_bytes_max + MEBIBYTE,
{
    (MEBIBYTE + file_bytes_max) as usize
}

} // verus!
