//! Framing of a publish body: two segments, each a little-endian `u32`
//! length followed by that many bytes.

use vstd::prelude::*;
use crate::error::RegistryError;

verus! {

/// Number of bytes of a length prefix.
pub const LEN_PREFIX: usize = 4;

/// A decoded publish body.
#[derive(Debug, PartialEq)]
pub struct CratesPayload {
    pub meta_len: u32,
    pub meta_buf: Vec<u8>,
    pub crate_len: u32,
    pub crate_buf: Vec<u8>,
}

/// The value of four bytes read as a little-endian unsigned integer.
pub open spec fn le_u32(b: Seq<u8>) -> int
    recommends
        b.len() == 4,
{
    b[0] as int + b[1] as int * 0x100 + b[2] as int * 0x1_0000 + b[3] as int * 0x100_0000
}

/// What a body decodes to, given as the mathematical content of the payload.
pub struct PayloadView {
    pub meta: Seq<u8>,
    pub archive: Seq<u8>,
}

/// The decoding of a whole body: the payload, or the offset of the first
/// byte of the field that the body is too short to hold.
pub open spec fn spec_decode(body: Seq<u8>) -> Result<PayloadView, int> {
    if body.len() < 4 {
        Err(0)
    } else {
        let meta_len = le_u32(body.subrange(0, 4));
        if body.len() < 4 + meta_len {
            Err(4)
        } else if body.len() < 4 + meta_len + 4 {
            Err(4 + meta_len)
        } else {
            let crate_len = le_u32(body.subrange(4 + meta_len, 8 + meta_len));
            if body.len() < 8 + meta_len + crate_len {
                Err(8 + meta_len)
            } else {
                Ok(
                    PayloadView {
                        meta: body.subrange(4, 4 + meta_len),
                        archive: body.subrange(8 + meta_len, 8 + meta_len + crate_len),
                    },
                )
            }
        }
    }
}

impl CratesPayload {
    /// The two blobs of the payload.
    pub open spec fn view(&self) -> PayloadView {
        PayloadView { meta: self.meta_buf@, archive: self.crate_buf@ }
    }

    /// The declared lengths are those of the buffers.
    pub open spec fn wf(&self) -> bool {
        &&& self.meta_len as int == self.meta_buf@.len()
        &&& self.crate_len as int == self.crate_buf@.len()
    }
}

/// Reads the little-endian `u32` at `at`.
fn read_len(body: &[u8], at: usize) -> (len: u32)
    requires
        at + 4 <= body@.len(),
    ensures
        len as int == le_u32(body@.subrange(at as int, at + 4)),
{
    let b0: u32 = body[at] as u32;
    let b1: u32 = body[at + 1] as u32;
    let b2: u32 = body[at + 2] as u32;
    let b3: u32 = body[at + 3] as u32;
    b0 + b1 * 0x100 + b2 * 0x1_0000 + b3 * 0x100_0000
}

/// Copies `body[from..to]`.
fn copy_range(body: &[u8], from: usize, to: usize) -> (out: Vec<u8>)
    requires
        from <= to <= body@.len(),
    ensures
        out@ == body@.subrange(from as int, to as int),
{
    let mut out: Vec<u8> = Vec::new();
    let mut i: usize = from;
    while i < to
        invariant
            from <= i <= to <= body@.len(),
            out@ == body@.subrange(from as int, i as int),
        decreases to - i,
    {
        out.push(body[i]);
        i = i + 1;
    }
    out
}

impl CratesPayload {
    /// Decodes a whole publish body.
    ///
    /// Succeeds exactly when the body holds both length prefixes and at least
    /// as many bytes after each as it declares; bytes after the archive are
    /// ignored. Otherwise the error names the offset of the field that the
    /// body ends in.
    pub fn decode(body: &[u8]) -> (decoded: Result<CratesPayload, RegistryError>)
        ensures
            match decoded {
                Ok(payload) => spec_decode(body@) == Ok::<PayloadView, int>(payload@)
                    && payload.wf(),
                Err(e) => spec_decode(body@) matches Err(offset) && 0 <= offset <= body@.len()
                    && e == (RegistryError::MalformedPayload { offset: offset as usize }),
            },
    {
        let n = body.len();
        if n < 4 {
            return Err(RegistryError::MalformedPayload { offset: 0 });
        }
        let meta_len = read_len(body, 0);
        if n - 4 < meta_len as usize {
            return Err(RegistryError::MalformedPayload { offset: 4 });
        }
        let meta_end: usize = 4 + meta_len as usize;
        if n - meta_end < 4 {
            return Err(RegistryError::MalformedPayload { offset: meta_end });
        }
        let crate_len = read_len(body, meta_end);
        let crate_start: usize = meta_end + 4;
        if n - crate_start < crate_len as usize {
            return Err(RegistryError::MalformedPayload { offset: crate_start });
        }
        let meta_buf = copy_range(body, 4, meta_end);
        let crate_buf = copy_range(body, crate_start, crate_start + crate_len as usize);
        Ok(CratesPayload { meta_len, meta_buf, crate_len, crate_buf })
    }
}

/// The number of bytes that a decoded body takes: two length prefixes and
/// the two segments.
pub open spec fn encoded_len(payload: PayloadView) -> int {
    2 * LEN_PREFIX as int + payload.meta.len() + payload.archive.len()
}

/// A body that is cut short of the end of its archive does not decode: no
/// part of a truncated body is ever handed out.
pub proof fn lemma_truncated_body_is_malformed(body: Seq<u8>, kept: int)
    requires
        spec_decode(body) is Ok,
        0 <= kept < encoded_len(spec_decode(body)->Ok_0),
    ensures
        kept <= body.len(),
        spec_decode(body.take(kept)) is Err,
{
}

} // verus!
