use vstd::prelude::*;
use byteorder::{BigEndian, WriteBytesExt};
use crate::framebuffer::Display;

verus! {

/// The four bytes of `n`, most significant first.
pub open spec fn be_bytes(n: u32) -> Seq<u8> {
    seq![(n >> 24u32) as u8, (n >> 16u32) as u8, (n >> 8u32) as u8, n as u8]
}

/// The number that four bytes stand for, read most significant first.
pub open spec fn be_value(s: Seq<u8>) -> u32 {
    ((s[0] as u32) << 24u32) | ((s[1] as u32) << 16u32) | ((s[2] as u32) << 8u32) | (s[3] as u32)
}

/// The stream sent for a framebuffer holding `payload`: its length as a
/// four-byte big-endian prefix, then the bytes themselves.
pub open spec fn framed(payload: Seq<u8>) -> Seq<u8> {
    be_bytes(payload.len() as u32) + payload
}

/// Relies on byteorder's `WriteBytesExt::write_u32::<BigEndian>`: it
/// appends the four bytes of `n`, most significant first, and writing into
/// a `Vec` cannot fail.
#[verifier::external_body]
fn encode_u32_be(n: u32) -> (r: Vec<u8>)
    ensures
        r@ == be_bytes(n),
{
    let mut out: Vec<u8> = Vec::new();
    out.write_u32::<BigEndian>(n).unwrap();
    out
}

impl Display {
    /// The length prefix that goes ahead of the packed bytes.
    pub fn length_prefix(&self) -> (r: Vec<u8>)
        requires
            self.wf(),
        ensures
            r@ == be_bytes(self.bytes().len() as u32),
    {
        let len: usize = self.payload().len();
        encode_u32_be(len as u32)
    }

    /// The whole transfer: length prefix, then the packed bytes.
    pub fn frame(&self) -> (r: Vec<u8>)
        requires
            self.wf(),
        ensures
            r@ == framed(self.bytes()),
    {
        let mut out = self.length_prefix();
        let bytes = self.payload();
        let mut i: usize = 0;
        while i < bytes.len()
            invariant
                i <= bytes@.len(),
                bytes@ == self.bytes(),
                out@ == be_bytes(self.bytes().len() as u32) + bytes@.subrange(0, i as int),
            decreases bytes@.len() - i,
        {
            out.push(bytes[i]);
            i = i + 1;
            assert(out@ =~= be_bytes(self.bytes().len() as u32) + bytes@.subrange(0, i as int));
        }
        assert(bytes@.subrange(0, i as int) =~= bytes@);
        out
    }
}

/// Reading a transfer back: its first four bytes, read big-endian, give the
/// length of the payload, and the bytes after them are the payload exactly.
pub proof fn lemma_frame_decodes(payload: Seq<u8>)
    requires
        payload.len() <= u32::MAX,
    ensures
        framed(payload).len() == 4 + payload.len(),
        be_value(framed(payload).subrange(0, 4)) as int == payload.len(),
        framed(payload).subrange(4, framed(payload).len() as int) == payload,
{
    let n = payload.len() as u32;
    let f = framed(payload);
    assert(f.subrange(0, 4) =~= be_bytes(n));
    assert(f.subrange(4, f.len() as int) =~= payload);
    assert((((n >> 24u32) as u8 as u32) << 24u32) | (((n >> 16u32) as u8 as u32) << 16u32) | (((n
        >> 8u32) as u8 as u32) << 8u32) | (n as u8 as u32) == n) by (bit_vector);
}

} // verus!
