//! The IHDR chunk: its payload bytes and the checksum stored after them.
use vstd::prelude::*;
use crate::be::{be_u32, put_opt, read_be_u32, to_be_bytes};
use crate::crc::{crc32, crc32_of};
use crate::repair::RecoveryError;

verus! {

/// Length of a file that holds the signature, the IHDR length, its payload
/// (type tag and the 13 data bytes) and its checksum.
pub const MIN_PNG_LEN: usize = 33;

/// Offset of the IHDR type tag in a PNG file.
pub const PAYLOAD_START: usize = 12;

/// Offset of the stored IHDR checksum in a PNG file.
pub const CHECKSUM_START: usize = 29;

/// Offset of the width field in a PNG file.
pub const WIDTH_START: usize = 16;

/// Offset of the height field in a PNG file.
pub const HEIGHT_START: usize = 20;

/// Candidates for a dimension are the values below this bound.
pub const CANDIDATE_LIMIT: u32 = 65535;

/// The IHDR payload of a PNG file: the bytes the chunk checksum covers.
pub open spec fn payload_of(file: Seq<u8>) -> Seq<u8> {
    file.subrange(PAYLOAD_START as int, CHECKSUM_START as int)
}

/// The IHDR checksum recorded in a PNG file.
pub open spec fn stored_checksum_of(file: Seq<u8>) -> u32 {
    be_u32(file.subrange(CHECKSUM_START as int, MIN_PNG_LEN as int))
}

/// A payload with its width and height fields replaced by the given values.
pub open spec fn substituted(payload: Seq<u8>, width: Option<u32>, height: Option<u32>) -> Seq<u8> {
    put_opt(put_opt(payload, 4, width), 8, height)
}

/// The checksum of a payload under hypothetical width and height values.
pub open spec fn checksum_with(payload: Seq<u8>, width: Option<u32>, height: Option<u32>) -> u32 {
    crc32_of(substituted(payload, width, height))
}

/// An IHDR chunk split into its type tag, width field, height field and the
/// remaining fixed fields. Its view is the payload in file order.
pub struct IHDR {
    header: Vec<u8>,
    width_bytes: [u8; 4],
    height_bytes: [u8; 4],
    ends: Vec<u8>,
}

impl View for IHDR {
    type V = Seq<u8>;

    closed spec fn view(&self) -> Seq<u8> {
        self.header@ + self.width_bytes@ + self.height_bytes@ + self.ends@
    }
}

/// Appends all of `src` to `out`.
fn append(out: &mut Vec<u8>, src: &[u8])
    ensures
        final(out)@ == old(out)@ + src@,
{
    let mut i: usize = 0;
    while i < src.len()
        invariant
            i <= src@.len(),
            out@ == old(out)@ + src@.subrange(0, i as int),
        decreases src@.len() - i,
    {
        out.push(src[i]);
        i = i + 1;
        assert(src@.subrange(0, i as int) =~= src@.subrange(0, i - 1) + seq![src@[i - 1]]);
    }
    assert(src@.subrange(0, i as int) =~= src@);
}

/// A copy of `src[start..end]`.
pub(crate) fn copy_range(src: &[u8], start: usize, end: usize) -> (r: Vec<u8>)
    requires
        start <= end <= src@.len(),
    ensures
        r@ == src@.subrange(start as int, end as int),
{
    let mut r: Vec<u8> = Vec::new();
    let mut i: usize = start;
    while i < end
        invariant
            start <= i <= end <= src@.len(),
            r@ == src@.subrange(start as int, i as int),
        decreases end - i,
    {
        r.push(src[i]);
        i = i + 1;
        assert(src@.subrange(start as int, i as int) =~= src@.subrange(start as int, i - 1)
            + seq![src@[i - 1]]);
    }
    r
}

impl IHDR {
    #[verifier::type_invariant]
    spec fn inv(self) -> bool {
        self.header@.len() == 4
    }

    /// Splits a payload of at least twelve bytes into the chunk's fields.
    pub fn new(data: &[u8]) -> (r: IHDR)
        requires
            data@.len() >= 12,
        ensures
            r@ == data@,
    {
        let header = copy_range(data, 0, 4);
        let width_bytes: [u8; 4] = [data[4], data[5], data[6], data[7]];
        let height_bytes: [u8; 4] = [data[8], data[9], data[10], data[11]];
        let ends = copy_range(data, 12, data.len());
        let r = IHDR { header, width_bytes, height_bytes, ends };
        assert(r@ =~= data@);
        r
    }

    /// The stored width.
    pub fn width(&self) -> (r: u32)
        ensures
            r == be_u32(self@.subrange(4, 8)),
    {
        proof {
            use_type_invariant(self);
            assert(self@.subrange(4, 8) =~= self.width_bytes@);
        }
        read_be_u32(&self.width_bytes, 0)
    }

    /// The stored height.
    pub fn height(&self) -> (r: u32)
        ensures
            r == be_u32(self@.subrange(8, 12)),
    {
        proof {
            use_type_invariant(self);
            assert(self@.subrange(8, 12) =~= self.height_bytes@);
        }
        read_be_u32(&self.height_bytes, 0)
    }

    /// The payload with the given width and height in place of the stored
    /// fields; a field with no value given keeps its stored bytes.
    pub fn get_data(&self, width: Option<u32>, height: Option<u32>) -> (r: Vec<u8>)
        ensures
            r@ == substituted(self@, width, height),
    {
        proof {
            use_type_invariant(self);
        }
        let mut data: Vec<u8> = Vec::new();
        append(&mut data, self.header.as_slice());
        match width {
            Some(w) => {
                let b = to_be_bytes(w);
                append(&mut data, &b);
            },
            None => append(&mut data, &self.width_bytes),
        }
        match height {
            Some(h) => {
                let b = to_be_bytes(h);
                append(&mut data, &b);
            },
            None => append(&mut data, &self.height_bytes),
        }
        append(&mut data, self.ends.as_slice());
        assert(data@ =~= substituted(self@, width, height));
        data
    }

    /// The CRC32 of the payload under the given width and height.
    pub fn crc32(&self, width: Option<u32>, height: Option<u32>) -> (r: u32)
        ensures
            r == checksum_with(self@, width, height),
    {
        let data = self.get_data(width, height);
        crc32(data.as_slice())
    }

    /// Reads the IHDR payload and its stored checksum from a PNG file.
    pub fn from_png(png_data: &[u8]) -> (r: Result<(IHDR, u32), RecoveryError>)
        ensures
            png_data@.len() < MIN_PNG_LEN <==> r is Err,
            r is Err ==> r == Err::<(IHDR, u32), _>(RecoveryError::MalformedInput),
            r matches Ok((ihdr, stored)) ==> ihdr@ == payload_of(png_data@) && stored
                == stored_checksum_of(png_data@),
    {
        if png_data.len() < MIN_PNG_LEN {
            return Err(RecoveryError::MalformedInput);
        }
        let ihdr_data = copy_range(png_data, PAYLOAD_START, CHECKSUM_START);
        let expected = read_be_u32(png_data, CHECKSUM_START);
        Ok((IHDR::new(ihdr_data.as_slice()), expected))
    }
}

} // verus!
