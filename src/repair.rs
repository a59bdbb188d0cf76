//! Repairing a PNG file: writing the recovered dimensions and a fresh
//! checksum into a copy of the file's bytes.
use vstd::prelude::*;
use vstd::slice::slice_to_vec;
use crate::be::{be_bytes, lemma_be_round_trip, put_opt, put_u32, write_be_u32};
use crate::crc::{crc32, crc32_of};
use crate::ihdr::{
    checksum_with, copy_range, payload_of, stored_checksum_of, substituted, IHDR, CHECKSUM_START,
    HEIGHT_START, MIN_PNG_LEN, PAYLOAD_START, WIDTH_START,
};
use crate::search::{
    both_match, height_matches, is_first_both_fix, is_first_height_fix, is_first_width_fix, recover,
    recovery_of, width_matches, Recovery,
};

verus! {

/// Why a file could not be repaired.
#[derive(Debug, Clone, Copy, PartialEq, Eq, Structural)]
pub enum RecoveryError {
    /// The file is too short to hold the IHDR chunk and its checksum.
    MalformedInput,
    /// No candidate in the searched range reproduces the stored checksum.
    NoFixFound,
}

/// A file with its width and height fields overwritten where values are given.
pub open spec fn fields_replaced(file: Seq<u8>, width: Option<u32>, height: Option<u32>) -> Seq<
    u8,
> {
    put_opt(put_opt(file, WIDTH_START as int, width), HEIGHT_START as int, height)
}

/// A file with its width and height fields overwritten where values are
/// given, and its IHDR checksum recomputed over the resulting payload.
pub open spec fn patched(file: Seq<u8>, width: Option<u32>, height: Option<u32>) -> Seq<u8> {
    let b = fields_replaced(file, width, height);
    put_u32(b, CHECKSUM_START as int, crc32_of(payload_of(b)))
}

/// The width and height a recovery outcome writes into the file.
pub open spec fn overrides(r: Recovery) -> (Option<u32>, Option<u32>) {
    match r {
        Recovery::HeightFixed(h) => (None, Some(h)),
        Recovery::WidthFixed(w) => (Some(w), None),
        Recovery::BothFixed(h, w) => (Some(w), Some(h)),
        _ => (None, None),
    }
}

/// The bytes a repair hands back for a recovery outcome: the file itself when
/// nothing needed fixing, else the file patched with the recovered values.
pub open spec fn repaired_bytes(file: Seq<u8>, r: Recovery) -> Seq<u8> {
    if r == Recovery::Unchanged {
        file
    } else {
        patched(file, overrides(r).0, overrides(r).1)
    }
}

/// After a patch, the stored checksum is the checksum of the new payload, and
/// that payload is the old one with the given substitutions.
pub proof fn lemma_patched(file: Seq<u8>, width: Option<u32>, height: Option<u32>)
    requires
        file.len() >= MIN_PNG_LEN,
    ensures
        patched(file, width, height).len() == file.len(),
        payload_of(patched(file, width, height)) == substituted(payload_of(file), width, height),
        stored_checksum_of(patched(file, width, height)) == checksum_with(
            payload_of(file),
            width,
            height,
        ),
{
    let b = fields_replaced(file, width, height);
    let p = patched(file, width, height);
    let c = crc32_of(payload_of(b));
    assert(payload_of(b) =~= substituted(payload_of(file), width, height));
    assert(payload_of(p) =~= payload_of(b));
    assert(p.subrange(CHECKSUM_START as int, MIN_PNG_LEN as int) =~= be_bytes(c));
    lemma_be_round_trip(c);
}

/// Patching a file and reading it back gives a chunk whose checksum equals
/// the stored one.
pub proof fn law_patch_round_trip(file: Seq<u8>, width: Option<u32>, height: Option<u32>)
    requires
        file.len() >= MIN_PNG_LEN,
    ensures
        checksum_with(payload_of(patched(file, width, height)), None, None) == stored_checksum_of(
            patched(file, width, height),
        ),
{
    lemma_patched(file, width, height);
    let q = payload_of(patched(file, width, height));
    assert(substituted(q, None, None) == q);
}

/// A file whose IHDR checksum already matches is reported unchanged, and
/// its bytes are handed back as they are.
pub proof fn law_valid_file_unchanged(file: Seq<u8>)
    requires
        file.len() >= MIN_PNG_LEN,
        checksum_with(payload_of(file), None, None) == stored_checksum_of(file),
    ensures
        recovery_of(payload_of(file), stored_checksum_of(file)) == Recovery::Unchanged,
        repaired_bytes(file, Recovery::Unchanged) == file,
{
}

/// A fix that recovery finds, once written into the file, keeps the file's
/// stored checksum: the recovered fields reproduce it.
pub proof fn law_fix_keeps_stored_checksum(file: Seq<u8>)
    requires
        file.len() >= MIN_PNG_LEN,
        recovery_of(payload_of(file), stored_checksum_of(file)) != Recovery::NotFound,
    ensures
        stored_checksum_of(
            repaired_bytes(file, recovery_of(payload_of(file), stored_checksum_of(file))),
        ) == stored_checksum_of(file),
{
    let p = payload_of(file);
    let e = stored_checksum_of(file);
    let r = recovery_of(p, e);
    if r != Recovery::Unchanged {
        lemma_patched(file, overrides(r).0, overrides(r).1);
        match r {
            Recovery::HeightFixed(h) => {
                let c = choose|h: u32| is_first_height_fix(p, e, h);
                assert(height_matches(p, e, c));
            },
            Recovery::WidthFixed(w) => {
                let c = choose|w: u32| is_first_width_fix(p, e, w);
                assert(width_matches(p, e, c));
            },
            Recovery::BothFixed(h, w) => {
                let (h0, w0) = choose|h: u32, w: u32| is_first_both_fix(p, e, h, w);
                assert(is_first_both_fix(p, e, (h0, w0).0, (h0, w0).1));
                let c = choose|q: (u32, u32)| is_first_both_fix(p, e, q.0, q.1);
                assert(both_match(p, e, c.0, c.1));
            },
            _ => {},
        }
    }
}

/// A copy of a PNG file with the given width and height written into its
/// IHDR chunk and the chunk's checksum recomputed to match.
pub fn apply_fix(original_data: &[u8], width: Option<u32>, height: Option<u32>) -> (r: Vec<u8>)
    requires
        original_data@.len() >= MIN_PNG_LEN,
    ensures
        r@ == patched(original_data@, width, height),
{
    let mut new_data = slice_to_vec(original_data);
    if let Some(w) = width {
        write_be_u32(&mut new_data, WIDTH_START, w);
    }
    if let Some(h) = height {
        write_be_u32(&mut new_data, HEIGHT_START, h);
    }
    let payload = copy_range(new_data.as_slice(), PAYLOAD_START, CHECKSUM_START);
    let new_crc = crc32(payload.as_slice());
    write_be_u32(&mut new_data, CHECKSUM_START, new_crc);
    new_data
}

/// Reads the IHDR chunk of a PNG file, recovers its dimensions against the
/// stored checksum, and returns the outcome with the repaired bytes: the file
/// unchanged when its checksum already matches, else a patched copy.
pub fn try_fix_crc32(img_data: &[u8]) -> (r: Result<(Recovery, Vec<u8>), RecoveryError>)
    ensures
        img_data@.len() < MIN_PNG_LEN ==> r == Err::<(Recovery, Vec<u8>), _>(
            RecoveryError::MalformedInput,
        ),
        img_data@.len() >= MIN_PNG_LEN ==> {
            let rec = recovery_of(payload_of(img_data@), stored_checksum_of(img_data@));
            &&& rec == Recovery::NotFound ==> r == Err::<(Recovery, Vec<u8>), _>(
                RecoveryError::NoFixFound,
            )
            &&& rec != Recovery::NotFound ==> (r matches Ok((got, out)) && got == rec && out@
                == repaired_bytes(img_data@, rec))
        },
{
    let (ihdr, expected_crc32) = match IHDR::from_png(img_data) {
        Ok(parsed) => parsed,
        Err(e) => return Err(e),
    };
    let rec = recover(&ihdr, expected_crc32);
    match rec {
        Recovery::Unchanged => Ok((rec, slice_to_vec(img_data))),
        Recovery::HeightFixed(h) => Ok((rec, apply_fix(img_data, None, Some(h)))),
        Recovery::WidthFixed(w) => Ok((rec, apply_fix(img_data, Some(w), None))),
        Recovery::BothFixed(h, w) => Ok((rec, apply_fix(img_data, Some(w), Some(h)))),
        Recovery::NotFound => Err(RecoveryError::NoFixFound),
    }
}

} // verus!
