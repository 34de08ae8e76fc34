//! LZ4 block decompression into a buffer whose exact size the caller declares.

use lz4_flex::block::DecompressError;
use vstd::prelude::*;

verus! {

/// The longest run of `0xFF` bytes that a block may hold.
///
/// A length field of the block format adds up one byte after another for as
/// long as they are `0xFF`. Below this bound no such sum leaves 31 bits.
pub const MAX_FF_RUN: usize = 8_388_608;

/// The number of consecutive `0xFF` bytes of `s` that end just before `end`.
pub open spec fn ff_run(s: Seq<u8>, end: int) -> nat
    decreases end,
{
    if end <= 0 || end > s.len() || s[end - 1] != 0xFF {
        0
    } else {
        1 + ff_run(s, end - 1)
    }
}

/// No run of `0xFF` bytes in `s` reaches `MAX_FF_RUN`.
pub open spec fn lengths_bounded(s: Seq<u8>) -> bool {
    forall|end: int| 0 <= end <= s.len() ==> #[trigger] ff_run(s, end) < MAX_FF_RUN
}

/// What the block decoder makes of `input` when it is given room for
/// `capacity` bytes: the decoded bytes, or nothing where it reports an error.
pub uninterp spec fn lz4_block_output(input: Seq<u8>, capacity: nat) -> Option<Seq<u8>>;

/// The outcome of decoding `input` as a block of exactly `size` bytes.
pub open spec fn exact_output(decoded: Option<Seq<u8>>, size: nat) -> Option<Seq<u8>> {
    match decoded {
        Some(out) => if out.len() == size {
            Some(out)
        } else {
            None
        },
        None => None,
    }
}

/// The bytes that `input` decompresses to when they are exactly `size` many.
pub open spec fn decompressed(input: Seq<u8>, size: nat) -> Option<Seq<u8>> {
    if lengths_bounded(input) && size <= isize::MAX {
        exact_output(lz4_block_output(input, size), size)
    } else {
        None
    }
}

/// Decompression never cuts or fills: what it gives has the declared size.
pub proof fn lemma_decompressed_len(input: Seq<u8>, size: nat)
    ensures
        decompressed(input, size) matches Some(out) ==> out.len() == size,
{
}

#[verifier::external_type_specification]
#[verifier::external_body]
pub struct ExDecompressError(DecompressError);

/// Trusted: `lz4_flex::block::decompress`. It decodes into a zeroed buffer of
/// `capacity` bytes, cut down to what was written, and its result depends on
/// the two arguments only. Its documentation allows a panic where the buffer
/// is smaller than the decoded data; the decoder built without unsafe code,
/// which the crate's default features select, tests the room left before each
/// copy and answers with an error. What is left to go wrong is left out here:
/// the sum of a length field, which is added up unchecked in 32 bits, and a
/// capacity that no vector can have.
#[verifier::external_body]
fn block_decompress(input: &[u8], capacity: usize) -> (r: Result<Vec<u8>, DecompressError>)
    requires
        lengths_bounded(input@),
        capacity <= isize::MAX,
    ensures
        match r {
            Ok(out) => lz4_block_output(input@, capacity as nat) == Some(out@),
            Err(_) => lz4_block_output(input@, capacity as nat) is None,
        },
{
    lz4_flex::block::decompress(input, capacity)
}

/// Tells whether no run of `0xFF` bytes in `input` reaches `MAX_FF_RUN`.
pub fn has_bounded_lengths(input: &[u8]) -> (ok: bool)
    ensures
        ok == lengths_bounded(input@),
{
    let mut run: usize = 0;
    let mut i: usize = 0;
    while i < input.len()
        invariant
            i <= input@.len(),
            run == ff_run(input@, i as int),
            forall|end: int| 0 <= end <= i ==> #[trigger] ff_run(input@, end) < MAX_FF_RUN,
        decreases input@.len() - i,
    {
        if input[i] == 0xFF {
            run = run + 1;
        } else {
            run = 0;
        }
        i = i + 1;
        assert(run == ff_run(input@, i as int));
        if run >= MAX_FF_RUN {
            return false;
        }
    }
    true
}

/// Keeps a decoder's output only where its length is exactly `size`.
pub fn accept_exact(decoded: Result<Vec<u8>, DecompressError>, size: usize) -> (r: Option<Vec<u8>>)
    ensures
        match r {
            Some(out) => decoded matches Ok(d) && d@ == out@ && out@.len() == size,
            None => decoded matches Ok(d) ==> d@.len() != size,
        },
{
    match decoded {
        Ok(out) => if out.len() == size {
            Some(out)
        } else {
            None
        },
        Err(_) => None,
    }
}

/// Decompresses `input` as a block that holds exactly `size` bytes. A corrupt
/// block, one that decodes to fewer or more bytes, an over-long run of `0xFF`
/// and a size that no buffer can have all give `None`.
pub fn decompress_exact(input: &[u8], size: usize) -> (r: Option<Vec<u8>>)
    ensures
        match r {
            Some(out) => decompressed(input@, size as nat) == Some(out@),
            None => decompressed(input@, size as nat) is None,
        },
{
    if size > isize::MAX as usize || !has_bounded_lengths(input) {
        return None;
    }
    accept_exact(block_decompress(input, size), size)
}

} // verus!
