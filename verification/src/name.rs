//! The name field of a file-list record: a fixed width, padded with NUL bytes,
//! holding UTF-8.

use vstd::prelude::*;
use vstd::slice::{slice_subrange, slice_to_vec};
use vstd::utf8::{
    decode_utf8, encode_utf8, encode_utf8_decode_utf8, encode_utf8_valid_utf8, valid_utf8,
};

verus! {

/// The length of the first `n` bytes of `field` once the NUL bytes at their
/// end are dropped.
pub open spec fn name_len(field: Seq<u8>, n: int) -> int
    decreases n,
{
    if n <= 0 {
        0
    } else if field[n - 1] != 0 {
        n
    } else {
        name_len(field, n - 1)
    }
}

/// `field` without the NUL bytes at its end.
pub open spec fn trimmed(field: Seq<u8>) -> Seq<u8> {
    field.subrange(0, name_len(field, field.len() as int))
}

/// The name that `field` holds, where what is left after trimming is UTF-8.
pub open spec fn name_of(field: Seq<u8>) -> Option<Seq<char>> {
    if valid_utf8(trimmed(field)) {
        Some(decode_utf8(trimmed(field)))
    } else {
        None
    }
}

/// `pad` NUL bytes.
pub open spec fn padding(pad: nat) -> Seq<u8> {
    Seq::new(pad, |i: int| 0u8)
}

/// Bounds of `name_len`, and that only NUL bytes follow it.
pub proof fn lemma_name_len(field: Seq<u8>, n: int)
    requires
        0 <= n <= field.len(),
    ensures
        0 <= name_len(field, n) <= n,
        name_len(field, n) > 0 ==> field[name_len(field, n) - 1] != 0,
        forall|k: int| name_len(field, n) <= k < n ==> field[k] == 0,
    decreases n,
{
    if n > 0 && field[n - 1] == 0 {
        lemma_name_len(field, n - 1);
    }
}

/// Padding is undone by trimming: bytes that do not end in NUL, followed by
/// any number of NUL bytes, trim back to those bytes.
pub proof fn lemma_trim_padding(name: Seq<u8>, pad: nat)
    requires
        name.len() == 0 || name.last() != 0,
    ensures
        trimmed(name + padding(pad)) == name,
    decreases pad,
{
    let field = name + padding(pad);
    if pad == 0 {
        assert(field =~= name);
        assert(trimmed(field) =~= name);
    } else {
        let shorter = name + padding((pad - 1) as nat);
        lemma_trim_padding(name, (pad - 1) as nat);
        let n = shorter.len() as int;
        assert(field.len() == n + 1 && field[n] == 0);
        assert(name_len(field, n + 1) == name_len(field, n));
        lemma_same_prefix(field, shorter, n);
        lemma_name_len(shorter, n);
        assert(trimmed(field) =~= trimmed(shorter));
    }
}

/// A name in a padded field is read back: the UTF-8 bytes of `name`, which do
/// not end in NUL, followed by any number of NUL bytes, decode to `name`.
pub proof fn lemma_padded_name(name: Seq<char>, pad: nat)
    requires
        encode_utf8(name).len() == 0 || encode_utf8(name).last() != 0,
    ensures
        name_of(encode_utf8(name) + padding(pad)) == Some(name),
{
    lemma_trim_padding(encode_utf8(name), pad);
    encode_utf8_valid_utf8(name);
    encode_utf8_decode_utf8(name);
}

/// `name_len` looks at the bytes before `n` only.
proof fn lemma_same_prefix(a: Seq<u8>, b: Seq<u8>, n: int)
    requires
        0 <= n <= a.len(),
        n <= b.len(),
        forall|k: int| 0 <= k < n ==> a[k] == b[k],
    ensures
        name_len(a, n) == name_len(b, n),
    decreases n,
{
    if n > 0 && a[n - 1] == 0 {
        lemma_same_prefix(a, b, n - 1);
    }
}

/// Trusted: `String::from_utf8`, which accepts exactly the byte strings that
/// are UTF-8 and then holds the characters that they encode.
#[verifier::external_body]
fn string_from_utf8(bytes: Vec<u8>) -> (r: Option<String>)
    ensures
        r is Some == valid_utf8(bytes@),
        r matches Some(s) ==> s@ == decode_utf8(bytes@),
{
    String::from_utf8(bytes).ok()
}

/// Drops the NUL bytes at the end of `field`.
pub fn trim_padding(field: &[u8]) -> (r: &[u8])
    ensures
        r@ == trimmed(field@),
{
    let mut n: usize = field.len();
    while n > 0 && field[n - 1] == 0
        invariant
            n <= field@.len(),
            name_len(field@, field@.len() as int) == name_len(field@, n as int),
        decreases n,
    {
        n = n - 1;
    }
    slice_subrange(field, 0, n)
}

/// Decodes a name field: the padding is dropped and the rest read as UTF-8.
/// Bytes that are not UTF-8 give `None`.
pub fn decode_name(field: &[u8]) -> (r: Option<String>)
    ensures
        match r {
            Some(name) => name_of(field@) == Some(name@),
            None => name_of(field@) is None,
        },
{
    string_from_utf8(slice_to_vec(trim_padding(field)))
}

} // verus!
