//! File paths as the bytes the system knows them by.

use vstd::prelude::*;

verus! {

/// The separator between the components of a path.
pub const SEPARATOR: u8 = 0x2f;

/// `base` as something a component can be put behind: with a separator at its
/// end, unless there is nothing to separate from.
pub open spec fn as_directory(base: Seq<u8>) -> Seq<u8> {
    if base.len() == 0 || base.last() == SEPARATOR {
        base
    } else {
        base.push(SEPARATOR)
    }
}

/// The path of the entry `leaf` of directory `base`.
pub open spec fn entry_of(base: Seq<u8>, leaf: Seq<char>) -> Seq<u8> {
    as_directory(base) + vstd::utf8::encode_utf8(leaf)
}

/// A copy of the bytes.
pub fn copy_bytes(v: &Vec<u8>) -> (r: Vec<u8>)
    ensures
        r@ == v@,
{
    let r = v.clone();
    assert(r@ =~= v@);
    r
}

/// The bytes of `base` followed by those of `tail`.
pub fn with_tail(base: &Vec<u8>, tail: &str) -> (r: Vec<u8>)
    ensures
        r@ == base@ + vstd::utf8::encode_utf8(tail@),
{
    let mut out = copy_bytes(base);
    let bytes = tail.as_bytes();
    for i in 0..bytes.len()
        invariant
            bytes@ == vstd::utf8::encode_utf8(tail@),
            out@ == base@ + bytes@.take(i as int),
    {
        out.push(bytes[i]);
        assert(base@ + bytes@.take(i + 1) =~= (base@ + bytes@.take(i as int)).push(
            bytes@[i as int],
        ));
    }
    assert(bytes@.take(bytes@.len() as int) =~= bytes@);
    out
}

/// The path of the entry `leaf` of directory `base`.
pub fn entry(base: &Vec<u8>, leaf: &str) -> (r: Vec<u8>)
    ensures
        r@ == entry_of(base@, leaf@),
{
    let mut dir = copy_bytes(base);
    let len: usize = dir.len();
    if len > 0 && dir[len - 1] != SEPARATOR {
        dir.push(SEPARATOR);
    }
    with_tail(&dir, leaf)
}

// -------------------------------------------------------------------- laws --

/// An entry of a directory is the directory, one slash and its own name: the
/// slash that the directory ends with already, or one of its own; an entry of
/// nothing is its own name.
pub proof fn law_an_entry_is_behind_one_slash(base: Seq<u8>, leaf: Seq<char>)
    ensures
        ({
            let r = entry_of(base, leaf);
            let name = vstd::utf8::encode_utf8(leaf);
            &&& base.len() == 0 ==> r == name
            &&& base.len() > 0 && base.last() == 0x2f ==> r == base + name
            &&& base.len() > 0 && base.last() != 0x2f ==> r == base + seq![0x2f_u8] + name
        }),
{
    assert(base.len() == 0 ==> base + vstd::utf8::encode_utf8(leaf) =~= vstd::utf8::encode_utf8(
        leaf,
    ));
    assert(base.push(0x2f) =~= base + seq![0x2f_u8]);
}

} // verus!
