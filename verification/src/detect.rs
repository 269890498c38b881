//! Change detection: whether a source file's contents differ from its
//! destination counterpart.  The decision is a size comparison followed by
//! a chunked byte-for-byte comparison; a file that could not be read at
//! all is treated leniently (see `differs_lenient`).

use vstd::prelude::*;

verus! {

/// Size of the blocks in which the chunked comparison walks the two byte
/// strings.
pub const CHUNK_SIZE: usize = 10000;

/// Reports whether the two byte strings differ.  A length mismatch
/// short-circuits; equal-length contents are compared in fixed-size chunks.
pub fn differs(source: &Vec<u8>, destination: &Vec<u8>) -> (r: bool)
    ensures
        r == (source@ != destination@),
{
    if source.len() != destination.len() {
        proof {
            assert(source@ != destination@);
        }
        return true;
    }
    let mut pos: usize = 0;
    while pos < source.len()
        invariant
            source@.len() == destination@.len(),
            pos <= source@.len(),
            source@.subrange(0, pos as int) == destination@.subrange(0, pos as int),
        decreases source@.len() - pos,
    {
        let end: usize = if source.len() - pos < CHUNK_SIZE {
            source.len()
        } else {
            pos + CHUNK_SIZE
        };
        let mut k: usize = pos;
        while k < end
            invariant
                source@.len() == destination@.len(),
                pos <= k <= end <= source@.len(),
                source@.subrange(0, k as int) == destination@.subrange(0, k as int),
            decreases end - k,
        {
            if source[k] != destination[k] {
                proof {
                    assert(source@[k as int] != destination@[k as int]);
                }
                return true;
            }
            proof {
                assert(source@.subrange(0, k + 1) =~= destination@.subrange(0, k + 1));
            }
            k += 1;
        }
        pos = end;
    }
    proof {
        assert(source@.subrange(0, source@.len() as int) =~= source@);
        assert(destination@.subrange(0, destination@.len() as int) =~= destination@);
    }
    false
}

/// The lenient comparison policy of the change detector: a file that could
/// not be opened is reported "identical", so that a transient read failure
/// on the destination does not force a copy.
pub fn differs_lenient(source: &Option<Vec<u8>>, destination: &Option<Vec<u8>>) -> (r: bool)
    ensures
        r == match *source {
            Some(s) => match *destination {
                Some(d) => s@ != d@,
                None => false,
            },
            None => false,
        },
{
    match (source, destination) {
        (Some(s), Some(d)) => differs(s, d),
        _ => false,
    }
}

} // verus!
