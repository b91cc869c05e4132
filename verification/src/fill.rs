//! A fixed-capacity byte-array fill helper, independent of the two codecs.

use vstd::prelude::*;

verus! {

/// How many input bytes the output can take untruncated: one less than the
/// capacity when a trailing terminator byte must be kept free.
pub open spec fn fill_capacity(n: nat, ensure_null_termination: bool) -> int {
    if ensure_null_termination {
        n - 1
    } else {
        n as int
    }
}

/// Whether a fill drops information: the input overruns the copyable
/// capacity, or fills it exactly while holding no zero byte anywhere.
pub open spec fn fill_truncated(bytes: Seq<u8>, cap: int) -> bool {
    bytes.len() > cap || (bytes.len() == cap && !bytes.contains(0u8))
}

/// Copies `string` into a zero-filled `N`-byte array, dropping whatever does
/// not fit; with `ensure_null_termination` the last byte is always left zero.
/// Also reports whether the copy truncated, in the sense of
/// [`fill_truncated`].
pub fn fill_char_array<const N: usize>(string: &[u8], ensure_null_termination: bool) -> (r: (
    [u8; N],
    bool,
))
    requires
        ensure_null_termination ==> N >= 1,
    ensures
        ({
            let cap = fill_capacity(N as nat, ensure_null_termination);
            let m = if string@.len() <= cap {
                string@.len() as int
            } else {
                cap
            };
            &&& forall|k: int| 0 <= k < m ==> r.0@[k] == string@[k]
            &&& forall|k: int| m <= k < N ==> r.0@[k] == 0
            &&& r.1 == fill_truncated(string@, cap)
        }),
{
    let mut output: [u8; N] = [0u8; N];
    let max_untruncated_len: usize = if ensure_null_termination {
        N - 1
    } else {
        N
    };
    let mut has_null = false;
    let mut i: usize = 0;
    while i < string.len()
        invariant
            i <= string@.len(),
            has_null == exists|j: int| 0 <= j < i && string@[j] == 0,
        decreases string@.len() - i,
    {
        if string[i] == 0 {
            has_null = true;
        }
        i = i + 1;
    }
    proof {
        assert(has_null == string@.contains(0u8));
    }
    let is_truncated = string.len() > max_untruncated_len || (string.len() == max_untruncated_len
        && !has_null);
    let copy_len = if string.len() < max_untruncated_len {
        string.len()
    } else {
        max_untruncated_len
    };
    let mut j: usize = 0;
    while j < copy_len
        invariant
            j <= copy_len,
            copy_len <= string@.len(),
            copy_len <= N,
            output@.len() == N,
            forall|k: int| 0 <= k < j ==> output@[k] == string@[k],
            forall|k: int| j <= k < N ==> output@[k] == 0,
        decreases copy_len - j,
    {
        output[j] = string[j];
        j = j + 1;
    }
    (output, is_truncated)
}

} // verus!
