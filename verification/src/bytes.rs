//! Fixed-size byte arrays as mathematical values.

use vstd::prelude::*;

verus! {

/// The array that holds exactly the bytes of `s`, where `s` has `N` of them.
pub open spec fn array_of<const N: usize>(s: Seq<u8>) -> [u8; N] {
    choose|a: [u8; N]| #[trigger] a@ == s
}

/// An array whose first `n` bytes are those of `s`.
spec fn array_upto<const N: usize>(s: Seq<u8>, n: nat) -> [u8; N]
    decreases n,
{
    if n == 0 {
        arbitrary()
    } else {
        let i = (n - 1) as nat;
        vstd::array::spec_array_update(array_upto::<N>(s, i), i as int, s[i as int])
    }
}

proof fn lemma_array_upto<const N: usize>(s: Seq<u8>, n: nat)
    requires
        n <= s.len(),
        s.len() == N,
    ensures
        array_upto::<N>(s, n)@.take(n as int) =~= s.take(n as int),
    decreases n,
{
    if n > 0 {
        let i = (n - 1) as nat;
        lemma_array_upto::<N>(s, i);
        let before = array_upto::<N>(s, i);
        let after = array_upto::<N>(s, n);
        assert(after@ == before@.update(i as int, s[i as int]));
        assert forall|j: int| 0 <= j < n implies after@[j] == s[j] by {
            if j < i {
                assert(before@.take(i as int)[j] == s.take(i as int)[j]);
            }
        }
    }
}

/// Every byte sequence of the right length is the content of an array.
pub proof fn lemma_array_of<const N: usize>(s: Seq<u8>)
    requires
        s.len() == N,
    ensures
        array_of::<N>(s)@ == s,
{
    lemma_array_upto::<N>(s, N as nat);
    let a = array_upto::<N>(s, N as nat);
    assert(a@ =~= s) by {
        assert(a@.take(N as int) =~= a@);
        assert(s.take(N as int) =~= s);
    }
}

/// Two arrays with the same bytes are the same array.
pub proof fn lemma_same_bytes<const N: usize>(a: [u8; N], b: [u8; N])
    requires
        a@ == b@,
    ensures
        a == b,
{
    assert forall|i: int| 0 <= i < N implies a[i] == b[i] by {
        assert(a@[i] == b@[i]);
    }
    assert(a =~= b);
}

} // verus!
