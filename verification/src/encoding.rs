use vstd::prelude::*;

verus! {

/// The `n` low bytes of `x`, lowest first.
pub open spec fn le_bytes(x: nat, n: nat) -> Seq<u8>
    decreases n,
{
    if n == 0 {
        Seq::empty()
    } else {
        seq![(x % 256) as u8] + le_bytes(x / 256, (n - 1) as nat)
    }
}

/// Whether `x` can be written in `n` bytes.
pub open spec fn fits(x: nat, n: nat) -> bool
    decreases n,
{
    if n == 0 {
        x == 0
    } else {
        fits(x / 256, (n - 1) as nat)
    }
}

/// An optional 32-byte key, as plain values.
pub open spec fn option_key_view(key: Option<[u8; 32]>) -> Option<Seq<u8>> {
    match key {
        None => None,
        Some(k) => Some(k@),
    }
}

/// The byte that stands for a flag.
pub open spec fn bool_byte(b: bool) -> Seq<u8> {
    seq![if b { 1u8 } else { 0u8 }]
}

/// An optional 32-byte key: a zero byte for none, else a one byte and the key.
pub open spec fn option_key_bytes(key: Option<[u8; 32]>) -> Seq<u8> {
    match key {
        None => seq![0u8],
        Some(k) => seq![1u8] + k@,
    }
}

/// `le_bytes` gives as many bytes as it is asked for.
pub proof fn lemma_le_bytes_len(x: nat, n: nat)
    ensures
        le_bytes(x, n).len() == n,
    decreases n,
{
    if n > 0 {
        lemma_le_bytes_len(x / 256, (n - 1) as nat);
    }
}

/// Two byte strings that start with parts of one length are the same only
/// if those parts are the same and what follows them is the same.
pub proof fn lemma_concat_split(a1: Seq<u8>, b1: Seq<u8>, a2: Seq<u8>, b2: Seq<u8>)
    requires
        a1.len() == a2.len(),
        a1 + b1 == a2 + b2,
    ensures
        a1 == a2,
        b1 == b2,
{
    let n = a1.len() as int;
    assert(a1 =~= (a1 + b1).subrange(0, n));
    assert(a2 =~= (a2 + b2).subrange(0, n));
    assert(b1 =~= (a1 + b1).subrange(n, (a1 + b1).len() as int));
    assert(b2 =~= (a2 + b2).subrange(n, (a2 + b2).len() as int));
}

/// Numbers that can be written in `n` bytes and have the same `n` low bytes
/// are the same.
pub proof fn lemma_le_bytes_injective(x: nat, y: nat, n: nat)
    requires
        fits(x, n),
        fits(y, n),
        le_bytes(x, n) == le_bytes(y, n),
    ensures
        x == y,
    decreases n,
{
    if n > 0 {
        let m = (n - 1) as nat;
        let bx = le_bytes(x, n);
        let by = le_bytes(y, n);
        assert(bx[0] == (x % 256) as u8);
        assert(by[0] == (y % 256) as u8);
        assert(bx.skip(1) =~= le_bytes(x / 256, m));
        assert(by.skip(1) =~= le_bytes(y / 256, m));
        lemma_le_bytes_injective(x / 256, y / 256, m);
    }
}

/// Byte strings that start with the `n` low bytes of two numbers that can be
/// written in `n` bytes are the same only if the numbers are the same and
/// what follows the bytes is the same.
pub proof fn lemma_le_bytes_split(x: nat, r1: Seq<u8>, y: nat, r2: Seq<u8>, n: nat)
    requires
        fits(x, n),
        fits(y, n),
        le_bytes(x, n) + r1 == le_bytes(y, n) + r2,
    ensures
        x == y,
        r1 == r2,
{
    lemma_le_bytes_len(x, n);
    lemma_le_bytes_len(y, n);
    lemma_concat_split(le_bytes(x, n), r1, le_bytes(y, n), r2);
    lemma_le_bytes_injective(x, y, n);
}

proof fn lemma_fits(a: u8, b: u16, c: u32, d: u64)
    ensures
        fits(a as nat, 1),
        fits(b as nat, 2),
        fits(c as nat, 4),
        fits(d as nat, 8),
{
    reveal_with_fuel(fits, 10);
}

/// `lemma_le_bytes_split` for numbers of 8 bits.
pub proof fn lemma_u8_split(x: u8, r1: Seq<u8>, y: u8, r2: Seq<u8>)
    requires
        le_bytes(x as nat, 1) + r1 == le_bytes(y as nat, 1) + r2,
    ensures
        x == y,
        r1 == r2,
{
    lemma_fits(x, 0, 0, 0);
    lemma_fits(y, 0, 0, 0);
    lemma_le_bytes_split(x as nat, r1, y as nat, r2, 1);
}

/// `lemma_le_bytes_split` for numbers of 16 bits.
pub proof fn lemma_u16_split(x: u16, r1: Seq<u8>, y: u16, r2: Seq<u8>)
    requires
        le_bytes(x as nat, 2) + r1 == le_bytes(y as nat, 2) + r2,
    ensures
        x == y,
        r1 == r2,
{
    lemma_fits(0, x, 0, 0);
    lemma_fits(0, y, 0, 0);
    lemma_le_bytes_split(x as nat, r1, y as nat, r2, 2);
}

/// `lemma_le_bytes_split` for numbers of 32 bits.
pub proof fn lemma_u32_split(x: u32, r1: Seq<u8>, y: u32, r2: Seq<u8>)
    requires
        le_bytes(x as nat, 4) + r1 == le_bytes(y as nat, 4) + r2,
    ensures
        x == y,
        r1 == r2,
{
    lemma_fits(0, 0, x, 0);
    lemma_fits(0, 0, y, 0);
    lemma_le_bytes_split(x as nat, r1, y as nat, r2, 4);
}

/// `lemma_le_bytes_split` for numbers of 64 bits.
pub proof fn lemma_u64_split(x: u64, r1: Seq<u8>, y: u64, r2: Seq<u8>)
    requires
        le_bytes(x as nat, 8) + r1 == le_bytes(y as nat, 8) + r2,
    ensures
        x == y,
        r1 == r2,
{
    lemma_fits(0, 0, 0, x);
    lemma_fits(0, 0, 0, y);
    lemma_le_bytes_split(x as nat, r1, y as nat, r2, 8);
}

/// Byte strings that start with the bytes of two flags are the same only if
/// the flags are the same and what follows them is the same.
pub proof fn lemma_bool_split(b1: bool, r1: Seq<u8>, b2: bool, r2: Seq<u8>)
    requires
        bool_byte(b1) + r1 == bool_byte(b2) + r2,
    ensures
        b1 == b2,
        r1 == r2,
{
    lemma_concat_split(bool_byte(b1), r1, bool_byte(b2), r2);
    assert(bool_byte(b1)[0] == bool_byte(b2)[0]);
}

/// Byte strings that start with two optional keys are the same only if the
/// keys are the same and what follows them is the same.
pub proof fn lemma_option_key_split(
    k1: Option<[u8; 32]>,
    r1: Seq<u8>,
    k2: Option<[u8; 32]>,
    r2: Seq<u8>,
)
    requires
        option_key_bytes(k1) + r1 == option_key_bytes(k2) + r2,
    ensures
        option_key_view(k1) == option_key_view(k2),
        r1 == r2,
{
    let e1 = option_key_bytes(k1);
    let e2 = option_key_bytes(k2);
    assert((e1 + r1)[0] == e1[0]);
    assert((e2 + r2)[0] == e2[0]);
    assert(e1[0] == e2[0]);
    assert(e1.len() == e2.len());
    lemma_concat_split(e1, r1, e2, r2);
    if k1.is_some() {
        assert(k1.unwrap()@ =~= e1.skip(1));
        assert(k2.unwrap()@ =~= e2.skip(1));
    }
}

/// Byte strings that start with two 32-byte keys are the same only if the
/// keys are the same and what follows them is the same.
pub proof fn lemma_key_split(k1: [u8; 32], r1: Seq<u8>, k2: [u8; 32], r2: Seq<u8>)
    requires
        k1@ + r1 == k2@ + r2,
    ensures
        k1@ == k2@,
        r1 == r2,
{
    lemma_concat_split(k1@, r1, k2@, r2);
}

/// Appends the `n` low bytes of `x` to `out`, lowest first.
pub fn push_le(out: &mut Vec<u8>, x: u64, n: usize)
    ensures
        final(out)@ == old(out)@ + le_bytes(x as nat, n as nat),
{
    let mut rest: u64 = x;
    let mut i: usize = 0;
    while i < n
        invariant
            i <= n,
            out@ + le_bytes(rest as nat, (n - i) as nat) == old(out)@ + le_bytes(
                x as nat,
                n as nat,
            ),
        decreases n - i,
    {
        let ghost before = out@;
        out.push((rest % 256) as u8);
        proof {
            let tail = le_bytes((rest / 256) as nat, (n - i - 1) as nat);
            assert(before + le_bytes(rest as nat, (n - i) as nat) =~= out@ + tail);
        }
        rest = rest / 256;
        i += 1;
    }
    assert(out@ + le_bytes(rest as nat, 0) =~= out@);
}

/// Appends `bytes` to `out`.
pub fn push_all(out: &mut Vec<u8>, bytes: &[u8])
    ensures
        final(out)@ == old(out)@ + bytes@,
{
    let n: usize = bytes.len();
    let mut i: usize = 0;
    while i < n
        invariant
            i <= n,
            n == bytes@.len(),
            out@ == old(out)@ + bytes@.take(i as int),
        decreases n - i,
    {
        out.push(bytes[i]);
        assert(out@ =~= old(out)@ + bytes@.take(i + 1));
        i += 1;
    }
    assert(bytes@.take(n as int) =~= bytes@);
}

/// Appends the byte that stands for a flag to `out`.
pub fn push_bool(out: &mut Vec<u8>, b: bool)
    ensures
        final(out)@ == old(out)@ + bool_byte(b),
{
    if b {
        out.push(1u8);
    } else {
        out.push(0u8);
    }
    assert(out@ =~= old(out)@ + bool_byte(b));
}

/// Appends an optional 32-byte key to `out`.
pub fn push_option_key(out: &mut Vec<u8>, key: &Option<[u8; 32]>)
    ensures
        final(out)@ == old(out)@ + option_key_bytes(*key),
{
    match key {
        None => {
            out.push(0u8);
            assert(out@ =~= old(out)@ + option_key_bytes(*key));
        },
        Some(k) => {
            out.push(1u8);
            push_all(out, k.as_slice());
            assert(out@ =~= old(out)@ + option_key_bytes(*key));
        },
    }
}

/// Whether two byte strings are the same.
pub fn bytes_eq(a: &[u8], b: &[u8]) -> (r: bool)
    ensures
        r == (a@ == b@),
{
    if a.len() != b.len() {
        return false;
    }
    let n: usize = a.len();
    let mut i: usize = 0;
    while i < n
        invariant
            i <= n,
            n == a@.len(),
            n == b@.len(),
            forall|j: int| 0 <= j < i ==> a@[j] == b@[j],
        decreases n - i,
    {
        if a[i] != b[i] {
            return false;
        }
        i += 1;
    }
    assert(a@ =~= b@);
    true
}

/// A copy of a byte string.
pub fn copy_bytes(bytes: &[u8]) -> (r: Vec<u8>)
    ensures
        r@ == bytes@,
{
    let mut out: Vec<u8> = Vec::new();
    let n: usize = bytes.len();
    let mut i: usize = 0;
    while i < n
        invariant
            i <= n,
            n == bytes@.len(),
            out@ == bytes@.take(i as int),
        decreases n - i,
    {
        out.push(bytes[i]);
        assert(out@ =~= bytes@.take(i + 1));
        i += 1;
    }
    assert(bytes@.take(n as int) =~= bytes@);
    out
}

} // verus!
