//! The order in which the contract's storage lists a holder's projects: by
//! the bytes a contract address is stored under, compared lexicographically.
use vstd::prelude::*;
use crate::types::ContractAddress;

verus! {

/// The eight bytes of `x`, least significant first.
pub open spec fn le_bytes(x: u64) -> Seq<u8> {
    Seq::new(8, |i: int| ((x >> ((8 * i) as u64)) & 0xff) as u8)
}

/// The bytes a contract address is stored under: its index, then its
/// subindex, each least significant byte first.
pub open spec fn address_bytes(c: ContractAddress) -> Seq<u8> {
    le_bytes(c.index) + le_bytes(c.subindex)
}

/// Lexicographic order on byte strings: the first differing byte decides,
/// and a proper prefix comes first.
pub open spec fn bytes_lt(a: Seq<u8>, b: Seq<u8>) -> bool
    decreases a.len(),
{
    if a.len() == 0 {
        b.len() > 0
    } else if b.len() == 0 {
        false
    } else if a[0] != b[0] {
        a[0] < b[0]
    } else {
        bytes_lt(a.drop_first(), b.drop_first())
    }
}

/// Storage lists the project `a` before the project `b`.
pub open spec fn stored_before(a: ContractAddress, b: ContractAddress) -> bool {
    bytes_lt(address_bytes(a), address_bytes(b))
}

/// No byte string comes before itself.
pub proof fn lemma_bytes_lt_irreflexive(a: Seq<u8>)
    ensures
        !bytes_lt(a, a),
    decreases a.len(),
{
    if a.len() > 0 {
        lemma_bytes_lt_irreflexive(a.drop_first());
    }
}

/// Lexicographic order is transitive.
pub proof fn lemma_bytes_lt_transitive(a: Seq<u8>, b: Seq<u8>, c: Seq<u8>)
    requires
        bytes_lt(a, b),
        bytes_lt(b, c),
    ensures
        bytes_lt(a, c),
    decreases a.len(),
{
    if a.len() > 0 && b.len() > 0 && c.len() > 0 {
        if a[0] == b[0] && b[0] == c[0] {
            lemma_bytes_lt_transitive(a.drop_first(), b.drop_first(), c.drop_first());
        }
    }
}

/// Of two different byte strings of one length, one comes first.
pub proof fn lemma_bytes_lt_total(a: Seq<u8>, b: Seq<u8>)
    requires
        a.len() == b.len(),
        a != b,
    ensures
        bytes_lt(a, b) || bytes_lt(b, a),
    decreases a.len(),
{
    if a.len() == 0 {
        assert(a =~= b);
    } else if a[0] == b[0] {
        if a.drop_first() == b.drop_first() {
            assert(a =~= b) by {
                assert forall|i: int| 0 <= i < a.len() implies a[i] == b[i] by {
                    if i > 0 {
                        assert(a[i] == a.drop_first()[i - 1]);
                        assert(b[i] == b.drop_first()[i - 1]);
                    }
                }
            }
        }
        lemma_bytes_lt_total(a.drop_first(), b.drop_first());
    }
}

/// Different contract addresses are stored under different bytes.
pub proof fn lemma_address_bytes_injective(a: ContractAddress, b: ContractAddress)
    requires
        address_bytes(a) == address_bytes(b),
    ensures
        a == b,
{
    let x = a.index;
    let y = b.index;
    let u = a.subindex;
    let w = b.subindex;
    assert forall|i: int| 0 <= i < 8 implies le_bytes(x)[i] == le_bytes(y)[i] && le_bytes(u)[i]
        == le_bytes(w)[i] by {
        assert(le_bytes(x).len() == 8 && le_bytes(y).len() == 8);
        assert(address_bytes(a)[i] == address_bytes(b)[i]);
        assert(address_bytes(a)[i + 8] == address_bytes(b)[i + 8]);
        assert(address_bytes(a)[i] == le_bytes(x)[i]);
        assert(address_bytes(b)[i] == le_bytes(y)[i]);
        assert(address_bytes(a)[i + 8] == le_bytes(u)[i]);
        assert(address_bytes(b)[i + 8] == le_bytes(w)[i]);
    }
    lemma_le_bytes_injective(x, y);
    lemma_le_bytes_injective(u, w);
}

/// A `u64` is determined by its eight bytes.
proof fn lemma_le_bytes_injective(x: u64, y: u64)
    requires
        forall|i: int| 0 <= i < 8 ==> le_bytes(x)[i] == le_bytes(y)[i],
    ensures
        x == y,
{
    assert(le_bytes(x)[0] == le_bytes(y)[0]);
    assert(le_bytes(x)[1] == le_bytes(y)[1]);
    assert(le_bytes(x)[2] == le_bytes(y)[2]);
    assert(le_bytes(x)[3] == le_bytes(y)[3]);
    assert(le_bytes(x)[4] == le_bytes(y)[4]);
    assert(le_bytes(x)[5] == le_bytes(y)[5]);
    assert(le_bytes(x)[6] == le_bytes(y)[6]);
    assert(le_bytes(x)[7] == le_bytes(y)[7]);
    assert(x == y) by (bit_vector)
        requires
            ((x >> 0u64) & 0xff) as u8 == ((y >> 0u64) & 0xff) as u8,
            ((x >> 8u64) & 0xff) as u8 == ((y >> 8u64) & 0xff) as u8,
            ((x >> 16u64) & 0xff) as u8 == ((y >> 16u64) & 0xff) as u8,
            ((x >> 24u64) & 0xff) as u8 == ((y >> 24u64) & 0xff) as u8,
            ((x >> 32u64) & 0xff) as u8 == ((y >> 32u64) & 0xff) as u8,
            ((x >> 40u64) & 0xff) as u8 == ((y >> 40u64) & 0xff) as u8,
            ((x >> 48u64) & 0xff) as u8 == ((y >> 48u64) & 0xff) as u8,
            ((x >> 56u64) & 0xff) as u8 == ((y >> 56u64) & 0xff) as u8,
    ;
}

/// Of two different contract addresses, storage lists exactly one first.
pub proof fn lemma_stored_before_total(a: ContractAddress, b: ContractAddress)
    requires
        a != b,
    ensures
        stored_before(a, b) || stored_before(b, a),
        !(stored_before(a, b) && stored_before(b, a)),
{
    if address_bytes(a) == address_bytes(b) {
        lemma_address_bytes_injective(a, b);
    }
    lemma_bytes_lt_total(address_bytes(a), address_bytes(b));
    if stored_before(a, b) && stored_before(b, a) {
        lemma_bytes_lt_transitive(address_bytes(a), address_bytes(b), address_bytes(a));
        lemma_bytes_lt_irreflexive(address_bytes(a));
    }
}

/// Byte `j` of the bytes that `c` is stored under.
fn address_byte(c: &ContractAddress, j: usize) -> (r: u8)
    requires
        j < 16,
    ensures
        r == address_bytes(*c)[j as int],
{
    let x = if j < 8 {
        c.index
    } else {
        c.subindex
    };
    let k: u64 = (j % 8) as u64;
    let r = ((x >> (8 * k)) & 0xff) as u8;
    assert(address_bytes(*c)[j as int] == if j < 8 {
        le_bytes(c.index)[j as int]
    } else {
        le_bytes(c.subindex)[j - 8]
    });
    r
}

/// Whether storage lists the project `a` before the project `b`.
pub fn is_stored_before(a: &ContractAddress, b: &ContractAddress) -> (r: bool)
    ensures
        r == stored_before(*a, *b),
{
    let ghost sa = address_bytes(*a);
    let ghost sb = address_bytes(*b);
    assert(sa.skip(0) =~= sa);
    assert(sb.skip(0) =~= sb);
    let mut j: usize = 0;
    while j < 16
        invariant
            j <= 16,
            sa == address_bytes(*a),
            sb == address_bytes(*b),
            sa.len() == 16,
            sb.len() == 16,
            bytes_lt(sa, sb) == bytes_lt(sa.skip(j as int), sb.skip(j as int)),
        decreases 16 - j,
    {
        let x = address_byte(a, j);
        let y = address_byte(b, j);
        assert(sa.skip(j as int)[0] == x);
        assert(sb.skip(j as int)[0] == y);
        if x != y {
            return x < y;
        }
        assert(sa.skip(j as int).drop_first() =~= sa.skip(j as int + 1));
        assert(sb.skip(j as int).drop_first() =~= sb.skip(j as int + 1));
        j = j + 1;
    }
    assert(sa.skip(16).len() == 0);
    assert(sb.skip(16).len() == 0);
    false
}

} // verus!
