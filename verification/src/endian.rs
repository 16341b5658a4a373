use vstd::prelude::*;

verus! {

// ---------------------------------------------------------------------------
// Little-endian numbers in a run of bytes
// ---------------------------------------------------------------------------

/// The two bytes of a number below 65536, low byte first.
#[verifier::opaque]
pub open spec fn u16_bytes(v: int) -> Seq<u8> {
    seq![(v % 256) as u8, ((v / 256) % 256) as u8]
}

/// The four bytes of a number below 2 to the 32, low byte first.
#[verifier::opaque]
pub open spec fn u32_bytes(v: int) -> Seq<u8> {
    seq![
        (v % 256) as u8,
        ((v / 256) % 256) as u8,
        ((v / 65536) % 256) as u8,
        ((v / 16777216) % 256) as u8,
    ]
}

/// The eight bytes of a number below 2 to the 64, low byte first.
pub open spec fn u64_bytes(v: int) -> Seq<u8> {
    u32_bytes(v % 0x1_0000_0000) + u32_bytes(v / 0x1_0000_0000)
}

pub open spec fn u16_at(b: Seq<u8>, pos: int) -> int {
    b[pos] + 256 * b[pos + 1]
}

pub open spec fn u32_at(b: Seq<u8>, pos: int) -> int {
    b[pos] + 256 * b[pos + 1] + 65536 * b[pos + 2] + 16777216 * b[pos + 3]
}

pub open spec fn u64_at(b: Seq<u8>, pos: int) -> int {
    u32_at(b, pos) + 0x1_0000_0000 * u32_at(b, pos + 4)
}

/// The encodings of numbers have their fixed lengths.
pub broadcast proof fn lemma_u16_bytes_len(v: int)
    ensures
        #[trigger] u16_bytes(v).len() == 2,
{
    reveal(u16_bytes);
}

pub broadcast proof fn lemma_u32_bytes_len(v: int)
    ensures
        #[trigger] u32_bytes(v).len() == 4,
{
    reveal(u32_bytes);
}

pub broadcast group group_byte_lengths {
    lemma_u16_bytes_len,
    lemma_u32_bytes_len,
}

/// The bytes `enc` stand in `b` at `pos`.
pub open spec fn holds(b: Seq<u8>, pos: int, enc: Seq<u8>) -> bool {
    0 <= pos && pos + enc.len() <= b.len() && b.subrange(pos, pos + enc.len()) == enc
}

pub proof fn lemma_holds_split(b: Seq<u8>, pos: int, x: Seq<u8>, y: Seq<u8>)
    requires
        holds(b, pos, x + y),
    ensures
        holds(b, pos, x),
        holds(b, pos + x.len(), y),
{
    let whole = b.subrange(pos, pos + (x + y).len());
    assert(b.subrange(pos, pos + x.len()) =~= x) by {
        assert forall|i: int| 0 <= i < x.len() implies b.subrange(pos, pos + x.len())[i]
            == x[i] by {
            assert(whole[i] == (x + y)[i]);
        }
    }
    assert(b.subrange(pos + x.len(), pos + x.len() + y.len()) =~= y) by {
        assert forall|i: int| 0 <= i < y.len() implies b.subrange(
            pos + x.len(),
            pos + x.len() + y.len(),
        )[i] == y[i] by {
            assert(whole[x.len() + i] == (x + y)[x.len() + i]);
        }
    }
}

pub proof fn lemma_holds_index(b: Seq<u8>, pos: int, enc: Seq<u8>, i: int)
    requires
        holds(b, pos, enc),
        0 <= i < enc.len(),
    ensures
        b[pos + i] == enc[i],
{
    assert(b.subrange(pos, pos + enc.len())[i] == enc[i]);
}

pub proof fn lemma_u16(b: Seq<u8>, pos: int, v: int)
    requires
        holds(b, pos, u16_bytes(v)),
        0 <= v < 65536,
    ensures
        u16_at(b, pos) == v,
{
    reveal(u16_bytes);
    lemma_holds_index(b, pos, u16_bytes(v), 0);
    lemma_holds_index(b, pos, u16_bytes(v), 1);
}

pub proof fn lemma_u32(b: Seq<u8>, pos: int, v: int)
    requires
        holds(b, pos, u32_bytes(v)),
        0 <= v < 0x1_0000_0000,
    ensures
        u32_at(b, pos) == v,
{
    reveal(u32_bytes);
    lemma_holds_index(b, pos, u32_bytes(v), 0);
    lemma_holds_index(b, pos, u32_bytes(v), 1);
    lemma_holds_index(b, pos, u32_bytes(v), 2);
    lemma_holds_index(b, pos, u32_bytes(v), 3);
}

pub proof fn lemma_u64(b: Seq<u8>, pos: int, v: int)
    requires
        holds(b, pos, u64_bytes(v)),
        0 <= v < 0x1_0000_0000_0000_0000,
    ensures
        u64_at(b, pos) == v,
{
    let low = v % 0x1_0000_0000;
    let high = v / 0x1_0000_0000;
    lemma_u32_bytes_len(low);
    lemma_holds_split(b, pos, u32_bytes(low), u32_bytes(high));
    lemma_u32(b, pos, low);
    lemma_u32(b, pos + 4, high);
}

} // verus!
