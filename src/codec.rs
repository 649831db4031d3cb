use vstd::prelude::*;

verus! {

/// The four bytes of `v`, most significant first.
pub open spec fn be_bytes(v: u32) -> Seq<u8> {
    seq![
        (v / 0x100_0000) as u8,
        (v / 0x1_0000 % 0x100) as u8,
        (v / 0x100 % 0x100) as u8,
        (v % 0x100) as u8,
    ]
}

/// The number that the first four bytes of `b` spell, most significant first.
pub open spec fn be_value(b: Seq<u8>) -> int {
    b[0] * 0x100_0000 + b[1] * 0x1_0000 + b[2] * 0x100 + b[3]
}

/// Decoding the big-endian encoding of any `u32` gives the value back.
pub proof fn lemma_be_round_trip(v: u32)
    ensures
        be_value(be_bytes(v)) == v,
        be_bytes(v).len() == 4,
{
    let b = be_bytes(v);
    assert(b[0] == v / 0x100_0000);
    assert(b[1] == v / 0x1_0000 % 0x100);
    assert(b[2] == v / 0x100 % 0x100);
    assert(b[3] == v % 0x100);
    assert(v == (v / 0x100_0000) * 0x100_0000 + (v / 0x1_0000 % 0x100) * 0x1_0000 + (v / 0x100
        % 0x100) * 0x100 + v % 0x100) by (nonlinear_arith);
}

/// The big-endian encoding of `v`.
pub fn encode_u32(v: u32) -> (r: [u8; 4])
    ensures
        r@ == be_bytes(v),
{
    let r: [u8; 4] = [
        (v / 0x100_0000) as u8,
        (v / 0x1_0000 % 0x100) as u8,
        (v / 0x100 % 0x100) as u8,
        (v % 0x100) as u8,
    ];
    assert(r@ =~= be_bytes(v));
    r
}

/// The `u32` spelled by four bytes, most significant first.
pub fn decode_u32(b0: u8, b1: u8, b2: u8, b3: u8) -> (r: u32)
    ensures
        r == be_value(seq![b0, b1, b2, b3]),
{
    (b0 as u32) * 0x100_0000 + (b1 as u32) * 0x1_0000 + (b2 as u32) * 0x100 + (b3 as u32)
}

} // verus!
