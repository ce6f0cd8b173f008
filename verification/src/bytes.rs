use vstd::prelude::*;

verus! {

/// The little-endian `u16` held by two bytes.
pub open spec fn le_u16(b0: u8, b1: u8) -> u16 {
    (b0 + 256 * b1) as u16
}

/// The little-endian `u32` held by four bytes.
pub open spec fn le_u32(b0: u8, b1: u8, b2: u8, b3: u8) -> u32 {
    (b0 + 256 * b1 + 65536 * b2 + 16777216 * b3) as u32
}

/// The `u16` stored at `offset` of `s`.
pub open spec fn u16_at(s: Seq<u8>, offset: int) -> u16 {
    le_u16(s[offset], s[offset + 1])
}

/// The `u32` stored at `offset` of `s`.
pub open spec fn u32_at(s: Seq<u8>, offset: int) -> u32 {
    le_u32(s[offset], s[offset + 1], s[offset + 2], s[offset + 3])
}

/// Little-endian encoding of a `u16`.
pub open spec fn u16_bytes(v: u16) -> Seq<u8> {
    seq![(v % 256) as u8, (v / 256) as u8]
}

/// Little-endian encoding of a `u32`.
pub open spec fn u32_bytes(v: u32) -> Seq<u8> {
    seq![
        (v % 256) as u8,
        ((v / 256) % 256) as u8,
        ((v / 65536) % 256) as u8,
        (v / 16777216) as u8,
    ]
}

/// `n` zero bytes.
pub open spec fn zeros(n: nat) -> Seq<u8> {
    Seq::new(n, |i: int| 0u8)
}

/// All bytes of `s` in `[start, end)` are zero.
pub open spec fn all_zero(s: Seq<u8>, start: int, end: int) -> bool {
    forall|i: int| start <= i < end ==> s[i] == 0
}

pub proof fn lemma_u16_round_trip(v: u16)
    ensures
        u16_at(u16_bytes(v), 0) == v,
        u16_bytes(v).len() == 2,
{
    assert(v % 256 + 256 * (v / 256) == v) by (bit_vector);
}

pub proof fn lemma_u32_round_trip(v: u32)
    ensures
        u32_at(u32_bytes(v), 0) == v,
        u32_bytes(v).len() == 4,
{
    assert(v % 256 + 256 * ((v / 256) % 256) + 65536 * ((v / 65536) % 256) + 16777216 * (v
        / 16777216) == v) by (bit_vector);
    assert(v / 16777216 < 256) by (bit_vector);
}

pub proof fn lemma_u16_bytes_of_read(s: Seq<u8>, offset: int)
    requires
        0 <= offset,
        offset + 2 <= s.len(),
    ensures
        u16_bytes(u16_at(s, offset)) == s.subrange(offset, offset + 2),
{
    let b0 = s[offset] as u32;
    let b1 = s[offset + 1] as u32;
    assert(b0 < 256 && b1 < 256 ==> ((b0 + 256 * b1) % 256 == b0 && (b0 + 256 * b1) / 256 == b1))
        by (bit_vector);
    assert(u16_bytes(u16_at(s, offset)) =~= s.subrange(offset, offset + 2));
}

pub proof fn lemma_u32_bytes_of_read(s: Seq<u8>, offset: int)
    requires
        0 <= offset,
        offset + 4 <= s.len(),
    ensures
        u32_bytes(u32_at(s, offset)) == s.subrange(offset, offset + 4),
{
    let b0 = s[offset] as u64;
    let b1 = s[offset + 1] as u64;
    let b2 = s[offset + 2] as u64;
    let b3 = s[offset + 3] as u64;
    assert(b0 < 256 && b1 < 256 && b2 < 256 && b3 < 256 ==> {
        let w = b0 + 256 * b1 + 65536 * b2 + 16777216 * b3;
        &&& w % 256 == b0
        &&& (w / 256) % 256 == b1
        &&& (w / 65536) % 256 == b2
        &&& w / 16777216 == b3
    }) by (bit_vector);
    assert(u32_bytes(u32_at(s, offset)) =~= s.subrange(offset, offset + 4));
}

/// The `u32` read where the encoding of `v` was placed is `v`.
pub proof fn lemma_u32_at_placed(s: Seq<u8>, offset: int, v: u32)
    requires
        0 <= offset,
        offset + 4 <= s.len(),
        s.subrange(offset, offset + 4) == u32_bytes(v),
    ensures
        u32_at(s, offset) == v,
{
    lemma_u32_round_trip(v);
    assert(s[offset] == s.subrange(offset, offset + 4)[0]);
    assert(s[offset + 1] == s.subrange(offset, offset + 4)[1]);
    assert(s[offset + 2] == s.subrange(offset, offset + 4)[2]);
    assert(s[offset + 3] == s.subrange(offset, offset + 4)[3]);
}

/// The `u16` read where the encoding of `v` was placed is `v`.
pub proof fn lemma_u16_at_placed(s: Seq<u8>, offset: int, v: u16)
    requires
        0 <= offset,
        offset + 2 <= s.len(),
        s.subrange(offset, offset + 2) == u16_bytes(v),
    ensures
        u16_at(s, offset) == v,
{
    lemma_u16_round_trip(v);
    assert(s[offset] == s.subrange(offset, offset + 2)[0]);
    assert(s[offset + 1] == s.subrange(offset, offset + 2)[1]);
}

/// Reads the `u16` at `offset`, or `None` past the end.
pub fn read_u16(s: &[u8], offset: usize) -> (r: Option<u16>)
    ensures
        r == (if offset + 2 <= s@.len() { Some(u16_at(s@, offset as int)) } else { None::<u16> }),
{
    if offset > s.len() || s.len() - offset < 2 {
        return None;
    }
    let v: u16 = s[offset] as u16 + 256 * (s[offset + 1] as u16);
    Some(v)
}

/// Reads the `u32` at `offset`, or `None` past the end.
pub fn read_u32(s: &[u8], offset: usize) -> (r: Option<u32>)
    ensures
        r == (if offset + 4 <= s@.len() { Some(u32_at(s@, offset as int)) } else { None::<u32> }),
{
    if offset > s.len() || s.len() - offset < 4 {
        return None;
    }
    let v: u32 = s[offset] as u32 + 256 * (s[offset + 1] as u32) + 65536 * (s[offset + 2] as u32)
        + 16777216 * (s[offset + 3] as u32);
    Some(v)
}

/// Appends the little-endian bytes of `v`.
pub fn push_u16(out: &mut Vec<u8>, v: u16)
    ensures
        final(out)@ == old(out)@ + u16_bytes(v),
{
    out.push((v % 256) as u8);
    out.push((v / 256) as u8);
    assert(final(out)@ =~= old(out)@ + u16_bytes(v));
}

/// Appends the little-endian bytes of `v`.
pub fn push_u32(out: &mut Vec<u8>, v: u32)
    ensures
        final(out)@ == old(out)@ + u32_bytes(v),
{
    out.push((v % 256) as u8);
    out.push(((v / 256) % 256) as u8);
    out.push(((v / 65536) % 256) as u8);
    out.push((v / 16777216) as u8);
    assert(final(out)@ =~= old(out)@ + u32_bytes(v));
}

/// Appends `n` zero bytes.
pub fn push_zeros(out: &mut Vec<u8>, n: usize)
    ensures
        final(out)@ == old(out)@ + zeros(n as nat),
{
    let ghost start = out@;
    let mut i: usize = 0;
    while i < n
        invariant
            i <= n,
            out@ == start + zeros(i as nat),
        decreases n - i,
    {
        out.push(0u8);
        i = i + 1;
        assert(out@ =~= start + zeros(i as nat));
    }
}

/// Appends all bytes of `bytes`.
pub fn push_bytes(out: &mut Vec<u8>, bytes: &[u8])
    ensures
        final(out)@ == old(out)@ + bytes@,
{
    let ghost start = out@;
    let mut i: usize = 0;
    while i < bytes.len()
        invariant
            i <= bytes@.len(),
            out@ == start + bytes@.subrange(0, i as int),
        decreases bytes@.len() - i,
    {
        out.push(bytes[i]);
        i = i + 1;
        assert(out@ =~= start + bytes@.subrange(0, i as int));
    }
    assert(bytes@.subrange(0, bytes@.len() as int) =~= bytes@);
}

/// Whether every byte of `s` in `[start, end)` is zero.
pub fn check_zero(s: &[u8], start: usize, end: usize) -> (r: bool)
    requires
        start <= end <= s@.len(),
    ensures
        r == all_zero(s@, start as int, end as int),
{
    let mut i = start;
    while i < end
        invariant
            start <= i <= end <= s@.len(),
            all_zero(s@, start as int, i as int),
        decreases end - i,
    {
        if s[i] != 0 {
            return false;
        }
        i = i + 1;
    }
    true
}

/// Padding that brings `n` up to a multiple of four.
pub open spec fn spec_padding(n: int) -> int {
    (4 - n % 4) % 4
}

pub fn get_padding(n: usize) -> (r: usize)
    ensures
        r == spec_padding(n as int),
        r < 4,
{
    (4 - n % 4) % 4
}

} // verus!

verus! {

/// `b` rotated right by `shift` bits.
pub open spec fn rotr(b: u8, shift: u8) -> u8 {
    ((b >> shift) | (b << ((8 - shift) as u8))) as u8
}

pub proof fn lemma_rotr_inverse(b: u8)
    ensures
        rotr(rotr(b, 5), 3) == b,
        rotr(rotr(b, 3), 5) == b,
{
    let x = rotr(b, 5);
    let y = rotr(b, 3);
    assert(x == ((b >> 5u8) | (b << 3u8)) as u8);
    assert(y == ((b >> 3u8) | (b << 5u8)) as u8);
    assert(rotr(x, 3) == ((x >> 3u8) | (x << 5u8)) as u8);
    assert(rotr(y, 5) == ((y >> 5u8) | (y << 3u8)) as u8);
    assert(x == ((b >> 5u8) | (b << 3u8)) as u8 ==> ((x >> 3u8) | (x << 5u8)) as u8 == b)
        by (bit_vector);
    assert(y == ((b >> 3u8) | (b << 5u8)) as u8 ==> ((y >> 5u8) | (y << 3u8)) as u8 == b)
        by (bit_vector);
}

/// Every byte of `s` rotated right by `shift` bits.
pub open spec fn rotate_seq(s: Seq<u8>, shift: u8) -> Seq<u8> {
    Seq::new(s.len(), |i: int| rotr(s[i], shift))
}

/// Rotates every byte of `data` right by `shift` bits.
pub fn rotate_all(data: &mut Vec<u8>, shift: u8)
    requires
        1 <= shift <= 7,
    ensures
        final(data)@ == rotate_seq(old(data)@, shift),
{
    let ghost start = data@;
    let mut i: usize = 0;
    while i < data.len()
        invariant
            1 <= shift <= 7,
            data@.len() == start.len(),
            i <= data@.len(),
            forall|j: int| 0 <= j < i ==> data@[j] == rotr(start[j], shift),
            forall|j: int| i <= j < data@.len() ==> data@[j] == start[j],
        decreases data@.len() - i,
    {
        let b = data[i];
        let r: u8 = (b >> shift) | (b << (8 - shift));
        data.set(i, r);
        i = i + 1;
    }
    assert(data@ =~= rotate_seq(start, shift));
}

} // verus!

verus! {

/// The `u16` at `offset`, which must lie inside `s`.
pub fn get_u16(s: &[u8], offset: usize) -> (v: u16)
    requires
        offset + 2 <= s@.len(),
    ensures
        v == u16_at(s@, offset as int),
{
    s[offset] as u16 + 256 * (s[offset + 1] as u16)
}

/// The `u32` at `offset`, which must lie inside `s`.
pub fn get_u32(s: &[u8], offset: usize) -> (v: u32)
    requires
        offset + 4 <= s@.len(),
    ensures
        v == u32_at(s@, offset as int),
{
    s[offset] as u32 + 256 * (s[offset + 1] as u32) + 65536 * (s[offset + 2] as u32) + 16777216
        * (s[offset + 3] as u32)
}

/// The bytes of `s` in `[from, to)`.
pub fn copy_range(s: &[u8], from: usize, to: usize) -> (r: Vec<u8>)
    requires
        from <= to <= s@.len(),
    ensures
        r@ == s@.subrange(from as int, to as int),
{
    let mut r: Vec<u8> = Vec::new();
    let mut i = from;
    while i < to
        invariant
            from <= i <= to <= s@.len(),
            r@ == s@.subrange(from as int, i as int),
        decreases to - i,
    {
        r.push(s[i]);
        i = i + 1;
        assert(r@ =~= s@.subrange(from as int, i as int));
    }
    r
}

} // verus!
