//! The cache fingerprint: a 64-bit digest over the monitor layout, the
//! downscale policy flag and the raw source-image bytes, rendered as a
//! decimal string for use in cache file names.

use vstd::prelude::*;
use vstd::std_specs::hash::DefaultHasherAdditionalSpecFns;
use std::collections::hash_map::DefaultHasher;
use std::hash::Hasher;
use crate::geometry::Monitor;

verus! {

/// The four little-endian bytes of a `u32`.
pub open spec fn u32_le(v: u32) -> Seq<u8> {
    seq![
        (v & 0xff) as u8,
        ((v >> 8) & 0xff) as u8,
        ((v >> 16) & 0xff) as u8,
        ((v >> 24) & 0xff) as u8,
    ]
}

/// The eight little-endian bytes of a `u64`.
pub open spec fn u64_le(v: u64) -> Seq<u8> {
    seq![
        (v & 0xff) as u8,
        ((v >> 8) & 0xff) as u8,
        ((v >> 16) & 0xff) as u8,
        ((v >> 24) & 0xff) as u8,
        ((v >> 32) & 0xff) as u8,
        ((v >> 40) & 0xff) as u8,
        ((v >> 48) & 0xff) as u8,
        ((v >> 56) & 0xff) as u8,
    ]
}

/// The byte blocks one monitor contributes to the digest: its name's byte
/// length, the name in UTF-8, then each geometry field as little-endian
/// bytes. The length prefix makes a monitor's contribution self-delimiting
/// in the concatenated stream the hasher actually consumes.
pub open spec fn monitor_blocks(m: Monitor) -> Seq<Seq<u8>> {
    seq![
        u64_le(((vstd::utf8::encode_utf8(m.name@).len()) as usize) as u64),
        vstd::utf8::encode_utf8(m.name@),
        u32_le(m.width),
        u32_le(m.height),
        u32_le(m.x as u32),
        u32_le(m.y as u32),
    ]
}

/// The byte blocks of a whole monitor list, in provider order.
pub open spec fn monitors_blocks(ms: Seq<Monitor>) -> Seq<Seq<u8>>
    decreases ms.len(),
{
    if ms.len() == 0 {
        Seq::empty()
    } else {
        monitors_blocks(ms.drop_last()) + monitor_blocks(ms.last())
    }
}

/// Everything the digest is computed over: the monitor count, the monitor
/// blocks, then one byte for the downscale flag, then the raw image bytes as
/// one block. The hasher consumes the blocks as one concatenated stream, so
/// the count and the length-prefixed names keep distinct inputs from ever
/// concatenating to the same stream — a realignment of name, geometry and
/// image bytes cannot collide by construction.
pub open spec fn fingerprint_blocks(ms: Seq<Monitor>, no_downscale: bool, image_bytes: Seq<u8>) -> Seq<
    Seq<u8>,
> {
    seq![u64_le((ms.len() as usize) as u64)] + monitors_blocks(ms) + seq![
        seq![(if no_downscale { 1u8 } else { 0u8 })],
        image_bytes,
    ]
}

/// The fingerprint itself: the 64-bit digest of the block sequence.
pub open spec fn fingerprint_spec(ms: Seq<Monitor>, no_downscale: bool, image_bytes: Seq<u8>) -> u64 {
    DefaultHasher::spec_finish(fingerprint_blocks(ms, no_downscale, image_bytes))
}

proof fn lemma_monitors_blocks_len(ms: Seq<Monitor>)
    ensures
        monitors_blocks(ms).len() == 6 * ms.len(),
    decreases ms.len(),
{
    if ms.len() > 0 {
        lemma_monitors_blocks_len(ms.drop_last());
    }
}

proof fn lemma_monitors_blocks_index(ms: Seq<Monitor>, i: int)
    requires
        0 <= i < ms.len(),
    ensures
        monitors_blocks(ms).subrange(6 * i, 6 * i + 6) =~= monitor_blocks(ms[i]),
    decreases ms.len(),
{
    lemma_monitors_blocks_len(ms);
    lemma_monitors_blocks_len(ms.drop_last());
    if i == ms.len() - 1 {
        assert(ms.last() == ms[i]);
        assert(monitors_blocks(ms).subrange(6 * i, 6 * i + 6) =~= monitor_blocks(ms[i]));
    } else {
        lemma_monitors_blocks_index(ms.drop_last(), i);
        assert(ms.drop_last()[i] == ms[i]);
        assert(monitors_blocks(ms).subrange(6 * i, 6 * i + 6) =~= monitors_blocks(
            ms.drop_last(),
        ).subrange(6 * i, 6 * i + 6));
    }
}

proof fn lemma_u32_le_injective(a: u32, b: u32)
    requires
        u32_le(a) == u32_le(b),
    ensures
        a == b,
{
    assert(u32_le(a)[0] == u32_le(b)[0]);
    assert(u32_le(a)[1] == u32_le(b)[1]);
    assert(u32_le(a)[2] == u32_le(b)[2]);
    assert(u32_le(a)[3] == u32_le(b)[3]);
    assert(a == b) by (bit_vector)
        requires
            (a & 0xff) as u8 == (b & 0xff) as u8,
            ((a >> 8) & 0xff) as u8 == ((b >> 8) & 0xff) as u8,
            ((a >> 16) & 0xff) as u8 == ((b >> 16) & 0xff) as u8,
            ((a >> 24) & 0xff) as u8 == ((b >> 24) & 0xff) as u8,
    ;
}

/// Law (determinism): the fingerprint is a function of its three inputs —
/// two runs over equal monitor lists, equal flags and equal image bytes
/// yield the same fingerprint.
pub proof fn lemma_fingerprint_deterministic(
    ms1: Seq<Monitor>,
    f1: bool,
    b1: Seq<u8>,
    ms2: Seq<Monitor>,
    f2: bool,
    b2: Seq<u8>,
)
    requires
        ms1 == ms2,
        f1 == f2,
        b1 == b2,
    ensures
        fingerprint_spec(ms1, f1, b1) == fingerprint_spec(ms2, f2, b2),
{
}

/// Law (sensitivity): the block sequence fed to the digest identifies the
/// input. Equal block sequences can only come from monitor lists of the same
/// length whose names and geometry agree pointwise, from equal flags and
/// from equal image bytes — so changing any monitor's name or geometry, the
/// flag, or one image byte changes the digest's input; only a collision of
/// the 64-bit digest itself could mask the change.
pub proof fn lemma_fingerprint_input_injective(
    ms1: Seq<Monitor>,
    f1: bool,
    b1: Seq<u8>,
    ms2: Seq<Monitor>,
    f2: bool,
    b2: Seq<u8>,
)
    requires
        forall|i: int| 0 <= i < ms1.len() ==> #[trigger] ms1[i].wf(),
        forall|i: int| 0 <= i < ms2.len() ==> #[trigger] ms2[i].wf(),
        fingerprint_blocks(ms1, f1, b1) == fingerprint_blocks(ms2, f2, b2),
    ensures
        ms1.len() == ms2.len(),
        forall|i: int|
            0 <= i < ms1.len() ==> {
                &&& (#[trigger] ms1[i]).name@ == ms2[i].name@
                &&& ms1[i].width == ms2[i].width
                &&& ms1[i].height == ms2[i].height
                &&& ms1[i].x == ms2[i].x
                &&& ms1[i].y == ms2[i].y
            },
        f1 == f2,
        b1 == b2,
{
    broadcast use vstd::utf8::encode_utf8_decode_utf8;

    let blocks1 = fingerprint_blocks(ms1, f1, b1);
    let blocks2 = fingerprint_blocks(ms2, f2, b2);
    lemma_monitors_blocks_len(ms1);
    lemma_monitors_blocks_len(ms2);
    assert(blocks1.len() == 6 * ms1.len() + 3);
    assert(blocks2.len() == 6 * ms2.len() + 3);
    assert(ms1.len() == ms2.len());
    let n = ms1.len() as int;
    assert(blocks1[6 * n + 1] == blocks2[6 * n + 1]);
    assert(blocks1[6 * n + 1][0] == blocks2[6 * n + 1][0]);
    assert(f1 == f2);
    assert(blocks1[6 * n + 2] == b1);
    assert(blocks2[6 * n + 2] == b2);
    assert(b1 == b2);
    assert forall|i: int| 0 <= i < ms1.len() implies {
        &&& (#[trigger] ms1[i]).name@ == ms2[i].name@
        &&& ms1[i].width == ms2[i].width
        &&& ms1[i].height == ms2[i].height
        &&& ms1[i].x == ms2[i].x
        &&& ms1[i].y == ms2[i].y
    } by {
        assert(ms1[i].wf() && ms2[i].wf());
        lemma_monitors_blocks_index(ms1, i);
        lemma_monitors_blocks_index(ms2, i);
        assert(blocks1.subrange(1 + 6 * i, 7 + 6 * i) =~= monitors_blocks(ms1).subrange(
            6 * i,
            6 * i + 6,
        ));
        assert(blocks2.subrange(1 + 6 * i, 7 + 6 * i) =~= monitors_blocks(ms2).subrange(
            6 * i,
            6 * i + 6,
        ));
        assert(blocks1.subrange(1 + 6 * i, 7 + 6 * i) =~= blocks2.subrange(1 + 6 * i, 7 + 6 * i));
        assert(monitor_blocks(ms1[i]) =~= monitor_blocks(ms2[i]));
        assert(vstd::utf8::encode_utf8(ms1[i].name@) == vstd::utf8::encode_utf8(ms2[i].name@));
        vstd::utf8::encode_utf8_decode_utf8(ms1[i].name@);
        vstd::utf8::encode_utf8_decode_utf8(ms2[i].name@);
        assert(ms1[i].name@ == ms2[i].name@);
        assert(monitor_blocks(ms1[i])[2] == monitor_blocks(ms2[i])[2]);
        lemma_u32_le_injective(ms1[i].width, ms2[i].width);
        lemma_u32_le_injective(ms1[i].height, ms2[i].height);
        lemma_u32_le_injective(ms1[i].x as u32, ms2[i].x as u32);
        lemma_u32_le_injective(ms1[i].y as u32, ms2[i].y as u32);
        assert(ms1[i].x == ms2[i].x);
        assert(ms1[i].y == ms2[i].y);
    }
}

fn u32_le_bytes(v: u32) -> (r: Vec<u8>)
    ensures
        r@ == u32_le(v),
{
    let mut r: Vec<u8> = Vec::new();
    proof {
        assert((v & 0xff) <= 0xff && ((v >> 8) & 0xff) <= 0xff && ((v >> 16) & 0xff) <= 0xff && ((v
            >> 24) & 0xff) <= 0xff) by (bit_vector);
    }
    r.push((v & 0xff) as u8);
    r.push(((v >> 8) & 0xff) as u8);
    r.push(((v >> 16) & 0xff) as u8);
    r.push(((v >> 24) & 0xff) as u8);
    proof {
        assert(r@ =~= u32_le(v));
    }
    r
}

fn u64_le_bytes(v: u64) -> (r: Vec<u8>)
    ensures
        r@ == u64_le(v),
{
    let mut r: Vec<u8> = Vec::new();
    proof {
        assert((v & 0xff) <= 0xff && ((v >> 8) & 0xff) <= 0xff && ((v >> 16) & 0xff) <= 0xff && ((v
            >> 24) & 0xff) <= 0xff && ((v >> 32) & 0xff) <= 0xff && ((v >> 40) & 0xff) <= 0xff && ((
        v >> 48) & 0xff) <= 0xff && ((v >> 56) & 0xff) <= 0xff) by (bit_vector);
    }
    r.push((v & 0xff) as u8);
    r.push(((v >> 8) & 0xff) as u8);
    r.push(((v >> 16) & 0xff) as u8);
    r.push(((v >> 24) & 0xff) as u8);
    r.push(((v >> 32) & 0xff) as u8);
    r.push(((v >> 40) & 0xff) as u8);
    r.push(((v >> 48) & 0xff) as u8);
    r.push(((v >> 56) & 0xff) as u8);
    proof {
        assert(r@ =~= u64_le(v));
    }
    r
}

/// Computes the fingerprint of one run's inputs by feeding the block
/// sequence to the digest in order.
pub fn fingerprint(monitors: &Vec<Monitor>, no_downscale: bool, image_bytes: &Vec<u8>) -> (r: u64)
    requires
        forall|i: int| 0 <= i < monitors@.len() ==> #[trigger] monitors@[i].wf(),
    ensures
        r == fingerprint_spec(monitors@, no_downscale, image_bytes@),
{
    let mut hasher = DefaultHasher::new();
    let count_bytes = u64_le_bytes(monitors.len() as u64);
    hasher.write(count_bytes.as_slice());
    let ghost count_block = seq![u64_le((monitors@.len() as usize) as u64)];
    proof {
        assert(hasher@ =~= count_block + monitors_blocks(monitors@.take(0)));
    }
    let mut i: usize = 0;
    while i < monitors.len()
        invariant
            0 <= i <= monitors@.len(),
            forall|j: int| 0 <= j < monitors@.len() ==> #[trigger] monitors@[j].wf(),
            count_block == seq![u64_le((monitors@.len() as usize) as u64)],
            hasher@ == count_block + monitors_blocks(monitors@.take(i as int)),
        decreases monitors@.len() - i,
    {
        let m = &monitors[i];
        proof {
            assert(monitors@[i as int].wf());
        }
        let name_len_bytes = u64_le_bytes(m.name.as_str().len() as u64);
        hasher.write(name_len_bytes.as_slice());
        hasher.write(m.name.as_str().as_bytes());
        let width_bytes = u32_le_bytes(m.width);
        hasher.write(width_bytes.as_slice());
        let height_bytes = u32_le_bytes(m.height);
        hasher.write(height_bytes.as_slice());
        let x_bytes = u32_le_bytes(m.x as u32);
        hasher.write(x_bytes.as_slice());
        let y_bytes = u32_le_bytes(m.y as u32);
        hasher.write(y_bytes.as_slice());
        proof {
            assert(monitors@.take(i + 1).drop_last() =~= monitors@.take(i as int));
            assert(monitors@.take(i + 1).last() == monitors@[i as int]);
            assert(hasher@ =~= count_block + monitors_blocks(monitors@.take(i + 1)));
        }
        i = i + 1;
    }
    proof {
        assert(monitors@.take(monitors@.len() as int) =~= monitors@);
    }
    let mut flag_bytes: Vec<u8> = Vec::new();
    flag_bytes.push(if no_downscale { 1 } else { 0 });
    hasher.write(flag_bytes.as_slice());
    hasher.write(image_bytes.as_slice());
    proof {
        assert(flag_bytes@ =~= seq![(if no_downscale { 1u8 } else { 0u8 })]);
        assert(hasher@ =~= fingerprint_blocks(monitors@, no_downscale, image_bytes@));
    }
    hasher.finish()
}

/// The decimal digit character for a value below ten.
pub open spec fn digit_char(d: int) -> char {
    if d == 0 {
        '0'
    } else if d == 1 {
        '1'
    } else if d == 2 {
        '2'
    } else if d == 3 {
        '3'
    } else if d == 4 {
        '4'
    } else if d == 5 {
        '5'
    } else if d == 6 {
        '6'
    } else if d == 7 {
        '7'
    } else if d == 8 {
        '8'
    } else {
        '9'
    }
}

/// The decimal rendering of a number, most significant digit first, with no
/// leading zeros (a single `'0'` for zero).
pub open spec fn u64_dec(n: nat) -> Seq<char>
    decreases n,
{
    if n < 10 {
        seq![digit_char(n as int)]
    } else {
        u64_dec(n / 10).push(digit_char((n % 10) as int))
    }
}

proof fn lemma_u64_dec_len(n: nat)
    ensures
        u64_dec(n).len() >= 1,
        n >= 10 ==> u64_dec(n).len() >= 2,
    decreases n,
{
    if n >= 10 {
        lemma_u64_dec_len(n / 10);
    }
}

/// Law: the decimal rendering is injective — distinct fingerprints give
/// distinct strings, so they can never collide inside a cache file name.
pub proof fn lemma_u64_dec_injective(a: nat, b: nat)
    requires
        u64_dec(a) == u64_dec(b),
    ensures
        a == b,
    decreases a,
{
    lemma_u64_dec_len(a);
    lemma_u64_dec_len(b);
    if a < 10 && b < 10 {
        assert(u64_dec(a) == seq![digit_char(a as int)]);
        assert(u64_dec(b) == seq![digit_char(b as int)]);
        assert(seq![digit_char(a as int)][0] == digit_char(a as int));
        assert(seq![digit_char(b as int)][0] == digit_char(b as int));
        assert(digit_char(a as int) == digit_char(b as int));
        assert(a == b);
    } else if a < 10 || b < 10 {
        assert(u64_dec(a).len() != u64_dec(b).len());
    } else {
        assert(u64_dec(a) == u64_dec(a / 10).push(digit_char((a % 10) as int)));
        assert(u64_dec(b) == u64_dec(b / 10).push(digit_char((b % 10) as int)));
        assert(u64_dec(a / 10).push(digit_char((a % 10) as int)).last() == digit_char(
            (a % 10) as int,
        ));
        assert(u64_dec(b / 10).push(digit_char((b % 10) as int)).last() == digit_char(
            (b % 10) as int,
        ));
        assert(digit_char((a % 10) as int) == digit_char((b % 10) as int));
        assert(a % 10 == b % 10);
        assert(u64_dec(a).drop_last() =~= u64_dec(a / 10));
        assert(u64_dec(b).drop_last() =~= u64_dec(b / 10));
        lemma_u64_dec_injective(a / 10, b / 10);
    }
}

fn digit_str(d: u64) -> (r: &'static str)
    requires
        d < 10,
    ensures
        r@ =~= seq![digit_char(d as int)],
{
    proof {
        reveal_strlit("0");
        reveal_strlit("1");
        reveal_strlit("2");
        reveal_strlit("3");
        reveal_strlit("4");
        reveal_strlit("5");
        reveal_strlit("6");
        reveal_strlit("7");
        reveal_strlit("8");
        reveal_strlit("9");
    }
    if d == 0 {
        "0"
    } else if d == 1 {
        "1"
    } else if d == 2 {
        "2"
    } else if d == 3 {
        "3"
    } else if d == 4 {
        "4"
    } else if d == 5 {
        "5"
    } else if d == 6 {
        "6"
    } else if d == 7 {
        "7"
    } else if d == 8 {
        "8"
    } else {
        "9"
    }
}

/// Renders a fingerprint as its decimal string, the form used inside cache
/// file names.
pub fn u64_to_dec_string(n: u64) -> (r: String)
    ensures
        r@ == u64_dec(n as nat),
    decreases n,
{
    if n < 10 {
        let mut s = String::new();
        s.append(digit_str(n));
        proof {
            assert(s@ =~= u64_dec(n as nat));
        }
        s
    } else {
        let mut s = u64_to_dec_string(n / 10);
        s.append(digit_str(n % 10));
        proof {
            assert(s@ =~= u64_dec(n as nat));
        }
        s
    }
}

} // verus!
