//! SHA-256 (FIPS 180-4) of a script's bytes, rendered as lowercase hex.
//!
//! The digest answers one question — "were these two dumps produced from the
//! same script?" — so it is computed here, self-contained, and proved equal to
//! the standard's definition stated below as spec functions.

use vstd::prelude::*;
use crate::text::{hex_lower, hex_lower_char, push_char};

verus! {

// ── The standard, as spec functions ────────────────────────────────────────

/// The 64 round constants of SHA-256.
pub open spec fn round_k() -> Seq<u32> {
    seq![
        0x428a2f98u32, 0x71374491, 0xb5c0fbcf, 0xe9b5dba5, 0x3956c25b, 0x59f111f1, 0x923f82a4,
        0xab1c5ed5, 0xd807aa98, 0x12835b01, 0x243185be, 0x550c7dc3, 0x72be5d74, 0x80deb1fe,
        0x9bdc06a7, 0xc19bf174, 0xe49b69c1, 0xefbe4786, 0x0fc19dc6, 0x240ca1cc, 0x2de92c6f,
        0x4a7484aa, 0x5cb0a9dc, 0x76f988da, 0x983e5152, 0xa831c66d, 0xb00327c8, 0xbf597fc7,
        0xc6e00bf3, 0xd5a79147, 0x06ca6351, 0x14292967, 0x27b70a85, 0x2e1b2138, 0x4d2c6dfc,
        0x53380d13, 0x650a7354, 0x766a0abb, 0x81c2c92e, 0x92722c85, 0xa2bfe8a1, 0xa81a664b,
        0xc24b8b70, 0xc76c51a3, 0xd192e819, 0xd6990624, 0xf40e3585, 0x106aa070, 0x19a4c116,
        0x1e376c08, 0x2748774c, 0x34b0bcb5, 0x391c0cb3, 0x4ed8aa4a, 0x5b9cca4f, 0x682e6ff3,
        0x748f82ee, 0x78a5636f, 0x84c87814, 0x8cc70208, 0x90befffa, 0xa4506ceb, 0xbef9a3f7,
        0xc67178f2,
    ]
}

/// The initial hash value H(0).
pub open spec fn initial_hash() -> Seq<u32> {
    seq![
        0x6a09e667u32, 0xbb67ae85, 0x3c6ef372, 0xa54ff53a, 0x510e527f, 0x9b05688c, 0x1f83d9ab,
        0x5be0cd19,
    ]
}

/// Right rotation of a 32-bit word by `n` bits, `0 < n < 32`.
pub open spec fn rotr(x: u32, n: u32) -> u32 {
    (x >> n) | (x << ((32 - n) as u32))
}

pub open spec fn big_sigma0(a: u32) -> u32 {
    rotr(a, 2) ^ rotr(a, 13) ^ rotr(a, 22)
}

pub open spec fn big_sigma1(e: u32) -> u32 {
    rotr(e, 6) ^ rotr(e, 11) ^ rotr(e, 25)
}

pub open spec fn small_sigma0(x: u32) -> u32 {
    rotr(x, 7) ^ rotr(x, 18) ^ (x >> 3u32)
}

pub open spec fn small_sigma1(x: u32) -> u32 {
    rotr(x, 17) ^ rotr(x, 19) ^ (x >> 10u32)
}

pub open spec fn choose_bits(e: u32, f: u32, g: u32) -> u32 {
    (e & f) ^ ((!e) & g)
}

pub open spec fn majority(a: u32, b: u32, c: u32) -> u32 {
    (a & b) ^ (a & c) ^ (b & c)
}

/// Byte `i` (most significant first) of the 64-bit big-endian encoding of `v`.
pub open spec fn be64_byte(v: u64, i: int) -> u8 {
    (v >> ((56 - 8 * i) as u64)) as u8
}

/// The padded message: `m ‖ 0x80 ‖ 0…0 ‖ bitlen(m)` as a 64-bit big-endian
/// integer, with just enough zeros that the length is a multiple of 64.
pub open spec fn padded(m: Seq<u8>) -> Seq<u8> {
    let zeros = (55 - m.len() as int) % 64;
    m + seq![0x80u8] + Seq::new(zeros as nat, |i: int| 0u8)
        + Seq::new(8, |i: int| be64_byte((m.len() * 8) as u64, i))
}

/// The big-endian word at byte offset `4 * i` of a block.
pub open spec fn block_word(block: Seq<u8>, i: int) -> u32 {
    ((block[4 * i] as u32) << 24u32) | ((block[4 * i + 1] as u32) << 16u32) | ((block[4 * i
        + 2] as u32) << 8u32) | (block[4 * i + 3] as u32)
}

/// The message schedule W(t) of a 64-byte block.
pub open spec fn schedule(block: Seq<u8>, t: nat) -> u32
    decreases t,
{
    if t < 16 {
        block_word(block, t as int)
    } else {
        schedule(block, (t - 16) as nat).wrapping_add(small_sigma0(schedule(block, (t - 15) as nat)))
            .wrapping_add(schedule(block, (t - 7) as nat)).wrapping_add(
            small_sigma1(schedule(block, (t - 2) as nat)),
        )
    }
}

/// One compression round on the working variables `a..h`.
pub open spec fn round(s: Seq<u32>, k: u32, w: u32) -> Seq<u32> {
    let t1 = s[7].wrapping_add(big_sigma1(s[4])).wrapping_add(choose_bits(s[4], s[5], s[6]))
        .wrapping_add(k).wrapping_add(w);
    let t2 = big_sigma0(s[0]).wrapping_add(majority(s[0], s[1], s[2]));
    seq![t1.wrapping_add(t2), s[0], s[1], s[2], s[3].wrapping_add(t1), s[4], s[5], s[6]]
}

/// The working variables after the first `n` rounds over `block`, from `h`.
pub open spec fn rounds(h: Seq<u32>, block: Seq<u8>, n: nat) -> Seq<u32>
    decreases n,
{
    if n == 0 {
        h
    } else {
        round(rounds(h, block, (n - 1) as nat), round_k()[n - 1], schedule(block, (n - 1) as nat))
    }
}

/// The hash value after processing one block.
pub open spec fn compress(h: Seq<u32>, block: Seq<u8>) -> Seq<u32> {
    let v = rounds(h, block, 64);
    Seq::new(8, |j: int| h[j].wrapping_add(v[j]))
}

/// The hash value after the first `n` blocks of a padded message.
pub open spec fn hash_blocks(msg: Seq<u8>, n: nat) -> Seq<u32>
    decreases n,
{
    if n == 0 {
        initial_hash()
    } else {
        compress(hash_blocks(msg, (n - 1) as nat), msg.subrange(64 * (n - 1), 64 * n as int))
    }
}

/// The SHA-256 digest of `m`, as eight 32-bit words.
pub open spec fn sha256(m: Seq<u8>) -> Seq<u32> {
    hash_blocks(padded(m), padded(m).len() / 64)
}

/// Eight words rendered as 64 lowercase hex digits, most significant first.
pub open spec fn hex_words(h: Seq<u32>) -> Seq<char> {
    Seq::new(64, |i: int| hex_lower(((h[i / 8] >> ((28 - 4 * (i % 8)) as u32)) & 0xfu32) as int))
}

// ── Implementation ─────────────────────────────────────────────────────────

fn rotate(x: u32, n: u32) -> (r: u32)
    requires
        0 < n < 32,
    ensures
        r == rotr(x, n),
{
    (x >> n) | (x << (32 - n))
}

fn round_constants() -> (k: Vec<u32>)
    ensures
        k@ == round_k(),
{
    let k = vec![
        0x428a2f98u32, 0x71374491, 0xb5c0fbcf, 0xe9b5dba5, 0x3956c25b, 0x59f111f1, 0x923f82a4,
        0xab1c5ed5, 0xd807aa98, 0x12835b01, 0x243185be, 0x550c7dc3, 0x72be5d74, 0x80deb1fe,
        0x9bdc06a7, 0xc19bf174, 0xe49b69c1, 0xefbe4786, 0x0fc19dc6, 0x240ca1cc, 0x2de92c6f,
        0x4a7484aa, 0x5cb0a9dc, 0x76f988da, 0x983e5152, 0xa831c66d, 0xb00327c8, 0xbf597fc7,
        0xc6e00bf3, 0xd5a79147, 0x06ca6351, 0x14292967, 0x27b70a85, 0x2e1b2138, 0x4d2c6dfc,
        0x53380d13, 0x650a7354, 0x766a0abb, 0x81c2c92e, 0x92722c85, 0xa2bfe8a1, 0xa81a664b,
        0xc24b8b70, 0xc76c51a3, 0xd192e819, 0xd6990624, 0xf40e3585, 0x106aa070, 0x19a4c116,
        0x1e376c08, 0x2748774c, 0x34b0bcb5, 0x391c0cb3, 0x4ed8aa4a, 0x5b9cca4f, 0x682e6ff3,
        0x748f82ee, 0x78a5636f, 0x84c87814, 0x8cc70208, 0x90befffa, 0xa4506ceb, 0xbef9a3f7,
        0xc67178f2,
    ];
    assert(k@ =~= round_k());
    k
}

/// Pads `bytes` as [`padded`] describes.
fn pad_message(bytes: &[u8]) -> (msg: Vec<u8>)
    requires
        bytes@.len() * 8 <= u64::MAX,
        bytes@.len() + 128 <= usize::MAX,
    ensures
        msg@ == padded(bytes@),
        msg@.len() % 64 == 0,
{
    let mut msg: Vec<u8> = Vec::new();
    let n = bytes.len();
    let mut i: usize = 0;
    while i < n
        invariant
            n == bytes@.len(),
            i <= n,
            msg@ == bytes@.subrange(0, i as int),
        decreases n - i,
    {
        msg.push(bytes[i]);
        i = i + 1;
    }
    assert(msg@ =~= bytes@);
    let bit_len: u64 = (n as u64) * 8;
    msg.push(0x80u8);
    let ghost with_marker = msg@;
    while msg.len() % 64 != 56
        invariant
            msg@.len() <= n + 64,
            msg@.len() >= n + 1,
            n + 128 <= usize::MAX,
            msg@.subrange(0, n as int + 1) == with_marker,
            with_marker == bytes@ + seq![0x80u8],
            forall|j: int| n + 1 <= j < msg@.len() ==> msg@[j] == 0u8,
            msg@.len() - (n + 1) <= (55 - n as int) % 64,
        decreases n + 64 - msg@.len(),
    {
        msg.push(0u8);
    }
    let ghost zeros_end = msg@.len();
    assert(msg@.len() - (n + 1) == (55 - n as int) % 64);
    let mut b: usize = 0;
    while b < 8
        invariant
            b <= 8,
            msg@.len() == zeros_end + b,
            zeros_end <= n + 64,
            n + 128 <= usize::MAX,
            forall|j: int| 0 <= j < b ==> msg@[zeros_end + j] == be64_byte(bit_len, j),
            msg@.subrange(0, zeros_end as int) == with_marker + Seq::new(
                (zeros_end - (n + 1)) as nat,
                |i: int| 0u8,
            ),
        decreases 8 - b,
    {
        let shift: u64 = 56 - 8 * (b as u64);
        msg.push((bit_len >> shift) as u8);
        b = b + 1;
    }
    assert(msg@ =~= padded(bytes@));
    msg
}

/// Computes the schedule of the block at `off` in `msg`.
fn message_schedule(msg: &Vec<u8>, off: usize) -> (w: Vec<u32>)
    requires
        off + 64 <= msg@.len(),
    ensures
        w@.len() == 64,
        forall|t: int|
            0 <= t < 64 ==> w@[t] == schedule(msg@.subrange(off as int, off + 64), t as nat),
{
    let ghost block = msg@.subrange(off as int, off + 64);
    let mlen = msg.len();
    let mut w: Vec<u32> = Vec::new();
    let mut t: usize = 0;
    while t < 16
        invariant
            t <= 16,
            mlen == msg@.len(),
            off + 64 <= msg@.len(),
            block == msg@.subrange(off as int, off + 64),
            w@.len() == t,
            forall|j: int| 0 <= j < t ==> w@[j] == schedule(block, j as nat),
        decreases 16 - t,
    {
        let p = off + 4 * t;
        let word = ((msg[p] as u32) << 24u32) | ((msg[p + 1] as u32) << 16u32) | ((msg[p + 2] as u32)
            << 8u32) | (msg[p + 3] as u32);
        assert(word == block_word(block, t as int));
        w.push(word);
        t = t + 1;
    }
    while t < 64
        invariant
            16 <= t <= 64,
            w@.len() == t,
            forall|j: int| 0 <= j < t ==> w@[j] == schedule(block, j as nat),
        decreases 64 - t,
    {
        let x15 = w[t - 15];
        let x2 = w[t - 2];
        let s0 = rotate(x15, 7) ^ rotate(x15, 18) ^ (x15 >> 3u32);
        let s1 = rotate(x2, 17) ^ rotate(x2, 19) ^ (x2 >> 10u32);
        let word = w[t - 16].wrapping_add(s0).wrapping_add(w[t - 7]).wrapping_add(s1);
        assert(word == schedule(block, t as nat));
        w.push(word);
        t = t + 1;
    }
    w
}

/// Applies the compression function for the block at `off` to `h`.
fn compress_block(h: &mut Vec<u32>, msg: &Vec<u8>, k: &Vec<u32>, off: usize)
    requires
        old(h)@.len() == 8,
        k@ == round_k(),
        off + 64 <= msg@.len(),
    ensures
        final(h)@ == compress(old(h)@, msg@.subrange(off as int, off + 64)),
{
    let ghost block = msg@.subrange(off as int, off + 64);
    let ghost h0 = h@;
    let w = message_schedule(msg, off);
    let mut a = h[0];
    let mut b = h[1];
    let mut c = h[2];
    let mut d = h[3];
    let mut e = h[4];
    let mut f = h[5];
    let mut g = h[6];
    let mut hh = h[7];
    assert(seq![a, b, c, d, e, f, g, hh] =~= rounds(h0, block, 0));
    let mut i: usize = 0;
    while i < 64
        invariant
            i <= 64,
            k@ == round_k(),
            w@.len() == 64,
            forall|t: int| 0 <= t < 64 ==> w@[t] == schedule(block, t as nat),
            seq![a, b, c, d, e, f, g, hh] == rounds(h0, block, i as nat),
        decreases 64 - i,
    {
        let ghost before = seq![a, b, c, d, e, f, g, hh];
        let s1 = rotate(e, 6) ^ rotate(e, 11) ^ rotate(e, 25);
        let ch = (e & f) ^ ((!e) & g);
        let t1 = hh.wrapping_add(s1).wrapping_add(ch).wrapping_add(k[i]).wrapping_add(w[i]);
        let s0 = rotate(a, 2) ^ rotate(a, 13) ^ rotate(a, 22);
        let maj = (a & b) ^ (a & c) ^ (b & c);
        let t2 = s0.wrapping_add(maj);
        hh = g;
        g = f;
        f = e;
        e = d.wrapping_add(t1);
        d = c;
        c = b;
        b = a;
        a = t1.wrapping_add(t2);
        assert(seq![a, b, c, d, e, f, g, hh] =~= round(before, round_k()[i as int], schedule(block, i as nat)));
        i = i + 1;
    }
    let ghost v = seq![a, b, c, d, e, f, g, hh];
    h.set(0, h[0].wrapping_add(a));
    h.set(1, h[1].wrapping_add(b));
    h.set(2, h[2].wrapping_add(c));
    h.set(3, h[3].wrapping_add(d));
    h.set(4, h[4].wrapping_add(e));
    h.set(5, h[5].wrapping_add(f));
    h.set(6, h[6].wrapping_add(g));
    h.set(7, h[7].wrapping_add(hh));
    assert(h@ =~= compress(h0, block));
}

/// SHA-256 of `bytes`, as 64 lowercase hexadecimal digits.
pub fn sha256_hex(bytes: &[u8]) -> (hex: String)
    requires
        bytes@.len() * 8 <= u64::MAX,
        bytes@.len() + 128 <= usize::MAX,
    ensures
        hex@ == hex_words(sha256(bytes@)),
{
    let msg = pad_message(bytes);
    let k = round_constants();
    let mut h: Vec<u32> = vec![
        0x6a09e667u32, 0xbb67ae85, 0x3c6ef372, 0xa54ff53a, 0x510e527f, 0x9b05688c, 0x1f83d9ab,
        0x5be0cd19,
    ];
    assert(h@ =~= hash_blocks(msg@, 0));
    let mlen = msg.len();
    let nblocks = mlen / 64;
    let mut blk: usize = 0;
    while blk < nblocks
        invariant
            blk <= nblocks,
            mlen == msg@.len(),
            nblocks == msg@.len() / 64,
            msg@.len() % 64 == 0,
            k@ == round_k(),
            h@ == hash_blocks(msg@, blk as nat),
        decreases nblocks - blk,
    {
        proof {
            vstd::arithmetic::div_mod::lemma_fundamental_div_mod(msg@.len() as int, 64);
        }
        assert(64 * blk + 64 <= msg@.len()) by (nonlinear_arith)
            requires
                blk < nblocks,
                nblocks == msg@.len() / 64,
        ;
        compress_block(&mut h, &msg, &k, 64 * blk);
        blk = blk + 1;
    }
    let mut out = String::new();
    let mut wi: usize = 0;
    while wi < 8
        invariant
            wi <= 8,
            h@.len() == 8,
            out@.len() == 8 * wi,
            forall|j: int| 0 <= j < 8 * wi ==> out@[j] == hex_words(h@)[j],
        decreases 8 - wi,
    {
        let word = h[wi];
        let mut nib: usize = 0;
        while nib < 8
            invariant
                wi < 8,
                nib <= 8,
                word == h@[wi as int],
                h@.len() == 8,
                out@.len() == 8 * wi + nib,
                forall|j: int| 0 <= j < 8 * wi + nib ==> out@[j] == hex_words(h@)[j],
            decreases 8 - nib,
        {
            let shift: u32 = 28 - 4 * (nib as u32);
            let nibble = (word >> shift) & 0xfu32;
            assert(nibble < 16) by (bit_vector)
                requires nibble == (word >> shift) & 0xfu32;
            let digit = hex_lower_char(nibble);
            proof {
                let j = 8 * wi + nib;
                assert(j / 8 == wi as int) by (nonlinear_arith)
                    requires j == 8 * wi + nib, nib < 8;
                assert(j % 8 == nib as int) by (nonlinear_arith)
                    requires j == 8 * wi + nib, nib < 8;
            }
            push_char(&mut out, digit);
            nib = nib + 1;
        }
        wi = wi + 1;
    }
    assert(out@ =~= hex_words(h@));
    out
}

} // verus!
