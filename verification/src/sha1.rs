//! SHA-1 (RFC 3174), which names the files of the decision cache and of the
//! sessions.

use vstd::prelude::*;
use crate::text;

verus! {

/// The five words of a SHA-1 state.
#[derive(Clone, Copy)]
pub struct State {
    pub a: u32,
    pub b: u32,
    pub c: u32,
    pub d: u32,
    pub e: u32,
}

/// The state before the first block.
pub open spec fn initial() -> State {
    State {
        a: 0x6745_2301,
        b: 0xEFCD_AB89,
        c: 0x98BA_DCFE,
        d: 0x1032_5476,
        e: 0xC3D2_E1F0,
    }
}

/// The number of zero bytes between the mark and the length of a message of
/// `len` bytes: the fewest that fill the last block.
pub open spec fn gap(len: int) -> int {
    (55 - len) % 64
}

/// A 64-bit number as eight bytes, highest first.
pub open spec fn be64(n: u64) -> Seq<u8> {
    seq![
        (n >> 56) as u8,
        (n >> 48) as u8,
        (n >> 40) as u8,
        (n >> 32) as u8,
        (n >> 24) as u8,
        (n >> 16) as u8,
        (n >> 8) as u8,
        n as u8,
    ]
}

/// A 32-bit number as four bytes, highest first.
pub open spec fn be32(n: u32) -> Seq<u8> {
    seq![(n >> 24) as u8, (n >> 16) as u8, (n >> 8) as u8, n as u8]
}

/// Four bytes, highest first, as a 32-bit number.
pub open spec fn word_at(s: Seq<u8>, i: int) -> u32 {
    ((s[i] as u32) << 24) | ((s[i + 1] as u32) << 16) | ((s[i + 2] as u32) << 8) | (s[i + 3] as u32)
}

/// A message filled up to whole blocks: the mark, zeros, and its length in bits.
pub open spec fn padded_message(data: Seq<u8>) -> Seq<u8> {
    data + seq![0x80u8] + Seq::new(gap(data.len() as int) as nat, |i: int| 0u8) + be64(
        ((data.len() * 8) % 0x1_0000_0000_0000_0000) as u64,
    )
}

/// A word turned left by `n` bits.
pub open spec fn turned(x: u32, n: u32) -> u32 {
    (x << n) | (x >> ((32 - n) as u32))
}

/// Word `t` of the schedule of a block.
pub open spec fn schedule(block: Seq<u8>, t: int) -> u32
    decreases t,
{
    if t < 16 {
        word_at(block, 4 * t)
    } else {
        turned(
            schedule(block, t - 3) ^ schedule(block, t - 8) ^ schedule(block, t - 14) ^ schedule(
                block,
                t - 16,
            ),
            1,
        )
    }
}

/// The logical function of round `t`.
pub open spec fn mix(t: int, b: u32, c: u32, d: u32) -> u32 {
    if t < 20 {
        (b & c) | (!b & d)
    } else if t < 40 {
        b ^ c ^ d
    } else if t < 60 {
        (b & c) | (b & d) | (c & d)
    } else {
        b ^ c ^ d
    }
}

/// The constant of round `t`.
pub open spec fn constant(t: int) -> u32 {
    if t < 20 {
        0x5A82_7999
    } else if t < 40 {
        0x6ED9_EBA1
    } else if t < 60 {
        0x8F1B_BCDC
    } else {
        0xCA62_C1D6
    }
}

/// The state after round `t`.
pub open spec fn round(s: State, t: int, w: u32) -> State {
    State {
        a: turned(s.a, 5).wrapping_add(mix(t, s.b, s.c, s.d)).wrapping_add(s.e).wrapping_add(
            constant(t),
        ).wrapping_add(w),
        b: s.a,
        c: turned(s.b, 30),
        d: s.c,
        e: s.d,
    }
}

/// The state after the first `t` rounds on a block.
pub open spec fn rounds(s: State, block: Seq<u8>, t: int) -> State
    decreases t,
{
    if t <= 0 {
        s
    } else {
        round(rounds(s, block, t - 1), t - 1, schedule(block, t - 1))
    }
}

/// The word-wise sum of two states.
pub open spec fn sum(s: State, r: State) -> State {
    State {
        a: s.a.wrapping_add(r.a),
        b: s.b.wrapping_add(r.b),
        c: s.c.wrapping_add(r.c),
        d: s.d.wrapping_add(r.d),
        e: s.e.wrapping_add(r.e),
    }
}

/// The state after one block.
pub open spec fn compressed(s: State, block: Seq<u8>) -> State {
    sum(s, rounds(s, block, 80))
}

/// The state after the first `n` blocks of a message.
pub open spec fn after_blocks(msg: Seq<u8>, n: int) -> State
    decreases n,
{
    if n <= 0 {
        initial()
    } else {
        compressed(after_blocks(msg, n - 1), msg.subrange(64 * (n - 1), 64 * n))
    }
}

/// The SHA-1 digest of a message.
pub open spec fn digest(data: Seq<u8>) -> Seq<u8> {
    let msg = padded_message(data);
    let s = after_blocks(msg, msg.len() as int / 64);
    be32(s.a) + be32(s.b) + be32(s.c) + be32(s.d) + be32(s.e)
}

fn turn(x: u32, n: u32) -> (r: u32)
    requires
        0 < n < 32,
    ensures
        r == turned(x, n),
{
    (x << n) | (x >> (32 - n))
}

proof fn lemma_skip_sum(a: Seq<u8>, b: Seq<u8>, c: Seq<u8>, d: Seq<u8>, n: int)
    requires
        0 <= n <= a.len(),
    ensures
        (a + b + c + d).skip(n) == a.skip(n) + b + c + d,
{
    assert((a + b + c + d).skip(n) =~= a.skip(n) + b + c + d);
}

fn push_rest(out: &mut Vec<u8>, data: &[u8], from: usize)
    requires
        from <= data@.len(),
    ensures
        final(out)@ == old(out)@ + data@.skip(from as int),
{
    let ghost before = out@;
    let mut i: usize = from;
    assert(before + data@.subrange(from as int, from as int) =~= before);
    while i < data.len()
        invariant
            from <= i <= data@.len(),
            out@ == before + data@.subrange(from as int, i as int),
        decreases data.len() - i,
    {
        out.push(data[i]);
        assert(out@ =~= before + data@.subrange(from as int, i + 1));
        i += 1;
    }
    assert(data@.subrange(from as int, i as int) =~= data@.skip(from as int));
}

fn push_zeros(out: &mut Vec<u8>, count: usize)
    ensures
        final(out)@ == old(out)@ + Seq::new(count as nat, |i: int| 0u8),
{
    let ghost before = out@;
    let mut k: usize = 0;
    assert(before + Seq::new(0nat, |i: int| 0u8) =~= before);
    while k < count
        invariant
            k <= count,
            out@ == before + Seq::new(k as nat, |i: int| 0u8),
        decreases count - k,
    {
        out.push(0);
        assert(out@ =~= before + Seq::new((k + 1) as nat, |i: int| 0u8));
        k += 1;
    }
}

fn push_length(out: &mut Vec<u8>, bits: u64)
    ensures
        final(out)@ == old(out)@ + be64(bits),
{
    let ghost before = out@;
    out.push((bits >> 56) as u8);
    out.push((bits >> 48) as u8);
    out.push((bits >> 40) as u8);
    out.push((bits >> 32) as u8);
    out.push((bits >> 24) as u8);
    out.push((bits >> 16) as u8);
    out.push((bits >> 8) as u8);
    out.push(bits as u8);
    assert(out@ =~= before + be64(bits));
}

/// The bytes after the last whole block of the message itself, filled up to one
/// or two blocks.
fn tail_blocks(data: &[u8]) -> (tail: Vec<u8>)
    ensures
        tail@ == padded_message(data@).skip(64 * (data@.len() as int / 64)),
        tail@.len() == 64 || tail@.len() == 128,
{
    let whole: usize = data.len() / 64 * 64;
    let rest: usize = data.len() % 64;
    let zeros: usize = if rest <= 55 {
        55 - rest
    } else {
        119 - rest
    };
    assert(zeros == gap(data@.len() as int));
    let bits: u64 = (data.len() as u64).wrapping_mul(8);
    let mut tail: Vec<u8> = Vec::new();
    push_rest(&mut tail, data, whole);
    assert(tail@ =~= data@.skip(whole as int));
    tail.push(0x80);
    assert(tail@ =~= data@.skip(whole as int) + seq![0x80u8]);
    push_zeros(&mut tail, zeros);
    push_length(&mut tail, bits);
    proof {
        lemma_skip_sum(
            data@,
            seq![0x80u8],
            Seq::new(zeros as nat, |i: int| 0u8),
            be64(bits),
            whole as int,
        );
    }
    tail
}

fn compress(s: State, msg: &[u8], at: usize) -> (r: State)
    requires
        at + 64 <= msg@.len(),
    ensures
        r == compressed(s, msg@.subrange(at as int, at + 64)),
{
    let ghost block = msg@.subrange(at as int, at + 64);
    let mut w: Vec<u32> = Vec::new();
    let mut i: usize = 0;
    while i < 80
        invariant
            at + 64 <= msg.len(),
            block == msg@.subrange(at as int, at + 64),
            i <= 80,
            w@.len() == i,
            forall|k: int| 0 <= k < i ==> w@[k] == schedule(block, k),
        decreases 80 - i,
    {
        let x: u32 = if i < 16 {
            let j: usize = at + 4 * i;
            assert(block[4 * i as int] == msg@[j as int]);
            assert(block[4 * i + 1] == msg@[j + 1]);
            assert(block[4 * i + 2] == msg@[j + 2]);
            assert(block[4 * i + 3] == msg@[j + 3]);
            ((msg[j] as u32) << 24) | ((msg[j + 1] as u32) << 16) | ((msg[j + 2] as u32) << 8) | (
            msg[j + 3] as u32)
        } else {
            assert(w@[i - 3] == schedule(block, i - 3));
            assert(w@[i - 8] == schedule(block, i - 8));
            assert(w@[i - 14] == schedule(block, i - 14));
            assert(w@[i - 16] == schedule(block, i - 16));
            turn(w[i - 3] ^ w[i - 8] ^ w[i - 14] ^ w[i - 16], 1)
        };
        assert(x == schedule(block, i as int));
        w.push(x);
        i += 1;
    }
    let mut t: usize = 0;
    let mut r = s;
    while t < 80
        invariant
            t <= 80,
            w@.len() == 80,
            forall|k: int| 0 <= k < 80 ==> w@[k] == schedule(block, k),
            r == rounds(s, block, t as int),
        decreases 80 - t,
    {
        let f: u32 = if t < 20 {
            (r.b & r.c) | (!r.b & r.d)
        } else if t < 40 {
            r.b ^ r.c ^ r.d
        } else if t < 60 {
            (r.b & r.c) | (r.b & r.d) | (r.c & r.d)
        } else {
            r.b ^ r.c ^ r.d
        };
        let k: u32 = if t < 20 {
            0x5A82_7999
        } else if t < 40 {
            0x6ED9_EBA1
        } else if t < 60 {
            0x8F1B_BCDC
        } else {
            0xCA62_C1D6
        };
        let a: u32 = turn(r.a, 5).wrapping_add(f).wrapping_add(r.e).wrapping_add(k).wrapping_add(
            w[t],
        );
        r = State { a, b: r.a, c: turn(r.b, 30), d: r.c, e: r.d };
        t += 1;
    }
    State {
        a: s.a.wrapping_add(r.a),
        b: s.b.wrapping_add(r.b),
        c: s.c.wrapping_add(r.c),
        d: s.d.wrapping_add(r.d),
        e: s.e.wrapping_add(r.e),
    }
}

fn push_word(out: &mut Vec<u8>, n: u32)
    ensures
        final(out)@ == old(out)@ + be32(n),
{
    let ghost before = out@;
    out.push((n >> 24) as u8);
    out.push((n >> 16) as u8);
    out.push((n >> 8) as u8);
    out.push(n as u8);
    assert(out@ =~= before + be32(n));
}

/// The SHA-1 digest of a message.
pub fn sha1(data: &[u8]) -> (r: Vec<u8>)
    ensures
        r@ == digest(data@),
        r@.len() == 20,
{
    let ghost msg = padded_message(data@);
    let whole: usize = data.len() / 64;
    let mut s = State {
        a: 0x6745_2301,
        b: 0xEFCD_AB89,
        c: 0x98BA_DCFE,
        d: 0x1032_5476,
        e: 0xC3D2_E1F0,
    };
    let mut n: usize = 0;
    while n < whole
        invariant
            n <= whole,
            whole == data.len() / 64,
            msg == padded_message(data@),
            s == after_blocks(msg, n as int),
        decreases whole - n,
    {
        assert(data@.subrange(n * 64, n * 64 + 64) =~= msg.subrange(64 * n as int, 64 * (n + 1)));
        s = compress(s, data, n * 64);
        n += 1;
    }
    let tail = tail_blocks(data);
    let ghost at = 64 * whole as int;
    assert(msg.len() == at + tail@.len());
    assert(tail@.subrange(0, 64) =~= msg.subrange(at, at + 64));
    s = compress(s, tail.as_slice(), 0);
    assert(s == after_blocks(msg, whole + 1));
    if tail.len() == 128 {
        assert(tail@.subrange(64, 128) =~= msg.subrange(at + 64, at + 128));
        s = compress(s, tail.as_slice(), 64);
        assert(s == after_blocks(msg, whole + 2));
    }
    let mut out: Vec<u8> = Vec::new();
    push_word(&mut out, s.a);
    push_word(&mut out, s.b);
    push_word(&mut out, s.c);
    push_word(&mut out, s.d);
    push_word(&mut out, s.e);
    assert(out@ =~= digest(data@));
    out
}

/// The first `n` hexadecimal digits of the SHA-1 digest of a text's UTF-8 bytes.
pub open spec fn hex_prefix(s: Seq<char>, n: int) -> Seq<char> {
    let hex = text::hex_text(digest(vstd::utf8::encode_utf8(s)));
    hex.take(if n < 40 {
        n
    } else {
        40
    })
}

/// The first `n` hexadecimal digits of the SHA-1 digest of a text.
pub fn sha1_hex_prefix(s: &str, n: usize) -> (r: String)
    ensures
        r@ == hex_prefix(s@, n as int),
{
    let d = sha1(s.as_bytes());
    let hex = text::hex(&d);
    let chars = text::chars_of(hex.as_str());
    let keep: usize = if n < 40 {
        n
    } else {
        40
    };
    proof {
        text::lemma_hex_len(d@);
        assert(chars@.subrange(0, keep as int) =~= chars@.take(keep as int));
    }
    text::text_between(&chars, 0, keep)
}

// ---------------------------------------------------------------------------
// Laws
// ---------------------------------------------------------------------------

/// A message is filled up to whole blocks, with no block more than it needs: it stands in
/// front, a mark follows, and all between the mark and the last eight bytes is zero.
pub proof fn law_messages_fill_whole_blocks(data: Seq<u8>, i: int)
    ensures
        ({
            let p = padded_message(data);
            &&& p.len() % 64 == 0
            &&& data.len() + 9 <= p.len() < data.len() + 9 + 64
            &&& p.take(data.len() as int) == data
            &&& p[data.len() as int] == 0x80
            &&& data.len() < i < p.len() - 8 ==> p[i] == 0
        }),
{
    let n = data.len() as int;
    let p = padded_message(data);
    let g = gap(n);
    assert(0 <= g < 64);
    assert((n + 9 + g) % 64 == 0);
    assert(p.len() == n + 9 + g);
    assert(p.take(n) =~= data);
}

/// The last eight bytes of a message that was filled up give its length in bits, highest
/// first.
pub proof fn law_the_length_ends_the_message(data: Seq<u8>)
    requires
        data.len() < 32,
    ensures
        ({
            let p = padded_message(data);
            &&& p.len() == 64
            &&& p[63] == data.len() * 8
            &&& forall|i: int| 56 <= i < 63 ==> #[trigger] p[i] == 0
        }),
{
    let p = padded_message(data);
    let n = ((data.len() * 8) % 0x1_0000_0000_0000_0000) as u64;
    assert(n == data.len() * 8);
    assert(n < 256 ==> (n >> 56) as u8 == 0 && (n >> 48) as u8 == 0 && (n >> 40) as u8 == 0 && (n
        >> 32) as u8 == 0 && (n >> 24) as u8 == 0 && (n >> 16) as u8 == 0 && (n >> 8) as u8 == 0
        && n as u8 == n) by (bit_vector);
    let t = be64(n);
    assert(p.len() == 64);
    assert forall|i: int| 56 <= i < 64 implies #[trigger] p[i] == t[i - 56] by {}
}

/// A digest is twenty bytes, and its text forty digits; a prefix of it is the start of a
/// longer one.
pub proof fn law_digests_have_a_size(data: Seq<u8>, s: Seq<char>, m: int, n: int)
    requires
        0 <= m <= n <= 40,
    ensures
        digest(data).len() == 20,
        hex_prefix(s, n).len() == n,
        hex_prefix(s, n).take(m) == hex_prefix(s, m),
        hex_prefix(s, 40) == text::hex_text(digest(vstd::utf8::encode_utf8(s))),
        hex_prefix(s, 41) == hex_prefix(s, 40),
{
    let d = digest(vstd::utf8::encode_utf8(s));
    assert(d.len() == 20);
    text::lemma_hex_len(d);
    let hex = text::hex_text(d);
    assert(hex.take(n).take(m) =~= hex.take(m));
    assert(hex.take(40) =~= hex);
}

/// A word is read from the four bytes that it is written as.
pub proof fn law_words_are_read_as_written(n: u32)
    ensures
        word_at(be32(n), 0) == n,
{
    let b = be32(n);
    assert(b[0] == (n >> 24) as u8 && b[1] == (n >> 16) as u8 && b[2] == (n >> 8) as u8 && b[3]
        == n as u8);
    assert((((n >> 24) as u8 as u32) << 24) | (((n >> 16) as u8 as u32) << 16) | (((n
        >> 8) as u8 as u32) << 8) | (n as u8 as u32) == n) by (bit_vector);
}

} // verus!
