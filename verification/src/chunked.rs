//! Bodies that come in chunks: how they are encoded, and what decoding them gives.

use vstd::prelude::*;
use crate::http;
use crate::text;

verus! {

/// A number in small hexadecimal digits, without zeros in front.
pub open spec fn hex_number(n: nat) -> Seq<char>
    decreases n,
{
    if n < 16 {
        seq![text::hex_digit(n as int)]
    } else {
        hex_number(n / 16).push(text::hex_digit(n as int % 16))
    }
}

/// The line that gives a chunk's size, without its end.
pub open spec fn size_line(n: nat) -> Seq<u8> {
    vstd::utf8::encode_utf8(hex_number(n))
}

/// A chunk: its size on a line of its own, its bytes, and the end of a line.
pub open spec fn chunk(c: Seq<u8>) -> Seq<u8> {
    size_line(c.len()) + http::crlf() + c + http::crlf()
}

/// What ends a body: a chunk without bytes, and an empty line.
pub open spec fn last_chunk() -> Seq<u8> {
    size_line(0) + http::crlf() + http::crlf()
}

/// The parts from place `j` on as a body in chunks.
pub open spec fn encoded(parts: Seq<Seq<u8>>, j: int) -> Seq<u8>
    decreases parts.len() - j,
{
    if j < 0 || j >= parts.len() {
        last_chunk()
    } else {
        chunk(parts[j]) + encoded(parts, j + 1)
    }
}

/// The parts from place `j` on, one after the other.
pub open spec fn together(parts: Seq<Seq<u8>>, j: int) -> Seq<u8>
    decreases parts.len() - j,
{
    if j < 0 || j >= parts.len() {
        Seq::empty()
    } else {
        parts[j] + together(parts, j + 1)
    }
}

/// Whether every part has bytes, and no more than a machine can count.
pub open spec fn can_be_sent(parts: Seq<Seq<u8>>) -> bool {
    forall|i: int| 0 <= i < parts.len() ==> 0 < (#[trigger] parts[i]).len() <= usize::MAX
}

spec fn hex_char(c: char) -> bool {
    '0' <= c <= '9' || 'a' <= c <= 'f'
}

proof fn lemma_hex_number(n: nat)
    ensures
        hex_number(n).len() > 0,
        forall|i: int| 0 <= i < hex_number(n).len() ==> hex_char(#[trigger] hex_number(n)[i]),
        text::digits_value(hex_number(n), 16) == Some(n as int),
    decreases n,
{
    let s = hex_number(n);
    if n < 16 {
        assert(s.drop_last() =~= Seq::empty());
        assert(text::digits_value(s.drop_last(), 16) == Some(0int));
        assert(text::digit_value(s.last(), 16) == Some(n as int));
    } else {
        lemma_hex_number(n / 16);
        assert(s.drop_last() =~= hex_number(n / 16));
        assert(text::digit_value(s.last(), 16) == Some(n as int % 16));
    }
}

proof fn lemma_size_line(n: nat)
    requires
        n <= usize::MAX,
    ensures
        http::chunk_size(size_line(n)) == Some(n as int),
        size_line(n).len() > 0,
        forall|i: int| 0 <= i < size_line(n).len() ==> #[trigger] size_line(n)[i] != 13u8,
{
    let s = hex_number(n);
    lemma_hex_number(n);
    assert(vstd::utf8::is_ascii_chars(s)) by {
        assert forall|i: int| 0 <= i < s.len() implies '\0' <= #[trigger] s[i] <= '\u{7f}' by {
            assert(hex_char(s[i]));
        }
    }
    vstd::utf8::is_ascii_chars_encode_utf8(s);
    vstd::utf8::encode_utf8_valid_utf8(s);
    vstd::utf8::encode_utf8_decode_utf8(s);
    assert forall|i: int| 0 <= i < size_line(n).len() implies #[trigger] size_line(n)[i]
        != 13u8 by {
        assert(hex_char(s[i]));
        assert(s[i] as u8 == size_line(n)[i]);
        assert(48 <= (s[i] as u8) <= 102);
    }
    text::lemma_index_of(s, ';');
    if text::index_of(s, ';') < s.len() {
        assert(hex_char(s[text::index_of(s, ';')]));
    }
    assert(s.take(s.len() as int) =~= s);
    assert(hex_char(s[0]) && hex_char(s[s.len() - 1]));
    assert(text::trimmed(s) == s);
}

/// The first line's end from a place on, or none where it is not all there.
proof fn lemma_line_end(d: Seq<u8>, i: int, len: int)
    requires
        0 <= i <= d.len(),
        0 <= len,
        forall|k: int| i <= k < i + len && k < d.len() ==> #[trigger] d[k] != 13u8,
        i + len < d.len() ==> d[i + len] == 13u8,
        i + len + 1 < d.len() ==> d[i + len + 1] == 10u8,
    ensures
        text::seek(d, http::crlf(), i) == (if i + len + 2 <= d.len() {
            Some(i + len)
        } else {
            None
        }),
    decreases len,
{
    if i + 2 <= d.len() {
        let here = d.subrange(i, i + 2);
        assert(here[0] == d[i] && here[1] == d[i + 1]);
        if len == 0 {
            assert(here =~= http::crlf());
        } else {
            assert(here != http::crlf());
            lemma_line_end(d, i + 1, len - 1);
        }
    }
}

proof fn lemma_decoded(d: Seq<u8>, i: int, parts: Seq<Seq<u8>>, j: int)
    requires
        can_be_sent(parts),
        0 <= j <= parts.len(),
        0 <= i <= d.len(),
        d.len() - i <= encoded(parts, j).len(),
        d.skip(i) == encoded(parts, j).take(d.len() - i),
    ensures
        http::chunks_from(d, i) == (if d.len() - i >= encoded(parts, j).len() - 2 {
            Some(together(parts, j))
        } else {
            None
        }),
    decreases parts.len() - j,
{
    let t = encoded(parts, j);
    let n: nat = if j < parts.len() {
        parts[j].len()
    } else {
        0
    };
    let line = size_line(n);
    let len = line.len() as int;
    let crlf = http::crlf();
    lemma_size_line(n);
    assert forall|k: int| i <= k < d.len() implies #[trigger] d[k] == t[k - i] by {
        assert(d.skip(i)[k - i] == d[k]);
    }
    assert(t.take(len) =~= line);
    assert forall|k: int| i <= k < i + len && k < d.len() implies #[trigger] d[k] != 13u8 by {
        assert(t.take(len)[k - i] == line[k - i]);
    }
    assert(t[len] == crlf[0] && t[len + 1] == crlf[1]);
    lemma_line_end(d, i, len);
    if i + len + 2 <= d.len() {
        let e = i + len;
        assert(d.subrange(i, e) =~= line) by {
            assert forall|k: int| 0 <= k < len implies d.subrange(i, e)[k] == #[trigger] line[k] by {
                assert(d[i + k] == t.take(len)[k]);
            }
        }
        if j < parts.len() {
            let c = parts[j];
            let rest = encoded(parts, j + 1);
            let after = e + 2 + n;
            assert(t =~= line + crlf + c + crlf + rest);
            if after + 2 <= d.len() {
                assert(d.subrange(after, after + 2) =~= crlf) by {
                    assert(d[after] == t[after - i] && d[after + 1] == t[after + 1 - i]);
                }
                assert(d.subrange(e + 2, after) =~= c) by {
                    assert forall|k: int| 0 <= k < n implies d.subrange(e + 2, after)[k]
                        == #[trigger] c[k] by {
                        assert(d[e + 2 + k] == t[e + 2 + k - i]);
                    }
                }
                assert(d.skip(after + 2) =~= rest.take(d.len() - (after + 2))) by {
                    assert forall|k: int| 0 <= k < d.len() - (after + 2) implies d.skip(after + 2)[k]
                        == #[trigger] rest[k] by {
                        assert(d[after + 2 + k] == t[after + 2 + k - i]);
                    }
                }
                lemma_decoded(d, after + 2, parts, j + 1);
            } else {
                lemma_ends_late(parts, j + 1);
            }
        } else {
            assert(t =~= line + crlf + crlf);
        }
    } else if j < parts.len() {
        lemma_ends_late(parts, j + 1);
    }
}

/// Something with a line of its own always follows.
proof fn lemma_ends_late(parts: Seq<Seq<u8>>, j: int)
    requires
        can_be_sent(parts),
        0 <= j <= parts.len(),
    ensures
        encoded(parts, j).len() > 4,
{
    if j < parts.len() {
        lemma_size_line(parts[j].len());
    } else {
        lemma_size_line(0);
    }
}

/// Decoding undoes encoding: parts that all have bytes come back, one after the
/// other; and what is cut off before the line of the last chunk is complete gives
/// nothing.
pub proof fn law_decoding_undoes_encoding(parts: Seq<Seq<u8>>, n: int)
    requires
        can_be_sent(parts),
        0 <= n <= encoded(parts, 0).len(),
    ensures
        http::chunks_from(encoded(parts, 0), 0) == Some(together(parts, 0)),
        n < encoded(parts, 0).len() - 2 ==> http::chunks_from(encoded(parts, 0).take(n), 0) is None,
{
    let all = encoded(parts, 0);
    assert(all.skip(0) =~= all.take(all.len() as int));
    lemma_decoded(all, 0, parts, 0);
    let cut = all.take(n);
    assert(cut.skip(0) =~= all.take(n));
    lemma_decoded(cut, 0, parts, 0);
}

} // verus!
