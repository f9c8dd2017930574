//! Text helpers over characters: white space, folding, trimming, searching and
//! printing numbers.

use vstd::prelude::*;

verus! {

/// `String::push` of the standard library: appends one character.
pub assume_specification[ String::push ](s: &mut String, c: char)
    ensures
        final(s)@ == old(s)@.push(c),
;

/// `str == str` of the standard library: equality of the texts.
pub assume_specification[ <str as PartialEq>::eq ](a: &str, b: &str) -> (r: bool)
    ensures
        r == (a@ == b@),
;

/// The characters of `s`, in order.
pub fn chars_of(s: &str) -> (v: Vec<char>)
    ensures
        v@ == s@,
{
    let mut v: Vec<char> = Vec::new();
    for c in it: s.chars()
        invariant
            it.seq() == s@,
            v@ == s@.take(it.index() as int),
    {
        v.push(c);
    }
    v
}

/// The text made of `v[from..to]`.
pub fn text_between(v: &Vec<char>, from: usize, to: usize) -> (s: String)
    requires
        from <= to <= v@.len(),
    ensures
        s@ == v@.subrange(from as int, to as int),
{
    let mut s = String::new();
    let mut i: usize = from;
    while i < to
        invariant
            from <= i <= to <= v@.len(),
            s@ == v@.subrange(from as int, i as int),
        decreases to - i,
    {
        s.push(v[i]);
        i += 1;
    }
    s
}

/// Whether two texts are equal.
pub fn same(a: &str, b: &str) -> (r: bool)
    ensures
        r == (a@ == b@),
{
    a.eq(b)
}

/// The decimal digits of a natural number, without leading zeros.
pub open spec fn decimal_text(n: nat) -> Seq<char>
    decreases n,
{
    if n < 10 {
        seq![digit(n)]
    } else {
        decimal_text(n / 10).push(digit(n % 10))
    }
}

/// The character of a decimal digit.
pub open spec fn digit(d: nat) -> char {
    ('0' as u32 + d) as char
}

/// The decimal form of an integer.
pub open spec fn int_text(n: int) -> Seq<char> {
    if n < 0 {
        seq!['-'] + decimal_text((-n) as nat)
    } else {
        decimal_text(n as nat)
    }
}

/// The character of a decimal digit.
pub fn digit_char(d: u8) -> (c: char)
    requires
        d < 10,
    ensures
        c == digit(d as nat),
{
    (48u8 + d) as char
}

/// Prints a natural number in decimal.
pub fn decimal(n: u64) -> (r: String)
    ensures
        r@ == decimal_text(n as nat),
    decreases n,
{
    let d = digit_char((n % 10) as u8);
    let mut r = if n < 10 {
        String::new()
    } else {
        decimal(n / 10)
    };
    r.push(d);
    r
}

/// Prints an integer in decimal.
pub fn decimal_signed(n: i64) -> (r: String)
    ensures
        r@ == int_text(n as int),
{
    if n < 0 {
        let m: u64 = (-(n as i128)) as u64;
        let mut r = String::new();
        r.push('-');
        r.append(decimal(m).as_str());
        r
    } else {
        decimal(n as u64)
    }
}

/// The decimal digits of a natural number, with zeros in front to make up at
/// least `width` of them.
pub open spec fn padded(n: nat, width: nat) -> Seq<char>
    decreases n + width,
{
    if n == 0 && width == 0 {
        Seq::empty()
    } else {
        padded(
            n / 10,
            if width == 0 {
                0
            } else {
                (width - 1) as nat
            },
        ).push(digit(n % 10))
    }
}

/// Prints a natural number in decimal with at least `width` digits.
pub fn pad(n: u64, width: u8) -> (r: String)
    ensures
        r@ == padded(n as nat, width as nat),
    decreases n + width,
{
    if n == 0 && width == 0 {
        String::new()
    } else {
        let mut r = pad(
            n / 10,
            if width == 0 {
                0
            } else {
                width - 1
            },
        );
        r.push(digit_char((n % 10) as u8));
        r
    }
}

/// A power of ten.
pub open spec fn power_of_ten(n: nat) -> nat
    decreases n,
{
    if n == 0 {
        1
    } else {
        10 * power_of_ten((n - 1) as nat)
    }
}

/// A number that takes no more digits than asked for gets just these.
pub proof fn lemma_padded_len(n: nat, width: nat)
    requires
        n < power_of_ten(width),
    ensures
        padded(n, width).len() == width,
    decreases width,
{
    if width > 0 {
        lemma_padded_len(n / 10, (width - 1) as nat);
    }
}

/// Whether a text comes before another in the order of their characters: at the
/// first place where they differ its character is the smaller one, or it ends there.
pub open spec fn before(a: Seq<char>, b: Seq<char>) -> bool {
    exists|k: int| #[trigger] differ_first(a, b, k)
}

/// Whether a text comes before another by what stands at place `k`, up to which the
/// two agree.
pub open spec fn differ_first(a: Seq<char>, b: Seq<char>, k: int) -> bool {
    &&& 0 <= k <= a.len()
    &&& k < b.len()
    &&& a.take(k) == b.take(k)
    &&& k == a.len() || a[k] < b[k]
}

/// Texts of one length stay in order whatever follows them.
pub proof fn lemma_before_longer(a: Seq<char>, b: Seq<char>, x: Seq<char>, y: Seq<char>)
    requires
        a.len() == b.len(),
        before(a, b),
    ensures
        before(a + x, b + y),
{
    let k = choose|k: int| #[trigger] differ_first(a, b, k);
    assert((a + x).take(k) =~= a.take(k));
    assert((b + y).take(k) =~= b.take(k));
    assert(differ_first(a + x, b + y, k));
}

/// Texts stay in order behind the same beginning.
pub proof fn lemma_before_after(p: Seq<char>, a: Seq<char>, b: Seq<char>)
    requires
        before(a, b),
    ensures
        before(p + a, p + b),
{
    let k = choose|k: int| #[trigger] differ_first(a, b, k);
    let n = p.len() as int;
    assert((p + a).take(n + k) =~= p + a.take(k));
    assert((p + b).take(n + k) =~= p + b.take(k));
    assert(differ_first(p + a, p + b, n + k));
}

/// Numbers with the same number of digits are ordered as their texts are.
pub proof fn lemma_padded_before(a: nat, b: nat, width: nat)
    requires
        a < b < power_of_ten(width),
    ensures
        before(padded(a, width), padded(b, width)),
    decreases width,
{
    if width > 0 {
        let less = (width - 1) as nat;
        let x = padded(a / 10, less);
        let y = padded(b / 10, less);
        lemma_padded_len(a / 10, less);
        lemma_padded_len(b / 10, less);
        assert(padded(a, width) =~= x + seq![digit(a % 10)]);
        assert(padded(b, width) =~= y + seq![digit(b % 10)]);
        if a / 10 < b / 10 {
            lemma_padded_before(a / 10, b / 10, less);
            lemma_before_longer(x, y, seq![digit(a % 10)], seq![digit(b % 10)]);
        } else {
            assert(a / 10 == b / 10);
            let s = seq![digit(a % 10)];
            let t = seq![digit(b % 10)];
            assert(s.take(0) =~= t.take(0));
            assert(differ_first(s, t, 0));
            lemma_before_after(x, s, t);
        }
    }
}

// ---------------------------------------------------------------------------
// Characters
// ---------------------------------------------------------------------------

/// The Unicode property `White_Space`.
pub open spec fn white(c: char) -> bool {
    let n = c as u32;
    ||| 9 <= n <= 13
    ||| n == 0x20
    ||| n == 0x85
    ||| n == 0xA0
    ||| n == 0x1680
    ||| 0x2000 <= n <= 0x200A
    ||| n == 0x2028
    ||| n == 0x2029
    ||| n == 0x202F
    ||| n == 0x205F
    ||| n == 0x3000
}

/// Whether a character is white space.
pub fn is_white(c: char) -> (r: bool)
    ensures
        r == white(c),
{
    let n: u32 = c as u32;
    (9 <= n && n <= 13) || n == 0x20 || n == 0x85 || n == 0xA0 || n == 0x1680 || (0x2000 <= n && n
        <= 0x200A) || n == 0x2028 || n == 0x2029 || n == 0x202F || n == 0x205F || n == 0x3000
}

/// The ASCII letters and digits.
pub open spec fn alnum(c: char) -> bool {
    ('a' <= c && c <= 'z') || ('A' <= c && c <= 'Z') || ('0' <= c && c <= '9')
}

/// Whether a character is an ASCII letter or digit.
pub fn is_alnum(c: char) -> (r: bool)
    ensures
        r == alnum(c),
{
    ('a' <= c && c <= 'z') || ('A' <= c && c <= 'Z') || ('0' <= c && c <= '9')
}

/// A character with ASCII capitals made small.
pub open spec fn lower(c: char) -> char {
    if 'A' <= c && c <= 'Z' {
        (c as u32 + 32) as char
    } else {
        c
    }
}

/// A character with ASCII capitals made small.
pub fn lower_char(c: char) -> (r: char)
    ensures
        r == lower(c),
{
    if 'A' <= c && c <= 'Z' {
        let n: u8 = c as u8;
        (n + 32) as char
    } else {
        c
    }
}

/// A text with ASCII capitals made small.
pub open spec fn lowered(s: Seq<char>) -> Seq<char> {
    s.map_values(|c: char| lower(c))
}

/// A text with ASCII capitals made small.
pub fn to_lower(s: &str) -> (r: String)
    ensures
        r@ == lowered(s@),
{
    let mut r = String::new();
    for c in it: s.chars()
        invariant
            it.seq() == s@,
            r@ == lowered(s@.take(it.index() as int)),
    {
        r.push(lower_char(c));
        assert(r@ =~= lowered(s@.take(it.index() as int + 1)));
    }
    assert(s@.take(s@.len() as int) =~= s@);
    r
}

// ---------------------------------------------------------------------------
// Joining
// ---------------------------------------------------------------------------

/// Two texts, one after the other.
pub fn cat2(a: &str, b: &str) -> (r: String)
    ensures
        r@ == a@ + b@,
{
    let mut r = a.to_owned();
    r.append(b);
    r
}

/// Three texts, one after the other.
pub fn cat3(a: &str, b: &str, c: &str) -> (r: String)
    ensures
        r@ == a@ + b@ + c@,
{
    let mut r = a.to_owned();
    r.append(b);
    r.append(c);
    r
}

/// The texts of `parts` with `sep` between neighbours.
pub open spec fn joined(parts: Seq<Seq<char>>, sep: Seq<char>) -> Seq<char>
    decreases parts.len(),
{
    if parts.len() == 0 {
        Seq::empty()
    } else if parts.len() == 1 {
        parts[0]
    } else {
        joined(parts.drop_last(), sep) + sep + parts.last()
    }
}

/// The views of a sequence of texts.
pub open spec fn texts(v: Seq<String>) -> Seq<Seq<char>> {
    v.map_values(|s: String| s@)
}

/// The texts of `parts` with `sep` between neighbours.
pub fn join(parts: &Vec<String>, sep: &str) -> (r: String)
    ensures
        r@ == joined(texts(parts@), sep@),
{
    let mut r = String::new();
    let mut i: usize = 0;
    let ghost all = texts(parts@);
    while i < parts.len()
        invariant
            all == texts(parts@),
            i <= parts@.len(),
            r@ == joined(all.take(i as int), sep@),
        decreases parts.len() - i,
    {
        proof {
            let next = all.take(i as int + 1);
            assert(next.drop_last() =~= all.take(i as int));
            assert(next.last() == parts@[i as int]@);
        }
        if i > 0 {
            r.append(sep);
        } else {
            assert(r@ =~= Seq::<char>::empty());
            assert(Seq::<char>::empty() + parts@[0]@ =~= parts@[0]@);
        }
        r.append(parts[i].as_str());
        i += 1;
    }
    assert(all.take(i as int) =~= all);
    r
}

// ---------------------------------------------------------------------------
// White space
// ---------------------------------------------------------------------------

/// A text with leading and trailing white space removed and every inner run of
/// white space replaced by one blank: characters that are not white are kept,
/// and one blank goes before each that follows white space and is not the
/// first.
pub open spec fn folded(s: Seq<char>) -> Seq<char>
    decreases s.len(),
{
    if s.len() == 0 {
        s
    } else {
        let head = folded(s.drop_last());
        if white(s.last()) {
            head
        } else if head.len() > 0 && white(s[s.len() - 2]) {
            head.push(' ').push(s.last())
        } else {
            head.push(s.last())
        }
    }
}

/// [`folded`], cut to `n` characters: where it is longer, its last character
/// is an ellipsis.
pub open spec fn collapsed(s: Seq<char>, n: nat) -> Seq<char> {
    cut(folded(s), n)
}

/// A text of more than `n` characters is cut to `n`, the last one an ellipsis;
/// a shorter one stays.
pub open spec fn cut(s: Seq<char>, n: nat) -> Seq<char> {
    if s.len() > n {
        s.take(if n == 0 {
            0
        } else {
            n - 1
        }).push('…')
    } else {
        s
    }
}

/// Cuts a text to `n` characters.
pub fn cut_text(s: &str, n: usize) -> (r: String)
    ensures
        r@ == cut(s@, n as nat),
{
    let chars = chars_of(s);
    cut_chars(&chars, n)
}

/// Cuts a text, given by its characters, to `n` of them.
pub fn cut_chars(chars: &Vec<char>, n: usize) -> (r: String)
    ensures
        r@ == cut(chars@, n as nat),
{
    if chars.len() > n {
        let keep: usize = if n == 0 {
            0
        } else {
            n - 1
        };
        let mut r = text_between(chars, 0, keep);
        r.push('…');
        assert(chars@.subrange(0, keep as int) =~= chars@.take(keep as int));
        r
    } else {
        let r = text_between(chars, 0, chars.len());
        assert(chars@.subrange(0, chars@.len() as int) =~= chars@);
        r
    }
}

/// Folds white space; gives the characters.
pub fn fold_chars(text: &str) -> (out: Vec<char>)
    ensures
        out@ == folded(text@),
{
    let mut out: Vec<char> = Vec::new();
    let mut after_white = false;
    for c in it: text.chars()
        invariant
            it.seq() == text@,
            out@ == folded(text@.take(it.index() as int)),
            after_white == (it.index() > 0 && white(text@[it.index() - 1])),
    {
        proof {
            let next = text@.take(it.index() as int + 1);
            assert(next.drop_last() =~= text@.take(it.index() as int));
            assert(next.last() == c);
        }
        if is_white(c) {
            after_white = true;
        } else {
            if out.len() > 0 && after_white {
                out.push(' ');
            }
            out.push(c);
            after_white = false;
        }
    }
    assert(text@.take(text@.len() as int) =~= text@);
    out
}

/// Folds white space and cuts to `n` characters.
pub fn collapse(text: &str, n: usize) -> (r: String)
    ensures
        r@ == collapsed(text@, n as nat),
{
    cut_chars(&fold_chars(text), n)
}

/// A text without its leading white space.
pub open spec fn trimmed_start(s: Seq<char>) -> Seq<char>
    decreases s.len(),
{
    if s.len() > 0 && white(s[0]) {
        trimmed_start(s.drop_first())
    } else {
        s
    }
}

/// A text without its trailing white space.
pub open spec fn trimmed_end(s: Seq<char>) -> Seq<char>
    decreases s.len(),
{
    if s.len() > 0 && white(s.last()) {
        trimmed_end(s.drop_last())
    } else {
        s
    }
}

/// A text without white space around it.
pub open spec fn trimmed(s: Seq<char>) -> Seq<char> {
    trimmed_end(trimmed_start(s))
}

/// A text without white space around it.
pub fn trim(s: &str) -> (r: String)
    ensures
        r@ == trimmed(s@),
{
    let v = chars_of(s);
    trim_chars(&v)
}

/// A text, given by its characters, without white space around it.
pub fn trim_chars(v: &Vec<char>) -> (r: String)
    ensures
        r@ == trimmed(v@),
{
    let mut i: usize = 0;
    assert(v@.skip(0) =~= v@);
    while i < v.len() && is_white(v[i])
        invariant
            i <= v@.len(),
            trimmed_start(v@) == trimmed_start(v@.skip(i as int)),
        decreases v.len() - i,
    {
        assert(v@.skip(i as int).drop_first() =~= v@.skip(i as int + 1));
        i += 1;
    }
    let mut j: usize = v.len();
    assert(v@.subrange(i as int, j as int) =~= v@.skip(i as int));
    while j > i && is_white(v[j - 1])
        invariant
            i <= j <= v@.len(),
            trimmed_end(v@.skip(i as int)) == trimmed_end(v@.subrange(i as int, j as int)),
        decreases j,
    {
        assert(v@.subrange(i as int, j as int).drop_last() =~= v@.subrange(i as int, j - 1));
        j -= 1;
    }
    text_between(v, i, j)
}

/// The characters up to the first white space.
pub open spec fn word(s: Seq<char>) -> Seq<char>
    decreases s.len(),
{
    if s.len() == 0 || white(s[0]) {
        Seq::empty()
    } else {
        seq![s[0]] + word(s.drop_first())
    }
}

/// The second of the words that white space parts; empty when there is none.
pub open spec fn second_word(s: Seq<char>) -> Seq<char> {
    let t = trimmed_start(s);
    word(trimmed_start(t.skip(word(t).len() as int)))
}

fn skip_white(v: &Vec<char>, from: usize) -> (i: usize)
    requires
        from <= v@.len(),
    ensures
        from <= i <= v@.len(),
        v@.skip(i as int) == trimmed_start(v@.skip(from as int)),
{
    let mut i: usize = from;
    while i < v.len() && is_white(v[i])
        invariant
            from <= i <= v@.len(),
            trimmed_start(v@.skip(from as int)) == trimmed_start(v@.skip(i as int)),
        decreases v.len() - i,
    {
        assert(v@.skip(i as int).drop_first() =~= v@.skip(i as int + 1));
        i += 1;
    }
    i
}

fn skip_word(v: &Vec<char>, from: usize) -> (i: usize)
    requires
        from <= v@.len(),
    ensures
        from <= i <= v@.len(),
        word(v@.skip(from as int)) == v@.subrange(from as int, i as int),
{
    let ghost all = word(v@.skip(from as int));
    let mut i: usize = from;
    assert(v@.subrange(from as int, from as int) + all =~= all);
    while i < v.len() && !is_white(v[i])
        invariant
            from <= i <= v@.len(),
            all == v@.subrange(from as int, i as int) + word(v@.skip(i as int)),
        decreases v.len() - i,
    {
        assert(v@.skip(i as int).drop_first() =~= v@.skip(i as int + 1));
        assert(v@.subrange(from as int, i as int) + (seq![v@[i as int]] + word(
            v@.skip(i as int + 1),
        )) =~= v@.subrange(from as int, i + 1) + word(v@.skip(i as int + 1)));
        i += 1;
    }
    assert(v@.subrange(from as int, i as int) + Seq::<char>::empty() =~= v@.subrange(
        from as int,
        i as int,
    ));
    i
}

/// The second of the words that white space parts.
pub fn read_second_word(s: &str) -> (r: String)
    ensures
        r@ == second_word(s@),
{
    let v = chars_of(s);
    assert(v@.skip(0) =~= v@);
    let a: usize = skip_white(&v, 0);
    let b: usize = skip_word(&v, a);
    proof {
        let t = v@.skip(a as int);
        assert(word(t).len() == b - a);
        assert(t.skip(b - a) =~= v@.skip(b as int));
    }
    let c: usize = skip_white(&v, b);
    let d: usize = skip_word(&v, c);
    text_between(&v, c, d)
}

/// Whether white space stands only singly, as a blank, and not in front.
pub open spec fn spaced(s: Seq<char>) -> bool {
    forall|i: int|
        0 <= i < s.len() && white(#[trigger] s[i]) ==> s[i] == ' ' && i > 0 && !white(s[i - 1])
}

proof fn lemma_folded_spaced(s: Seq<char>)
    ensures
        spaced(folded(s)),
        folded(s).len() > 0 ==> !white(folded(s).last()),
    decreases s.len(),
{
    if s.len() > 0 {
        lemma_folded_spaced(s.drop_last());
    }
}

proof fn lemma_fold_spaced(s: Seq<char>)
    requires
        spaced(s),
    ensures
        folded(s) == (if s.len() > 0 && white(s.last()) {
            s.drop_last()
        } else {
            s
        }),
    decreases s.len(),
{
    if s.len() > 0 {
        let head = s.drop_last();
        assert forall|i: int| 0 <= i < head.len() && white(#[trigger] head[i]) implies head[i] == ' '
            && i > 0 && !white(head[i - 1]) by {
            assert(s[i] == head[i]);
        }
        lemma_fold_spaced(head);
        assert(s =~= head.push(s.last()));
        if head.len() > 0 && white(head.last()) && !white(s.last()) {
            assert(s[s.len() - 2] == ' ');
            assert(head =~= head.drop_last().push(' '));
        }
        if white(s.last()) {
            assert(s[s.len() - 1] == s.last());
        }
    }
}

/// A folded text has white space only singly, between other characters, and
/// folding it again changes nothing.
pub proof fn law_folding_twice(s: Seq<char>)
    ensures
        folded(folded(s)) == folded(s),
        spaced(folded(s)),
{
    lemma_folded_spaced(s);
    lemma_fold_spaced(folded(s));
}

/// A collapsed text has at most `n` characters, just `n` where it was cut, and
/// collapsing it again changes nothing.
pub proof fn law_collapsing(s: Seq<char>, n: nat)
    ensures
        n > 0 ==> collapsed(s, n).len() <= n,
        n > 0 && folded(s).len() > n ==> collapsed(s, n).len() == n && collapsed(s, n).last() == '…',
        folded(s).len() <= n ==> collapsed(s, n) == folded(s),
        collapsed(collapsed(s, n), n) == collapsed(s, n),
{
    lemma_folded_spaced(s);
    let f = folded(s);
    let c = collapsed(s, n);
    lemma_fold_spaced(f);
    if f.len() > n {
        assert(!white('…'));
        assert forall|i: int| 0 <= i < c.len() && white(#[trigger] c[i]) implies c[i] == ' ' && i > 0
            && !white(c[i - 1]) by {
            assert(c[i] == f[i]);
        }
        lemma_fold_spaced(c);
        assert(folded(c) == c);
        if n == 0 {
            assert(cut(c, 0) =~= c);
        }
    }
}

// ---------------------------------------------------------------------------
// Searching
// ---------------------------------------------------------------------------

/// Whether `p` stands in `s` at place `i`.
pub open spec fn occurs_at(s: Seq<char>, p: Seq<char>, i: int) -> bool {
    0 <= i && i + p.len() <= s.len() && s.subrange(i, i + p.len()) == p
}

/// Whether `p` stands somewhere in `s`.
pub open spec fn contains(s: Seq<char>, p: Seq<char>) -> bool {
    exists|i: int| occurs_at(s, p, i)
}

/// Whether `s` starts with `p`.
pub open spec fn starts_with(s: Seq<char>, p: Seq<char>) -> bool {
    occurs_at(s, p, 0)
}

/// Whether `s` ends with `p`.
pub open spec fn ends_with(s: Seq<char>, p: Seq<char>) -> bool {
    occurs_at(s, p, s.len() - p.len())
}

/// The place of the first `c` in `s`, or the length of `s` when there is none.
pub open spec fn index_of(s: Seq<char>, c: char) -> int
    decreases s.len(),
{
    if s.len() == 0 || s[0] == c {
        0
    } else {
        1 + index_of(s.drop_first(), c)
    }
}

/// `index_of` is the first place that holds `c`.
pub proof fn lemma_index_of(s: Seq<char>, c: char)
    ensures
        0 <= index_of(s, c) <= s.len(),
        forall|j: int| 0 <= j < index_of(s, c) ==> #[trigger] s[j] != c,
        index_of(s, c) < s.len() ==> s[index_of(s, c)] == c,
    decreases s.len(),
{
    if s.len() > 0 && s[0] != c {
        let rest = s.drop_first();
        lemma_index_of(rest, c);
        assert forall|j: int| 0 <= j < index_of(s, c) implies #[trigger] s[j] != c by {
            if j > 0 {
                assert(rest[j - 1] == s[j]);
            }
        }
    }
}

/// The place of the first `c` in `s`, or the length of `s` when there is none.
pub fn find_char(s: &Vec<char>, c: char) -> (r: usize)
    ensures
        r == index_of(s@, c),
        r <= s@.len(),
{
    proof {
        lemma_index_of(s@, c);
    }
    let mut i: usize = 0;
    while i < s.len()
        invariant
            i <= index_of(s@, c) <= s@.len(),
            index_of(s@, c) < s@.len() ==> s@[index_of(s@, c)] == c,
            forall|j: int| 0 <= j < index_of(s@, c) ==> #[trigger] s@[j] != c,
        decreases s.len() - i,
    {
        if s[i] == c {
            return i;
        }
        i += 1;
    }
    i
}

/// Whether `p` stands in `s` at place `i`.
pub fn matches_at(s: &Vec<char>, p: &Vec<char>, i: usize) -> (r: bool)
    ensures
        r == occurs_at(s@, p@, i as int),
{
    if i > s.len() || p.len() > s.len() - i {
        return false;
    }
    let mut k: usize = 0;
    while k < p.len()
        invariant
            k <= p.len(),
            i + p.len() <= s.len(),
            forall|j: int| 0 <= j < k ==> s@[i + j] == p@[j],
        decreases p.len() - k,
    {
        if s[i + k] != p[k] {
            assert(s@.subrange(i as int, i + p@.len())[k as int] != p@[k as int]);
            return false;
        }
        k += 1;
    }
    assert(s@.subrange(i as int, i + p@.len()) =~= p@);
    true
}

/// Whether `p` stands somewhere in `s`.
pub fn contains_text(s: &str, p: &str) -> (r: bool)
    ensures
        r == contains(s@, p@),
{
    let sv = chars_of(s);
    let pv = chars_of(p);
    contains_chars(&sv, &pv)
}

/// Whether `p` stands somewhere in `s`.
pub fn contains_chars(s: &Vec<char>, p: &Vec<char>) -> (r: bool)
    ensures
        r == contains(s@, p@),
{
    let mut i: usize = 0;
    while i < s.len()
        invariant
            i <= s@.len(),
            forall|k: int| 0 <= k < i ==> !occurs_at(s@, p@, k),
        decreases s.len() - i,
    {
        if matches_at(s, p, i) {
            return true;
        }
        i += 1;
    }
    let last = matches_at(s, p, i);
    assert(contains(s@, p@) == last) by {
        if contains(s@, p@) {
            let k = choose|k: int| occurs_at(s@, p@, k);
            assert(k == i);
        }
    }
    last
}

/// Whether `s` starts with `p`.
pub fn has_prefix(s: &str, p: &str) -> (r: bool)
    ensures
        r == starts_with(s@, p@),
{
    let sv = chars_of(s);
    let pv = chars_of(p);
    matches_at(&sv, &pv, 0)
}

/// Whether `s` ends with `p`.
pub fn has_suffix(s: &str, p: &str) -> (r: bool)
    ensures
        r == ends_with(s@, p@),
{
    let sv = chars_of(s);
    let pv = chars_of(p);
    if pv.len() > sv.len() {
        return false;
    }
    matches_at(&sv, &pv, sv.len() - pv.len())
}

// ---------------------------------------------------------------------------
// Names
// ---------------------------------------------------------------------------

/// The first text, or the second where the first is empty.
pub open spec fn either(a: Seq<char>, b: Seq<char>) -> Seq<char> {
    if a.len() == 0 {
        b
    } else {
        a
    }
}

/// The first text, or the second where the first is empty.
pub fn first_or(value: &str, fallback: &str) -> (r: String)
    ensures
        r@ == either(value@, fallback@),
{
    if value.is_empty() {
        fallback.to_owned()
    } else {
        value.to_owned()
    }
}

/// The last six characters of a session's id.
pub open spec fn short_id(id: Seq<char>) -> Seq<char> {
    if id.len() > 6 {
        id.skip(id.len() - 6)
    } else {
        id
    }
}

/// The last six characters of a session's id.
pub fn short_session(id: &str) -> (r: String)
    ensures
        r@ == short_id(id@),
{
    let v = chars_of(id);
    let from: usize = if v.len() > 6 {
        v.len() - 6
    } else {
        0
    };
    assert(v@.subrange(from as int, v@.len() as int) =~= short_id(id@));
    text_between(&v, from, v.len())
}

/// The characters that part the segments of a path.
pub open spec fn separator(c: char) -> bool {
    c == '/' || c == '\\'
}

/// A path without the separators at its end.
pub open spec fn without_slashes(s: Seq<char>) -> Seq<char>
    decreases s.len(),
{
    if s.len() > 0 && separator(s.last()) {
        without_slashes(s.drop_last())
    } else {
        s
    }
}

/// What follows the last separator.
pub open spec fn last_segment(s: Seq<char>) -> Seq<char>
    decreases s.len(),
{
    if s.len() == 0 || separator(s.last()) {
        Seq::empty()
    } else {
        last_segment(s.drop_last()).push(s.last())
    }
}

/// The last segment of a path.
pub open spec fn base_of(p: Seq<char>) -> Seq<char> {
    last_segment(without_slashes(p))
}

proof fn lemma_last_segment(s: Seq<char>, i: int)
    requires
        0 <= i <= s.len(),
        i == 0 || separator(s[i - 1]),
        forall|k: int| i <= k < s.len() ==> !separator(#[trigger] s[k]),
    ensures
        last_segment(s) == s.skip(i),
    decreases s.len() - i,
{
    if i < s.len() {
        let t = s.drop_last();
        lemma_last_segment(t, i);
        assert(t.skip(i).push(s.last()) =~= s.skip(i));
    } else {
        assert(s.skip(i) =~= Seq::empty());
    }
}

/// The last segment of a path.
pub fn basename(p: &str) -> (r: String)
    ensures
        r@ == base_of(p@),
{
    let v = chars_of(p);
    let mut end: usize = v.len();
    assert(v@.take(end as int) =~= v@);
    while end > 0 && (v[end - 1] == '/' || v[end - 1] == '\\')
        invariant
            end <= v@.len(),
            without_slashes(v@) == without_slashes(v@.take(end as int)),
        decreases end,
    {
        assert(v@.take(end as int).drop_last() =~= v@.take(end - 1));
        end -= 1;
    }
    let ghost t = v@.take(end as int);
    assert(without_slashes(t) == t);
    let mut from: usize = end;
    while from > 0 && !(v[from - 1] == '/' || v[from - 1] == '\\')
        invariant
            from <= end <= v@.len(),
            t == v@.take(end as int),
            forall|k: int| from <= k < end ==> !separator(#[trigger] t[k]),
        decreases from,
    {
        from -= 1;
    }
    proof {
        lemma_last_segment(t, from as int);
        assert(t.skip(from as int) =~= v@.subrange(from as int, end as int));
    }
    text_between(&v, from, end)
}

// ---------------------------------------------------------------------------
// Hexadecimal
// ---------------------------------------------------------------------------

/// The small hexadecimal digit of a number below 16.
pub open spec fn hex_digit(n: int) -> char {
    if n < 10 {
        ('0' as u32 + n) as char
    } else {
        ('a' as u32 + n - 10) as char
    }
}

/// Two small hexadecimal digits for each byte.
pub open spec fn hex_text(bytes: Seq<u8>) -> Seq<char>
    decreases bytes.len(),
{
    if bytes.len() == 0 {
        Seq::empty()
    } else {
        hex_text(bytes.drop_last()).push(hex_digit(bytes.last() as int / 16)).push(
            hex_digit(bytes.last() as int % 16),
        )
    }
}

/// Bytes take two digits each.
pub proof fn lemma_hex_len(bytes: Seq<u8>)
    ensures
        hex_text(bytes).len() == 2 * bytes.len(),
    decreases bytes.len(),
{
    if bytes.len() > 0 {
        lemma_hex_len(bytes.drop_last());
    }
}

fn hex_char(n: u8) -> (c: char)
    requires
        n < 16,
    ensures
        c == hex_digit(n as int),
{
    if n < 10 {
        (48u8 + n) as char
    } else {
        (87u8 + n) as char
    }
}

/// Prints bytes in hexadecimal.
pub fn hex(bytes: &Vec<u8>) -> (r: String)
    ensures
        r@ == hex_text(bytes@),
{
    let mut r = String::new();
    let mut i: usize = 0;
    while i < bytes.len()
        invariant
            i <= bytes@.len(),
            r@ == hex_text(bytes@.take(i as int)),
        decreases bytes.len() - i,
    {
        assert(bytes@.take(i as int + 1).drop_last() =~= bytes@.take(i as int));
        r.push(hex_char(bytes[i] / 16));
        r.push(hex_char(bytes[i] % 16));
        i += 1;
    }
    assert(bytes@.take(i as int) =~= bytes@);
    r
}

// ---------------------------------------------------------------------------
// Reading numbers
// ---------------------------------------------------------------------------

/// The value of a digit in base ten or sixteen.
pub open spec fn digit_value(c: char, radix: int) -> Option<int> {
    if '0' <= c && c <= '9' {
        Some(c as u32 - '0' as u32)
    } else if radix == 16 && 'a' <= c && c <= 'f' {
        Some(c as u32 - 'a' as u32 + 10)
    } else if radix == 16 && 'A' <= c && c <= 'F' {
        Some(c as u32 - 'A' as u32 + 10)
    } else {
        None
    }
}

/// The value of a row of digits, of none 0.
pub open spec fn digits_value(s: Seq<char>, radix: int) -> Option<int>
    decreases s.len(),
{
    if s.len() == 0 {
        Some(0)
    } else {
        match (digits_value(s.drop_last(), radix), digit_value(s.last(), radix)) {
            (Some(h), Some(d)) => Some(h * radix + d),
            _ => None,
        }
    }
}

/// The natural number up to `max` that a text gives: digits, with at most one
/// plus sign before them.
pub open spec fn number_of(s: Seq<char>, radix: int, max: int) -> Option<int> {
    let digits = if s.len() > 0 && s[0] == '+' {
        s.drop_first()
    } else {
        s
    };
    if digits.len() == 0 {
        None
    } else {
        match digits_value(digits, radix) {
            Some(n) if n <= max => Some(n),
            _ => None,
        }
    }
}

fn read_digit(c: char, radix: u64) -> (r: Option<u64>)
    requires
        radix == 10 || radix == 16,
    ensures
        match r {
            Some(d) => digit_value(c, radix as int) == Some(d as int) && d < radix,
            None => digit_value(c, radix as int) is None,
        },
{
    if '0' <= c && c <= '9' {
        Some((c as u32 - 48) as u64)
    } else if radix == 16 && 'a' <= c && c <= 'f' {
        Some((c as u32 - 87) as u64)
    } else if radix == 16 && 'A' <= c && c <= 'F' {
        Some((c as u32 - 55) as u64)
    } else {
        None
    }
}

proof fn lemma_digits_grow(s: Seq<char>, k: int, radix: int)
    requires
        0 <= k <= s.len(),
        radix == 10 || radix == 16,
    ensures
        digits_value(s.take(k), radix) is None ==> digits_value(s, radix) is None,
        digits_value(s, radix) matches Some(n) ==> n >= 0 && digits_value(s.take(k), radix)->0 <= n,
        digits_value(s.take(k), radix) matches Some(n) ==> n >= 0,
    decreases s.len(),
{
    if k < s.len() {
        lemma_digits_grow(s.drop_last(), k, radix);
        assert(s.drop_last().take(k) =~= s.take(k));
        if let (Some(h), Some(d)) = (
            digits_value(s.drop_last(), radix),
            digit_value(s.last(), radix),
        ) {
            assert(h * radix + d >= h) by (nonlinear_arith)
                requires
                    h >= 0,
                    d >= 0,
                    radix >= 1,
            ;
        }
    } else {
        assert(s.take(k) =~= s);
        if s.len() > 0 {
            lemma_digits_grow(s.drop_last(), s.len() - 1, radix);
            if let (Some(h), Some(d)) = (
                digits_value(s.drop_last(), radix),
                digit_value(s.last(), radix),
            ) {
                assert(h * radix + d >= 0) by (nonlinear_arith)
                    requires
                        h >= 0,
                        d >= 0,
                        radix >= 1,
                ;
            }
        }
    }
}

/// Reads a natural number up to `max`.
pub fn parse_number(s: &str, radix: u64, max: u64) -> (r: Option<u64>)
    requires
        radix == 10 || radix == 16,
    ensures
        match r {
            Some(n) => number_of(s@, radix as int, max as int) == Some(n as int),
            None => number_of(s@, radix as int, max as int) is None,
        },
{
    let v = chars_of(s);
    let from: usize = if v.len() > 0 && v[0] == '+' {
        1
    } else {
        0
    };
    if from >= v.len() {
        return None;
    }
    let ghost digits = v@.skip(from as int);
    assert(from == 1 ==> digits =~= v@.drop_first());
    assert(from == 0 ==> digits =~= v@);
    let mut n: u64 = 0;
    let mut i: usize = from;
    assert(digits.take(0) =~= Seq::empty());
    while i < v.len()
        invariant
            from <= i <= v@.len(),
            from < v@.len(),
            digits == v@.skip(from as int),
            radix == 10 || radix == 16,
            n <= max,
            digits_value(digits.take(i - from), radix as int) == Some(n as int),
            number_of(s@, radix as int, max as int) == (match digits_value(digits, radix as int) {
                Some(x) if x <= max => Some(x),
                _ => None,
            }),
        decreases v.len() - i,
    {
        let ghost next = digits.take(i - from + 1);
        proof {
            assert(next.drop_last() =~= digits.take(i - from));
            assert(next.last() == v@[i as int]);
            lemma_digits_grow(digits, i - from + 1, radix as int);
        }
        let d: u64 = match read_digit(v[i], radix) {
            Some(d) => d,
            None => return None,
        };
        let wide: u128 = (n as u128) * (radix as u128) + d as u128;
        assert(wide == n * radix + d) by {
            assert(n * radix <= u64::MAX * 16) by (nonlinear_arith)
                requires
                    n <= u64::MAX,
                    radix <= 16,
            ;
        }
        if wide > max as u128 {
            return None;
        }
        n = wide as u64;
        i += 1;
    }
    assert(digits.take(i - from) =~= digits);
    Some(n)
}

// ---------------------------------------------------------------------------
// Splitting
// ---------------------------------------------------------------------------

/// The first place at or after `from` where `p` stands in `s`.
pub open spec fn seek<T>(s: Seq<T>, p: Seq<T>, from: int) -> Option<int>
    decreases s.len() + 1 - from,
{
    if from < 0 || from + p.len() > s.len() {
        None
    } else if s.subrange(from, from + p.len()) == p {
        Some(from)
    } else {
        seek(s, p, from + 1)
    }
}

/// `seek` finds a place in range.
pub proof fn lemma_seek<T>(s: Seq<T>, p: Seq<T>, from: int)
    ensures
        seek(s, p, from) matches Some(i) ==> from <= i && i + p.len() <= s.len() && s.subrange(
            i,
            i + p.len(),
        ) == p,
    decreases s.len() + 1 - from,
{
    if from >= 0 && from + p.len() <= s.len() && s.subrange(from, from + p.len()) != p {
        lemma_seek(s, p, from + 1);
    }
}

/// A place that was found stays the first when more follows.
pub proof fn lemma_seek_more<T>(s: Seq<T>, more: Seq<T>, p: Seq<T>, from: int)
    requires
        seek(s, p, from) is Some,
    ensures
        seek(s + more, p, from) == seek(s, p, from),
    decreases s.len() + 1 - from,
{
    let all = s + more;
    assert(all.subrange(from, from + p.len()) =~= s.subrange(from, from + p.len()));
    if s.subrange(from, from + p.len()) != p {
        lemma_seek_more(s, more, p, from + 1);
    }
}

/// The parts of a text between the occurrences of a non-empty separator.
pub open spec fn split_by(s: Seq<char>, sep: Seq<char>) -> Seq<Seq<char>>
    decreases s.len(),
{
    match seek(s, sep, 0) {
        Some(i) if sep.len() > 0 && 0 <= i && i + sep.len() <= s.len() => seq![s.take(i)]
            + split_by(s.skip(i + sep.len()), sep),
        _ => seq![s],
    }
}

/// The first place at or after `from` where `p` stands in `s`.
pub fn seek_chars(s: &Vec<char>, p: &Vec<char>, from: usize) -> (r: Option<usize>)
    requires
        from <= s@.len(),
    ensures
        match r {
            Some(i) => seek(s@, p@, from as int) == Some(i as int) && from <= i && i + p@.len()
                <= s@.len(),
            None => seek(s@, p@, from as int) is None,
        },
{
    let mut i: usize = from;
    while p.len() <= s.len() - i
        invariant
            from <= i <= s@.len(),
            seek(s@, p@, from as int) == seek(s@, p@, i as int),
        decreases s@.len() - i,
    {
        if matches_at(s, p, i) {
            return Some(i);
        }
        if i == s.len() {
            assert(s@.subrange(i as int, i as int) =~= p@);
            return None;
        }
        i += 1;
    }
    None
}

/// The parts of a text between the occurrences of a non-empty separator.
pub fn split_text(s: &str, sep: &str) -> (r: Vec<String>)
    requires
        sep@.len() > 0,
    ensures
        texts(r@) == split_by(s@, sep@),
{
    let v = chars_of(s);
    let p = chars_of(sep);
    let mut r: Vec<String> = Vec::new();
    let mut from: usize = 0;
    assert(v@.skip(0) =~= v@);
    assert(texts(r@) + split_by(v@, p@) =~= split_by(v@, p@));
    loop
        invariant_except_break
            from <= v@.len(),
            p@.len() > 0,
            texts(r@) + split_by(v@.skip(from as int), p@) == split_by(v@, p@),
        ensures
            texts(r@) == split_by(v@, p@),
        decreases v@.len() - from,
    {
        let ghost before = texts(r@);
        let ghost rest = v@.skip(from as int);
        proof {
            lemma_seek_shift(v@, p@, from as int, 0);
        }
        match seek_chars(&v, &p, from) {
            Some(i) => {
                r.push(text_between(&v, from, i));
                proof {
                    let k = i - from;
                    assert(v@.subrange(from as int, i as int) =~= rest.take(k));
                    assert(rest.skip(k + p@.len()) =~= v@.skip(i + p@.len()));
                    assert(texts(r@) =~= before.push(rest.take(k)));
                    assert(before + (seq![rest.take(k)] + split_by(v@.skip(i + p@.len()), p@))
                        =~= texts(r@) + split_by(v@.skip(i + p@.len()), p@));
                }
                assert(v@.len() == v.len() && p@.len() == p.len());
                from = i + p.len();
            },
            None => {
                r.push(text_between(&v, from, v.len()));
                proof {
                    assert(v@.subrange(from as int, v@.len() as int) =~= rest);
                    assert(texts(r@) =~= before + seq![rest]);
                }
                break ;
            },
        }
    }
    r
}

proof fn lemma_seek_shift<T>(s: Seq<T>, p: Seq<T>, by: int, from: int)
    requires
        0 <= by <= s.len(),
        0 <= from,
    ensures
        seek(s, p, by + from) == (match seek(s.skip(by), p, from) {
            Some(i) => Some(i + by),
            None => None,
        }),
    decreases s.len() + 1 - by - from,
{
    let t = s.skip(by);
    if from + p.len() <= t.len() {
        assert(t.subrange(from, from + p.len()) =~= s.subrange(by + from, by + from + p.len()));
        if t.subrange(from, from + p.len()) != p {
            lemma_seek_shift(s, p, by, from + 1);
        }
    }
}

// ---------------------------------------------------------------------------
// Laws
// ---------------------------------------------------------------------------

/// A number that is printed reads back as it was.
pub proof fn law_numbers_read_back(n: nat)
    ensures
        digits_value(decimal_text(n), 10) == Some(n as int),
        decimal_text(n).len() > 0,
        decimal_text(n)[0] != '+',
        forall|max: int| n <= max ==> #[trigger] number_of(int_text(n as int), 10, max) == Some(n as int),
    decreases n,
{
    assert(digit((n % 10) as nat) as u32 == 48 + n % 10);
    if n < 10 {
        let s = decimal_text(n);
        assert(s.drop_last() =~= Seq::empty());
        assert(s.last() == digit(n));
        assert(digits_value(s.drop_last(), 10) == Some(0int));
        assert(digits_value(s, 10) == Some(0 * 10 + n as int));
    } else {
        law_numbers_read_back(n / 10);
        let s = decimal_text(n);
        assert(s.drop_last() =~= decimal_text(n / 10));
        assert(s.last() == digit(n % 10));
        assert(s[0] == decimal_text(n / 10)[0]);
    }
}

/// A negative number has its sign before it.
pub proof fn law_the_sign_comes_first(n: int)
    requires
        n < 0,
    ensures
        int_text(n)[0] == '-',
        int_text(n).skip(1) == int_text(-n),
{
    assert(int_text(n).skip(1) =~= int_text(-n));
}

/// Small letters, and all that is no letter, stay; capitals become small.
pub proof fn law_small_letters(s: Seq<char>, i: int)
    requires
        0 <= i < s.len(),
    ensures
        lowered(s).len() == s.len(),
        'A' <= s[i] <= 'Z' ==> lowered(s)[i] as int == s[i] as int + 32,
        !('A' <= s[i] <= 'Z') ==> lowered(s)[i] == s[i],
        lowered(lowered(s)) == lowered(s),
{
    assert forall|k: int| 0 <= k < s.len() implies #[trigger] lowered(lowered(s))[k] == lowered(s)[k] by {
        let c = s[k];
        assert('A' <= c <= 'Z' ==> lower(c) as u32 == c as u32 + 32);
    }
    assert(lowered(lowered(s)) =~= lowered(s));
}

/// What has no white space around it is trimmed already.
pub proof fn law_what_is_trimmed_stays(s: Seq<char>)
    requires
        s.len() > 0 ==> !white(s[0]) && !white(s.last()),
    ensures
        trimmed(s) == s,
{
}

proof fn lemma_trimmed_end(s: Seq<char>)
    ensures
        trimmed_end(s).len() <= s.len(),
        trimmed_end(s) == s.take(trimmed_end(s).len() as int),
        trimmed_end(s).len() > 0 ==> !white(trimmed_end(s).last()),
    decreases s.len(),
{
    if s.len() > 0 && white(s.last()) {
        lemma_trimmed_end(s.drop_last());
        let n = trimmed_end(s).len() as int;
        assert(s.drop_last().take(n) =~= s.take(n));
    } else {
        assert(s.take(s.len() as int) =~= s);
    }
}

proof fn lemma_trimmed_start(s: Seq<char>)
    ensures
        trimmed_start(s).len() <= s.len(),
        trimmed_start(s) == s.skip(s.len() - trimmed_start(s).len()),
        trimmed_start(s).len() > 0 ==> !white(trimmed_start(s)[0]),
    decreases s.len(),
{
    if s.len() > 0 && white(s[0]) {
        lemma_trimmed_start(s.drop_first());
        let n = trimmed_start(s).len() as int;
        assert(s.drop_first().skip(s.len() - 1 - n) =~= s.skip(s.len() - n));
    } else {
        assert(s.skip(0) =~= s);
    }
}

/// Trimming takes white space off both ends, and nothing else: what is left stands in
/// the text as it was, and has none at its ends.
pub proof fn law_trimming_takes_white_space_off(s: Seq<char>)
    ensures
        trimmed(s).len() > 0 ==> !white(trimmed(s)[0]) && !white(trimmed(s).last()),
        contains(s, trimmed(s)),
        trimmed(trimmed(s)) == trimmed(s),
{
    let t = trimmed_start(s);
    lemma_trimmed_start(s);
    lemma_trimmed_end(t);
    let from = s.len() - t.len();
    let r = trimmed(s);
    assert(s.subrange(from, from + r.len()) =~= r);
    assert(occurs_at(s, r, from));
    if r.len() > 0 {
        assert(r[0] == t[0]);
    }
}

/// The last segment of a path is what follows its last separator, whichever that is
/// and however many stand at its end.
pub proof fn law_the_last_segment(dir: Seq<char>, name: Seq<char>)
    requires
        name.len() > 0,
        forall|k: int| 0 <= k < name.len() ==> #[trigger] name[k] != '/' && name[k] != '\\',
    ensures
        base_of(name) == name,
        base_of(dir + seq!['/'] + name) == name,
        base_of(dir + seq!['\\'] + name) == name,
        base_of(dir + seq!['/'] + name + seq!['/']) == name,
{
    let a = dir + seq!['/'] + name;
    let b = dir + seq!['\\'] + name;
    let n = dir.len() as int + 1;
    assert(name.last() == name[name.len() - 1]);
    assert(a.last() == name.last() && b.last() == name.last());
    lemma_last_segment(name, 0);
    assert(name.skip(0) =~= name);
    assert forall|k: int| n <= k < a.len() implies !separator(#[trigger] a[k]) by {
        assert(a[k] == name[k - n]);
    }
    lemma_last_segment(a, n);
    assert(a.skip(n) =~= name);
    assert forall|k: int| n <= k < b.len() implies !separator(#[trigger] b[k]) by {
        assert(b[k] == name[k - n]);
    }
    lemma_last_segment(b, n);
    assert(b.skip(n) =~= name);
    let c = a + seq!['/'];
    assert(c.last() == '/');
    assert(c.drop_last() =~= a);
    assert(without_slashes(c) == without_slashes(a));
}

/// A session is shown by the last six characters of its id.
pub proof fn law_sessions_are_shown_by_six_characters(id: Seq<char>)
    ensures
        id.len() <= 6 ==> short_id(id) == id,
        id.len() > 6 ==> short_id(id).len() == 6 && short_id(id) == id.skip(id.len() - 6),
{
}

/// A text that is long enough to be cut keeps all but its end, which becomes an
/// ellipsis; a short one stays.
pub proof fn law_cutting(s: Seq<char>, n: nat)
    requires
        n > 0,
    ensures
        s.len() <= n ==> cut(s, n) == s,
        s.len() > n ==> cut(s, n).len() == n && cut(s, n).last() == '…' && cut(s, n).take(n - 1)
            == s.take(n - 1),
{
    if s.len() > n {
        assert(cut(s, n).take(n - 1) =~= s.take(n - 1));
    }
}

/// Parts that are joined have the separator between them, and only there.
pub proof fn law_joining(a: Seq<char>, b: Seq<char>, c: Seq<char>, sep: Seq<char>)
    ensures
        joined(Seq::empty(), sep) == Seq::<char>::empty(),
        joined(seq![a], sep) == a,
        joined(seq![a, b], sep) == a + sep + b,
        joined(seq![a, b, c], sep) == a + sep + b + sep + c,
{
    reveal_with_fuel(joined, 4);
    assert(seq![a, b, c].drop_last() =~= seq![a, b]);
    assert(seq![a, b].drop_last() =~= seq![a]);
    assert(seq![a].drop_last() =~= Seq::empty());
    assert(joined(seq![a], sep) =~= a);
    assert(joined(seq![a, b], sep) =~= a + sep + b);
    assert(joined(seq![a, b, c], sep) =~= a + sep + b + sep + c);
}

/// What stands between two texts is found there.
pub proof fn lemma_between(a: Seq<char>, b: Seq<char>, c: Seq<char>)
    ensures
        contains(a + b + c, b),
{
    assert((a + b + c).subrange(a.len() as int, a.len() as int + b.len()) =~= b);
    assert(occurs_at(a + b + c, b, a.len() as int));
}

/// A byte is two hexadecimal digits: its high half before its low.
pub proof fn law_bytes_in_hexadecimal(b: u8)
    ensures
        hex_text(seq![b]).len() == 2,
        digit_value(hex_text(seq![b])[0], 16) == Some(b as int / 16),
        digit_value(hex_text(seq![b])[1], 16) == Some(b as int % 16),
{
    reveal_with_fuel(hex_text, 2);
    let h = b as int / 16;
    let l = b as int % 16;
    assert(seq![b].drop_last() =~= Seq::empty());
    assert(0 <= h < 16 && 0 <= l < 16);
    assert(h < 10 ==> hex_digit(h) as u32 == 48 + h);
    assert(h >= 10 ==> hex_digit(h) as u32 == 87 + h);
    assert(l < 10 ==> hex_digit(l) as u32 == 48 + l);
    assert(l >= 10 ==> hex_digit(l) as u32 == 87 + l);
}

} // verus!
