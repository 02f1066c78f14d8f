//! Text: the operations on strings that the rest of the library is built from.

use vstd::prelude::*;
use vstd::utf8::*;

verus! {

/// `String::push` appends one character to the end of the string.
pub assume_specification[ String::push ](s: &mut String, c: char)
    ensures
        final(s)@ == old(s)@.push(c),
;

/// The text that `String::from_utf8_lossy` makes of bytes.
pub uninterp spec fn lossy_text(bytes: Seq<u8>) -> Seq<char>;

/// `String::from_utf8_lossy` decodes bytes that are UTF-8, and puts replacement characters where
/// they are not. The text is a function of the bytes.
#[verifier::external_body]
pub(crate) fn utf8_lossy(bytes: &[u8]) -> (r: String)
    ensures
        r@ == lossy_text(bytes@),
        valid_utf8(bytes@) ==> r@ == decode_utf8(bytes@),
{
    String::from_utf8_lossy(bytes).into_owned()
}

/// The text of bytes: what they encode where they are UTF-8.
pub open spec fn text_of(bytes: Seq<u8>) -> Seq<char> {
    if valid_utf8(bytes) {
        decode_utf8(bytes)
    } else {
        lossy_text(bytes)
    }
}

/// The bytes of two texts, one behind the other, are those of each.
pub proof fn lemma_encoding_of_both(a: Seq<char>, b: Seq<char>)
    ensures
        encode_utf8(a + b) == encode_utf8(a) + encode_utf8(b),
    decreases a.len(),
{
    if a.len() > 0 {
        lemma_encoding_of_both(a.drop_first(), b);
        assert((a + b).drop_first() =~= a.drop_first() + b);
        assert(encode_utf8(a + b) =~= encode_utf8(a) + encode_utf8(b));
    } else {
        assert(a + b =~= b);
        assert(encode_utf8(a) + encode_utf8(b) =~= encode_utf8(b));
    }
}

/// The characters of a text are fixed by its bytes.
proof fn lemma_encoding_is_injective(a: Seq<char>, b: Seq<char>)
    requires
        encode_utf8(a) == encode_utf8(b),
    ensures
        a == b,
{
    encode_utf8_decode_utf8(a);
    encode_utf8_decode_utf8(b);
}

/// Whether two texts hold the same characters.
pub fn same(a: &str, b: &str) -> (r: bool)
    ensures
        r == (a@ == b@),
{
    let x = a.as_bytes();
    let y = b.as_bytes();
    if x.len() != y.len() {
        return false;
    }
    let mut i: usize = 0;
    while i < x.len()
        invariant
            i <= x.len(),
            x@ == encode_utf8(a@),
            y@ == encode_utf8(b@),
            x@.len() == y@.len(),
            forall|k: int| 0 <= k < i ==> x@[k] == y@[k],
        decreases x.len() - i,
    {
        if x[i] != y[i] {
            assert(x@[i as int] != y@[i as int]);
            return false;
        }
        i = i + 1;
    }
    proof {
        assert(x@ =~= y@);
        lemma_encoding_is_injective(a@, b@);
    }
    true
}

/// The characters of a text.
pub fn chars_of(s: &str) -> (r: Vec<char>)
    ensures
        r@ == s@,
{
    let mut out: Vec<char> = Vec::new();
    for c in it: s.chars()
        invariant
            it.seq() == s@,
            out@ == s@.take(it.index()),
    {
        out.push(c);
        assert(s@.take(it.index() + 1) =~= s@.take(it.index()).push(c));
    }
    assert(s@.take(s@.len() as int) =~= s@);
    out
}

/// The text of a stretch of characters.
pub fn string_of(v: &[char], from: usize, to: usize) -> (r: String)
    requires
        from <= to <= v@.len(),
    ensures
        r@ == v@.subrange(from as int, to as int),
{
    let mut out = String::new();
    let mut i = from;
    while i < to
        invariant
            from <= i <= to <= v@.len(),
            out@ == v@.subrange(from as int, i as int),
        decreases to - i,
    {
        out.push(v[i]);
        i = i + 1;
        assert(v@.subrange(from as int, i as int) =~= v@.subrange(from as int, i - 1).push(
            v@[i - 1],
        ));
    }
    out
}

/// The text of two texts, one behind the other.
pub fn concat(a: &str, b: &str) -> (r: String)
    ensures
        r@ == a@ + b@,
{
    let mut s = a.to_owned();
    s.append(b);
    s
}

/// The text of three texts, one behind the other.
pub fn concat3(a: &str, b: &str, c: &str) -> (r: String)
    ensures
        r@ == a@ + b@ + c@,
{
    let mut s = a.to_owned();
    s.append(b);
    s.append(c);
    s
}

// White space.

/// The characters that Unicode counts as white space.
pub open spec fn is_space(c: char) -> bool {
    ||| '\u{9}' <= c <= '\u{d}'
    ||| c == ' '
    ||| c == '\u{85}'
    ||| c == '\u{a0}'
    ||| c == '\u{1680}'
    ||| '\u{2000}' <= c <= '\u{200a}'
    ||| c == '\u{2028}'
    ||| c == '\u{2029}'
    ||| c == '\u{202f}'
    ||| c == '\u{205f}'
    ||| c == '\u{3000}'
}

fn space(c: char) -> (r: bool)
    ensures
        r == is_space(c),
{
    ('\u{9}' <= c && c <= '\u{d}') || c == ' ' || c == '\u{85}' || c == '\u{a0}' || c == '\u{1680}'
        || ('\u{2000}' <= c && c <= '\u{200a}') || c == '\u{2028}' || c == '\u{2029}' || c
        == '\u{202f}' || c == '\u{205f}' || c == '\u{3000}'
}

/// A text without the white space at its end.
pub open spec fn trimmed_end(s: Seq<char>) -> Seq<char>
    decreases s.len(),
{
    if s.len() > 0 && is_space(s.last()) {
        trimmed_end(s.drop_last())
    } else {
        s
    }
}

/// A text without the white space at its start.
pub open spec fn trimmed_start(s: Seq<char>) -> Seq<char>
    decreases s.len(),
{
    if s.len() > 0 && is_space(s[0]) {
        trimmed_start(s.skip(1))
    } else {
        s
    }
}

/// A text without the white space at either end.
pub open spec fn trimmed(s: Seq<char>) -> Seq<char> {
    trimmed_end(trimmed_start(s))
}

/// Where the white space at the start of `v[from..to]` ends.
fn start_of(v: &[char], from: usize, to: usize) -> (r: usize)
    requires
        from <= to <= v@.len(),
    ensures
        from <= r <= to,
        v@.subrange(r as int, to as int) == trimmed_start(v@.subrange(from as int, to as int)),
{
    let mut i = from;
    while i < to && space(v[i])
        invariant
            from <= i <= to <= v@.len(),
            trimmed_start(v@.subrange(i as int, to as int)) == trimmed_start(
                v@.subrange(from as int, to as int),
            ),
        decreases to - i,
    {
        assert(v@.subrange(i as int, to as int).skip(1) =~= v@.subrange(i + 1, to as int));
        i = i + 1;
    }
    i
}

/// Where the white space at the end of `v[from..to]` starts.
fn end_of(v: &[char], from: usize, to: usize) -> (r: usize)
    requires
        from <= to <= v@.len(),
    ensures
        from <= r <= to,
        v@.subrange(from as int, r as int) == trimmed_end(v@.subrange(from as int, to as int)),
{
    let mut i = to;
    while i > from && space(v[i - 1])
        invariant
            from <= i <= to <= v@.len(),
            trimmed_end(v@.subrange(from as int, i as int)) == trimmed_end(
                v@.subrange(from as int, to as int),
            ),
        decreases i,
    {
        assert(v@.subrange(from as int, i as int).drop_last() =~= v@.subrange(
            from as int,
            i - 1,
        ));
        i = i - 1;
    }
    i
}

/// Removes the white space at the end of a text.
pub fn trim_end(s: &str) -> (r: String)
    ensures
        r@ == trimmed_end(s@),
{
    let v = chars_of(s);
    assert(v@.subrange(0, v@.len() as int) =~= v@);
    let e = end_of(&v, 0, v.len());
    string_of(&v, 0, e)
}

/// Removes the white space at both ends of a text.
pub fn trim(s: &str) -> (r: String)
    ensures
        r@ == trimmed(s@),
{
    let v = chars_of(s);
    assert(v@.subrange(0, v@.len() as int) =~= v@);
    let b = start_of(&v, 0, v.len());
    let e = end_of(&v, b, v.len());
    string_of(&v, b, e)
}

// Words and pieces.

/// How many characters stand before the first white space.
pub open spec fn word_len(s: Seq<char>) -> nat
    decreases s.len(),
{
    if s.len() == 0 || is_space(s[0]) {
        0
    } else {
        1 + word_len(s.skip(1))
    }
}

/// The first word of a text: what stands between its leading white space and the next.
pub open spec fn first_word(s: Seq<char>) -> Seq<char> {
    let t = trimmed_start(s);
    t.take(word_len(t) as int)
}

/// What follows the first word of a text.
pub open spec fn after_word(s: Seq<char>) -> Seq<char> {
    let t = trimmed_start(s);
    t.skip(word_len(t) as int)
}

/// The first word of a text, and what follows it.
pub fn split_word(s: &str) -> (r: (String, String))
    ensures
        r.0@ == first_word(s@),
        r.1@ == after_word(s@),
{
    let v = chars_of(s);
    let n = v.len();
    assert(v@.subrange(0, n as int) =~= v@);
    let b = start_of(&v, 0, n);
    let ghost t = trimmed_start(s@);
    assert(t =~= v@.subrange(b as int, n as int));
    let mut i = b;
    assert(t.skip(0) =~= t);
    while i < n && !space(v[i])
        invariant
            b <= i <= n,
            n == v@.len(),
            t == v@.subrange(b as int, n as int),
            word_len(t) == (i - b) + word_len(t.skip(i - b)),
        decreases n - i,
    {
        assert(t.skip(i - b)[0] == v@[i as int]);
        assert(t.skip(i - b).skip(1) =~= t.skip(i + 1 - b));
        i = i + 1;
    }
    proof {
        if i < n {
            assert(t.skip(i - b)[0] == v@[i as int]);
        }
        assert(word_len(t.skip(i - b)) == 0);
        assert(v@.subrange(b as int, i as int) =~= t.take(i - b));
        assert(v@.subrange(i as int, n as int) =~= t.skip(i - b));
    }
    (string_of(&v, b, i), string_of(&v, i, n))
}

/// How many characters stand before the first `c`; all of them, where there is none.
pub open spec fn before(s: Seq<char>, c: char) -> nat
    decreases s.len(),
{
    if s.len() == 0 || s[0] == c {
        0
    } else {
        1 + before(s.skip(1), c)
    }
}

/// The number of characters before the first `c` marks its place.
pub proof fn lemma_before(s: Seq<char>, c: char)
    ensures
        before(s, c) <= s.len(),
        forall|i: int| 0 <= i < before(s, c) ==> #[trigger] s[i] != c,
        before(s, c) < s.len() ==> s[before(s, c) as int] == c,
        before(s, c) == s.len() <==> !s.contains(c),
    decreases s.len(),
{
    if s.len() > 0 && s[0] != c {
        lemma_before(s.skip(1), c);
        assert forall|i: int| 0 <= i < before(s, c) implies #[trigger] s[i] != c by {
            if i > 0 {
                assert(s[i] == s.skip(1)[i - 1]);
            }
        }
        if before(s, c) < s.len() {
            assert(s[before(s, c) as int] == s.skip(1)[before(s, c) - 1]);
        }
    }
}

/// What stands before and after the first `c`.
pub open spec fn split_at_first(s: Seq<char>, c: char) -> Option<(Seq<char>, Seq<char>)> {
    if s.contains(c) {
        Some((s.take(before(s, c) as int), s.skip(before(s, c) as int + 1)))
    } else {
        None
    }
}

/// Splits a text at the first `c`.
pub fn split_once(s: &str, c: char) -> (r: Option<(String, String)>)
    ensures
        match r {
            Some(p) => split_at_first(s@, c) == Some((p.0@, p.1@)),
            None => split_at_first(s@, c) is None,
        },
{
    let v = chars_of(s);
    let n = v.len();
    let mut i: usize = 0;
    assert(v@.skip(0) =~= v@);
    while i < n && v[i] != c
        invariant
            i <= n,
            n == v@.len(),
            before(v@, c) == i + before(v@.skip(i as int), c),
        decreases n - i,
    {
        assert(v@.skip(i as int).skip(1) =~= v@.skip(i + 1));
        i = i + 1;
    }
    proof {
        lemma_before(v@, c);
        assert(before(v@.skip(i as int), c) == 0);
    }
    if i < n {
        proof {
            assert(v@.subrange(0, i as int) =~= v@.take(i as int));
            assert(v@.subrange(i + 1, n as int) =~= v@.skip(i + 1));
        }
        Some((string_of(&v, 0, i), string_of(&v, i + 1, n)))
    } else {
        None
    }
}

/// What stands behind the last `c`; the whole text, where there is none.
pub open spec fn behind_last(s: Seq<char>, c: char) -> Seq<char>
    decreases s.len(),
{
    if s.len() == 0 || s.last() == c {
        Seq::empty()
    } else {
        behind_last(s.drop_last(), c).push(s.last())
    }
}

/// The part of a text behind the last `c`.
pub fn after_last(s: &str, c: char) -> (r: String)
    ensures
        r@ == behind_last(s@, c),
{
    let v = chars_of(s);
    let n = v.len();
    let mut i = n;
    assert(v@.take(n as int) =~= v@);
    assert(v@.skip(n as int) =~= Seq::<char>::empty());
    assert(behind_last(v@.take(n as int), c) + v@.skip(n as int) =~= behind_last(v@, c));
    while i > 0 && v[i - 1] != c
        invariant
            i <= n,
            n == v@.len(),
            behind_last(v@.take(i as int), c) + v@.skip(i as int) == behind_last(v@, c),
        decreases i,
    {
        assert(v@.take(i as int).drop_last() =~= v@.take(i - 1));
        assert(v@.take(i as int).last() == v@[i - 1]);
        assert(behind_last(v@.take(i - 1), c).push(v@[i - 1]) + v@.skip(i as int) =~= behind_last(
            v@.take(i - 1),
            c,
        ) + v@.skip(i - 1));
        i = i - 1;
    }
    proof {
        assert(behind_last(v@.take(i as int), c) =~= Seq::<char>::empty());
        assert(v@.subrange(i as int, n as int) =~= behind_last(v@, c));
    }
    string_of(&v, i, n)
}

/// A text without the `c` at its end, however many there are.
pub open spec fn stripped_end(s: Seq<char>, c: char) -> Seq<char>
    decreases s.len(),
{
    if s.len() > 0 && s.last() == c {
        stripped_end(s.drop_last(), c)
    } else {
        s
    }
}

/// Removes every `c` at the end of a text.
pub fn strip_end(s: &str, c: char) -> (r: String)
    ensures
        r@ == stripped_end(s@, c),
{
    let v = chars_of(s);
    let mut i = v.len();
    assert(v@.take(i as int) =~= v@);
    while i > 0 && v[i - 1] == c
        invariant
            i <= v@.len(),
            stripped_end(v@.take(i as int), c) == stripped_end(v@, c),
        decreases i,
    {
        assert(v@.take(i as int).drop_last() =~= v@.take(i - 1));
        i = i - 1;
    }
    assert(v@.subrange(0, i as int) =~= v@.take(i as int));
    string_of(&v, 0, i)
}

/// A text without the `c` at its start, however many there are.
pub open spec fn stripped_start(s: Seq<char>, c: char) -> Seq<char>
    decreases s.len(),
{
    if s.len() > 0 && s[0] == c {
        stripped_start(s.skip(1), c)
    } else {
        s
    }
}

/// Removes every `c` at the start of a text.
pub fn strip_start(s: &str, c: char) -> (r: String)
    ensures
        r@ == stripped_start(s@, c),
{
    let v = chars_of(s);
    let n = v.len();
    let mut i: usize = 0;
    assert(v@.skip(0) =~= v@);
    while i < n && v[i] == c
        invariant
            i <= n,
            n == v@.len(),
            stripped_start(v@.skip(i as int), c) == stripped_start(v@, c),
        decreases n - i,
    {
        assert(v@.skip(i as int).skip(1) =~= v@.skip(i + 1));
        i = i + 1;
    }
    assert(v@.subrange(i as int, n as int) =~= v@.skip(i as int));
    string_of(&v, i, n)
}

/// Whether a text starts with another.
pub open spec fn begins(s: Seq<char>, p: Seq<char>) -> bool {
    p.len() <= s.len() && s.take(p.len() as int) == p
}

/// The rest of a text behind a prefix.
pub fn strip_prefix(s: &str, p: &str) -> (r: Option<String>)
    ensures
        match r {
            Some(t) => begins(s@, p@) && t@ == s@.skip(p@.len() as int),
            None => !begins(s@, p@),
        },
{
    let v = chars_of(s);
    let w = chars_of(p);
    if w.len() > v.len() {
        return None;
    }
    let mut i: usize = 0;
    while i < w.len()
        invariant
            i <= w@.len() <= v@.len(),
            v@ == s@,
            w@ == p@,
            forall|k: int| 0 <= k < i ==> v@[k] == w@[k],
        decreases w@.len() - i,
    {
        if v[i] != w[i] {
            proof {
                if begins(s@, p@) {
                    assert(s@.take(p@.len() as int)[i as int] == v@[i as int]);
                }
            }
            return None;
        }
        i = i + 1;
    }
    proof {
        assert(s@.take(p@.len() as int) =~= p@);
        assert(v@.subrange(i as int, v@.len() as int) =~= s@.skip(p@.len() as int));
    }
    Some(string_of(&v, w.len(), v.len()))
}

/// Whether a text stands somewhere in another.
pub open spec fn occurs(s: Seq<char>, p: Seq<char>) -> bool {
    exists|i: int| 0 <= i <= s.len() - p.len() && #[trigger] s.subrange(i, i + p.len()) == p
}

/// Whether `w` stands in `v` from place `i` on.
fn stands_at(v: &[char], w: &[char], i: usize) -> (r: bool)
    requires
        i + w@.len() <= v@.len(),
    ensures
        r == (v@.subrange(i as int, i + w@.len()) == w@),
{
    let n = v.len();
    let m = w.len();
    let ghost part = v@.subrange(i as int, i + w@.len());
    let mut k: usize = 0;
    while k < m
        invariant
            k <= m,
            m == w@.len(),
            n == v@.len(),
            i + m <= n,
            part == v@.subrange(i as int, i + m),
            forall|j: int| 0 <= j < k ==> part[j] == w@[j],
        decreases m - k,
    {
        assert(part[k as int] == v@[i + k]);
        if v[i + k] != w[k] {
            return false;
        }
        k = k + 1;
    }
    assert(part =~= w@);
    true
}

/// Looks for a text in another.
pub fn contains(s: &str, p: &str) -> (r: bool)
    ensures
        r == occurs(s@, p@),
{
    let v = chars_of(s);
    let w = chars_of(p);
    if w.len() > v.len() {
        return false;
    }
    let last = v.len() - w.len();
    let mut i: usize = 0;
    loop
        invariant
            last == v@.len() - w@.len(),
            i <= last,
            v@ == s@,
            w@ == p@,
            forall|j: int| 0 <= j < i ==> #[trigger] v@.subrange(j, j + w@.len()) != w@,
        decreases last - i,
    {
        if stands_at(&v, &w, i) {
            return true;
        }
        if i == last {
            return false;
        }
        i = i + 1;
    }
}

// Letter case.

/// The small letter of an ASCII capital; any other character itself.
pub open spec fn lower(c: char) -> char {
    if 'A' <= c <= 'Z' {
        ((c as u32 + 32) as u32) as char
    } else {
        c
    }
}

/// A text with its ASCII capitals made small.
pub open spec fn lowered(s: Seq<char>) -> Seq<char> {
    Seq::new(s.len(), |i: int| lower(s[i]))
}

fn lower_char(c: char) -> (r: char)
    ensures
        r == lower(c),
{
    if 'A' <= c && c <= 'Z' {
        ((c as u8) + 32) as char
    } else {
        c
    }
}

/// Makes the ASCII capitals of a text small.
pub fn to_lower(s: &str) -> (r: String)
    ensures
        r@ == lowered(s@),
{
    let mut out = String::new();
    for c in it: s.chars()
        invariant
            it.seq() == s@,
            out@ == lowered(s@.take(it.index())),
    {
        out.push(lower_char(c));
        assert(lowered(s@.take(it.index() + 1)) =~= lowered(s@.take(it.index())).push(lower(c)));
    }
    assert(s@.take(s@.len() as int) =~= s@);
    out
}

/// Whether two texts are the same but for the case of ASCII letters.
pub fn same_ignoring_case(a: &str, b: &str) -> (r: bool)
    ensures
        r == (lowered(a@) == lowered(b@)),
{
    let x = to_lower(a);
    let y = to_lower(b);
    same(x.as_str(), y.as_str())
}

// Numbers.

/// The decimal digit of a number below ten.
pub open spec fn digit(n: nat) -> char {
    (('0' as u32 + n) as u32) as char
}

/// The decimal digits of a number.
pub open spec fn decimal(n: nat) -> Seq<char>
    decreases n,
{
    if n < 10 {
        seq![digit(n)]
    } else {
        decimal(n / 10).push(digit(n % 10))
    }
}

/// Writes a number in decimal digits.
pub fn to_decimal(n: u128) -> (r: String)
    ensures
        r@ == decimal(n as nat),
    decreases n,
{
    let d = ((n % 10) as u8 + 48u8) as char;
    if n < 10 {
        let mut s = String::new();
        s.push(d);
        assert(s@ =~= seq![digit(n as nat)]);
        s
    } else {
        let mut s = to_decimal(n / 10);
        s.push(d);
        s
    }
}

/// The number that decimal digits stand for, most significant first.
pub open spec fn digits_value(s: Seq<char>) -> Option<nat>
    decreases s.len(),
{
    if s.len() == 0 {
        Some(0nat)
    } else if '0' <= s.last() <= '9' {
        match digits_value(s.drop_last()) {
            Some(n) => Some(10 * n + (s.last() as u32 - '0' as u32) as nat),
            None => None,
        }
    } else {
        None
    }
}

/// The natural number that a text stands for: at least one digit, with or without a plus sign.
pub open spec fn unsigned(s: Seq<char>) -> Option<nat> {
    let digits = if s.len() > 0 && s[0] == '+' {
        s.skip(1)
    } else {
        s
    };
    if digits.len() == 0 {
        None
    } else {
        digits_value(digits)
    }
}

proof fn lemma_digits_prefix(s: Seq<char>, k: int)
    requires
        0 <= k <= s.len(),
        digits_value(s) is Some,
    ensures
        digits_value(s.take(k)) is Some,
        digits_value(s.take(k))->0 <= digits_value(s)->0,
    decreases s.len(),
{
    if k < s.len() {
        lemma_digits_prefix(s.drop_last(), k);
        assert(s.drop_last().take(k) =~= s.take(k));
    } else {
        assert(s.take(k) =~= s);
    }
}

/// Reads a natural number that is not above `max`.
pub fn parse_unsigned(s: &str, max: usize) -> (r: Option<usize>)
    ensures
        match r {
            Some(n) => unsigned(s@) == Some(n as nat) && n <= max,
            None => unsigned(s@) is None || unsigned(s@)->0 > max,
        },
{
    let v = chars_of(s);
    let n = v.len();
    let b: usize = if n > 0 && v[0] == '+' {
        1
    } else {
        0
    };
    let ghost digits = v@.skip(b as int);
    proof {
        if b == 0 {
            assert(digits =~= v@);
        }
    }
    if b == n {
        return None;
    }
    let mut total: usize = 0;
    let mut i = b;
    assert(digits.take(0) =~= Seq::<char>::empty());
    while i < n
        invariant
            b <= i <= n,
            n == v@.len(),
            digits == v@.skip(b as int),
            digits.len() > 0,
            unsigned(v@) == digits_value(digits),
            v@ == s@,
            digits_value(digits.take(i - b)) == Some(total as nat),
            total <= max,
        decreases n - i,
    {
        let c = v[i];
        let ghost next = digits.take(i + 1 - b);
        proof {
            assert(next.last() == c);
            assert(next.drop_last() =~= digits.take(i - b));
            if digits_value(digits) is Some {
                lemma_digits_prefix(digits, i + 1 - b);
            }
        }
        if c < '0' || c > '9' {
            return None;
        }
        let d: usize = (c as u32 - 48) as usize;
        if d > max || total > max / 10 || total * 10 > max - d {
            proof {
                assert(digits_value(next) == Some((10 * total + d) as nat));
                assert(10 * total + d > max);
            }
            return None;
        }
        total = total * 10 + d;
        i = i + 1;
    }
    assert(digits.take(n - b) =~= digits);
    Some(total)
}

// Laws.

proof fn lemma_digits(n: nat)
    ensures
        digits_value(decimal(n)) == Some(n),
        decimal(n).len() > 0,
        forall|i: int| 0 <= i < decimal(n).len() ==> '0' <= #[trigger] decimal(n)[i] <= '9',
    decreases n,
{
    if n < 10 {
        assert(seq![digit(n)].drop_last() =~= Seq::empty());
        assert(digits_value(Seq::empty()) == Some(0nat));
        assert(decimal(n).last() == digit(n));
    } else {
        lemma_digits(n / 10);
        assert(decimal(n).drop_last() =~= decimal(n / 10));
        assert(decimal(n).last() == digit(n % 10));
    }
}

/// A number that was written in decimal digits is read back.
pub proof fn law_decimal_is_read_back(n: nat)
    ensures
        unsigned(decimal(n)) == Some(n),
{
    lemma_digits(n);
    assert(decimal(n)[0] != '+');
}

/// White space is the tab and the line ends of ASCII, the blank, and the blanks and line ends of
/// Unicode, by their numbers.
pub proof fn law_white_space(c: char)
    ensures
        is_space(c) <==> {
            let u = c as u32;
            ||| 9 <= u <= 13
            ||| u == 32
            ||| u == 133
            ||| u == 160
            ||| u == 5760
            ||| 8192 <= u <= 8202
            ||| u == 8232
            ||| u == 8233
            ||| u == 8239
            ||| u == 8287
            ||| u == 12288
        },
{
}

/// Whether a text is white space all through.
pub open spec fn blank(s: Seq<char>) -> bool {
    forall|i: int| 0 <= i < s.len() ==> is_space(#[trigger] s[i])
}

proof fn lemma_blank_start(a: Seq<char>, x: Seq<char>)
    requires
        blank(a),
    ensures
        trimmed_start(a + x) == trimmed_start(x),
    decreases a.len(),
{
    if a.len() > 0 {
        assert(is_space(a[0]));
        assert((a + x)[0] == a[0]);
        assert((a + x).skip(1) =~= a.skip(1) + x);
        assert forall|i: int| 0 <= i < a.skip(1).len() implies is_space(#[trigger] a.skip(
            1)[i]) by {
            assert(is_space(a[i + 1]));
        }
        lemma_blank_start(a.skip(1), x);
    } else {
        assert(a + x =~= x);
    }
}

/// The white space behind a text that does not end in white space is what is removed at its end.
pub proof fn law_trimmed_end(t: Seq<char>, b: Seq<char>)
    requires
        blank(b),
        t.len() > 0 ==> !is_space(t.last()),
    ensures
        trimmed_end(t + b) == t,
    decreases b.len(),
{
    if b.len() > 0 {
        assert(is_space(b[b.len() - 1]));
        assert((t + b).last() == b.last());
        assert((t + b).drop_last() =~= t + b.drop_last());
        assert forall|i: int| 0 <= i < b.drop_last().len() implies is_space(
            #[trigger] b.drop_last()[i],
        ) by {
            assert(is_space(b[i]));
        }
        law_trimmed_end(t, b.drop_last());
    } else {
        assert(t + b =~= t);
    }
}

/// The white space on both sides of a text that neither starts nor ends in white space is what is
/// removed.
pub proof fn law_trimmed(a: Seq<char>, t: Seq<char>, b: Seq<char>)
    requires
        blank(a),
        blank(b),
        t.len() > 0 ==> !is_space(t[0]) && !is_space(t.last()),
    ensures
        trimmed(a + t + b) == t,
{
    assert(a + t + b =~= a + (t + b));
    lemma_blank_start(a, t + b);
    if t.len() > 0 {
        assert((t + b)[0] == t[0]);
        law_trimmed_end(t, b);
    } else {
        assert(t + b =~= b + Seq::empty());
        lemma_blank_start(b, Seq::empty());
        assert(trimmed_start(t + b) =~= Seq::empty());
    }
}

proof fn lemma_word(w: Seq<char>, rest: Seq<char>)
    requires
        forall|i: int| 0 <= i < w.len() ==> !is_space(#[trigger] w[i]),
        rest.len() > 0 ==> is_space(rest[0]),
    ensures
        word_len(w + rest) == w.len(),
    decreases w.len(),
{
    if w.len() > 0 {
        assert(!is_space(w[0]));
        assert((w + rest)[0] == w[0]);
        assert((w + rest).skip(1) =~= w.skip(1) + rest);
        assert forall|i: int| 0 <= i < w.skip(1).len() implies !is_space(
            #[trigger] w.skip(1)[i],
        ) by {
            assert(!is_space(w[i + 1]));
        }
        lemma_word(w.skip(1), rest);
    } else {
        assert(w + rest =~= rest);
    }
}

/// The first word of a text is what stands between its leading white space and the next, and the
/// rest is what follows.
pub proof fn law_first_word(a: Seq<char>, w: Seq<char>, rest: Seq<char>)
    requires
        blank(a),
        forall|i: int| 0 <= i < w.len() ==> !is_space(#[trigger] w[i]),
        rest.len() > 0 ==> w.len() > 0 && is_space(rest[0]),
    ensures
        first_word(a + w + rest) == w,
        after_word(a + w + rest) == rest,
{
    assert(a + w + rest =~= a + (w + rest));
    lemma_blank_start(a, w + rest);
    if w.len() > 0 {
        assert(!is_space(w[0]));
        assert((w + rest)[0] == w[0]);
    }
    lemma_word(w, rest);
    assert((w + rest).take(w.len() as int) =~= w);
    assert((w + rest).skip(w.len() as int) =~= rest);
}

/// A text is split at the first of the characters, and not where there is none.
pub proof fn law_split_at_first(a: Seq<char>, c: char, b: Seq<char>)
    requires
        !a.contains(c),
    ensures
        split_at_first(a.push(c) + b, c) == Some((a, b)),
        split_at_first(a, c) is None,
{
    let s = a.push(c) + b;
    assert(s[a.len() as int] == c);
    assert(s.contains(c));
    lemma_before(s, c);
    let k = before(s, c) as int;
    if k < a.len() {
        assert(a[k] == c);
    }
    assert(s.take(a.len() as int) =~= a);
    assert(s.skip(a.len() as int + 1) =~= b);
}

/// What stands behind the last of the characters holds none of them, and a text without it is all
/// of it behind.
pub proof fn law_behind_last(a: Seq<char>, c: char, b: Seq<char>)
    requires
        !b.contains(c),
    ensures
        behind_last(a.push(c) + b, c) == b,
        behind_last(b, c) == b,
    decreases b.len(),
{
    let s = a.push(c) + b;
    if b.len() > 0 {
        assert(b[b.len() - 1] == b.last());
        assert(s.last() == b.last());
        assert(s.drop_last() =~= a.push(c) + b.drop_last());
        assert(!b.drop_last().contains(c)) by {
            if b.drop_last().contains(c) {
                let i = choose|i: int| 0 <= i < b.drop_last().len() && b.drop_last()[i] == c;
                assert(b[i] == c);
            }
        }
        law_behind_last(a, c, b.drop_last());
        assert(b.drop_last().push(b.last()) =~= b);
    } else {
        assert(s.last() == c);
        assert(b =~= Seq::empty());
    }
}

/// Whether a text is nothing but one character.
pub open spec fn only(s: Seq<char>, c: char) -> bool {
    forall|i: int| 0 <= i < s.len() ==> #[trigger] s[i] == c
}

/// Every one of the characters at the end of a text is what is removed there, and none before.
pub proof fn law_stripped_end(t: Seq<char>, cs: Seq<char>, c: char)
    requires
        only(cs, c),
        t.len() > 0 ==> t.last() != c,
    ensures
        stripped_end(t + cs, c) == t,
    decreases cs.len(),
{
    if cs.len() > 0 {
        assert(cs[cs.len() - 1] == c);
        assert((t + cs).last() == c);
        assert((t + cs).drop_last() =~= t + cs.drop_last());
        law_stripped_end(t, cs.drop_last(), c);
    } else {
        assert(t + cs =~= t);
    }
}

/// Every one of the characters at the start of a text is what is removed there, and none behind.
pub proof fn law_stripped_start(cs: Seq<char>, t: Seq<char>, c: char)
    requires
        only(cs, c),
        t.len() > 0 ==> t[0] != c,
    ensures
        stripped_start(cs + t, c) == t,
    decreases cs.len(),
{
    if cs.len() > 0 {
        assert(cs[0] == c);
        assert((cs + t)[0] == c);
        assert((cs + t).skip(1) =~= cs.skip(1) + t);
        assert forall|i: int| 0 <= i < cs.skip(1).len() implies #[trigger] cs.skip(1)[i] == c by {
            assert(cs[i + 1] == c);
        }
        law_stripped_start(cs.skip(1), t, c);
    } else {
        assert(cs + t =~= t);
    }
}

/// A text starts with another exactly where it is that and something behind it.
pub proof fn law_begins(s: Seq<char>, p: Seq<char>, rest: Seq<char>)
    ensures
        begins(p + rest, p),
        (p + rest).skip(p.len() as int) == rest,
        begins(s, p) ==> s == p + s.skip(p.len() as int),
{
    assert((p + rest).take(p.len() as int) =~= p);
    assert((p + rest).skip(p.len() as int) =~= rest);
    if begins(s, p) {
        assert(s =~= s.take(p.len() as int) + s.skip(p.len() as int));
    }
}

/// A text stands in another exactly where the other is that with something on both sides.
pub proof fn law_occurs(s: Seq<char>, a: Seq<char>, p: Seq<char>, b: Seq<char>)
    ensures
        occurs(a + p + b, p),
        occurs(s, p) ==> exists|x: Seq<char>, y: Seq<char>| s == #[trigger] (x + p + y),
{
    let t = a + p + b;
    assert(t.subrange(a.len() as int, a.len() as int + p.len()) =~= p);
    if occurs(s, p) {
        let i = choose|i: int|
            0 <= i <= s.len() - p.len() && #[trigger] s.subrange(i, i + p.len()) == p;
        assert(s =~= s.take(i) + p + s.skip(i + p.len()));
    }
}

/// Making letters small adds thirty-two to the number of an ASCII capital, leaves every other
/// character as it is, and keeps the places.
pub proof fn law_lowered(s: Seq<char>, i: int)
    requires
        0 <= i < s.len(),
    ensures
        lowered(s).len() == s.len(),
        65 <= s[i] as u32 <= 90 ==> lowered(s)[i] as u32 == s[i] as u32 + 32,
        !(65 <= s[i] as u32 <= 90) ==> lowered(s)[i] == s[i],
{
}

/// A number below ten is written as its digit, and any other as the digits of its tens and then the
/// digit of its ones.
pub proof fn law_decimal_digits(n: nat, d: nat)
    requires
        d < 10,
    ensures
        decimal(d).len() == 1,
        decimal(d)[0] as u32 == 48 + d,
        n > 0 ==> decimal(10 * n + d) == decimal(n) + decimal(d),
{
    if n > 0 {
        assert((10 * n + d) / 10 == n);
        assert((10 * n + d) % 10 == d);
        assert(decimal(10 * n + d) =~= decimal(n) + decimal(d));
    }
}

proof fn lemma_only_digits(s: Seq<char>)
    requires
        digits_value(s) is Some,
    ensures
        forall|i: int| 0 <= i < s.len() ==> 48 <= (#[trigger] s[i]) as u32 <= 57,
    decreases s.len(),
{
    if s.len() > 0 {
        lemma_only_digits(s.drop_last());
        assert forall|i: int| 0 <= i < s.len() implies 48 <= (#[trigger] s[i]) as u32 <= 57 by {
            if i < s.len() - 1 {
                assert(s[i] == s.drop_last()[i]);
            }
        }
    }
}

/// A text stands for a number where it is at least one digit, with or without a plus sign before
/// it, and each further digit makes it ten times as much and the digit.
pub proof fn law_unsigned(s: Seq<char>, n: nat, d: nat)
    requires
        d < 10,
    ensures
        unsigned(seq!['+'] + decimal(n)) == Some(n),
        unsigned(Seq::empty()) is None,
        unsigned(seq!['+']) is None,
        unsigned(s) is Some ==> s.len() > 0 && (s[0] == '+' ==> s.len() > 1) && forall|i: int|
            0 <= i < s.len() ==> 48 <= (#[trigger] s[i]) as u32 <= 57 || (i == 0 && s[i] == '+'),
        unsigned(s) is Some ==> unsigned(s + decimal(d)) == Some((10 * unsigned(s)->0 + d) as nat),
{
    lemma_digits(n);
    let p = seq!['+'] + decimal(n);
    assert(p.skip(1) =~= decimal(n));
    assert(seq!['+'].skip(1) =~= Seq::empty());
    if unsigned(s) is Some {
        let t = s + decimal(d);
        assert(decimal(d) =~= seq![digit(d)]);
        assert(t[0] == s[0]);
        if s[0] == '+' {
            lemma_only_digits(s.skip(1));
            assert forall|i: int| 0 <= i < s.len() implies 48 <= (#[trigger] s[i]) as u32 <= 57 || (
                i
                == 0 && s[i] == '+') by {
                if i > 0 {
                    assert(s[i] == s.skip(1)[i - 1]);
                }
            }
            assert(t.skip(1).drop_last() =~= s.skip(1));
            assert(t.skip(1).last() == digit(d));
        } else {
            lemma_only_digits(s);
            assert(t.drop_last() =~= s);
            assert(t.last() == digit(d));
        }
    }
}

} // verus!
