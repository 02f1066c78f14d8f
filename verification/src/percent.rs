//! Percent escapes in the paths of requests.

use vstd::prelude::*;
use vstd::utf8::*;

use crate::text::{concat, split_once, utf8_lossy};

verus! {

/// The byte of a percent sign.
pub const PERCENT: u8 = 0x25;

/// The byte of a plus sign.
pub const PLUS: u8 = 0x2b;

/// The value of a hexadecimal digit.
pub open spec fn hex_digit(b: u8) -> Option<int> {
    if 0x30 <= b <= 0x39 {
        Some(b - 0x30)
    } else if 0x61 <= b <= 0x66 {
        Some(b - 0x61 + 10)
    } else if 0x41 <= b <= 0x46 {
        Some(b - 0x41 + 10)
    } else {
        None
    }
}

/// The byte that the two characters of an escape stand for: two hexadecimal digits, or a plus sign
/// and one.
pub open spec fn escape_value(hi: u8, lo: u8) -> Option<u8> {
    match hex_digit(lo) {
        Some(l) => if hi == PLUS {
            Some(l as u8)
        } else {
            match hex_digit(hi) {
                Some(h) => Some((16 * h + l) as u8),
                None => None,
            }
        },
        None => None,
    }
}

/// Bytes with their escapes resolved. A percent sign that starts no escape stands for itself.
pub open spec fn percent_decoded(b: Seq<u8>) -> Seq<u8>
    decreases b.len(),
{
    if b.len() == 0 {
        Seq::empty()
    } else if b[0] == PERCENT && b.len() > 2 && escape_value(b[1], b[2]) is Some {
        seq![escape_value(b[1], b[2])->0] + percent_decoded(b.skip(3))
    } else {
        seq![b[0]] + percent_decoded(b.skip(1))
    }
}

/// Whether the two bytes behind each percent sign that is looked at end where a character ends.
pub open spec fn escapes_fit(b: Seq<u8>) -> bool
    decreases b.len(),
{
    if b.len() == 0 {
        true
    } else if b[0] == PERCENT && b.len() > 2 {
        &&& b.len() > 3 ==> !is_continuation_byte(b[3])
        &&& if escape_value(b[1], b[2]) is Some {
            escapes_fit(b.skip(3))
        } else {
            escapes_fit(b.skip(1))
        }
    } else {
        escapes_fit(b.skip(1))
    }
}

/// The path that a text with escapes stands for: what stands before the first percent sign stays,
/// and the rest is the text of its bytes with their escapes resolved.
pub open spec fn decoded(p: Seq<char>) -> Seq<char> {
    let k = crate::text::before(p, '%') as int;
    p.take(k) + crate::text::text_of(percent_decoded(encode_utf8(p.skip(k))))
}

/// Whether bytes are others with some of them written as escapes: each percent sign, and any
/// others. The digits of an escape may be in either case.
pub open spec fn escapes(e: Seq<u8>, b: Seq<u8>) -> bool
    decreases e.len(),
{
    if e.len() == 0 {
        b.len() == 0
    } else if e[0] == PERCENT {
        &&& e.len() > 2
        &&& b.len() > 0
        &&& hex_digit(e[1]) == Some(b[0] as int / 16)
        &&& hex_digit(e[2]) == Some(b[0] as int % 16)
        &&& escapes(e.skip(3), b.skip(1))
    } else {
        &&& b.len() > 0
        &&& b[0] == e[0]
        &&& escapes(e.skip(1), b.skip(1))
    }
}

/// Resolving escapes undoes writing bytes as escapes, whichever of them and in whatever case.
pub proof fn law_decoding_undoes_escaping(e: Seq<u8>, b: Seq<u8>)
    requires
        escapes(e, b),
    ensures
        percent_decoded(e) == b,
    decreases e.len(),
{
    if e.len() > 0 {
        assert(seq![b[0]] + b.skip(1) =~= b);
        if e[0] == PERCENT {
            law_decoding_undoes_escaping(e.skip(3), b.skip(1));
            assert(16 * (b[0] as int / 16) + b[0] as int % 16 == b[0]);
            assert(escape_value(e[1], e[2]) == Some(b[0]));
        } else {
            law_decoding_undoes_escaping(e.skip(1), b.skip(1));
        }
    }
}

/// A character starts behind an ASCII character.
proof fn lemma_behind_ascii(bytes: Seq<u8>, k: int)
    requires
        valid_utf8(bytes),
        0 <= k < bytes.len() - 1,
        bytes[k] <= 0x7f,
    ensures
        !is_continuation_byte(bytes[k + 1]),
    decreases bytes.len(),
{
    let n = length_of_first_scalar(bytes);
    let rest = pop_first_scalar(bytes);
    if k < n {
        assert(k == 0 && n == 1);
        assert(rest[0] == bytes[1]);
        assert(valid_utf8(rest));
    } else {
        assert(rest[k - n] == bytes[k]);
        assert(rest[k - n + 1] == bytes[k + 1]);
        lemma_behind_ascii(rest, k - n);
    }
}

/// Escapes in a text cut no character in two.
proof fn lemma_escapes_fit(whole: Seq<u8>, i: int, b: Seq<u8>)
    requires
        valid_utf8(whole),
        0 <= i <= whole.len(),
        escapes(whole.skip(i), b),
    ensures
        escapes_fit(whole.skip(i)),
    decreases whole.len() - i,
{
    let e = whole.skip(i);
    if e.len() > 0 {
        if e[0] == PERCENT {
            assert(e.skip(3) =~= whole.skip(i + 3));
            lemma_escapes_fit(whole, i + 3, b.skip(1));
            assert(16 * (b[0] as int / 16) + b[0] as int % 16 == b[0]);
            if e.len() > 3 {
                assert(e[2] == whole[i + 2] && e[3] == whole[i + 3]);
                lemma_behind_ascii(whole, i + 2);
            }
        } else {
            assert(e.skip(1) =~= whole.skip(i + 1));
            lemma_escapes_fit(whole, i + 1, b.skip(1));
        }
    }
}

/// A text that is another with some of its bytes written as escapes, whichever of them and in
/// whatever case, is taken by `decode_path` and stands for the other.
pub proof fn law_escaped_text_is_decoded(p: Seq<char>, t: Seq<char>)
    requires
        escapes(encode_utf8(p), encode_utf8(t)),
    ensures
        escapes_fit(encode_utf8(p)),
        decoded(p) == t,
{
    let e = encode_utf8(p);
    encode_utf8_valid_utf8(p);
    encode_utf8_valid_utf8(t);
    encode_utf8_decode_utf8(t);
    assert(e.skip(0) =~= e);
    lemma_escapes_fit(e, 0, encode_utf8(t));
    law_decoding_undoes_escaping(e, encode_utf8(t));
    lemma_decoded_utf8(p);
}

/// Bytes without a percent sign stand for themselves.
pub proof fn law_no_escape_no_change(b: Seq<u8>)
    requires
        !b.contains(PERCENT),
    ensures
        percent_decoded(b) == b,
        escapes_fit(b),
    decreases b.len(),
{
    if b.len() > 0 {
        assert(b.contains(b[0]));
        assert forall|x: u8| b.skip(1).contains(x) implies b.contains(x) by {
            let i = choose|i: int| 0 <= i < b.skip(1).len() && b.skip(1)[i] == x;
            assert(b[i + 1] == x);
        }
        law_no_escape_no_change(b.skip(1));
        assert(seq![b[0]] + b.skip(1) =~= b);
    }
}

/// Resolving escapes never makes bytes longer.
pub proof fn law_decoding_never_lengthens(b: Seq<u8>)
    ensures
        percent_decoded(b).len() <= b.len(),
    decreases b.len(),
{
    if b.len() > 0 {
        if b[0] == PERCENT && b.len() > 2 && escape_value(b[1], b[2]) is Some {
            law_decoding_never_lengthens(b.skip(3));
        } else {
            law_decoding_never_lengthens(b.skip(1));
        }
    }
}

/// The bytes of a character other than the percent sign hold no percent sign.
proof fn lemma_scalar_without_percent(c: char)
    requires
        c != '%',
    ensures
        !encode_scalar(c as u32).contains(PERCENT),
{
    let v = c as u32;
    char_is_scalar(c);
    assert(v <= 0x7f ==> (v & 0x7f) as u8 == v) by (bit_vector);
    assert(0xc0u8 | ((v >> 6) & 0x1f) as u8 >= 0x80) by (bit_vector);
    assert(0xe0u8 | ((v >> 12) & 0x0f) as u8 >= 0x80) by (bit_vector);
    assert(0xf0u8 | ((v >> 18) & 0x7) as u8 >= 0x80) by (bit_vector);
    assert(0x80u8 | (v & 0x3f) as u8 >= 0x80) by (bit_vector);
    assert(0x80u8 | ((v >> 6) & 0x3f) as u8 >= 0x80) by (bit_vector);
    assert(0x80u8 | ((v >> 12) & 0x3f) as u8 >= 0x80) by (bit_vector);
}

/// The bytes of a text without a percent sign hold no percent sign.
proof fn lemma_encoding_without_percent(p: Seq<char>)
    requires
        !p.contains('%'),
    ensures
        !encode_utf8(p).contains(PERCENT),
    decreases p.len(),
{
    if p.len() > 0 {
        let rest = p.drop_first();
        assert(p.contains(p[0]));
        lemma_scalar_without_percent(p[0]);
        assert(!rest.contains('%')) by {
            if rest.contains('%') {
                let i = choose|i: int| 0 <= i < rest.len() && rest[i] == '%';
                assert(p[i + 1] == '%');
            }
        }
        lemma_encoding_without_percent(rest);
        let head = encode_scalar(p[0] as u32);
        let whole = encode_utf8(p);
        if whole.contains(PERCENT) {
            let i = choose|i: int| 0 <= i < whole.len() && whole[i] == PERCENT;
            if i < head.len() {
                assert(head[i] == PERCENT);
            } else {
                assert(encode_utf8(rest)[i - head.len()] == PERCENT);
            }
        }
    }
}

/// Bytes without a percent sign in front of others stay in front of what the others stand for.
proof fn lemma_prefix_stays(x: Seq<u8>, y: Seq<u8>)
    requires
        !x.contains(PERCENT),
    ensures
        percent_decoded(x + y) == x + percent_decoded(y),
        escapes_fit(x + y) == escapes_fit(y),
    decreases x.len(),
{
    if x.len() > 0 {
        let short = x.skip(1);
        assert(x.contains(x[0]));
        assert forall|c: u8| short.contains(c) implies x.contains(c) by {
            let i = choose|i: int| 0 <= i < short.len() && short[i] == c;
            assert(x[i + 1] == c);
        }
        lemma_prefix_stays(short, y);
        assert((x + y)[0] == x[0]);
        assert((x + y).skip(1) =~= short + y);
        assert(seq![x[0]] + (short + percent_decoded(y)) =~= x + percent_decoded(y));
    } else {
        assert(x + y =~= y);
        assert(x + percent_decoded(y) =~= percent_decoded(y));
    }
}

/// A text is what stands before its first percent sign, and the rest.
proof fn lemma_parts(p: Seq<char>)
    ensures
        ({
            let k = crate::text::before(p, '%') as int;
            &&& 0 <= k <= p.len()
            &&& !p.take(k).contains('%')
            &&& encode_utf8(p) == encode_utf8(p.take(k)) + encode_utf8(p.skip(k))
            &&& percent_decoded(encode_utf8(p)) == encode_utf8(p.take(k)) + percent_decoded(
                encode_utf8(p.skip(k)),
            )
        }),
{
    let k = crate::text::before(p, '%') as int;
    crate::text::lemma_before(p, '%');
    assert(!p.take(k).contains('%'));
    assert(p.take(k) + p.skip(k) =~= p);
    crate::text::lemma_encoding_of_both(p.take(k), p.skip(k));
    lemma_encoding_without_percent(p.take(k));
    lemma_prefix_stays(encode_utf8(p.take(k)), encode_utf8(p.skip(k)));
}

/// Where the bytes with their escapes resolved are UTF-8, the path is what they encode.
proof fn lemma_decoded_utf8(p: Seq<char>)
    requires
        valid_utf8(percent_decoded(encode_utf8(p))),
    ensures
        decoded(p) == decode_utf8(percent_decoded(encode_utf8(p))),
{
    lemma_parts(p);
    let k = crate::text::before(p, '%') as int;
    let x = encode_utf8(p.take(k));
    let y = percent_decoded(encode_utf8(p.skip(k)));
    let whole = x + y;
    encode_utf8_valid_utf8(p.take(k));
    assert(whole.subrange(0, x.len() as int) =~= x);
    assert(whole.subrange(x.len() as int, whole.len() as int) =~= y);
    if !valid_utf8(y) {
        partial_valid_partial_invalid_utf8(whole, x.len() as int);
    }
    decode_utf8_encode_utf8(y);
    crate::text::lemma_encoding_of_both(p.take(k), decode_utf8(y));
    encode_utf8_decode_utf8(p.take(k) + decode_utf8(y));
}

/// A text without a percent sign in front of another stays as it is in front of what the other
/// stands for, whatever that is: a plus sign stays one, and so does every character.
pub proof fn law_prefix_stays(a: Seq<char>, b: Seq<char>)
    requires
        !a.contains('%'),
    ensures
        decoded(a + b) == a + decoded(b),
        escapes_fit(encode_utf8(a + b)) == escapes_fit(encode_utf8(b)),
{
    let p = a + b;
    let j = crate::text::before(b, '%') as int;
    lemma_before_behind(a, b);
    crate::text::lemma_before(b, '%');
    assert(p.take(a.len() + j) =~= a + b.take(j));
    assert(p.skip(a.len() + j) =~= b.skip(j));
    assert(decoded(p) =~= a + decoded(b));
    crate::text::lemma_encoding_of_both(a, b);
    lemma_encoding_without_percent(a);
    lemma_prefix_stays(encode_utf8(a), encode_utf8(b));
}

/// The first percent sign behind a text without one.
proof fn lemma_before_behind(a: Seq<char>, b: Seq<char>)
    requires
        !a.contains('%'),
    ensures
        crate::text::before(a + b, '%') == a.len() + crate::text::before(b, '%'),
    decreases a.len(),
{
    if a.len() > 0 {
        assert(a.contains(a[0]));
        let short = a.skip(1);
        assert(!short.contains('%')) by {
            if short.contains('%') {
                let i = choose|i: int| 0 <= i < short.len() && short[i] == '%';
                assert(a[i + 1] == '%');
            }
        }
        lemma_before_behind(short, b);
        assert((a + b).skip(1) =~= short + b);
        assert((a + b)[0] == a[0]);
    } else {
        assert(a + b =~= b);
    }
}

fn hex(b: u8) -> (r: Option<u8>)
    ensures
        match r {
            Some(v) => hex_digit(b) == Some(v as int) && v < 16,
            None => hex_digit(b) is None,
        },
{
    if 0x30 <= b && b <= 0x39 {
        Some(b - 0x30)
    } else if 0x61 <= b && b <= 0x66 {
        Some(b - 0x61 + 10)
    } else if 0x41 <= b && b <= 0x46 {
        Some(b - 0x41 + 10)
    } else {
        None
    }
}

fn escape(hi: u8, lo: u8) -> (r: Option<u8>)
    ensures
        r == escape_value(hi, lo),
{
    match hex(lo) {
        Some(l) => if hi == PLUS {
            Some(l)
        } else {
            match hex(hi) {
                Some(h) => Some(16 * h + l),
                None => None,
            }
        },
        None => None,
    }
}

/// Whether `decode_path` takes a path: no escape cuts a character in two.
pub fn path_can_be_decoded(p: &str) -> (r: bool)
    ensures
        r == escapes_fit(encode_utf8(p@)),
{
    let b = p.as_bytes();
    let n = b.len();
    let mut i: usize = 0;
    assert(b@.skip(0) =~= b@);
    while i < n
        invariant
            i <= n,
            n == b@.len(),
            b@ == encode_utf8(p@),
            escapes_fit(b@.skip(i as int)) == escapes_fit(b@),
        decreases n - i,
    {
        let ghost rest = b@.skip(i as int);
        assert(rest[0] == b@[i as int]);
        assert(rest.skip(1) =~= b@.skip(i + 1));
        if b[i] == PERCENT && n - i > 2 {
            proof {
                assert(rest[1] == b@[i + 1] && rest[2] == b@[i + 2]);
                assert(rest.skip(3) =~= b@.skip(i + 3));
                if n - i > 3 {
                    assert(rest[3] == b@[i + 3]);
                }
            }
            if n - i > 3 && 0x80 <= b[i + 3] && b[i + 3] <= 0xbf {
                return false;
            }
            if escape(b[i + 1], b[i + 2]).is_some() {
                i = i + 3;
            } else {
                i = i + 1;
            }
        } else {
            i = i + 1;
        }
    }
    true
}

/// Bytes with their escapes resolved.
fn resolve(b: &[u8]) -> (r: Vec<u8>)
    ensures
        r@ == percent_decoded(b@),
{
    let n = b.len();
    let mut out: Vec<u8> = Vec::new();
    let mut i: usize = 0;
    assert(b@.skip(0) =~= b@);
    assert(out@ + percent_decoded(b@.skip(0)) =~= percent_decoded(b@));
    while i < n
        invariant
            i <= n,
            n == b@.len(),
            out@ + percent_decoded(b@.skip(i as int)) == percent_decoded(b@),
        decreases n - i,
    {
        let ghost rest = b@.skip(i as int);
        let ghost had = out@;
        assert(rest[0] == b@[i as int]);
        assert(rest.skip(1) =~= b@.skip(i + 1));
        let mut step: usize = 1;
        let mut byte = b[i];
        if b[i] == PERCENT && n - i > 2 {
            proof {
                assert(rest[1] == b@[i + 1] && rest[2] == b@[i + 2]);
                assert(rest.skip(3) =~= b@.skip(i + 3));
            }
            match escape(b[i + 1], b[i + 2]) {
                Some(v) => {
                    byte = v;
                    step = 3;
                },
                None => {},
            }
        }
        out.push(byte);
        i = i + step;
        proof {
            assert(had + percent_decoded(rest) =~= out@ + percent_decoded(b@.skip(i as int)));
        }
    }
    assert(b@.skip(n as int) =~= Seq::<u8>::empty());
    assert(out@ =~= percent_decoded(b@));
    out
}

/// Resolves the escapes of a path. Where the bytes that come of it are not UTF-8, replacement
/// characters stand for what is not.
pub fn decode_path(p: &str) -> (r: String)
    requires
        escapes_fit(encode_utf8(p@)),
    ensures
        r@ == decoded(p@),
        valid_utf8(percent_decoded(encode_utf8(p@))) ==> r@ == decode_utf8(
            percent_decoded(encode_utf8(p@)),
        ),
        !p@.contains('%') ==> r@ == p@,
{
    proof {
        crate::text::lemma_before(p@, '%');
        if valid_utf8(percent_decoded(encode_utf8(p@))) {
            lemma_decoded_utf8(p@);
        }
        if !p@.contains('%') {
            assert(p@.take(p@.len() as int) =~= p@);
            assert(p@.skip(p@.len() as int) =~= Seq::empty());
            assert(decoded(p@) =~= p@);
        }
    }
    match split_once(p, '%') {
        Some((kept, behind)) => {
            let rest = concat("%", behind.as_str());
            proof {
                reveal_strlit("%");
                assert(rest@ =~= p@.skip(crate::text::before(p@, '%') as int));
            }
            let out = resolve(rest.as_str().as_bytes());
            concat(kept.as_str(), utf8_lossy(&out).as_str())
        },
        None => p.to_owned(),
    }
}

// Laws of single escapes.

/// The digits of an escape are the ten figures and the first six letters, in either case.
pub proof fn law_hex_digits(b: u8, d: int)
    ensures
        0 <= d < 10 && b == 48 + d ==> hex_digit(b) == Some(d),
        10 <= d < 16 && b == 97 + (d - 10) ==> hex_digit(b) == Some(d),
        10 <= d < 16 && b == 65 + (d - 10) ==> hex_digit(b) == Some(d),
        hex_digit(b) matches Some(v)
            ==> 0 <= v < 16 && (b == 48 + v || b == 97 + (v - 10) || b == 65 + (
        v - 10)),
{
}

/// A percent sign with two digits behind it is the byte of the digits, with a plus sign and a digit
/// it is the digit, and else it stays, as every other byte does.
pub proof fn law_one_escape(x: u8, h: u8, l: u8, rest: Seq<u8>)
    ensures
        x != PERCENT ==> percent_decoded(seq![x] + rest) == seq![x] + percent_decoded(rest),
        hex_digit(h) is Some && hex_digit(l) is Some ==> percent_decoded(
            seq![PERCENT, h, l] + rest,
        ) == seq![(16 * hex_digit(h)->0 + hex_digit(l)->0) as u8] + percent_decoded(rest),
        h == 43 && hex_digit(l) is Some ==> percent_decoded(seq![PERCENT, h, l] + rest) == seq![
            hex_digit(l)->0 as u8,
        ] + percent_decoded(rest),
        hex_digit(l) is None || (hex_digit(h) is None && h != 43) ==> percent_decoded(
            seq![PERCENT, h, l] + rest,
        ) == seq![PERCENT] + percent_decoded(seq![h, l] + rest),
        percent_decoded(seq![PERCENT]) == seq![PERCENT],
        percent_decoded(seq![PERCENT, h]) == seq![PERCENT] + percent_decoded(seq![h]),
        percent_decoded(Seq::empty()) == Seq::<u8>::empty(),
        PERCENT == 37,
{
    let a = seq![x] + rest;
    assert(a[0] == x && a.skip(1) =~= rest);
    let e = seq![PERCENT, h, l] + rest;
    assert(e[0] == PERCENT && e[1] == h && e[2] == l);
    assert(e.skip(3) =~= rest);
    assert(e.skip(1) =~= seq![h, l] + rest);
    assert(seq![PERCENT].skip(1) =~= Seq::empty());
    assert(percent_decoded(seq![PERCENT]) =~= seq![PERCENT] + percent_decoded(Seq::empty()));
    assert(percent_decoded(seq![PERCENT]) =~= seq![PERCENT]);
    assert(seq![PERCENT, h].skip(1) =~= seq![h]);
}

/// Escapes cut a character in two only where, two bytes behind a percent sign, a character goes on.
pub proof fn law_cut_characters(b: Seq<u8>)
    requires
        forall|i: int|
            0 <= i < b.len() - 3 && #[trigger] b[i] == PERCENT ==> !is_continuation_byte(b[i + 3]),
    ensures
        escapes_fit(b),
    decreases b.len(),
{
    if b.len() > 0 {
        let one = b.skip(1);
        assert forall|i: int| 0 <= i < one.len() - 3 && #[trigger] one[i] == PERCENT implies
            !is_continuation_byte(one[i + 3]) by {
            assert(b[i + 1] == PERCENT);
        }
        law_cut_characters(one);
        if b[0] == PERCENT && b.len() > 2 {
            let three = b.skip(3);
            assert forall|i: int| 0 <= i < three.len() - 3 && #[trigger] three[i] == PERCENT implies
                !is_continuation_byte(three[i + 3]) by {
                assert(b[i + 3] == PERCENT);
            }
            law_cut_characters(three);
        }
    }
}

/// A percent sign is looked at with the two bytes behind it, and is refused where a character goes
/// on behind those.
pub proof fn law_refused_escape(h: u8, l: u8, c: u8, rest: Seq<u8>)
    requires
        is_continuation_byte(c),
    ensures
        !escapes_fit(seq![PERCENT, h, l, c] + rest),
{
    let e = seq![PERCENT, h, l, c] + rest;
    assert(e[0] == PERCENT && e[3] == c);
}

/// Where the bytes of a path, their escapes resolved, are UTF-8, the path is what they encode; and
/// the part before the first percent sign is always kept.
pub proof fn law_decoded_path(p: Seq<char>)
    ensures
        valid_utf8(percent_decoded(encode_utf8(p))) ==> decoded(p) == decode_utf8(
            percent_decoded(encode_utf8(p)),
        ),
        !p.contains('%') ==> decoded(p) == p,
{
    if valid_utf8(percent_decoded(encode_utf8(p))) {
        lemma_decoded_utf8(p);
    }
    if !p.contains('%') {
        crate::text::lemma_before(p, '%');
        assert(p.take(p.len() as int) =~= p);
        assert(p.skip(p.len() as int) =~= Seq::empty());
        assert(decoded(p) =~= p);
    }
}

/// Whether the escapes of some bytes fit goes on behind a byte that is no percent sign, behind an
/// escape, and behind a percent sign that starts none; and no character may go on behind the two
/// bytes that are looked at.
pub proof fn law_escapes_fit(x: u8, h: u8, l: u8, rest: Seq<u8>)
    ensures
        x != PERCENT ==> escapes_fit(seq![x] + rest) == escapes_fit(rest),
        (rest.len() > 0
            ==> !is_continuation_byte(rest[0])) && hex_digit(l) is Some && (hex_digit(h) is Some
            || h == 43) ==> escapes_fit(seq![PERCENT, h, l] + rest) == escapes_fit(rest),
        (rest.len() > 0 ==> !is_continuation_byte(rest[0])) && !(hex_digit(l) is Some && (hex_digit(
            h,
        ) is Some || h == 43)) ==> escapes_fit(seq![PERCENT, h, l] + rest) == escapes_fit(
            seq![h, l] + rest,
        ),
        rest.len() > 0 && is_continuation_byte(rest[0])
            ==> !escapes_fit(seq![PERCENT, h, l] + rest),
        escapes_fit(seq![PERCENT]),
        escapes_fit(seq![PERCENT, h]) == escapes_fit(seq![h]),
        escapes_fit(Seq::empty()),
{
    let a = seq![x] + rest;
    assert(a[0] == x && a.skip(1) =~= rest);
    let e = seq![PERCENT, h, l] + rest;
    assert(e[0] == PERCENT && e[1] == h && e[2] == l);
    assert(rest.len() > 0 ==> e[3] == rest[0]);
    assert(e.skip(3) =~= rest);
    assert(e.skip(1) =~= seq![h, l] + rest);
    assert(seq![PERCENT].skip(1) =~= Seq::empty());
    assert(escapes_fit(Seq::<u8>::empty()));
    assert(seq![PERCENT, h].skip(1) =~= seq![h]);
}

/// The part of a path before the first percent sign stays, and the rest is the text of its bytes
/// with their escapes resolved: what they encode, or where they are no UTF-8 what is made of them.
pub proof fn law_path_from_the_first_escape(a: Seq<char>, b: Seq<char>)
    requires
        !a.contains('%'),
        b.len() > 0,
        b[0] == '%',
    ensures
        ({
            let bytes = percent_decoded(encode_utf8(b));
            &&& valid_utf8(bytes) ==> decoded(a + b) == a + decode_utf8(bytes)
            &&& !valid_utf8(bytes) ==> decoded(a + b) == a + crate::text::lossy_text(bytes)
        }),
{
    let p = a + b;
    assert(p[a.len() as int] == '%');
    assert(p.contains('%'));
    crate::text::lemma_before(p, '%');
    let k = crate::text::before(p, '%') as int;
    if k < a.len() {
        assert(a[k] == '%');
    }
    assert(k == a.len());
    assert(p.take(k) =~= a);
    assert(p.skip(k) =~= b);
}

} // verus!
