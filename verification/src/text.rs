//! Reading and writing of values as text: decimal integers and words
//! compared without regard to ASCII case.

use vstd::prelude::*;

verus! {

/// Whether `c` is one of the ten ASCII digits.
pub open spec fn is_digit(c: char) -> bool {
    '0' <= c <= '9'
}

/// The number a digit stands for.
pub open spec fn digit_value(c: char) -> int {
    c as int - '0' as int
}

/// Whether the sequence holds digits only.
pub open spec fn all_digits(s: Seq<char>) -> bool {
    forall|i: int| 0 <= i < s.len() ==> is_digit(#[trigger] s[i])
}

/// The number that a sequence of digits denotes in base ten, the empty
/// sequence denoting zero.
pub open spec fn digits_value(s: Seq<char>) -> int
    decreases s.len(),
{
    if s.len() == 0 {
        0
    } else {
        digits_value(s.drop_last()) * 10 + digit_value(s.last())
    }
}

/// Whether the text opens with a sign.
pub open spec fn has_sign(s: Seq<char>) -> bool {
    s.len() > 0 && (s[0] == '-' || s[0] == '+')
}

/// The part of the text that follows the sign, if there is one.
pub open spec fn unsigned_part(s: Seq<char>) -> Seq<char> {
    if has_sign(s) {
        s.subrange(1, s.len() as int)
    } else {
        s
    }
}

/// The integer that the text denotes, before any bound is applied: an
/// optional `+` or `-` followed by digits.
pub open spec fn signed_value(s: Seq<char>) -> int {
    if has_sign(s) && s[0] == '-' {
        -digits_value(unsigned_part(s))
    } else {
        digits_value(unsigned_part(s))
    }
}

/// The 64-bit signed integer that a text denotes in base ten. The text is an
/// optional sign followed by at least one digit and nothing else, and the
/// number must fit; any other text denotes nothing.
pub open spec fn decimal_i64(s: Seq<char>) -> Option<i64> {
    if unsigned_part(s).len() > 0 && all_digits(unsigned_part(s)) && i64::MIN <= signed_value(s)
        <= i64::MAX {
        Some(signed_value(s) as i64)
    } else {
        None
    }
}

/// A longer run of digits never denotes less than its beginning.
proof fn lemma_digits_value_grows(s: Seq<char>, c: char)
    requires
        all_digits(s),
        is_digit(c),
    ensures
        digits_value(s) >= 0,
        digits_value(s.push(c)) == digits_value(s) * 10 + digit_value(c),
        digits_value(s.push(c)) >= digits_value(s),
    decreases s.len(),
{
    assert(s.push(c).drop_last() =~= s);
    assert(s.push(c).last() == c);
    if s.len() > 0 {
        let front = s.drop_last();
        assert(front.push(s.last()) =~= s);
        assert(is_digit(s[s.len() - 1]));
        assert forall|i: int| 0 <= i < front.len() implies is_digit(#[trigger] front[i]) by {
            assert(front[i] == s[i]);
        }
        lemma_digits_value_grows(front, s.last());
    }
}

/// Reads a 64-bit signed integer written in base ten.
pub fn parse_decimal(s: &str) -> (r: Option<i64>)
    ensures
        r == decimal_i64(s@),
{
    let limit: i128 = 9223372036854775808;
    let mut first: bool = true;
    let mut signed: bool = false;
    let mut negative: bool = false;
    let mut seen: bool = false;
    let mut valid: bool = true;
    let mut too_big: bool = false;
    let mut acc: i128 = 0;
    for c in it: s.chars()
        invariant
            it.seq() == s@,
            limit == 9223372036854775808,
            first == (it.index() == 0),
            signed == (it.index() > 0 && has_sign(s@)),
            negative == (signed && s@[0] == '-'),
            seen == (it.index() > (if signed { 1int } else { 0int })),
            valid == all_digits(s@.subrange(if signed { 1int } else { 0int }, it.index())),
            valid && !too_big ==> 0 <= acc <= limit && acc == digits_value(
                s@.subrange(if signed { 1int } else { 0int }, it.index()),
            ),
            valid && too_big ==> digits_value(
                s@.subrange(if signed { 1int } else { 0int }, it.index()),
            ) > limit,
    {
        let ghost k = it.index();
        if first && (c == '-' || c == '+') {
            signed = true;
            negative = c == '-';
            proof {
                assert(s@.subrange(1, 1) =~= Seq::<char>::empty());
            }
        } else {
            let ghost start = if signed { 1int } else { 0int };
            let ghost before = s@.subrange(start, k);
            proof {
                assert(s@.subrange(start, k + 1) =~= before.push(c));
            }
            seen = true;
            if valid {
                if '0' <= c && c <= '9' {
                    proof {
                        lemma_digits_value_grows(before, c);
                        assert forall|i: int| 0 <= i < before.push(c).len() implies is_digit(
                            #[trigger] before.push(c)[i],
                        ) by {
                            if i < before.len() {
                                assert(before.push(c)[i] == before[i]);
                            }
                        }
                    }
                    if !too_big {
                        let d: i128 = (c as u32 - '0' as u32) as i128;
                        acc = acc * 10 + d;
                        if acc > limit {
                            too_big = true;
                        }
                    }
                } else {
                    valid = false;
                    proof {
                        assert(before.push(c)[k - start] == c);
                    }
                }
            } else {
                proof {
                    let i = choose|i: int| 0 <= i < before.len() && !is_digit(#[trigger] before[i]);
                    assert(before.push(c)[i] == before[i]);
                }
            }
        }
        first = false;
    }
    proof {
        let start = if signed { 1int } else { 0int };
        assert(s@.subrange(start, s@.len() as int) =~= unsigned_part(s@));
    }
    if !seen || !valid || too_big {
        return None;
    }
    let v: i128 = if negative { -acc } else { acc };
    if v > 9223372036854775807 {
        None
    } else {
        Some(v as i64)
    }
}

/// Whether two texts hold the same characters.
pub fn same_text(a: &str, b: &str) -> (r: bool)
    ensures
        r == (a@ == b@),
{
    let x = a.as_bytes();
    let y = b.as_bytes();
    proof {
        vstd::utf8::encode_utf8_decode_utf8(a@);
        vstd::utf8::encode_utf8_decode_utf8(b@);
    }
    if x.len() != y.len() {
        return false;
    }
    let mut i: usize = 0;
    while i < x.len()
        invariant
            i <= x@.len(),
            x@.len() == y@.len(),
            x@ == vstd::utf8::encode_utf8(a@),
            y@ == vstd::utf8::encode_utf8(b@),
            vstd::utf8::decode_utf8(vstd::utf8::encode_utf8(a@)) == a@,
            vstd::utf8::decode_utf8(vstd::utf8::encode_utf8(b@)) == b@,
            forall|j: int| 0 <= j < i ==> x@[j] == y@[j],
        decreases x@.len() - i,
    {
        if x[i] != y[i] {
            proof {
                assert(x@[i as int] != y@[i as int]);
            }
            return false;
        }
        i = i + 1;
    }
    proof {
        assert(x@ =~= y@);
    }
    true
}

/// The small letter of a capital whose small letter is an ASCII letter: of an
/// ASCII capital, and of the Kelvin sign, whose small letter is `k`. Any
/// other character is itself.
pub open spec fn small_letter(c: char) -> char {
    if 'A' <= c <= 'Z' {
        ((c as u8) + 32) as char
    } else if c == '\u{212A}' {
        'k'
    } else {
        c
    }
}

/// A text with each such capital replaced by its small letter. It reads as
/// a word of ASCII small letters and digits exactly when the text in lower
/// case does.
pub open spec fn lowered(s: Seq<char>) -> Seq<char> {
    Seq::new(s.len(), |i: int| small_letter(s[i]))
}

/// Turns a capital into its small letter, where that is an ASCII letter.
pub fn to_small_letter(c: char) -> (r: char)
    ensures
        r == small_letter(c),
{
    if 'A' <= c && c <= 'Z' {
        ((c as u8) + 32) as char
    } else if c == '\u{212A}' {
        'k'
    } else {
        c
    }
}

/// Whether `s`, with its capitals turned into small letters, reads exactly
/// `word`.
pub fn equals_lowered(s: &str, word: &str) -> (r: bool)
    ensures
        r == (lowered(s@) == word@),
{
    let n: usize = word.unicode_len();
    let mut i: usize = 0;
    let mut same: bool = true;
    for c in it: s.chars()
        invariant
            it.seq() == s@,
            n == word@.len(),
            same ==> i == it.index() && i <= n,
            same == (it.index() <= n && forall|j: int|
                0 <= j < it.index() ==> small_letter(#[trigger] s@[j]) == word@[j]),
    {
        if same {
            if i < n && to_small_letter(c) == word.get_char(i) {
                i = i + 1;
            } else {
                same = false;
            }
        }
    }
    let r = same && i == n;
    proof {
        if r {
            assert(lowered(s@) =~= word@);
        } else if same {
            assert(lowered(s@).len() != word@.len());
        } else if s@.len() <= n {
            let j = choose|j: int| 0 <= j < s@.len() && small_letter(#[trigger] s@[j]) != word@[j];
            assert(lowered(s@)[j] != word@[j]);
        } else {
            assert(lowered(s@).len() != word@.len());
        }
    }
    r
}

/// The truth value that a word stands for: `true` or `1`, `false` or `0`,
/// in any mix of ASCII capitals and small letters.
pub open spec fn bool_word(s: Seq<char>) -> Option<bool> {
    if lowered(s) == "true"@ || lowered(s) == "1"@ {
        Some(true)
    } else if lowered(s) == "false"@ || lowered(s) == "0"@ {
        Some(false)
    } else {
        None
    }
}

/// Reads a truth value.
pub fn parse_bool(s: &str) -> (r: Option<bool>)
    ensures
        r == bool_word(s@),
{
    if equals_lowered(s, "true") || equals_lowered(s, "1") {
        Some(true)
    } else if equals_lowered(s, "false") || equals_lowered(s, "0") {
        Some(false)
    } else {
        None
    }
}

/// The digit that stands for a number below ten.
pub open spec fn digit_char(d: int) -> char {
    ((d + 48) as u8) as char
}

/// A natural number written in base ten, without leading zeros.
pub open spec fn natural_text(n: nat) -> Seq<char>
    decreases n,
{
    if n < 10 {
        seq![digit_char(n as int)]
    } else {
        natural_text(n / 10).push(digit_char((n % 10) as int))
    }
}

/// An integer written in base ten, with `-` before a negative one.
pub open spec fn integer_text(n: int) -> Seq<char> {
    if n < 0 {
        seq!['-'] + natural_text((-n) as nat)
    } else {
        natural_text(n as nat)
    }
}

/// A natural number that is written holds digits only, at least one, and
/// reads as itself.
pub proof fn law_natural_text_reads_back(n: nat)
    ensures
        natural_text(n).len() > 0,
        all_digits(natural_text(n)),
        digits_value(natural_text(n)) == n,
    decreases n,
{
    if n < 10 {
        let s = seq![digit_char(n as int)];
        assert(is_digit(s[0]));
        assert(s.drop_last() =~= Seq::<char>::empty());
        assert(digits_value(s) == digits_value(s.drop_last()) * 10 + digit_value(s.last()));
    } else {
        law_natural_text_reads_back(n / 10);
        let front = natural_text(n / 10);
        let c = digit_char((n % 10) as int);
        assert(is_digit(c));
        lemma_digits_value_grows(front, c);
        assert forall|i: int| 0 <= i < front.push(c).len() implies is_digit(
            #[trigger] front.push(c)[i],
        ) by {
            if i < front.len() {
                assert(front.push(c)[i] == front[i]);
            }
        }
    }
}

/// An integer that is written reads back as itself.
pub proof fn law_integer_text_reads_back(n: i64)
    ensures
        decimal_i64(integer_text(n as int)) == Some(n),
{
    let s = integer_text(n as int);
    if n < 0 {
        let m = (-(n as int)) as nat;
        law_natural_text_reads_back(m);
        assert(s[0] == '-');
        assert(unsigned_part(s) =~= natural_text(m));
    } else {
        law_natural_text_reads_back(n as nat);
        assert(is_digit(s[0]));
    }
}

/// `char::to_string` of the standard library: the text that holds the one
/// character and nothing else.
#[verifier::external_body]
pub(crate) fn char_text(c: char) -> (s: String)
    ensures
        s@ == seq![c],
{
    c.to_string()
}

/// Appends a natural number, written in base ten, to a text.
pub fn push_natural(out: &mut String, n: u64)
    ensures
        final(out)@ == old(out)@ + natural_text(n as nat),
    decreases n,
{
    if n >= 10 {
        push_natural(out, n / 10);
    }
    let d: u8 = (n % 10) as u8;
    let piece = char_text((d + 48) as char);
    out.append(piece.as_str());
    proof {
        if n >= 10 {
            assert(out@ =~= old(out)@ + natural_text((n / 10) as nat).push(
                digit_char((n % 10) as int),
            ));
        } else {
            assert(out@ =~= old(out)@ + seq![digit_char(n as int)]);
        }
    }
}

/// Writes an integer in base ten, so that it reads back as itself.
pub fn render_integer(n: i64) -> (s: String)
    ensures
        s@ == integer_text(n as int),
        decimal_i64(s@) == Some(n),
{
    proof {
        law_integer_text_reads_back(n);
    }
    let mut s = String::new();
    if n < 0 {
        s.append("-");
        proof {
            reveal_strlit("-");
            assert(s@ =~= seq!['-']);
        }
        let m: u64 = (-(n as i128)) as u64;
        push_natural(&mut s, m);
    } else {
        push_natural(&mut s, n as u64);
        proof {
            assert(s@ =~= natural_text(n as nat));
        }
    }
    s
}

} // verus!
