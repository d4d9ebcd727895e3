//! Character-level helpers shared by the rest of the library: character
//! classes, building strings, decimal numbers and hexadecimal digests.

use vstd::prelude::*;

verus! {

/// Appends one character to a `String` (std `String::push`).
/// Claimed: the string afterwards is the old one followed by `c`.
#[verifier::external_body]
pub(crate) fn push_char(s: &mut String, c: char)
    ensures
        final(s)@ == old(s)@.push(c),
{
    s.push(c);
}

/// The characters of a string slice, in order.
pub fn chars_of(s: &str) -> (v: Vec<char>)
    ensures
        v@ == s@,
{
    let mut v: Vec<char> = Vec::new();
    for c in it: s.chars()
        invariant
            v@ == it.seq().take(it.index() as int),
    {
        v.push(c);
    }
    v
}

/// A string made of the given characters.
pub fn string_of(cs: &[char]) -> (s: String)
    ensures
        s@ == cs@,
{
    let mut s = String::new();
    let n = cs.len();
    for i in 0..n
        invariant
            n == cs@.len(),
            s@ == cs@.take(i as int),
    {
        push_char(&mut s, cs[i]);
        assert(cs@.take(i + 1) == cs@.take(i as int).push(cs@[i as int]));
    }
    assert(cs@.take(n as int) == cs@);
    s
}

/// A string made of the characters of `a` followed by those of `b`.
pub fn concat(a: &str, b: &str) -> (s: String)
    ensures
        s@ == a@ + b@,
{
    let mut s = String::new();
    let ca = chars_of(a);
    let cb = chars_of(b);
    let na = ca.len();
    for i in 0..na
        invariant
            na == ca@.len(),
            ca@ == a@,
            s@ == ca@.take(i as int),
    {
        push_char(&mut s, ca[i]);
        assert(ca@.take(i + 1) == ca@.take(i as int).push(ca@[i as int]));
    }
    assert(ca@.take(na as int) == ca@);
    let nb = cb.len();
    for j in 0..nb
        invariant
            nb == cb@.len(),
            cb@ == b@,
            s@ == a@ + cb@.take(j as int),
    {
        push_char(&mut s, cb[j]);
        assert(cb@.take(j + 1) == cb@.take(j as int).push(cb@[j as int]));
    }
    assert(cb@.take(nb as int) == cb@);
    s
}

/// Whether two string slices hold the same characters (std `==` on `str`).
pub fn same_text(a: &str, b: &str) -> (r: bool)
    ensures
        r == (a@ == b@),
{
    let ca = chars_of(a);
    let cb = chars_of(b);
    if ca.len() != cb.len() {
        return false;
    }
    let n = ca.len();
    for i in 0..n
        invariant
            n == ca@.len(),
            n == cb@.len(),
            ca@ == a@,
            cb@ == b@,
            forall|j: int| 0 <= j < i ==> ca@[j] == cb@[j],
    {
        if ca[i] != cb[i] {
            return false;
        }
    }
    assert(ca@ =~= cb@);
    true
}

/// What std's `str::to_lowercase` makes of a string (Unicode lowercase
/// mapping, which may change a string's length).
pub uninterp spec fn lowercase(s: Seq<char>) -> Seq<char>;

/// std `str::to_lowercase`. Claimed: the result is `lowercase` of the
/// argument, a function of its characters alone.
#[verifier::external_body]
pub(crate) fn to_lowercase(s: &str) -> (r: String)
    ensures
        r@ == lowercase(s@),
{
    s.to_lowercase()
}

/// How many bytes UTF-8 takes for `c`.
fn utf8_width(c: char) -> (w: u64)
    ensures
        w == vstd::utf8::encode_scalar(c as u32).len(),
{
    proof {
        vstd::utf8::char_is_scalar(c);
    }
    if (c as u32) <= 0x7f {
        1
    } else if (c as u32) <= 0x7ff {
        2
    } else if (c as u32) <= 0xffff {
        3
    } else {
        4
    }
}

/// Whether the UTF-8 encoding of `s` (the bytes std's `str::len` counts)
/// is at least `n` bytes long.
pub fn utf8_len_at_least(s: &str, n: u64) -> (b: bool)
    ensures
        b == (vstd::utf8::encode_utf8(s@).len() >= n),
{
    let cs = chars_of(s);
    let len = cs.len();
    let mut acc: u64 = 0;
    let mut i = len;
    assert(cs@.skip(len as int) =~= Seq::<char>::empty());
    while i > 0
        invariant
            i <= len,
            len == cs@.len(),
            cs@ == s@,
            acc == if vstd::utf8::encode_utf8(cs@.skip(i as int)).len() >= n {
                n as nat
            } else {
                vstd::utf8::encode_utf8(cs@.skip(i as int)).len()
            },
        decreases i,
    {
        i = i - 1;
        let ghost rest = cs@.skip(i as int);
        assert(rest[0] == cs@[i as int]);
        assert(rest.drop_first() == cs@.skip(i + 1));
        let w = utf8_width(cs[i]);
        acc = if w >= n - acc {
            n
        } else {
            acc + w
        };
    }
    assert(cs@.skip(0) == cs@);
    acc >= n
}

/// Unicode `White_Space`, the class that std's `char::is_whitespace` and
/// `str::trim` use.
pub open spec fn is_space(c: char) -> bool {
    ||| ('\u{9}' <= c && c <= '\u{d}')
    ||| c == ' '
    ||| c == '\u{85}'
    ||| c == '\u{a0}'
    ||| c == '\u{1680}'
    ||| ('\u{2000}' <= c && c <= '\u{200a}')
    ||| c == '\u{2028}'
    ||| c == '\u{2029}'
    ||| c == '\u{202f}'
    ||| c == '\u{205f}'
    ||| c == '\u{3000}'
}

/// Unicode general category `Cc`, the class of std's `char::is_control`.
pub open spec fn is_control(c: char) -> bool {
    c <= '\u{1f}' || ('\u{7f}' <= c && c <= '\u{9f}')
}

/// Whether `c` is white space.
pub fn space_char(c: char) -> (b: bool)
    ensures
        b == is_space(c),
{
    ('\u{9}' <= c && c <= '\u{d}') || c == ' ' || c == '\u{85}' || c == '\u{a0}' || c
        == '\u{1680}' || ('\u{2000}' <= c && c <= '\u{200a}') || c == '\u{2028}' || c
        == '\u{2029}' || c == '\u{202f}' || c == '\u{205f}' || c == '\u{3000}'
}

/// Whether `c` is a control character.
pub fn control_char(c: char) -> (b: bool)
    ensures
        b == is_control(c),
{
    c <= '\u{1f}' || ('\u{7f}' <= c && c <= '\u{9f}')
}

/// True when the string holds nothing but white space, which is when
/// trimming it leaves it empty.
pub open spec fn blank(s: Seq<char>) -> bool {
    forall|i: int| 0 <= i < s.len() ==> is_space(#[trigger] s[i])
}

/// Whether `s.trim()` is empty.
pub fn is_blank(s: &str) -> (b: bool)
    ensures
        b == blank(s@),
{
    let cs = chars_of(s);
    let n = cs.len();
    for i in 0..n
        invariant
            n == cs@.len(),
            cs@ == s@,
            forall|j: int| 0 <= j < i ==> is_space(#[trigger] s@[j]),
    {
        if !space_char(cs[i]) {
            return false;
        }
    }
    true
}

/// The decimal digit for `d`, which is below ten.
pub open spec fn digit_char(d: nat) -> char {
    (d + 48) as char
}

/// Whether `c` is an ASCII decimal digit.
pub open spec fn is_digit(c: char) -> bool {
    '0' <= c && c <= '9'
}

/// The value of an ASCII decimal digit.
pub open spec fn digit_value(c: char) -> nat {
    ((c as int) - 48) as nat
}

/// The number written by a sequence of decimal digits (zero when empty).
pub open spec fn digits_value(s: Seq<char>) -> nat
    decreases s.len(),
{
    if s.len() == 0 {
        0
    } else {
        digits_value(s.drop_last()) * 10 + digit_value(s.last())
    }
}

/// Whether every character of `s` is a decimal digit.
pub open spec fn all_digits(s: Seq<char>) -> bool {
    forall|i: int| 0 <= i < s.len() ==> is_digit(#[trigger] s[i])
}

/// The shortest decimal writing of `n`, as `{}` formats an unsigned integer.
pub open spec fn decimal(n: nat) -> Seq<char>
    decreases n,
{
    if n < 10 {
        seq![digit_char(n)]
    } else {
        decimal(n / 10).push(digit_char(n % 10))
    }
}

/// The decimal digit character for `d`, which is below ten.
fn digit_of(d: u64) -> (c: char)
    requires
        d < 10,
    ensures
        c == digit_char(d as nat),
{
    if d == 0 {
        '0'
    } else if d == 1 {
        '1'
    } else if d == 2 {
        '2'
    } else if d == 3 {
        '3'
    } else if d == 4 {
        '4'
    } else if d == 5 {
        '5'
    } else if d == 6 {
        '6'
    } else if d == 7 {
        '7'
    } else if d == 8 {
        '8'
    } else {
        '9'
    }
}

/// The decimal writing of a whole number.
pub fn decimal_string(n: u64) -> (s: String)
    ensures
        s@ == decimal(n as nat),
    decreases n,
{
    if n < 10 {
        let mut s = String::new();
        push_char(&mut s, digit_of(n));
        s
    } else {
        let mut s = decimal_string(n / 10);
        push_char(&mut s, digit_of(n % 10));
        s
    }
}

/// The number written by `s` in the form std's unsigned `from_str` accepts:
/// an optional `+`, then one or more ASCII digits, nothing else.
pub open spec fn unsigned_literal(s: Seq<char>) -> Option<nat> {
    let body = if s.len() > 0 && s[0] == '+' {
        s.drop_first()
    } else {
        s
    };
    if body.len() > 0 && all_digits(body) {
        Some(digits_value(body))
    } else {
        None
    }
}

/// The number written by `s` in the form std's signed `from_str` accepts:
/// an optional `+` or `-`, then one or more ASCII digits, nothing else.
pub open spec fn signed_literal(s: Seq<char>) -> Option<int> {
    if s.len() > 0 && s[0] == '-' {
        let body = s.drop_first();
        if body.len() > 0 && all_digits(body) {
            Some(-(digits_value(body) as int))
        } else {
            None
        }
    } else {
        match unsigned_literal(s) {
            Some(n) => Some(n as int),
            None => None,
        }
    }
}

/// The value of the decimal digits `cs[start..]`, when they all are digits
/// and the value is at most `max`.
fn digits_up_to(cs: &Vec<char>, start: usize, max: u64) -> (r: Option<u64>)
    requires
        start <= cs@.len(),
    ensures
        ({
            let body = cs@.skip(start as int);
            match r {
                Some(v) => body.len() > 0 && all_digits(body) && v == digits_value(body) && v
                    <= max,
                None => !(body.len() > 0 && all_digits(body) && digits_value(body) <= max),
            }
        }),
{
    let n = cs.len();
    if start == n {
        return None;
    }
    let ghost body = cs@.skip(start as int);
    let mut acc: u64 = 0;
    let mut i = start;
    while i < n
        invariant
            start <= i <= n,
            n == cs@.len(),
            body == cs@.skip(start as int),
            all_digits(cs@.subrange(start as int, i as int)),
            acc == digits_value(cs@.subrange(start as int, i as int)),
            acc <= max,
        decreases n - i,
    {
        let c = cs[i];
        assert(cs@.subrange(start as int, i + 1).drop_last() == cs@.subrange(
            start as int,
            i as int,
        ));
        if !('0' <= c && c <= '9') {
            assert(body[i - start] == c);
            return None;
        }
        let d = (c as u64) - 48;
        assert(digit_value(c) == d);
        if d > max || acc > (max - d) / 10 {
            proof {
                let k = (i + 1 - start) as int;
                assert(body.take(k) == cs@.subrange(start as int, i + 1));
                assert(digits_value(body.take(k)) == acc * 10 + d);
                lemma_digits_value_monotone(body, k);
            }
            return None;
        }
        acc = acc * 10 + d;
        i = i + 1;
    }
    assert(cs@.subrange(start as int, n as int) == body);
    Some(acc)
}

/// A prefix of an all-digit sequence is worth no more than the whole.
proof fn lemma_digits_value_monotone(s: Seq<char>, k: int)
    requires
        0 <= k <= s.len(),
    ensures
        all_digits(s) ==> digits_value(s.take(k)) <= digits_value(s),
    decreases s.len() - k,
{
    if k < s.len() && all_digits(s) {
        lemma_digits_value_monotone(s, k + 1);
        assert(s.take(k + 1).drop_last() == s.take(k));
        assert(all_digits(s.take(k + 1)));
    } else if k == s.len() {
        assert(s.take(k) == s);
    }
}

/// std's `str::parse::<u64>` restricted to values at most `max`: `None`
/// exactly when `s` is not an unsigned literal or writes a larger number.
pub fn parse_unsigned(s: &str, max: u64) -> (r: Option<u64>)
    ensures
        match r {
            Some(v) => unsigned_literal(s@) == Some(v as nat) && v <= max,
            None => !(unsigned_literal(s@) is Some && unsigned_literal(s@)->0 <= max),
        },
{
    let cs = chars_of(s);
    if cs.len() > 0 && cs[0] == '+' {
        assert(cs@.skip(1) == s@.drop_first());
        digits_up_to(&cs, 1, max)
    } else {
        assert(cs@.skip(0) == s@);
        digits_up_to(&cs, 0, max)
    }
}

/// std's `str::parse::<i64>`: `Some` exactly when `s` is a signed literal
/// whose value fits in an `i64`.
pub fn parse_i64(s: &str) -> (r: Option<i64>)
    ensures
        match r {
            Some(v) => signed_literal(s@) == Some(v as int),
            None => !(signed_literal(s@) is Some && i64::MIN <= signed_literal(s@)->0
                <= i64::MAX),
        },
{
    let cs = chars_of(s);
    if cs.len() > 0 && cs[0] == '-' {
        assert(cs@.skip(1) == s@.drop_first());
        match digits_up_to(&cs, 1, 9223372036854775808u64) {
            Some(m) => {
                if m == 9223372036854775808u64 {
                    Some(i64::MIN)
                } else {
                    Some(-(m as i64))
                }
            },
            None => None,
        }
    } else {
        match parse_unsigned(s, 9223372036854775807u64) {
            Some(v) => Some(v as i64),
            None => None,
        }
    }
}

/// Writing a number in decimal and reading it back gives the number.
pub proof fn law_decimal_round_trip(n: nat)
    ensures
        unsigned_literal(decimal(n)) == Some(n),
        all_digits(decimal(n)),
        decimal(n).len() > 0,
    decreases n,
{
    lemma_digit_char(n % 10);
    if n < 10 {
        assert(decimal(n) == seq![digit_char(n)]);
        assert(decimal(n).drop_last() =~= Seq::<char>::empty());
        assert(decimal(n).last() == digit_char(n));
        assert(digits_value(decimal(n).drop_last()) == 0);
        assert(digits_value(decimal(n)) == digits_value(decimal(n).drop_last()) * 10
            + digit_value(decimal(n).last()));
        assert(digits_value(decimal(n)) == n);
    } else {
        law_decimal_round_trip(n / 10);
        assert(decimal(n).drop_last() == decimal(n / 10));
        assert(decimal(n)[0] == decimal(n / 10)[0]);
        assert(decimal(n / 10)[0] != '+');
        assert(digits_value(decimal(n / 10)) == n / 10);
        assert(decimal(n).last() == digit_char(n % 10));
        assert(digits_value(decimal(n)) == (n / 10) * 10 + n % 10);
        assert(all_digits(decimal(n)));
    }
}

/// The digit character of a value below ten is a digit worth that value.
proof fn lemma_digit_char(d: nat)
    requires
        d < 10,
    ensures
        is_digit(digit_char(d)),
        digit_value(digit_char(d)) == d,
        digit_char(d) != '+',
        digit_char(d) != '-',
{
}

}
