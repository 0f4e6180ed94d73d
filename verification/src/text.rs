//! Building text one piece at a time.
//!
//! The timeline labels, the ffmpeg arguments and the error messages are all
//! put together from literals and decimal numbers. [`dec`] and [`dec_padded`]
//! say what a number looks like, and the `push_*` functions write it.

use vstd::prelude::*;
use vstd::string::*;

verus! {

/// `String::push` of the standard library appends the given character to the
/// end of the string.
pub assume_specification[ String::push ](s: &mut String, c: char)
    ensures
        final(s)@ == old(s)@.push(c),
;

/// The decimal digit `d`, for `d` below ten.
pub open spec fn digit(d: int) -> char {
    if d == 0 {
        '0'
    } else if d == 1 {
        '1'
    } else if d == 2 {
        '2'
    } else if d == 3 {
        '3'
    } else if d == 4 {
        '4'
    } else if d == 5 {
        '5'
    } else if d == 6 {
        '6'
    } else if d == 7 {
        '7'
    } else if d == 8 {
        '8'
    } else {
        '9'
    }
}

/// `n` in decimal, without leading zeros.
pub open spec fn dec(n: nat) -> Seq<char>
    decreases n,
{
    if n < 10 {
        seq![digit(n as int)]
    } else {
        dec(n / 10).push(digit((n % 10) as int))
    }
}

/// `n` in decimal with a leading minus sign where it is negative.
pub open spec fn dec_signed(n: int) -> Seq<char> {
    if n < 0 {
        seq!['-'] + dec((-n) as nat)
    } else {
        dec(n as nat)
    }
}

/// `count` zeros.
pub open spec fn zeros(count: nat) -> Seq<char> {
    Seq::new(count, |i: int| '0')
}

/// `n` in decimal, filled up with leading zeros to at least `width` digits.
pub open spec fn dec_padded(n: nat, width: nat) -> Seq<char> {
    if dec(n).len() < width {
        zeros((width - dec(n).len()) as nat) + dec(n)
    } else {
        dec(n)
    }
}

pub fn digit_char(d: u8) -> (c: char)
    requires
        d < 10,
    ensures
        c == digit(d as int),
{
    match d {
        0 => '0',
        1 => '1',
        2 => '2',
        3 => '3',
        4 => '4',
        5 => '5',
        6 => '6',
        7 => '7',
        8 => '8',
        _ => '9',
    }
}

/// Append `n` in decimal.
pub fn push_dec(out: &mut String, n: u128)
    ensures
        final(out)@ == old(out)@ + dec(n as nat),
    decreases n,
{
    if n >= 10 {
        push_dec(out, n / 10);
    }
    out.push(digit_char((n % 10) as u8));
    proof {
        if n >= 10 {
            assert(old(out)@ + dec((n / 10) as nat).push(digit((n % 10) as int)) =~= (old(out)@
                + dec((n / 10) as nat)).push(digit((n % 10) as int)));
        } else {
            assert(old(out)@ + seq![digit(n as int)] =~= old(out)@.push(digit(n as int)));
        }
    }
}

/// Append `n` in decimal, with a minus sign where it is negative.
pub fn push_dec_signed(out: &mut String, n: i64)
    ensures
        final(out)@ == old(out)@ + dec_signed(n as int),
{
    if n < 0 {
        out.push('-');
        let magnitude: u128 = (-(n as i128)) as u128;
        push_dec(out, magnitude);
        assert(old(out)@.push('-') + dec((-n) as nat) =~= old(out)@ + (seq!['-'] + dec(
            (-n) as nat,
        )));
    } else {
        push_dec(out, n as u128);
    }
}

/// The digits of `n`, the most significant first.
fn dec_digits(n: u128) -> (v: Vec<char>)
    ensures
        v@ == dec(n as nat),
    decreases n,
{
    let mut v: Vec<char> = if n >= 10 {
        dec_digits(n / 10)
    } else {
        Vec::new()
    };
    v.push(digit_char((n % 10) as u8));
    assert(n < 10 ==> v@ =~= seq![digit(n as int)]);
    v
}

/// Append `n` in decimal, filled up with zeros to `width` digits.
pub fn push_dec_padded(out: &mut String, n: u128, width: usize)
    ensures
        final(out)@ == old(out)@ + dec_padded(n as nat, width as nat),
{
    let digits: Vec<char> = dec_digits(n);
    let len: usize = digits.len();
    let mut filled: usize = len;
    while filled < width
        invariant
            len == dec(n as nat).len(),
            len <= filled,
            filled <= width || filled == len,
            out@ == old(out)@ + zeros((filled - len) as nat),
        decreases width - filled,
    {
        out.push('0');
        filled = filled + 1;
        assert((old(out)@ + zeros((filled - 1 - len) as nat)).push('0') =~= old(out)@ + zeros(
            (filled - len) as nat,
        ));
    }
    let ghost before = out@;
    push_dec(out, n);
    assert(out@ =~= old(out)@ + dec_padded(n as nat, width as nat)) by {
        assert(before + dec(n as nat) =~= old(out)@ + (zeros((filled - len) as nat) + dec(
            n as nat,
        )));
        assert(zeros(0) + dec(n as nat) =~= dec(n as nat));
    }
}

/// How a text is viewed.
pub open spec fn view_of() -> spec_fn(String) -> Seq<char> {
    |s: String| s@
}

/// The characters of each of several texts.
pub open spec fn views(texts: Seq<String>) -> Seq<Seq<char>> {
    texts.map_values(view_of())
}

/// The characters of a text that may be missing.
pub open spec fn opt_view(t: Option<String>) -> Option<Seq<char>> {
    match t {
        Some(s) => Some(s@),
        None => None,
    }
}

pub fn clone_texts(texts: &Vec<String>) -> (res: Vec<String>)
    ensures
        views(res@) == views(texts@),
{
    let mut res: Vec<String> = Vec::new();
    let mut i: usize = 0;
    while i < texts.len()
        invariant
            i <= texts.len(),
            views(res@) == views(texts@).take(i as int),
        decreases texts.len() - i,
    {
        res.push(texts[i].clone());
        i = i + 1;
        assert(views(res@) =~= views(texts@).take(i as int)) by {
            let before = res@.drop_last();
            assert(views(before) =~= views(texts@).take(i - 1));
            assert(views(res@)[i - 1] == texts@[i - 1]@);
            assert forall|j: int| 0 <= j < i - 1 implies views(res@)[j] == views(texts@)[j] by {
                assert(views(before)[j] == views(texts@).take(i - 1)[j]);
            }
        }
    }
    assert(views(texts@).take(i as int) =~= views(texts@));
    res
}

pub fn clone_opt(t: &Option<String>) -> (res: Option<String>)
    ensures
        opt_view(res) == opt_view(*t),
{
    match t {
        Some(s) => Some(s.clone()),
        None => None,
    }
}

/// Whether two texts hold the same characters.
pub fn same_text(a: &str, b: &str) -> (same: bool)
    ensures
        same == (a@ == b@),
{
    let left: String = a.to_owned();
    let right: String = b.to_owned();
    left == right
}

/// The characters of a text.
pub fn chars_of(s: &str) -> (v: Vec<char>)
    ensures
        v@ == s@,
{
    let mut v: Vec<char> = Vec::new();
    for c in it: s.chars()
        invariant
            v@ == it.seq().take(it.index() as int),
            it.seq() == s@,
    {
        v.push(c);
    }
    v
}

/// The text made of the given characters between `from` and `to`.
pub fn text_of(chars: &Vec<char>, from: usize, to: usize) -> (s: String)
    requires
        from <= to <= chars.len(),
    ensures
        s@ == chars@.subrange(from as int, to as int),
{
    let mut s: String = String::new();
    let mut i: usize = from;
    while i < to
        invariant
            from <= i <= to <= chars.len(),
            s@ == chars@.subrange(from as int, i as int),
        decreases to - i,
    {
        s.push(chars[i]);
        i = i + 1;
        assert(chars@.subrange(from as int, i as int) =~= chars@.subrange(
            from as int,
            i - 1,
        ).push(chars@[i - 1]));
    }
    s
}

/// The characters that Unicode counts as white space.
pub open spec fn is_white(c: char) -> bool {
    ||| '\u{9}' <= c <= '\u{d}'
    ||| c == ' '
    ||| c == '\u{85}'
    ||| c == '\u{a0}'
    ||| c == '\u{1680}'
    ||| '\u{2000}' <= c <= '\u{200a}'
    ||| c == '\u{2028}'
    ||| c == '\u{2029}'
    ||| c == '\u{202f}'
    ||| c == '\u{205f}'
    ||| c == '\u{3000}'
}

pub fn white(c: char) -> (r: bool)
    ensures
        r == is_white(c),
{
    let n: u32 = c as u32;
    (n >= 0x9 && n <= 0xd) || n == 0x20 || n == 0x85 || n == 0xa0 || n == 0x1680 || (n >= 0x2000
        && n <= 0x200a) || n == 0x2028 || n == 0x2029 || n == 0x202f || n == 0x205f || n == 0x3000
}

/// `s` without the white space at its end.
pub open spec fn trimmed_end(s: Seq<char>) -> Seq<char>
    decreases s.len(),
{
    if s.len() > 0 && is_white(s.last()) {
        trimmed_end(s.drop_last())
    } else {
        s
    }
}

/// `s` without the white space at its start.
pub open spec fn trimmed_start(s: Seq<char>) -> Seq<char>
    decreases s.len(),
{
    if s.len() > 0 && is_white(s[0]) {
        trimmed_start(s.skip(1))
    } else {
        s
    }
}

/// `s` without the white space at its ends.
pub open spec fn trimmed(s: Seq<char>) -> Seq<char> {
    trimmed_end(trimmed_start(s))
}

/// Where the text from `start` on begins and ends without white space.
pub fn trim_bounds(chars: &Vec<char>, start: usize) -> (r: (usize, usize))
    requires
        start <= chars.len(),
    ensures
        start <= r.0 <= r.1 <= chars.len(),
        chars@.subrange(r.0 as int, r.1 as int) == trimmed(
            chars@.subrange(start as int, chars@.len() as int),
        ),
{
    let n: usize = chars.len();
    let ghost whole = chars@.subrange(start as int, n as int);
    let mut from: usize = start;
    while from < n && white(chars[from])
        invariant
            start <= from <= n,
            n == chars.len(),
            trimmed_start(chars@.subrange(from as int, n as int)) == trimmed_start(whole),
        decreases n - from,
    {
        assert(chars@.subrange(from as int, n as int).skip(1) =~= chars@.subrange(
            from + 1,
            n as int,
        ));
        from = from + 1;
    }
    let ghost rest = chars@.subrange(from as int, n as int);
    assert(trimmed_start(rest) == rest);
    let mut to: usize = n;
    while to > from && white(chars[to - 1])
        invariant
            start <= from <= to <= n,
            n == chars.len(),
            rest == chars@.subrange(from as int, n as int),
            trimmed_end(chars@.subrange(from as int, to as int)) == trimmed_end(rest),
        decreases to,
    {
        assert(chars@.subrange(from as int, to as int).drop_last() =~= chars@.subrange(
            from as int,
            to - 1,
        ));
        to = to - 1;
    }
    (from, to)
}

/// Whether a text begins with another one.
pub fn starts_with(chars: &Vec<char>, prefix: &Vec<char>) -> (r: bool)
    ensures
        r == prefix@.is_prefix_of(chars@),
{
    if prefix.len() > chars.len() {
        return false;
    }
    let mut i: usize = 0;
    while i < prefix.len()
        invariant
            i <= prefix.len() <= chars.len(),
            forall|j: int| 0 <= j < i ==> prefix@[j] == chars@[j],
        decreases prefix.len() - i,
    {
        if prefix[i] != chars[i] {
            return false;
        }
        i = i + 1;
    }
    assert(chars@.subrange(0, prefix@.len() as int) =~= prefix@);
    true
}

/// The value of a decimal digit.
pub open spec fn digit_value(c: char) -> int {
    c as int - '0' as int
}

/// All characters are decimal digits.
pub open spec fn all_digits(s: Seq<char>) -> bool {
    forall|i: int| 0 <= i < s.len() ==> '0' <= #[trigger] s[i] <= '9'
}

/// The number that decimal digits stand for.
pub open spec fn value_of(s: Seq<char>) -> int
    decreases s.len(),
{
    if s.len() == 0 {
        0
    } else {
        value_of(s.drop_last()) * 10 + digit_value(s.last())
    }
}

/// The number that a text stands for: decimal digits, with a plus sign before
/// them or without, for a number of at most 64 bits.
pub open spec fn parsed_u64(s: Seq<char>) -> Option<u64> {
    let digits = if s.len() > 1 && s[0] == '+' {
        s.skip(1)
    } else {
        s
    };
    if digits.len() > 0 && all_digits(digits) && value_of(digits) <= u64::MAX {
        Some(value_of(digits) as u64)
    } else {
        None
    }
}

pub proof fn lemma_value_grows(s: Seq<char>, n: int)
    requires
        all_digits(s),
        0 <= n <= s.len(),
    ensures
        0 <= value_of(s.take(n)) <= value_of(s),
    decreases s.len(),
{
    if n < s.len() {
        assert(all_digits(s.drop_last()));
        lemma_value_grows(s.drop_last(), n);
        assert(s.drop_last().take(n) =~= s.take(n));
        lemma_value_grows(s.drop_last(), s.len() - 1);
        assert(s.drop_last().take(s.len() - 1) =~= s.drop_last());
    } else {
        assert(s.take(n) =~= s);
        if s.len() > 0 {
            assert(all_digits(s.drop_last()));
            lemma_value_grows(s.drop_last(), s.len() - 1);
            assert(s.drop_last().take(s.len() - 1) =~= s.drop_last());
        }
    }
}

/// The number that the text between `from` and `to` stands for.
pub fn parse_u64(chars: &Vec<char>, from: usize, to: usize) -> (r: Option<u64>)
    requires
        from <= to <= chars.len(),
    ensures
        r == parsed_u64(chars@.subrange(from as int, to as int)),
{
    let ghost s = chars@.subrange(from as int, to as int);
    let mut first: usize = from;
    if to - from > 1 && chars[from] == '+' {
        first = from + 1;
        assert(s.skip(1) =~= chars@.subrange(first as int, to as int));
    }
    let ghost digits = chars@.subrange(first as int, to as int);
    assert(digits == if s.len() > 1 && s[0] == '+' {
        s.skip(1)
    } else {
        s
    });
    if first == to {
        return None;
    }
    let mut value: u128 = 0;
    let mut i: usize = first;
    assert(digits.take(0) =~= Seq::empty());
    while i < to
        invariant
            first <= i <= to <= chars.len(),
            s == chars@.subrange(from as int, to as int),
            digits == chars@.subrange(first as int, to as int),
            digits == if s.len() > 1 && s[0] == '+' {
                s.skip(1)
            } else {
                s
            },
            forall|j: int| 0 <= j < i - first ==> '0' <= #[trigger] digits[j] <= '9',
            value == value_of(digits.take(i - first)),
            value <= u64::MAX,
        decreases to - i,
    {
        let c: char = chars[i];
        assert(digits[i - first] == c);
        if !(c >= '0' && c <= '9') {
            assert(!all_digits(digits));
            return None;
        }
        assert(digits.take(i + 1 - first).drop_last() =~= digits.take(i - first));
        value = value * 10 + (c as u32 - '0' as u32) as u128;
        i = i + 1;
        if value > u64::MAX as u128 {
            proof {
                if all_digits(digits) {
                    lemma_value_grows(digits, i - first);
                }
            }
            return None;
        }
    }
    assert(digits.take(i - first) =~= digits);
    Some(value as u64)
}

/// A number comes back from its decimal digits.
pub proof fn lemma_dec_round_trip(n: nat)
    ensures
        dec(n).len() > 0,
        all_digits(dec(n)),
        value_of(dec(n)) == n,
    decreases n,
{
    if n < 10 {
        let s = dec(n);
        assert(s.drop_last() =~= Seq::empty());
        assert(value_of(s.drop_last()) == 0);
        assert(s.last() == digit(n as int));
    } else {
        lemma_dec_round_trip(n / 10);
        let s = dec(n);
        assert(s.drop_last() =~= dec(n / 10));
        assert(s.last() == digit((n % 10) as int));
        assert forall|i: int| 0 <= i < s.len() implies '0' <= #[trigger] s[i] <= '9' by {
            if i < dec(n / 10).len() {
                assert(s[i] == dec(n / 10)[i]);
            }
        }
    }
}

/// Different numbers are written differently, and with no colon.
pub proof fn lemma_dec_signed_tells_apart(a: int, b: int)
    ensures
        a != b ==> dec_signed(a) != dec_signed(b),
        forall|i: int| 0 <= i < dec_signed(a).len() ==> #[trigger] dec_signed(a)[i] != ':',
{
    let x = if a < 0 {
        (-a) as nat
    } else {
        a as nat
    };
    let y = if b < 0 {
        (-b) as nat
    } else {
        b as nat
    };
    lemma_dec_round_trip(x);
    lemma_dec_round_trip(y);
    assert(a < 0 ==> dec_signed(a)[0] == '-' && dec_signed(a).skip(1) =~= dec(x));
    assert(b < 0 ==> dec_signed(b)[0] == '-' && dec_signed(b).skip(1) =~= dec(y));
    assert('0' <= dec(x)[0] && '0' <= dec(y)[0]);
    assert forall|i: int| 0 <= i < dec_signed(a).len() implies #[trigger] dec_signed(a)[i]
        != ':' by {
        if a >= 0 {
            assert(dec_signed(a)[i] == dec(x)[i]);
        } else if i > 0 {
            assert(dec_signed(a)[i] == dec(x)[i - 1]);
        }
    }
}

} // verus!
