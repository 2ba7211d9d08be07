//! Text building blocks: the characters of a string, decimal and hexadecimal
//! digits, and unsigned decimal numbers in both directions.

use vstd::prelude::*;

verus! {

/// The characters of a string slice, in order.
pub fn to_chars(s: &str) -> (r: Vec<char>)
    ensures
        r@ == s@,
{
    let mut out: Vec<char> = Vec::new();
    for c in it: s.chars()
        invariant
            out@ == it.seq().take(it.index()),
    {
        out.push(c);
    }
    out
}

/// Appends one character to a string.
///
/// Wraps `String::push` of the standard library, which appends the given
/// character to the end of the string and changes nothing else.
#[verifier::external_body]
pub(crate) fn push_char(s: &mut String, c: char)
    ensures
        final(s)@ == old(s)@.push(c),
{
    s.push(c);
}

/// A copy of an optional string.
pub fn clone_optional(s: &Option<String>) -> (r: Option<String>)
    ensures
        r.is_some() == s.is_some(),
        r.is_some() ==> r.unwrap()@ == s.unwrap()@,
        r.deep_view() == s.deep_view(),
{
    match s {
        Some(n) => Some(n.clone()),
        None => None,
    }
}

/// Appends the characters `chars[from..to]` to a string.
pub fn push_range(out: &mut String, chars: &Vec<char>, from: usize, to: usize)
    requires
        from <= to <= chars.len(),
    ensures
        final(out)@ == old(out)@ + chars@.subrange(from as int, to as int),
{
    let mut i: usize = from;
    while i < to
        invariant
            from <= i <= to <= chars.len(),
            out@ == old(out)@ + chars@.subrange(from as int, i as int),
        decreases to - i,
    {
        push_char(out, chars[i]);
        i = i + 1;
    }
}

/// The string made of the characters `chars[from..to]`.
pub fn string_of_range(chars: &Vec<char>, from: usize, to: usize) -> (r: String)
    requires
        from <= to <= chars.len(),
    ensures
        r@ == chars@.subrange(from as int, to as int),
{
    let mut out = String::new();
    push_range(&mut out, chars, from, to);
    out
}

/// The character that writes the decimal digit `d`.
pub open spec fn dec_digit(d: int) -> char {
    ('0' as int + d) as char
}

/// The character that writes the hexadecimal digit `d` in lower case.
pub open spec fn hex_digit(d: int) -> char {
    if d < 10 {
        ('0' as int + d) as char
    } else {
        ('a' as int + d - 10) as char
    }
}

/// The decimal notation of a natural number, without leading zeros.
pub open spec fn dec_text(n: nat) -> Seq<char>
    decreases n,
{
    if n < 10 {
        seq![dec_digit(n as int)]
    } else {
        dec_text(n / 10).push(dec_digit((n % 10) as int))
    }
}

/// Two lower-case hexadecimal digits for one byte.
pub open spec fn hex_byte_text(b: u8) -> Seq<char> {
    seq![hex_digit(b as int / 16), hex_digit(b as int % 16)]
}

/// Whether `c` writes a decimal digit.
pub open spec fn is_dec_digit(c: char) -> bool {
    '0' <= c <= '9'
}

/// The value of the decimal digit that `c` writes.
pub open spec fn digit_value(c: char) -> nat {
    (c as int - '0' as int) as nat
}

/// Whether every character of `s` writes a decimal digit.
pub open spec fn all_dec_digits(s: Seq<char>) -> bool {
    forall|i: int| 0 <= i < s.len() ==> is_dec_digit(#[trigger] s[i])
}

/// The number that a sequence of decimal digits writes; 0 for the empty
/// sequence.
pub open spec fn dec_value(s: Seq<char>) -> nat
    decreases s.len(),
{
    if s.len() == 0 {
        0
    } else {
        dec_value(s.drop_last()) * 10 + digit_value(s.last())
    }
}

/// What is left of a number's text once one leading `+` is taken off.
pub open spec fn unsigned_digits(s: Seq<char>) -> Seq<char> {
    if s.len() > 0 && s[0] == '+' {
        s.drop_first()
    } else {
        s
    }
}

/// The unsigned number that `s` writes, with `limit` as the largest value
/// accepted: an optional `+`, then one or more decimal digits and nothing
/// else. Leading zeros are accepted.
pub open spec fn parse_unsigned(s: Seq<char>, limit: nat) -> Option<nat> {
    let digits = unsigned_digits(s);
    if digits.len() > 0 && all_dec_digits(digits) && dec_value(digits) <= limit {
        Some(dec_value(digits))
    } else {
        None
    }
}

/// The decimal notation of a number is one or more digits, and these
/// digits write the number.
pub proof fn lemma_dec_text(n: nat)
    ensures
        dec_text(n).len() >= 1,
        all_dec_digits(dec_text(n)),
        dec_value(dec_text(n)) == n,
    decreases n,
{
    let t = dec_text(n);
    if n < 10 {
        assert(is_dec_digit(t[0]));
        assert(t.drop_last().len() == 0);
        assert(dec_value(t) == dec_value(t.drop_last()) * 10 + digit_value(t.last()));
    } else {
        let front = dec_text(n / 10);
        lemma_dec_text(n / 10);
        assert(t.drop_last() =~= front);
        assert(is_dec_digit(t.last()));
        assert forall|i: int| 0 <= i < t.len() implies is_dec_digit(#[trigger] t[i]) by {
            if i < front.len() {
                assert(t[i] == front[i]);
            }
        }
    }
}

/// Where two texts that each begin with digits and a dot are the same, they
/// begin with the same digits and go on in the same way.
pub proof fn lemma_same_digits_before_dot(
    x: Seq<char>,
    rest_x: Seq<char>,
    y: Seq<char>,
    rest_y: Seq<char>,
)
    requires
        all_dec_digits(x),
        all_dec_digits(y),
        x + seq!['.'] + rest_x == y + seq!['.'] + rest_y,
    ensures
        x == y,
        rest_x == rest_y,
{
    let whole = x + seq!['.'] + rest_x;
    let other = y + seq!['.'] + rest_y;
    assert(whole[x.len() as int] == '.');
    assert forall|j: int| 0 <= j < x.len() implies whole[j] != '.' by {
        assert(whole[j] == x[j]);
        assert(is_dec_digit(x[j]));
    }
    lemma_first_index_is(whole, '.', x.len() as int);
    assert(other[y.len() as int] == '.');
    assert forall|j: int| 0 <= j < y.len() implies other[j] != '.' by {
        assert(other[j] == y[j]);
        assert(is_dec_digit(y[j]));
    }
    lemma_first_index_is(other, '.', y.len() as int);
    assert(x =~= whole.take(x.len() as int));
    assert(y =~= other.take(y.len() as int));
    assert(rest_x =~= whole.skip(x.len() as int + 1));
    assert(rest_y =~= other.skip(y.len() as int + 1));
}

fn dec_digit_char(d: u8) -> (c: char)
    requires
        d < 10,
    ensures
        c == dec_digit(d as int),
{
    (48u8 + d) as char
}

fn hex_digit_char(d: u8) -> (c: char)
    requires
        d < 16,
    ensures
        c == hex_digit(d as int),
{
    if d < 10 {
        (48u8 + d) as char
    } else {
        (87u8 + d) as char
    }
}

/// Appends the decimal notation of `n`.
pub fn push_dec(out: &mut String, n: u64)
    ensures
        final(out)@ == old(out)@ + dec_text(n as nat),
    decreases n,
{
    if n >= 10 {
        push_dec(out, n / 10);
    }
    let d: u8 = (n % 10) as u8;
    push_char(out, dec_digit_char(d));
}

/// Appends two lower-case hexadecimal digits for `b`.
pub fn push_hex_byte(out: &mut String, b: u8)
    ensures
        final(out)@ == old(out)@ + hex_byte_text(b),
{
    push_char(out, hex_digit_char(b / 16));
    push_char(out, hex_digit_char(b % 16));
}

/// A prefix of a digit sequence writes a number that is no greater.
pub proof fn lemma_dec_value_prefix(s: Seq<char>, k: int)
    requires
        0 <= k <= s.len(),
    ensures
        dec_value(s.take(k)) <= dec_value(s),
    decreases s.len(),
{
    if k == s.len() {
        assert(s.take(k) =~= s);
    } else {
        lemma_dec_value_prefix(s.drop_last(), k);
        assert(s.drop_last().take(k) =~= s.take(k));
    }
}

/// Reads the unsigned decimal number that `chars[from..]` writes, if it is no
/// greater than `limit`.
pub fn parse_unsigned_from(chars: &Vec<char>, from: usize, limit: u64) -> (r: Option<u64>)
    requires
        from <= chars.len(),
    ensures
        r.is_some() == parse_unsigned(chars@.skip(from as int), limit as nat).is_some(),
        r.is_some() ==> r.unwrap() as nat == parse_unsigned(
            chars@.skip(from as int),
            limit as nat,
        ).unwrap(),
{
    let ghost text = chars@.skip(from as int);
    let n: usize = chars.len();
    let mut start: usize = from;
    if start < n && chars[start] == '+' {
        start = start + 1;
    }
    let ghost digits = chars@.skip(start as int);
    assert(digits == unsigned_digits(text)) by {
        if start > from {
            assert(text[0] == '+');
            assert(text.drop_first() =~= digits);
        } else {
            if text.len() > 0 {
                assert(text[0] == chars@[from as int]);
            }
        }
    }
    if start == n {
        return None;
    }
    let mut acc: u64 = 0;
    let mut i: usize = start;
    while i < n
        invariant
            start <= i <= n,
            n == chars.len(),
            digits == chars@.skip(start as int),
            digits == unsigned_digits(chars@.skip(from as int)),
            all_dec_digits(digits.take(i - start)),
            acc as nat == dec_value(digits.take(i - start)),
            acc <= limit,
        decreases n - i,
    {
        let c: char = chars[i];
        let ghost before = digits.take(i - start);
        let ghost after = digits.take(i + 1 - start);
        assert(after.drop_last() =~= before);
        assert(after.last() == c);
        assert(digits[i - start] == c);
        if !('0' <= c && c <= '9') {
            assert(!is_dec_digit(digits[i - start]));
            return None;
        }
        let d: u64 = (c as u32 - '0' as u32) as u64;
        assert(d as nat == digit_value(c));
        if d > limit || acc > (limit - d) / 10 {
            proof {
                assert(dec_value(after) == acc as nat * 10 + d);
                assert(acc as nat * 10 + d > limit);
                lemma_dec_value_prefix(digits, i + 1 - start);
            }
            return None;
        }
        acc = acc * 10 + d;
        assert forall|j: int| 0 <= j < after.len() implies is_dec_digit(#[trigger] after[j]) by {
            if j < before.len() {
                assert(after[j] == before[j]);
            }
        }
        i = i + 1;
    }
    assert(digits.take(n - start) =~= digits);
    Some(acc)
}

/// Reads an unsigned 64-bit decimal number: an optional `+`, then digits.
pub fn parse_u64(s: &str) -> (r: Option<u64>)
    ensures
        r.is_some() == parse_unsigned(s@, u64::MAX as nat).is_some(),
        r.is_some() ==> r.unwrap() as nat == parse_unsigned(s@, u64::MAX as nat).unwrap(),
{
    let chars = to_chars(s);
    assert(chars@.skip(0) =~= chars@);
    parse_unsigned_from(&chars, 0, u64::MAX)
}

/// The characters `chars[from..to]` as a vector of their own.
pub fn slice_chars(chars: &Vec<char>, from: usize, to: usize) -> (r: Vec<char>)
    requires
        from <= to <= chars.len(),
    ensures
        r@ == chars@.subrange(from as int, to as int),
{
    let mut out: Vec<char> = Vec::new();
    let mut i: usize = from;
    while i < to
        invariant
            from <= i <= to <= chars.len(),
            out@ == chars@.subrange(from as int, i as int),
        decreases to - i,
    {
        out.push(chars[i]);
        proof {
            assert(out@ =~= chars@.subrange(from as int, i + 1));
        }
        i = i + 1;
    }
    out
}

/// Where `c` first occurs in `s`; the length of `s` where it does not occur.
pub open spec fn first_index_of(s: Seq<char>, c: char) -> int
    decreases s.len(),
{
    if s.len() == 0 {
        0
    } else if s[0] == c {
        0
    } else {
        1 + first_index_of(s.drop_first(), c)
    }
}

/// What stands before the first `c` in `s`; all of `s` where `c` does not
/// occur.
pub open spec fn before_first(s: Seq<char>, c: char) -> Seq<char> {
    s.take(first_index_of(s, c))
}

/// What stands after the first `c` in `s`; nothing where `c` does not occur.
pub open spec fn after_first(s: Seq<char>, c: char) -> Option<Seq<char>> {
    if first_index_of(s, c) < s.len() {
        Some(s.skip(first_index_of(s, c) + 1))
    } else {
        None
    }
}

/// `first_index_of` is a position of `s` or its length, `c` stands there if
/// it is a position, and `c` does not stand before it.
pub proof fn lemma_first_index_of(s: Seq<char>, c: char)
    ensures
        0 <= first_index_of(s, c) <= s.len(),
        first_index_of(s, c) < s.len() ==> s[first_index_of(s, c)] == c,
        forall|j: int| 0 <= j < first_index_of(s, c) ==> s[j] != c,
    decreases s.len(),
{
    if s.len() > 0 && s[0] != c {
        let rest = s.drop_first();
        lemma_first_index_of(rest, c);
        assert forall|j: int| 0 <= j < first_index_of(s, c) implies s[j] != c by {
            if j > 0 {
                assert(rest[j - 1] == s[j]);
            }
        }
    }
}

/// The position that `first_index_of` names is the only one at which `c`
/// stands with no `c` before it.
pub proof fn lemma_first_index_is(s: Seq<char>, c: char, k: int)
    requires
        0 <= k <= s.len(),
        k < s.len() ==> s[k] == c,
        forall|j: int| 0 <= j < k ==> s[j] != c,
    ensures
        first_index_of(s, c) == k,
{
    lemma_first_index_of(s, c);
}

/// Where `c` first occurs in `chars[from..]`, counted from the start of
/// `chars`; the length of `chars` where it does not occur there.
pub fn find_char(chars: &Vec<char>, from: usize, c: char) -> (k: usize)
    requires
        from <= chars.len(),
    ensures
        from <= k <= chars.len(),
        k - from == first_index_of(chars@.skip(from as int), c),
{
    let mut k: usize = from;
    while k < chars.len() && chars[k] != c
        invariant
            from <= k <= chars.len(),
            forall|j: int| from <= j < k ==> chars@[j] != c,
        decreases chars.len() - k,
    {
        k = k + 1;
    }
    proof {
        let s = chars@.skip(from as int);
        assert forall|j: int| 0 <= j < k - from implies s[j] != c by {
            assert(s[j] == chars@[from + j]);
        }
        if k < chars.len() {
            assert(s[k - from] == chars@[k as int]);
        }
        lemma_first_index_is(s, c, k - from);
    }
    k
}

/// The view of an optional vector of characters.
pub open spec fn chars_view(v: Option<Vec<char>>) -> Option<Seq<char>> {
    match v {
        Some(x) => Some(x@),
        None => None,
    }
}

/// Cuts `chars` at the first `c`: what stands before it, and what stands
/// after it if `c` occurs at all.
pub fn cut_at(chars: &Vec<char>, c: char) -> (r: (Vec<char>, Option<Vec<char>>))
    ensures
        r.0@ == before_first(chars@, c),
        chars_view(r.1) == after_first(chars@, c),
{
    proof {
        assert(chars@.skip(0) =~= chars@);
    }
    let k: usize = find_char(chars, 0, c);
    let head = slice_chars(chars, 0, k);
    proof {
        assert(chars@.subrange(0, k as int) =~= chars@.take(k as int));
    }
    if k < chars.len() {
        let tail = slice_chars(chars, k + 1, chars.len());
        proof {
            assert(chars@.subrange(k + 1, chars@.len() as int) =~= chars@.skip(k + 1));
        }
        (head, Some(tail))
    } else {
        (head, None)
    }
}

/// The string made of the given characters.
pub fn string_of(chars: &Vec<char>) -> (r: String)
    ensures
        r@ == chars@,
{
    let r = string_of_range(chars, 0, chars.len());
    proof {
        assert(chars@.subrange(0, chars@.len() as int) =~= chars@);
    }
    r
}

/// `count` times the character `c`.
pub open spec fn repeated(c: char, count: nat) -> Seq<char> {
    Seq::new(count, |i: int| c)
}

/// Appends `count` times the character `c`.
pub fn push_repeated(out: &mut String, c: char, count: usize)
    ensures
        final(out)@ == old(out)@ + repeated(c, count as nat),
{
    let mut i: usize = 0;
    proof {
        assert(out@ =~= old(out)@ + repeated(c, 0));
    }
    while i < count
        invariant
            i <= count,
            out@ == old(out)@ + repeated(c, i as nat),
        decreases count - i,
    {
        push_char(out, c);
        proof {
            assert(out@ =~= old(out)@ + repeated(c, (i + 1) as nat));
        }
        i = i + 1;
    }
}

/// How many bytes a text takes in UTF-8.
pub open spec fn byte_len(s: Seq<char>) -> nat {
    vstd::utf8::encode_utf8(s).len()
}

/// How many bytes a text takes in UTF-8.
pub fn byte_length(s: &str) -> (n: usize)
    ensures
        n == byte_len(s@),
{
    s.as_bytes().len()
}

} // verus!
