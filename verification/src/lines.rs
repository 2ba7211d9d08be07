//! Text files taken apart: lines, fields, and surrounding white space.

use crate::addr::Ipv4;
use crate::sys::{ip_of_text, parse_ip, IpValue};
use crate::text::{slice_chars, string_of, to_chars};
use vstd::prelude::*;

verus! {

/// Whether a character is white space, as the standard library's
/// `char::is_whitespace` decides it.
pub uninterp spec fn is_white_space(c: char) -> bool;

/// Whether `c` is white space.
///
/// Wraps `char::is_whitespace` of the standard library, whose answer is a
/// matter of the character alone; the contract gives it a name and says no
/// more of it.
#[verifier::external_body]
pub(crate) fn white_space(c: char) -> (r: bool)
    ensures
        r == is_white_space(c),
{
    c.is_whitespace()
}

/// `s` without the white space it begins with.
pub open spec fn trim_start(s: Seq<char>) -> Seq<char>
    decreases s.len(),
{
    if s.len() > 0 && is_white_space(s[0]) {
        trim_start(s.drop_first())
    } else {
        s
    }
}

/// `s` without the white space it ends with.
pub open spec fn trim_end(s: Seq<char>) -> Seq<char>
    decreases s.len(),
{
    if s.len() > 0 && is_white_space(s.last()) {
        trim_end(s.drop_last())
    } else {
        s
    }
}

/// `s` without the white space around it.
pub open spec fn trimmed(s: Seq<char>) -> Seq<char> {
    trim_end(trim_start(s))
}

/// The pieces of `s` between occurrences of `c`, empty ones included; a text
/// without `c` is one piece.
pub open spec fn split_on(s: Seq<char>, c: char) -> Seq<Seq<char>>
    decreases s.len(),
{
    if s.len() == 0 {
        seq![Seq::empty()]
    } else {
        let before = split_on(s.drop_last(), c);
        if s.last() == c {
            before.push(Seq::empty())
        } else {
            before.update(before.len() - 1, before.last().push(s.last()))
        }
    }
}

/// The fields of `s`: its longest runs of characters that are not white
/// space, in order.
pub open spec fn fields(s: Seq<char>) -> Seq<Seq<char>>
    decreases s.len(),
{
    if s.len() == 0 {
        Seq::empty()
    } else {
        let before = fields(s.drop_last());
        if is_white_space(s.last()) {
            before
        } else if s.len() >= 2 && !is_white_space(s[s.len() - 2]) {
            before.update(before.len() - 1, before.last().push(s.last()))
        } else {
            before.push(seq![s.last()])
        }
    }
}

/// The views of a list of pieces, in order.
pub open spec fn pieces(v: Seq<Vec<char>>) -> Seq<Seq<char>> {
    v.map_values(|p: Vec<char>| p@)
}

/// Splitting always gives at least one piece.
pub proof fn lemma_split_on_nonempty(s: Seq<char>, c: char)
    ensures
        split_on(s, c).len() >= 1,
    decreases s.len(),
{
    if s.len() > 0 {
        lemma_split_on_nonempty(s.drop_last(), c);
    }
}

/// A text that ends in a field character has at least one field.
pub proof fn lemma_fields_nonempty(s: Seq<char>)
    requires
        s.len() > 0,
        !is_white_space(s.last()),
    ensures
        fields(s).len() >= 1,
    decreases s.len(),
{
    if s.len() >= 2 && !is_white_space(s[s.len() - 2]) {
        let front = s.drop_last();
        assert(front.last() == s[s.len() - 2]);
        lemma_fields_nonempty(front);
    }
}

/// The characters of `chars` without the white space around them.
pub fn trim(chars: &Vec<char>) -> (r: Vec<char>)
    ensures
        r@ == trimmed(chars@),
{
    let n: usize = chars.len();
    let mut from: usize = 0;
    proof {
        assert(chars@.skip(0) =~= chars@);
    }
    while from < n && white_space(chars[from])
        invariant
            from <= n,
            n == chars@.len(),
            trim_start(chars@) == trim_start(chars@.skip(from as int)),
        decreases n - from,
    {
        proof {
            let s = chars@.skip(from as int);
            assert(s[0] == chars@[from as int]);
            assert(s.drop_first() =~= chars@.skip(from + 1));
        }
        from = from + 1;
    }
    proof {
        let s = chars@.skip(from as int);
        if s.len() > 0 {
            assert(s[0] == chars@[from as int]);
        }
        assert(trim_start(chars@) == s);
    }
    let mut to: usize = n;
    while to > from && white_space(chars[to - 1])
        invariant
            from <= to <= n,
            n == chars@.len(),
            trim_end(chars@.skip(from as int)) == trim_end(
                chars@.subrange(from as int, to as int),
            ),
        decreases to - from,
    {
        proof {
            let s = chars@.subrange(from as int, to as int);
            assert(s.last() == chars@[to - 1]);
            assert(s.drop_last() =~= chars@.subrange(from as int, to - 1));
        }
        to = to - 1;
    }
    proof {
        assert(chars@.skip(from as int) =~= chars@.subrange(from as int, n as int));
        let s = chars@.subrange(from as int, to as int);
        if s.len() > 0 {
            assert(s.last() == chars@[to - 1]);
        }
        assert(trim_end(s) == s);
    }
    slice_chars(chars, from, to)
}

/// The pieces of `chars` between occurrences of `c`.
pub fn split(chars: &Vec<char>, c: char) -> (r: Vec<Vec<char>>)
    ensures
        pieces(r@) == split_on(chars@, c),
{
    let n: usize = chars.len();
    let mut done: Vec<Vec<char>> = Vec::new();
    let mut current: Vec<char> = Vec::new();
    let mut i: usize = 0;
    proof {
        assert(chars@.take(0) =~= Seq::<char>::empty());
        assert(pieces(done@).push(current@) =~= split_on(chars@.take(0), c));
    }
    while i < n
        invariant
            i <= n,
            n == chars@.len(),
            pieces(done@).push(current@) == split_on(chars@.take(i as int), c),
        decreases n - i,
    {
        let ghost before = split_on(chars@.take(i as int), c);
        let ghost longer = chars@.take(i + 1);
        proof {
            assert(longer.drop_last() =~= chars@.take(i as int));
            assert(longer.last() == chars@[i as int]);
            assert(before.last() == current@);
        }
        if chars[i] == c {
            let ghost old_done = pieces(done@);
            done.push(current);
            current = Vec::new();
            proof {
                assert(pieces(done@) =~= old_done.push(before.last()));
                assert(pieces(done@).push(current@) =~= before.push(Seq::empty()));
            }
        } else {
            current.push(chars[i]);
            proof {
                assert(pieces(done@).push(current@) =~= before.update(
                    before.len() - 1,
                    before.last().push(chars@[i as int]),
                ));
            }
        }
        i = i + 1;
    }
    proof {
        assert(chars@.take(n as int) =~= chars@);
    }
    let ghost old_done = pieces(done@);
    done.push(current);
    proof {
        assert(pieces(done@) =~= old_done.push(current@));
    }
    done
}

/// The fields of `chars`: its runs of characters that are not white space.
pub fn split_fields(chars: &Vec<char>) -> (r: Vec<Vec<char>>)
    ensures
        pieces(r@) == fields(chars@),
{
    let n: usize = chars.len();
    let mut done: Vec<Vec<char>> = Vec::new();
    let mut current: Vec<char> = Vec::new();
    let mut in_field: bool = false;
    let mut i: usize = 0;
    proof {
        assert(chars@.take(0) =~= Seq::<char>::empty());
        assert(pieces(done@) =~= fields(chars@.take(0)));
    }
    while i < n
        invariant
            i <= n,
            n == chars@.len(),
            in_field <==> i > 0 && !is_white_space(chars@[i - 1]),
            in_field ==> pieces(done@).push(current@) == fields(chars@.take(i as int)),
            !in_field ==> pieces(done@) == fields(chars@.take(i as int)),
        decreases n - i,
    {
        let ghost before = fields(chars@.take(i as int));
        let ghost longer = chars@.take(i + 1);
        proof {
            assert(longer.drop_last() =~= chars@.take(i as int));
            assert(longer.last() == chars@[i as int]);
            if i > 0 {
                assert(longer[longer.len() - 2] == chars@[i - 1]);
            }
        }
        let ch: char = chars[i];
        if white_space(ch) {
            if in_field {
                let ghost old_done = pieces(done@);
                done.push(current);
                current = Vec::new();
                proof {
                    assert(pieces(done@) =~= old_done.push(before.last()));
                    assert(pieces(done@) =~= before);
                }
            }
            in_field = false;
        } else {
            if in_field {
                let ghost earlier = current@;
                current.push(ch);
                proof {
                    assert(before.last() == earlier);
                    assert(pieces(done@).push(current@) =~= before.update(
                        before.len() - 1,
                        before.last().push(ch),
                    ));
                }
            } else {
                current = Vec::new();
                current.push(ch);
                proof {
                    assert(current@ =~= seq![ch]);
                }
            }
            in_field = true;
        }
        i = i + 1;
    }
    proof {
        assert(chars@.take(n as int) =~= chars@);
    }
    if in_field {
        let ghost old_done = pieces(done@);
        done.push(current);
        proof {
            assert(pieces(done@) =~= old_done.push(current@));
        }
    }
    done
}

/// The words of a word list: the lines of the text without the white space
/// around it.
pub open spec fn words_of(text: Seq<char>) -> Seq<Seq<char>> {
    split_on(trimmed(text), '\n')
}

/// The words of a word list, one per line of the text without the white
/// space around it.
pub fn word_list(text: &str) -> (r: Vec<String>)
    ensures
        r.deep_view() == words_of(text@),
{
    let chars = to_chars(text);
    let t = trim(&chars);
    let rows = split(&t, '\n');
    let mut out: Vec<String> = Vec::new();
    let n: usize = rows.len();
    let mut i: usize = 0;
    while i < n
        invariant
            i <= n,
            n == rows@.len(),
            out@.len() == i,
            forall|k: int| 0 <= k < i ==> (#[trigger] out@[k])@ == rows@[k]@,
        decreases n - i,
    {
        out.push(string_of(&rows[i]));
        i = i + 1;
    }
    proof {
        assert(out.deep_view() =~= pieces(rows@));
    }
    out
}

/// The IPv4 addresses among the words of a list, in the order of the list.
pub open spec fn addresses_of(words: Seq<Seq<char>>) -> Seq<Ipv4>
    decreases words.len(),
{
    if words.len() == 0 {
        Seq::empty()
    } else {
        let before = addresses_of(words.drop_last());
        match ip_of_text(words.last()) {
            Some(IpValue::V4(bits)) => before.push(Ipv4 { bits }),
            _ => before,
        }
    }
}

/// The hosts that a word list names: the IPv4 addresses among its lines.
/// Lines that are no IPv4 address are passed over.
pub fn host_list(text: &str) -> (r: Vec<Ipv4>)
    ensures
        r@ == addresses_of(words_of(text@)),
{
    let words = word_list(text);
    let ghost all = words.deep_view();
    let mut out: Vec<Ipv4> = Vec::new();
    let n: usize = words.len();
    let mut i: usize = 0;
    proof {
        assert(out@ =~= addresses_of(all.take(0)));
    }
    while i < n
        invariant
            i <= n,
            n == words@.len(),
            all == words.deep_view(),
            out@ == addresses_of(all.take(i as int)),
        decreases n - i,
    {
        proof {
            let longer = all.take(i + 1);
            assert(longer.drop_last() =~= all.take(i as int));
            assert(longer.last() == words@[i as int]@);
        }
        match parse_ip(words[i].as_str()) {
            Some(IpValue::V4(bits)) => {
                out.push(Ipv4 { bits });
            },
            _ => {},
        }
        i = i + 1;
    }
    proof {
        assert(all.take(n as int) =~= all);
    }
    out
}

} // verus!
