//! Plain text helpers: decimal numbers in ASCII digits, and text comparison.
use vstd::prelude::*;

verus! {

/// The ASCII digit for a value below ten.
pub open spec fn digit_char(d: nat) -> char {
    (d + 48) as char
}

pub open spec fn is_digit(c: char) -> bool {
    '0' <= c <= '9'
}

pub open spec fn digit_value(c: char) -> nat {
    (c as int - 48) as nat
}

/// Shortest decimal text of `n`, most significant digit first.
pub open spec fn decimal(n: nat) -> Seq<char>
    decreases n,
{
    if n < 10 {
        seq![digit_char(n)]
    } else {
        decimal(n / 10).push(digit_char(n % 10))
    }
}

pub open spec fn all_digits(s: Seq<char>) -> bool {
    forall|i: int| 0 <= i < s.len() ==> is_digit(#[trigger] s[i])
}

/// The number that a string of digits spells out (leading zeros allowed).
pub open spec fn digits_value(s: Seq<char>) -> nat
    decreases s.len(),
{
    if s.len() == 0 {
        0
    } else {
        digits_value(s.drop_last()) * 10 + digit_value(s.last())
    }
}

/// A number written in decimal: one or more ASCII digits whose value is at most `max`.
pub open spec fn number_of_text(s: Seq<char>, max: nat) -> Option<nat> {
    if s.len() > 0 && all_digits(s) && digits_value(s) <= max {
        Some(digits_value(s))
    } else {
        None
    }
}

/// A byte written in decimal.
pub open spec fn byte_of_text(s: Seq<char>) -> Option<u8> {
    match number_of_text(s, 255) {
        Some(n) => Some(n as u8),
        None => None,
    }
}

pub proof fn lemma_decimal_digits(n: nat)
    ensures
        decimal(n).len() > 0,
        all_digits(decimal(n)),
        digits_value(decimal(n)) == n,
    decreases n,
{
    let c = digit_char(n % 10);
    assert(c as int == n % 10 + 48);
    assert(digit_value(c) == n % 10);
    if n < 10 {
        assert(decimal(n).drop_last() =~= Seq::<char>::empty());
        assert(digits_value(Seq::<char>::empty()) == 0);
        assert(digits_value(decimal(n)) == n);
    } else {
        lemma_decimal_digits(n / 10);
        let s = decimal(n);
        assert(s.drop_last() == decimal(n / 10));
        assert(s.last() == c);
        assert((n / 10) * 10 + n % 10 == n);
        assert(digits_value(s) == digits_value(decimal(n / 10)) * 10 + digit_value(c));
        assert forall|i: int| 0 <= i < s.len() implies is_digit(#[trigger] s[i]) by {
            if i < s.len() - 1 {
                assert(s[i] == decimal(n / 10)[i]);
            }
        }
    }
}

/// Reading more digits never lowers the value.
pub proof fn lemma_digits_value_prefix(s: Seq<char>, i: int)
    requires
        0 <= i <= s.len(),
        all_digits(s),
    ensures
        digits_value(s.take(i)) <= digits_value(s),
    decreases s.len() - i,
{
    if i < s.len() {
        lemma_digits_value_prefix(s, i + 1);
        assert(s.take(i + 1).drop_last() == s.take(i));
        assert(is_digit(s[i]));
    } else {
        assert(s.take(i) == s);
    }
}

fn digit_str(d: u64) -> (r: &'static str)
    requires
        d < 10,
    ensures
        r@ == seq![digit_char(d as nat)],
{
    proof {
        reveal_strlit("0");
        reveal_strlit("1");
        reveal_strlit("2");
        reveal_strlit("3");
        reveal_strlit("4");
        reveal_strlit("5");
        reveal_strlit("6");
        reveal_strlit("7");
        reveal_strlit("8");
        reveal_strlit("9");
    }
    match d {
        0 => "0",
        1 => "1",
        2 => "2",
        3 => "3",
        4 => "4",
        5 => "5",
        6 => "6",
        7 => "7",
        8 => "8",
        _ => "9",
    }
}

/// Appends the decimal text of `n` to `out`.
pub fn push_decimal(out: &mut String, n: u64)
    ensures
        final(out)@ == old(out)@ + decimal(n as nat),
    decreases n,
{
    if n >= 10 {
        push_decimal(out, n / 10);
    }
    out.append(digit_str(n % 10));
    proof {
        if n >= 10 {
            assert(decimal(n as nat) == decimal((n / 10) as nat).push(digit_char((n % 10) as nat)));
        }
    }
    assert(out@ =~= old(out)@ + decimal(n as nat));
}

/// Reads a number written in decimal; anything but one or more digits worth at
/// most `max` is refused.
pub fn parse_number(s: &str, max: u32) -> (r: Option<u32>)
    requires
        max <= u16::MAX,
    ensures
        r matches Some(n) ==> number_of_text(s@, max as nat) == Some(n as nat),
        r is None ==> number_of_text(s@, max as nat) is None,
{
    let len = s.unicode_len();
    if len == 0 {
        return None;
    }
    let mut acc: u32 = 0;
    let mut i: usize = 0;
    while i < len
        invariant
            len == s@.len(),
            i <= len,
            max <= u16::MAX,
            all_digits(s@.take(i as int)),
            acc as nat == digits_value(s@.take(i as int)),
            acc <= max,
        decreases len - i,
    {
        let c = s.get_char(i);
        if !('0' <= c && c <= '9') {
            assert(!all_digits(s@)) by {
                assert(!is_digit(s@[i as int]));
            }
            return None;
        }
        let ghost prev = s@.take(i as int);
        let d = (c as u32) - 48;
        acc = acc * 10 + d;
        i = i + 1;
        proof {
            let cur = s@.take(i as int);
            assert(cur.drop_last() == prev);
            assert(cur.last() == c);
            assert forall|j: int| 0 <= j < cur.len() implies is_digit(#[trigger] cur[j]) by {
                if j < cur.len() - 1 {
                    assert(cur[j] == prev[j]);
                }
            }
        }
        if acc > max {
            proof {
                if all_digits(s@) {
                    lemma_digits_value_prefix(s@, i as int);
                }
            }
            return None;
        }
    }
    assert(s@.take(len as int) == s@);
    Some(acc)
}

/// Reads a byte written in decimal; anything but one or more digits worth at most 255 is refused.
pub fn parse_byte(s: &str) -> (r: Option<u8>)
    ensures
        r == byte_of_text(s@),
{
    match parse_number(s, 255) {
        Some(n) => Some(n as u8),
        None => None,
    }
}

/// The ASCII digits of a text, in order.
pub open spec fn digits_of(s: Seq<char>) -> Seq<char> {
    s.filter(|c: char| is_digit(c))
}

/// Keeps the ASCII digits of a text, at most `limit` of them.
pub fn keep_digits(s: &str, limit: usize) -> (r: String)
    ensures
        r@ == digits_of(s@).take(
            if digits_of(s@).len() < limit {
                digits_of(s@).len() as int
            } else {
                limit as int
            },
        ),
{
    let len = s.unicode_len();
    let mut out = String::new();
    let mut i: usize = 0;
    while i < len
        invariant
            len == s@.len(),
            i <= len,
            out@ == digits_of(s@.take(i as int)).take(
                if digits_of(s@.take(i as int)).len() < limit {
                    digits_of(s@.take(i as int)).len() as int
                } else {
                    limit as int
                },
            ),
        decreases len - i,
    {
        let ghost prev = s@.take(i as int);
        let c = s.get_char(i);
        let ghost cur = s@.take(i + 1);
        assert(cur.drop_last() =~= prev);
        assert(cur.last() == c);
        proof {
            reveal(Seq::filter);
            assert(cur.filter(|c: char| is_digit(c)) == if is_digit(c) {
                prev.filter(|c: char| is_digit(c)).push(c)
            } else {
                prev.filter(|c: char| is_digit(c))
            });
        }
        if '0' <= c && c <= '9' && out.unicode_len() < limit {
            let ghost before = out@;
            out.append(s.substring_char(i, i + 1));
            assert(s@.subrange(i as int, i + 1) =~= seq![c]);
            assert(out@ =~= digits_of(cur).take(before.len() + 1 as int));
        } else {
            assert(out@ =~= digits_of(cur).take(
                if digits_of(cur).len() < limit {
                    digits_of(cur).len() as int
                } else {
                    limit as int
                },
            ));
        }
        i = i + 1;
    }
    assert(s@.take(len as int) =~= s@);
    out
}

/// The pieces of `s` between occurrences of `sep`, first to last; a text
/// without `sep` is one piece, and the empty text is one empty piece.
pub open spec fn split_on(s: Seq<char>, sep: char) -> Seq<Seq<char>>
    decreases s.len(),
{
    if s.len() == 0 {
        seq![Seq::empty()]
    } else {
        let rest = split_on(s.drop_last(), sep);
        if s.last() == sep {
            rest.push(Seq::empty())
        } else {
            rest.update(rest.len() - 1, rest.last().push(s.last()))
        }
    }
}

pub proof fn lemma_split_nonempty(s: Seq<char>, sep: char)
    ensures
        split_on(s, sep).len() >= 1,
    decreases s.len(),
{
    if s.len() > 0 {
        lemma_split_nonempty(s.drop_last(), sep);
    }
}

/// Text without the separator extends the last piece.
pub proof fn lemma_split_extend(p: Seq<char>, x: Seq<char>, sep: char)
    requires
        forall|i: int| 0 <= i < x.len() ==> x[i] != sep,
    ensures
        split_on(p + x, sep) == split_on(p, sep).update(
            split_on(p, sep).len() - 1,
            split_on(p, sep).last() + x,
        ),
    decreases x.len(),
{
    lemma_split_nonempty(p, sep);
    let r = split_on(p, sep);
    if x.len() == 0 {
        assert(p + x =~= p);
        assert(r.last() + x =~= r.last());
        assert(r.update(r.len() - 1, r.last() + x) =~= r);
    } else {
        let y = x.drop_last();
        lemma_split_extend(p, y, sep);
        assert((p + x).drop_last() =~= p + y);
        assert((p + x).last() == x.last());
        assert((r.last() + y).push(x.last()) =~= r.last() + x);
        assert(split_on(p + x, sep) =~= r.update(r.len() - 1, r.last() + x));
    }
}

/// A separator at the end starts a new, empty piece.
pub proof fn lemma_split_separator(p: Seq<char>, sep: char)
    ensures
        split_on(p.push(sep), sep) == split_on(p, sep).push(Seq::empty()),
{
    assert(p.push(sep).drop_last() =~= p);
}

pub open spec fn views_of(parts: Seq<&str>) -> Seq<Seq<char>> {
    parts.map_values(|p: &str| p@)
}

/// Splits `s` at every occurrence of `sep`.
pub fn split_text<'a>(s: &'a str, sep: char) -> (r: Vec<&'a str>)
    ensures
        views_of(r@) == split_on(s@, sep),
{
    let len = s.unicode_len();
    let mut parts: Vec<&'a str> = Vec::new();
    let mut start: usize = 0;
    let mut i: usize = 0;
    assert(s@.take(0) =~= Seq::<char>::empty());
    assert(views_of(parts@).push(s@.subrange(0, 0)) =~= seq![Seq::<char>::empty()]);
    while i < len
        invariant
            len == s@.len(),
            start <= i <= len,
            split_on(s@.take(i as int), sep) == views_of(parts@).push(s@.subrange(start as int, i as int)),
        decreases len - i,
    {
        let c = s.get_char(i);
        let ghost before = views_of(parts@);
        let ghost piece = s@.subrange(start as int, i as int);
        assert(s@.take(i + 1).drop_last() =~= s@.take(i as int));
        assert(s@.take(i + 1).last() == c);
        if c == sep {
            parts.push(s.substring_char(start, i));
            start = i + 1;
            assert(views_of(parts@) =~= before.push(piece));
            assert(s@.subrange(start as int, i + 1) =~= Seq::<char>::empty());
        } else {
            assert(s@.subrange(start as int, i + 1) =~= piece.push(c));
            assert(views_of(parts@).push(s@.subrange(start as int, i + 1)) =~= before.push(piece).update(
                before.len() as int,
                piece.push(c),
            ));
        }
        i = i + 1;
    }
    let ghost before = views_of(parts@);
    parts.push(s.substring_char(start, len));
    assert(s@.take(len as int) =~= s@);
    assert(views_of(parts@) =~= before.push(s@.subrange(start as int, len as int)));
    parts
}

/// Whether two texts hold the same characters.
pub fn same_text(a: &str, b: &str) -> (r: bool)
    ensures
        r == (a@ == b@),
{
    let x = a.to_owned();
    let y = b.to_owned();
    x == y
}

} // verus!
