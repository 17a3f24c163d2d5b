use vstd::prelude::*;
use vstd::std_specs::iter::IteratorSpec;

verus! {

/// The decimal digit for a value below ten.
pub open spec fn digit_char(d: nat) -> char {
    if d == 0 { '0' } else if d == 1 { '1' } else if d == 2 { '2' } else if d == 3 { '3' }
    else if d == 4 { '4' } else if d == 5 { '5' } else if d == 6 { '6' } else if d == 7 { '7' }
    else if d == 8 { '8' } else { '9' }
}

/// The decimal representation of a natural number, without leading zeros.
pub open spec fn decimal(n: nat) -> Seq<char>
    decreases n,
{
    if n < 10 {
        seq![digit_char(n)]
    } else {
        decimal(n / 10).push(digit_char(n % 10))
    }
}

/// The piece of `s` from `start` up to `end`, when it is not empty.
pub open spec fn keep_piece(s: Seq<char>, start: int, end: int) -> Seq<Seq<char>> {
    if start < end {
        seq![s.subrange(start, end)]
    } else {
        seq![]
    }
}

/// The non-empty pieces of `s` between occurrences of a non-empty `delim`,
/// scanning left to right from position `i` with a piece open since `start`.
pub open spec fn pieces_from(s: Seq<char>, delim: Seq<char>, start: int, i: int) -> Seq<Seq<char>>
    decreases s.len() - i,
{
    if delim.len() == 0 || i < 0 || i + delim.len() > s.len() {
        keep_piece(s, start, s.len() as int)
    } else if s.subrange(i, i + delim.len() as int) == delim {
        keep_piece(s, start, i) + pieces_from(
            s,
            delim,
            i + delim.len() as int,
            i + delim.len() as int,
        )
    } else {
        pieces_from(s, delim, start, i + 1)
    }
}

/// The non-empty pieces of `s` between occurrences of `delim`, left to right.
/// An empty delimiter separates every character.
pub open spec fn pieces(s: Seq<char>, delim: Seq<char>) -> Seq<Seq<char>> {
    if delim.len() == 0 {
        Seq::new(s.len(), |i: int| seq![s[i]])
    } else {
        pieces_from(s, delim, 0, 0)
    }
}

/// The characters of a string, in order.
pub fn chars_of(text: &str) -> (r: Vec<char>)
    ensures
        r@ == text@,
{
    broadcast use vstd::string::axiom_spec_iter, vstd::string::next_postcondition;

    let mut it = text.chars();
    let mut out: Vec<char> = Vec::new();
    loop
        invariant
            it.obeys_prophetic_iter_laws(),
            out@ + it.remaining() == text@,
        decreases text@.len() - out@.len(),
    {
        match it.next() {
            Some(c) => {
                out.push(c);
            },
            None => {
                assert(out@ =~= text@);
                return out;
            },
        }
    }
}

/// The characters of `s` from `from` up to `to`.
pub fn slice(s: &Vec<char>, from: usize, to: usize) -> (r: Vec<char>)
    requires
        from <= to <= s@.len(),
    ensures
        r@ == s@.subrange(from as int, to as int),
{
    let mut out: Vec<char> = Vec::new();
    let mut i = from;
    while i < to
        invariant
            from <= i <= to <= s@.len(),
            out@ == s@.subrange(from as int, i as int),
        decreases to - i,
    {
        out.push(s[i]);
        i += 1;
        assert(out@ =~= s@.subrange(from as int, i as int));
    }
    out
}

/// Whether `delim` occurs in `s` at position `i`.
fn occurs_at(s: &Vec<char>, delim: &Vec<char>, i: usize) -> (r: bool)
    requires
        i + delim@.len() <= s@.len(),
    ensures
        r == (s@.subrange(i as int, i + delim@.len()) == delim@),
{
    let n = s.len();
    let mut k: usize = 0;
    while k < delim.len()
        invariant
            n == s@.len(),
            k <= delim@.len(),
            i + delim@.len() <= s@.len(),
            s@.subrange(i as int, i + k) == delim@.subrange(0, k as int),
        decreases delim@.len() - k,
    {
        if s[i + k] != delim[k] {
            assert(s@.subrange(i as int, i + delim@.len())[k as int] != delim@[k as int]);
            return false;
        }
        k += 1;
        assert(s@.subrange(i as int, i + k) =~= delim@.subrange(0, k as int));
    }
    assert(delim@.subrange(0, k as int) =~= delim@);
    true
}

/// The non-empty pieces of `s` between occurrences of `delim`.
pub fn split_pieces(s: &Vec<char>, delim: &Vec<char>) -> (r: Vec<Vec<char>>)
    ensures
        r@.map_values(|p: Vec<char>| p@) == pieces(s@, delim@),
{
    let mut out: Vec<Vec<char>> = Vec::new();
    if delim.len() == 0 {
        let mut i: usize = 0;
        while i < s.len()
            invariant
                delim@.len() == 0,
                i <= s@.len(),
                out@.map_values(|p: Vec<char>| p@) == Seq::new(i as nat, |j: int| seq![s@[j]]),
            decreases s@.len() - i,
        {
            let ghost before = out@.map_values(|p: Vec<char>| p@);
            let mut one: Vec<char> = Vec::new();
            one.push(s[i]);
            assert(one@ =~= seq![s@[i as int]]);
            out.push(one);
            assert(out@.map_values(|p: Vec<char>| p@) =~= before.push(seq![s@[i as int]]));
            i += 1;
            assert(out@.map_values(|p: Vec<char>| p@) =~= Seq::new(i as nat, |j: int| seq![s@[j]]));
        }
        return out;
    }
    let mut start: usize = 0;
    let mut i: usize = 0;
    while delim.len() <= s.len() - i
        invariant
            delim@.len() > 0,
            start <= i <= s@.len(),
            out@.map_values(|p: Vec<char>| p@) + pieces_from(s@, delim@, start as int, i as int)
                == pieces(s@, delim@),
        decreases s@.len() - i,
    {
        if occurs_at(s, delim, i) {
            let ghost before = out@.map_values(|p: Vec<char>| p@);
            let next = i + delim.len();
            if start < i {
                let piece = slice(s, start, i);
                out.push(piece);
                assert(out@.map_values(|p: Vec<char>| p@) =~= before.push(piece@));
            }
            assert(out@.map_values(|p: Vec<char>| p@) =~= before + keep_piece(
                s@,
                start as int,
                i as int,
            ));
            start = next;
            i = next;
        } else {
            i += 1;
        }
    }
    let ghost before = out@.map_values(|p: Vec<char>| p@);
    if start < s.len() {
        let piece = slice(s, start, s.len());
        out.push(piece);
        assert(out@.map_values(|p: Vec<char>| p@) =~= before.push(piece@));
    }
    assert(out@.map_values(|p: Vec<char>| p@) =~= before + keep_piece(
        s@,
        start as int,
        s@.len() as int,
    ));
    out
}

/// A string holding the given characters.
pub fn text_of(chars: &Vec<char>) -> (r: String)
    ensures
        r@ == chars@,
{
    let mut out = String::new();
    let mut i: usize = 0;
    while i < chars.len()
        invariant
            i <= chars@.len(),
            out@ == chars@.subrange(0, i as int),
        decreases chars@.len() - i,
    {
        append_char(&mut out, chars[i]);
        i += 1;
        assert(out@ =~= chars@.subrange(0, i as int));
    }
    assert(chars@.subrange(0, i as int) =~= chars@);
    out
}

/// Relies on String::push: appends one character to `s`.
#[verifier::external_body]
pub(crate) fn append_char(s: &mut String, c: char)
    ensures
        final(s)@ == old(s)@.push(c),
{
    s.push(c);
}

fn digit(d: u128) -> (r: char)
    requires
        d < 10,
    ensures
        r == digit_char(d as nat),
{
    if d == 0 { '0' } else if d == 1 { '1' } else if d == 2 { '2' } else if d == 3 { '3' }
    else if d == 4 { '4' } else if d == 5 { '5' } else if d == 6 { '6' } else if d == 7 { '7' }
    else if d == 8 { '8' } else { '9' }
}

/// Appends the decimal representation of `n` to `s`.
pub fn append_decimal(s: &mut String, n: u128)
    ensures
        final(s)@ == old(s)@ + decimal(n as nat),
    decreases n,
{
    if n < 10 {
        append_char(s, digit(n));
        assert(old(s)@.push(digit_char(n as nat)) =~= old(s)@ + decimal(n as nat));
    } else {
        append_decimal(s, n / 10);
        append_char(s, digit(n % 10));
        assert(old(s)@ + decimal((n / 10) as nat) + seq![digit_char((n % 10) as nat)]
            =~= old(s)@ + decimal(n as nat));
    }
}

} // verus!
