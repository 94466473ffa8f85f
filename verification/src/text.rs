//! Decimal numbers in text: printing them and reading them back as Rust's
//! `str::parse` does for unsigned integers.
use vstd::prelude::*;
use crate::tile_color::push_char;

verus! {

/// The character of a decimal digit.
pub open spec fn digit_char(d: int) -> char {
    if d == 0 {
        '0'
    } else if d == 1 {
        '1'
    } else if d == 2 {
        '2'
    } else if d == 3 {
        '3'
    } else if d == 4 {
        '4'
    } else if d == 5 {
        '5'
    } else if d == 6 {
        '6'
    } else if d == 7 {
        '7'
    } else if d == 8 {
        '8'
    } else {
        '9'
    }
}

/// The decimal digits of `n`, without leading zeros ("0" for zero).
pub open spec fn dec(n: nat) -> Seq<char>
    decreases n,
{
    if n < 10 {
        seq![digit_char(n as int)]
    } else {
        dec(n / 10) + seq![digit_char((n % 10) as int)]
    }
}

/// `n` in at least two digits, with a leading zero below ten.
pub open spec fn dec2(n: nat) -> Seq<char> {
    if n < 10 {
        seq!['0'] + dec(n)
    } else {
        dec(n)
    }
}

/// `x` as written by Rust for a signed number.
pub open spec fn dec_signed(x: int) -> Seq<char> {
    if x < 0 {
        seq!['-'] + dec((-x) as nat)
    } else {
        dec(x as nat)
    }
}

fn digit(d: u128) -> (c: char)
    requires
        d < 10,
    ensures
        c == digit_char(d as int),
{
    if d == 0 {
        '0'
    } else if d == 1 {
        '1'
    } else if d == 2 {
        '2'
    } else if d == 3 {
        '3'
    } else if d == 4 {
        '4'
    } else if d == 5 {
        '5'
    } else if d == 6 {
        '6'
    } else if d == 7 {
        '7'
    } else if d == 8 {
        '8'
    } else {
        '9'
    }
}

/// Appends the decimal digits of `n`.
pub fn push_decimal(s: &mut String, n: u128)
    ensures
        final(s)@ == old(s)@ + dec(n as nat),
    decreases n,
{
    if n >= 10 {
        push_decimal(s, n / 10);
    }
    push_char(s, digit(n % 10));
    proof {
        if n >= 10 {
            assert(dec(n as nat) == dec((n / 10) as nat) + seq![digit_char((n % 10) as int)]);
        }
    }
}

/// Appends `n` in at least two digits.
pub fn push_decimal2(s: &mut String, n: u128)
    ensures
        final(s)@ == old(s)@ + dec2(n as nat),
{
    if n < 10 {
        push_char(s, '0');
    }
    push_decimal(s, n);
}

/// Appends a signed number.
pub fn push_signed(s: &mut String, x: i64)
    ensures
        final(s)@ == old(s)@ + dec_signed(x as int),
{
    if x < 0 {
        push_char(s, '-');
        let m: u128 = (-(x as i128)) as u128;
        push_decimal(s, m);
    } else {
        push_decimal(s, x as u128);
    }
}

/// Whether a byte is an ASCII decimal digit.
pub open spec fn is_digit(b: u8) -> bool {
    48 <= b <= 57
}

/// Value of a sequence of decimal digits.
pub open spec fn digits_value(s: Seq<u8>) -> nat
    decreases s.len(),
{
    if s.len() == 0 {
        0
    } else {
        digits_value(s.drop_last()) * 10 + (s.last() - 48) as nat
    }
}

/// Whether all bytes are decimal digits.
pub open spec fn all_digits(s: Seq<u8>) -> bool {
    forall|i: int| 0 <= i < s.len() ==> #[trigger] is_digit(s[i])
}

/// The digits of a number text: the text without one leading `+`.
pub open spec fn number_digits(s: Seq<u8>) -> Seq<u8> {
    if s.len() > 0 && s[0] == 43 {
        s.drop_first()
    } else {
        s
    }
}

/// What `str::parse` gives for an unsigned integer type whose largest value
/// is `max`: an optional `+`, then at least one decimal digit, and a value
/// that fits.
pub open spec fn parse_uint(s: Seq<u8>, max: int) -> Option<nat> {
    let d = number_digits(s);
    if d.len() == 0 || !all_digits(d) || digits_value(d) > max {
        None
    } else {
        Some(digits_value(d))
    }
}

/// Reads `bytes[lo..hi]` as an unsigned integer no larger than `max`, as
/// `str::parse` does.
pub fn parse_uint_exec(bytes: &[u8], lo: usize, hi: usize, max: u128) -> (r: Option<u128>)
    requires
        lo <= hi <= bytes@.len(),
    ensures
        r == (match parse_uint(bytes@.subrange(lo as int, hi as int), max as int) {
            Some(v) => Some(v as u128),
            None => None,
        }),
{
    let ghost s = bytes@.subrange(lo as int, hi as int);
    let mut start = lo;
    if lo < hi && bytes[lo] == 43 {
        start = lo + 1;
    }
    let ghost d = bytes@.subrange(start as int, hi as int);
    assert(d =~= number_digits(s));
    if start == hi {
        return None;
    }
    let mut value: u128 = 0;
    let mut i = start;
    while i < hi
        invariant
            lo <= start <= i <= hi <= bytes@.len(),
            d == bytes@.subrange(start as int, hi as int),
            d == number_digits(s),
            s == bytes@.subrange(lo as int, hi as int),
            all_digits(bytes@.subrange(start as int, i as int)),
            value == digits_value(bytes@.subrange(start as int, i as int)),
            value <= max,
        decreases hi - i,
    {
        let b = bytes[i];
        assert(bytes@.subrange(start as int, i + 1) =~= bytes@.subrange(start as int, i as int).push(b));
        assert(bytes@.subrange(start as int, i + 1).drop_last() =~= bytes@.subrange(start as int, i as int));
        if b < 48 || b > 57 {
            assert(!is_digit(d[i - start]));
            assert(!all_digits(d));
            return None;
        }
        let dv: u128 = (b - 48) as u128;
        if dv > max || value > (max - dv) / 10 {
            proof {
                if all_digits(d) {
                    lemma_digits_grow(d, (i - start) as int);
                }
                assert(bytes@.subrange(start as int, hi as int).subrange(0, i - start + 1) =~= bytes@.subrange(start as int, i + 1));
                if dv <= max {
                    assert(value * 10 + dv > max) by (nonlinear_arith)
                        requires value > (max - dv) / 10, dv <= max, dv < 10;
                }
            }
            return None;
        }
        proof {
            assert(value * 10 + dv <= max) by (nonlinear_arith)
                requires value <= (max - dv) / 10, dv <= max;
        }
        value = value * 10 + dv;
        i = i + 1;
    }
    assert(bytes@.subrange(start as int, i as int) =~= d);
    Some(value)
}

/// The value of a digit text is at least the value of its prefixes, so once
/// a prefix is too large the whole is.
proof fn lemma_digits_grow(s: Seq<u8>, k: int)
    requires
        0 <= k < s.len(),
        all_digits(s),
    ensures
        digits_value(s) >= digits_value(s.subrange(0, k + 1)),
    decreases s.len(),
{
    if k + 1 < s.len() {
        lemma_digits_grow(s.drop_last(), k);
        assert(s.drop_last().subrange(0, k + 1) =~= s.subrange(0, k + 1));
    } else {
        assert(s.subrange(0, k + 1) =~= s);
    }
}


/// The pieces of `s` between the bytes `sep`, as `str::split` gives them: one
/// more piece than there are separators, empty pieces included.
pub open spec fn split_bytes(s: Seq<u8>, sep: u8) -> Seq<Seq<u8>>
    decreases s.len(),
{
    if s.len() == 0 {
        seq![Seq::<u8>::empty()]
    } else {
        let r = split_bytes(s.drop_last(), sep);
        if s.last() == sep {
            r.push(Seq::<u8>::empty())
        } else {
            r.update(r.len() - 1, r.last().push(s.last()))
        }
    }
}

/// The pieces of `s` that the index pairs in `r` mark.
pub open spec fn range_pieces(s: Seq<u8>, r: Seq<(usize, usize)>) -> Seq<Seq<u8>> {
    Seq::new(r.len(), |k: int| s.subrange(r[k].0 as int, r[k].1 as int))
}

pub proof fn lemma_split_nonempty(s: Seq<u8>, sep: u8)
    ensures
        split_bytes(s, sep).len() >= 1,
    decreases s.len(),
{
    if s.len() > 0 {
        lemma_split_nonempty(s.drop_last(), sep);
    }
}

/// Finds the pieces of `bytes[lo..hi]` between the bytes `sep`; each piece is
/// given by its start and end in `bytes`.
pub fn split_ranges(bytes: &[u8], lo: usize, hi: usize, sep: u8) -> (r: Vec<(usize, usize)>)
    requires
        lo <= hi <= bytes@.len(),
    ensures
        range_pieces(bytes@, r@) == split_bytes(bytes@.subrange(lo as int, hi as int), sep),
        forall|k: int| 0 <= k < r@.len() ==> lo <= (#[trigger] r@[k]).0 <= r@[k].1 <= hi,
{
    let mut r: Vec<(usize, usize)> = Vec::new();
    let mut start = lo;
    let mut i = lo;
    assert(bytes@.subrange(lo as int, lo as int) =~= Seq::<u8>::empty());
    assert(range_pieces(bytes@, r@) =~= Seq::<Seq<u8>>::empty());
    while i < hi
        invariant
            lo <= start <= i <= hi <= bytes@.len(),
            forall|k: int| 0 <= k < r@.len() ==> lo <= (#[trigger] r@[k]).0 <= r@[k].1 <= hi,
            split_bytes(bytes@.subrange(lo as int, i as int), sep) == range_pieces(bytes@, r@).push(
                bytes@.subrange(start as int, i as int),
            ),
        decreases hi - i,
    {
        let ghost prefix = bytes@.subrange(lo as int, i + 1);
        let ghost r0 = r@;
        let ghost st0 = start;
        assert(prefix.drop_last() =~= bytes@.subrange(lo as int, i as int));
        assert(prefix.last() == bytes@[i as int]);
        if bytes[i] == sep {
            r.push((start, i));
            start = i + 1;
            assert(range_pieces(bytes@, r@) =~= range_pieces(bytes@, r0).push(bytes@.subrange(st0 as int, i as int)));
            assert(bytes@.subrange(start as int, i + 1) =~= Seq::<u8>::empty());
        } else {
            assert(bytes@.subrange(start as int, i + 1) =~= bytes@.subrange(start as int, i as int).push(bytes@[i as int]));
        }
        i = i + 1;
    }
    let ghost r0 = r@;
    r.push((start, hi));
    assert(range_pieces(bytes@, r@) =~= range_pieces(bytes@, r0).push(bytes@.subrange(start as int, hi as int)));
    r
}


/// The bytes of an ASCII text.
pub open spec fn ascii(t: Seq<char>) -> Seq<u8> {
    Seq::new(t.len(), |i: int| t[i] as u8)
}

/// Whether `sep` does not occur in `a`.
pub open spec fn free_of(a: Seq<u8>, sep: u8) -> bool {
    forall|i: int| 0 <= i < a.len() ==> #[trigger] a[i] != sep
}

pub proof fn lemma_ascii_concat(a: Seq<char>, b: Seq<char>)
    ensures
        ascii(a + b) == ascii(a) + ascii(b),
{
    assert(ascii(a + b) =~= ascii(a) + ascii(b));
}

/// The digits of a number read back as that number.
pub proof fn lemma_dec_digits(n: nat)
    ensures
        ascii(dec(n)).len() >= 1,
        all_digits(ascii(dec(n))),
        digits_value(ascii(dec(n))) == n,
        ascii(dec(n))[0] != 43,
    decreases n,
{
    let t = ascii(dec(n));
    if n < 10 {
        assert(t.drop_last() =~= Seq::<u8>::empty());
        assert(t[0] == 48 + n);
        assert(digits_value(t.drop_last()) == 0);
        assert(digits_value(t) == digits_value(t.drop_last()) * 10 + (t.last() - 48) as nat);
    } else {
        lemma_dec_digits(n / 10);
        lemma_ascii_concat(dec(n / 10), seq![digit_char((n % 10) as int)]);
        assert(t.drop_last() =~= ascii(dec(n / 10)));
        assert(t.last() == 48 + n % 10);
        assert(t[0] == ascii(dec(n / 10))[0]);
        assert(digits_value(t) == digits_value(t.drop_last()) * 10 + (t.last() - 48) as nat);
        assert((n / 10) * 10 + n % 10 == n);
    }
}

/// Reading the digits of `n` gives `n` back, where it fits.
pub proof fn lemma_parse_dec(n: nat, max: int)
    ensures
        parse_uint(ascii(dec(n)), max) == if n <= max { Some(n) } else { None::<nat> },
        free_of(ascii(dec(n)), 95),
        free_of(ascii(dec(n)), 45),
{
    lemma_dec_digits(n);
    let t = ascii(dec(n));
    assert(number_digits(t) == t);
    assert forall|i: int| 0 <= i < t.len() implies #[trigger] t[i] != 95 && t[i] != 45 by {
        assert(is_digit(t[i]));
    }
}

pub proof fn lemma_split_single(a: Seq<u8>, sep: u8)
    requires
        free_of(a, sep),
    ensures
        split_bytes(a, sep) == seq![a],
    decreases a.len(),
{
    if a.len() > 0 {
        lemma_split_single(a.drop_last(), sep);
        assert(a.drop_last().push(a.last()) =~= a);
    } else {
        assert(a =~= Seq::<u8>::empty());
    }
}

/// Splitting `a`, a separator and a piece `b` free of separators gives the
/// pieces of `a` and then `b`.
pub proof fn lemma_split_append(a: Seq<u8>, b: Seq<u8>, sep: u8)
    requires
        free_of(b, sep),
    ensures
        split_bytes(a + seq![sep] + b, sep) == split_bytes(a, sep).push(b),
    decreases b.len(),
{
    let t = a + seq![sep] + b;
    if b.len() == 0 {
        assert(t.drop_last() =~= a);
        assert(b =~= Seq::<u8>::empty());
    } else {
        lemma_split_append(a, b.drop_last(), sep);
        assert(t.drop_last() =~= a + seq![sep] + b.drop_last());
        assert(t.last() == b.last());
        assert(b.drop_last().push(b.last()) =~= b);
        let r = split_bytes(a, sep).push(b.drop_last());
        assert(r.update(r.len() - 1, r.last().push(b.last())) =~= split_bytes(a, sep).push(b));
    }
}

} // verus!
