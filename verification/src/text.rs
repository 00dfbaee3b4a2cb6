//! Plain-text building blocks of the reports: lowercase hexadecimal and
//! decimal renderings of unsigned numbers, padding, and conversions between
//! `Vec<char>` and `String`.

use vstd::prelude::*;

verus! {

/// The sixteen lowercase hexadecimal digit characters.
pub open spec fn hex_digit(d: int) -> char {
    if d == 0 {
        '0'
    } else if d == 1 {
        '1'
    } else if d == 2 {
        '2'
    } else if d == 3 {
        '3'
    } else if d == 4 {
        '4'
    } else if d == 5 {
        '5'
    } else if d == 6 {
        '6'
    } else if d == 7 {
        '7'
    } else if d == 8 {
        '8'
    } else if d == 9 {
        '9'
    } else if d == 10 {
        'a'
    } else if d == 11 {
        'b'
    } else if d == 12 {
        'c'
    } else if d == 13 {
        'd'
    } else if d == 14 {
        'e'
    } else {
        'f'
    }
}

/// The hexadecimal digits of `n`, most significant first; empty for zero.
pub open spec fn hex_digits(n: nat) -> Seq<char>
    decreases n,
{
    if n == 0 {
        Seq::empty()
    } else {
        hex_digits(n / 16) + seq![hex_digit((n % 16) as int)]
    }
}

/// The lowercase hexadecimal rendering of `n`, as `{:x}` renders it.
pub open spec fn hex_str(n: nat) -> Seq<char> {
    if n == 0 {
        seq!['0']
    } else {
        hex_digits(n)
    }
}

/// A sequence of `n` zero characters.
pub open spec fn zeroes(n: nat) -> Seq<char> {
    Seq::new(n, |i: int| '0')
}

/// The lowercase hexadecimal rendering of `n`, zero-padded on the left to
/// eight digits when shorter, as `{:08x}` renders it.
pub open spec fn hex_pad8(n: nat) -> Seq<char> {
    if hex_str(n).len() >= 8 {
        hex_str(n)
    } else {
        zeroes((8 - hex_str(n).len()) as nat) + hex_str(n)
    }
}

/// The decimal digits of `n`, most significant first; empty for zero.
pub open spec fn dec_digits(n: nat) -> Seq<char>
    decreases n,
{
    if n == 0 {
        Seq::empty()
    } else {
        dec_digits(n / 10) + seq![hex_digit((n % 10) as int)]
    }
}

/// The decimal rendering of `n`, as `{}` renders it.
pub open spec fn dec_str(n: nat) -> Seq<char> {
    if n == 0 {
        seq!['0']
    } else {
        dec_digits(n)
    }
}

/// A sequence of `n` space characters.
pub open spec fn spaces(n: nat) -> Seq<char> {
    Seq::new(n, |i: int| ' ')
}

/// `s` left-aligned in a field of at least eight characters, as `{:<8}`
/// renders it: the text itself, then spaces up to width eight.
pub open spec fn pad_to8(s: Seq<char>) -> Seq<char> {
    if s.len() >= 8 {
        s
    } else {
        s + spaces((8 - s.len()) as nat)
    }
}

/// Relies on `str::chars`: the iterator yields exactly the characters of the
/// string, in order.
#[verifier::external_body]
pub(crate) fn str_chars(s: &str) -> (r: Vec<char>)
    ensures
        r@ == s@,
{
    s.chars().collect()
}

/// Relies on `String`'s `FromIterator<char>` impl: collecting characters
/// yields the string of exactly those characters, in order.
#[verifier::external_body]
pub(crate) fn chars_to_string(v: &Vec<char>) -> (r: String)
    ensures
        r@ == v@,
{
    v.iter().collect()
}

/// Appends the characters of `s` to `out`.
pub(crate) fn append_str(out: &mut Vec<char>, s: &str)
    ensures
        final(out)@ == old(out)@ + s@,
{
    let cs = str_chars(s);
    let ghost base = out@;
    let mut j: usize = 0;
    while j < cs.len()
        invariant
            cs@ == s@,
            j <= cs.len(),
            out@ == base + s@.take(j as int),
        decreases cs.len() - j,
    {
        out.push(cs[j]);
        proof {
            assert(s@.take(j + 1 as int) =~= s@.take(j as int).push(s@[j as int]));
        }
        j += 1;
    }
    proof {
        assert(s@.take(cs@.len() as int) =~= s@);
    }
}

/// The lowercase hexadecimal digit character for `d`.
fn hex_digit_char(d: u64) -> (c: char)
    requires
        d < 16,
    ensures
        c == hex_digit(d as int),
{
    if d == 0 {
        '0'
    } else if d == 1 {
        '1'
    } else if d == 2 {
        '2'
    } else if d == 3 {
        '3'
    } else if d == 4 {
        '4'
    } else if d == 5 {
        '5'
    } else if d == 6 {
        '6'
    } else if d == 7 {
        '7'
    } else if d == 8 {
        '8'
    } else if d == 9 {
        '9'
    } else if d == 10 {
        'a'
    } else if d == 11 {
        'b'
    } else if d == 12 {
        'c'
    } else if d == 13 {
        'd'
    } else if d == 14 {
        'e'
    } else {
        'f'
    }
}

/// Appends the hexadecimal digits of `n` to `out` (nothing for zero).
fn push_hex_digits(out: &mut Vec<char>, n: u64)
    ensures
        final(out)@ == old(out)@ + hex_digits(n as nat),
    decreases n,
{
    if n > 0 {
        push_hex_digits(out, n / 16);
        out.push(hex_digit_char(n % 16));
        proof {
            assert(out@ =~= old(out)@ + hex_digits(n as nat));
        }
    } else {
        proof {
            assert(out@ =~= old(out)@ + hex_digits(0));
        }
    }
}

/// Appends the `{:x}` rendering of `n` to `out`.
pub(crate) fn push_hex(out: &mut Vec<char>, n: u64)
    ensures
        final(out)@ == old(out)@ + hex_str(n as nat),
{
    if n == 0 {
        out.push('0');
        proof {
            assert(out@ =~= old(out)@ + hex_str(0));
        }
    } else {
        push_hex_digits(out, n);
    }
}

/// Appends the `{:08x}` rendering of `n` to `out`.
pub(crate) fn push_hex8(out: &mut Vec<char>, n: u64)
    ensures
        final(out)@ == old(out)@ + hex_pad8(n as nat),
{
    let mut tmp: Vec<char> = Vec::new();
    push_hex(&mut tmp, n);
    let d = tmp.len();
    let ghost base = out@;
    let mut k: usize = d;
    while k < 8
        invariant
            d <= k <= 8 || (d > 8 && k == d),
            out@ == base + zeroes((k - d) as nat),
        decreases 8 - k,
    {
        out.push('0');
        proof {
            assert(zeroes((k + 1 - d) as nat) =~= zeroes((k - d) as nat).push('0'));
        }
        k += 1;
    }
    let mut j: usize = 0;
    while j < tmp.len()
        invariant
            tmp@ == hex_str(n as nat),
            j <= tmp.len(),
            out@ == base + zeroes(if d >= 8 { 0nat } else { (8 - d) as nat }) + tmp@.take(
                j as int,
            ),
        decreases tmp.len() - j,
    {
        out.push(tmp[j]);
        proof {
            assert(tmp@.take(j + 1 as int) =~= tmp@.take(j as int).push(tmp@[j as int]));
        }
        j += 1;
    }
    proof {
        assert(tmp@.take(tmp@.len() as int) =~= tmp@);
        if d >= 8 {
            assert(zeroes(0) =~= Seq::<char>::empty());
            assert(out@ =~= base + hex_pad8(n as nat));
        } else {
            assert(out@ =~= base + hex_pad8(n as nat));
        }
    }
}

/// Appends the decimal digits of `n` to `out` (nothing for zero).
fn push_dec_digits(out: &mut Vec<char>, n: u64)
    ensures
        final(out)@ == old(out)@ + dec_digits(n as nat),
    decreases n,
{
    if n > 0 {
        push_dec_digits(out, n / 10);
        out.push(hex_digit_char(n % 10));
        proof {
            assert(out@ =~= old(out)@ + dec_digits(n as nat));
        }
    } else {
        proof {
            assert(out@ =~= old(out)@ + dec_digits(0));
        }
    }
}

/// Appends the `{}` rendering of `n` to `out`.
pub(crate) fn push_dec(out: &mut Vec<char>, n: u64)
    ensures
        final(out)@ == old(out)@ + dec_str(n as nat),
{
    if n == 0 {
        out.push('0');
        proof {
            assert(out@ =~= old(out)@ + dec_str(0));
        }
    } else {
        push_dec_digits(out, n);
    }
}

/// Appends `s` to `out`, then spaces up to a width of eight characters.
pub(crate) fn push_padded8(out: &mut Vec<char>, s: &String)
    ensures
        final(out)@ == old(out)@ + pad_to8(s@),
{
    let cs = str_chars(s.as_str());
    let d = cs.len();
    let ghost base = out@;
    let mut j: usize = 0;
    while j < d
        invariant
            cs@ == s@,
            d == cs.len(),
            j <= d,
            out@ == base + s@.take(j as int),
        decreases d - j,
    {
        out.push(cs[j]);
        proof {
            assert(s@.take(j + 1 as int) =~= s@.take(j as int).push(s@[j as int]));
        }
        j += 1;
    }
    proof {
        assert(s@.take(d as int) =~= s@);
    }
    let mut k: usize = d;
    while k < 8
        invariant
            d <= k <= 8 || (d > 8 && k == d),
            out@ == base + s@ + spaces((k - d) as nat),
        decreases 8 - k,
    {
        out.push(' ');
        proof {
            assert(spaces((k + 1 - d) as nat) =~= spaces((k - d) as nat).push(' '));
        }
        k += 1;
    }
    proof {
        if d >= 8 {
            assert(spaces(0) =~= Seq::<char>::empty());
            assert(out@ =~= base + pad_to8(s@));
        } else {
            assert(out@ =~= base + pad_to8(s@));
        }
    }
}

} // verus!
