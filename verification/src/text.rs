//! Building text: decimal numerals, padding and concatenation over `String`,
//! with every result described as a sequence of characters.
use vstd::prelude::*;

verus! {

/// The character of a decimal digit `d` (0 to 9).
pub open spec fn digit_char(d: int) -> char {
    (d + 48) as char
}

/// Decimal numeral of a natural number, most significant digit first, no leading zeros.
pub open spec fn nat_text(n: nat) -> Seq<char>
    decreases n,
{
    if n < 10 {
        seq![digit_char(n as int)]
    } else {
        nat_text(n / 10).push(digit_char((n % 10) as int))
    }
}

/// Decimal numeral of an integer, with a leading `-` when it is negative
/// (what `format!("{}", n)` prints for an integer).
pub open spec fn int_text(n: int) -> Seq<char> {
    if n < 0 {
        seq!['-'] + nat_text((-n) as nat)
    } else {
        nat_text(n as nat)
    }
}

/// `k` spaces (none when `k` is not positive).
pub open spec fn spaces(k: int) -> Seq<char> {
    Seq::new(if k > 0 { k as nat } else { 0 }, |i: int| ' ')
}

/// `s` left-aligned in a field of width `w` (what `{:w}` does to a string).
pub open spec fn pad_end(s: Seq<char>, w: int) -> Seq<char> {
    s + spaces(w - s.len())
}

/// `s` right-aligned in a field of width `w` (what `{:w}` does to an integer).
pub open spec fn pad_start(s: Seq<char>, w: int) -> Seq<char> {
    spaces(w - s.len()) + s
}

/// Appends one character to a `String` (std's `String::push`).
#[verifier::external_body]
pub(crate) fn string_push(s: &mut String, c: char)
    ensures
        final(s)@ == old(s)@.push(c),
{
    s.push(c);
}

/// The number of characters of a `String`.
pub fn char_count(s: &String) -> (n: usize)
    ensures
        n == s@.len(),
{
    s.as_str().unicode_len()
}

fn digit(d: u64) -> (c: char)
    requires
        d < 10,
    ensures
        c == digit_char(d as int),
{
    ((d as u8) + 48u8) as char
}

/// Appends the decimal numeral of `n`.
pub fn push_nat_text(out: &mut String, n: u64)
    ensures
        final(out)@ == old(out)@ + nat_text(n as nat),
    decreases n,
{
    if n >= 10 {
        push_nat_text(out, n / 10);
    }
    let c = digit(n % 10);
    string_push(out, c);
    proof {
        if n >= 10 {
            assert(nat_text(n as nat) == nat_text((n / 10) as nat).push(digit_char((n % 10) as int)));
        } else {
            assert(n % 10 == n);
        }
        assert(final(out)@ =~= old(out)@ + nat_text(n as nat));
    }
}

/// Appends the decimal numeral of `n`, signed.
pub fn push_int_text(out: &mut String, n: i64)
    ensures
        final(out)@ == old(out)@ + int_text(n as int),
{
    if n < 0 {
        string_push(out, '-');
        let m: u64 = (0i128 - (n as i128)) as u64;
        push_nat_text(out, m);
        assert(final(out)@ =~= old(out)@ + int_text(n as int));
    } else {
        push_nat_text(out, n as u64);
    }
}

/// The decimal numeral of `n`.
pub fn int_to_text(n: i64) -> (r: String)
    ensures
        r@ == int_text(n as int),
{
    let mut s = String::new();
    push_int_text(&mut s, n);
    assert(s@ =~= int_text(n as int));
    s
}

/// Appends `k` spaces.
pub fn push_spaces(out: &mut String, k: usize)
    ensures
        final(out)@ == old(out)@ + spaces(k as int),
{
    let mut i: usize = 0;
    while i < k
        invariant
            i <= k,
            out@ == old(out)@ + spaces(i as int),
        decreases k - i,
    {
        string_push(out, ' ');
        i = i + 1;
        assert(out@ =~= old(out)@ + spaces(i as int));
    }
}

/// Appends `s` left-aligned in a field of width `w`.
pub fn push_padded_end(out: &mut String, s: &String, w: usize)
    ensures
        final(out)@ == old(out)@ + pad_end(s@, w as int),
{
    let n = char_count(s);
    out.append(s.as_str());
    if n < w {
        push_spaces(out, w - n);
    } else {
        assert(spaces(w - s@.len()) =~= Seq::<char>::empty());
    }
    assert(final(out)@ =~= old(out)@ + pad_end(s@, w as int));
}

/// Appends `s` right-aligned in a field of width `w`.
pub fn push_padded_start(out: &mut String, s: &String, w: usize)
    ensures
        final(out)@ == old(out)@ + pad_start(s@, w as int),
{
    let n = char_count(s);
    if n < w {
        push_spaces(out, w - n);
    } else {
        assert(spaces(w - s@.len()) =~= Seq::<char>::empty());
    }
    out.append(s.as_str());
    assert(final(out)@ =~= old(out)@ + pad_start(s@, w as int));
}

/// Appends the numeral of `n` right-aligned in a field of width `w`.
pub fn push_int_padded(out: &mut String, n: i64, w: usize)
    ensures
        final(out)@ == old(out)@ + pad_start(int_text(n as int), w as int),
{
    let t = int_to_text(n);
    push_padded_start(out, &t, w);
}

/// Appends the text of a string slice.
pub fn push_str(out: &mut String, s: &str)
    ensures
        final(out)@ == old(out)@ + s@,
{
    out.append(s);
}

} // verus!
