use vstd::prelude::*;

verus! {

/// The lowercase digit for `d`, for `d` below 16.
pub open spec fn digit_char(d: nat) -> char {
    if d == 0 { '0' } else if d == 1 { '1' } else if d == 2 { '2' } else if d == 3 { '3' }
    else if d == 4 { '4' } else if d == 5 { '5' } else if d == 6 { '6' } else if d == 7 { '7' }
    else if d == 8 { '8' } else if d == 9 { '9' } else if d == 10 { 'a' } else if d == 11 { 'b' }
    else if d == 12 { 'c' } else if d == 13 { 'd' } else if d == 14 { 'e' } else { 'f' }
}

/// The digits of `v` in base `base`, most significant first, without leading zeros
/// ("0" for zero).
pub open spec fn digits_in(v: nat, base: nat) -> Seq<char>
    decreases v,
    via digits_in_decreases
{
    if base < 2 || v < base {
        seq![digit_char(v)]
    } else {
        digits_in(v / base, base).push(digit_char(v % base))
    }
}

#[via_fn]
proof fn digits_in_decreases(v: nat, base: nat) {
    if !(base < 2 || v < base) {
        assert(v / base < v) by (nonlinear_arith)
            requires
                base >= 2,
                v >= base,
        ;
    }
}

/// `v` in decimal notation.
pub open spec fn decimal_text(v: nat) -> Seq<char> {
    digits_in(v, 10)
}

/// `v` in lowercase hexadecimal notation with the `0x` prefix.
pub open spec fn hex_text(v: nat) -> Seq<char> {
    seq!['0', 'x'] + digits_in(v, 16)
}

fn digit(d: u64) -> (c: char)
    requires
        d < 16,
    ensures
        c == digit_char(d as nat),
{
    match d {
        0 => '0',
        1 => '1',
        2 => '2',
        3 => '3',
        4 => '4',
        5 => '5',
        6 => '6',
        7 => '7',
        8 => '8',
        9 => '9',
        10 => 'a',
        11 => 'b',
        12 => 'c',
        13 => 'd',
        14 => 'e',
        _ => 'f',
    }
}

fn push_digits(v: u64, base: u64, out: &mut Vec<char>)
    requires
        2 <= base <= 16,
    ensures
        final(out)@ == old(out)@ + digits_in(v as nat, base as nat),
    decreases v,
{
    if v >= base {
        assert(v / base < v) by (nonlinear_arith)
            requires
                base >= 2,
                v >= base,
        ;
        push_digits(v / base, base, out);
    } else {
        assert(v % base == v) by (nonlinear_arith)
            requires
                v < base,
        ;
    }
    out.push(digit(v % base));
    assert(final(out)@ =~= old(out)@ + digits_in(v as nat, base as nat));
}

/// Relies on std's `FromIterator<&char>` for `String`: the characters in order.
#[verifier::external_body]
pub fn string_from_chars(chars: &Vec<char>) -> (r: String)
    ensures
        r@ == chars@,
{
    chars.iter().collect()
}

/// Relies on std's `str::chars` collected into a `Vec`: the characters in order.
#[verifier::external_body]
pub fn chars_of(s: &str) -> (r: Vec<char>)
    ensures
        r@ == s@,
{
    s.chars().collect()
}

/// The lowercase form of a text, as `str::to_lowercase` gives it.
pub uninterp spec fn lower_of(s: Seq<char>) -> Seq<char>;

/// Every character is ASCII and none is an uppercase letter.
pub open spec fn ascii_without_capitals(s: Seq<char>) -> bool {
    forall|i: int| 0 <= i < s.len() ==> (s[i] as u32) < 128 && !(65 <= (s[i] as u32) <= 90)
}

/// Relies on std's `str::to_lowercase`: its result depends on the characters alone, and a
/// character without a lowercase mapping (ASCII other than `A`-`Z` among them) is kept.
#[verifier::external_body]
pub fn lowercase(s: &str) -> (r: String)
    ensures
        r@ == lower_of(s@),
        ascii_without_capitals(s@) ==> r@ == s@,
{
    s.to_lowercase()
}

/// `needle` occurs in `hay` as a contiguous run.
pub open spec fn contains_text(hay: Seq<char>, needle: Seq<char>) -> bool {
    exists|i: int| 0 <= i && i + needle.len() <= hay.len() && #[trigger] hay.subrange(i, i + needle.len()) == needle
}

/// Whether `needle` occurs in `hay` as a contiguous run.
pub fn contains_chars(hay: &Vec<char>, needle: &Vec<char>) -> (r: bool)
    ensures
        r == contains_text(hay@, needle@),
{
    if needle.len() > hay.len() {
        assert forall|i: int| 0 <= i && i + needle@.len() <= hay@.len() implies #[trigger] hay@.subrange(i, i + needle@.len()) != needle@ by {}
        return false;
    }
    if needle.len() == 0 {
        assert(hay@.subrange(0, 0 + needle@.len() as int) =~= needle@);
        assert(contains_text(hay@, needle@));
        return true;
    }
    let n = hay.len();
    let last = n - needle.len();
    let mut i: usize = 0;
    while i <= last
        invariant
            n == hay@.len(),
            needle@.len() > 0,
            last == hay@.len() - needle@.len(),
            i <= last + 1,
            forall|p: int| 0 <= p < i ==> #[trigger] hay@.subrange(p, p + needle@.len()) != needle@,
        decreases last + 1 - i,
    {
        let mut k: usize = 0;
        let mut same = true;
        while k < needle.len()
            invariant
                n == hay@.len(),
                i <= last,
                last == hay@.len() - needle@.len(),
                k <= needle@.len(),
                same == (forall|m: int| 0 <= m < k ==> hay@[i + m] == needle@[m]),
            decreases needle@.len() - k,
        {
            if hay[i + k] != needle[k] {
                same = false;
            }
            k = k + 1;
        }
        if same {
            assert(hay@.subrange(i as int, i + needle@.len()) =~= needle@);
            return true;
        }
        assert(hay@.subrange(i as int, i + needle@.len()) != needle@) by {
            let m = choose|m: int| 0 <= m < needle@.len() && hay@[i + m] != needle@[m];
            assert(hay@.subrange(i as int, i + needle@.len())[m] != needle@[m]);
        }
        i = i + 1;
    }
    false
}

/// `v` in decimal notation.
pub fn decimal_string(v: u64) -> (r: String)
    ensures
        r@ == decimal_text(v as nat),
{
    let mut chars: Vec<char> = Vec::new();
    push_digits(v, 10, &mut chars);
    assert(chars@ =~= decimal_text(v as nat));
    string_from_chars(&chars)
}

/// `v` in lowercase hexadecimal notation with the `0x` prefix.
pub fn hex_string(v: u64) -> (r: String)
    ensures
        r@ == hex_text(v as nat),
{
    let mut chars: Vec<char> = Vec::new();
    chars.push('0');
    chars.push('x');
    push_digits(v, 16, &mut chars);
    assert(chars@ =~= hex_text(v as nat));
    string_from_chars(&chars)
}

} // verus!
