//! Small verified string utilities shared across the crate:
//! character-level equality of string slices, decimal rendering of
//! integers, and padding, together with the specification functions
//! that the rest of the crate states contracts over.

use vstd::prelude::*;

verus! {

/// Relies on `String::push`: appends exactly one character at the end.
pub assume_specification[ std::string::String::push ](s: &mut std::string::String, c: char)
    ensures
        final(s)@ == old(s)@.push(c),
;

/// Character-level equality of two string slices.
pub fn str_eq(a: &str, b: &str) -> (r: bool)
    ensures
        r == (a@ == b@),
{
    let alen = a.unicode_len();
    let blen = b.unicode_len();
    if alen != blen {
        assert(a@ != b@) by {
            assert(a@.len() != b@.len());
        }
        return false;
    }
    let mut i: usize = 0;
    while i < alen
        invariant
            i <= alen,
            alen == a@.len(),
            alen == b@.len(),
            forall|j: int| 0 <= j < i ==> a@[j] == b@[j],
        decreases alen - i,
    {
        if a.get_char(i) != b.get_char(i) {
            return false;
        }
        i += 1;
    }
    assert(a@ =~= b@);
    true
}

/// Whether a character occurs in a sequence.
pub open spec fn seq_contains_char(s: Seq<char>, c: char) -> bool {
    exists|i: int| 0 <= i < s.len() && s[i] == c
}

/// The character for one decimal digit.
pub open spec fn spec_digit_char(d: nat) -> char {
    if d == 0 {
        '0'
    } else if d == 1 {
        '1'
    } else if d == 2 {
        '2'
    } else if d == 3 {
        '3'
    } else if d == 4 {
        '4'
    } else if d == 5 {
        '5'
    } else if d == 6 {
        '6'
    } else if d == 7 {
        '7'
    } else if d == 8 {
        '8'
    } else {
        '9'
    }
}

/// The character for a decimal digit value.
pub fn digit_char(d: u64) -> (c: char)
    requires
        d < 10,
    ensures
        c == spec_digit_char(d as nat),
{
    if d == 0 {
        '0'
    } else if d == 1 {
        '1'
    } else if d == 2 {
        '2'
    } else if d == 3 {
        '3'
    } else if d == 4 {
        '4'
    } else if d == 5 {
        '5'
    } else if d == 6 {
        '6'
    } else if d == 7 {
        '7'
    } else if d == 8 {
        '8'
    } else {
        '9'
    }
}

/// Decimal notation of a natural number, most significant digit first.
pub open spec fn spec_decimal(n: nat) -> Seq<char>
    decreases n,
{
    if n < 10 {
        seq![spec_digit_char(n)]
    } else {
        spec_decimal(n / 10).push(spec_digit_char(n % 10))
    }
}

/// Renders an integer in decimal notation.
pub fn u64_to_decimal(n: u64) -> (r: String)
    ensures
        r@ == spec_decimal(n as nat),
    decreases n,
{
    if n < 10 {
        let mut s = String::new();
        s.push(digit_char(n));
        assert(s@ =~= seq![spec_digit_char(n as nat)]);
        s
    } else {
        let mut s = u64_to_decimal(n / 10);
        s.push(digit_char(n % 10));
        s
    }
}

/// A run of identical characters.
pub open spec fn spec_repeat_char(c: char, n: nat) -> Seq<char>
    decreases n,
{
    if n == 0 {
        Seq::empty()
    } else {
        spec_repeat_char(c, (n - 1) as nat).push(c)
    }
}

/// Decimal notation padded on the left with spaces to a minimum width.
pub open spec fn spec_padded_decimal(n: nat, width: nat) -> Seq<char> {
    let digits = spec_decimal(n);
    if digits.len() >= width {
        digits
    } else {
        spec_repeat_char(' ', (width - digits.len()) as nat) + digits
    }
}

/// Renders an integer in decimal, left-padded with spaces to `width`.
pub fn u64_to_decimal_padded(n: u64, width: usize) -> (r: String)
    ensures
        r@ == spec_padded_decimal(n as nat, width as nat),
{
    let digits = u64_to_decimal(n);
    let dlen = digits.unicode_len();
    if dlen >= width {
        digits
    } else {
        let mut s = String::new();
        let mut i: usize = 0;
        while i < width - dlen
            invariant
                i <= width - dlen,
                dlen < width,
                s@ =~= spec_repeat_char(' ', i as nat),
            decreases width - dlen - i,
        {
            s.push(' ');
            i += 1;
        }
        s.append(digits.as_str());
        s
    }
}

/// Decimal notation padded on the left with zeros to a minimum width.
pub open spec fn spec_zero_padded_decimal(n: nat, width: nat) -> Seq<char> {
    let digits = spec_decimal(n);
    if digits.len() >= width {
        digits
    } else {
        spec_repeat_char('0', (width - digits.len()) as nat) + digits
    }
}

/// Renders an integer in decimal, left-padded with zeros to `width`.
pub fn u64_to_decimal_zero_padded(n: u64, width: usize) -> (r: String)
    ensures
        r@ == spec_zero_padded_decimal(n as nat, width as nat),
{
    let digits = u64_to_decimal(n);
    let dlen = digits.unicode_len();
    if dlen >= width {
        digits
    } else {
        let mut s = String::new();
        let mut i: usize = 0;
        while i < width - dlen
            invariant
                i <= width - dlen,
                dlen < width,
                s@ =~= spec_repeat_char('0', i as nat),
            decreases width - dlen - i,
        {
            s.push('0');
            i += 1;
        }
        s.append(digits.as_str());
        s
    }
}

/// Copies a byte vector.
pub fn clone_bytes(v: &Vec<u8>) -> (r: Vec<u8>)
    ensures
        r@ == v@,
{
    let n = v.len();
    let mut out: Vec<u8> = Vec::new();
    let mut i: usize = 0;
    while i < n
        invariant
            i <= n,
            n == v@.len(),
            out@ =~= v@.subrange(0, i as int),
        decreases n - i,
    {
        out.push(v[i]);
        i += 1;
    }
    assert(out@ =~= v@);
    out
}

/// Copies a vector of indices.
pub fn clone_usizes(v: &Vec<usize>) -> (r: Vec<usize>)
    ensures
        r@ == v@,
{
    let n = v.len();
    let mut out: Vec<usize> = Vec::new();
    let mut i: usize = 0;
    while i < n
        invariant
            i <= n,
            n == v@.len(),
            out@ =~= v@.subrange(0, i as int),
        decreases n - i,
    {
        out.push(v[i]);
        i += 1;
    }
    assert(out@ =~= v@);
    out
}

/// Index of the first occurrence of a character, if any.
pub open spec fn find_char_in(s: Seq<char>, c: char) -> Option<nat>
    decreases s.len(),
{
    if s.len() == 0 {
        None
    } else if s[0] == c {
        Some(0)
    } else {
        match find_char_in(s.drop_first(), c) {
            Some(i) => Some((i + 1) as nat),
            None => None,
        }
    }
}

/// Characterization of `find_char_in`: the least occurrence index.
pub proof fn lemma_find_char_in(s: Seq<char>, c: char)
    ensures
        match find_char_in(s, c) {
            Some(i) => i < s.len() && s[i as int] == c && forall|j: int|
                0 <= j < i ==> s[j] != c,
            None => !seq_contains_char(s, c),
        },
    decreases s.len(),
{
    if s.len() == 0 {
    } else if s[0] == c {
    } else {
        lemma_find_char_in(s.drop_first(), c);
        match find_char_in(s.drop_first(), c) {
            Some(i) => {
                assert(s[i as int + 1] == s.drop_first()[i as int]);
                assert(forall|j: int| 1 <= j < i + 1 ==> s[j] == s.drop_first()[j - 1]);
            },
            None => {
                assert forall|j: int| 0 <= j < s.len() implies s[j] != c by {
                    if j > 0 {
                        assert(s[j] == s.drop_first()[j - 1]);
                    }
                }
            },
        }
    }
}

/// The least occurrence determines `find_char_in` uniquely.
pub proof fn lemma_find_char_in_at(s: Seq<char>, c: char, i: int)
    requires
        0 <= i < s.len(),
        s[i] == c,
        forall|j: int| 0 <= j < i ==> s[j] != c,
    ensures
        find_char_in(s, c) == Some(i as nat),
    decreases s.len(),
{
    if i == 0 {
    } else {
        assert(forall|j: int| 0 <= j < i - 1 ==> s.drop_first()[j] == s[j + 1]);
        lemma_find_char_in_at(s.drop_first(), c, i - 1);
    }
}

/// Segments of a sequence split on a character.
pub open spec fn split_char(s: Seq<char>, c: char) -> Seq<Seq<char>>
    decreases s.len(),
{
    match find_char_in(s, c) {
        None => seq![s],
        Some(i) => {
            if i < s.len() {
                seq![s.take(i as int)] + split_char(s.skip(i as int + 1), c)
            } else {
                seq![s]
            }
        },
    }
}

/// Index of the first occurrence of a character in a string, if any.
fn find_char_str(s: &str, c: char) -> (r: Option<usize>)
    ensures
        match r {
            Some(i) => find_char_in(s@, c) == Some(i as nat),
            None => find_char_in(s@, c) is None,
        },
{
    let len = s.unicode_len();
    let mut i: usize = 0;
    while i < len
        invariant
            i <= len,
            len == s@.len(),
            forall|j: int| 0 <= j < i ==> s@[j] != c,
        decreases len - i,
    {
        if s.get_char(i) == c {
            proof {
                lemma_find_char_in_at(s@, c, i as int);
            }
            return Some(i);
        }
        i += 1;
    }
    proof {
        lemma_find_char_in(s@, c);
        if find_char_in(s@, c) is Some {
            let k = find_char_in(s@, c)->Some_0;
            assert(s@[k as int] == c);
        }
    }
    None
}

/// Views of a vector of strings.
pub open spec fn seq_views(v: Seq<String>) -> Seq<Seq<char>> {
    v.map_values(|s: String| s@)
}

/// Splits a string on a character; every string yields at least one
/// (possibly empty) segment.
pub fn split_char_str(s: &str, c: char) -> (r: Vec<String>)
    ensures
        seq_views(r@) == split_char(s@, c),
    decreases s@.len(),
{
    let len = s.unicode_len();
    match find_char_str(s, c) {
        None => {
            let mut r: Vec<String> = Vec::new();
            r.push(s.to_owned());
            proof {
                assert(seq_views(r@) =~= seq![s@]);
            }
            r
        },
        Some(i) => {
            proof {
                lemma_find_char_in(s@, c);
            }
            let pre = s.substring_char(0, i);
            let rest = s.substring_char(i + 1, len);
            let mut r = split_char_str(rest, c);
            r.insert(0, pre.to_owned());
            proof {
                assert(pre@ =~= s@.take(i as int));
                assert(rest@ =~= s@.skip(i as int + 1));
                assert(seq_views(r@) =~= seq![s@.take(i as int)] + split_char(
                    s@.skip(i as int + 1),
                    c,
                ));
            }
            r
        },
    }
}

} // verus!
