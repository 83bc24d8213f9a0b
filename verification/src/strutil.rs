//! Verified string helpers: case-insensitive comparison over ASCII,
//! substring search, and decimal formatting of integers.

use vstd::prelude::*;

verus! {

/// ASCII uppercase mapping; characters outside `a..=z` are unchanged.
pub open spec fn upper_char(c: char) -> char {
    match c {
        'a' => 'A',
        'b' => 'B',
        'c' => 'C',
        'd' => 'D',
        'e' => 'E',
        'f' => 'F',
        'g' => 'G',
        'h' => 'H',
        'i' => 'I',
        'j' => 'J',
        'k' => 'K',
        'l' => 'L',
        'm' => 'M',
        'n' => 'N',
        'o' => 'O',
        'p' => 'P',
        'q' => 'Q',
        'r' => 'R',
        's' => 'S',
        't' => 'T',
        'u' => 'U',
        'v' => 'V',
        'w' => 'W',
        'x' => 'X',
        'y' => 'Y',
        'z' => 'Z',
        _ => c,
    }
}

/// ASCII lowercase mapping; characters outside `A..=Z` are unchanged.
pub open spec fn lower_char(c: char) -> char {
    match c {
        'A' => 'a',
        'B' => 'b',
        'C' => 'c',
        'D' => 'd',
        'E' => 'e',
        'F' => 'f',
        'G' => 'g',
        'H' => 'h',
        'I' => 'i',
        'J' => 'j',
        'K' => 'k',
        'L' => 'l',
        'M' => 'm',
        'N' => 'n',
        'O' => 'o',
        'P' => 'p',
        'Q' => 'q',
        'R' => 'r',
        'S' => 's',
        'T' => 't',
        'U' => 'u',
        'V' => 'v',
        'W' => 'w',
        'X' => 'x',
        'Y' => 'y',
        'Z' => 'z',
        _ => c,
    }
}

pub open spec fn seq_upper(s: Seq<char>) -> Seq<char> {
    s.map_values(|c: char| upper_char(c))
}

pub open spec fn seq_lower(s: Seq<char>) -> Seq<char> {
    s.map_values(|c: char| lower_char(c))
}

pub open spec fn spec_starts_with(s: Seq<char>, p: Seq<char>) -> bool {
    p.len() <= s.len() && s.take(p.len() as int) == p
}

pub open spec fn spec_ends_with(s: Seq<char>, p: Seq<char>) -> bool {
    p.len() <= s.len() && s.skip(s.len() - p.len()) == p
}

/// `p` occurs in `s` starting at position `i`.
pub open spec fn has_sub_at(s: Seq<char>, p: Seq<char>, i: int) -> bool {
    0 <= i && i + p.len() <= s.len() && s.subrange(i, i + p.len()) == p
}

pub open spec fn spec_contains_sub(s: Seq<char>, p: Seq<char>) -> bool {
    exists|i: int| has_sub_at(s, p, i)
}

pub fn to_upper_char(c: char) -> (r: char)
    ensures
        r == upper_char(c),
{
    match c {
        'a' => 'A',
        'b' => 'B',
        'c' => 'C',
        'd' => 'D',
        'e' => 'E',
        'f' => 'F',
        'g' => 'G',
        'h' => 'H',
        'i' => 'I',
        'j' => 'J',
        'k' => 'K',
        'l' => 'L',
        'm' => 'M',
        'n' => 'N',
        'o' => 'O',
        'p' => 'P',
        'q' => 'Q',
        'r' => 'R',
        's' => 'S',
        't' => 'T',
        'u' => 'U',
        'v' => 'V',
        'w' => 'W',
        'x' => 'X',
        'y' => 'Y',
        'z' => 'Z',
        _ => c,
    }
}

pub fn to_lower_char(c: char) -> (r: char)
    ensures
        r == lower_char(c),
{
    match c {
        'A' => 'a',
        'B' => 'b',
        'C' => 'c',
        'D' => 'd',
        'E' => 'e',
        'F' => 'f',
        'G' => 'g',
        'H' => 'h',
        'I' => 'i',
        'J' => 'j',
        'K' => 'k',
        'L' => 'l',
        'M' => 'm',
        'N' => 'n',
        'O' => 'o',
        'P' => 'p',
        'Q' => 'q',
        'R' => 'r',
        'S' => 's',
        'T' => 't',
        'U' => 'u',
        'V' => 'v',
        'W' => 'w',
        'X' => 'x',
        'Y' => 'y',
        'Z' => 'z',
        _ => c,
    }
}

/// Equality of two string slices, decided character by character.
pub fn str_eq(a: &str, b: &str) -> (r: bool)
    ensures
        r == (a@ == b@),
{
    let an = a.unicode_len();
    let bn = b.unicode_len();
    if an != bn {
        return false;
    }
    let mut i: usize = 0;
    while i < an
        invariant
            an == a@.len(),
            an == b@.len(),
            i <= an,
            forall|j: int| 0 <= j < i ==> a@[j] == b@[j],
        decreases an - i,
    {
        if a.get_char(i) != b.get_char(i) {
            return false;
        }
        i = i + 1;
    }
    proof {
        assert(a@ =~= b@);
    }
    true
}

/// Equality of two string slices up to ASCII case.
pub fn str_eq_upper(a: &str, b: &str) -> (r: bool)
    ensures
        r == (seq_upper(a@) == seq_upper(b@)),
{
    let an = a.unicode_len();
    let bn = b.unicode_len();
    if an != bn {
        proof {
            assert(seq_upper(a@).len() != seq_upper(b@).len());
        }
        return false;
    }
    let mut i: usize = 0;
    while i < an
        invariant
            an == a@.len(),
            an == b@.len(),
            i <= an,
            forall|j: int| 0 <= j < i ==> upper_char(a@[j]) == upper_char(b@[j]),
        decreases an - i,
    {
        if to_upper_char(a.get_char(i)) != to_upper_char(b.get_char(i)) {
            proof {
                assert(seq_upper(a@)[i as int] != seq_upper(b@)[i as int]);
            }
            return false;
        }
        i = i + 1;
    }
    proof {
        assert(seq_upper(a@) =~= seq_upper(b@));
    }
    true
}

/// Equality of two string slices up to ASCII case, folding to lowercase.
pub fn str_eq_lower(a: &str, b: &str) -> (r: bool)
    ensures
        r == (seq_lower(a@) == seq_lower(b@)),
{
    let an = a.unicode_len();
    let bn = b.unicode_len();
    if an != bn {
        proof {
            assert(seq_lower(a@).len() != seq_lower(b@).len());
        }
        return false;
    }
    let mut i: usize = 0;
    while i < an
        invariant
            an == a@.len(),
            an == b@.len(),
            i <= an,
            forall|j: int| 0 <= j < i ==> lower_char(a@[j]) == lower_char(b@[j]),
        decreases an - i,
    {
        if to_lower_char(a.get_char(i)) != to_lower_char(b.get_char(i)) {
            proof {
                assert(seq_lower(a@)[i as int] != seq_lower(b@)[i as int]);
            }
            return false;
        }
        i = i + 1;
    }
    proof {
        assert(seq_lower(a@) =~= seq_lower(b@));
    }
    true
}

pub fn str_starts_with(s: &str, p: &str) -> (r: bool)
    ensures
        r == spec_starts_with(s@, p@),
{
    let sn = s.unicode_len();
    let pn = p.unicode_len();
    if pn > sn {
        return false;
    }
    let mut i: usize = 0;
    while i < pn
        invariant
            sn == s@.len(),
            pn == p@.len(),
            pn <= sn,
            i <= pn,
            forall|j: int| 0 <= j < i ==> s@[j] == p@[j],
        decreases pn - i,
    {
        if s.get_char(i) != p.get_char(i) {
            proof {
                assert(s@.take(pn as int)[i as int] != p@[i as int]);
            }
            return false;
        }
        i = i + 1;
    }
    proof {
        assert(s@.take(pn as int) =~= p@);
    }
    true
}

pub fn str_ends_with(s: &str, p: &str) -> (r: bool)
    ensures
        r == spec_ends_with(s@, p@),
{
    let sn = s.unicode_len();
    let pn = p.unicode_len();
    if pn > sn {
        return false;
    }
    let off = sn - pn;
    let mut i: usize = 0;
    while i < pn
        invariant
            sn == s@.len(),
            pn == p@.len(),
            pn <= sn,
            off == sn - pn,
            i <= pn,
            forall|j: int| 0 <= j < i ==> s@[off + j] == p@[j],
        decreases pn - i,
    {
        if s.get_char(off + i) != p.get_char(i) {
            proof {
                assert(s@.skip(off as int)[i as int] != p@[i as int]);
            }
            return false;
        }
        i = i + 1;
    }
    proof {
        assert(s@.skip(off as int) =~= p@);
    }
    true
}

/// Does `p`, folded to ASCII uppercase, occur in `s` folded the same way?
pub fn str_contains_upper(s: &str, p: &str) -> (r: bool)
    ensures
        r == spec_contains_sub(seq_upper(s@), seq_upper(p@)),
{
    let sn = s.unicode_len();
    let pn = p.unicode_len();
    if pn > sn {
        proof {
            assert(forall|i: int| !has_sub_at(seq_upper(s@), seq_upper(p@), i));
        }
        return false;
    }
    if pn == 0 {
        proof {
            assert(seq_upper(s@).subrange(0, 0) =~= seq_upper(p@));
            assert(has_sub_at(seq_upper(s@), seq_upper(p@), 0));
        }
        return true;
    }
    let mut start: usize = 0;
    while start <= sn - pn
        invariant
            sn == s@.len(),
            pn == p@.len(),
            0 < pn <= sn,
            start <= sn - pn + 1,
            forall|i: int| 0 <= i < start ==> !has_sub_at(seq_upper(s@), seq_upper(p@), i),
        decreases sn - pn + 1 - start,
    {
        let ghost su = seq_upper(s@);
        let ghost pu = seq_upper(p@);
        let mut i: usize = 0;
        let mut matched = true;
        while i < pn && matched
            invariant
                sn == s@.len(),
                pn == p@.len(),
                0 < pn <= sn,
                start <= sn - pn,
                i <= pn,
                su == seq_upper(s@),
                pu == seq_upper(p@),
                matched ==> forall|j: int|
                    0 <= j < i ==> upper_char(s@[start + j]) == upper_char(p@[j]),
                !matched ==> !has_sub_at(su, pu, start as int),
            decreases pn - i + (if matched { 1int } else { 0int }),
        {
            if to_upper_char(s.get_char(start + i)) != to_upper_char(p.get_char(i)) {
                matched = false;
                proof {
                    assert(!has_sub_at(su, pu, start as int)) by {
                        if has_sub_at(su, pu, start as int) {
                            assert(su.subrange(start as int, start + pn as int)[i as int]
                                == pu[i as int]);
                        }
                    };
                }
            } else {
                i = i + 1;
            }
        }
        if matched {
            proof {
                assert(su.subrange(start as int, start + pn as int) =~= pu);
                assert(has_sub_at(su, pu, start as int));
            }
            return true;
        }
        start = start + 1;
    }
    proof {
        assert(forall|i: int| !has_sub_at(seq_upper(s@), seq_upper(p@), i));
    }
    false
}

/// Does `p`, folded to ASCII lowercase, occur in `s` folded the same way?
pub fn str_contains_lower(s: &str, p: &str) -> (r: bool)
    ensures
        r == spec_contains_sub(seq_lower(s@), seq_lower(p@)),
{
    let sn = s.unicode_len();
    let pn = p.unicode_len();
    if pn > sn {
        proof {
            assert(forall|i: int| !has_sub_at(seq_lower(s@), seq_lower(p@), i));
        }
        return false;
    }
    if pn == 0 {
        proof {
            assert(seq_lower(s@).subrange(0, 0) =~= seq_lower(p@));
            assert(has_sub_at(seq_lower(s@), seq_lower(p@), 0));
        }
        return true;
    }
    let mut start: usize = 0;
    while start <= sn - pn
        invariant
            sn == s@.len(),
            pn == p@.len(),
            0 < pn <= sn,
            start <= sn - pn + 1,
            forall|i: int| 0 <= i < start ==> !has_sub_at(seq_lower(s@), seq_lower(p@), i),
        decreases sn - pn + 1 - start,
    {
        let ghost sl = seq_lower(s@);
        let ghost pl = seq_lower(p@);
        let mut i: usize = 0;
        let mut matched = true;
        while i < pn && matched
            invariant
                sn == s@.len(),
                pn == p@.len(),
                0 < pn <= sn,
                start <= sn - pn,
                i <= pn,
                sl == seq_lower(s@),
                pl == seq_lower(p@),
                matched ==> forall|j: int|
                    0 <= j < i ==> lower_char(s@[start + j]) == lower_char(p@[j]),
                !matched ==> !has_sub_at(sl, pl, start as int),
            decreases pn - i + (if matched { 1int } else { 0int }),
        {
            if to_lower_char(s.get_char(start + i)) != to_lower_char(p.get_char(i)) {
                matched = false;
                proof {
                    assert(!has_sub_at(sl, pl, start as int)) by {
                        if has_sub_at(sl, pl, start as int) {
                            assert(sl.subrange(start as int, start + pn as int)[i as int]
                                == pl[i as int]);
                        }
                    };
                }
            } else {
                i = i + 1;
            }
        }
        if matched {
            proof {
                assert(sl.subrange(start as int, start + pn as int) =~= pl);
                assert(has_sub_at(sl, pl, start as int));
            }
            return true;
        }
        start = start + 1;
    }
    proof {
        assert(forall|i: int| !has_sub_at(seq_lower(s@), seq_lower(p@), i));
    }
    false
}

/// Does `s` start with `p`, both folded to ASCII uppercase?
pub fn str_starts_with_upper(s: &str, p: &str) -> (r: bool)
    ensures
        r == spec_starts_with(seq_upper(s@), seq_upper(p@)),
{
    let sn = s.unicode_len();
    let pn = p.unicode_len();
    if pn > sn {
        return false;
    }
    let mut i: usize = 0;
    while i < pn
        invariant
            sn == s@.len(),
            pn == p@.len(),
            pn <= sn,
            i <= pn,
            forall|j: int| 0 <= j < i ==> upper_char(s@[j]) == upper_char(p@[j]),
        decreases pn - i,
    {
        if to_upper_char(s.get_char(i)) != to_upper_char(p.get_char(i)) {
            proof {
                assert(seq_upper(s@).take(pn as int)[i as int] != seq_upper(p@)[i as int]);
            }
            return false;
        }
        i = i + 1;
    }
    proof {
        assert(seq_upper(s@).take(pn as int) =~= seq_upper(p@));
    }
    true
}

/// Does `s` start with `p`, both folded to ASCII lowercase?
pub fn str_starts_with_lower(s: &str, p: &str) -> (r: bool)
    ensures
        r == spec_starts_with(seq_lower(s@), seq_lower(p@)),
{
    let sn = s.unicode_len();
    let pn = p.unicode_len();
    if pn > sn {
        return false;
    }
    let mut i: usize = 0;
    while i < pn
        invariant
            sn == s@.len(),
            pn == p@.len(),
            pn <= sn,
            i <= pn,
            forall|j: int| 0 <= j < i ==> lower_char(s@[j]) == lower_char(p@[j]),
        decreases pn - i,
    {
        if to_lower_char(s.get_char(i)) != to_lower_char(p.get_char(i)) {
            proof {
                assert(seq_lower(s@).take(pn as int)[i as int] != seq_lower(p@)[i as int]);
            }
            return false;
        }
        i = i + 1;
    }
    proof {
        assert(seq_lower(s@).take(pn as int) =~= seq_lower(p@));
    }
    true
}

/// Does `s` end with `p`, both folded to ASCII uppercase?
pub fn str_ends_with_upper(s: &str, p: &str) -> (r: bool)
    ensures
        r == spec_ends_with(seq_upper(s@), seq_upper(p@)),
{
    let sn = s.unicode_len();
    let pn = p.unicode_len();
    if pn > sn {
        return false;
    }
    let off = sn - pn;
    let mut i: usize = 0;
    while i < pn
        invariant
            sn == s@.len(),
            pn == p@.len(),
            pn <= sn,
            off == sn - pn,
            i <= pn,
            forall|j: int| 0 <= j < i ==> upper_char(s@[off + j]) == upper_char(p@[j]),
        decreases pn - i,
    {
        if to_upper_char(s.get_char(off + i)) != to_upper_char(p.get_char(i)) {
            proof {
                assert(seq_upper(s@).skip(off as int)[i as int] != seq_upper(p@)[i as int]);
            }
            return false;
        }
        i = i + 1;
    }
    proof {
        assert(seq_upper(s@).skip(off as int) =~= seq_upper(p@));
    }
    true
}

/// Relies on std's `String::push`: appends exactly the given character.
#[verifier::external_body]
pub fn string_push(s: &mut String, c: char)
    ensures
        final(s)@ == old(s)@.push(c),
{
    s.push(c);
}

/// Folds a string to ASCII lowercase.
pub fn to_lower_string(s: &str) -> (r: String)
    ensures
        r@ == seq_lower(s@),
{
    let n = s.unicode_len();
    let mut out = String::new();
    let mut i: usize = 0;
    while i < n
        invariant
            n == s@.len(),
            i <= n,
            out@ == seq_lower(s@).take(i as int),
        decreases n - i,
    {
        string_push(&mut out, to_lower_char(s.get_char(i)));
        proof {
            assert(out@ =~= seq_lower(s@).take(i + 1));
        }
        i = i + 1;
    }
    proof {
        assert(out@ =~= seq_lower(s@));
    }
    out
}

pub open spec fn digit_char(d: int) -> char {
    if d == 0 {
        '0'
    } else if d == 1 {
        '1'
    } else if d == 2 {
        '2'
    } else if d == 3 {
        '3'
    } else if d == 4 {
        '4'
    } else if d == 5 {
        '5'
    } else if d == 6 {
        '6'
    } else if d == 7 {
        '7'
    } else if d == 8 {
        '8'
    } else {
        '9'
    }
}

/// The usual decimal rendering of `n`, most significant digit first.
pub open spec fn dec_digits(n: nat) -> Seq<char>
    decreases n,
{
    if n < 10 {
        seq![digit_char(n as int)]
    } else {
        dec_digits(n / 10).push(digit_char((n % 10) as int))
    }
}

fn digit_to_char(d: u64) -> (r: char)
    requires
        d < 10,
    ensures
        r == digit_char(d as int),
{
    match d {
        0 => '0',
        1 => '1',
        2 => '2',
        3 => '3',
        4 => '4',
        5 => '5',
        6 => '6',
        7 => '7',
        8 => '8',
        _ => '9',
    }
}

/// Renders `n` in decimal.
pub fn u64_to_string(n: u64) -> (r: String)
    ensures
        r@ == dec_digits(n as nat),
    decreases n,
{
    if n < 10 {
        let mut out = String::new();
        string_push(&mut out, digit_to_char(n));
        proof {
            assert(out@ =~= dec_digits(n as nat));
        }
        out
    } else {
        let mut out = u64_to_string(n / 10);
        string_push(&mut out, digit_to_char(n % 10));
        out
    }
}

/// The decimal rendering of `n` left-padded with zeros to at least `width` characters.
pub open spec fn dec_padded(n: nat, width: nat) -> Seq<char>
    decreases width,
{
    if dec_digits(n).len() >= width {
        dec_digits(n)
    } else {
        seq!['0'].add(dec_padded(n, (width - 1) as nat))
    }
}

/// Renders `n` in decimal, left-padded with zeros to at least `width` characters.
pub fn u64_to_padded_string(n: u64, width: usize) -> (r: String)
    ensures
        r@ == dec_padded(n as nat, width as nat),
    decreases width,
{
    let digits = u64_to_string(n);
    if digits.as_str().unicode_len() >= width {
        proof {
            assert(dec_padded(n as nat, width as nat) == dec_digits(n as nat)) by {
                if width > 0 {
                    assert(dec_digits(n as nat).len() >= width);
                }
            };
        }
        digits
    } else {
        let mut out = String::new();
        string_push(&mut out, '0');
        let rest = u64_to_padded_string(n, width - 1);
        let r = out.concat(rest.as_str());
        proof {
            assert(r@ =~= dec_padded(n as nat, width as nat));
        }
        r
    }
}

} // verus!
