//! Text as sequences of characters: trimming, ASCII case, splitting, decimals.

use vstd::prelude::*;

verus! {

/// Appends one character to a `String` (`std::string::String::push`).
pub assume_specification[ String::push ](s: &mut String, c: char)
    ensures
        final(s)@ == old(s)@.push(c),
;

/// The Unicode `White_Space` property.
pub open spec fn white_space(c: char) -> bool {
    ||| '\u{9}' <= c <= '\u{d}'
    ||| c == '\u{20}'
    ||| c == '\u{85}'
    ||| c == '\u{a0}'
    ||| c == '\u{1680}'
    ||| '\u{2000}' <= c <= '\u{200a}'
    ||| c == '\u{2028}'
    ||| c == '\u{2029}'
    ||| c == '\u{202f}'
    ||| c == '\u{205f}'
    ||| c == '\u{3000}'
}

/// `s` without its leading white space.
pub open spec fn trim_start(s: Seq<char>) -> Seq<char>
    decreases s.len(),
{
    if s.len() > 0 && white_space(s[0]) {
        trim_start(s.drop_first())
    } else {
        s
    }
}

/// `s` without its trailing white space.
pub open spec fn trim_end(s: Seq<char>) -> Seq<char>
    decreases s.len(),
{
    if s.len() > 0 && white_space(s.last()) {
        trim_end(s.drop_last())
    } else {
        s
    }
}

/// `s` without white space at either end.
pub open spec fn trim(s: Seq<char>) -> Seq<char> {
    trim_end(trim_start(s))
}

/// Whether `c` has the Unicode `White_Space` property.
pub fn is_white_space(c: char) -> (res: bool)
    ensures
        res == white_space(c),
{
    ('\u{9}' <= c && c <= '\u{d}') || c == '\u{20}' || c == '\u{85}' || c == '\u{a0}' || c
        == '\u{1680}' || ('\u{2000}' <= c && c <= '\u{200a}') || c == '\u{2028}' || c == '\u{2029}'
        || c == '\u{202f}' || c == '\u{205f}' || c == '\u{3000}'
}

/// The characters of `s`.
pub fn chars_of(s: &str) -> (res: Vec<char>)
    ensures
        res@ == s@,
{
    let mut res: Vec<char> = Vec::new();
    for c in it: s.chars()
        invariant
            it.seq() == s@,
            res@ == s@.take(it.index()),
    {
        res.push(c);
        assert(s@.take(it.index() + 1) == s@.take(it.index()).push(c));
    }
    assert(s@.take(s@.len() as int) == s@);
    res
}

/// The text made of `chars`.
pub fn string_of(chars: &[char]) -> (res: String)
    ensures
        res@ == chars@,
{
    let mut res: String = String::new();
    let mut i: usize = 0;
    while i < chars.len()
        invariant
            i <= chars.len(),
            res@ == chars@.take(i as int),
        decreases chars.len() - i,
    {
        res.push(chars[i]);
        assert(chars@.take(i + 1) == chars@.take(i as int).push(chars@[i as int]));
        i += 1;
    }
    assert(chars@.take(chars@.len() as int) == chars@);
    res
}

/// The characters of `chars` from `lo` up to, not including, `hi`.
pub fn copy_range(chars: &[char], lo: usize, hi: usize) -> (res: Vec<char>)
    requires
        lo <= hi <= chars@.len(),
    ensures
        res@ == chars@.subrange(lo as int, hi as int),
{
    let mut res: Vec<char> = Vec::new();
    let mut i: usize = lo;
    while i < hi
        invariant
            lo <= i <= hi <= chars@.len(),
            res@ == chars@.subrange(lo as int, i as int),
        decreases hi - i,
    {
        res.push(chars[i]);
        assert(chars@.subrange(lo as int, i + 1) == chars@.subrange(lo as int, i as int).push(
            chars@[i as int],
        ));
        i += 1;
    }
    res
}

/// `chars` without white space at either end.
pub fn trimmed(chars: &[char]) -> (res: Vec<char>)
    ensures
        res@ == trim(chars@),
{
    let len: usize = chars.len();
    let mut lo: usize = 0;
    assert(chars@.skip(0) == chars@);
    while lo < len && is_white_space(chars[lo])
        invariant
            lo <= len == chars@.len(),
            trim_start(chars@.skip(lo as int)) == trim_start(chars@),
        decreases len - lo,
    {
        assert(chars@.skip(lo as int).drop_first() == chars@.skip(lo + 1));
        lo += 1;
    }
    let ghost rest = trim_start(chars@);
    assert(rest == chars@.skip(lo as int));
    let mut hi: usize = len;
    assert(chars@.subrange(lo as int, hi as int) == rest);
    while lo < hi && is_white_space(chars[hi - 1])
        invariant
            lo <= hi <= len == chars@.len(),
            trim_end(chars@.subrange(lo as int, hi as int)) == trim_end(rest),
        decreases hi - lo,
    {
        assert(chars@.subrange(lo as int, hi as int).drop_last() == chars@.subrange(
            lo as int,
            hi - 1,
        ));
        hi -= 1;
    }
    copy_range(chars, lo, hi)
}

/// `s` without white space at either end, as `str::trim` gives it.
pub fn trimmed_text(s: &str) -> (res: String)
    ensures
        res@ == trim(s@),
{
    let chars = chars_of(s);
    let kept = trimmed(chars.as_slice());
    string_of(kept.as_slice())
}

/// `c`, or its capital where `c` is an ASCII small letter.
pub open spec fn upper_char(c: char) -> char {
    if 'a' <= c <= 'z' {
        (c as u8 - 32) as char
    } else {
        c
    }
}

/// `c`, or its small letter where `c` is an ASCII capital.
pub open spec fn lower_char(c: char) -> char {
    if 'A' <= c <= 'Z' {
        (c as u8 + 32) as char
    } else {
        c
    }
}

/// `s` with ASCII small letters made capitals.
pub open spec fn upper(s: Seq<char>) -> Seq<char> {
    Seq::new(s.len(), |i: int| upper_char(s[i]))
}

/// `s` with ASCII capitals made small letters.
pub open spec fn lower(s: Seq<char>) -> Seq<char> {
    Seq::new(s.len(), |i: int| lower_char(s[i]))
}

/// `chars` with ASCII small letters made capitals.
pub fn to_upper(chars: &[char]) -> (res: Vec<char>)
    ensures
        res@ == upper(chars@),
{
    let mut res: Vec<char> = Vec::new();
    let mut i: usize = 0;
    while i < chars.len()
        invariant
            i <= chars.len(),
            res@.len() == i,
            forall|k: int| 0 <= k < i ==> res@[k] == upper_char(chars@[k]),
        decreases chars.len() - i,
    {
        let c = chars[i];
        if 'a' <= c && c <= 'z' {
            res.push((c as u8 - 32) as char);
        } else {
            res.push(c);
        }
        i += 1;
    }
    res
}

/// `chars` with ASCII capitals made small letters.
pub fn to_lower(chars: &[char]) -> (res: Vec<char>)
    ensures
        res@ == lower(chars@),
{
    let mut res: Vec<char> = Vec::new();
    let mut i: usize = 0;
    while i < chars.len()
        invariant
            i <= chars.len(),
            res@.len() == i,
            forall|k: int| 0 <= k < i ==> res@[k] == lower_char(chars@[k]),
        decreases chars.len() - i,
    {
        let c = chars[i];
        if 'A' <= c && c <= 'Z' {
            res.push((c as u8 + 32) as char);
        } else {
            res.push(c);
        }
        i += 1;
    }
    res
}

/// Whether `s` and `t` are the same text.
pub fn same_text(s: &str, t: &str) -> (res: bool)
    ensures
        res == (s@ == t@),
{
    s.to_owned() == t.to_owned()
}

/// The first position of `c` in `s`, or the length of `s` where `c` is absent.
pub open spec fn first_index(s: Seq<char>, c: char) -> int
    decreases s.len(),
{
    if s.len() == 0 || s[0] == c {
        0
    } else {
        1 + first_index(s.drop_first(), c)
    }
}

/// `first_index` lies within the text; what stands before it differs from `c`.
pub proof fn first_index_is_first(s: Seq<char>, c: char)
    ensures
        0 <= first_index(s, c) <= s.len(),
        forall|k: int| 0 <= k < first_index(s, c) ==> s[k] != c,
        first_index(s, c) < s.len() ==> s[first_index(s, c)] == c,
    decreases s.len(),
{
    if s.len() > 0 && s[0] != c {
        first_index_is_first(s.drop_first(), c);
        let i = first_index(s.drop_first(), c);
        assert forall|k: int| 0 <= k < i + 1 implies s[k] != c by {
            if k > 0 {
                assert(s.drop_first()[k - 1] == s[k]);
            }
        }
    }
}

/// The first position of `c` in `chars` at or after `from`, or the length.
pub fn find_from(chars: &[char], c: char, from: usize) -> (res: usize)
    requires
        from <= chars@.len(),
    ensures
        from <= res <= chars@.len(),
        res == from + first_index(chars@.skip(from as int), c),
{
    let mut i: usize = from;
    while i < chars.len() && chars[i] != c
        invariant
            from <= i <= chars@.len(),
            from + first_index(chars@.skip(from as int), c) == i + first_index(
                chars@.skip(i as int),
                c,
            ),
        decreases chars.len() - i,
    {
        assert(chars@.skip(i as int).drop_first() == chars@.skip(i + 1));
        i += 1;
    }
    i
}

/// The character of a decimal digit.
pub open spec fn digit_char(d: nat) -> char {
    (48 + d) as char
}

/// `n` in decimal, without leading zeros.
pub open spec fn decimal(n: nat) -> Seq<char>
    decreases n,
{
    if n < 10 {
        seq![digit_char(n)]
    } else {
        decimal(n / 10).push(digit_char(n % 10))
    }
}

/// `n` in decimal, filled with zeros on the left to at least `width` characters.
pub open spec fn padded(n: nat, width: nat) -> Seq<char> {
    let d = decimal(n);
    if d.len() >= width {
        d
    } else {
        Seq::new((width - d.len()) as nat, |i: int| '0') + d
    }
}

/// `n` in decimal.
pub fn decimal_text(n: u128) -> (res: String)
    ensures
        res@ == decimal(n as nat),
    decreases n,
{
    if n < 10 {
        let mut res: String = String::new();
        res.push((48 + n as u8) as char);
        res
    } else {
        let mut res: String = decimal_text(n / 10);
        res.push((48 + (n % 10) as u8) as char);
        res
    }
}

/// `n` in decimal, filled with zeros on the left to at least `width` characters.
pub fn padded_text(n: u128, width: usize) -> (res: String)
    ensures
        res@ == padded(n as nat, width as nat),
{
    let digits = decimal_text(n);
    let chars = chars_of(digits.as_str());
    let len: usize = chars.len();
    let mut res: String = String::new();
    let mut zeros: usize = 0;
    while zeros < width && len < width - zeros
        invariant
            zeros <= width,
            len < width ==> zeros <= width - len,
            len >= width ==> zeros == 0,
            res@ == Seq::new(zeros as nat, |i: int| '0'),
        decreases width - zeros,
    {
        res.push('0');
        zeros += 1;
        assert(res@ == Seq::new(zeros as nat, |i: int| '0'));
    }
    let res = res.concat(digits.as_str());
    assert(res@ == padded(n as nat, width as nat));
    res
}

/// The number that decimal digits spell, or none where `s` is empty or holds anything else.
pub open spec fn number(s: Seq<char>) -> Option<nat>
    decreases s.len(),
{
    if s.len() == 0 || !('0' <= s.last() <= '9') {
        None
    } else if s.len() == 1 {
        Some((s.last() as nat - '0' as nat) as nat)
    } else {
        match number(s.drop_last()) {
            Some(n) => Some((10 * n + (s.last() as nat - '0' as nat)) as nat),
            None => None,
        }
    }
}

/// Text that holds something other than a digit spells no number.
pub proof fn number_needs_digits(s: Seq<char>, i: int)
    requires
        0 <= i < s.len(),
        !('0' <= s[i] <= '9'),
    ensures
        number(s) is None,
    decreases s.len(),
{
    if i < s.len() - 1 {
        assert(s.drop_last()[i] == s[i]);
        number_needs_digits(s.drop_last(), i);
    }
}

/// Decimal text spells the number that it was made from, zeros on the left or not.
pub proof fn padded_spells_its_number(n: nat, width: nat)
    ensures
        number(decimal(n)) == Some(n),
        number(padded(n, width)) == Some(n),
{
    decimal_spells_its_number(n);
    let d = decimal(n);
    if d.len() < width {
        zeros_in_front_change_nothing((width - d.len()) as nat, d);
    }
}

proof fn decimal_spells_its_number(n: nat)
    ensures
        decimal(n).len() > 0,
        number(decimal(n)) == Some(n),
    decreases n,
{
    if n >= 10 {
        decimal_spells_its_number(n / 10);
        assert(decimal(n).drop_last() == decimal(n / 10));
    }
}

proof fn zeros_in_front_change_nothing(zeros: nat, d: Seq<char>)
    requires
        d.len() > 0,
    ensures
        number(Seq::new(zeros, |i: int| '0') + d) == number(d),
    decreases zeros + d.len(),
{
    let z = Seq::new(zeros, |i: int| '0');
    let all = z + d;
    assert(all.last() == d.last());
    if zeros == 0 {
        assert(all == d);
    } else if d.len() == 1 {
        only_zeros(zeros);
        assert(all.drop_last() == z);
    } else {
        assert(all.drop_last() == z + d.drop_last());
        zeros_in_front_change_nothing(zeros, d.drop_last());
    }
}

proof fn only_zeros(zeros: nat)
    requires
        zeros > 0,
    ensures
        number(Seq::new(zeros, |i: int| '0')) == Some(0nat),
    decreases zeros,
{
    let z = Seq::new(zeros, |i: int| '0');
    if zeros > 1 {
        only_zeros((zeros - 1) as nat);
        assert(z.drop_last() == Seq::new((zeros - 1) as nat, |i: int| '0'));
    }
}

/// A number below 100 fills exactly two places.
pub proof fn two_places(n: nat)
    requires
        n < 100,
    ensures
        padded(n, 2).len() == 2,
{
    reveal_with_fuel(decimal, 2);
}

/// Trimming takes white space from both ends and nothing else: what is left is a part of the text
/// with white space only before and after it, and it begins and ends with something else.
pub proof fn trimming_cuts_white_space_only(s: Seq<char>)
    ensures
        exists|lo: int, hi: int|
            0 <= lo <= hi <= s.len() && trim(s) == #[trigger] s.subrange(lo, hi) && (forall|k: int|
                (0 <= k < lo || hi <= k < s.len()) ==> white_space(#[trigger] s[k])),
        trim(s).len() > 0 ==> !white_space(trim(s)[0]) && !white_space(trim(s).last()),
{
    let lo = cut_at_start(s);
    let rest = trim_start(s);
    let n = cut_at_end(rest);
    let hi = lo + n;
    assert(trim(s) == s.subrange(lo, hi));
    assert forall|k: int| (0 <= k < lo || hi <= k < s.len()) implies white_space(
        #[trigger] s[k],
    ) by {
        if hi <= k {
            assert(s[k] == rest[k - lo]);
        }
    }
    if trim(s).len() > 0 {
        assert(trim(s)[0] == rest[0]);
    }
}

proof fn cut_at_start(s: Seq<char>) -> (lo: int)
    ensures
        0 <= lo <= s.len(),
        trim_start(s) == s.skip(lo),
        forall|k: int| 0 <= k < lo ==> white_space(#[trigger] s[k]),
        lo < s.len() ==> !white_space(s[lo]),
    decreases s.len(),
{
    if s.len() > 0 && white_space(s[0]) {
        let t = s.drop_first();
        let lo = cut_at_start(t);
        assert(t.skip(lo) == s.skip(lo + 1));
        assert forall|k: int| 0 <= k < lo + 1 implies white_space(#[trigger] s[k]) by {
            if k > 0 {
                assert(t[k - 1] == s[k]);
            }
        }
        lo + 1
    } else {
        assert(s.skip(0) == s);
        0
    }
}

proof fn cut_at_end(s: Seq<char>) -> (hi: int)
    ensures
        0 <= hi <= s.len(),
        trim_end(s) == s.take(hi),
        forall|k: int| hi <= k < s.len() ==> white_space(#[trigger] s[k]),
        hi > 0 ==> !white_space(s[hi - 1]),
    decreases s.len(),
{
    if s.len() > 0 && white_space(s.last()) {
        let t = s.drop_last();
        let hi = cut_at_end(t);
        assert(t.take(hi) == s.take(hi));
        assert forall|k: int| hi <= k < s.len() implies white_space(#[trigger] s[k]) by {
            if k < t.len() {
                assert(t[k] == s[k]);
            }
        }
        hi
    } else {
        assert(s.take(s.len() as int) == s);
        s.len() as int
    }
}

/// White space is what Unicode lists as such: tab to carriage return, the space,
/// and the others written out here.
pub proof fn white_space_is_unicodes(c: char)
    ensures
        ({
            let n = c as int;
            white_space(c) <==> (9 <= n <= 13 || n == 0x20 || n == 0x85 || n == 0xa0 || n == 0x1680
                || 0x2000 <= n <= 0x200a || n == 0x2028 || n == 0x2029 || n == 0x202f || n == 0x205f
                || n == 0x3000)
        }),
{
}

/// Changing case moves the 26 ASCII letters by 32 and leaves every other character alone.
pub proof fn case_moves_ascii_letters_only(s: Seq<char>, i: int)
    requires
        0 <= i < s.len(),
    ensures
        upper(s).len() == s.len(),
        lower(s).len() == s.len(),
        upper(s)[i] as int == (if 97 <= s[i] as int <= 122 {
            s[i] as int - 32
        } else {
            s[i] as int
        }),
        lower(s)[i] as int == (if 65 <= s[i] as int <= 90 {
            s[i] as int + 32
        } else {
            s[i] as int
        }),
{
}

/// A decimal is made of digits alone and has no zero in front, but for zero itself.
pub proof fn decimals_are_plain_digits(n: nat)
    ensures
        decimal(n).len() > 0,
        forall|i: int| 0 <= i < decimal(n).len() ==> 48 <= (#[trigger] decimal(n)[i]) as int <= 57,
        n > 0 ==> decimal(n)[0] != '0',
    decreases n,
{
    if n >= 10 {
        decimals_are_plain_digits(n / 10);
    }
}

/// Padding puts zeros in front, up to the width and no further.
pub proof fn padding_is_zeros_in_front(n: nat, width: nat)
    ensures
        padded(n, width).len() == (if decimal(n).len() >= width {
            decimal(n).len()
        } else {
            width
        }),
        ({
            let zeros = padded(n, width).len() - decimal(n).len();
            &&& padded(n, width).skip(zeros) == decimal(n)
            &&& forall|i: int| 0 <= i < zeros ==> #[trigger] padded(n, width)[i] == '0'
        }),
{
    let zeros = padded(n, width).len() - decimal(n).len();
    assert(padded(n, width).skip(zeros) == decimal(n));
}

/// One more digit makes a number ten times as large, plus that digit.
pub proof fn digits_count_in_tens(s: Seq<char>, d: nat)
    requires
        d <= 9,
    ensures
        number(seq![(48 + d) as char]) == Some(d),
        number(s) matches Some(n) ==> number(s.push((48 + d) as char)) == Some(10 * n + d),
        s.len() > 0 && number(s) is None ==> number(s.push((48 + d) as char)) is None,
{
    let t = s.push((48 + d) as char);
    assert(t.drop_last() == s);
    assert(seq![(48 + d) as char].last() == (48 + d) as char);
}

} // verus!
