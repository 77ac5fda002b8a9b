//! Text as sequences of characters: building, comparing, trimming, splitting
//! and decimal numbers.

use vstd::prelude::*;

use crate::list::views;

verus! {

/// `String::push` appends one character at the end of the string.
pub assume_specification[ String::push ](s: &mut String, c: char)
    ensures
        final(s)@ == old(s)@.push(c),
;

/// The characters that Unicode gives the property `White_Space`.
pub open spec fn is_space(c: char) -> bool {
    ||| '\u{9}' <= c <= '\u{d}'
    ||| c == ' '
    ||| c == '\u{85}'
    ||| c == '\u{a0}'
    ||| c == '\u{1680}'
    ||| '\u{2000}' <= c <= '\u{200a}'
    ||| c == '\u{2028}'
    ||| c == '\u{2029}'
    ||| c == '\u{202f}'
    ||| c == '\u{205f}'
    ||| c == '\u{3000}'
}

/// `s` without its leading white space.
pub open spec fn trim_start(s: Seq<char>) -> Seq<char>
    decreases s.len(),
{
    if s.len() > 0 && is_space(s[0]) {
        trim_start(s.drop_first())
    } else {
        s
    }
}

/// `s` without its trailing white space.
pub open spec fn trim_end(s: Seq<char>) -> Seq<char>
    decreases s.len(),
{
    if s.len() > 0 && is_space(s.last()) {
        trim_end(s.drop_last())
    } else {
        s
    }
}

/// `s` without white space at either end.
pub open spec fn trimmed(s: Seq<char>) -> Seq<char> {
    trim_end(trim_start(s))
}

/// The pieces of `s` between the occurrences of `sep`: one more than there are
/// occurrences.
pub open spec fn pieces(s: Seq<char>, sep: char) -> Seq<Seq<char>>
    decreases s.len(),
{
    if s.len() == 0 {
        seq![Seq::empty()]
    } else {
        let before = pieces(s.drop_last(), sep);
        if s.last() == sep {
            before.push(Seq::empty())
        } else {
            before.update(before.len() - 1, before.last().push(s.last()))
        }
    }
}

/// `parts` one after the other with `sep` between them.
pub open spec fn joined(parts: Seq<Seq<char>>, sep: char) -> Seq<char>
    decreases parts.len(),
{
    if parts.len() == 0 {
        Seq::empty()
    } else if parts.len() == 1 {
        parts[0]
    } else {
        joined(parts.drop_last(), sep).push(sep) + parts.last()
    }
}

/// The decimal digit for a number below ten.
pub open spec fn digit(n: nat) -> char {
    (n + '0' as nat) as char
}

pub open spec fn is_digit(c: char) -> bool {
    '0' <= c <= '9'
}

/// `n` in decimal, without leading zeros.
pub open spec fn decimal(n: nat) -> Seq<char>
    decreases n,
{
    if n < 10 {
        seq![digit(n)]
    } else {
        decimal(n / 10).push(digit(n % 10))
    }
}

/// The number that a run of decimal digits denotes.
pub open spec fn digits_value(s: Seq<char>) -> nat
    decreases s.len(),
{
    if s.len() == 0 {
        0
    } else {
        digits_value(s.drop_last()) * 10 + (s.last() as int - '0' as int) as nat
    }
}

pub open spec fn all_digits(s: Seq<char>) -> bool {
    s.len() > 0 && forall|i: int| 0 <= i < s.len() ==> is_digit(#[trigger] s[i])
}

/// The integer that `s` denotes: decimal digits, at least one, behind an
/// optional sign.
pub open spec fn integer(s: Seq<char>) -> Option<int> {
    if all_digits(s) {
        Some(digits_value(s) as int)
    } else if s.len() > 0 && s[0] == '+' && all_digits(s.drop_first()) {
        Some(digits_value(s.drop_first()) as int)
    } else if s.len() > 0 && s[0] == '-' && all_digits(s.drop_first()) {
        Some(-(digits_value(s.drop_first()) as int))
    } else {
        None
    }
}

/// The integer that `s` denotes, where it fits into an `i64`.
pub open spec fn parsed_i64(s: Seq<char>) -> Option<i64> {
    match integer(s) {
        Some(v) => if i64::MIN <= v <= i64::MAX {
            Some(v as i64)
        } else {
            None
        },
        None => None,
    }
}

/// Where `a` directly followed by `b` occurs first in `s`, or `-1`.
pub open spec fn find_pair(s: Seq<char>, a: char, b: char) -> int
    decreases s.len(),
{
    if s.len() < 2 {
        -1
    } else if s[0] == a && s[1] == b {
        0
    } else {
        let rest = find_pair(s.drop_first(), a, b);
        if rest < 0 {
            -1
        } else {
            rest + 1
        }
    }
}

pub open spec fn has_prefix(s: Seq<char>, prefix: Seq<char>) -> bool {
    prefix.len() <= s.len() && s.take(prefix.len() as int) == prefix
}

pub open spec fn lower_ascii(c: char) -> char {
    if 'A' <= c <= 'Z' {
        (c as int + 32) as char
    } else {
        c
    }
}

/// `s` with its ASCII capitals replaced by small letters.
pub open spec fn lowered_ascii(s: Seq<char>) -> Seq<char> {
    s.map_values(|c: char| lower_ascii(c))
}

pub fn space(c: char) -> (r: bool)
    ensures
        r == is_space(c),
{
    ('\u{9}' <= c && c <= '\u{d}') || c == ' ' || c == '\u{85}' || c == '\u{a0}' || c == '\u{1680}'
        || ('\u{2000}' <= c && c <= '\u{200a}') || c == '\u{2028}' || c == '\u{2029}' || c
        == '\u{202f}' || c == '\u{205f}' || c == '\u{3000}'
}

/// The characters of `s`, one by one.
pub fn chars_of(s: &str) -> (r: Vec<char>)
    ensures
        r@ == s@,
{
    let mut r: Vec<char> = Vec::new();
    for c in it: s.chars()
        invariant
            it.seq() == s@,
            r@ == s@.take(it.index() as int),
    {
        proof {
            assert(s@.take(it.index() as int).push(c) =~= s@.take(it.index() as int + 1));
        }
        r.push(c);
    }
    assert(s@.take(s@.len() as int) =~= s@);
    r
}

/// The string made of the characters from `from` up to `to`.
pub fn string_of(chars: &Vec<char>, from: usize, to: usize) -> (r: String)
    requires
        from <= to <= chars@.len(),
    ensures
        r@ == chars@.subrange(from as int, to as int),
{
    let mut r = String::new();
    let mut i: usize = from;
    assert(chars@.subrange(from as int, from as int) =~= Seq::<char>::empty());
    while i < to
        invariant
            from <= i <= to <= chars@.len(),
            r@ == chars@.subrange(from as int, i as int),
        decreases to - i,
    {
        assert(chars@.subrange(from as int, i as int).push(chars@[i as int])
            =~= chars@.subrange(from as int, i + 1));
        r.push(chars[i]);
        i = i + 1;
    }
    r
}

/// Whether two strings hold the same text.
pub fn same_text(a: &str, b: &str) -> (r: bool)
    ensures
        r == (a@ == b@),
{
    a.to_owned() == b.to_owned()
}

/// `s` without white space at either end.
pub fn trim(s: &str) -> (r: String)
    ensures
        r@ == trimmed(s@),
{
    let chars: Vec<char> = chars_of(s);
    let mut from: usize = 0;
    assert(s@.skip(0) =~= s@);
    while from < chars.len() && space(chars[from])
        invariant
            from <= chars@.len(),
            chars@ == s@,
            trim_start(s@) == trim_start(s@.skip(from as int)),
        decreases chars@.len() - from,
    {
        assert(s@.skip(from as int).drop_first() =~= s@.skip(from + 1));
        from = from + 1;
    }
    assert(trim_start(s@) =~= s@.skip(from as int));
    let mut to: usize = chars.len();
    assert(s@.subrange(from as int, to as int) =~= s@.skip(from as int));
    while from < to && space(chars[to - 1])
        invariant
            from <= to <= chars@.len(),
            chars@ == s@,
            trimmed(s@) == trim_end(s@.subrange(from as int, to as int)),
        decreases to,
    {
        assert(s@.subrange(from as int, to as int).drop_last() =~= s@.subrange(
            from as int,
            to - 1,
        ));
        to = to - 1;
    }
    string_of(&chars, from, to)
}

/// The pieces of `s` between the occurrences of `sep`.
pub fn split(s: &str, sep: char) -> (r: Vec<String>)
    ensures
        views(r@) == pieces(s@, sep),
{
    let chars: Vec<char> = chars_of(s);
    let mut r: Vec<String> = Vec::new();
    let mut last = String::new();
    let mut i: usize = 0;
    assert(s@.take(0) =~= Seq::<char>::empty());
    assert(views(r@).push(last@) =~= seq![Seq::empty()]);
    while i < chars.len()
        invariant
            i <= chars@.len(),
            chars@ == s@,
            views(r@).push(last@) == pieces(s@.take(i as int), sep),
        decreases chars@.len() - i,
    {
        let c = chars[i];
        let ghost before = views(r@).push(last@);
        assert(s@.take(i + 1).drop_last() =~= s@.take(i as int));
        if c == sep {
            r.push(last);
            last = String::new();
            assert(views(r@) =~= before);
        } else {
            last.push(c);
            assert(views(r@).push(last@) =~= before.update(
                before.len() - 1,
                before.last().push(c),
            ));
        }
        i = i + 1;
    }
    assert(s@.take(i as int) =~= s@);
    let ghost before = views(r@).push(last@);
    r.push(last);
    assert(views(r@) =~= before);
    r
}

/// `n` in decimal.
pub fn decimal_string(n: u64) -> (r: String)
    ensures
        r@ == decimal(n as nat),
    decreases n,
{
    let mut r = if n < 10 {
        String::new()
    } else {
        decimal_string(n / 10)
    };
    let d: u64 = n % 10;
    r.push(digit_char(d));
    assert(n < 10 ==> r@ =~= seq![digit(n as nat)]);
    r
}

fn digit_char(d: u64) -> (c: char)
    requires
        d < 10,
    ensures
        c == digit(d as nat),
{
    if d == 0 {
        '0'
    } else if d == 1 {
        '1'
    } else if d == 2 {
        '2'
    } else if d == 3 {
        '3'
    } else if d == 4 {
        '4'
    } else if d == 5 {
        '5'
    } else if d == 6 {
        '6'
    } else if d == 7 {
        '7'
    } else if d == 8 {
        '8'
    } else {
        '9'
    }
}

proof fn lemma_digits_value_grows(s: Seq<char>, n: int)
    requires
        0 <= n <= s.len(),
    ensures
        digits_value(s.take(n)) <= digits_value(s),
    decreases s.len() - n,
{
    if n < s.len() {
        lemma_digits_value_grows(s, n + 1);
        assert(s.take(n + 1).drop_last() =~= s.take(n));
    } else {
        assert(s.take(n) =~= s);
    }
}

/// The number that the characters from `from` on denote, if they are decimal
/// digits, at least one, and the number is at most `limit`.
fn parse_digits(chars: &Vec<char>, from: usize, limit: u64) -> (r: Option<u64>)
    requires
        from <= chars@.len(),
        limit <= 0x8000_0000_0000_0000,
    ensures
        match r {
            Some(v) => all_digits(chars@.skip(from as int)) && v == digits_value(
                chars@.skip(from as int),
            ) && v <= limit,
            None => !all_digits(chars@.skip(from as int)) || digits_value(chars@.skip(from as int))
                > limit,
        },
{
    let ghost digits = chars@.skip(from as int);
    if from == chars.len() {
        return None;
    }
    let mut v: u64 = 0;
    let mut i: usize = from;
    assert(digits.take(0) =~= Seq::<char>::empty());
    while i < chars.len()
        invariant
            from <= i <= chars@.len(),
            digits == chars@.skip(from as int),
            v <= limit <= 0x8000_0000_0000_0000,
            v == digits_value(digits.take(i - from)),
            forall|k: int| 0 <= k < i - from ==> is_digit(#[trigger] digits[k]),
        decreases chars@.len() - i,
    {
        let c = chars[i];
        assert(digits[i - from] == c);
        if !('0' <= c && c <= '9') {
            return None;
        }
        let d: u64 = (c as u32 - '0' as u32) as u64;
        assert(digits.take(i + 1 - from).drop_last() =~= digits.take(i - from));
        proof {
            lemma_digits_value_grows(digits, i + 1 - from);
        }
        if v > 0x8000_0000_0000_0000 / 10 {
            return None;
        }
        v = v * 10 + d;
        if v > limit {
            return None;
        }
        i = i + 1;
    }
    assert(digits.take(i - from) =~= digits);
    Some(v)
}

/// The `i64` that `s` denotes: decimal digits behind an optional sign.
pub fn parse_i64(s: &str) -> (r: Option<i64>)
    ensures
        r == parsed_i64(s@),
{
    let chars: Vec<char> = chars_of(s);
    assert(s@.skip(0) =~= s@);
    if chars.len() == 0 {
        return None;
    }
    assert(s@.skip(1) =~= s@.drop_first());
    assert(all_digits(s@) ==> is_digit(s@[0]));
    if chars[0] == '-' {
        match parse_digits(&chars, 1, 0x8000_0000_0000_0000) {
            Some(v) => if v == 0x8000_0000_0000_0000 {
                Some(i64::MIN)
            } else {
                Some(-(v as i64))
            },
            None => None,
        }
    } else {
        let from: usize = if chars[0] == '+' {
            1
        } else {
            0
        };
        match parse_digits(&chars, from, 0x7fff_ffff_ffff_ffff) {
            Some(v) => Some(v as i64),
            None => None,
        }
    }
}

/// Whether `s` begins with `prefix`.
pub fn starts_with(s: &str, prefix: &str) -> (r: bool)
    ensures
        r == has_prefix(s@, prefix@),
{
    let a: Vec<char> = chars_of(s);
    let b: Vec<char> = chars_of(prefix);
    if b.len() > a.len() {
        return false;
    }
    let mut i: usize = 0;
    while i < b.len()
        invariant
            i <= b@.len() <= a@.len(),
            a@ == s@,
            b@ == prefix@,
            forall|k: int| 0 <= k < i ==> a@[k] == b@[k],
        decreases b@.len() - i,
    {
        if a[i] != b[i] {
            assert(s@.take(prefix@.len() as int)[i as int] != prefix@[i as int]);
            return false;
        }
        i = i + 1;
    }
    assert(s@.take(prefix@.len() as int) =~= prefix@);
    true
}

/// `a` and `b` one after the other.
pub fn concat2(a: &str, b: &str) -> (r: String)
    ensures
        r@ == a@ + b@,
{
    let mut r = a.to_owned();
    r.append(b);
    r
}

/// `a`, `b` and `c` one after the other.
pub fn concat3(a: &str, b: &str, c: &str) -> (r: String)
    ensures
        r@ == a@ + b@ + c@,
{
    let mut r = a.to_owned();
    r.append(b);
    r.append(c);
    r
}

/// Whether `a` and `b` are equal but for the case of ASCII letters.
pub fn same_text_ignoring_ascii_case(a: &str, b: &str) -> (r: bool)
    ensures
        r == (lowered_ascii(a@) == lowered_ascii(b@)),
{
    let x: Vec<char> = chars_of(a);
    let y: Vec<char> = chars_of(b);
    assert(lowered_ascii(a@).len() == x@.len() && lowered_ascii(b@).len() == y@.len());
    if x.len() != y.len() {
        return false;
    }
    let mut i: usize = 0;
    while i < x.len()
        invariant
            i <= x@.len() == y@.len(),
            x@ == a@,
            y@ == b@,
            forall|k: int| 0 <= k < i ==> lower_ascii(x@[k]) == lower_ascii(y@[k]),
        decreases x@.len() - i,
    {
        let c = x[i];
        let d = y[i];
        let m: u32 = if 'A' <= c && c <= 'Z' {
            c as u32 + 32
        } else {
            c as u32
        };
        let n: u32 = if 'A' <= d && d <= 'Z' {
            d as u32 + 32
        } else {
            d as u32
        };
        if m != n {
            assert(lowered_ascii(a@)[i as int] != lowered_ascii(b@)[i as int]);
            return false;
        }
        i = i + 1;
    }
    assert(lowered_ascii(a@) =~= lowered_ascii(b@));
    true
}

/// What `str::to_lowercase` makes of a text.
pub uninterp spec fn lowercase(s: Seq<char>) -> Seq<char>;

/// `str::to_lowercase` gives a text that depends on the argument alone; on a
/// text of ASCII characters it replaces the capitals by small letters.
#[verifier::external_body]
pub(crate) fn to_lowercase(s: &str) -> (r: String)
    ensures
        r@ == lowercase(s@),
        s.is_ascii() ==> r@ == lowered_ascii(s@),
{
    s.to_lowercase()
}

/// Splitting loses nothing: the pieces, joined again, are the text, and no
/// piece holds the separator.
pub proof fn law_split_then_join(s: Seq<char>, sep: char)
    ensures
        joined(pieces(s, sep), sep) == s,
        pieces(s, sep).len() > 0,
        forall|i: int| 0 <= i < pieces(s, sep).len() ==> !(#[trigger] pieces(s, sep)[i]).contains(sep),
    decreases s.len(),
{
    if s.len() == 0 {
        assert(joined(pieces(s, sep), sep) =~= s);
    } else {
        law_split_then_join(s.drop_last(), sep);
        let before = pieces(s.drop_last(), sep);
        let after = pieces(s, sep);
        let c = s.last();
        assert(s =~= s.drop_last().push(c));
        if c == sep {
            assert(after.drop_last() =~= before);
            assert(joined(after, sep) =~= s);
        } else {
            let grown = before.last().push(c);
            assert(after.drop_last() =~= before.drop_last());
            assert(joined(after, sep) =~= joined(before, sep).push(c));
            assert forall|i: int| 0 <= i < after.len() implies !(#[trigger] after[i]).contains(
                sep,
            ) by {
                if i == after.len() - 1 {
                    assert(!before[i].contains(sep));
                    assert forall|k: int| 0 <= k < grown.len() implies grown[k] != sep by {
                        if k < before.last().len() {
                            assert(before.last()[k] == grown[k]);
                        }
                    }
                } else {
                    assert(after[i] == before[i]);
                }
            }
        }
    }
}

/// A number written in decimal reads back as itself.
pub proof fn law_decimal_reads_back(n: nat)
    ensures
        all_digits(decimal(n)),
        digits_value(decimal(n)) == n,
        integer(decimal(n)) == Some(n as int),
    decreases n,
{
    if n < 10 {
        assert(decimal(n).drop_last() =~= Seq::<char>::empty());
        reveal_with_fuel(digits_value, 2);
    } else {
        law_decimal_reads_back(n / 10);
        assert(decimal(n).drop_last() =~= decimal(n / 10));
    }
}

/// White space is what Unicode says it is: the controls from tab to carriage
/// return, the space, and the wider and narrower spaces and line ends, by their
/// numbers.
pub proof fn law_white_space(c: char)
    ensures
        is_space(c) <==> {
            let n = c as int;
            ||| 9 <= n <= 13 || n == 32
            ||| n == 133 || n == 160 || n == 5760
            ||| 8192 <= n <= 8202
            ||| n == 8232 || n == 8233 || n == 8239 || n == 8287 || n == 12288
        },
{
}

proof fn lemma_trim_start(s: Seq<char>) -> (from: int)
    ensures
        0 <= from <= s.len(),
        trim_start(s) == s.skip(from),
        forall|i: int| 0 <= i < from ==> is_space(#[trigger] s[i]),
        from < s.len() ==> !is_space(s[from]),
    decreases s.len(),
{
    if s.len() > 0 && is_space(s[0]) {
        let rest = s.drop_first();
        let from = lemma_trim_start(rest);
        assert(rest.skip(from) =~= s.skip(from + 1));
        assert forall|i: int| 0 <= i < from + 1 implies is_space(#[trigger] s[i]) by {
            if i > 0 {
                assert(rest[i - 1] == s[i]);
            }
        }
        from + 1
    } else {
        assert(s.skip(0) =~= s);
        0
    }
}

proof fn lemma_trim_end(s: Seq<char>) -> (to: int)
    ensures
        0 <= to <= s.len(),
        trim_end(s) == s.take(to),
        forall|i: int| to <= i < s.len() ==> is_space(#[trigger] s[i]),
        to > 0 ==> !is_space(s[to - 1]),
    decreases s.len(),
{
    if s.len() > 0 && is_space(s.last()) {
        let rest = s.drop_last();
        let to = lemma_trim_end(rest);
        assert(rest.take(to) =~= s.take(to));
        assert forall|i: int| to <= i < s.len() implies is_space(#[trigger] s[i]) by {
            if i < s.len() - 1 {
                assert(rest[i] == s[i]);
            }
        }
        to
    } else {
        assert(s.take(s.len() as int) =~= s);
        s.len() as int
    }
}

/// Trimming takes away white space at the ends and nothing else: what is left is
/// a stretch of the text with only white space around it, and begins and ends
/// with something else. So nothing is left exactly of a text that is all white
/// space.
pub proof fn law_trimming_takes_spaces_only(s: Seq<char>) -> (ends: (int, int))
    ensures
        0 <= ends.0 <= ends.1 <= s.len(),
        trimmed(s) == s.subrange(ends.0, ends.1),
        forall|i: int| 0 <= i < ends.0 || ends.1 <= i < s.len() ==> is_space(#[trigger] s[i]),
        ends.0 < ends.1 ==> !is_space(s[ends.0]) && !is_space(s[ends.1 - 1]),
        trimmed(s).len() == 0 <==> forall|i: int| 0 <= i < s.len() ==> is_space(#[trigger] s[i]),
{
    let from = lemma_trim_start(s);
    let rest = s.skip(from);
    let to = lemma_trim_end(rest);
    assert(rest.take(to) =~= s.subrange(from, from + to));
    assert forall|i: int| 0 <= i < from || from + to <= i < s.len() implies is_space(
        #[trigger] s[i],
    ) by {
        if i >= from + to {
            assert(rest[i - from] == s[i]);
        }
    }
    if to > 0 {
        assert(rest[to - 1] == s[from + to - 1]);
        assert(rest[0] == s[from]);
    }
    (from, from + to)
}

/// A pair of characters is found where it occurs first, and only where it occurs.
pub proof fn law_first_pair_is_found(s: Seq<char>, a: char, b: char)
    ensures
        find_pair(s, a, b) < 0 <==> forall|i: int|
            0 <= i < s.len() - 1 ==> !(#[trigger] s[i] == a && s[i + 1] == b),
        find_pair(s, a, b) >= 0 ==> find_pair(s, a, b) < s.len() - 1 && s[find_pair(s, a, b)] == a
            && s[find_pair(s, a, b) + 1] == b,
        forall|i: int|
            0 <= i < find_pair(s, a, b) ==> !(#[trigger] s[i] == a && s[i + 1] == b),
    decreases s.len(),
{
    if s.len() >= 2 && !(s[0] == a && s[1] == b) {
        let rest = s.drop_first();
        let found = find_pair(rest, a, b);
        law_first_pair_is_found(rest, a, b);
        assert forall|i: int| 1 <= i < s.len() - 1 implies (#[trigger] s[i] == rest[i - 1] && s[i
            + 1] == rest[i]) by {}
        if found < 0 {
            assert forall|i: int| 0 <= i < s.len() - 1 implies !(#[trigger] s[i] == a && s[i + 1]
                == b) by {
                if i > 0 {
                    assert(!(rest[i - 1] == a && rest[i - 1 + 1] == b));
                }
            }
        } else {
            assert(s[found + 1] == a && s[found + 2] == b);
            assert forall|i: int| 0 <= i < found + 1 implies !(#[trigger] s[i] == a && s[i + 1]
                == b) by {
                if i > 0 {
                    assert(!(rest[i - 1] == a && rest[i - 1 + 1] == b));
                }
            }
        }
    } else if s.len() >= 2 {
        assert(s[0] == a && s[0int + 1] == b);
    }
}

/// A text begins with every one of its own beginnings, and with nothing else.
pub proof fn law_beginnings(s: Seq<char>, prefix: Seq<char>)
    ensures
        has_prefix(prefix + s, prefix),
        has_prefix(s, prefix) ==> s == prefix + s.skip(prefix.len() as int),
{
    assert((prefix + s).take(prefix.len() as int) =~= prefix);
    if has_prefix(s, prefix) {
        assert(s =~= s.take(prefix.len() as int) + s.skip(prefix.len() as int));
    }
}

/// Lowering leaves the length and every character but the capitals from A to Z,
/// each of which becomes the letter 32 places on.
pub proof fn law_lowering_is_for_capitals(s: Seq<char>, i: int)
    requires
        0 <= i < s.len(),
    ensures
        lowered_ascii(s).len() == s.len(),
        65 <= s[i] as int <= 90 ==> lowered_ascii(s)[i] as int == s[i] as int + 32,
        !(65 <= s[i] as int <= 90) ==> lowered_ascii(s)[i] == s[i],
{
}

/// The last digit of a number in decimal is its remainder by ten, by the
/// character's number; the digits before it are the tenth part, where there is
/// one.
pub proof fn law_decimal_digits(n: nat)
    ensures
        decimal(n).len() > 0,
        decimal(n).last() as int == 48 + n % 10,
        n >= 10 ==> decimal(n).drop_last() == decimal(n / 10),
        n < 10 ==> decimal(n).len() == 1,
{
    if n >= 10 {
        assert(decimal(n).drop_last() =~= decimal(n / 10));
    }
}

/// A number is read from its decimal digits, with or without a sign and with any
/// zeros in front, as long as it fits into 64 bits; beyond that, nothing is read.
pub proof fn law_integers_are_read(n: nat)
    ensures
        parsed_i64(decimal(n)) == (if n <= 0x7fff_ffff_ffff_ffff {
            Some(n as i64)
        } else {
            None
        }),
        parsed_i64(seq!['+'] + decimal(n)) == (if n <= 0x7fff_ffff_ffff_ffff {
            Some(n as i64)
        } else {
            None
        }),
        parsed_i64(seq!['-'] + decimal(n)) == (if n <= 0x8000_0000_0000_0000 {
            Some((-(n as int)) as i64)
        } else {
            None
        }),
{
    law_decimal_reads_back(n);
    assert((seq!['+'] + decimal(n)).drop_first() =~= decimal(n));
    assert((seq!['-'] + decimal(n)).drop_first() =~= decimal(n));
    assert(!is_digit((seq!['+'] + decimal(n))[0]));
    assert(!is_digit((seq!['-'] + decimal(n))[0]));
}

proof fn lemma_leading_zero(s: Seq<char>)
    requires
        all_digits(s),
    ensures
        all_digits(seq!['0'] + s),
        digits_value(seq!['0'] + s) == digits_value(s),
    decreases s.len(),
{
    let longer = seq!['0'] + s;
    assert forall|i: int| 0 <= i < longer.len() implies is_digit(#[trigger] longer[i]) by {
        if i > 0 {
            assert(longer[i] == s[i - 1]);
        }
    }
    assert(longer.drop_last() =~= seq!['0'] + s.drop_last());
    if s.len() == 1 {
        assert(longer.drop_last() =~= seq!['0']);
        assert(seq!['0'].drop_last() =~= Seq::<char>::empty());
        assert(s.drop_last() =~= Seq::<char>::empty());
        reveal_with_fuel(digits_value, 3);
    } else {
        assert(all_digits(s.drop_last()));
        lemma_leading_zero(s.drop_last());
    }
}

/// Zeros in front of a number do not count.
pub proof fn law_leading_zeros_do_not_count(s: Seq<char>)
    requires
        s.len() > 0,
        forall|i: int| 0 <= i < s.len() ==> 48 <= (#[trigger] s[i]) as int <= 57,
    ensures
        parsed_i64(seq!['0'] + s) == parsed_i64(s),
{
    assert(all_digits(s));
    lemma_leading_zero(s);
}

/// Nothing but digits, behind one sign at most, is read as a number.
pub proof fn law_only_digits_are_read(s: Seq<char>, i: int)
    requires
        parsed_i64(s) is Some,
        0 <= i < s.len(),
    ensures
        48 <= s[i] as int <= 57 || i == 0 && (s[0] == '+' || s[0] == '-') && s.len() > 1,
        s.len() > 0,
{
    if !all_digits(s) {
        assert(all_digits(s.drop_first()));
        if i > 0 {
            assert(s.drop_first()[i - 1] == s[i]);
        }
    }
}

} // verus!
