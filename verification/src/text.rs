//! Text, as sequences of characters: searching, comparing, and writing numbers.

use vstd::prelude::*;

verus! {

/// `needle` stands in `hay` from position `i` on.
pub open spec fn occurs_at(needle: Seq<char>, hay: Seq<char>, i: int) -> bool {
    0 <= i && i + needle.len() <= hay.len() && hay.subrange(i, i + needle.len()) == needle
}

/// `needle` stands somewhere in `hay`.
pub open spec fn occurs(needle: Seq<char>, hay: Seq<char>) -> bool {
    exists|i: int| occurs_at(needle, hay, i)
}

/// `s` begins with `prefix`.
pub open spec fn begins_with(s: Seq<char>, prefix: Seq<char>) -> bool {
    occurs_at(prefix, s, 0)
}

/// An ASCII capital's small letter; every other character is its own.
pub open spec fn lower_char(c: char) -> char {
    if 'A' <= c <= 'Z' {
        (c as u8 + 32) as char
    } else {
        c
    }
}

/// The text with its ASCII capitals made small.
pub open spec fn lower(s: Seq<char>) -> Seq<char> {
    s.map_values(|c: char| lower_char(c))
}

/// The characters with the Unicode property `White_Space`.
pub open spec fn white_space(c: char) -> bool {
    ||| 0x9 <= c as u32 <= 0xD
    ||| c as u32 == 0x20
    ||| c as u32 == 0x85
    ||| c as u32 == 0xA0
    ||| c as u32 == 0x1680
    ||| 0x2000 <= c as u32 <= 0x200A
    ||| c as u32 == 0x2028
    ||| c as u32 == 0x2029
    ||| c as u32 == 0x202F
    ||| c as u32 == 0x205F
    ||| c as u32 == 0x3000
}

/// Nothing is left of the text once white space is trimmed off its ends.
pub open spec fn blank(s: Seq<char>) -> bool {
    forall|i: int| 0 <= i < s.len() ==> white_space(#[trigger] s[i])
}

/// The decimal digit of a number below ten.
pub open spec fn digit(d: nat) -> char {
    ('0' as u32 + d) as char
}

/// The decimal numeral of `n`, without leading zeros.
pub open spec fn numeral(n: nat) -> Seq<char>
    decreases n,
{
    if n < 10 {
        seq![digit(n)]
    } else {
        numeral(n / 10).push(digit(n % 10))
    }
}

/// The characters of a text.
pub fn chars_of(s: &str) -> (r: Vec<char>)
    ensures
        r@ == s@,
{
    let mut r: Vec<char> = Vec::new();
    for c in it: s.chars()
        invariant
            r@.len() == it.index(),
            it.seq() == s@,
            forall|k: int| 0 <= k < r@.len() ==> r@[k] == s@[k],
    {
        r.push(c);
    }
    assert(r@ =~= s@);
    r
}

/// The characters of a text, ASCII capitals made small.
pub fn lower_chars(s: &str) -> (r: Vec<char>)
    ensures
        r@ == lower(s@),
{
    let chars = chars_of(s);
    let mut r: Vec<char> = Vec::new();
    let mut i: usize = 0;
    while i < chars.len()
        invariant
            i <= chars.len(),
            chars@ == s@,
            r@ == lower(s@.take(i as int)),
        decreases chars.len() - i,
    {
        let c = chars[i];
        if 'A' <= c && c <= 'Z' {
            r.push((c as u8 + 32) as char);
        } else {
            r.push(c);
        }
        i += 1;
        assert(r@ =~= lower(s@.take(i as int)));
    }
    assert(s@.take(i as int) =~= s@);
    r
}

/// Whether `needle` stands in `hay` from position `at` on.
fn stands_at(hay: &Vec<char>, needle: &Vec<char>, at: usize) -> (r: bool)
    requires
        at <= hay.len(),
    ensures
        r == occurs_at(needle@, hay@, at as int),
{
    if hay.len() - at < needle.len() {
        return false;
    }
    let mut i: usize = 0;
    while i < needle.len()
        invariant
            i <= needle.len(),
            at + needle.len() <= hay.len(),
            forall|k: int| 0 <= k < i ==> needle@[k] == hay@[at + k],
        decreases needle.len() - i,
    {
        if needle[i] != hay[at + i] {
            assert(hay@.subrange(at as int, at + needle@.len())[i as int] != needle@[i as int]);
            return false;
        }
        i += 1;
    }
    assert(hay@.subrange(at as int, at + needle@.len()) =~= needle@);
    true
}

/// Whether `needle` stands somewhere in `hay`.
pub fn contains(hay: &Vec<char>, needle: &str) -> (r: bool)
    ensures
        r == occurs(needle@, hay@),
{
    let needle_chars = chars_of(needle);
    let mut i: usize = 0;
    while i <= hay.len()
        invariant
            i <= hay.len() + 1,
            needle_chars@ == needle@,
            forall|k: int| 0 <= k < i ==> !occurs_at(needle@, hay@, k),
        decreases hay.len() + 1 - i,
    {
        if stands_at(hay, &needle_chars, i) {
            return true;
        }
        if i == hay.len() {
            assert forall|k: int| !occurs_at(needle@, hay@, k) by {}
            return false;
        }
        i += 1;
    }
    false
}

/// Whether `s` begins with `prefix`.
pub fn starts_with(s: &str, prefix: &str) -> (r: bool)
    ensures
        r == begins_with(s@, prefix@),
{
    stands_at(&chars_of(s), &chars_of(prefix), 0)
}

fn same_chars(a: &Vec<char>, b: &Vec<char>) -> (r: bool)
    ensures
        r == (a@ == b@),
{
    if a.len() != b.len() {
        return false;
    }
    let r = stands_at(a, b, 0);
    assert(a@.subrange(0, a@.len() as int) =~= a@);
    r
}

/// Whether two texts are the same.
pub fn same(a: &str, b: &str) -> (r: bool)
    ensures
        r == (a@ == b@),
{
    same_chars(&chars_of(a), &chars_of(b))
}

/// Whether two texts are the same but for the case of ASCII letters.
pub fn same_ignoring_case(a: &str, b: &str) -> (r: bool)
    ensures
        r == (lower(a@) == lower(b@)),
{
    same_chars(&lower_chars(a), &lower_chars(b))
}

/// Whether a character has the Unicode property `White_Space`.
pub fn is_white_space(c: char) -> (r: bool)
    ensures
        r == white_space(c),
{
    let n: u32 = c as u32;
    (0x9 <= n && n <= 0xD) || n == 0x20 || n == 0x85 || n == 0xA0 || n == 0x1680 || (0x2000 <= n && n
        <= 0x200A) || n == 0x2028 || n == 0x2029 || n == 0x202F || n == 0x205F || n == 0x3000
}

/// Whether a text is empty or white space throughout.
pub fn is_blank(s: &str) -> (r: bool)
    ensures
        r == blank(s@),
{
    let chars = chars_of(s);
    let mut i: usize = 0;
    while i < chars.len()
        invariant
            i <= chars.len(),
            chars@ == s@,
            forall|k: int| 0 <= k < i ==> white_space(#[trigger] s@[k]),
        decreases chars.len() - i,
    {
        if !is_white_space(chars[i]) {
            return false;
        }
        i += 1;
    }
    true
}

fn digit_text(d: u8) -> (r: &'static str)
    requires
        d < 10,
    ensures
        r@ == seq![digit(d as nat)],
{
    proof {
        reveal_strlit("0");
        reveal_strlit("1");
        reveal_strlit("2");
        reveal_strlit("3");
        reveal_strlit("4");
        reveal_strlit("5");
        reveal_strlit("6");
        reveal_strlit("7");
        reveal_strlit("8");
        reveal_strlit("9");
    }
    match d {
        0 => "0",
        1 => "1",
        2 => "2",
        3 => "3",
        4 => "4",
        5 => "5",
        6 => "6",
        7 => "7",
        8 => "8",
        _ => "9",
    }
}

/// The decimal numeral of a number.
pub fn decimal(n: u128) -> (r: String)
    ensures
        r@ == numeral(n as nat),
    decreases n,
{
    let last = digit_text((n % 10) as u8);
    if n < 10 {
        last.to_owned()
    } else {
        decimal(n / 10).concat(last)
    }
}

/// Two texts, one after the other.
pub fn join(a: &str, b: &str) -> (r: String)
    ensures
        r@ == a@ + b@,
{
    a.to_owned().concat(b)
}

/// A text stands in another exactly where that other is something, the text, and
/// something more.
pub proof fn law_occurs(needle: Seq<char>, hay: Seq<char>)
    ensures
        occurs(needle, hay) <==> exists|a: Seq<char>, b: Seq<char>| hay == #[trigger] (a + needle + b),
{
    if occurs(needle, hay) {
        let i = choose|i: int| occurs_at(needle, hay, i);
        let a = hay.take(i);
        let b = hay.skip(i + needle.len());
        assert(hay =~= a + needle + b) by {
            assert forall|k: int| 0 <= k < hay.len() implies hay[k] == (a + needle + b)[k] by {
                if i <= k < i + needle.len() {
                    assert(hay.subrange(i, i + needle.len())[k - i] == hay[k]);
                }
            }
        }
    }
    if exists|a: Seq<char>, b: Seq<char>| hay == #[trigger] (a + needle + b) {
        let (a, b) = choose|a: Seq<char>, b: Seq<char>| hay == #[trigger] (a + needle + b);
        assert(hay.subrange(a.len() as int, (a.len() + needle.len()) as int) =~= needle);
        assert(occurs_at(needle, hay, a.len() as int));
    }
}

/// A text begins with another exactly where it is that other and something more.
pub proof fn law_begins_with(s: Seq<char>, prefix: Seq<char>)
    ensures
        begins_with(s, prefix) <==> exists|rest: Seq<char>| s == #[trigger] (prefix + rest),
{
    if begins_with(s, prefix) {
        let rest = s.skip(prefix.len() as int);
        assert(s =~= prefix + rest) by {
            assert forall|k: int| 0 <= k < s.len() implies s[k] == (prefix + rest)[k] by {
                if k < prefix.len() {
                    assert(s.subrange(0, prefix.len() as int)[k] == s[k]);
                }
            }
        }
    }
    if exists|rest: Seq<char>| s == #[trigger] (prefix + rest) {
        let rest = choose|rest: Seq<char>| s == #[trigger] (prefix + rest);
        assert(s.subrange(0, prefix.len() as int) =~= prefix);
    }
}

/// Making a text small changes each ASCII capital to the letter 32 codes on, and nothing
/// else.
pub proof fn law_lower(s: Seq<char>)
    ensures
        lower(s).len() == s.len(),
        forall|i: int|
            0 <= i < s.len() ==> {
                let (from, to) = (s[i] as int, (#[trigger] lower(s)[i]) as int);
                if 65 <= from <= 90 {
                    to == from + 32
                } else {
                    to == from
                }
            },
{
}

/// The white space of ASCII, and that of the rest of Unicode.
pub proof fn law_white_space(c: char)
    ensures
        c as int <= 0x7F ==> (white_space(c) <==> c == ' ' || c == '\t' || c == '\n' || c == '\r'
            || c as int == 0xB || c as int == 0xC),
        c as int > 0x7F ==> (white_space(c) <==> seq![
            0x85int, 0xA0, 0x1680, 0x2000, 0x2001, 0x2002, 0x2003, 0x2004, 0x2005, 0x2006, 0x2007,
            0x2008, 0x2009, 0x200A, 0x2028, 0x2029, 0x202F, 0x205F, 0x3000,
        ].contains(c as int)),
{
    let wide = seq![
        0x85int, 0xA0, 0x1680, 0x2000, 0x2001, 0x2002, 0x2003, 0x2004, 0x2005, 0x2006, 0x2007,
        0x2008, 0x2009, 0x200A, 0x2028, 0x2029, 0x202F, 0x205F, 0x3000,
    ];
    assert(wide[0] == 0x85 && wide[1] == 0xA0 && wide[2] == 0x1680 && wide[3] == 0x2000 && wide[4]
        == 0x2001 && wide[5] == 0x2002 && wide[6] == 0x2003 && wide[7] == 0x2004 && wide[8] == 0x2005
        && wide[9] == 0x2006 && wide[10] == 0x2007 && wide[11] == 0x2008 && wide[12] == 0x2009
        && wide[13] == 0x200A && wide[14] == 0x2028 && wide[15] == 0x2029 && wide[16] == 0x202F
        && wide[17] == 0x205F && wide[18] == 0x3000);
    assert(wide.len() == 19);
}

/// A text is blank exactly where each of its characters is white space.
pub proof fn law_blank(a: Seq<char>, c: char)
    ensures
        blank(Seq::empty()),
        blank(a.push(c)) <==> blank(a) && white_space(c),
{
    if blank(a.push(c)) {
        assert forall|i: int| 0 <= i < a.len() implies white_space(#[trigger] a[i]) by {
            assert(a.push(c)[i] == a[i]);
        }
        assert(a.push(c)[a.len() as int] == c);
    }
}

/// The number that decimal digits are.
pub open spec fn numeral_value(digits: Seq<char>) -> int
    decreases digits.len(),
{
    if digits.len() == 0 {
        0
    } else {
        10 * numeral_value(digits.drop_last()) + (digits.last() as int - 48)
    }
}

/// A numeral is made of digits, says its number, and has no zero in front but for zero
/// itself.
pub proof fn law_numeral(n: nat)
    ensures
        numeral(n).len() > 0,
        forall|i: int| 0 <= i < numeral(n).len() ==> 48 <= (#[trigger] numeral(n)[i]) as int <= 57,
        numeral_value(numeral(n)) == n,
        numeral(n)[0] as int == 48 ==> n == 0,
    decreases n,
{
    reveal_with_fuel(numeral_value, 2);
    if n < 10 {
        assert(numeral(n).drop_last() =~= Seq::empty());
    } else {
        law_numeral(n / 10);
        assert(numeral(n).drop_last() =~= numeral(n / 10));
        assert(numeral(n)[0] == numeral(n / 10)[0]);
    }
}

} // verus!
