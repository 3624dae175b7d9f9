//! Texts as the system takes and gives them: in units of sixteen bits, closed by a zero.

use vstd::prelude::*;

use crate::text::to_chars;

verus! {

/// The units that stand for a character: one, or a pair of surrogates.
pub open spec fn char_units(c: char) -> Seq<u16> {
    let n = c as u32;
    if n < 0x10000 {
        seq![n as u16]
    } else {
        seq![(0xd800 + (n - 0x10000) / 0x400) as u16, (0xdc00 + (n - 0x10000) % 0x400) as u16]
    }
}

/// The units that stand for a text.
pub open spec fn utf16(s: Seq<char>) -> Seq<u16>
    decreases s.len(),
{
    if s.len() == 0 {
        Seq::empty()
    } else {
        utf16(s.drop_last()) + char_units(s.last())
    }
}

fn push_units(v: &mut Vec<u16>, c: char)
    ensures
        final(v)@ == old(v)@ + char_units(c),
{
    let n = c as u32;
    if n < 0x10000 {
        v.push(n as u16);
    } else {
        let m: u32 = n - 0x10000;
        v.push((0xd800 + m / 0x400) as u16);
        v.push((0xdc00 + m % 0x400) as u16);
    }
    assert(v@ =~= old(v)@ + char_units(c));
}

/// The text in units of sixteen bits, closed by a zero.
pub fn to_wide(s: &str) -> (r: Vec<u16>)
    ensures
        r@ == utf16(s@).push(0u16),
{
    let chars = to_chars(s);
    let mut r: Vec<u16> = Vec::new();
    let mut i: usize = 0;
    while i < chars.len()
        invariant
            i <= chars@.len(),
            r@ == utf16(chars@.take(i as int)),
        decreases chars@.len() - i,
    {
        push_units(&mut r, chars[i]);
        i = i + 1;
        assert(chars@.take(i as int).drop_last() =~= chars@.take(i - 1));
    }
    assert(chars@.take(i as int) =~= chars@);
    r.push(0);
    r
}

/// Whether the unit is the first of a pair.
pub open spec fn is_high(u: u16) -> bool {
    0xd800 <= u < 0xdc00
}

/// Whether the unit is the second of a pair.
pub open spec fn is_low(u: u16) -> bool {
    0xdc00 <= u < 0xe000
}

/// The character that a pair stands for.
pub open spec fn pair_char(hi: u16, lo: u16) -> char {
    (0x10000 + (hi - 0xd800) * 0x400 + (lo - 0xdc00)) as char
}

/// How many units the first character of `units` takes.
pub open spec fn first_length(units: Seq<u16>) -> int {
    if is_high(units[0]) && units.len() > 1 && is_low(units[1]) {
        2
    } else {
        1
    }
}

/// The first character of `units`. A unit that stands for nothing becomes the replacement
/// character.
pub open spec fn first_char(units: Seq<u16>) -> char {
    if is_high(units[0]) && units.len() > 1 && is_low(units[1]) {
        pair_char(units[0], units[1])
    } else if is_high(units[0]) || is_low(units[0]) {
        '\u{FFFD}'
    } else {
        units[0] as char
    }
}

/// The text that `units` stand for.
pub open spec fn from_utf16(units: Seq<u16>) -> Seq<char>
    decreases units.len(),
{
    if units.len() == 0 {
        Seq::empty()
    } else {
        seq![first_char(units)] + from_utf16(units.skip(first_length(units)))
    }
}

/// `char::from_u32` gives the character with the given number: none is a surrogate, and none has
/// a number above 10FFFF.
pub assume_specification[ char::from_u32 ](n: u32) -> (r: Option<char>)
    ensures
        r == (if n < 0xd800 || 0xe000 <= n <= 0x10ffff {
            Some(n as char)
        } else {
            None
        }),
;

fn char_from(n: u32) -> (r: char)
    requires
        n < 0xd800 || 0xe000 <= n <= 0x10ffff,
    ensures
        r == n as char,
{
    match char::from_u32(n) {
        Some(c) => c,
        None => '\u{FFFD}',
    }
}

/// The text that the units from the start to `end` stand for.
pub fn decode_utf16(units: &Vec<u16>, end: usize) -> (r: String)
    requires
        end <= units@.len(),
    ensures
        r@ == from_utf16(units@.take(end as int)),
{
    let ghost all = units@.take(end as int);
    let mut r = String::new();
    let mut i: usize = 0;
    assert(all.skip(0) =~= all);
    while i < end
        invariant
            i <= end,
            end <= units@.len(),
            all == units@.take(end as int),
            from_utf16(all) == r@ + from_utf16(all.skip(i as int)),
        decreases end - i,
    {
        let u = units[i];
        let ghost rest = all.skip(i as int);
        let ghost before = r@;
        assert(rest[0] == u);
        if 0xd800 <= u && u < 0xdc00 && i + 1 < end && 0xdc00 <= units[i + 1] && units[i + 1]
            < 0xe000 {
            let lo = units[i + 1];
            assert(rest[1] == lo);
            let n: u32 = 0x10000 + (u as u32 - 0xd800) * 0x400 + (lo as u32 - 0xdc00);
            r.push(char_from(n));
            assert(rest.skip(2) =~= all.skip(i + 2));
            assert(before + from_utf16(rest) =~= r@ + from_utf16(all.skip(i + 2)));
            i = i + 2;
        } else {
            if 0xd800 <= u && u < 0xe000 {
                r.push('\u{FFFD}');
            } else {
                r.push(char_from(u as u32));
            }
            assert(rest.skip(1) =~= all.skip(i + 1));
            assert(before + from_utf16(rest) =~= r@ + from_utf16(all.skip(i + 1)));
            i = i + 1;
        }
    }
    assert(all.skip(i as int) =~= Seq::empty());
    r
}

proof fn units_of_char_read_back(c: char, rest: Seq<u16>)
    ensures
        from_utf16(char_units(c) + rest) == seq![c] + from_utf16(rest),
{
    let n = c as u32;
    let all = char_units(c) + rest;
    if n < 0x10000 {
        assert(all.skip(1) =~= rest);
    } else {
        assert(all.skip(2) =~= rest);
        let m = n - 0x10000;
        assert(m == (m / 0x400) * 0x400 + m % 0x400);
        assert(0 <= m / 0x400 < 0x400);
        assert(pair_char(all[0], all[1]) == c);
    }
}

/// The units that stand for a text, read as a text, give that text.
pub proof fn utf16_reads_back(s: Seq<char>)
    ensures
        from_utf16(utf16(s)) == s,
{
    units_before_read_back(s, Seq::empty());
    assert(utf16(s) + Seq::<u16>::empty() =~= utf16(s));
    assert(s + Seq::<char>::empty() =~= s);
}

proof fn units_before_read_back(s: Seq<char>, rest: Seq<u16>)
    ensures
        from_utf16(utf16(s) + rest) == s + from_utf16(rest),
    decreases s.len(),
{
    if s.len() == 0 {
        assert(utf16(s) + rest =~= rest);
        assert(s + from_utf16(rest) =~= from_utf16(rest));
    } else {
        let u = char_units(s.last());
        units_before_read_back(s.drop_last(), u + rest);
        units_of_char_read_back(s.last(), rest);
        assert(utf16(s) + rest =~= utf16(s.drop_last()) + (u + rest));
        assert(s.drop_last() + (seq![s.last()] + from_utf16(rest)) =~= s + from_utf16(rest));
    }
}

/// Where the first zero stands, or the end.
pub open spec fn end_of_units(units: Seq<u16>) -> int
    decreases units.len(),
{
    if units.len() == 0 || units[0] == 0 {
        0
    } else {
        1 + end_of_units(units.skip(1))
    }
}

/// The units before the first zero.
pub open spec fn before_zero(units: Seq<u16>) -> Seq<u16> {
    units.take(end_of_units(units))
}

/// Where the first zero stands, or the end.
pub fn find_zero(units: &Vec<u16>) -> (r: usize)
    ensures
        r == end_of_units(units@),
        r <= units@.len(),
{
    let mut i: usize = 0;
    assert(units@.skip(0) =~= units@);
    while i < units.len() && units[i] != 0
        invariant
            i <= units@.len(),
            end_of_units(units@) == i + end_of_units(units@.skip(i as int)),
        decreases units@.len() - i,
    {
        assert(units@.skip(i as int).skip(1) =~= units@.skip(i + 1));
        i = i + 1;
    }
    i
}

/// Whether every surrogate among the units is one of a pair.
pub open spec fn paired(units: Seq<u16>) -> bool
    decreases units.len(),
{
    if units.len() == 0 {
        true
    } else if is_high(units[0]) {
        units.len() > 1 && is_low(units[1]) && paired(units.skip(2))
    } else {
        !is_low(units[0]) && paired(units.skip(1))
    }
}

/// Whether every surrogate among the units before `end` is one of a pair.
pub fn all_paired(units: &Vec<u16>, end: usize) -> (r: bool)
    requires
        end <= units@.len(),
    ensures
        r == paired(units@.take(end as int)),
{
    let ghost all = units@.take(end as int);
    let mut i: usize = 0;
    assert(all.skip(0) =~= all);
    while i < end
        invariant
            i <= end,
            end <= units@.len(),
            all == units@.take(end as int),
            paired(all) == paired(all.skip(i as int)),
        decreases end - i,
    {
        let u = units[i];
        let ghost rest = all.skip(i as int);
        assert(rest[0] == u);
        if 0xd800 <= u && u < 0xdc00 {
            if !(i + 1 < end && 0xdc00 <= units[i + 1] && units[i + 1] < 0xe000) {
                return false;
            }
            assert(rest[1] == units@[i + 1]);
            assert(rest.skip(2) =~= all.skip(i + 2));
            i = i + 2;
        } else {
            if 0xdc00 <= u && u < 0xe000 {
                return false;
            }
            assert(rest.skip(1) =~= all.skip(i + 1));
            i = i + 1;
        }
    }
    true
}

} // verus!
