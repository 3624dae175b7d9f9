//! What the smallest functions on texts and numbers do, whatever they are given: prefixes, letters
//! of either case, hexadecimal digits, and texts in units of sixteen bits.

use vstd::prelude::*;

use crate::links::{
    parse_internet_shortcut_url, resolve_windows_shortcut_target, shortcut_url_in_text,
};
use crate::numbers::{
    clamp_i32, larger_i32, parse_hex_pair, saturate_i32, signed_to_text, smaller_i32,
    unsigned_to_text,
};
use crate::ordering::{comes_before, text_before};
use crate::text::{
    copy_opt, copy_texts, find_chars, has_prefix, is_blank, is_white_space, list_has, place_of,
    same_chars, same_ignoring_ascii_case, same_text, strip_prefix, to_ascii_lower, to_ascii_upper,
    trimmed_start, utf8_text,
};
use crate::text_laws::{
    beginning_means_followed, leading_white_space_is_taken, stands_between_space, trimmed_part,
};
use crate::utf16::{
    all_paired, char_units, decode_utf16, end_of_units, find_zero, from_utf16, is_high, is_low,
    paired, to_wide, utf16, utf16_reads_back,
};
use crate::web::{begins_like_web, is_web_address, is_web_scheme, parsed_url};

verus! {

// ---------------------------------------------------------------------------------------------
// Texts
// ---------------------------------------------------------------------------------------------

/// White space is, of the ASCII characters, the blank and those from tab to carriage return, and
/// beyond them seventeen more, the full-width blank among them.
pub proof fn white_space_is_told(c: char)
    ensures
        c as u32 <= 127 ==> (is_white_space(c) <==> c as u32 == 32 || 9 <= c as u32 <= 13),
        c as u32 > 127 ==> (is_white_space(c) <==> c as u32 == 0x85 || c as u32 == 0xa0 || c as u32
            == 0x1680 || 0x2000 <= c as u32 <= 0x200a || c as u32 == 0x2028 || c as u32 == 0x2029
            || c as u32 == 0x202f || c as u32 == 0x205f || c as u32 == 0x3000),
{
}

/// Texts are the same where they hold the same characters; copies are what was copied.
pub proof fn same_texts_hold_the_same(
    a: &str,
    b: &str,
    r: bool,
    x: &Vec<char>,
    y: &Vec<char>,
    s: bool,
    list: &Vec<String>,
    copies: Vec<String>,
    o: &Option<String>,
    copied: Option<String>,
)
    requires
        call_ensures(same_text, (a, b), r),
        call_ensures(same_chars, (x, y), s),
        call_ensures(copy_texts, (list,), copies),
        call_ensures(copy_opt, (o,), copied),
    ensures
        r <==> a@ == b@,
        s <==> x@ == y@,
        copies@ == list@,
        copied == *o,
{
}

/// A text begins with another just where it is the other and something more; what follows is what
/// is left without it.
pub proof fn prefix_and_what_follows(s: &str, p: &str, r: bool, rest: Option<String>, t: Seq<char>)
    requires
        call_ensures(has_prefix, (s, p), r),
        call_ensures(strip_prefix, (s, p), rest),
    ensures
        r <==> rest is Some,
        s@ == p@ + t ==> r && rest->0@ == t,
        rest is Some ==> s@ == p@ + rest->0@,
{
    beginning_means_followed(s@, p@);
    if s@ == p@ + t {
        crate::text::prefix_then_rest(p@, t);
    }
    if rest is Some {
        let u = choose|u: Seq<char>| s@ == #[trigger] (p@ + u);
        crate::text::prefix_then_rest(p@, u);
    }
}

/// A text is blank where every character of it is white space; without its leading white space it
/// begins with the first character that is none.
pub proof fn blank_and_leading_space(s: &str, r: bool, t: String, n: int)
    requires
        call_ensures(is_blank, (s,), r),
        call_ensures(trimmed_start, (s,), t),
        0 <= n <= s@.len(),
        forall|i: int| 0 <= i < n ==> is_white_space(#[trigger] s@[i]),
        n < s@.len() ==> !is_white_space(s@[n]),
    ensures
        r <==> n == s@.len(),
        t@ == s@.subrange(n, s@.len() as int),
{
    let m = leading_white_space_is_taken(s@);
    assert(m == n) by {
        if m < n {
            assert(is_white_space(s@[m]));
        }
        if n < m {
            assert(is_white_space(s@[n]));
        }
    }
    let (a, b) = crate::text_laws::trim_lies_between(s@);
    let q = crate::text::trim(s@);
    if n == s@.len() {
        if q.len() > 0 {
            assert(q[0] == s@[a]);
        }
    } else if q.len() == 0 {
        if n < a {
            assert(is_white_space(s@[n]));
        } else {
            assert(is_white_space(s@[n]));
        }
    }
}

/// The first place at which a text stands in another is found, and no other; where it stands
/// nowhere, none.
pub proof fn first_place_is_found(
    v: &Vec<char>,
    p: &Vec<char>,
    r: Option<usize>,
    s: Option<usize>,
    i: int,
)
    requires
        call_ensures(find_chars, (v, p), r),
        call_ensures(place_of, (v, p), s),
        p@.len() > 0,
    ensures
        r matches Some(k) ==> k + p@.len() <= v@.len() && v@.subrange(k as int, k + p@.len()) == p@,
        0 <= i && i + p@.len() <= v@.len() && v@.subrange(i, i + p@.len()) == p@ ==> r is Some && r->0
            <= i && s is Some && s->0 <= i,
        s matches Some(k) ==> k + p@.len() <= v@.len() && v@.subrange(k as int, k + p@.len()) == p@,
{
    if 0 <= i && i + p@.len() <= v@.len() && v@.subrange(i, i + p@.len()) == p@ {
        assert(crate::text::occurs_at(v@, p@, i));
        found_no_later(v@, p@, 0, i);
    }
}

proof fn found_no_later(s: Seq<char>, p: Seq<char>, from: int, i: int)
    requires
        0 <= from <= i,
        p.len() > 0,
        crate::text::occurs_at(s, p, i),
    ensures
        crate::text::found_from(s, p, from) is Some,
        crate::text::found_from(s, p, from)->0 <= i,
    decreases i - from,
{
    if !crate::text::occurs_at(s, p, from) {
        found_no_later(s, p, from + 1, i);
    }
}

/// Letters of ASCII are brought to the other case by 32, and nothing else is changed. Texts are the
/// same but for the case of such letters where they are as long and alike at each place.
pub proof fn case_differs_by_32(
    c: char,
    low: char,
    high: char,
    a: &str,
    b: &str,
    r: bool,
)
    requires
        call_ensures(to_ascii_lower, (c,), low),
        call_ensures(to_ascii_upper, (c,), high),
        call_ensures(same_ignoring_ascii_case, (a, b), r),
    ensures
        65 <= c as u32 <= 90 ==> low as u32 == c as u32 + 32,
        !(65 <= c as u32 <= 90) ==> low == c,
        97 <= c as u32 <= 122 ==> high as u32 + 32 == c as u32,
        !(97 <= c as u32 <= 122) ==> high == c,
        r <==> a@.len() == b@.len() && forall|i: int|
            0 <= i < a@.len() ==> same_letter(#[trigger] a@[i], b@[i]),
{
    let x = crate::text::ascii_lowercase(a@);
    let y = crate::text::ascii_lowercase(b@);
    assert(x.len() == a@.len() && y.len() == b@.len());
    if r {
        assert forall|i: int| 0 <= i < a@.len() implies same_letter(#[trigger] a@[i], b@[i]) by {
            assert(x[i] == y[i]);
        }
    }
    if a@.len() == b@.len() && forall|i: int|
        0 <= i < a@.len() ==> same_letter(#[trigger] a@[i], b@[i]) {
        assert forall|i: int| 0 <= i < x.len() implies x[i] == y[i] by {
            assert(same_letter(a@[i], b@[i]));
        }
        assert(x =~= y);
    }
}

/// Whether two characters are the same, or one ASCII letter in its two cases.
pub open spec fn same_letter(x: char, y: char) -> bool {
    ||| x == y
    ||| 65 <= x as u32 <= 90 && y as u32 == x as u32 + 32
    ||| 65 <= y as u32 <= 90 && x as u32 == y as u32 + 32
}

/// A text is in a list just where it stands at some place of it.
pub proof fn list_holds_text(list: &Vec<String>, s: &str, r: bool)
    requires
        call_ensures(list_has, (list, s), r),
    ensures
        r <==> exists|i: int| 0 <= i < list@.len() && (#[trigger] list@[i])@ == s@,
{
    let t = crate::text::texts(list@);
    if r {
        let i = choose|i: int| 0 <= i < t.len() && t[i] == s@;
        assert(list@[i]@ == s@);
    }
    if exists|i: int| 0 <= i < list@.len() && (#[trigger] list@[i])@ == s@ {
        let i = choose|i: int| 0 <= i < list@.len() && (#[trigger] list@[i])@ == s@;
        assert(t[i] == s@);
    }
}

/// Of two texts at most one comes before the other, and one does unless they are the same.
pub proof fn texts_come_one_after_another(a: &str, b: &str, r: bool, s: bool)
    requires
        call_ensures(comes_before, (a, b), r),
        call_ensures(comes_before, (b, a), s),
    ensures
        !(r && s),
        !r && !s <==> a@ == b@,
        r == text_before(a@, b@),
{
    crate::ordering::text_order_is_total(a@, b@);
}

// ---------------------------------------------------------------------------------------------
// Numbers
// ---------------------------------------------------------------------------------------------

/// The value of a hexadecimal digit: from `0` to `9`, and from `a` to `f` in either case.
pub open spec fn hex_digit_of(b: u8, v: int) -> bool {
    ||| 0 <= v <= 9 && b == 48 + v
    ||| 10 <= v <= 15 && (b == 55 + v || b == 87 + v)
}

/// Two hexadecimal digits, or a plus sign and one, are read as their number; anything else is none.
pub proof fn hexadecimal_digits_are_read(hi: u8, lo: u8, r: Option<u8>, h: int, l: int)
    requires
        call_ensures(parse_hex_pair, (hi, lo), r),
    ensures
        hex_digit_of(hi, h) && hex_digit_of(lo, l) ==> r is Some && r->0 == 16 * h + l,
        hi == 43 && hex_digit_of(lo, l) ==> r is Some && r->0 == l,
        r is Some ==> (exists|v: int| #[trigger] hex_digit_of(lo, v)) && (hi == 43 || exists|v: int|
         #[trigger] hex_digit_of(hi, v)),
{
    if r is Some {
        assert(hex_digit_of(lo, crate::numbers::hex_value(lo)->0));
        if hi != 43 {
            assert(hex_digit_of(hi, crate::numbers::hex_value(hi)->0));
        }
    }
}

/// A number is written with a minus sign before its digits where it is negative.
pub proof fn minus_sign_stands_first(n: i64, r: String, m: u128, s: String)
    requires
        call_ensures(signed_to_text, (n,), r),
        call_ensures(unsigned_to_text, (m,), s),
    ensures
        n >= 0 && m == n ==> r@ == s@,
        n < 0 && m == -n ==> r@ == seq!['-'] + s@,
{
    reveal_strlit("-");
    assert("-"@ =~= seq!['-']);
}

/// The larger, the smaller, the nearest within bounds, and the nearest that fits.
pub proof fn nearest_numbers(
    a: i32,
    b: i32,
    big: i32,
    small: i32,
    n: i32,
    lo: i32,
    hi: i32,
    held: i32,
    m: i64,
    fit: i32,
)
    requires
        call_ensures(larger_i32, (a, b), big),
        call_ensures(smaller_i32, (a, b), small),
        lo <= hi,
        call_ensures(clamp_i32, (n, lo, hi), held),
        call_ensures(saturate_i32, (m,), fit),
    ensures
        big >= a && big >= b && (big == a || big == b),
        small <= a && small <= b && (small == a || small == b),
        lo <= held <= hi && (lo <= n <= hi ==> held == n),
        n < lo ==> held == lo,
        n > hi ==> held == hi,
        i32::MIN <= m <= i32::MAX ==> fit == m,
        m > i32::MAX ==> fit == i32::MAX,
        m < i32::MIN ==> fit == i32::MIN,
{
}

// ---------------------------------------------------------------------------------------------
// Units of sixteen bits
// ---------------------------------------------------------------------------------------------

/// A text is written character after character. One of at most sixteen bits is its own unit; any
/// other is a pair of surrogates, the first with the upper ten bits of what is over sixteen, the
/// second with the lower ten. A zero closes the text.
pub proof fn text_is_written_in_units(
    s: &str,
    r: Vec<u16>,
    c: char,
    longer: &str,
    t: Vec<u16>,
)
    requires
        call_ensures(to_wide, (s,), r),
        call_ensures(to_wide, (longer,), t),
        longer@ == s@.push(c),
    ensures
        s@.len() == 0 ==> r@ == seq![0u16],
        r@.last() == 0 && t@.last() == 0,
        t@.subrange(0, r@.len() - 1) == r@.drop_last(),
        (c as u32) < 0x10000 ==> t@.len() == r@.len() + 1 && t@[r@.len() - 1] == c as u32,
        c as u32 >= 0x10000 ==> {
            &&& t@.len() == r@.len() + 2
            &&& 0xd800 <= t@[r@.len() - 1] < 0xdc00
            &&& 0xdc00 <= t@[r@.len() as int] < 0xe000
            &&& 0x10000 + (t@[r@.len() - 1] - 0xd800) * 0x400 + (t@[r@.len() as int] - 0xdc00)
                == c as u32
        },
{
    let l = longer@;
    assert(l.drop_last() =~= s@);
    assert(l.last() == c);
    assert(utf16(l) == utf16(s@) + char_units(c));
    assert(t@.subrange(0, r@.len() - 1) =~= r@.drop_last());
}

/// A text that was written is read back.
pub proof fn written_text_is_read_back(s: &str, r: Vec<u16>, units: &Vec<u16>, end: usize, back: String)
    requires
        call_ensures(to_wide, (s,), r),
        units@ == r@,
        end == units@.len() - 1,
        call_ensures(decode_utf16, (units, end), back),
    ensures
        back@ == s@,
{
    assert(units@.take(end as int) =~= utf16(s@));
    utf16_reads_back(s@);
}

/// Units are read one after another: a surrogate that is not one of a pair is read as the
/// replacement character.
pub proof fn lone_surrogate_is_replaced(
    units: &Vec<u16>,
    end: usize,
    r: String,
    rest: &Vec<u16>,
    rest_end: usize,
    s: String,
)
    requires
        call_ensures(decode_utf16, (units, end), r),
        call_ensures(decode_utf16, (rest, rest_end), s),
        0 < end <= units@.len(),
        rest_end <= rest@.len(),
    ensures
        ({
            let u = units@[0];
            let pair = 0xd800 <= u < 0xdc00 && end > 1 && 0xdc00 <= units@[1] < 0xe000;
            let alone = rest@.take(rest_end as int) == units@.subrange(1, end as int);
            &&& !pair && 0xd800 <= u < 0xe000 && alone ==> r@ == seq!['\u{FFFD}'] + s@
            &&& !(0xd800 <= u < 0xe000) && alone ==> r@ == seq![u as char] + s@
            &&& pair && rest@.take(rest_end as int) == units@.subrange(2, end as int) ==> r@.len()
                == s@.len() + 1 && r@[0] as u32 == 0x10000 + (u - 0xd800) * 0x400 + (units@[1]
                - 0xdc00) && r@.skip(1) == s@
        }),
        end == 0 ==> r@.len() == 0,
{
    let all = units@.take(end as int);
    assert(all[0] == units@[0]);
    assert(all.skip(1) =~= units@.subrange(1, end as int));
    if end > 1 {
        assert(all[1] == units@[1]);
        assert(all.skip(2) =~= units@.subrange(2, end as int));
    }
    let tail = from_utf16(all.skip(crate::utf16::first_length(all)));
    assert(r@ =~= seq![crate::utf16::first_char(all)] + tail);
    assert(r@.skip(1) =~= tail);
}

/// The units end at the first zero, or where the list does.
pub proof fn first_zero_ends_units(units: &Vec<u16>, r: usize, i: int)
    requires
        call_ensures(find_zero, (units,), r),
    ensures
        r <= units@.len(),
        r < units@.len() ==> units@[r as int] == 0,
        0 <= i < r ==> units@[i] != 0,
{
    zero_is_first(units@, i);
}

proof fn zero_is_first(u: Seq<u16>, i: int)
    ensures
        0 <= end_of_units(u) <= u.len(),
        end_of_units(u) < u.len() ==> u[end_of_units(u)] == 0,
        0 <= i < end_of_units(u) ==> u[i] != 0,
    decreases u.len(),
{
    if u.len() > 0 && u[0] != 0 {
        zero_is_first(u.skip(1), i - 1);
    }
}

proof fn written_units_are_paired(s: Seq<char>, rest: Seq<u16>)
    ensures
        paired(utf16(s) + rest) == paired(rest),
    decreases s.len(),
{
    if s.len() == 0 {
        assert(utf16(s) + rest =~= rest);
    } else {
        let c = s.last();
        let u = char_units(c);
        written_units_are_paired(s.drop_last(), u + rest);
        assert(utf16(s) + rest =~= utf16(s.drop_last()) + (u + rest));
        character_is_paired(c, rest);
    }
}

proof fn character_is_paired(c: char, rest: Seq<u16>)
    ensures
        paired(char_units(c) + rest) == paired(rest),
{
    let u = char_units(c);
    let all = u + rest;
    let n = c as u32;
    if n < 0x10000 {
        assert(all[0] == n);
        assert(all.skip(1) =~= rest);
    } else {
        let m = n - 0x10000;
        assert(0 <= m / 0x400 < 0x400);
        assert(is_high(all[0]) && is_low(all[1]));
        assert(all.skip(2) =~= rest);
    }
}

/// What was written of a text is in pairs; a surrogate alone behind it is not.
pub proof fn written_text_is_in_pairs(
    s: &str,
    w: Vec<u16>,
    units: &Vec<u16>,
    end: usize,
    r: bool,
    lone: u16,
)
    requires
        call_ensures(to_wide, (s,), w),
        call_ensures(all_paired, (units, end), r),
        end <= units@.len(),
    ensures
        units@.take(end as int) == w@.drop_last() ==> r,
        units@.take(end as int) == w@.drop_last().push(lone) && 0xd800 <= lone < 0xe000 ==> !r,
{
    let u = utf16(s@);
    assert(w@.drop_last() =~= u);
    written_units_are_paired(s@, Seq::empty());
    assert(u + Seq::<u16>::empty() =~= u);
    written_units_are_paired(s@, seq![lone]);
    assert(u + seq![lone] =~= u.push(lone));
}

/// The path that the system gives for a shortcut is what stands before the zero, without the white
/// space around it; a blank one is none.
pub proof fn path_of_shortcut_is_read(
    units: &Vec<u16>,
    r: Option<String>,
    s: Seq<char>,
    a: Seq<char>,
    t: Seq<char>,
    b: Seq<char>,
    rest: Seq<u16>,
)
    requires
        call_ensures(resolve_windows_shortcut_target, (units,), r),
        units@ == utf16(s) + seq![0u16] + rest,
        forall|i: int| 0 <= i < utf16(s).len() ==> #[trigger] utf16(s)[i] != 0,
        s == a + t + b,
        stands_between_space(a, t, b),
    ensures
        r is Some <==> t.len() > 0,
        r is Some ==> r->0@ == t,
{
    let u = utf16(s);
    let all = units@;
    let e = end_of_units(all);
    zero_is_first(all, u.len() as int);
    assert(all[u.len() as int] == 0);
    if e < u.len() {
        assert(all[e] == u[e]);
    }
    assert(e == u.len());
    assert(all.take(e) =~= u);
    utf16_reads_back(s);
    written_units_are_paired(s, Seq::empty());
    assert(u + Seq::<u16>::empty() =~= u);
    trimmed_part(s, a, t, b);
}

/// A shortcut of the web is read as a text.
pub proof fn shortcut_of_web_is_read_as_text(
    file: &Vec<u8>,
    r: Option<String>,
    text: &str,
    s: Option<String>,
)
    requires
        call_ensures(parse_internet_shortcut_url, (file,), r),
        text@ == utf8_text(file@),
        call_ensures(shortcut_url_in_text, (text,), s),
    ensures
        r is Some <==> s is Some,
        r is Some ==> r->0@ == s->0@,
{
}

// ---------------------------------------------------------------------------------------------
// Addresses
// ---------------------------------------------------------------------------------------------

/// An address of the web has the scheme `http` or `https`; a text looks like one where it begins
/// with one of these, a colon and two slashes.
pub proof fn web_has_two_schemes(
    scheme: &str,
    r: bool,
    text: &str,
    s: bool,
    t: bool,
    host: Option<Seq<char>>,
)
    requires
        call_ensures(is_web_scheme, (scheme,), r),
        call_ensures(is_web_address, (text,), s),
        call_ensures(begins_like_web, (text,), t),
    ensures
        r <==> scheme@ == "http"@ || scheme@ == "https"@,
        parsed_url(text@) == Some((scheme@, host)) ==> s == r,
        parsed_url(text@) is None ==> !s,
        t <==> (exists|rest: Seq<char>| text@ == #[trigger] ("http://"@ + rest)) || (exists|
            rest: Seq<char>,
        |
            text@ == #[trigger] ("https://"@ + rest)),
{
    beginning_means_followed(text@, "http://"@);
    beginning_means_followed(text@, "https://"@);
}

} // verus!
