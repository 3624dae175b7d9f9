//! What a drop on the window is taken as, whatever it offers.

use vstd::prelude::*;

use crate::entry_laws::all_white;
use crate::link_laws::first_line_trimmed;
use crate::links::{address_in, extract_http_url_from_text};
use crate::text::{opt_text, starts_with, trim, utf8_text};
use crate::utf16::{utf16, utf16_reads_back};
use crate::win_ole_drop::{
    byte_text, drop_effect_from_allowed, extract_url_from_cf_html_headers, plain_text_status,
    try_extract_any_text, try_extract_http_url, try_read_byte_text, try_read_unicode_text,
    try_read_uri_list_url, unicode_text, units_of, whole_text, DropOutcome, DropTexts,
    LauncherDropHandler, TextDropKind,
};

verus! {

// ---------------------------------------------------------------------------------------------
// Addresses in lists and headers
// ---------------------------------------------------------------------------------------------

/// The first line of a list of addresses that is neither blank nor a remark, which begins with a
/// number sign, and in which an address is read gives the address; other lines are passed over.
pub proof fn list_gives_its_first_address(
    whole: &str,
    r: Option<String>,
    rest: &str,
    s: Option<String>,
    line: Seq<char>,
    t: &str,
    u: Option<String>,
)
    requires
        call_ensures(try_read_uri_list_url, (whole,), r),
        call_ensures(try_read_uri_list_url, (rest,), s),
        call_ensures(extract_http_url_from_text, (t,), u),
        whole@ == line + seq!['\n'] + rest@,
        forall|i: int| 0 <= i < line.len() ==> line[i] != '\n',
        t@ == trim(line),
    ensures
        t@.len() == 0 || t@[0] == '#' || u is None ==> opt_text(r) == opt_text(s),
        t@.len() > 0 && t@[0] != '#' && u is Some ==> r is Some && r->0@ == u->0@,
{
    first_line_trimmed(line, rest@);
}

/// The first line of the header of dropped HTML that reads `SourceURL:` and an address gives the
/// address; other lines are passed over.
pub proof fn header_gives_its_source(
    whole: &str,
    r: Option<String>,
    rest: &str,
    s: Option<String>,
    line: Seq<char>,
    source: &str,
    u: Option<String>,
)
    requires
        call_ensures(extract_url_from_cf_html_headers, (whole,), r),
        call_ensures(extract_url_from_cf_html_headers, (rest,), s),
        call_ensures(extract_http_url_from_text, (source,), u),
        whole@ == line + seq!['\n'] + rest@,
        forall|i: int| 0 <= i < line.len() ==> line[i] != '\n',
        trim(line).len() >= 10,
        source@ == trim(trim(line).subrange(10, trim(line).len() as int)),
    ensures
        ({
            let named = trim(line).subrange(0, 10) == seq![
                'S',
                'o',
                'u',
                'r',
                'c',
                'e',
                'U',
                'R',
                'L',
                ':',
            ];
            let web = starts_with(source@, "http://"@) || starts_with(source@, "https://"@);
            &&& !named ==> opt_text(r) == opt_text(s)
            &&& named && u is Some ==> r is Some && r->0@ == u->0@
            &&& named && u is None && web ==> r is Some && r->0@ == source@
            &&& named && u is None && !web ==> opt_text(r) == opt_text(s)
        }),
{
    first_line_trimmed(line, rest@);
    reveal_strlit("SourceURL:");
    assert("SourceURL:"@ =~= seq!['S', 'o', 'u', 'r', 'c', 'e', 'U', 'R', 'L', ':']);
}

// ---------------------------------------------------------------------------------------------
// Texts as bytes
// ---------------------------------------------------------------------------------------------

/// The bytes of units of sixteen bits, the low byte first.
pub open spec fn low_byte_first(units: Seq<u16>) -> Seq<u8> {
    Seq::new(
        2 * units.len(),
        |i: int| if i % 2 == 0 {
            (units[i / 2] % 256) as u8
        } else {
            (units[i / 2] / 256) as u8
        },
    )
}

proof fn units_are_read_back(units: Seq<u16>, rest: Seq<u8>)
    ensures
        units_of(low_byte_first(units) + rest).len() >= units.len(),
        units_of(low_byte_first(units) + rest).take(units.len() as int) == units,
{
    let b = low_byte_first(units) + rest;
    assert forall|i: int| 0 <= i < units.len() implies units_of(b)[i] == units[i] by {
        let u = units[i];
        assert(b[2 * i] == (u % 256) as u8) by {
            assert((2 * i) / 2 == i && (2 * i) % 2 == 0);
        }
        assert(b[2 * i + 1] == (u / 256) as u8) by {
            assert((2 * i + 1) / 2 == i && (2 * i + 1) % 2 == 1);
        }
        assert(u % 256 + 256 * (u / 256) == u);
    }
    assert(units_of(b).take(units.len() as int) =~= units);
}

proof fn zero_ends_units(a: Seq<u16>, b: Seq<u16>)
    requires
        forall|i: int| 0 <= i < a.len() ==> #[trigger] a[i] != 0,
        b.len() == 0 || b[0] == 0,
    ensures
        crate::utf16::before_zero(a + b) == a,
    decreases a.len(),
{
    if a.len() > 0 {
        let t = a.skip(1);
        assert forall|i: int| 0 <= i < t.len() implies #[trigger] t[i] != 0 by {
            assert(t[i] == a[i + 1]);
        }
        zero_ends_units(t, b);
        assert((a + b).skip(1) =~= t + b);
        assert((a + b)[0] == a[0]);
        assert(crate::utf16::end_of_units(a + b) == 1 + crate::utf16::end_of_units(t + b));
        let n = crate::utf16::end_of_units(t + b);
        units_end_in(t + b);
        assert(crate::utf16::before_zero(t + b).len() == n);
        assert(n == t.len());
        assert((a + b).take(n + 1) =~= a);
    } else {
        assert(a + b =~= b);
        assert(b.take(0) =~= a);
    }
}

proof fn units_end_in(s: Seq<u16>)
    ensures
        0 <= crate::utf16::end_of_units(s) <= s.len(),
    decreases s.len(),
{
    if s.len() > 0 && s[0] != 0 {
        units_end_in(s.skip(1));
    }
}

/// A text that was written in units of sixteen bits, low bytes first, is read as it was, up to a
/// zero that closes it, whatever follows.
pub proof fn wide_text_is_read_back(
    bytes: &Option<Vec<u8>>,
    r: Option<String>,
    s: Seq<char>,
    rest: Seq<u8>,
)
    requires
        call_ensures(try_read_unicode_text, (bytes,), r),
        *bytes is Some,
        forall|i: int| 0 <= i < utf16(s).len() ==> #[trigger] utf16(s)[i] != 0,
        bytes->0@ == low_byte_first(utf16(s)) + seq![0u8, 0u8] + rest,
    ensures
        r is Some && r->0@ == s,
{
    let u = utf16(s);
    let tail = seq![0u8, 0u8] + rest;
    let b = bytes->0@;
    assert(b =~= low_byte_first(u) + tail);
    units_are_read_back(u, tail);
    let all = units_of(b);
    let n = u.len() as int;
    assert(all.len() > n);
    assert(all[n] == 0) by {
        assert(b[2 * n] == 0 && b[2 * n + 1] == 0);
    }
    let z = all.skip(n);
    assert(all =~= u + z) by {
        assert forall|i: int| 0 <= i < all.len() implies all[i] == (u + z)[i] by {
            if i < n {
                assert(all.take(n)[i] == u[i]);
            }
        }
    }
    zero_ends_units(u, z);
    utf16_reads_back(s);
}

/// A text in bytes is read up to the first zero, or to the end where there is none.
pub proof fn byte_text_ends_at_zero(
    bytes: &Option<Vec<u8>>,
    r: Option<String>,
    a: Seq<u8>,
    rest: Seq<u8>,
)
    requires
        call_ensures(try_read_byte_text, (bytes,), r),
        *bytes is Some,
        bytes->0@ == a + rest,
        forall|i: int| 0 <= i < a.len() ==> #[trigger] a[i] != 0,
        rest.len() == 0 || rest[0] == 0,
    ensures
        r is Some && r->0@ == utf8_text(a),
{
    bytes_end_at_zero(a, rest);
    assert((a + rest).take(a.len() as int) =~= a);
}

proof fn bytes_end_at_zero(a: Seq<u8>, b: Seq<u8>)
    requires
        forall|i: int| 0 <= i < a.len() ==> #[trigger] a[i] != 0,
        b.len() == 0 || b[0] == 0,
    ensures
        crate::win_ole_drop::bytes_before_zero(a + b) == a.len(),
    decreases a.len(),
{
    if a.len() > 0 {
        let t = a.skip(1);
        assert forall|i: int| 0 <= i < t.len() implies #[trigger] t[i] != 0 by {
            assert(t[i] == a[i + 1]);
        }
        bytes_end_at_zero(t, b);
        assert((a + b).skip(1) =~= t + b);
        assert((a + b)[0] == a[0]);
    } else {
        assert(a + b =~= b);
    }
}

// ---------------------------------------------------------------------------------------------
// Which of it is taken
// ---------------------------------------------------------------------------------------------

/// An address is read of the text in units of sixteen bits before any other, then of the two texts
/// in bytes, then of the HTML, its header before its text, and last of the list of addresses; what
/// offers none of these has none.
pub proof fn address_is_taken_in_turn(
    d: &DropTexts,
    r: Option<String>,
    wide: Option<String>,
    ansi: Option<String>,
    oem: Option<String>,
)
    requires
        call_ensures(try_extract_http_url, (d,), r),
        call_ensures(try_read_unicode_text, (&d.unicode,), wide),
        call_ensures(try_read_byte_text, (&d.ansi,), ansi),
        call_ensures(try_read_byte_text, (&d.oem,), oem),
    ensures
        ({
            let a = if wide is Some {
                address_in(wide->0@)
            } else {
                None
            };
            let b = if ansi is Some {
                address_in(ansi->0@)
            } else {
                None
            };
            let c = if oem is Some {
                address_in(oem->0@)
            } else {
                None
            };
            &&& a is Some ==> opt_text(r) == a
            &&& a is None && b is Some ==> opt_text(r) == b
            &&& a is None && b is None && c is Some ==> opt_text(r) == c
            &&& a is None && b is None && c is None && d.html is None && d.uri_list is None
                ==> r is None
        }),
{
}

/// Where no plain text holds an address, dropped HTML gives the one in its header, or else the one
/// in its text, and a list of addresses its first.
pub proof fn address_is_taken_of_html_and_list(
    d: &DropTexts,
    r: Option<String>,
    html: &str,
    header: Option<String>,
    body: Option<String>,
    list: &str,
    listed: Option<String>,
)
    requires
        call_ensures(try_extract_http_url, (d,), r),
        call_ensures(extract_url_from_cf_html_headers, (html,), header),
        call_ensures(extract_http_url_from_text, (html,), body),
        call_ensures(try_read_uri_list_url, (list,), listed),
        d.unicode is None && d.ansi is None && d.oem is None,
    ensures
        d.html is Some && html@ == utf8_text(d.html->0@) && header is Some ==> opt_text(r)
            == opt_text(header),
        d.html is Some && html@ == utf8_text(d.html->0@) && header is None && body is Some
            ==> opt_text(r) == opt_text(body),
        d.html is Some && html@ == utf8_text(d.html->0@) && header is None && body is None
            && d.uri_list is Some && list@ == utf8_text(d.uri_list->0@) ==> opt_text(r) == opt_text(
            listed,
        ),
        d.html is None && d.uri_list is Some && list@ == utf8_text(d.uri_list->0@) ==> opt_text(r)
            == opt_text(listed),
{
}

/// The text of a drop is the first of its texts that is there, and none where that is blank.
pub proof fn text_is_taken_in_turn(
    d: &DropTexts,
    r: Option<String>,
    wide: Option<String>,
    ansi: Option<String>,
    oem: Option<String>,
)
    requires
        call_ensures(try_extract_any_text, (d,), r),
        call_ensures(try_read_unicode_text, (&d.unicode,), wide),
        call_ensures(try_read_byte_text, (&d.ansi,), ansi),
        call_ensures(try_read_byte_text, (&d.oem,), oem),
    ensures
        ({
            let first = if wide is Some {
                Some(wide->0@)
            } else if ansi is Some {
                Some(ansi->0@)
            } else if oem is Some {
                Some(oem->0@)
            } else if d.html is Some {
                Some(utf8_text(d.html->0@))
            } else {
                None
            };
            let blank = first is Some && all_white(first->0);
            &&& first is None || blank ==> r is None
            &&& first is Some && !blank ==> opt_text(r) == first
        }),
{
    if let Some(t) = unicode_text(d.unicode) {
        crate::text::blank_means_all_white_space(t);
    }
    if let Some(t) = byte_text(d.ansi) {
        crate::text::blank_means_all_white_space(t);
    }
    if let Some(t) = byte_text(d.oem) {
        crate::text::blank_means_all_white_space(t);
    }
    if let Some(t) = whole_text(d.html) {
        crate::text::blank_means_all_white_space(t);
    }
}

/// Of the effects that are allowed a copy is chosen before a link, and a link before a move; where
/// none is named, a copy, and where none that is known is, nothing.
pub proof fn copy_is_chosen_first(allowed: u32, r: u32)
    requires
        call_ensures(drop_effect_from_allowed, (allowed,), r),
    ensures
        allowed == 0 ==> r == 1,
        allowed & 1 == 1 ==> r == 1,
        allowed & 1 == 0 && allowed & 4 == 4 ==> r == 4,
        allowed & 1 == 0 && allowed & 4 == 0 && allowed & 2 == 2 ==> r == 2,
        allowed != 0 && allowed & 7 == 0 ==> r == 0,
{
    assert(allowed & 4 == 4 || allowed & 2 == 2 ==> allowed != 0) by (bit_vector);
    assert(allowed & 1 == 1 || allowed & 1 == 0) by (bit_vector);
    assert(allowed & 4 == 4 || allowed & 4 == 0) by (bit_vector);
    assert(allowed & 2 == 2 || allowed & 2 == 0) by (bit_vector);
    assert(allowed & 7 == 0 ==> allowed & 1 == 0 && allowed & 2 == 0 && allowed & 4 == 0)
        by (bit_vector);
}

/// A drag is taken as files where it offers any, and as nothing where it offers files but none is
/// there; where it offers no files at all, as an address if it offers one, else as a text if it
/// offers one, and else not. Only a drag that would be taken shows an effect.
pub proof fn drag_is_taken_as_files_first(
    handler: &mut LauncherDropHandler,
    files: Option<usize>,
    d: &DropTexts,
    allowed: Option<u32>,
    r: u32,
    url: Option<String>,
    text: Option<String>,
    effect: u32,
)
    requires
        call_ensures(LauncherDropHandler::DragEnter, (handler, files, d, allowed), r),
        call_ensures(try_extract_http_url, (d,), url),
        call_ensures(try_extract_any_text, (d,), text),
        call_ensures(
            drop_effect_from_allowed,
            (match allowed {
                Some(a) => a,
                None => 7,
            },),
            effect,
        ),
    ensures
        ({
            let h = *final(handler);
            &&& files is Some ==> h.hover_text is None && (h.hovered_is_valid <==> files->0 > 0)
            &&& files is None && url is Some ==> h.hovered_is_valid && h.hover_text == Some(
                TextDropKind::Url,
            )
            &&& files is None && url is None && text is Some ==> h.hovered_is_valid && h.hover_text
                == Some(TextDropKind::Plain)
            &&& files is None && url is None && text is None ==> !h.hovered_is_valid
                && h.hover_text is None
            &&& h.hovered_is_valid ==> r == effect
            &&& !h.hovered_is_valid ==> r == 0
            &&& h.cursor_effect == r && h.refcount == old(handler).refcount
        }),
{
}

/// While a drag moves, it stays what it is; once it leaves, nothing of it is left, and the hint
/// goes where it was shown.
pub proof fn drag_goes_on_and_leaves(
    handler: &mut LauncherDropHandler,
    allowed: Option<u32>,
    r: u32,
    other: &mut LauncherDropHandler,
    left: bool,
)
    requires
        call_ensures(LauncherDropHandler::DragOver, (handler, allowed), r),
        call_ensures(LauncherDropHandler::DragLeave, (other,), left),
    ensures
        final(handler).hovered_is_valid == old(handler).hovered_is_valid,
        final(handler).hover_text == old(handler).hover_text,
        final(handler).cursor_effect == r,
        !old(handler).hovered_is_valid ==> r == 0,
        left <==> old(other).hovered_is_valid,
        !final(other).hovered_is_valid && final(other).hover_text is None
            && final(other).cursor_effect == 0 && final(other).refcount == old(other).refcount,
{
}

/// A drop is what the drag was to be taken as: the address or the text that it offers, or its
/// files, all of them and in their order; where that is no longer there, nothing is done.
pub proof fn drop_is_what_the_drag_was(
    handler: &mut LauncherDropHandler,
    files: Option<Vec<String>>,
    d: &DropTexts,
    r: DropOutcome,
    url: Option<String>,
    text: Option<String>,
)
    requires
        call_ensures(LauncherDropHandler::Drop, (handler, files, d), r),
        call_ensures(try_extract_http_url, (d,), url),
        call_ensures(try_extract_any_text, (d,), text),
    ensures
        old(handler).hover_text == Some(TextDropKind::Url) ==> (r is Url <==> url is Some)
            && (r is Url
            ==> r->Url_0@ == url->0@) && (url is None ==> r is Cancel),
        old(handler).hover_text == Some(TextDropKind::Plain) ==> (r is Plain <==> text is Some) && (
        r is Plain ==> r->Plain_0@ == text->0@) && (text is None ==> r is Cancel),
        old(handler).hover_text is None ==> (r is Files <==> files is Some) && (r is Files
            ==> r->Files_0 == files->0) && (files is None ==> r is Cancel),
        !final(handler).hovered_is_valid && final(handler).hover_text is None,
{
}

/// Holding on to the handler counts one more, and letting go one less.
pub proof fn holders_are_counted(
    handler: &mut LauncherDropHandler,
    r: u32,
    other: &mut LauncherDropHandler,
    s: u32,
)
    requires
        call_ensures(LauncherDropHandler::AddRef, (handler,), r),
        call_ensures(LauncherDropHandler::Release, (other,), s),
        *old(other) == *final(handler),
    ensures
        r == old(handler).refcount + 1,
        s == old(handler).refcount,
        *final(other) == *old(handler),
{
}

/// What is told of a text that holds no address shows its first 120 characters, with line ends as
/// spaces and all others as they are, and a sign behind them just where the text goes on.
pub proof fn text_is_shown_on_one_line(text: &str, r: String)
    requires
        call_ensures(plain_text_status, (text,), r),
    ensures
        ({
            let lead = "已接收文本（未识别为链接）："@;
            let n = if text@.len() > 120 {
                120
            } else {
                text@.len() as int
            };
            &&& r@.len() == lead.len() + n + (if text@.len() > 120 {
                1int
            } else {
                0int
            })
            &&& r@.take(lead.len() as int) == lead
            &&& forall|i: int|
                0 <= i < n ==> {
                    let c = #[trigger] r@[lead.len() + i];
                    &&& text@[i] == '\n' || text@[i] == '\r' ==> c == ' '
                    &&& text@[i] != '\n' && text@[i] != '\r' ==> c == text@[i]
                }
            &&& text@.len() > 120 ==> r@.last() == '…'
        }),
{
    let lead = "已接收文本（未识别为链接）："@;
    assert(r@.take(lead.len() as int) =~= lead);
}

} // verus!
