//! Dropping files and texts on the window: what a drop offers, which of it is taken, and how the
//! drag is answered while it lasts.

use vstd::prelude::*;

use crate::links::{address_in, extract_http_url_from_text};
use crate::text::{
    after, concat, decode_utf8, is_blank, lines, opt_text, split_lines, starts_with, strip_prefix,
    texts, to_chars, trim, trimmed, utf8_text,
};
use crate::utf16::{before_zero, decode_utf16, find_zero, from_utf16};
use crate::web::{begins_like_web, looks_like_web};

verus! {

// ---------------------------------------------------------------------------------------------
// Effects
// ---------------------------------------------------------------------------------------------

/// The drop is refused.
pub const EFFECT_NONE: u32 = 0;

/// The drop copies.
pub const EFFECT_COPY: u32 = 1;

/// The drop moves.
pub const EFFECT_MOVE: u32 = 2;

/// The drop makes a link.
pub const EFFECT_LINK: u32 = 4;

/// All that a drop can do here.
pub const EFFECT_ANY: u32 = 7;

/// The effect chosen of those that are allowed: a copy before a link before a move. Where none
/// is named, all are.
pub open spec fn chosen_effect(allowed: u32) -> u32 {
    if allowed == 0 || allowed & EFFECT_COPY != 0 {
        EFFECT_COPY
    } else if allowed & EFFECT_LINK != 0 {
        EFFECT_LINK
    } else if allowed & EFFECT_MOVE != 0 {
        EFFECT_MOVE
    } else {
        EFFECT_NONE
    }
}

/// The effect chosen of those that are allowed.
pub fn drop_effect_from_allowed(allowed: u32) -> (r: u32)
    ensures
        r == chosen_effect(allowed),
{
    if allowed == 0 {
        return EFFECT_COPY;
    }
    if allowed & EFFECT_COPY != 0 {
        EFFECT_COPY
    } else if allowed & EFFECT_LINK != 0 {
        EFFECT_LINK
    } else if allowed & EFFECT_MOVE != 0 {
        EFFECT_MOVE
    } else {
        EFFECT_NONE
    }
}

/// The effect chosen is one of those that are allowed, where any is named, or none.
pub proof fn chosen_effect_is_allowed(allowed: u32)
    ensures
        allowed != 0 ==> chosen_effect(allowed) == EFFECT_NONE || allowed & chosen_effect(allowed)
            != 0,
        allowed & EFFECT_ANY != 0 ==> chosen_effect(allowed) != EFFECT_NONE,
{
    assert(allowed & 7 != 0 ==> allowed & 1 != 0 || allowed & 4 != 0 || allowed & 2 != 0)
        by (bit_vector);
}

// ---------------------------------------------------------------------------------------------
// Interfaces
// ---------------------------------------------------------------------------------------------

/// The id of an interface; its last eight bytes as one number, the first byte the highest.
#[derive(Debug, Clone, Copy, PartialEq, Eq, Structural)]
pub struct Guid {
    pub data1: u32,
    pub data2: u16,
    pub data3: u16,
    pub data4: u64,
}

/// Whether the ids are the same.
pub fn guid_eq(a: &Guid, b: &Guid) -> (r: bool)
    ensures
        r == (*a == *b),
{
    a.data1 == b.data1 && a.data2 == b.data2 && a.data3 == b.data3 && a.data4 == b.data4
}

/// Whether a drop target offers the interface: that of every object, or that of drop targets.
pub open spec fn offered(id: Guid) -> bool {
    &&& id.data1 == 0 || id.data1 == 0x122
    &&& id.data2 == 0
    &&& id.data3 == 0
    &&& id.data4 == 0xc000_0000_0000_0046
}

/// How a question for an interface is answered.
#[derive(Debug, Clone, Copy, PartialEq, Eq, Structural)]
pub enum QueryAnswer {
    /// There is no place to put it.
    NoPlace,
    /// There is no such interface.
    NoInterface,
    /// It is handed out.
    Given,
}

/// Whether a drop target offers the interface.
pub fn offers_interface(id: &Guid) -> (r: bool)
    ensures
        r == offered(*id),
{
    let any = Guid { data1: 0, data2: 0, data3: 0, data4: 0xc000_0000_0000_0046 };
    let target = Guid { data1: 0x122, data2: 0, data3: 0, data4: 0xc000_0000_0000_0046 };
    guid_eq(id, &any) || guid_eq(id, &target)
}

// ---------------------------------------------------------------------------------------------
// Texts
// ---------------------------------------------------------------------------------------------

/// The texts that a drop offers, as bytes in the formats of the clipboard.
#[derive(Debug)]
pub struct DropTexts {
    pub unicode: Option<Vec<u8>>,
    pub ansi: Option<Vec<u8>>,
    pub oem: Option<Vec<u8>>,
    pub html: Option<Vec<u8>>,
    pub uri_list: Option<Vec<u8>>,
}

/// The units of sixteen bits in bytes, the low byte first. A single byte at the end is none.
pub open spec fn units_of(bytes: Seq<u8>) -> Seq<u16> {
    Seq::new(bytes.len() / 2, |i: int| (bytes[2 * i] + 256 * bytes[2 * i + 1]) as u16)
}

/// The text in bytes of sixteen bits each, up to the first zero. None where there is no unit.
pub open spec fn unicode_text(bytes: Option<Vec<u8>>) -> Option<Seq<char>> {
    match bytes {
        Some(b) if b@.len() >= 2 => Some(from_utf16(before_zero(units_of(b@)))),
        _ => None,
    }
}

/// How many bytes stand before the first zero.
pub open spec fn bytes_before_zero(bytes: Seq<u8>) -> int
    decreases bytes.len(),
{
    if bytes.len() == 0 || bytes[0] == 0 {
        0
    } else {
        1 + bytes_before_zero(bytes.skip(1))
    }
}

/// The text in bytes, up to the first zero.
pub open spec fn byte_text(bytes: Option<Vec<u8>>) -> Option<Seq<char>> {
    match bytes {
        Some(b) => Some(utf8_text(b@.take(bytes_before_zero(b@)))),
        None => None,
    }
}

/// The text in bytes.
pub open spec fn whole_text(bytes: Option<Vec<u8>>) -> Option<Seq<char>> {
    match bytes {
        Some(b) => Some(utf8_text(b@)),
        None => None,
    }
}

fn unit(lo: u8, hi: u8) -> (r: u16)
    ensures
        r == lo + 256 * hi,
{
    lo as u16 + 256 * (hi as u16)
}

/// The text in bytes of sixteen bits each, up to the first zero.
pub fn try_read_unicode_text(bytes: &Option<Vec<u8>>) -> (r: Option<String>)
    ensures
        opt_text(r) == unicode_text(*bytes),
{
    match bytes {
        None => None,
        Some(b) => {
            let n = b.len();
            if n < 2 {
                return None;
            }
            let mut units: Vec<u16> = Vec::new();
            let ghost all = units_of(b@);
            let mut i: usize = 0;
            assert(units@ =~= all.take(0));
            while n - i >= 2
                invariant
                    i <= n,
                    n == b@.len(),
                    i % 2 == 0,
                    all == units_of(b@),
                    units@ == all.take(i as int / 2),
                decreases n - i,
            {
                let u = unit(b[i], b[i + 1]);
                assert(u == all[i as int / 2]);
                units.push(u);
                i = i + 2;
                assert(units@ =~= all.take(i as int / 2));
            }
            assert(all.take(i as int / 2) =~= all);
            let end = find_zero(&units);
            Some(decode_utf16(&units, end))
        },
    }
}

/// The text in bytes, up to the first zero.
pub fn try_read_byte_text(bytes: &Option<Vec<u8>>) -> (r: Option<String>)
    ensures
        opt_text(r) == byte_text(*bytes),
{
    match bytes {
        None => None,
        Some(b) => {
            let mut i: usize = 0;
            assert(b@.skip(0) =~= b@);
            while i < b.len() && b[i] != 0
                invariant
                    i <= b@.len(),
                    bytes_before_zero(b@) == i + bytes_before_zero(b@.skip(i as int)),
                decreases b@.len() - i,
            {
                assert(b@.skip(i as int).skip(1) =~= b@.skip(i + 1));
                i = i + 1;
            }
            Some(decode_utf8(b, i))
        },
    }
}

fn read_whole_text(bytes: &Option<Vec<u8>>) -> (r: Option<String>)
    ensures
        opt_text(r) == whole_text(*bytes),
{
    match bytes {
        None => None,
        Some(b) => {
            assert(b@.take(b@.len() as int) =~= b@);
            Some(decode_utf8(b, b.len()))
        },
    }
}

/// The text that a drop offers: the first of the formats that is there, unless it is blank.
pub open spec fn any_text(d: DropTexts) -> Option<Seq<char>> {
    let s = if unicode_text(d.unicode) is Some {
        unicode_text(d.unicode)
    } else if d.ansi is Some {
        byte_text(d.ansi)
    } else if d.oem is Some {
        byte_text(d.oem)
    } else {
        whole_text(d.html)
    };
    match s {
        Some(t) if trim(t).len() > 0 => s,
        _ => None,
    }
}

/// The text that the drop offers.
pub fn try_extract_any_text(d: &DropTexts) -> (r: Option<String>)
    ensures
        opt_text(r) == any_text(*d),
{
    let mut s = try_read_unicode_text(&d.unicode);
    if s.is_none() {
        s = try_read_byte_text(&d.ansi);
    }
    if s.is_none() {
        s = try_read_byte_text(&d.oem);
    }
    if s.is_none() {
        s = read_whole_text(&d.html);
    }
    match s {
        Some(t) => if is_blank(t.as_str()) {
            None
        } else {
            Some(t)
        },
        None => None,
    }
}

// ---------------------------------------------------------------------------------------------
// Addresses
// ---------------------------------------------------------------------------------------------

/// The address that a line of the header of dropped HTML gives.
pub open spec fn source_url(line: Seq<char>) -> Option<Seq<char>> {
    let t = trim(line);
    if !starts_with(t, "SourceURL:"@) {
        None
    } else {
        let u = trim(after(t, "SourceURL:"@.len() as int));
        if address_in(u) is Some {
            address_in(u)
        } else if looks_like_web(u) {
            Some(u)
        } else {
            None
        }
    }
}

/// The first address that the lines give, as the header of dropped HTML.
pub open spec fn source_url_of(rows: Seq<Seq<char>>) -> Option<Seq<char>>
    decreases rows.len(),
{
    if rows.len() == 0 {
        None
    } else if source_url(rows[0]) is Some {
        source_url(rows[0])
    } else {
        source_url_of(rows.skip(1))
    }
}

fn read_source_url(line: &str) -> (r: Option<String>)
    ensures
        opt_text(r) == source_url(line@),
{
    let t = trimmed(line);
    match strip_prefix(t.as_str(), "SourceURL:") {
        None => None,
        Some(rest) => {
            let u = trimmed(rest.as_str());
            let found = extract_http_url_from_text(u.as_str());
            if found.is_some() {
                return found;
            }
            if begins_like_web(u.as_str()) {
                Some(u)
            } else {
                None
            }
        },
    }
}

/// The address that the header of dropped HTML gives.
pub fn extract_url_from_cf_html_headers(blob: &str) -> (r: Option<String>)
    ensures
        opt_text(r) == source_url_of(lines(blob@)),
{
    let rows = split_lines(blob);
    let ghost all = texts(rows@);
    let mut i: usize = 0;
    assert(all.skip(0) =~= all);
    while i < rows.len()
        invariant
            i <= rows@.len(),
            all == texts(rows@),
            all == lines(blob@),
            source_url_of(all) == source_url_of(all.skip(i as int)),
        decreases rows@.len() - i,
    {
        let found = read_source_url(rows[i].as_str());
        assert(all.skip(i as int)[0] == rows@[i as int]@);
        if found.is_some() {
            return found;
        }
        assert(all.skip(i as int).skip(1) =~= all.skip(i + 1));
        i = i + 1;
    }
    assert(all.skip(i as int) =~= Seq::empty());
    None
}

/// The address that a line of a list of addresses gives. Blank lines and remarks give none.
pub open spec fn listed_url(line: Seq<char>) -> Option<Seq<char>> {
    let t = trim(line);
    if t.len() == 0 || t[0] == '#' {
        None
    } else {
        address_in(t)
    }
}

/// The first address in a list of addresses.
pub open spec fn listed_url_of(rows: Seq<Seq<char>>) -> Option<Seq<char>>
    decreases rows.len(),
{
    if rows.len() == 0 {
        None
    } else if listed_url(rows[0]) is Some {
        listed_url(rows[0])
    } else {
        listed_url_of(rows.skip(1))
    }
}

fn read_listed_url(line: &str) -> (r: Option<String>)
    ensures
        opt_text(r) == listed_url(line@),
{
    let t = trimmed(line);
    let v = to_chars(t.as_str());
    if v.len() == 0 || v[0] == '#' {
        return None;
    }
    extract_http_url_from_text(t.as_str())
}

/// The first address in a list of addresses.
pub fn try_read_uri_list_url(list: &str) -> (r: Option<String>)
    ensures
        opt_text(r) == listed_url_of(lines(list@)),
{
    let rows = split_lines(list);
    let ghost all = texts(rows@);
    let mut i: usize = 0;
    assert(all.skip(0) =~= all);
    while i < rows.len()
        invariant
            i <= rows@.len(),
            all == texts(rows@),
            all == lines(list@),
            listed_url_of(all) == listed_url_of(all.skip(i as int)),
        decreases rows@.len() - i,
    {
        let found = read_listed_url(rows[i].as_str());
        assert(all.skip(i as int)[0] == rows@[i as int]@);
        if found.is_some() {
            return found;
        }
        assert(all.skip(i as int).skip(1) =~= all.skip(i + 1));
        i = i + 1;
    }
    assert(all.skip(i as int) =~= Seq::empty());
    None
}

/// The address in a text, if there is a text.
pub open spec fn address_in_opt(s: Option<Seq<char>>) -> Option<Seq<char>> {
    match s {
        Some(t) => address_in(t),
        None => None,
    }
}

/// The first text, or else the second.
pub open spec fn or_else(first: Option<Seq<char>>, second: Option<Seq<char>>) -> Option<Seq<char>> {
    if first is Some {
        first
    } else {
        second
    }
}

/// The address that a drop offers: in its texts, in the header or the text of its HTML, or in a
/// list of addresses.
pub open spec fn any_url(d: DropTexts) -> Option<Seq<char>> {
    let html_header = match whole_text(d.html) {
        Some(t) => source_url_of(lines(t)),
        None => None,
    };
    let listed = match whole_text(d.uri_list) {
        Some(t) => listed_url_of(lines(t)),
        None => None,
    };
    or_else(
        address_in_opt(unicode_text(d.unicode)),
        or_else(
            address_in_opt(byte_text(d.ansi)),
            or_else(
                address_in_opt(byte_text(d.oem)),
                or_else(html_header, or_else(address_in_opt(whole_text(d.html)), listed)),
            ),
        ),
    )
}

fn url_in(s: Option<String>) -> (r: Option<String>)
    ensures
        opt_text(r) == address_in_opt(opt_text(s)),
{
    match s {
        Some(t) => extract_http_url_from_text(t.as_str()),
        None => None,
    }
}

/// The address that the drop offers.
pub fn try_extract_http_url(d: &DropTexts) -> (r: Option<String>)
    ensures
        opt_text(r) == any_url(*d),
{
    let found = url_in(try_read_unicode_text(&d.unicode));
    if found.is_some() {
        return found;
    }
    let found = url_in(try_read_byte_text(&d.ansi));
    if found.is_some() {
        return found;
    }
    let found = url_in(try_read_byte_text(&d.oem));
    if found.is_some() {
        return found;
    }
    if let Some(html) = read_whole_text(&d.html) {
        let found = extract_url_from_cf_html_headers(html.as_str());
        if found.is_some() {
            return found;
        }
        let found = extract_http_url_from_text(html.as_str());
        if found.is_some() {
            return found;
        }
    }
    match read_whole_text(&d.uri_list) {
        Some(list) => try_read_uri_list_url(list.as_str()),
        None => None,
    }
}

// ---------------------------------------------------------------------------------------------
// The drag
// ---------------------------------------------------------------------------------------------

/// What of a text is taken.
#[derive(Debug, Clone, Copy, PartialEq, Eq, Structural)]
pub enum TextDropKind {
    Url,
    Plain,
}

/// A drag over the window: how many hold on to the handler, the effect shown, whether the drag
/// would be taken, and as which text.
#[derive(Debug, Clone, Copy, PartialEq, Eq, Structural)]
pub struct LauncherDropHandler {
    pub refcount: u32,
    pub cursor_effect: u32,
    pub hovered_is_valid: bool,
    pub hover_text: Option<TextDropKind>,
}

/// What is done with a drop.
#[derive(Debug)]
pub enum DropOutcome {
    /// The address is added.
    Url(String),
    /// The text is shown.
    Plain(String),
    /// The files are added, and the hint is taken away.
    Files(Vec<String>),
    /// The hint is taken away.
    Cancel,
}

/// What a drag would be taken as: files where it holds any; where it offers no files at all, an
/// address, or else a text.
pub open spec fn taken_as(files: Option<nat>, d: DropTexts) -> (bool, Option<TextDropKind>) {
    match files {
        Some(n) => (n > 0, None),
        None => if any_url(d) is Some {
            (true, Some(TextDropKind::Url))
        } else if any_text(d) is Some {
            (true, Some(TextDropKind::Plain))
        } else {
            (false, None)
        },
    }
}

#[allow(non_snake_case)]
impl LauncherDropHandler {
    /// No drag.
    pub fn new() -> (r: Self)
        ensures
            r == (LauncherDropHandler {
                refcount: 1,
                cursor_effect: EFFECT_NONE,
                hovered_is_valid: false,
                hover_text: None,
            }),
    {
        LauncherDropHandler {
            refcount: 1,
            cursor_effect: EFFECT_NONE,
            hovered_is_valid: false,
            hover_text: None,
        }
    }

    /// Hands out the handler where the interface asked for is one that it offers.
    pub fn QueryInterface(&mut self, id: Option<Guid>, has_place: bool) -> (r: QueryAnswer)
        requires
            old(self).refcount < u32::MAX,
        ensures
            r == (if !has_place {
                QueryAnswer::NoPlace
            } else if id is Some && offered(id->0) {
                QueryAnswer::Given
            } else {
                QueryAnswer::NoInterface
            }),
            *final(self) == (if r == QueryAnswer::Given {
                LauncherDropHandler { refcount: (old(self).refcount + 1) as u32, ..*old(self) }
            } else {
                *old(self)
            }),
    {
        if !has_place {
            return QueryAnswer::NoPlace;
        }
        match id {
            Some(id) => if offers_interface(&id) {
                let _ = self.AddRef();
                QueryAnswer::Given
            } else {
                QueryAnswer::NoInterface
            },
            None => QueryAnswer::NoInterface,
        }
    }

    /// One more holds on to the handler. Gives how many do.
    pub fn AddRef(&mut self) -> (r: u32)
        requires
            old(self).refcount < u32::MAX,
        ensures
            r == old(self).refcount + 1,
            *final(self) == (LauncherDropHandler { refcount: r, ..*old(self) }),
    {
        self.refcount = self.refcount + 1;
        self.refcount
    }

    /// One less holds on to the handler. Gives how many do; once none does, it is to be freed.
    pub fn Release(&mut self) -> (r: u32)
        requires
            old(self).refcount > 0,
        ensures
            r == old(self).refcount - 1,
            *final(self) == (LauncherDropHandler { refcount: r, ..*old(self) }),
    {
        self.refcount = self.refcount - 1;
        self.refcount
    }

    /// The effect of a drag for which the effects are allowed; where none are given, all are.
    pub open spec fn effect_for(self, allowed: Option<u32>) -> u32 {
        if self.hovered_is_valid {
            chosen_effect(
                match allowed {
                    Some(a) => a,
                    None => EFFECT_ANY,
                },
            )
        } else {
            EFFECT_NONE
        }
    }

    /// A drag comes over the window with so many files, if it offers files, and with the texts.
    /// Gives the effect to show; the hint is shown where the drag would be taken.
    pub fn DragEnter(&mut self, files: Option<usize>, d: &DropTexts, allowed: Option<u32>) -> (r:
        u32)
        ensures
            ({
                let n = match files {
                    Some(n) => Some(n as nat),
                    None => None,
                };
                let (valid, text) = taken_as(n, *d);
                &&& *final(self) == (LauncherDropHandler {
                    refcount: old(self).refcount,
                    cursor_effect: r,
                    hovered_is_valid: valid,
                    hover_text: text,
                })
                &&& r == final(self).effect_for(allowed)
            }),
    {
        self.hovered_is_valid = false;
        self.hover_text = None;
        self.cursor_effect = EFFECT_NONE;
        match files {
            Some(n) => {
                self.hovered_is_valid = n > 0;
            },
            None => {
                if try_extract_http_url(d).is_some() {
                    self.hovered_is_valid = true;
                    self.hover_text = Some(TextDropKind::Url);
                } else if try_extract_any_text(d).is_some() {
                    self.hovered_is_valid = true;
                    self.hover_text = Some(TextDropKind::Plain);
                }
            },
        }
        self.DragOver(allowed)
    }

    /// The drag moves over the window. Gives the effect to show.
    pub fn DragOver(&mut self, allowed: Option<u32>) -> (r: u32)
        ensures
            r == old(self).effect_for(allowed),
            *final(self) == (LauncherDropHandler { cursor_effect: r, ..*old(self) }),
    {
        let incoming = match allowed {
            Some(a) => a,
            None => EFFECT_ANY,
        };
        assert(EFFECT_ANY != 0);
        let effect = if self.hovered_is_valid {
            drop_effect_from_allowed(incoming)
        } else {
            EFFECT_NONE
        };
        self.cursor_effect = effect;
        effect
    }

    /// The drag leaves the window. Tells whether the hint is to be taken away.
    pub fn DragLeave(&mut self) -> (r: bool)
        ensures
            r == old(self).hovered_is_valid,
            *final(self) == (LauncherDropHandler {
                cursor_effect: EFFECT_NONE,
                hovered_is_valid: false,
                hover_text: None,
                ..*old(self)
            }),
    {
        let was = self.hovered_is_valid;
        self.hovered_is_valid = false;
        self.hover_text = None;
        self.cursor_effect = EFFECT_NONE;
        was
    }

    /// The drag ends in a drop with the files, if it offers files, and with the texts. What it
    /// was to be taken as decides.
    pub fn Drop(&mut self, files: Option<Vec<String>>, d: &DropTexts) -> (r: DropOutcome)
        ensures
            *final(self) == (LauncherDropHandler {
                hovered_is_valid: false,
                hover_text: None,
                ..*old(self)
            }),
            match old(self).hover_text {
                Some(TextDropKind::Url) => match any_url(*d) {
                    Some(u) => r matches DropOutcome::Url(x) && x@ == u,
                    None => r is Cancel,
                },
                Some(TextDropKind::Plain) => match any_text(*d) {
                    Some(t) => r matches DropOutcome::Plain(x) && x@ == t,
                    None => r is Cancel,
                },
                None => match files {
                    Some(paths) => r == DropOutcome::Files(paths),
                    None => r is Cancel,
                },
            },
    {
        let kind = self.hover_text;
        self.hover_text = None;
        self.hovered_is_valid = false;
        match kind {
            Some(TextDropKind::Url) => match try_extract_http_url(d) {
                Some(url) => DropOutcome::Url(url),
                None => DropOutcome::Cancel,
            },
            Some(TextDropKind::Plain) => match try_extract_any_text(d) {
                Some(text) => DropOutcome::Plain(text),
                None => DropOutcome::Cancel,
            },
            None => match files {
                Some(paths) => DropOutcome::Files(paths),
                None => DropOutcome::Cancel,
            },
        }
    }
}

// ---------------------------------------------------------------------------------------------
// What the user is told
// ---------------------------------------------------------------------------------------------

/// How much of a text is shown.
pub const PREVIEW: usize = 120;

/// A character on one line.
pub open spec fn on_one_line(c: char) -> char {
    if c == '\r' || c == '\n' {
        ' '
    } else {
        c
    }
}

/// The start of a text on one line, with a sign where it goes on.
pub open spec fn preview(text: Seq<char>) -> Seq<char> {
    if text.len() > PREVIEW {
        text.take(PREVIEW as int).map_values(|c: char| on_one_line(c)).push('…')
    } else {
        text.map_values(|c: char| on_one_line(c))
    }
}

/// What the user is told of a text that holds no address.
pub fn plain_text_status(text: &str) -> (r: String)
    ensures
        r@ == "已接收文本（未识别为链接）："@ + preview(text@),
{
    let v = to_chars(text);
    let n = if v.len() > PREVIEW {
        PREVIEW
    } else {
        v.len()
    };
    let ghost head = v@.take(n as int).map_values(|c: char| on_one_line(c));
    let mut line = String::new();
    let mut i: usize = 0;
    assert(line@ =~= head.take(0));
    while i < n
        invariant
            i <= n,
            n <= v@.len(),
            head == v@.take(n as int).map_values(|c: char| on_one_line(c)),
            line@ == head.take(i as int),
        decreases n - i,
    {
        let c = v[i];
        if c == '\r' || c == '\n' {
            line.push(' ');
        } else {
            line.push(c);
        }
        i = i + 1;
        assert(line@ =~= head.take(i as int));
    }
    assert(head.take(i as int) =~= head);
    if v.len() > PREVIEW {
        line.push('…');
    }
    assert(line@ =~= preview(text@)) by {
        if v@.len() <= PREVIEW {
            assert(v@.take(n as int) =~= v@);
        }
    }
    concat("已接收文本（未识别为链接）：", line.as_str())
}

/// What the user is told while something is dragged over the window that would be taken.
pub fn drop_hint_status() -> (r: String)
    ensures
        r@
            == "松开鼠标即可添加（支持 exe · lnk · url · 文件夹 · 图片 · 文档 · 含 http(s) 的文本）"@,
{
    "松开鼠标即可添加（支持 exe · lnk · url · 文件夹 · 图片 · 文档 · 含 http(s) 的文本）".to_owned()
}

/// What the user is told otherwise.
pub fn idle_status() -> (r: String)
    ensures
        r@ == "拖入文件添加 · 左键启动 · 右键菜单"@,
{
    "拖入文件添加 · 左键启动 · 右键菜单".to_owned()
}

} // verus!
