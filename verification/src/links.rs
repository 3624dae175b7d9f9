//! Addresses and paths in what is dropped on the window: the address in a text, the address in a
//! shortcut file, and the path in a shortcut of the system.

use vstd::prelude::*;

use crate::text::{
    after, ascii_lowercase, ascii_upper, decode_utf8, found_from, from_chars, is_white_space, lines,
    occurs_at, opt_text, place_of, split_lines, texts, to_ascii_lowercase, to_ascii_upper, to_chars,
    trim, trim_start, trimmed, trimmed_start, utf8_text,
};
use crate::utf16::{all_paired, before_zero, decode_utf16, find_zero, from_utf16, paired};
use crate::web::{is_web_address, web_address};

verus! {

// ---------------------------------------------------------------------------------------------
// The address in a text
// ---------------------------------------------------------------------------------------------

/// How many characters of a text are searched for an address.
pub const LOOKAHEAD: usize = 256;

/// Whether an address ends before the character.
pub open spec fn ends_address(c: char) -> bool {
    is_white_space(c) || c == '"' || c == '\'' || c == '<' || c == '>' || c == ')' || c == ']' || c
        == '}' || c == '，' || c == '。' || c == '｜' || c == '|' || c == '`'
}

/// Whether the character at the end of an address belongs to the sentence around it.
pub open spec fn of_sentence(c: char) -> bool {
    c == '.' || c == ',' || c == ';' || c == '。' || c == ')' || c == ']' || c == '}' || c == '，'
}

/// How far an address that begins the text reaches.
pub open spec fn address_length(s: Seq<char>) -> int
    decreases s.len(),
{
    if s.len() == 0 || ends_address(s[0]) {
        0
    } else {
        1 + address_length(s.skip(1))
    }
}

/// The text without what belongs to the sentence at its end.
pub open spec fn without_sentence_marks(s: Seq<char>) -> Seq<char>
    decreases s.len(),
{
    if s.len() > 0 && of_sentence(s.last()) {
        without_sentence_marks(s.drop_last())
    } else {
        s
    }
}

/// The part of the text that is searched, in small letters.
pub open spec fn searched(t: Seq<char>) -> Seq<char> {
    ascii_lowercase(
        if t.len() > LOOKAHEAD {
            t.take(LOOKAHEAD as int)
        } else {
            t
        },
    )
}

/// Where an address begins: at the first `https://` or `http://`, whichever comes first.
pub open spec fn address_start(t: Seq<char>) -> Option<int> {
    let head = searched(t);
    match (found_from(head, "https://"@, 0), found_from(head, "http://"@, 0)) {
        (Some(i), Some(j)) => Some(
            if i < j {
                i
            } else {
                j
            },
        ),
        (Some(i), None) => Some(i),
        (None, j) => j,
    }
}

/// The address that begins at `pos`.
pub open spec fn address_at(t: Seq<char>, pos: int) -> Seq<char> {
    let tail = after(t, pos);
    without_sentence_marks(tail.take(address_length(tail)))
}

/// The first address of the web that begins near the start of a text.
pub open spec fn address_in(s: Seq<char>) -> Option<Seq<char>> {
    let t = trim_start(s);
    match address_start(t) {
        None => None,
        Some(pos) => {
            let url = address_at(t, pos);
            if url.len() >= 8 && web_address(url) {
                Some(url)
            } else {
                None
            }
        },
    }
}

fn ends_address_at(c: char) -> (r: bool)
    ensures
        r == ends_address(c),
{
    c.is_whitespace() || c == '"' || c == '\'' || c == '<' || c == '>' || c == ')' || c == ']' || c
        == '}' || c == '，' || c == '。' || c == '｜' || c == '|' || c == '`'
}

fn is_of_sentence(c: char) -> (r: bool)
    ensures
        r == of_sentence(c),
{
    c == '.' || c == ',' || c == ';' || c == '。' || c == ')' || c == ']' || c == '}' || c == '，'
}

/// The address that begins at `pos`.
fn take_address(v: &Vec<char>, pos: usize) -> (r: String)
    requires
        pos <= v@.len(),
    ensures
        r@ == address_at(v@, pos as int),
{
    let n = v.len();
    let ghost tail = after(v@, pos as int);
    let mut end: usize = pos;
    assert(tail.skip(0) =~= tail);
    while end < n && !ends_address_at(v[end])
        invariant
            pos <= end <= n,
            n == v@.len(),
            tail == after(v@, pos as int),
            address_length(tail) == end - pos + address_length(tail.skip(end - pos)),
        decreases n - end,
    {
        assert(tail.skip(end - pos)[0] == v@[end as int]);
        assert(tail.skip(end - pos).skip(1) =~= tail.skip(end - pos + 1));
        end = end + 1;
    }
    assert(end < n ==> tail.skip(end - pos)[0] == v@[end as int]);
    assert(address_length(tail) == end - pos);
    let ghost whole = tail.take(end - pos);
    assert(v@.subrange(pos as int, end as int) =~= whole);
    while end > pos && is_of_sentence(v[end - 1])
        invariant
            pos <= end <= n,
            n == v@.len(),
            without_sentence_marks(whole) == without_sentence_marks(
                v@.subrange(pos as int, end as int),
            ),
        decreases end,
    {
        assert(v@.subrange(pos as int, end as int).drop_last() =~= v@.subrange(
            pos as int,
            end - 1,
        ));
        end = end - 1;
    }
    from_chars(v, pos, end)
}

/// The first address of the web that begins near the start of a text. Texts of some length that
/// merely mention one further down are left alone.
pub fn extract_http_url_from_text(s: &str) -> (r: Option<String>)
    ensures
        opt_text(r) == address_in(s@),
        r is Some ==> web_address(r->0@),
{
    let text = trimmed_start(s);
    let t = to_chars(text.as_str());
    let n = if t.len() > LOOKAHEAD {
        LOOKAHEAD
    } else {
        t.len()
    };
    let head_text = from_chars(&t, 0, n);
    let head = to_chars(head_text.as_str());
    assert(head@ =~= (if t@.len() > LOOKAHEAD {
        t@.take(LOOKAHEAD as int)
    } else {
        t@
    }));
    let lower = to_ascii_lowercase(&head);
    let secure = to_chars("https://");
    let plain = to_chars("http://");
    proof {
        reveal_strlit("https://");
        reveal_strlit("http://");
    }
    let start = match (place_of(&lower, &secure), place_of(&lower, &plain)) {
        (Some(i), Some(j)) => if i < j {
            Some(i)
        } else {
            Some(j)
        },
        (Some(i), None) => Some(i),
        (None, j) => j,
    };
    match start {
        None => None,
        Some(pos) => {
            let url = take_address(&t, pos);
            let chars = to_chars(url.as_str());
            if chars.len() < 8 {
                return None;
            }
            if is_web_address(url.as_str()) {
                Some(url)
            } else {
                None
            }
        },
    }
}

proof fn without_marks_is_prefix(s: Seq<char>)
    ensures
        without_sentence_marks(s).len() <= s.len(),
        without_sentence_marks(s) == s.take(without_sentence_marks(s).len() as int),
    decreases s.len(),
{
    if s.len() > 0 && of_sentence(s.last()) {
        without_marks_is_prefix(s.drop_last());
        let n = without_sentence_marks(s).len() as int;
        assert(s.drop_last().take(n) =~= s.take(n));
    } else {
        assert(s.take(s.len() as int) =~= s);
    }
}

proof fn address_length_bounds(s: Seq<char>)
    ensures
        0 <= address_length(s) <= s.len(),
    decreases s.len(),
{
    if s.len() > 0 && !ends_address(s[0]) {
        address_length_bounds(s.skip(1));
    }
}

proof fn trim_start_is_suffix(s: Seq<char>) -> (k: int)
    ensures
        0 <= k <= s.len(),
        trim_start(s) == s.skip(k),
    decreases s.len(),
{
    if s.len() > 0 && is_white_space(s[0]) {
        let k = trim_start_is_suffix(s.drop_first());
        assert(s.drop_first().skip(k) =~= s.skip(k + 1));
        k + 1
    } else {
        assert(s.skip(0) =~= s);
        0
    }
}

proof fn found_place_is_in(s: Seq<char>, pat: Seq<char>, from: int)
    requires
        from >= 0,
    ensures
        found_from(s, pat, from) matches Some(i) ==> from <= i && i + pat.len() <= s.len(),
        match found_from(s, pat, from) {
            Some(i) => occurs_at(s, pat, i) && forall|j: int| from <= j < i ==> !occurs_at(s, pat, j),
            None => pat.len() > 0 ==> forall|j: int| from <= j ==> !occurs_at(s, pat, j),
        },
    decreases s.len() - from,
{
    if from < s.len() && from + pat.len() <= s.len() && !occurs_at(s, pat, from) {
        found_place_is_in(s, pat, from + 1);
    }
}

/// An address found in a text stands in it, and is an address of the web.
pub proof fn address_found_stands_in_text(s: Seq<char>)
    ensures
        address_in(s) matches Some(url) ==> crate::text::contains(s, url) && web_address(url),
{
    let t = trim_start(s);
    if let Some(url) = address_in(s) {
        let k = trim_start_is_suffix(s);
        found_place_is_in(searched(t), "https://"@, 0);
        found_place_is_in(searched(t), "http://"@, 0);
        let pos = address_start(t)->0;
        let tail = after(t, pos);
        address_length_bounds(tail);
        without_marks_is_prefix(tail.take(address_length(tail)));
        assert(s.subrange(k + pos, k + pos + url.len()) =~= url);
        assert(occurs_at(s, url, k + pos));
    }
}

/// Before the place at which an address is read, none begins in the part of the text that is
/// searched; where no address is read, none begins there at all.
pub proof fn first_address_is_read(t: Seq<char>)
    ensures
        ({
            let head = searched(t);
            match address_start(t) {
                Some(i) => {
                    &&& occurs_at(head, "https://"@, i) || occurs_at(head, "http://"@, i)
                    &&& forall|j: int|
                        0 <= j < i ==> !occurs_at(head, "https://"@, j) && !occurs_at(
                            head,
                            "http://"@,
                            j,
                        )
                },
                None => !crate::text::contains(head, "https://"@) && !crate::text::contains(
                    head,
                    "http://"@,
                ),
            }
        }),
{
    reveal_strlit("https://");
    reveal_strlit("http://");
    found_place_is_in(searched(t), "https://"@, 0);
    found_place_is_in(searched(t), "http://"@, 0);
}

/// An address found in a text begins within the first characters of it, the space at the start
/// aside.
pub proof fn address_begins_near_start(s: Seq<char>)
    ensures
        address_in(s) is Some ==> 0 <= address_start(trim_start(s))->0 < LOOKAHEAD,
{
    let t = trim_start(s);
    reveal_strlit("https://");
    reveal_strlit("http://");
    found_place_is_in(searched(t), "https://"@, 0);
    found_place_is_in(searched(t), "http://"@, 0);
}

// ---------------------------------------------------------------------------------------------
// Shortcut files
// ---------------------------------------------------------------------------------------------

/// The text without byte order marks at its start.
pub open spec fn without_marks(s: Seq<char>) -> Seq<char>
    decreases s.len(),
{
    if s.len() > 0 && s[0] == '\u{feff}' {
        without_marks(s.skip(1))
    } else {
        s
    }
}

/// Whether the line gives an address.
pub open spec fn gives_url(line: Seq<char>) -> bool {
    line.len() >= 4 && ascii_upper(line[0]) == 'U' && ascii_upper(line[1]) == 'R' && ascii_upper(
        line[2],
    ) == 'L' && line[3] == '='
}

/// The address that a line of a shortcut file gives.
pub open spec fn url_of_line(raw: Seq<char>) -> Option<Seq<char>> {
    let line = without_marks(trim(raw));
    if gives_url(line) && trim(after(line, 4)).len() > 0 {
        Some(trim(after(line, 4)))
    } else {
        None
    }
}

/// The first address that the lines give.
pub open spec fn url_of_lines(rows: Seq<Seq<char>>) -> Option<Seq<char>>
    decreases rows.len(),
{
    if rows.len() == 0 {
        None
    } else if url_of_line(rows[0]) is Some {
        url_of_line(rows[0])
    } else {
        url_of_lines(rows.skip(1))
    }
}

fn read_url_line(raw: &str) -> (r: Option<String>)
    ensures
        opt_text(r) == url_of_line(raw@),
{
    let text = trimmed(raw);
    let v = to_chars(text.as_str());
    let n = v.len();
    let mut from: usize = 0;
    assert(v@.skip(0) =~= v@);
    while from < n && v[from] == '\u{feff}'
        invariant
            from <= n,
            n == v@.len(),
            without_marks(v@) == without_marks(v@.skip(from as int)),
        decreases n - from,
    {
        assert(v@.skip(from as int).skip(1) =~= v@.skip(from + 1));
        from = from + 1;
    }
    let ghost line = v@.skip(from as int);
    assert(without_marks(v@) == line);
    if n - from < 4 {
        return None;
    }
    if to_ascii_upper(v[from]) != 'U' || to_ascii_upper(v[from + 1]) != 'R' || to_ascii_upper(
        v[from + 2],
    ) != 'L' || v[from + 3] != '=' {
        return None;
    }
    let rest = from_chars(&v, from + 4, n);
    assert(rest@ =~= after(line, 4));
    let url = trimmed(rest.as_str());
    if url.as_str().is_empty() {
        None
    } else {
        Some(url)
    }
}

/// The address that a shortcut file gives.
pub open spec fn shortcut_url(file: Seq<u8>) -> Option<Seq<char>> {
    url_of_lines(lines(utf8_text(file)))
}

/// The address that the shortcut file gives.
pub fn parse_internet_shortcut_url(file: &Vec<u8>) -> (r: Option<String>)
    ensures
        opt_text(r) == shortcut_url(file@),
{
    let text = decode_utf8(file, file.len());
    assert(file@.take(file@.len() as int) =~= file@);
    shortcut_url_in_text(text.as_str())
}

/// The address that the text of a shortcut file gives.
pub fn shortcut_url_in_text(text: &str) -> (r: Option<String>)
    ensures
        opt_text(r) == url_of_lines(lines(text@)),
{
    let rows = split_lines(text);
    let ghost all = texts(rows@);
    let mut i: usize = 0;
    assert(all.skip(0) =~= all);
    while i < rows.len()
        invariant
            i <= rows@.len(),
            all == texts(rows@),
            all == lines(text@),
            url_of_lines(all) == url_of_lines(all.skip(i as int)),
        decreases rows@.len() - i,
    {
        let found = read_url_line(rows[i].as_str());
        assert(all.skip(i as int)[0] == rows@[i as int]@);
        if found.is_some() {
            return found;
        }
        assert(all.skip(i as int).skip(1) =~= all.skip(i + 1));
        i = i + 1;
    }
    assert(all.skip(i as int) =~= Seq::empty());
    None
}

/// The path that the system gives for one of its shortcuts, in units of sixteen bits and closed
/// by a zero. None where it is empty, blank or no text.
pub open spec fn shortcut_target(units: Seq<u16>) -> Option<Seq<char>> {
    let name = before_zero(units);
    if paired(name) && trim(from_utf16(name)).len() > 0 {
        Some(trim(from_utf16(name)))
    } else {
        None
    }
}

/// The path that the system gives for one of its shortcuts.
pub fn resolve_windows_shortcut_target(units: &Vec<u16>) -> (r: Option<String>)
    ensures
        opt_text(r) == shortcut_target(units@),
{
    let end = find_zero(units);
    if !all_paired(units, end) {
        return None;
    }
    let text = decode_utf16(units, end);
    let t = trimmed(text.as_str());
    if t.as_str().is_empty() {
        None
    } else {
        Some(t)
    }
}

} // verus!
