//! What is read of a dropped text as an address, whatever the text.

use vstd::prelude::*;

use crate::links::{
    address_in, address_length, address_start, extract_http_url_from_text, shortcut_url_in_text,
    without_sentence_marks,
};
use crate::text::{
    after, ascii_lower, is_white_space, occurs_at, opt_text, trim, trim_start, trimmed,
};
use crate::text_laws::{leading_white_space_is_taken, line_feed_ends_line};
use crate::web::parsed_url;

verus! {

// ---------------------------------------------------------------------------------------------
// Where an address begins and ends
// ---------------------------------------------------------------------------------------------

/// Whether the character is white space, a quotation mark, an angle bracket, a closing bracket, a
/// bar, a back quote, or a full-width comma, stop or bar: an address ends before it.
pub open spec fn parts_address(c: char) -> bool {
    ||| is_white_space(c)
    ||| seq!['"', '\'', '<', '>', ')', ']', '}', '|', '`', '，', '。', '｜'].contains(c)
}

/// Whether the character, at the end of an address, is a mark of the sentence around it.
pub open spec fn is_sentence_mark(c: char) -> bool {
    seq!['.', ',', ';', ')', ']', '}', '，', '。'].contains(c)
}

/// Whether the character is the letter `small`, or its capital.
pub open spec fn is_letter(c: char, small: char) -> bool {
    c == small || c as int + 32 == small as int
}

/// Whether `http://` or `https://` stands at `i`, in large or small letters, and ends before `end`.
pub open spec fn scheme_at(t: Seq<char>, i: int, end: int) -> bool {
    &&& 0 <= i && i + 7 <= end <= t.len()
    &&& is_letter(t[i], 'h') && is_letter(t[i + 1], 't') && is_letter(t[i + 2], 't') && is_letter(
        t[i + 3],
        'p',
    )
    &&& {
        ||| t[i + 4] == ':' && t[i + 5] == '/' && t[i + 6] == '/'
        ||| i + 8 <= end && is_letter(t[i + 4], 's') && t[i + 5] == ':' && t[i + 6] == '/' && t[i
            + 7] == '/'
    }
}

/// How many characters of a text are searched for the start of an address: the first 256.
pub open spec fn searched_length(t: Seq<char>) -> int {
    if t.len() > 256 {
        256
    } else {
        t.len() as int
    }
}

proof fn small_letter_of(c: char, x: char)
    requires
        'a' <= x <= 'z',
    ensures
        ascii_lower(c) == x <==> is_letter(c, x),
{
}

proof fn scheme_is_found(t: Seq<char>, i: int)
    ensures
        scheme_at(t, i, searched_length(t)) <==> occurs_at(
            crate::links::searched(t),
            "https://"@,
            i,
        ) || occurs_at(crate::links::searched(t), "http://"@, i),
{
    reveal_strlit("https://");
    reveal_strlit("http://");
    let n = searched_length(t);
    let head = crate::links::searched(t);
    assert(head.len() == n);
    assert forall|k: int| 0 <= k < n implies head[k] == ascii_lower(#[trigger] t[k]) by {}
    if 0 <= i && i + 7 <= n {
        let s = head.subrange(i, i + 7);
        assert(s.len() == 7);
        small_letter_of(t[i], 'h');
        small_letter_of(t[i + 1], 't');
        small_letter_of(t[i + 2], 't');
        small_letter_of(t[i + 3], 'p');
        assert(s[0] == head[i] && s[1] == head[i + 1] && s[2] == head[i + 2] && s[3] == head[i + 3]
            && s[4] == head[i + 4] && s[5] == head[i + 5] && s[6] == head[i + 6]);
        if s == "http://"@ {
            assert(s[0] == 'h' && s[1] == 't' && s[2] == 't' && s[3] == 'p' && s[4] == ':' && s[5]
                == '/' && s[6] == '/');
            assert(t[i + 4] == ':' && t[i + 5] == '/' && t[i + 6] == '/');
        }
        if t[i + 4] == ':' && t[i + 5] == '/' && t[i + 6] == '/' && scheme_at(t, i, n) {
            assert(s =~= "http://"@);
        }
        if i + 8 <= n {
            let u = head.subrange(i, i + 8);
            assert(u.len() == 8);
            small_letter_of(t[i + 4], 's');
            assert(u[0] == head[i] && u[1] == head[i + 1] && u[2] == head[i + 2] && u[3] == head[i
                + 3] && u[4] == head[i + 4] && u[5] == head[i + 5] && u[6] == head[i + 6] && u[7]
                == head[i + 7]);
            if u == "https://"@ {
                assert(u[0] == 'h' && u[1] == 't' && u[2] == 't' && u[3] == 'p' && u[4] == 's'
                    && u[5] == ':' && u[6] == '/' && u[7] == '/');
                assert(t[i + 5] == ':' && t[i + 6] == '/' && t[i + 7] == '/');
            }
            if is_letter(t[i + 4], 's') && t[i + 5] == ':' && t[i + 6] == '/' && t[i + 7] == '/'
                && scheme_at(t, i, n) {
                assert(u =~= "https://"@);
            }
        }
    }
}

proof fn same_marks(c: char)
    ensures
        crate::links::ends_address(c) <==> parts_address(c),
        crate::links::of_sentence(c) <==> is_sentence_mark(c),
{
    let a = seq!['"', '\'', '<', '>', ')', ']', '}', '|', '`', '，', '。', '｜'];
    assert(a[0] == '"' && a[1] == '\'' && a[2] == '<' && a[3] == '>' && a[4] == ')' && a[5] == ']'
        && a[6] == '}' && a[7] == '|' && a[8] == '`' && a[9] == '，' && a[10] == '。' && a[11]
        == '｜');
    let b = seq!['.', ',', ';', ')', ']', '}', '，', '。'];
    assert(b[0] == '.' && b[1] == ',' && b[2] == ';' && b[3] == ')' && b[4] == ']' && b[5] == '}'
        && b[6] == '，' && b[7] == '。');
}

proof fn run_reaches(s: Seq<char>, n: int)
    requires
        0 <= n <= s.len(),
        forall|i: int| 0 <= i < n ==> !parts_address(#[trigger] s[i]),
        n < s.len() ==> parts_address(s[n]),
    ensures
        address_length(s) == n,
    decreases n,
{
    if n > 0 {
        let t = s.skip(1);
        same_marks(s[0]);
        assert forall|i: int| 0 <= i < n - 1 implies !parts_address(#[trigger] t[i]) by {
            assert(t[i] == s[i + 1]);
        }
        run_reaches(t, n - 1);
    } else if s.len() > 0 {
        same_marks(s[0]);
    }
}

proof fn marks_are_taken(s: Seq<char>, n: int)
    requires
        0 <= n <= s.len(),
        forall|i: int| n <= i < s.len() ==> is_sentence_mark(#[trigger] s[i]),
        n > 0 ==> !is_sentence_mark(s[n - 1]),
    ensures
        without_sentence_marks(s) == s.take(n),
    decreases s.len(),
{
    if s.len() > 0 {
        same_marks(s.last());
    }
    if n < s.len() {
        let t = s.drop_last();
        assert(is_sentence_mark(s[s.len() - 1]));
        assert forall|i: int| n <= i < t.len() implies is_sentence_mark(#[trigger] t[i]) by {
            assert(t[i] == s[i]);
        }
        marks_are_taken(t, n);
        assert(t.take(n) =~= s.take(n));
    } else {
        assert(s.take(n) =~= s);
    }
}

/// Whether an address stands from `from` to `to` in a text: it begins there with `http://` or
/// `https://`, the first to do so near the start of the text; it goes on to the next character
/// that parts addresses, or to the end of the text; and marks of the sentence at its end, which
/// stand from `to` on, are none of it.
pub open spec fn address_stands(t: Seq<char>, from: int, to: int, end: int) -> bool {
    &&& scheme_at(t, from, searched_length(t))
    &&& forall|i: int| 0 <= i < from ==> !#[trigger] scheme_at(t, i, searched_length(t))
    &&& from <= to <= end <= t.len()
    &&& forall|i: int| from <= i < end ==> !parts_address(#[trigger] t[i])
    &&& end < t.len() ==> parts_address(t[end])
    &&& forall|i: int| to <= i < end ==> is_sentence_mark(#[trigger] t[i])
    &&& to > from ==> !is_sentence_mark(t[to - 1])
}

proof fn start_is_first_scheme(t: Seq<char>, from: int)
    requires
        scheme_at(t, from, searched_length(t)),
        forall|i: int| 0 <= i < from ==> !#[trigger] scheme_at(t, i, searched_length(t)),
    ensures
        address_start(t) == Some(from),
{
    let head = crate::links::searched(t);
    scheme_is_found(t, from);
    crate::links::first_address_is_read(t);
    match address_start(t) {
        Some(i) => {
            scheme_is_found(t, i);
            if i < from {
                assert(!scheme_at(t, i, searched_length(t)));
            } else if from < i {
                assert(!occurs_at(head, "https://"@, from) && !occurs_at(head, "http://"@, from));
            }
        },
        None => {
            assert(crate::text::contains(head, "https://"@) || crate::text::contains(
                head,
                "http://"@,
            ));
        },
    }
}

/// The address that stands in a text, white space at its start aside, is read whole, if it is at
/// least eight characters long and is an address of the web; and nothing else is.
pub proof fn standing_address_is_read(
    s: &str,
    r: Option<String>,
    skipped: int,
    from: int,
    to: int,
    end: int,
)
    requires
        call_ensures(extract_http_url_from_text, (s,), r),
        0 <= skipped <= s@.len(),
        forall|i: int| 0 <= i < skipped ==> is_white_space(#[trigger] s@[i]),
        skipped < s@.len() ==> !is_white_space(s@[skipped]),
        address_stands(s@.subrange(skipped, s@.len() as int), from, to, end),
    ensures
        ({
            let url = s@.subrange(skipped + from, skipped + to);
            let web = parsed_url(url) matches Some((scheme, _)) && (scheme == "http"@ || scheme
                == "https"@);
            &&& r is Some <==> to - from >= 8 && web
            &&& r is Some ==> r->0@ == url
        }),
{
    standing_address_in(s@, skipped, from, to, end);
}

proof fn standing_address_in(s: Seq<char>, skipped: int, from: int, to: int, end: int)
    requires
        0 <= skipped <= s.len(),
        forall|i: int| 0 <= i < skipped ==> is_white_space(#[trigger] s[i]),
        skipped < s.len() ==> !is_white_space(s[skipped]),
        address_stands(s.subrange(skipped, s.len() as int), from, to, end),
    ensures
        address_in(s) == (if to - from >= 8 && crate::web::web_address(
            s.subrange(skipped + from, skipped + to),
        ) {
            Some(s.subrange(skipped + from, skipped + to))
        } else {
            None
        }),
{
    let n = leading_white_space_is_taken(s);
    assert(n == skipped) by {
        if n < skipped {
            assert(is_white_space(s[n]));
        } else if skipped < n {
            assert(is_white_space(s[skipped]));
        }
    }
    let t = s.subrange(skipped, s.len() as int);
    start_is_first_scheme(t, from);
    let tail = after(t, from);
    assert forall|i: int| 0 <= i < end - from implies !parts_address(#[trigger] tail[i]) by {
        assert(tail[i] == t[from + i]);
    }
    if end < t.len() {
        assert(tail[end - from] == t[end]);
    }
    run_reaches(tail, end - from);
    let whole = tail.take(end - from);
    assert forall|i: int| to - from <= i < whole.len() implies is_sentence_mark(
        #[trigger] whole[i],
    ) by {
        assert(whole[i] == t[from + i]);
    }
    if to > from {
        assert(whole[to - from - 1] == t[to - 1]);
    }
    marks_are_taken(whole, to - from);
    assert(whole.take(to - from) =~= s.subrange(skipped + from, skipped + to));
}

/// A text that is an address of the web, of at least eight characters and without a character that
/// parts addresses, and that does not end in a mark of the sentence, is read whole.
pub proof fn address_alone_is_read_whole(s: &str, r: Option<String>)
    requires
        call_ensures(extract_http_url_from_text, (s,), r),
        scheme_at(s@, 0, searched_length(s@)),
        s@.len() >= 8,
        forall|i: int| 0 <= i < s@.len() ==> !parts_address(#[trigger] s@[i]),
        !is_sentence_mark(s@.last()),
        parsed_url(s@) matches Some((scheme, _)) && (scheme == "http"@ || scheme == "https"@),
    ensures
        r is Some && r->0@ == s@,
{
    let n = s@.len() as int;
    assert(s@.subrange(0, n) =~= s@);
    assert(!parts_address(s@[0]));
    standing_address_in(s@, 0, 0, n, n);
}

/// In a text in which neither `http://` nor `https://` stands near the start, no address is read.
pub proof fn text_without_address_gives_none(s: &str, r: Option<String>, skipped: int)
    requires
        call_ensures(extract_http_url_from_text, (s,), r),
        0 <= skipped <= s@.len(),
        forall|i: int| 0 <= i < skipped ==> is_white_space(#[trigger] s@[i]),
        skipped < s@.len() ==> !is_white_space(s@[skipped]),
        forall|i: int|
            !#[trigger] scheme_at(
                s@.subrange(skipped, s@.len() as int),
                i,
                searched_length(s@.subrange(skipped, s@.len() as int)),
            ),
    ensures
        r is None,
{
    let n = leading_white_space_is_taken(s@);
    assert(n == skipped) by {
        if n < skipped {
            assert(is_white_space(s@[n]));
        } else if skipped < n {
            assert(is_white_space(s@[skipped]));
        }
    }
    let t = s@.subrange(skipped, s@.len() as int);
    crate::links::first_address_is_read(t);
    if let Some(i) = address_start(t) {
        scheme_is_found(t, i);
    }
}

// ---------------------------------------------------------------------------------------------
// Lines
// ---------------------------------------------------------------------------------------------

proof fn white_space_at_end_is_trimmed(b: Seq<char>, w: char)
    requires
        is_white_space(w),
    ensures
        trim(b.push(w)) == trim(b),
    decreases b.len(),
{
    let s = b.push(w);
    if b.len() == 0 {
        assert(s.drop_first() =~= b);
        assert(trim_start(s) == trim_start(b));
    } else if is_white_space(b[0]) {
        white_space_at_end_is_trimmed(b.drop_first(), w);
        assert(s.drop_first() =~= b.drop_first().push(w));
    } else {
        assert(s.drop_last() =~= b);
    }
}

/// The first line of a text, trimmed, and the other lines.
pub proof fn first_line_trimmed(line: Seq<char>, rest: Seq<char>)
    requires
        forall|i: int| 0 <= i < line.len() ==> line[i] != '\n',
    ensures
        ({
            let all = crate::text::lines(line + seq!['\n'] + rest);
            &&& all.len() > 0
            &&& trim(all[0]) == trim(line)
            &&& all.skip(1) == crate::text::lines(rest)
        }),
{
    line_feed_ends_line(line, rest);
    if line.len() > 0 && line.last() == '\r' {
        assert(line.drop_last().push('\r') =~= line);
        white_space_at_end_is_trimmed(line.drop_last(), '\r');
    }
}

/// Whether the text reads `URL=`, in large or small letters, and something.
pub open spec fn reads_url(t: Seq<char>) -> bool {
    &&& t.len() >= 4
    &&& is_letter(t[0], 'u') && is_letter(t[1], 'r') && is_letter(t[2], 'l') && t[3] == '='
    &&& trim(t.subrange(4, t.len() as int)).len() > 0
}

/// So many byte order marks in a row.
pub open spec fn order_marks(n: nat) -> Seq<char> {
    Seq::new(n, |i: int| '\u{feff}')
}

proof fn marks_are_passed(n: nat, t: Seq<char>)
    requires
        t.len() > 0 ==> t[0] != '\u{feff}',
    ensures
        crate::links::without_marks(order_marks(n) + t) == t,
    decreases n,
{
    let s = order_marks(n) + t;
    if n == 0 {
        assert(s =~= t);
    } else {
        assert(s[0] == '\u{feff}');
        assert(s.skip(1) =~= order_marks((n - 1) as nat) + t);
        marks_are_passed((n - 1) as nat, t);
    }
}

/// Of a web shortcut, the first line that reads `URL=`, in large or small letters, and something
/// gives the address: what follows, without white space around it. White space and byte order marks
/// before it are passed over, and so are lines before it that read otherwise.
pub proof fn shortcut_gives_its_address(
    whole: &str,
    r: Option<String>,
    rest: &str,
    s: Option<String>,
    line: Seq<char>,
    marks: nat,
    t: Seq<char>,
)
    requires
        call_ensures(shortcut_url_in_text, (whole,), r),
        call_ensures(shortcut_url_in_text, (rest,), s),
        whole@ == line + seq!['\n'] + rest@,
        forall|i: int| 0 <= i < line.len() ==> line[i] != '\n',
        trim(line) == order_marks(marks) + t,
        t.len() > 0 ==> t[0] != '\u{feff}',
    ensures
        reads_url(t) ==> r is Some && r->0@ == trim(t.subrange(4, t.len() as int)),
        !reads_url(t) ==> opt_text(r) == opt_text(s),
        rest@.len() == 0 ==> s is None,
{
    first_line_trimmed(line, rest@);
    marks_are_passed(marks, t);
    if t.len() >= 4 {
        large_letter_of(t[0], 'u', 'U');
        large_letter_of(t[1], 'r', 'R');
        large_letter_of(t[2], 'l', 'L');
    }
    if rest@.len() == 0 {
        crate::text_laws::text_without_line_feed_is_a_line(rest@);
    }
}

proof fn large_letter_of(c: char, x: char, y: char)
    requires
        'a' <= x <= 'z',
        x as int == y as int + 32,
    ensures
        crate::text::ascii_upper(c) == y <==> is_letter(c, x),
{
}

} // verus!
