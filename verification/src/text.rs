//! Text as sequences of characters: trimming, searching, splitting and joining, in whose terms the
//! rest of the library states its contracts.

use vstd::prelude::*;

verus! {

/// `String::push` appends one character.
pub assume_specification[ String::push ](s: &mut String, c: char)
    ensures
        final(s)@ == old(s)@.push(c),
;

/// The characters with the Unicode `White_Space` property.
pub open spec fn is_white_space(c: char) -> bool {
    ||| '\u{9}' <= c <= '\u{d}'
    ||| c == '\u{20}'
    ||| c == '\u{85}'
    ||| c == '\u{a0}'
    ||| c == '\u{1680}'
    ||| '\u{2000}' <= c <= '\u{200a}'
    ||| c == '\u{2028}'
    ||| c == '\u{2029}'
    ||| c == '\u{202f}'
    ||| c == '\u{205f}'
    ||| c == '\u{3000}'
}

/// `char::is_whitespace` tests for the `White_Space` property.
pub assume_specification[ char::is_whitespace ](c: char) -> (r: bool)
    ensures
        r == is_white_space(c),
;

/// The lower case form of a text, by the Unicode rules that `str::to_lowercase` follows.
pub uninterp spec fn lowercase(s: Seq<char>) -> Seq<char>;

/// `str::to_lowercase` maps a text to its lower case form; the same text gives the same form.
/// That the lower case form of the empty text is empty follows from its being built
/// character by character.
pub assume_specification[ str::to_lowercase ](s: &str) -> (r: String)
    ensures
        r@ == lowercase(s@),
        s@.len() == 0 ==> r@.len() == 0,
;

/// The characters of a text, one by one.
pub fn to_chars(s: &str) -> (r: Vec<char>)
    ensures
        r@ == s@,
{
    let mut out: Vec<char> = Vec::new();
    for c in it: s.chars()
        invariant
            out@ == it.seq().take(it.index() as int),
            it.seq() == s@,
    {
        out.push(c);
    }
    out
}

/// The text made of the characters `v[from..to]`.
pub fn from_chars(v: &Vec<char>, from: usize, to: usize) -> (r: String)
    requires
        from <= to <= v@.len(),
    ensures
        r@ == v@.subrange(from as int, to as int),
{
    let mut s = String::new();
    let mut i: usize = from;
    while i < to
        invariant
            from <= i <= to <= v@.len(),
            s@ == v@.subrange(from as int, i as int),
        decreases to - i,
    {
        s.push(v[i]);
        i = i + 1;
        assert(v@.subrange(from as int, i as int) =~= v@.subrange(from as int, i - 1).push(
            v@[i - 1],
        ));
    }
    s
}

/// Whether two texts hold the same characters.
pub fn same_text(a: &str, b: &str) -> (r: bool)
    ensures
        r == (a@ == b@),
{
    let x = to_chars(a);
    let y = to_chars(b);
    same_chars(&x, &y)
}

/// Whether two character lists are equal.
pub fn same_chars(x: &Vec<char>, y: &Vec<char>) -> (r: bool)
    ensures
        r == (x@ == y@),
{
    if x.len() != y.len() {
        return false;
    }
    let mut i: usize = 0;
    while i < x.len()
        invariant
            x@.len() == y@.len(),
            i <= x@.len(),
            x@.take(i as int) == y@.take(i as int),
        decreases x@.len() - i,
    {
        if x[i] != y[i] {
            assert(x@[i as int] != y@[i as int]);
            return false;
        }
        assert(x@.take(i + 1) =~= x@.take(i as int).push(x@[i as int]));
        assert(y@.take(i + 1) =~= y@.take(i as int).push(y@[i as int]));
        i = i + 1;
    }
    assert(x@.take(i as int) =~= x@);
    assert(y@.take(i as int) =~= y@);
    true
}

/// The texts of a list of strings.
pub open spec fn texts(v: Seq<String>) -> Seq<Seq<char>> {
    v.map_values(|s: String| s@)
}

/// The text of an optional string.
pub open spec fn opt_text(o: Option<String>) -> Option<Seq<char>> {
    match o {
        Some(s) => Some(s@),
        None => None,
    }
}

/// One text followed by another.
pub fn concat(a: &str, b: &str) -> (r: String)
    ensures
        r@ == a@ + b@,
{
    let mut s = a.to_owned();
    s.append(b);
    s
}

/// Three texts in a row.
pub fn concat3(a: &str, b: &str, c: &str) -> (r: String)
    ensures
        r@ == a@ + b@ + c@,
{
    let mut s = a.to_owned();
    s.append(b);
    s.append(c);
    s
}

// ---------------------------------------------------------------------------------------------
// Trimming
// ---------------------------------------------------------------------------------------------

/// `s` without its leading white space.
pub open spec fn trim_start(s: Seq<char>) -> Seq<char>
    decreases s.len(),
{
    if s.len() > 0 && is_white_space(s[0]) {
        trim_start(s.drop_first())
    } else {
        s
    }
}

/// `s` without its trailing white space.
pub open spec fn trim_end(s: Seq<char>) -> Seq<char>
    decreases s.len(),
{
    if s.len() > 0 && is_white_space(s.last()) {
        trim_end(s.drop_last())
    } else {
        s
    }
}

/// `s` without its leading and trailing white space.
pub open spec fn trim(s: Seq<char>) -> Seq<char> {
    trim_end(trim_start(s))
}

/// The number of leading white space characters.
fn leading_white_space(v: &Vec<char>) -> (n: usize)
    ensures
        n <= v@.len(),
        trim_start(v@) == v@.subrange(n as int, v@.len() as int),
{
    let mut n: usize = 0;
    assert(v@.subrange(0, v@.len() as int) =~= v@);
    while n < v.len() && v[n].is_whitespace()
        invariant
            n <= v@.len(),
            trim_start(v@) == trim_start(v@.subrange(n as int, v@.len() as int)),
        decreases v@.len() - n,
    {
        assert(v@.subrange(n as int, v@.len() as int).drop_first() =~= v@.subrange(
            n + 1,
            v@.len() as int,
        ));
        n = n + 1;
    }
    n
}

/// The end of `v[from..]` once trailing white space is dropped.
fn end_of_text(v: &Vec<char>, from: usize) -> (end: usize)
    requires
        from <= v@.len(),
    ensures
        from <= end <= v@.len(),
        trim_end(v@.subrange(from as int, v@.len() as int)) == v@.subrange(
            from as int,
            end as int,
        ),
{
    let mut end: usize = v.len();
    while end > from && v[end - 1].is_whitespace()
        invariant
            from <= end <= v@.len(),
            trim_end(v@.subrange(from as int, v@.len() as int)) == trim_end(
                v@.subrange(from as int, end as int),
            ),
        decreases end,
    {
        assert(v@.subrange(from as int, end as int).drop_last() =~= v@.subrange(
            from as int,
            end - 1,
        ));
        end = end - 1;
    }
    end
}

/// `s` without its leading and trailing white space.
pub fn trimmed(s: &str) -> (r: String)
    ensures
        r@ == trim(s@),
{
    let v = to_chars(s);
    let from = leading_white_space(&v);
    let to = end_of_text(&v, from);
    from_chars(&v, from, to)
}

/// `s` without its leading white space.
pub fn trimmed_start(s: &str) -> (r: String)
    ensures
        r@ == trim_start(s@),
{
    let v = to_chars(s);
    let from = leading_white_space(&v);
    from_chars(&v, from, v.len())
}

/// Whether `s` holds nothing but white space.
pub fn is_blank(s: &str) -> (r: bool)
    ensures
        r == (trim(s@).len() == 0),
{
    trimmed(s).as_str().is_empty()
}

/// A text is blank exactly where every character of it is white space.
pub proof fn blank_means_all_white_space(s: Seq<char>)
    ensures
        trim(s).len() == 0 <==> forall|i: int| 0 <= i < s.len() ==> is_white_space(#[trigger] s[i]),
    decreases s.len(),
{
    if s.len() > 0 && is_white_space(s[0]) {
        let t = s.drop_first();
        blank_means_all_white_space(t);
        assert(trim(s) == trim(t));
        assert forall|i: int| 0 <= i < s.len() && (forall|j: int|
            0 <= j < t.len() ==> is_white_space(#[trigger] t[j])) implies is_white_space(
            #[trigger] s[i],
        ) by {
            if i > 0 {
                assert(t[i - 1] == s[i]);
            }
        }
        if forall|i: int| 0 <= i < s.len() ==> is_white_space(#[trigger] s[i]) {
            assert forall|j: int| 0 <= j < t.len() implies is_white_space(#[trigger] t[j]) by {
                assert(t[j] == s[j + 1]);
            }
        }
    } else if s.len() > 0 {
        trim_end_keeps_solid_head(s);
    }
}

proof fn trim_end_keeps_solid_head(s: Seq<char>)
    requires
        s.len() > 0,
        !is_white_space(s[0]),
    ensures
        trim_end(s).len() > 0,
    decreases s.len(),
{
    if is_white_space(s.last()) {
        assert(s.len() > 1);
        trim_end_keeps_solid_head(s.drop_last());
    }
}

// ---------------------------------------------------------------------------------------------
// Prefixes and searching
// ---------------------------------------------------------------------------------------------

/// Whether `pat` stands in `s` at position `i`.
pub open spec fn occurs_at(s: Seq<char>, pat: Seq<char>, i: int) -> bool {
    0 <= i && i + pat.len() <= s.len() && s.subrange(i, i + pat.len()) == pat
}

/// Whether `s` begins with `p`.
pub open spec fn starts_with(s: Seq<char>, p: Seq<char>) -> bool {
    occurs_at(s, p, 0)
}

/// Whether `pat` stands somewhere in `s`.
pub open spec fn contains(s: Seq<char>, pat: Seq<char>) -> bool {
    exists|i: int| occurs_at(s, pat, i)
}

/// What follows the first `n` characters of `s`.
pub open spec fn after(s: Seq<char>, n: int) -> Seq<char> {
    s.subrange(n, s.len() as int)
}

/// Whether `pat` stands in `v` at position `i`.
pub fn stands_at(v: &Vec<char>, pat: &Vec<char>, i: usize) -> (r: bool)
    ensures
        r == occurs_at(v@, pat@, i as int),
{
    if pat.len() > v.len() || i > v.len() - pat.len() {
        return false;
    }
    let n = v.len();
    let mut k: usize = 0;
    while k < pat.len()
        invariant
            k <= pat@.len(),
            n == v@.len(),
            i + pat@.len() <= n,
            forall|j: int| 0 <= j < k ==> v@[i + j] == #[trigger] pat@[j],
        decreases pat@.len() - k,
    {
        if v[i + k] != pat[k] {
            assert(v@.subrange(i as int, i + pat@.len())[k as int] != pat@[k as int]);
            return false;
        }
        k = k + 1;
    }
    assert(v@.subrange(i as int, i + pat@.len()) =~= pat@);
    true
}

/// The first position of `v` at which `pat` stands.
pub fn find_chars(v: &Vec<char>, pat: &Vec<char>) -> (r: Option<usize>)
    ensures
        match r {
            Some(i) => occurs_at(v@, pat@, i as int) && forall|j: int|
                0 <= j < i ==> !occurs_at(v@, pat@, j),
            None => !contains(v@, pat@),
        },
{
    let mut i: usize = 0;
    loop
        invariant
            i <= v@.len(),
            forall|j: int| 0 <= j < i ==> !occurs_at(v@, pat@, j),
        decreases v@.len() - i,
    {
        if stands_at(v, pat, i) {
            return Some(i);
        }
        if i == v.len() {
            assert forall|j: int| !occurs_at(v@, pat@, j) by {
                if j > i {
                    assert(j + pat@.len() > v@.len());
                }
            }
            return None;
        }
        i = i + 1;
    }
}

/// Whether `pat` stands somewhere in `s`.
pub fn has_text(s: &str, pat: &str) -> (r: bool)
    ensures
        r == contains(s@, pat@),
{
    let v = to_chars(s);
    let p = to_chars(pat);
    match find_chars(&v, &p) {
        Some(i) => true,
        None => false,
    }
}

/// Whether `s` begins with `p`.
pub fn has_prefix(s: &str, p: &str) -> (r: bool)
    ensures
        r == starts_with(s@, p@),
{
    let v = to_chars(s);
    let q = to_chars(p);
    stands_at(&v, &q, 0)
}

/// What follows the prefix `p`, where `s` begins with it.
pub fn strip_prefix(s: &str, p: &str) -> (r: Option<String>)
    ensures
        match r {
            Some(rest) => starts_with(s@, p@) && rest@ == after(s@, p@.len() as int),
            None => !starts_with(s@, p@),
        },
{
    let v = to_chars(s);
    let q = to_chars(p);
    if stands_at(&v, &q, 0) {
        Some(from_chars(&v, q.len(), v.len()))
    } else {
        None
    }
}

/// A text that is a prefix followed by a rest begins with the prefix, and what follows the
/// prefix is the rest.
pub proof fn prefix_then_rest(p: Seq<char>, rest: Seq<char>)
    ensures
        starts_with(p + rest, p),
        after(p + rest, p.len() as int) == rest,
{
    assert((p + rest).subrange(0, p.len() as int) =~= p);
    assert(after(p + rest, p.len() as int) =~= rest);
}

// ---------------------------------------------------------------------------------------------
// ASCII case
// ---------------------------------------------------------------------------------------------

/// The lower case form of an ASCII letter; any other character as it is.
pub open spec fn ascii_lower(c: char) -> char {
    if 'A' <= c <= 'Z' {
        (c as u32 + 32) as char
    } else {
        c
    }
}

/// The upper case form of an ASCII letter; any other character as it is.
pub open spec fn ascii_upper(c: char) -> char {
    if 'a' <= c <= 'z' {
        (c as u32 - 32) as char
    } else {
        c
    }
}

/// `s` with its ASCII letters in lower case.
pub open spec fn ascii_lowercase(s: Seq<char>) -> Seq<char> {
    s.map_values(|c: char| ascii_lower(c))
}

/// The lower case form of an ASCII letter; any other character as it is.
pub fn to_ascii_lower(c: char) -> (r: char)
    ensures
        r == ascii_lower(c),
{
    if 'A' <= c && c <= 'Z' {
        ((c as u8) + 32) as char
    } else {
        c
    }
}

/// The upper case form of an ASCII letter; any other character as it is.
pub fn to_ascii_upper(c: char) -> (r: char)
    ensures
        r == ascii_upper(c),
{
    if 'a' <= c && c <= 'z' {
        ((c as u8) - 32) as char
    } else {
        c
    }
}

/// `v` with its ASCII letters in lower case.
pub fn to_ascii_lowercase(v: &Vec<char>) -> (r: Vec<char>)
    ensures
        r@ == ascii_lowercase(v@),
{
    let mut out: Vec<char> = Vec::new();
    let mut i: usize = 0;
    while i < v.len()
        invariant
            i <= v@.len(),
            out@ == ascii_lowercase(v@.take(i as int)),
        decreases v@.len() - i,
    {
        out.push(to_ascii_lower(v[i]));
        i = i + 1;
        assert(ascii_lowercase(v@.take(i as int)) =~= ascii_lowercase(v@.take(i - 1)).push(
            ascii_lower(v@[i - 1]),
        ));
    }
    assert(v@.take(i as int) =~= v@);
    out
}

/// Whether two texts are equal once their ASCII letters are brought to one case.
pub fn same_ignoring_ascii_case(a: &str, b: &str) -> (r: bool)
    ensures
        r == (ascii_lowercase(a@) == ascii_lowercase(b@)),
{
    let x = to_ascii_lowercase(&to_chars(a));
    let y = to_ascii_lowercase(&to_chars(b));
    same_chars(&x, &y)
}

// ---------------------------------------------------------------------------------------------
// Lines, words and lists
// ---------------------------------------------------------------------------------------------

/// `line` without the carriage return that ends it, if one does.
pub open spec fn without_cr(line: Seq<char>) -> Seq<char> {
    if line.len() > 0 && line.last() == '\r' {
        line.drop_last()
    } else {
        line
    }
}

/// The position of the first line feed of `s`, or its length.
pub open spec fn first_line_feed(s: Seq<char>) -> int
    decreases s.len(),
{
    if s.len() == 0 || s[0] == '\n' {
        0
    } else {
        1 + first_line_feed(s.drop_first())
    }
}

/// The lines of `s`. A line ends at a line feed, which is not part of it, nor is a carriage
/// return right before it. What follows the last line feed is a line unless it is empty.
pub open spec fn lines(s: Seq<char>) -> Seq<Seq<char>>
    decreases s.len(),
{
    proof {
        first_line_feed_is_first(s);
    }
    let n = first_line_feed(s);
    if s.len() == 0 {
        Seq::empty()
    } else if n == s.len() {
        seq![s]
    } else {
        seq![without_cr(s.take(n))] + lines(after(s, n + 1))
    }
}

/// The first line feed of a text is a line feed, and none stands before it.
pub proof fn first_line_feed_is_first(s: Seq<char>)
    ensures
        0 <= first_line_feed(s) <= s.len(),
        first_line_feed(s) < s.len() ==> s[first_line_feed(s)] == '\n',
        forall|i: int| 0 <= i < first_line_feed(s) ==> s[i] != '\n',
    decreases s.len(),
{
    if s.len() > 0 && s[0] != '\n' {
        let t = s.drop_first();
        first_line_feed_is_first(t);
        assert forall|i: int| 0 <= i < first_line_feed(s) implies s[i] != '\n' by {
            if i > 0 {
                assert(t[i - 1] == s[i]);
            }
        }
    }
}

proof fn first_line_feed_unique(s: Seq<char>, n: int)
    requires
        0 <= n <= s.len(),
        n < s.len() ==> s[n] == '\n',
        forall|i: int| 0 <= i < n ==> s[i] != '\n',
    ensures
        first_line_feed(s) == n,
{
    first_line_feed_is_first(s);
    let m = first_line_feed(s);
    if m < n {
        assert(s[m] != '\n');
    } else if n < m {
        assert(s[n] != '\n');
    }
}

/// The lines of `s`.
pub fn split_lines(s: &str) -> (r: Vec<String>)
    ensures
        texts(r@) == lines(s@),
{
    let v = to_chars(s);
    let n = v.len();
    let mut out: Vec<String> = Vec::new();
    let mut from: usize = 0;
    let mut i: usize = 0;
    assert(after(v@, 0) =~= v@);
    assert(texts(out@) + lines(after(v@, 0)) =~= lines(v@));
    while i < n
        invariant
            n == v@.len(),
            from <= i <= n,
            forall|k: int| from <= k < i ==> v@[k] != '\n',
            texts(out@) + lines(after(v@, from as int)) == lines(v@),
        decreases n - i,
    {
        if v[i] == '\n' {
            let ghost rest_start = from as int;
            let ghost rest = after(v@, from as int);
            let ghost before = texts(out@);
            proof {
                first_line_feed_unique(rest, i - from);
            }
            let end: usize = if i > from && v[i - 1] == '\r' { i - 1 } else { i };
            assert(v@.subrange(from as int, end as int) =~= without_cr(rest.take(i - from)));
            assert(after(rest, i - from + 1) =~= after(v@, i + 1));
            out.push(from_chars(&v, from, end));
            assert(texts(out@) =~= before.push(v@.subrange(from as int, end as int)));
            from = i + 1;
            assert(lines(rest) == seq![v@.subrange(rest_start, end as int)] + lines(
                after(v@, from as int),
            ));
            assert(texts(out@) + lines(after(v@, from as int)) =~= before + lines(rest));
        }
        i = i + 1;
    }
    let ghost rest = after(v@, from as int);
    let ghost before = texts(out@);
    proof {
        first_line_feed_unique(rest, rest.len() as int);
    }
    if from < n {
        out.push(from_chars(&v, from, n));
        assert(texts(out@) =~= before + lines(rest));
    } else {
        assert(lines(rest) =~= Seq::<Seq<char>>::empty());
        assert(before + lines(rest) =~= before);
    }
    out
}

/// The length of the leading run of characters that are not white space.
pub open spec fn word_length(s: Seq<char>) -> int
    decreases s.len(),
{
    if s.len() == 0 || is_white_space(s[0]) {
        0
    } else {
        1 + word_length(s.drop_first())
    }
}

/// The words of `s`: its longest runs of characters that are not white space, in order.
pub open spec fn words(s: Seq<char>) -> Seq<Seq<char>>
    decreases s.len(),
{
    proof {
        word_length_bounds(s);
    }
    if s.len() == 0 {
        Seq::empty()
    } else if word_length(s) == 0 {
        words(s.drop_first())
    } else {
        seq![s.take(word_length(s))] + words(after(s, word_length(s)))
    }
}

/// The first word of a text lies within it.
pub proof fn word_length_bounds(s: Seq<char>)
    ensures
        0 <= word_length(s) <= s.len(),
    decreases s.len(),
{
    if s.len() > 0 && !is_white_space(s[0]) {
        word_length_bounds(s.drop_first());
    }
}

proof fn word_length_unique(s: Seq<char>, n: int)
    requires
        0 <= n <= s.len(),
        n < s.len() ==> is_white_space(s[n]),
        forall|i: int| 0 <= i < n ==> !is_white_space(#[trigger] s[i]),
    ensures
        word_length(s) == n,
    decreases s.len(),
{
    if n > 0 {
        assert(!is_white_space(s[0]));
        let t = s.drop_first();
        assert forall|i: int| 0 <= i < n - 1 implies !is_white_space(#[trigger] t[i]) by {
            assert(t[i] == s[i + 1]);
        }
        word_length_unique(t, n - 1);
    }
}

/// The words of `s`.
pub fn split_words(s: &str) -> (r: Vec<String>)
    ensures
        texts(r@) == words(s@),
{
    let v = to_chars(s);
    let n = v.len();
    let mut out: Vec<String> = Vec::new();
    let mut i: usize = 0;
    assert(after(v@, 0) =~= v@);
    assert(texts(out@) + words(after(v@, 0)) =~= words(v@));
    while i < n
        invariant
            n == v@.len(),
            i <= n,
            texts(out@) + words(after(v@, i as int)) == words(v@),
        decreases n - i,
    {
        let ghost rest = after(v@, i as int);
        let ghost before = texts(out@);
        if v[i].is_whitespace() {
            proof {
                word_length_unique(rest, 0);
                assert(rest.drop_first() =~= after(v@, i + 1));
            }
            i = i + 1;
        } else {
            let from = i;
            i = i + 1;
            while i < n && !v[i].is_whitespace()
                invariant
                    n == v@.len(),
                    from < i <= n,
                    forall|k: int| from <= k < i ==> !is_white_space(#[trigger] v@[k]),
                decreases n - i,
            {
                i = i + 1;
            }
            proof {
                assert forall|k: int| 0 <= k < i - from implies !is_white_space(
                    #[trigger] rest[k],
                ) by {
                    assert(rest[k] == v@[from + k]);
                }
                word_length_unique(rest, i - from);
                assert(rest.take(i - from) =~= v@.subrange(from as int, i as int));
                assert(after(rest, i - from) =~= after(v@, i as int));
            }
            out.push(from_chars(&v, from, i));
            assert(texts(out@) =~= before.push(v@.subrange(from as int, i as int)));
            assert(words(rest) == seq![v@.subrange(from as int, i as int)] + words(
                after(v@, i as int),
            ));
            assert(texts(out@) + words(after(v@, i as int)) =~= before + words(rest));
        }
    }
    assert(words(after(v@, i as int)) =~= Seq::<Seq<char>>::empty());
    assert(texts(out@) + words(after(v@, i as int)) =~= texts(out@));
    out
}

/// The texts of a list in a row, with `sep` between each two of them.
pub open spec fn joined(parts: Seq<Seq<char>>, sep: Seq<char>) -> Seq<char>
    decreases parts.len(),
{
    if parts.len() == 0 {
        Seq::empty()
    } else if parts.len() == 1 {
        parts[0]
    } else {
        joined(parts.drop_last(), sep) + sep + parts.last()
    }
}

/// The texts of a list in a row, with `sep` between each two of them.
pub fn join(parts: &Vec<String>, sep: &str) -> (r: String)
    ensures
        r@ == joined(texts(parts@), sep@),
{
    let mut out = String::new();
    let mut i: usize = 0;
    while i < parts.len()
        invariant
            i <= parts@.len(),
            out@ == joined(texts(parts@).take(i as int), sep@),
        decreases parts@.len() - i,
    {
        let ghost all = texts(parts@);
        assert(all.take(i + 1).drop_last() =~= all.take(i as int));
        if i > 0 {
            out.append(sep);
        }
        out.append(parts[i].as_str());
        i = i + 1;
        assert(out@ =~= joined(all.take(i as int), sep@));
    }
    assert(texts(parts@).take(i as int) =~= texts(parts@));
    out
}

/// Whether `s` is one of the texts of `list`.
pub fn list_has(list: &Vec<String>, s: &str) -> (r: bool)
    ensures
        r == texts(list@).contains(s@),
{
    let mut i: usize = 0;
    while i < list.len()
        invariant
            i <= list@.len(),
            forall|j: int| 0 <= j < i ==> #[trigger] texts(list@)[j] != s@,
        decreases list@.len() - i,
    {
        if same_text(list[i].as_str(), s) {
            assert(texts(list@)[i as int] == s@);
            return true;
        }
        i = i + 1;
    }
    false
}

/// `t` where it is on, and nothing otherwise.
pub open spec fn part_if(on: bool, t: Seq<char>) -> Seq<Seq<char>> {
    if on {
        seq![t]
    } else {
        Seq::empty()
    }
}

/// Adds `t` to the parts where it is on.
pub fn push_part(parts: &mut Vec<String>, on: bool, t: &str)
    ensures
        texts(final(parts)@) == texts(old(parts)@) + part_if(on, t@),
{
    let ghost before = texts(parts@);
    if on {
        parts.push(t.to_owned());
        assert(texts(parts@) =~= before + part_if(on, t@));
    } else {
        assert(texts(parts@) =~= before + part_if(on, t@));
    }
}

// ---------------------------------------------------------------------------------------------
// Places and bytes
// ---------------------------------------------------------------------------------------------

/// The first place of `s`, not before `from`, at which `pat` stands.
pub open spec fn found_from(s: Seq<char>, pat: Seq<char>, from: int) -> Option<int>
    decreases s.len() - from,
{
    if from >= s.len() || from + pat.len() > s.len() {
        None
    } else if occurs_at(s, pat, from) {
        Some(from)
    } else {
        found_from(s, pat, from + 1)
    }
}

/// The first place of `v` at which `pat` stands.
pub fn place_of(v: &Vec<char>, pat: &Vec<char>) -> (r: Option<usize>)
    requires
        pat@.len() > 0,
    ensures
        match r {
            Some(i) => found_from(v@, pat@, 0) == Some(i as int) && occurs_at(v@, pat@, i as int),
            None => found_from(v@, pat@, 0) is None,
        },
{
    let n = v.len();
    let mut i: usize = 0;
    while i < n
        invariant
            i <= n,
            n == v@.len(),
            pat@.len() > 0,
            found_from(v@, pat@, 0) == found_from(v@, pat@, i as int),
        decreases n - i,
    {
        if stands_at(v, pat, i) {
            return Some(i);
        }
        proof {
            if i + pat@.len() > v@.len() {
                assert(found_from(v@, pat@, i + 1) is None);
            }
        }
        i = i + 1;
    }
    None
}

/// The text that bytes stand for.
pub uninterp spec fn utf8_text(bytes: Seq<u8>) -> Seq<char>;

/// `String::from_utf8_lossy` reads the first `end` bytes as UTF-8, with the replacement character
/// for what is none. No bytes are the empty text.
#[verifier::external_body]
pub(crate) fn decode_utf8(bytes: &Vec<u8>, end: usize) -> (r: String)
    requires
        end <= bytes@.len(),
    ensures
        r@ == utf8_text(bytes@.take(end as int)),
        end == 0 ==> r@.len() == 0,
{
    String::from_utf8_lossy(&bytes[..end]).into_owned()
}

/// The list, text by text.
pub fn copy_texts(list: &Vec<String>) -> (r: Vec<String>)
    ensures
        r@ == list@,
{
    let mut r: Vec<String> = Vec::new();
    let mut i: usize = 0;
    while i < list.len()
        invariant
            i <= list@.len(),
            r@ == list@.take(i as int),
        decreases list@.len() - i,
    {
        r.push(list[i].clone());
        i = i + 1;
        assert(r@ =~= list@.take(i as int));
    }
    assert(list@.take(i as int) =~= list@);
    r
}

/// The text, if there is one.
pub fn copy_opt(o: &Option<String>) -> (r: Option<String>)
    ensures
        r == *o,
{
    match o {
        Some(s) => Some(s.clone()),
        None => None,
    }
}

} // verus!
