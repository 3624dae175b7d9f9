//! What the functions on texts do, seen from outside: what is left of a text, and what was taken
//! away.

use vstd::prelude::*;

use crate::numbers::{decimal, int_text, parse_i32};
use crate::ordering::text_before;
use crate::text::{
    after, ascii_lowercase, has_text, is_white_space, joined, lines, occurs_at, starts_with, trim,
    trim_end, trim_start, trimmed, word_length, words,
};

verus! {

// ---------------------------------------------------------------------------------------------
// White space at the ends
// ---------------------------------------------------------------------------------------------

/// A text without its leading white space is what follows some characters of it, all of them white
/// space, and does not begin with white space.
pub proof fn leading_white_space_is_taken(s: Seq<char>) -> (n: int)
    ensures
        0 <= n <= s.len(),
        trim_start(s) == s.subrange(n, s.len() as int),
        forall|i: int| 0 <= i < n ==> is_white_space(#[trigger] s[i]),
        n < s.len() ==> !is_white_space(s[n]),
    decreases s.len(),
{
    if s.len() > 0 && is_white_space(s[0]) {
        let t = s.drop_first();
        let n = leading_white_space_is_taken(t);
        assert(t.subrange(n, t.len() as int) =~= s.subrange(n + 1, s.len() as int));
        assert forall|i: int| 0 <= i < n + 1 implies is_white_space(#[trigger] s[i]) by {
            if i > 0 {
                assert(t[i - 1] == s[i]);
            }
        }
        n + 1
    } else {
        assert(s.subrange(0, s.len() as int) =~= s);
        0
    }
}

proof fn trailing_white_space_is_taken(s: Seq<char>) -> (n: int)
    ensures
        0 <= n <= s.len(),
        trim_end(s) == s.subrange(0, n),
        forall|i: int| n <= i < s.len() ==> is_white_space(#[trigger] s[i]),
        n > 0 ==> !is_white_space(s[n - 1]),
    decreases s.len(),
{
    if s.len() > 0 && is_white_space(s.last()) {
        let t = s.drop_last();
        let n = trailing_white_space_is_taken(t);
        assert(t.subrange(0, n) =~= s.subrange(0, n));
        assert forall|i: int| n <= i < s.len() implies is_white_space(#[trigger] s[i]) by {
            if i < t.len() {
                assert(t[i] == s[i]);
            }
        }
        n
    } else {
        assert(s.subrange(0, s.len() as int) =~= s);
        s.len() as int
    }
}

/// Trimming takes white space from both ends and nothing else: what is left stands in the text
/// between white space, and neither begins nor ends with any.
pub proof fn trimming_takes_white_space(s: &str, r: String) -> (p: (int, int))
    requires
        call_ensures(trimmed, (s,), r),
    ensures
        0 <= p.0 <= p.1 <= s@.len(),
        r@ == s@.subrange(p.0, p.1),
        forall|i: int| 0 <= i < p.0 ==> is_white_space(#[trigger] s@[i]),
        forall|i: int| p.1 <= i < s@.len() ==> is_white_space(#[trigger] s@[i]),
        r@.len() > 0 ==> !is_white_space(r@[0]) && !is_white_space(r@.last()),
{
    trim_lies_between(s@)
}

/// A trimmed text stands in the text between white space, and neither begins nor ends with any.
pub proof fn trim_lies_between(s: Seq<char>) -> (p: (int, int))
    ensures
        0 <= p.0 <= p.1 <= s.len(),
        trim(s) == s.subrange(p.0, p.1),
        forall|i: int| 0 <= i < p.0 ==> is_white_space(#[trigger] s[i]),
        forall|i: int| p.1 <= i < s.len() ==> is_white_space(#[trigger] s[i]),
        trim(s).len() > 0 ==> !is_white_space(trim(s)[0]) && !is_white_space(trim(s).last()),
{
    let m = leading_white_space_is_taken(s);
    let t = s.subrange(m, s.len() as int);
    let n = trailing_white_space_is_taken(t);
    assert(t.subrange(0, n) =~= s.subrange(m, m + n));
    assert forall|i: int| m + n <= i < s.len() implies is_white_space(#[trigger] s[i]) by {
        assert(t[i - m] == s[i]);
    }
    if n > 0 {
        assert(t[0] == s[m]);
        assert(!is_white_space(t[n - 1]));
    }
    (m, m + n)
}

/// A text that neither begins nor ends with white space is left as it is.
pub proof fn text_without_outer_space_stays(s: Seq<char>)
    requires
        s.len() > 0 ==> !is_white_space(s[0]) && !is_white_space(s.last()),
    ensures
        trim(s) == s,
        trim_start(s) == s,
{
}

/// Whether `a` and `b` are white space, and `t` between them neither begins nor ends with any.
pub open spec fn stands_between_space(a: Seq<char>, t: Seq<char>, b: Seq<char>) -> bool {
    &&& forall|i: int| 0 <= i < a.len() ==> is_white_space(#[trigger] a[i])
    &&& forall|i: int| 0 <= i < b.len() ==> is_white_space(#[trigger] b[i])
    &&& t.len() > 0 ==> !is_white_space(t[0]) && !is_white_space(t.last())
}

/// What stands between white space is what trimming leaves.
pub proof fn trimmed_part(s: Seq<char>, a: Seq<char>, t: Seq<char>, b: Seq<char>)
    requires
        s == a + t + b,
        stands_between_space(a, t, b),
    ensures
        crate::text::trim(s) == t,
{
    let (m, n) = trim_lies_between(s);
    let r = crate::text::trim(s);
    if t.len() > 0 {
        assert(s[a.len() as int] == t[0]);
        assert(s[a.len() + t.len() - 1] == t.last());
        assert(m <= a.len());
        assert(n >= a.len() + t.len());
        assert(r[0] == s[m] && r.last() == s[n - 1]);
        if m < a.len() {
            assert(s[m] == a[m]);
        }
        if n > a.len() + t.len() {
            assert(s[n - 1] == b[n - 1 - a.len() - t.len()]);
        }
        assert(r =~= t);
    } else {
        if r.len() > 0 {
            assert(r[0] == s[m]);
            if m < a.len() {
                assert(s[m] == a[m]);
            } else {
                assert(s[m] == b[m - a.len()]);
            }
        }
        assert(r =~= t);
    }
}

// ---------------------------------------------------------------------------------------------
// Parts of texts
// ---------------------------------------------------------------------------------------------

/// A text holds another just where it is made of something, the other, and something.
pub proof fn holding_means_standing_within(s: &str, q: &str, r: bool)
    requires
        call_ensures(has_text, (s, q), r),
    ensures
        r <==> exists|a: Seq<char>, b: Seq<char>| s@ == #[trigger] (a + q@ + b),
{
    if r {
        let i = choose|i: int| occurs_at(s@, q@, i);
        let a = s@.subrange(0, i);
        let b = s@.subrange(i + q@.len(), s@.len() as int);
        assert(s@ =~= a + q@ + b) by {
            assert forall|k: int| 0 <= k < s@.len() implies s@[k] == (a + q@ + b)[k] by {
                if i <= k < i + q@.len() {
                    assert(s@.subrange(i, i + q@.len())[k - i] == s@[k]);
                }
            }
        }
    }
    if exists|a: Seq<char>, b: Seq<char>| s@ == #[trigger] (a + q@ + b) {
        let (a, b) = choose|a: Seq<char>, b: Seq<char>| s@ == #[trigger] (a + q@ + b);
        assert(s@.subrange(a.len() as int, (a.len() + q@.len()) as int) =~= q@);
        assert(occurs_at(s@, q@, a.len() as int));
    }
}

/// What follows a text in one that begins with it makes up the rest.
pub proof fn beginning_means_followed(s: Seq<char>, p: Seq<char>)
    ensures
        starts_with(s, p) <==> exists|rest: Seq<char>| s == #[trigger] (p + rest),
{
    if starts_with(s, p) {
        let rest = s.subrange(p.len() as int, s.len() as int);
        assert forall|k: int| 0 <= k < s.len() implies s[k] == (p + rest)[k] by {
            if k < p.len() {
                assert(s.subrange(0, p.len() as int)[k] == s[k]);
            }
        }
        assert(s =~= p + rest);
    }
    if exists|rest: Seq<char>| s == #[trigger] (p + rest) {
        let rest = choose|rest: Seq<char>| s == #[trigger] (p + rest);
        assert(s.subrange(0, p.len() as int) =~= p);
    }
}

/// In small letters, each of the letters `A` to `Z` becomes the one that stands 32 places on, and
/// every other character stays. Texts keep their length, and small letters stay.
pub proof fn small_letters(s: Seq<char>, i: int)
    requires
        0 <= i < s.len(),
    ensures
        ascii_lowercase(s).len() == s.len(),
        65 <= s[i] as u32 <= 90 ==> ascii_lowercase(s)[i] as u32 == s[i] as u32 + 32,
        !(65 <= s[i] as u32 <= 90) ==> ascii_lowercase(s)[i] == s[i],
        ascii_lowercase(ascii_lowercase(s)) == ascii_lowercase(s),
{
    assert(ascii_lowercase(ascii_lowercase(s)) =~= ascii_lowercase(s));
}

/// The order of texts goes by the first character in which they differ; where one begins the
/// other, the shorter comes first.
pub proof fn order_goes_by_first_difference(a: Seq<char>, b: Seq<char>, k: int)
    requires
        0 <= k <= a.len(),
        k <= b.len(),
        forall|i: int| 0 <= i < k ==> a[i] == b[i],
        k < a.len() && k < b.len() ==> a[k] != b[k],
    ensures
        k < a.len() && k < b.len() ==> (text_before(a, b) <==> a[k] < b[k]),
        k == a.len() ==> (text_before(a, b) <==> a.len() < b.len()),
        k == b.len() ==> !text_before(a, b),
    decreases k,
{
    if k > 0 {
        let a1 = a.drop_first();
        let b1 = b.drop_first();
        assert forall|i: int| 0 <= i < k - 1 implies a1[i] == b1[i] by {
            assert(a[i + 1] == b[i + 1]);
        }
        if k < a.len() && k < b.len() {
            assert(a1[k - 1] == a[k] && b1[k - 1] == b[k]);
        }
        order_goes_by_first_difference(a1, b1, k - 1);
        assert(a[0] == b[0]);
    }
}

// ---------------------------------------------------------------------------------------------
// Lines and words
// ---------------------------------------------------------------------------------------------

proof fn line_feed_after(a: Seq<char>, b: Seq<char>)
    requires
        forall|i: int| 0 <= i < a.len() ==> a[i] != '\n',
    ensures
        crate::text::first_line_feed(a + seq!['\n'] + b) == a.len(),
        crate::text::first_line_feed(a) == a.len(),
    decreases a.len(),
{
    let s = a + seq!['\n'] + b;
    if a.len() > 0 {
        let t = a.drop_first();
        assert forall|i: int| 0 <= i < t.len() implies t[i] != '\n' by {
            assert(t[i] == a[i + 1]);
        }
        line_feed_after(t, b);
        assert(s.drop_first() =~= t + seq!['\n'] + b);
        assert(s[0] == a[0]);
    }
}

/// A line feed ends a line: what stands before the first one is the first line, but for a carriage
/// return at its end, and what follows makes up the other lines.
pub proof fn line_feed_ends_line(a: Seq<char>, b: Seq<char>)
    requires
        forall|i: int| 0 <= i < a.len() ==> a[i] != '\n',
    ensures
        lines(a + seq!['\n'] + b).len() == lines(b).len() + 1,
        a.len() > 0 && a.last() == '\r' ==> lines(a + seq!['\n'] + b)[0] == a.drop_last(),
        !(a.len() > 0 && a.last() == '\r') ==> lines(a + seq!['\n'] + b)[0] == a,
        lines(a + seq!['\n'] + b).skip(1) == lines(b),
{
    let s = a + seq!['\n'] + b;
    line_feed_after(a, b);
    assert(s.take(a.len() as int) =~= a);
    assert(after(s, a.len() as int + 1) =~= b);
    assert(lines(s).skip(1) =~= lines(b));
}

/// A text without a line feed is one line, unless it is empty, which is none.
pub proof fn text_without_line_feed_is_a_line(a: Seq<char>)
    requires
        forall|i: int| 0 <= i < a.len() ==> a[i] != '\n',
    ensures
        lines(a) == (if a.len() == 0 {
            Seq::empty()
        } else {
            seq![a]
        }),
{
    line_feed_after(a, Seq::empty());
}

proof fn word_length_of(a: Seq<char>, b: Seq<char>)
    requires
        forall|i: int| 0 <= i < a.len() ==> !is_white_space(#[trigger] a[i]),
        b.len() > 0 ==> is_white_space(b[0]),
    ensures
        word_length(a + b) == a.len(),
    decreases a.len(),
{
    if a.len() > 0 {
        let t = a.drop_first();
        assert forall|i: int| 0 <= i < t.len() implies !is_white_space(#[trigger] t[i]) by {
            assert(t[i] == a[i + 1]);
        }
        word_length_of(t, b);
        assert((a + b).drop_first() =~= t + b);
        assert((a + b)[0] == a[0]);
    } else {
        assert(a + b =~= b);
    }
}

/// White space stands between words and is part of none: at the start it is passed over, and a run
/// of other characters before it, or at the end, is a word.
pub proof fn white_space_parts_words(a: Seq<char>, c: char, b: Seq<char>)
    requires
        forall|i: int| 0 <= i < a.len() ==> !is_white_space(#[trigger] a[i]),
        is_white_space(c),
    ensures
        a.len() == 0 ==> words(a + seq![c] + b) == words(b),
        a.len() > 0 ==> words(a + seq![c] + b) == seq![a] + words(b),
        a.len() == 0 ==> words(a) == Seq::<Seq<char>>::empty(),
        a.len() > 0 ==> words(a) == seq![a],
{
    let s = a + seq![c] + b;
    let rest = seq![c] + b;
    assert(s =~= a + rest);
    word_length_of(a, rest);
    word_length_of(a, Seq::empty());
    assert(a + Seq::<char>::empty() =~= a);
    word_length_of(Seq::empty(), rest);
    assert(Seq::<char>::empty() + rest =~= rest);
    assert(rest.drop_first() =~= b);
    assert(words(rest) == words(b));
    if a.len() > 0 {
        assert(s.take(a.len() as int) =~= a);
        assert(after(s, a.len() as int) =~= rest);
        assert(a.take(a.len() as int) =~= a);
        assert(after(a, a.len() as int) =~= Seq::<char>::empty());
        assert(words(Seq::<char>::empty()) =~= Seq::<Seq<char>>::empty());
        assert(words(a) =~= seq![a]);
    } else {
        assert(s =~= rest);
    }
}

/// Texts in a row have the separator between each two of them, and at neither end.
pub proof fn joined_texts_stand_apart(parts: Seq<Seq<char>>, sep: Seq<char>, last: Seq<char>)
    ensures
        parts.len() == 0 ==> joined(parts, sep) == Seq::<char>::empty(),
        parts.len() == 0 ==> joined(parts.push(last), sep) == last,
        parts.len() > 0 ==> joined(parts.push(last), sep) == joined(parts, sep) + sep + last,
{
    assert(parts.push(last).drop_last() =~= parts);
}

proof fn words_of_front(a: Seq<char>, c: char, b: Seq<char>)
    requires
        is_white_space(c),
    ensures
        words(a + seq![c] + b) == words(a) + words(b),
    decreases a.len(),
{
    let s = a + seq![c] + b;
    let n = word_length(a);
    crate::text::word_length_bounds(a);
    word_is_run(a);
    if a.len() == 0 {
        white_space_parts_words(a, c, b);
        assert(words(a) + words(b) =~= words(b));
    } else if n == a.len() {
        white_space_parts_words(a, c, b);
    } else {
        let w = a.take(n);
        let d = a[n];
        let rest = after(a, n + 1);
        assert(a =~= w + seq![d] + rest);
        assert(s =~= w + seq![d] + (rest + seq![c] + b));
        words_of_front(rest, c, b);
        white_space_parts_words(w, d, rest);
        white_space_parts_words(w, d, rest + seq![c] + b);
        assert(words(s) =~= words(a) + words(b));
    }
}

proof fn word_is_run(a: Seq<char>)
    ensures
        0 <= word_length(a) <= a.len(),
        forall|i: int| 0 <= i < word_length(a) ==> !is_white_space(#[trigger] a[i]),
        word_length(a) < a.len() ==> is_white_space(a[word_length(a)]),
    decreases a.len(),
{
    if a.len() > 0 && !is_white_space(a[0]) {
        let t = a.drop_first();
        word_is_run(t);
        assert forall|i: int| 0 <= i < word_length(a) implies !is_white_space(#[trigger] a[i]) by {
            if i > 0 {
                assert(t[i - 1] == a[i]);
            }
        }
    }
}

/// Words written in a row with spaces between them are read as the same words.
pub proof fn joined_words_are_read_back(ws: Seq<Seq<char>>)
    requires
        forall|k: int| 0 <= k < ws.len() ==> (#[trigger] ws[k]).len() > 0,
        forall|k: int, i: int|
            0 <= k < ws.len() && 0 <= i < ws[k].len() ==> !is_white_space(#[trigger] ws[k][i]),
    ensures
        words(joined(ws, " "@)) == ws,
    decreases ws.len(),
{
    reveal_strlit(" ");
    assert(" "@ =~= seq![' ']);
    if ws.len() == 0 {
        assert(words(joined(ws, " "@)) =~= ws);
    } else {
        let front = ws.drop_last();
        let last = ws.last();
        assert(last == ws[ws.len() - 1]);
        assert forall|i: int| 0 <= i < last.len() implies !is_white_space(#[trigger] last[i]) by {
            assert(!is_white_space(ws[ws.len() - 1][i]));
        }
        white_space_parts_words(last, ' ', Seq::empty());
        if ws.len() == 1 {
            assert(words(joined(ws, " "@)) =~= ws);
        } else {
            assert forall|k: int| 0 <= k < front.len() implies (#[trigger] front[k]).len() > 0 by {
                assert(front[k] == ws[k]);
            }
            assert forall|k: int, i: int|
                0 <= k < front.len() && 0 <= i < front[k].len() implies !is_white_space(
                #[trigger] front[k][i],
            ) by {
                assert(front[k] == ws[k]);
                assert(!is_white_space(ws[k][i]));
            }
            joined_words_are_read_back(front);
            words_of_front(joined(front, " "@), ' ', last);
            assert(words(joined(ws, " "@)) =~= ws);
        }
    }
}

// ---------------------------------------------------------------------------------------------
// Numbers
// ---------------------------------------------------------------------------------------------

/// A number is written with its last digit last: the code of the digit zero is 48, those of the
/// others follow, and what stands before is the number without that digit, if anything is left. A
/// negative number is written as the positive one behind a minus sign.
pub proof fn numbers_are_written_in_tens(n: nat, d: nat)
    requires
        d < 10,
    ensures
        n > 0 ==> decimal(n * 10 + d).drop_last() == decimal(n),
        decimal(n * 10 + d).last() as int == 48 + d,
        decimal(d).len() == 1,
        n > 0 ==> int_text(-(n as int)) == seq!['-'] + decimal(n),
        int_text(n as int) == decimal(n),
{
    let m = n * 10 + d;
    assert(m / 10 == n && m % 10 == d);
    if n > 0 {
        assert(decimal(m).drop_last() =~= decimal(n));
    }
}

/// A number is read back from how it is written, with or without a plus sign, and nothing else
/// than digits and one sign before them is read as a number.
pub proof fn numbers_are_read_in_tens(s: &str, r: Option<i32>)
    requires
        call_ensures(parse_i32, (s,), r),
    ensures
        r is Some ==> s@.len() > 0,
        r is Some ==> forall|i: int|
            1 <= i < s@.len() ==> 48 <= #[trigger] s@[i] as int && s@[i] as int <= 57,
        r is Some ==> s@[0] == '+' || s@[0] == '-' || (48 <= s@[0] as int && s@[0] as int <= 57),
        forall|n: int|
            i32::MIN <= n <= i32::MAX && s@ == #[trigger] int_text(n) ==> r is Some && r->0 == n,
{
    if s@.len() > 0 && (s@[0] == '-' || s@[0] == '+') {
        let t = s@.drop_first();
        assert forall|i: int| 1 <= i < s@.len() implies t[i - 1] == #[trigger] s@[i] by {}
    }
    assert forall|n: int|
        i32::MIN <= n <= i32::MAX && s@ == #[trigger] int_text(n) implies r is Some && r->0
        == n by {
        crate::numbers::int_text_reads_back(n);
    }
}

} // verus!
