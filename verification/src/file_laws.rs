//! What holds of the search for files, whatever is searched for: what is shown of a file, where the
//! programs are looked for, how replies are read, and in which order the ways are tried.

use vstd::prelude::*;

use crate::everything_search::{
    all_recorded_places, attribute_parts, bracketed, discover_ipc_instance_names, enrich_hit, entry_named,
    es_candidates, es_files, es_output_files, es_output_result, es_result, everything_candidates,
    file_paths, find_in_program_dirs, format_file_attributes, found_in, found_in_dirs, full_lines,
    hit_with, in_each, instance_name, instance_of, instances, ipc_file, name_of, opt_texts,
    program_search_dirs, search_files, shows_moment, start_step, unquote, unquoted_end, unquoted_start, wait_step,
    waits_for_index, DirListing, EverythingHit, FileFacts, FoundFile, SearchProgress, SearchStep,
    StartStep,
};
use crate::lists::{first_where, first_where_exists, first_where_found, first_where_means};
use crate::paths::{path_file_name, path_join, path_parent, path_same};
use crate::text::{after, ascii_lowercase, lines, opt_text, starts_with, texts, trim, utf8_text};
use crate::text_laws::{line_feed_ends_line, stands_between_space, trimmed_part};

verus! {

// ---------------------------------------------------------------------------------------------
// What is shown of a file
// ---------------------------------------------------------------------------------------------

/// Whether the bit is set among the attributes.
pub open spec fn bit_set(f: FileFacts, bit: u32) -> bool {
    f.attributes is Some && f.attributes->0 & bit != 0
}

/// What is shown of a file begins with its kind: a directory, a link, or a file. Behind it stand
/// the marks of the attributes, each behind a dot, in the order read only, hidden, system and
/// archive: with the last of them it is the text without it and the mark.
pub proof fn kind_and_attributes_are_shown(f: FileFacts, r: String, g: FileFacts, s: String)
    requires
        call_ensures(format_file_attributes, (f,), r),
        call_ensures(format_file_attributes, (g,), s),
        f.is_dir == g.is_dir && f.is_symlink == g.is_symlink,
    ensures
        ({
            let (ro, hid) = (bit_set(f, 1), bit_set(f, 2));
            let (sys, arc) = (bit_set(f, 4), bit_set(f, 32));
            let (ro2, hid2) = (bit_set(g, 1), bit_set(g, 2));
            let (sys2, arc2) = (bit_set(g, 4), bit_set(g, 32));
            &&& !ro && !hid && !sys && !arc ==> r@ == (if f.is_dir {
                "文件夹"@
            } else if f.is_symlink {
                "链接"@
            } else {
                "文件"@
            })
            &&& arc && !arc2 && ro == ro2 && hid == hid2 && sys == sys2 ==> r@ == s@ + " · "@
                + "存档"@
            &&& !arc && sys && !arc2 && !sys2 && ro == ro2 && hid == hid2 ==> r@ == s@ + " · "@
                + "系统"@
            &&& !arc && !sys && hid && !arc2 && !sys2 && !hid2 && ro == ro2 ==> r@ == s@ + " · "@
                + "隐藏"@
            &&& !arc && !sys && !hid && ro && !arc2 && !sys2 && !hid2 && !ro2 ==> r@ == s@ + " · "@
                + "只读"@
        }),
{
    let a = attribute_parts(f);
    let b = attribute_parts(g);
    assert(bit_set(f, 1) == crate::everything_search::has_attribute(f.attributes, 0x1));
    assert(b.len() > 0);
    if a.len() == b.len() + 1 && a.drop_last() =~= b {
        assert(a.drop_last() == b);
    }
    let kind = if f.is_dir {
        "文件夹"@
    } else if f.is_symlink {
        "链接"@
    } else {
        "文件"@
    };
    if !bit_set(f, 1) && !bit_set(f, 2) && !bit_set(f, 4) && !bit_set(f, 32) {
        assert(a =~= seq![kind]);
    }
    if bit_set(f, 32) {
        assert(a.last() == "存档"@);
    } else if bit_set(f, 4) {
        assert(a.last() == "系统"@);
    } else if bit_set(f, 2) {
        assert(a.last() == "隐藏"@);
    } else if bit_set(f, 1) {
        assert(a.last() == "只读"@);
    }
}

/// A hit tells the name and the path as they are, and the directory of the file. What is not known
/// of the file is shown as unknown.
pub proof fn hit_tells_of_file(
    name: String,
    path: String,
    facts: Option<FileFacts>,
    modified: Option<String>,
    r: EverythingHit,
    f: FileFacts,
    shown: String,
)
    requires
        call_ensures(hit_with, (name, path, facts, modified), r),
        facts is Some ==> facts->0 == f,
        call_ensures(format_file_attributes, (f,), shown),
    ensures
        r.name@ == name@ && r.path@ == path@,
        path_parent(path@) is Some ==> r.location@ == path_parent(path@)->0,
        path_parent(path@) is None ==> r.location@.len() == 0,
        facts is None ==> r.modified@ == "—"@ && r.attributes@ == "未知"@,
        facts is Some ==> r.attributes@ == shown@,
        facts is Some && modified is Some ==> r.modified@ == modified->0@,
        facts is Some && modified is None ==> r.modified@ == "—"@,
{
}

/// A hit that is made of what is known of a file shows when the file was last changed, in the time
/// of the machine's place, where that is known.
pub proof fn hit_shows_last_change(
    name: String,
    path: String,
    facts: Option<FileFacts>,
    r: EverythingHit,
    f: FileFacts,
    shown: String,
)
    requires
        call_ensures(enrich_hit, (name, path, facts), r),
        facts is Some ==> facts->0 == f,
        call_ensures(format_file_attributes, (f,), shown),
    ensures
        r.name@ == name@ && r.path@ == path@,
        path_parent(path@) is Some ==> r.location@ == path_parent(path@)->0,
        path_parent(path@) is None ==> r.location@.len() == 0,
        facts is None ==> r.modified@ == "—"@ && r.attributes@ == "未知"@,
        facts is Some ==> r.attributes@ == shown@,
        facts is Some && f.modified is None ==> r.modified@ == "—"@,
        facts is Some ==> (f.modified matches Some((secs, nanos)) ==> shows_moment(
            secs,
            nanos,
            r.modified@,
        )),
{
}

// ---------------------------------------------------------------------------------------------
// Where the programs are looked for
// ---------------------------------------------------------------------------------------------

/// The launcher's own directory goes first, then the one for Everything in it. The current
/// directory and the one in it follow, but not where the current directory is one of the others.
pub proof fn own_directory_goes_first(root: Option<String>, cwd: Option<String>, r: Vec<String>)
    requires
        call_ensures(program_search_dirs, (root, cwd), r),
    ensures
        root is Some ==> r@.len() >= 2 && r@[0]@ == root->0@ && r@[1]@ == path_join(
            root->0@,
            "everything"@,
        ),
        ({
            let own: int = if root is Some {
                2
            } else {
                0
            };
            let again = cwd is Some && root is Some && (path_same(root->0@, cwd->0@) || path_same(
                path_join(root->0@, "everything"@),
                cwd->0@,
            ));
            &&& cwd is None || again ==> r@.len() == own
            &&& cwd is Some && !again ==> r@.len() == own + 2 && r@[own]@ == cwd->0@ && r@[own
                + 1]@ == path_join(cwd->0@, "everything"@)
        }),
{
    let own = crate::everything_search::own_dirs(opt_text(root));
    let t = texts(r@);
    assert(t.len() == r@.len());
    assert(forall|i: int| 0 <= i < t.len() ==> #[trigger] t[i] == r@[i]@);
    if root is Some && cwd is Some {
        assert(own[0] == root->0@);
        assert(own[1] == path_join(root->0@, "everything"@));
    }
    assert(r@.len() > 0 ==> t[0] == r@[0]@);
    assert(r@.len() > 1 ==> t[1] == r@[1]@);
    assert(r@.len() > 2 ==> t[2] == r@[2]@);
    assert(r@.len() > 3 ==> t[3] == r@[3]@);
}

/// Whether the directory holds a file of the name at the place, letters of either case being the
/// same.
pub open spec fn named_at(l: DirListing, name: Seq<char>, k: int) -> bool {
    0 <= k < l.entries@.len() && l.entries@[k].is_file && ascii_lowercase(l.entries@[k].name@)
        == ascii_lowercase(name)
}

/// Whether the directory holds a file of the name.
pub open spec fn holds_file(l: DirListing, name: Seq<char>) -> bool {
    l.has_exact || exists|k: int| named_at(l, name, k)
}

proof fn found_where_held(l: DirListing, name: Seq<char>)
    ensures
        found_in(l, name) is Some <==> holds_file(l, name),
{
    let p = entry_named(name);
    first_where_means(l.entries@, p);
    if exists|k: int| named_at(l, name, k) {
        let k = choose|k: int| named_at(l, name, k);
        assert(p(l.entries@[k]));
        first_where_exists(l.entries@, p, k);
    }
    if let Some(i) = first_where(l.entries@, p) {
        assert(p(l.entries@[i]));
        assert(named_at(l, name, i));
    }
}

proof fn found_in_first_dir(ls: Seq<DirListing>, name: Seq<char>, i: int)
    requires
        0 <= i <= ls.len(),
        forall|j: int| 0 <= j < i ==> !holds_file(#[trigger] ls[j], name),
        i < ls.len() ==> holds_file(ls[i], name),
    ensures
        found_in_dirs(ls, name) == (if i < ls.len() {
            found_in(ls[i], name)
        } else {
            None
        }),
    decreases ls.len(),
{
    if ls.len() > 0 {
        found_where_held(ls[0], name);
        if i > 0 {
            assert(!holds_file(ls[0], name));
            let rest = ls.skip(1);
            assert forall|j: int| 0 <= j < i - 1 implies !holds_file(#[trigger] rest[j], name) by {
                assert(rest[j] == ls[j + 1]);
            }
            if i < ls.len() {
                assert(rest[i - 1] == ls[i]);
            }
            found_in_first_dir(rest, name, i - 1);
        }
    }
}

/// A program is taken from the first directory that holds it: under the very name, or else under
/// the first name that differs from it only in the case of letters. Where no directory holds it,
/// it is not found.
pub proof fn program_is_found_in_first_directory(
    ls: &Vec<DirListing>,
    name: &str,
    r: Option<String>,
    i: int,
    k: int,
)
    requires
        call_ensures(find_in_program_dirs, (ls, name), r),
        0 <= i <= ls@.len(),
        forall|j: int| 0 <= j < i ==> !holds_file(#[trigger] ls@[j], name@),
        i < ls@.len() ==> holds_file(ls@[i], name@),
    ensures
        i == ls@.len() ==> r is None,
        i < ls@.len() ==> r is Some,
        i < ls@.len() && ls@[i].has_exact ==> r->0@ == path_join(ls@[i].dir@, name@),
        i < ls@.len() && !ls@[i].has_exact && named_at(ls@[i], name@, k) && (forall|m: int|
            0 <= m < k ==> !#[trigger] named_at(ls@[i], name@, m)) ==> r->0@ == path_join(
            ls@[i].dir@,
            ls@[i].entries@[k].name@,
        ),
{
    found_in_first_dir(ls@, name@, i);
    if i < ls@.len() {
        found_where_held(ls@[i], name@);
        let p = entry_named(name@);
        let es = ls@[i].entries@;
        if named_at(ls@[i], name@, k) && (forall|m: int|
            0 <= m < k ==> !#[trigger] named_at(ls@[i], name@, m)) {
            assert(p(es[k]));
            assert forall|m: int| 0 <= m < k implies !p(#[trigger] es[m]) by {
                assert(!named_at(ls@[i], name@, m));
            }
            first_where_found(es, p, k);
        }
    }
}

/// What stands between quotation marks, however many, is what is left of a recorded place.
pub proof fn quotation_marks_are_taken(s: &str, r: String, m: nat, t: Seq<char>, n: nat)
    requires
        call_ensures(unquote, (s,), r),
        s@ == Seq::new(m, |i: int| '"') + t + Seq::new(n, |i: int| '"'),
        t.len() > 0 ==> t[0] != '"' && t.last() != '"',
        t.len() == 0 ==> n == 0,
    ensures
        r@ == t,
{
    let tail = t + Seq::new(n, |i: int| '"');
    assert(s@ =~= Seq::new(m, |i: int| '"') + tail);
    marks_leave_start(m, tail);
    marks_leave_end(t, n);
}

proof fn marks_leave_start(m: nat, t: Seq<char>)
    requires
        t.len() > 0 ==> t[0] != '"',
    ensures
        unquoted_start(Seq::new(m, |i: int| '"') + t) == t,
    decreases m,
{
    let s = Seq::new(m, |i: int| '"') + t;
    if m == 0 {
        assert(s =~= t);
    } else {
        let fewer = Seq::new((m - 1) as nat, |i: int| '"') + t;
        assert(s.skip(1) =~= fewer);
        marks_leave_start((m - 1) as nat, t);
        assert(s[0] == '"');
    }
}

proof fn marks_leave_end(t: Seq<char>, n: nat)
    requires
        t.len() > 0 ==> t.last() != '"',
    ensures
        unquoted_end(t + Seq::new(n, |i: int| '"')) == t,
    decreases n,
{
    let s = t + Seq::new(n, |i: int| '"');
    if n == 0 {
        assert(s =~= t);
    } else {
        let fewer = t + Seq::new((n - 1) as nat, |i: int| '"');
        assert(s.drop_last() =~= fewer);
        marks_leave_end(t, (n - 1) as nat);
        assert(s.last() == '"');
    }
}

proof fn recorded_places_stand_in_turn(values: Seq<Seq<char>>, n: int, k: int)
    requires
        0 <= n <= values.len(),
    ensures
        all_recorded_places(values, n).len() == 2 * n,
        0 <= k < n ==> all_recorded_places(values, n)[2 * k] == unquoted_end(
            unquoted_start(values[k]),
        ) && all_recorded_places(values, n)[2 * k + 1] == path_join(
            unquoted_end(unquoted_start(values[k])),
            "Everything.exe"@,
        ),
    decreases n,
{
    if n > 0 {
        recorded_places_stand_in_turn(values, n - 1, k);
    }
}

/// Everything is looked for at each recorded place and in it, then where programs are installed,
/// then on the search path, in the order given, and nowhere else.
pub proof fn everything_is_looked_for_in_turn(
    recorded: &Vec<String>,
    programs: &Vec<String>,
    path: &Vec<String>,
    r: Vec<String>,
    i: int,
    s: &str,
    bare: String,
)
    requires
        call_ensures(everything_candidates, (recorded, programs, path), r),
        0 <= i < recorded@.len() ==> s@ == recorded@[i]@,
        call_ensures(unquote, (s,), bare),
    ensures
        ({
            let n = recorded@.len();
            let p = programs@.len();
            &&& r@.len() == 2 * n + p + path@.len()
            &&& 0 <= i < n ==> r@[2 * i]@ == bare@ && r@[2 * i + 1]@ == path_join(
                bare@,
                "Everything.exe"@,
            )
            &&& 0 <= i < p ==> r@[2 * n + i]@ == path_join(
                programs@[i]@,
                "Everything\\Everything.exe"@,
            )
            &&& 0 <= i < path@.len() ==> r@[2 * n + p + i]@ == path_join(
                path@[i]@,
                "Everything.exe"@,
            )
        }),
{
    let n = recorded@.len() as int;
    let p = programs@.len();
    let values = texts(recorded@);
    recorded_places_stand_in_turn(values, n, i);
    let t = texts(r@);
    assert(t.len() == r@.len());
    let a = in_each(texts(programs@), "Everything\\Everything.exe"@);
    let b = in_each(texts(path@), "Everything.exe"@);
    assert(a.len() == p && b.len() == path@.len());
    if 0 <= i < n {
        assert(values[i] == recorded@[i]@);
        assert(t[2 * i] == r@[2 * i]@);
        assert(t[2 * i + 1] == r@[2 * i + 1]@);
    }
    if 0 <= i < p {
        assert(t[2 * n + i] == r@[2 * n + i]@);
        assert(a[i] == path_join(programs@[i]@, "Everything\\Everything.exe"@));
        assert(t[2 * n + i] == a[i]);
    }
    if 0 <= i < path@.len() {
        assert(t[2 * n + p + i] == r@[2 * n + p + i]@);
        assert(b[i] == path_join(path@[i]@, "Everything.exe"@));
        assert(t[2 * n + p + i] == b[i]);
    }
}

/// The command line program is looked for beside Everything itself, where that has a directory,
/// and then on the search path, and nowhere else.
pub proof fn command_program_is_looked_for_in_turn(
    everything: Option<String>,
    path: &Vec<String>,
    r: Vec<String>,
    i: int,
)
    requires
        call_ensures(es_candidates, (everything, path), r),
    ensures
        ({
            let beside = everything is Some && path_parent(everything->0@) is Some;
            let first: int = if beside {
                1
            } else {
                0
            };
            &&& r@.len() == first + path@.len()
            &&& beside ==> r@[0]@ == path_join(path_parent(everything->0@)->0, "es.exe"@)
            &&& 0 <= i < path@.len() ==> r@[first + i]@ == path_join(path@[i]@, "es.exe"@)
        }),
{
    let t = texts(r@);
    assert(t.len() == r@.len());
    let b = in_each(texts(path@), "es.exe"@);
    let first = crate::everything_search::beside(opt_text(everything));
    assert(b.len() == path@.len());
    if first.len() > 0 {
        assert(t[0] == r@[0]@);
        assert(t[0] == first[0]);
    }
    if 0 <= i < path@.len() {
        assert(t[first.len() + i] == r@[first.len() + i]@);
        assert(b[i] == path_join(path@[i]@, "es.exe"@));
        assert(t[first.len() + i] == b[i]);
    }
}

// ---------------------------------------------------------------------------------------------
// Running instances
// ---------------------------------------------------------------------------------------------

/// Whether the class is that of a window of the instance: the name stands in brackets behind the
/// class of all such windows, with or without an underscore.
pub open spec fn names_instance(class: Seq<char>, name: Seq<char>) -> bool {
    &&& name.len() > 0
    &&& {
        ||| class == "EVERYTHING_TASKBAR_NOTIFICATION"@ + "_("@ + name + ")"@
        ||| class == "EVERYTHING_TASKBAR_NOTIFICATION"@ + "("@ + name + ")"@
    }
}

proof fn bracketed_means(s: Seq<char>, mark: Seq<char>, name: Seq<char>)
    ensures
        bracketed(s, mark) == Some(name) <==> s == mark + name + ")"@,
{
    reveal_strlit(")");
    let whole = mark + name + ")"@;
    if s == whole {
        assert(s.subrange(0, mark.len() as int) =~= mark);
        let rest = after(s, mark.len() as int);
        assert(rest =~= name + ")"@);
        assert(rest.drop_last() =~= name);
    }
    if bracketed(s, mark) == Some(name) {
        let rest = after(s, mark.len() as int);
        assert(rest =~= name.push(')'));
        assert forall|i: int| 0 <= i < s.len() implies s[i] == whole[i] by {
            if i < mark.len() {
                assert(s.subrange(0, mark.len() as int)[i] == s[i]);
            } else {
                assert(rest[i - mark.len()] == s[i]);
            }
        }
        assert(s =~= whole);
    }
}

proof fn instance_means(class: Seq<char>, name: Seq<char>)
    ensures
        instance_of(class) == Some(name) <==> names_instance(class, name),
{
    let head = "EVERYTHING_TASKBAR_NOTIFICATION"@;
    let rest = after(class, head.len() as int);
    reveal_strlit("_(");
    reveal_strlit("(");
    reveal_strlit(")");
    bracketed_means(rest, "_("@, name);
    bracketed_means(rest, "("@, name);
    if bracketed(rest, "_("@) is Some {
        bracketed_means(rest, "_("@, bracketed(rest, "_("@)->0);
        assert(rest[0] == '_');
    }
    assert(rest == "("@ + name + ")"@ ==> rest[0] == '(');
    if starts_with(class, head) {
        assert(class =~= head + rest) by {
            assert forall|i: int| 0 <= i < class.len() implies class[i] == (head + rest)[i] by {
                if i < head.len() {
                    assert(class.subrange(0, head.len() as int)[i] == class[i]);
                }
            }
        }
        if rest == "_("@ + name + ")"@ {
            assert(class =~= head + "_("@ + name + ")"@);
        }
        if rest == "("@ + name + ")"@ {
            assert(class =~= head + "("@ + name + ")"@);
        }
    }
    if class == head + "_("@ + name + ")"@ {
        crate::text::prefix_then_rest(head, "_("@ + name + ")"@);
        assert(class =~= head + ("_("@ + name + ")"@));
    }
    if class == head + "("@ + name + ")"@ {
        crate::text::prefix_then_rest(head, "("@ + name + ")"@);
        assert(class =~= head + ("("@ + name + ")"@));
    }
}

/// The name of an instance is what stands in brackets behind the class of its window.
pub proof fn instance_is_named_in_brackets(class: &str, r: Option<String>, name: Seq<char>)
    requires
        call_ensures(instance_name, (class,), r),
    ensures
        r is Some && r->0@ == name <==> names_instance(class@, name),
{
    instance_means(class@, name);
}

proof fn instances_hold(classes: Seq<Seq<char>>, n: int, name: Seq<char>)
    requires
        0 <= n <= classes.len(),
    ensures
        instances(classes, n).len() >= 2,
        instances(classes, n)[0] == None::<Seq<char>>,
        instances(classes, n)[1] == Some("1.5a"@),
        instances(classes, n).contains(Some(name)) <==> name == "1.5a"@ || exists|i: int|
            0 <= i < n && names_instance(#[trigger] classes[i], name),
        forall|i: int, j: int|
            0 <= i < j < instances(classes, n).len() ==> #[trigger] instances(classes, n)[i]
                != #[trigger] instances(classes, n)[j],
    decreases n,
{
    let now = instances(classes, n);
    if n <= 0 {
        assert(now[1] == Some("1.5a"@));
        if now.contains(Some(name)) {
            let i = choose|i: int| 0 <= i < now.len() && now[i] == Some(name);
            assert(i == 1);
        }
    } else {
        instances_hold(classes, n - 1, name);
        instance_means(classes[n - 1], name);
        let before = instances(classes, n - 1);
        let next = instance_of(classes[n - 1]);
        if next is Some && !before.contains(next) {
            assert(now == before.push(next));
            assert(now[now.len() - 1] == next);
            if before.contains(Some(name)) {
                let i = choose|i: int| 0 <= i < before.len() && before[i] == Some(name);
                assert(now[i] == Some(name));
            }
            if now.contains(Some(name)) && next != Some(name) {
                let i = choose|i: int| 0 <= i < now.len() && now[i] == Some(name);
                assert(before[i] == Some(name));
            }
        }
        if exists|i: int| 0 <= i < n - 1 && names_instance(#[trigger] classes[i], name) {
            let i = choose|i: int| 0 <= i < n - 1 && names_instance(#[trigger] classes[i], name);
            assert(0 <= i < n);
        }
    }
}

/// The instance without a name is tried first, then the one of the current version, then each
/// that has a window, and none of them twice.
pub proof fn each_instance_is_tried_once(
    classes: &Vec<String>,
    r: Vec<Option<String>>,
    name: Seq<char>,
)
    requires
        call_ensures(discover_ipc_instance_names, (classes,), r),
    ensures
        r@.len() >= 2 && r@[0] is None && r@[1] is Some && r@[1]->0@ == "1.5a"@,
        (exists|i: int| 0 <= i < r@.len() && (#[trigger] r@[i]) is Some && r@[i]->0@ == name)
            <==> name == "1.5a"@ || exists|i: int|
            0 <= i < classes@.len() && names_instance((#[trigger] classes@[i])@, name),
        forall|i: int, j: int|
            0 <= i < j < r@.len() && (#[trigger] r@[i]) is Some && (#[trigger] r@[j]) is Some
                ==> r@[i]->0@ != r@[j]->0@,
{
    let t = texts(classes@);
    let all = opt_texts(r@);
    instances_hold(t, t.len() as int, name);
    assert(all.len() == r@.len());
    assert(all[0] == opt_text(r@[0]));
    assert(all[1] == opt_text(r@[1]));
    if all.contains(Some(name)) {
        let i = choose|i: int| 0 <= i < all.len() && all[i] == Some(name);
        assert(r@[i] is Some && r@[i]->0@ == name);
    }
    if exists|i: int| 0 <= i < r@.len() && (#[trigger] r@[i]) is Some && r@[i]->0@ == name {
        let i = choose|i: int|
            0 <= i < r@.len() && (#[trigger] r@[i]) is Some && r@[i]->0@ == name;
        assert(all[i] == Some(name));
    }
    if exists|i: int| 0 <= i < t.len() && names_instance(#[trigger] t[i], name) {
        let i = choose|i: int| 0 <= i < t.len() && names_instance(#[trigger] t[i], name);
        assert(names_instance(classes@[i]@, name));
    }
    if exists|i: int| 0 <= i < classes@.len() && names_instance((#[trigger] classes@[i])@, name) {
        let i = choose|i: int|
            0 <= i < classes@.len() && names_instance((#[trigger] classes@[i])@, name);
        assert(t[i] == classes@[i]@);
    }
    assert forall|i: int, j: int|
        0 <= i < j < r@.len() && (#[trigger] r@[i]) is Some && (#[trigger] r@[j]) is Some implies
        r@[i]->0@ != r@[j]->0@ by {
        assert(all[i] != all[j]);
    }
}

// ---------------------------------------------------------------------------------------------
// Replies
// ---------------------------------------------------------------------------------------------

/// A file is named by the last part of its path, or by the whole where there is none. A reply that
/// gives the whole path is taken by it; else one that gives a name is taken as that name in the
/// directory, or alone; one that gives neither tells of no file.
pub proof fn reply_tells_of_file(
    full: Option<String>,
    name: Option<String>,
    dir: Option<String>,
    r: Option<FoundFile>,
    path: &str,
    shown: String,
)
    requires
        call_ensures(ipc_file, (full, name, dir), r),
        call_ensures(name_of, (path,), shown),
    ensures
        path_file_name(path@) is Some ==> shown@ == path_file_name(path@)->0,
        path_file_name(path@) is None ==> shown@ == path@,
        ({
            let given = full is Some && full->0@.len() > 0;
            let named = name is Some && name->0@.len() > 0;
            let placed = dir is Some && dir->0@.len() > 0;
            &&& r is Some <==> given || named
            &&& given ==> r->0.path@ == full->0@
            &&& given && path@ == full->0@ ==> r->0.name@ == shown@
            &&& !given && named ==> r->0.name@ == name->0@
            &&& !given && named && placed ==> r->0.path@ == path_join(dir->0@, name->0@)
            &&& !given && named && !placed ==> r->0.path@ == name->0@
        }),
{
}

proof fn full_lines_from_front(x: Seq<char>, rest: Seq<Seq<char>>, n: int)
    requires
        0 <= n <= rest.len(),
    ensures
        full_lines(seq![x] + rest, n + 1) == (if trim(x).len() > 0 {
            seq![trim(x)]
        } else {
            Seq::empty()
        }) + full_lines(rest, n),
    decreases n,
{
    let all = seq![x] + rest;
    let head: Seq<Seq<char>> = if trim(x).len() > 0 {
        seq![trim(x)]
    } else {
        Seq::empty()
    };
    if n == 0 {
        assert(full_lines(all, 0) =~= Seq::empty());
        assert(all[0] == x);
        assert(full_lines(all, 1) =~= head + full_lines(rest, 0));
    } else {
        full_lines_from_front(x, rest, n - 1);
        assert(all[n] == rest[n - 1]);
        assert(full_lines(all, n + 1) =~= head + full_lines(rest, n));
    }
}

/// The files that the command line program printed stand one to a line: the first line, without
/// the space around it, is the first file, unless it is blank, and the other lines give the others.
/// No more are taken than were asked for, but one in any case.
pub proof fn each_line_is_a_file(
    stdout: &str,
    max: u32,
    r: Vec<FoundFile>,
    line: Seq<char>,
    rest: &str,
    s: Vec<FoundFile>,
    i: int,
)
    requires
        call_ensures(es_files, (stdout, max), r),
        call_ensures(es_files, (rest, max), s),
        stdout@ == line + seq!['\n'] + rest@,
        forall|k: int| 0 <= k < line.len() ==> line[k] != '\n',
        line.len() > 0 ==> line.last() != '\r',
    ensures
        ({
            let limit: int = if max == 0 {
                1
            } else {
                max as int
            };
            let full = trim(line).len() > 0;
            &&& !full ==> r@.len() == s@.len()
            &&& !full && 0 <= i < r@.len() ==> r@[i].path@ == s@[i].path@
            &&& full && s@.len() < limit ==> r@.len() == s@.len() + 1
            &&& full && s@.len() == limit ==> r@.len() == limit
            &&& full ==> r@[0].path@ == trim(line)
            &&& full && 0 < i < r@.len() ==> r@[i].path@ == s@[i - 1].path@
        }),
{
    line_feed_ends_line(line, rest@);
    let ls = lines(stdout@);
    let more = lines(rest@);
    assert(ls =~= seq![line] + more) by {
        assert(ls[0] == line);
        assert forall|k: int| 0 < k < ls.len() implies ls[k] == more[k - 1] by {
            assert(ls.skip(1)[k - 1] == ls[k]);
        }
    }
    full_lines_from_front(line, more, more.len() as int);
    let a = file_paths(r@);
    let b = file_paths(s@);
    assert(a.len() == r@.len() && b.len() == s@.len());
    if 0 <= i < r@.len() {
        assert(a[i] == r@[i].path@);
        if i < s@.len() {
            assert(b[i] == s@[i].path@);
        }
        if 0 < i && i - 1 < s@.len() {
            assert(b[i - 1] == s@[i - 1].path@);
        }
    }
    if r@.len() > 0 {
        assert(a[0] == r@[0].path@);
    }
}

/// An output without a line tells of no file, and each file is named by the last part of its path.
pub proof fn empty_output_tells_of_none(
    stdout: &str,
    max: u32,
    r: Vec<FoundFile>,
    i: int,
    path: &str,
    shown: String,
)
    requires
        call_ensures(es_files, (stdout, max), r),
        call_ensures(name_of, (path,), shown),
    ensures
        stdout@.len() == 0 ==> r@.len() == 0,
        0 <= i < r@.len() && path@ == r@[i].path@ ==> r@[i].name@ == shown@,
{
    if stdout@.len() == 0 {
        crate::text_laws::text_without_line_feed_is_a_line(stdout@);
        assert(file_paths(r@).len() == r@.len());
    }
}

/// The bytes that the command line program puts out are read as text, and that text as files.
pub proof fn output_is_read_as_text(
    bytes: &Vec<u8>,
    max: u32,
    r: Vec<FoundFile>,
    text: &str,
    s: Vec<FoundFile>,
    i: int,
)
    requires
        call_ensures(es_output_files, (bytes, max), r),
        text@ == utf8_text(bytes@),
        call_ensures(es_files, (text, max), s),
    ensures
        r@.len() == s@.len(),
        0 <= i < r@.len() ==> r@[i].path@ == s@[i].path@ && r@[i].name@ == s@[i].name@,
{
    let a = file_paths(r@);
    let b = file_paths(s@);
    assert(a.len() == r@.len() && b.len() == s@.len());
    if 0 <= i < r@.len() {
        assert(a[i] == r@[i].path@);
        assert(b[i] == s@[i].path@);
    }
}

// ---------------------------------------------------------------------------------------------
// The ways to search
// ---------------------------------------------------------------------------------------------

/// Everything is started just where it does not answer and its program is known. It is then tried
/// sixty times, and the index is waited for fifty times; after that the user is told, or the index
/// asked all the same.
pub proof fn everything_is_started_and_waited_for(
    connected: bool,
    exe: Option<String>,
    r: StartStep,
    tries: u32,
    s: StartStep,
    loaded: bool,
    waits: bool,
)
    requires
        call_ensures(start_step, (connected, exe), r),
        call_ensures(wait_step, (connected, tries), s),
        call_ensures(waits_for_index, (loaded, tries), waits),
    ensures
        r is Ready <==> connected,
        s is Ready <==> connected,
        r is Start <==> !connected && exe is Some,
        r matches StartStep::Start(p) ==> p@ == exe->0@,
        r is Fail <==> !connected && exe is None,
        r matches StartStep::Fail(t) ==> t@
            == "程序目录缺少 Everything.exe。请将 everything 文件夹中的文件放到与 yian-launcher.exe 同级目录"@,
        s is Wait <==> !connected && tries < 60,
        s is Fail <==> !connected && tries >= 60,
        s matches StartStep::Fail(t) ==> t@
            == "已启动程序目录下的 Everything，但仍无法连接。请稍候再搜，或手动运行同目录 Everything.exe"@,
        waits <==> !loaded && tries < 50,
{
}

/// Hits of the command line program count however it ended; without any, its end decides, and the
/// user is told how it ended and what it said.
pub proof fn hits_of_program_count(
    hits: Vec<EverythingHit>,
    success: bool,
    exit: &str,
    stderr: &str,
    r: Result<Vec<EverythingHit>, String>,
    bytes: &Vec<u8>,
    s: Result<Vec<EverythingHit>, String>,
    a: Seq<char>,
    t: Seq<char>,
    b: Seq<char>,
)
    requires
        call_ensures(es_result, (hits, success, exit, stderr), r),
        call_ensures(es_output_result, (hits, success, exit, bytes), s),
        stderr@ == utf8_text(bytes@),
        stderr@ == a + t + b,
        stands_between_space(a, t, b),
    ensures
        r is Ok <==> success || hits@.len() > 0,
        r is Ok ==> r->Ok_0 == hits,
        r is Err ==> r->Err_0@ == "es.exe 无结果 (exit="@ + exit@ + ") stderr="@ + t,
        s is Ok <==> r is Ok,
        s is Ok ==> s->Ok_0 == hits,
        s is Err ==> s->Err_0@ == r->Err_0@,
{
    trimmed_part(stderr@, a, t, b);
}

/// A blank text finds nothing; any other is searched for without the space around it. What
/// Everything finds is the answer; where it finds nothing or fails, what the command line program
/// finds is, even if that is nothing; where that fails too, Everything shows its own window and the
/// user is told.
pub proof fn ways_to_search_are_tried_in_turn(
    query: &str,
    progress: SearchProgress,
    r: SearchStep,
    a: Seq<char>,
    t: Seq<char>,
    b: Seq<char>,
)
    requires
        call_ensures(search_files, (query, progress), r),
        query@ == a + t + b,
        stands_between_space(a, t, b),
    ensures
        progress is Begun && t.len() == 0 ==> r is Done && r->Done_0 is Ok && r->Done_0->Ok_0@.len()
            == 0,
        progress is Begun && t.len() > 0 ==> r is AskIndex && r->AskIndex_0@ == t,
        progress matches SearchProgress::IndexReplied(reply) ==> {
            &&& reply is Ok && reply->Ok_0@.len() > 0 ==> r == SearchStep::Done(reply)
            &&& reply is Err || reply->Ok_0@.len() == 0 ==> r is AskProgram
        },
        progress matches SearchProgress::ProgramReplied(reply) ==> {
            &&& reply is Ok ==> r == SearchStep::Done(reply)
            &&& reply is Err ==> r is ShowWindow
        },
        progress matches SearchProgress::WindowAsked(outcome) ==> {
            &&& r is Done && r->Done_0 is Err
            &&& outcome is Ok ==> r->Done_0->Err_0@
                == "已用程序目录 Everything 打开搜索窗口。若首次运行请等待索引完成后再搜"@
            &&& outcome is Err ==> r->Done_0->Err_0@
                == "搜索失败：请确认程序目录存在 Everything.exe / Everything64.dll / es.exe。"@
                + outcome->Err_0@
        },
{
    trimmed_part(query@, a, t, b);
}

} // verus!
