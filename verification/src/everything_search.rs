//! Searching all files with the help of Everything, a file index that runs beside the launcher:
//! where its programs are looked for, how its replies are read, and in which order its ways are
//! tried.

use vstd::prelude::*;

use crate::paths::{
    file_name_of, join_path, parent_of, path_file_name, path_join, path_parent, path_same,
    same_path,
};
use crate::text::{
    after, ascii_lowercase, concat, concat3, decode_utf8, join, joined, lines, opt_text, part_if,
    push_part, same_ignoring_ascii_case, same_text, split_lines, starts_with, strip_prefix, texts,
    to_chars, trim, trimmed, utf8_text,
};

verus! {

// ---------------------------------------------------------------------------------------------
// Hits
// ---------------------------------------------------------------------------------------------

/// A file that was found.
#[derive(Debug, Clone)]
pub struct EverythingHit {
    pub name: String,
    /// The whole path.
    pub path: String,
    /// The directory that holds the file.
    pub location: String,
    /// When the file was last changed, as shown.
    pub modified: String,
    /// What kind of file it is, as shown.
    pub attributes: String,
}

/// What is known of a file: its kind, the attributes that the system keeps, if it keeps any, and
/// when it was last changed, in seconds and nanoseconds from the Unix epoch.
#[derive(Debug, Clone, Copy)]
pub struct FileFacts {
    pub is_dir: bool,
    pub is_symlink: bool,
    pub attributes: Option<u32>,
    pub modified: Option<(i64, u32)>,
}

/// Whether the attribute is set.
pub open spec fn has_attribute(attributes: Option<u32>, bit: u32) -> bool {
    attributes matches Some(a) && a & bit != 0
}

/// The kind of a file and its attributes, as shown.
pub open spec fn attribute_parts(f: FileFacts) -> Seq<Seq<char>> {
    seq![
        if f.is_dir {
            "文件夹"@
        } else if f.is_symlink {
            "链接"@
        } else {
            "文件"@
        },
    ] + part_if(has_attribute(f.attributes, 0x1), "只读"@) + part_if(
        has_attribute(f.attributes, 0x2),
        "隐藏"@,
    ) + part_if(has_attribute(f.attributes, 0x4), "系统"@) + part_if(
        has_attribute(f.attributes, 0x20),
        "存档"@,
    )
}

fn attribute_set(attributes: Option<u32>, bit: u32) -> (r: bool)
    ensures
        r == has_attribute(attributes, bit),
{
    match attributes {
        Some(a) => a & bit != 0,
        None => false,
    }
}

/// The kind of the file and its attributes, as shown.
pub fn format_file_attributes(f: FileFacts) -> (r: String)
    ensures
        r@ == joined(attribute_parts(f), " · "@),
{
    let mut parts: Vec<String> = Vec::new();
    assert(texts(parts@) =~= Seq::empty());
    if f.is_dir {
        push_part(&mut parts, true, "文件夹");
    } else if f.is_symlink {
        push_part(&mut parts, true, "链接");
    } else {
        push_part(&mut parts, true, "文件");
    }
    push_part(&mut parts, attribute_set(f.attributes, 0x1), "只读");
    push_part(&mut parts, attribute_set(f.attributes, 0x2), "隐藏");
    push_part(&mut parts, attribute_set(f.attributes, 0x4), "系统");
    push_part(&mut parts, attribute_set(f.attributes, 0x20), "存档");
    assert(texts(parts@) =~= attribute_parts(f));
    join(&parts, " · ")
}

/// Whether the moment is one for which a date can be written.
pub open spec fn datable(secs: i64, nanos: u32) -> bool {
    -8_000_000_000_000 <= secs <= 8_000_000_000_000 && nanos < 1_000_000_000
}

/// Whether the text shows the moment, in seconds and nanoseconds since the Unix epoch, as date,
/// hour and minute. Places differ in which text does.
pub uninterp spec fn shows_moment(secs: i64, nanos: u32, text: Seq<char>) -> bool;

/// `DateTime<Local>` of chrono, made from the moment and formatted as date, hour and minute. That
/// the text shows this moment is all that is said: which text does rests on the time zone of the
/// machine.
#[verifier::external_body]
fn local_minute(secs: i64, nanos: u32) -> (r: String)
    requires
        datable(secs, nanos),
    ensures
        shows_moment(secs, nanos, r@),
{
    let utc = chrono::DateTime::<chrono::Utc>::from_timestamp(secs, nanos).unwrap_or_default();
    utc.with_timezone(&chrono::Local).format("%Y-%m-%d %H:%M").to_string()
}

/// Whether `hit` tells of the file with what is known of it, given the moment of its last change
/// as shown.
pub open spec fn tells_of(
    hit: EverythingHit,
    name: Seq<char>,
    path: Seq<char>,
    facts: Option<FileFacts>,
    modified: Option<Seq<char>>,
) -> bool {
    &&& hit.name@ == name
    &&& hit.path@ == path
    &&& hit.location@ == match path_parent(path) {
        Some(dir) => dir,
        None => Seq::empty(),
    }
    &&& hit.modified@ == match (facts, modified) {
        (Some(_), Some(t)) => t,
        _ => "—"@,
    }
    &&& hit.attributes@ == match facts {
        Some(f) => joined(attribute_parts(f), " · "@),
        None => "未知"@,
    }
}

/// The hit that tells of the file, given the moment of its last change as shown.
pub fn hit_with(
    name: String,
    path: String,
    facts: Option<FileFacts>,
    modified: Option<String>,
) -> (r: EverythingHit)
    ensures
        tells_of(r, name@, path@, facts, opt_text(modified)),
{
    let location = match parent_of(path.as_str()) {
        Some(dir) => dir,
        None => String::new(),
    };
    match facts {
        Some(f) => {
            let modified = match modified {
                Some(t) => t,
                None => "—".to_owned(),
            };
            EverythingHit { name, path, location, modified, attributes: format_file_attributes(f) }
        },
        None => EverythingHit {
            name,
            path,
            location,
            modified: "—".to_owned(),
            attributes: "未知".to_owned(),
        },
    }
}

/// Whether `modified` shows the moment of the last change, where it is known, and is nothing
/// otherwise.
pub open spec fn shown_for(facts: Option<FileFacts>, modified: Option<Seq<char>>) -> bool {
    match facts {
        Some(f) => match (f.modified, modified) {
            (Some((secs, nanos)), Some(text)) => shows_moment(secs, nanos, text),
            (None, None) => true,
            _ => false,
        },
        None => modified is None,
    }
}

/// The hit that tells of the file. The moment of its last change is shown in the time of the
/// machine's place.
pub fn enrich_hit(name: String, path: String, facts: Option<FileFacts>) -> (r: EverythingHit)
    requires
        facts matches Some(f) ==> (f.modified matches Some((secs, nanos)) ==> datable(secs, nanos)),
    ensures
        exists|modified: Option<Seq<char>>|
            shown_for(facts, modified) && #[trigger] tells_of(r, name@, path@, facts, modified),
{
    let modified = match facts {
        Some(f) => match f.modified {
            Some((secs, nanos)) => Some(local_minute(secs, nanos)),
            None => None,
        },
        None => None,
    };
    let ghost shown = opt_text(modified);
    let r = hit_with(name, path, facts, modified);
    assert(tells_of(r, name@, path@, facts, shown));
    r
}

// ---------------------------------------------------------------------------------------------
// The programs
// ---------------------------------------------------------------------------------------------

/// A password that takes the lock off any group.
pub const ADMIN_MASTER_PASSWORD: &'static str = "yian123";

/// The launcher's own directory and the one for Everything in it.
pub open spec fn own_dirs(root: Option<Seq<char>>) -> Seq<Seq<char>> {
    match root {
        Some(root) => seq![root, path_join(root, "everything"@)],
        None => Seq::empty(),
    }
}

/// Whether the directory is among the others.
pub open spec fn among(dirs: Seq<Seq<char>>, dir: Seq<char>) -> bool {
    exists|i: int| 0 <= i < dirs.len() && path_same(#[trigger] dirs[i], dir)
}

/// The directories that may hold the programs: the launcher's own and the one for Everything in
/// it, then the same of the current directory, unless that is among them already.
pub open spec fn search_dirs(root: Option<Seq<char>>, cwd: Option<Seq<char>>) -> Seq<Seq<char>> {
    match cwd {
        Some(cwd) => if among(own_dirs(root), cwd) {
            own_dirs(root)
        } else {
            own_dirs(root) + own_dirs(Some(cwd))
        },
        None => own_dirs(root),
    }
}

fn is_among(dirs: &Vec<String>, dir: &str) -> (r: bool)
    ensures
        r == among(texts(dirs@), dir@),
{
    let ghost all = texts(dirs@);
    let mut i: usize = 0;
    while i < dirs.len()
        invariant
            i <= dirs@.len(),
            all == texts(dirs@),
            forall|k: int| 0 <= k < i ==> !path_same(#[trigger] all[k], dir@),
        decreases dirs@.len() - i,
    {
        assert(all[i as int] == dirs@[i as int]@);
        if same_path(dirs[i].as_str(), dir) {
            return true;
        }
        i = i + 1;
    }
    false
}

fn push_own_dirs(dirs: &mut Vec<String>, root: String)
    ensures
        texts(final(dirs)@) == texts(old(dirs)@) + own_dirs(Some(root@)),
{
    let everything = join_path(root.as_str(), "everything");
    let ghost before = texts(dirs@);
    dirs.push(root);
    dirs.push(everything);
    assert(texts(dirs@) =~= before + own_dirs(Some(root@)));
}

/// The directories that may hold the programs, the most likely first.
pub fn program_search_dirs(root: Option<String>, cwd: Option<String>) -> (r: Vec<String>)
    ensures
        texts(r@) == search_dirs(opt_text(root), opt_text(cwd)),
{
    let mut dirs: Vec<String> = Vec::new();
    let ghost own = own_dirs(opt_text(root));
    if let Some(root) = root {
        push_own_dirs(&mut dirs, root);
    }
    assert(texts(dirs@) =~= own);
    if let Some(cwd) = cwd {
        if !is_among(&dirs, cwd.as_str()) {
            push_own_dirs(&mut dirs, cwd);
        }
    }
    dirs
}

/// A file in a directory.
#[derive(Debug)]
pub struct DirEntry {
    pub name: String,
    pub is_file: bool,
}

/// What was found in a directory: whether it holds a file of the very name looked for, and what
/// it holds.
#[derive(Debug)]
pub struct DirListing {
    pub dir: String,
    pub has_exact: bool,
    pub entries: Vec<DirEntry>,
}

/// Whether an entry is a file of the name, letters of either case being the same.
pub open spec fn entry_named(name: Seq<char>) -> spec_fn(DirEntry) -> bool {
    |e: DirEntry| ascii_lowercase(e.name@) == ascii_lowercase(name) && e.is_file
}

/// The file of the name in a directory.
pub open spec fn found_in(listing: DirListing, name: Seq<char>) -> Option<Seq<char>> {
    if listing.has_exact {
        Some(path_join(listing.dir@, name))
    } else {
        match crate::lists::first_where(listing.entries@, entry_named(name)) {
            Some(i) => Some(path_join(listing.dir@, listing.entries@[i].name@)),
            None => None,
        }
    }
}

fn find_in_dir(listing: &DirListing, name: &str) -> (r: Option<String>)
    ensures
        opt_text(r) == found_in(*listing, name@),
{
    if listing.has_exact {
        return Some(join_path(listing.dir.as_str(), name));
    }
    let ghost p = entry_named(name@);
    let mut i: usize = 0;
    while i < listing.entries.len()
        invariant
            i <= listing.entries@.len(),
            p == entry_named(name@),
            !listing.has_exact,
            forall|k: int| 0 <= k < i ==> !p(#[trigger] listing.entries@[k]),
        decreases listing.entries@.len() - i,
    {
        if same_ignoring_ascii_case(listing.entries[i].name.as_str(), name)
            && listing.entries[i].is_file {
            proof {
                crate::lists::first_where_found(listing.entries@, p, i as int);
            }
            return Some(join_path(listing.dir.as_str(), listing.entries[i].name.as_str()));
        }
        i = i + 1;
    }
    proof {
        crate::lists::first_where_absent(listing.entries@, p);
    }
    None
}

/// The first file of the name in the directories.
pub open spec fn found_in_dirs(listings: Seq<DirListing>, name: Seq<char>) -> Option<Seq<char>>
    decreases listings.len(),
{
    if listings.len() == 0 {
        None
    } else if found_in(listings[0], name) is Some {
        found_in(listings[0], name)
    } else {
        found_in_dirs(listings.skip(1), name)
    }
}

/// The first file of the name in the directories. In each, the very name goes before one that
/// differs in the case of letters.
pub fn find_in_program_dirs(listings: &Vec<DirListing>, name: &str) -> (r: Option<String>)
    ensures
        opt_text(r) == found_in_dirs(listings@, name@),
{
    let mut i: usize = 0;
    assert(listings@.skip(0) =~= listings@);
    while i < listings.len()
        invariant
            i <= listings@.len(),
            found_in_dirs(listings@, name@) == found_in_dirs(listings@.skip(i as int), name@),
        decreases listings@.len() - i,
    {
        let found = find_in_dir(&listings[i], name);
        assert(listings@.skip(i as int)[0] == listings@[i as int]);
        if found.is_some() {
            return found;
        }
        assert(listings@.skip(i as int).skip(1) =~= listings@.skip(i + 1));
        i = i + 1;
    }
    None
}

/// The text without quotation marks at its start.
pub open spec fn unquoted_start(s: Seq<char>) -> Seq<char>
    decreases s.len(),
{
    if s.len() > 0 && s[0] == '"' {
        unquoted_start(s.skip(1))
    } else {
        s
    }
}

/// The text without quotation marks at its end.
pub open spec fn unquoted_end(s: Seq<char>) -> Seq<char>
    decreases s.len(),
{
    if s.len() > 0 && s.last() == '"' {
        unquoted_end(s.drop_last())
    } else {
        s
    }
}

/// The text without quotation marks at its ends.
pub fn unquote(s: &str) -> (r: String)
    ensures
        r@ == unquoted_end(unquoted_start(s@)),
{
    let v = to_chars(s);
    let n = v.len();
    let mut from: usize = 0;
    assert(v@.skip(0) =~= v@);
    while from < n && v[from] == '"'
        invariant
            from <= n,
            n == v@.len(),
            unquoted_start(v@) == unquoted_start(v@.skip(from as int)),
        decreases n - from,
    {
        assert(v@.skip(from as int).skip(1) =~= v@.skip(from + 1));
        from = from + 1;
    }
    let ghost start = v@.skip(from as int);
    assert(unquoted_start(v@) == start);
    let mut to: usize = n;
    assert(v@.subrange(from as int, n as int) =~= start);
    while to > from && v[to - 1] == '"'
        invariant
            from <= to <= n,
            n == v@.len(),
            unquoted_end(start) == unquoted_end(v@.subrange(from as int, to as int)),
        decreases to,
    {
        assert(v@.subrange(from as int, to as int).drop_last() =~= v@.subrange(
            from as int,
            to - 1,
        ));
        to = to - 1;
    }
    crate::text::from_chars(&v, from, to)
}

/// The places that a recorded installation of Everything may name: the program or its directory.
pub open spec fn recorded_places(value: Seq<char>) -> Seq<Seq<char>> {
    let p = unquoted_end(unquoted_start(value));
    seq![p, path_join(p, "Everything.exe"@)]
}

/// The places of the first `n` recorded installations.
pub open spec fn all_recorded_places(values: Seq<Seq<char>>, n: int) -> Seq<Seq<char>>
    decreases n,
{
    if n <= 0 {
        Seq::empty()
    } else {
        all_recorded_places(values, n - 1) + recorded_places(values[n - 1])
    }
}

/// The path, in each of the directories.
pub open spec fn in_each(dirs: Seq<Seq<char>>, rel: Seq<char>) -> Seq<Seq<char>> {
    dirs.map_values(|dir: Seq<char>| path_join(dir, rel))
}

fn push_in_each(r: &mut Vec<String>, dirs: &Vec<String>, rel: &str)
    ensures
        texts(final(r)@) == texts(old(r)@) + in_each(texts(dirs@), rel@),
{
    let ghost before = texts(r@);
    let ghost all = in_each(texts(dirs@), rel@);
    let mut i: usize = 0;
    assert(texts(r@) =~= before + all.take(0));
    while i < dirs.len()
        invariant
            i <= dirs@.len(),
            all == in_each(texts(dirs@), rel@),
            texts(r@) == before + all.take(i as int),
        decreases dirs@.len() - i,
    {
        let ghost now = texts(r@);
        let p = join_path(dirs[i].as_str(), rel);
        assert(p@ == all[i as int]);
        r.push(p);
        i = i + 1;
        assert(texts(r@) =~= now.push(p@));
        assert(texts(r@) =~= before + all.take(i as int));
    }
    assert(all.take(i as int) =~= all);
}

/// Where Everything itself is looked for if it does not stand beside the launcher: where an
/// installation was recorded, where programs are installed, and on the search path. The first
/// that is a file is the one.
pub fn everything_candidates(
    recorded: &Vec<String>,
    program_dirs: &Vec<String>,
    path_dirs: &Vec<String>,
) -> (r: Vec<String>)
    ensures
        texts(r@) == all_recorded_places(texts(recorded@), recorded@.len() as int) + in_each(
            texts(program_dirs@),
            "Everything\\Everything.exe"@,
        ) + in_each(texts(path_dirs@), "Everything.exe"@),
{
    let mut r: Vec<String> = Vec::new();
    let mut i: usize = 0;
    let ghost values = texts(recorded@);
    assert(texts(r@) =~= all_recorded_places(values, 0));
    while i < recorded.len()
        invariant
            i <= recorded@.len(),
            values == texts(recorded@),
            texts(r@) == all_recorded_places(values, i as int),
        decreases recorded@.len() - i,
    {
        let ghost now = texts(r@);
        let p = unquote(recorded[i].as_str());
        let exe = join_path(p.as_str(), "Everything.exe");
        assert(values[i as int] == recorded@[i as int]@);
        r.push(p);
        r.push(exe);
        i = i + 1;
        assert(texts(r@) =~= now + recorded_places(values[i - 1]));
    }
    push_in_each(&mut r, program_dirs, "Everything\\Everything.exe");
    push_in_each(&mut r, path_dirs, "Everything.exe");
    r
}

/// The command line program beside Everything itself.
pub open spec fn beside(everything: Option<Seq<char>>) -> Seq<Seq<char>> {
    match everything {
        Some(exe) => match path_parent(exe) {
            Some(dir) => seq![path_join(dir, "es.exe"@)],
            None => Seq::empty(),
        },
        None => Seq::empty(),
    }
}

/// Where the command line program is looked for if it does not stand beside the launcher: beside
/// Everything itself, and on the search path. The first that is a file is the one.
pub fn es_candidates(everything: Option<String>, path_dirs: &Vec<String>) -> (r: Vec<String>)
    ensures
        texts(r@) == beside(opt_text(everything)) + in_each(texts(path_dirs@), "es.exe"@),
{
    let mut r: Vec<String> = Vec::new();
    let ghost first = beside(opt_text(everything));
    if let Some(exe) = everything {
        if let Some(dir) = parent_of(exe.as_str()) {
            r.push(join_path(dir.as_str(), "es.exe"));
        }
    }
    assert(texts(r@) =~= first);
    push_in_each(&mut r, path_dirs, "es.exe");
    r
}

// ---------------------------------------------------------------------------------------------
// Running instances
// ---------------------------------------------------------------------------------------------

/// What stands between `open_mark` and a closing bracket at the end.
pub open spec fn bracketed(s: Seq<char>, open_mark: Seq<char>) -> Option<Seq<char>> {
    if starts_with(s, open_mark) {
        let rest = after(s, open_mark.len() as int);
        if rest.len() > 0 && rest.last() == ')' {
            Some(rest.drop_last())
        } else {
            None
        }
    } else {
        None
    }
}

fn take_bracketed(s: &str, open_mark: &str) -> (r: Option<String>)
    ensures
        opt_text(r) == bracketed(s@, open_mark@),
{
    match strip_prefix(s, open_mark) {
        None => None,
        Some(rest) => {
            let v = to_chars(rest.as_str());
            let n = v.len();
            if n > 0 && v[n - 1] == ')' {
                let inner = crate::text::from_chars(&v, 0, n - 1);
                assert(inner@ =~= rest@.drop_last());
                Some(inner)
            } else {
                None
            }
        },
    }
}

/// The instance of Everything to which a window of the given class belongs, if it is named.
pub open spec fn instance_of(class: Seq<char>) -> Option<Seq<char>> {
    if starts_with(class, "EVERYTHING_TASKBAR_NOTIFICATION"@) {
        let rest = after(class, "EVERYTHING_TASKBAR_NOTIFICATION"@.len() as int);
        let inner = if bracketed(rest, "_("@) is Some {
            bracketed(rest, "_("@)
        } else {
            bracketed(rest, "("@)
        };
        match inner {
            Some(name) if name.len() > 0 => Some(name),
            _ => None,
        }
    } else {
        None
    }
}

/// The instance to which a window of the class belongs, if it is named.
pub fn instance_name(class: &str) -> (r: Option<String>)
    ensures
        opt_text(r) == instance_of(class@),
{
    match strip_prefix(class, "EVERYTHING_TASKBAR_NOTIFICATION") {
        None => None,
        Some(rest) => {
            let inner = match take_bracketed(rest.as_str(), "_(") {
                Some(s) => Some(s),
                None => take_bracketed(rest.as_str(), "("),
            };
            match inner {
                Some(name) => if name.as_str().is_empty() {
                    None
                } else {
                    Some(name)
                },
                None => None,
            }
        },
    }
}

/// The names, each as a text.
pub open spec fn opt_texts(v: Seq<Option<String>>) -> Seq<Option<Seq<char>>> {
    v.map_values(|o: Option<String>| opt_text(o))
}

/// The instances to which to connect, after the first `n` windows were looked at: the one without
/// a name, the one of the current version, and those of the windows, each once.
pub open spec fn instances(classes: Seq<Seq<char>>, n: int) -> Seq<Option<Seq<char>>>
    decreases n,
{
    if n <= 0 {
        seq![None, Some("1.5a"@)]
    } else {
        let so_far = instances(classes, n - 1);
        let next = instance_of(classes[n - 1]);
        if next is Some && !so_far.contains(next) {
            so_far.push(next)
        } else {
            so_far
        }
    }
}

fn has_instance(names: &Vec<Option<String>>, name: &str) -> (r: bool)
    ensures
        r == opt_texts(names@).contains(Some(name@)),
{
    let ghost all = opt_texts(names@);
    let mut i: usize = 0;
    while i < names.len()
        invariant
            i <= names@.len(),
            all == opt_texts(names@),
            forall|k: int| 0 <= k < i ==> #[trigger] all[k] != Some(name@),
        decreases names@.len() - i,
    {
        assert(all[i as int] == opt_text(names@[i as int]));
        if let Some(n) = &names[i] {
            if same_text(n.as_str(), name) {
                assert(all[i as int] == Some(name@));
                return true;
            }
        }
        i = i + 1;
    }
    false
}

/// The instances to which to connect, given the classes of all windows.
pub fn discover_ipc_instance_names(classes: &Vec<String>) -> (r: Vec<Option<String>>)
    ensures
        opt_texts(r@) == instances(texts(classes@), classes@.len() as int),
{
    let mut names: Vec<Option<String>> = Vec::new();
    names.push(None);
    names.push(Some("1.5a".to_owned()));
    let ghost all = texts(classes@);
    assert(opt_texts(names@) =~= instances(all, 0));
    let mut i: usize = 0;
    while i < classes.len()
        invariant
            i <= classes@.len(),
            all == texts(classes@),
            opt_texts(names@) == instances(all, i as int),
        decreases classes@.len() - i,
    {
        assert(all[i as int] == classes@[i as int]@);
        if let Some(name) = instance_name(classes[i].as_str()) {
            if !has_instance(&names, name.as_str()) {
                let ghost before = opt_texts(names@);
                names.push(Some(name));
                assert(opt_texts(names@) =~= before.push(Some(name@)));
            }
        }
        i = i + 1;
    }
    names
}

// ---------------------------------------------------------------------------------------------
// Replies
// ---------------------------------------------------------------------------------------------

/// The name of a file: the last part of its path, or the whole where there is none.
pub open spec fn shown_name(path: Seq<char>) -> Seq<char> {
    match path_file_name(path) {
        Some(name) => name,
        None => path,
    }
}

/// The name of a file: the last part of its path, or the whole where there is none.
pub fn name_of(path: &str) -> (r: String)
    ensures
        r@ == shown_name(path@),
{
    match file_name_of(path) {
        Some(name) => name,
        None => path.to_owned(),
    }
}

/// What is there, or nothing.
pub open spec fn or_empty(o: Option<Seq<char>>) -> Seq<char> {
    match o {
        Some(s) => s,
        None => Seq::empty(),
    }
}

/// The name and path of a file in a reply, which gives the whole path, or else a name and the
/// directory. None where it gives neither path nor name.
pub open spec fn reply_file(
    full: Option<Seq<char>>,
    name: Option<Seq<char>>,
    dir: Option<Seq<char>>,
) -> Option<(Seq<char>, Seq<char>)> {
    if or_empty(full).len() > 0 {
        Some((shown_name(full->0), full->0))
    } else if or_empty(name).len() == 0 {
        None
    } else if or_empty(dir).len() == 0 {
        Some((name->0, name->0))
    } else {
        Some((name->0, path_join(dir->0, name->0)))
    }
}

/// A file that was found: its name and its path.
#[derive(Debug)]
pub struct FoundFile {
    pub name: String,
    pub path: String,
}

/// The name and path of a file in a reply.
pub fn ipc_file(full: Option<String>, name: Option<String>, dir: Option<String>) -> (r: Option<
    FoundFile,
>)
    ensures
        match r {
            Some(f) => reply_file(opt_text(full), opt_text(name), opt_text(dir)) == Some(
                (f.name@, f.path@),
            ),
            None => reply_file(opt_text(full), opt_text(name), opt_text(dir)) is None,
        },
{
    if let Some(full) = full {
        if !full.as_str().is_empty() {
            let name = name_of(full.as_str());
            return Some(FoundFile { name, path: full });
        }
    }
    match name {
        None => None,
        Some(name) => {
            if name.as_str().is_empty() {
                return None;
            }
            let path = match dir {
                Some(dir) => if dir.as_str().is_empty() {
                    name.clone()
                } else {
                    join_path(dir.as_str(), name.as_str())
                },
                None => name.clone(),
            };
            Some(FoundFile { name, path })
        },
    }
}

/// The lines of a text that are not blank, without the space around them.
pub open spec fn full_lines(ls: Seq<Seq<char>>, n: int) -> Seq<Seq<char>>
    decreases n,
{
    if n <= 0 {
        Seq::empty()
    } else {
        let so_far = full_lines(ls, n - 1);
        if trim(ls[n - 1]).len() > 0 {
            so_far.push(trim(ls[n - 1]))
        } else {
            so_far
        }
    }
}

/// The files that the command line program printed, one to a line: as many as asked for, and one
/// in any case.
pub open spec fn printed_files(stdout: Seq<char>, max_results: int) -> Seq<Seq<char>> {
    let all = full_lines(lines(stdout), lines(stdout).len() as int);
    all.take(crate::numbers::smaller(all.len() as int, crate::numbers::larger(max_results, 1)))
}

proof fn full_lines_grow(ls: Seq<Seq<char>>, m: int, n: int)
    requires
        0 <= m <= n,
    ensures
        full_lines(ls, m).len() <= full_lines(ls, n).len(),
        full_lines(ls, n).take(full_lines(ls, m).len() as int) == full_lines(ls, m),
    decreases n,
{
    if m < n {
        full_lines_grow(ls, m, n - 1);
        assert(full_lines(ls, n).take(full_lines(ls, m).len() as int) =~= full_lines(
            ls,
            n - 1,
        ).take(full_lines(ls, m).len() as int));
    } else {
        assert(full_lines(ls, n).take(full_lines(ls, m).len() as int) =~= full_lines(ls, m));
    }
}

/// The paths of files.
pub open spec fn file_paths(v: Seq<FoundFile>) -> Seq<Seq<char>> {
    v.map_values(|f: FoundFile| f.path@)
}

/// The files that the command line program printed.
pub fn es_files(stdout: &str, max_results: u32) -> (r: Vec<FoundFile>)
    ensures
        file_paths(r@) == printed_files(stdout@, max_results as int),
        forall|i: int|
            0 <= i < r@.len() ==> (#[trigger] r@[i]).name@ == shown_name(r@[i].path@),
{
    let rows = split_lines(stdout);
    let ghost ls = lines(stdout@);
    let ghost n = ls.len() as int;
    assert(rows@.len() == n) by {
        assert(texts(rows@).len() == n);
    }
    let limit: usize = if max_results == 0 {
        1
    } else {
        max_results as usize
    };
    let mut out: Vec<FoundFile> = Vec::new();
    let mut i: usize = 0;
    assert(file_paths(out@) =~= full_lines(ls, 0));
    while i < rows.len()
        invariant_except_break
            out@.len() < limit,
        invariant
            limit == crate::numbers::larger(max_results as int, 1),
            i <= rows@.len(),
            rows@.len() == n,
            n == ls.len(),
            texts(rows@) == ls,
            file_paths(out@) == full_lines(ls, i as int),
            out@.len() <= limit,
            forall|k: int|
                0 <= k < out@.len() ==> (#[trigger] out@[k]).name@ == shown_name(out@[k].path@),
        ensures
            i <= n,
            file_paths(out@) == full_lines(ls, i as int),
            out@.len() == limit || i == n,
            out@.len() <= limit,
        decreases rows@.len() - i,
    {
        assert(ls[i as int] == rows@[i as int]@) by {
            assert(texts(rows@)[i as int] == rows@[i as int]@);
        }
        let line = trimmed(rows[i].as_str());
        i = i + 1;
        if !line.as_str().is_empty() {
            let ghost before = file_paths(out@);
            let name = name_of(line.as_str());
            out.push(FoundFile { name, path: line });
            assert(file_paths(out@) =~= before.push(line@));
            if out.len() >= limit {
                break;
            }
        }
    }
    proof {
        full_lines_grow(ls, i as int, n);
        let all = full_lines(ls, n);
        assert(file_paths(out@).len() == out@.len());
        assert(file_paths(out@) =~= all.take(
            crate::numbers::smaller(
                all.len() as int,
                crate::numbers::larger(max_results as int, 1),
            ),
        ));
    }
    out
}

/// The files that the command line program printed, given the bytes that it put out.
pub fn es_output_files(stdout: &Vec<u8>, max_results: u32) -> (r: Vec<FoundFile>)
    ensures
        file_paths(r@) == printed_files(utf8_text(stdout@), max_results as int),
        forall|i: int|
            0 <= i < r@.len() ==> (#[trigger] r@[i]).name@ == shown_name(r@[i].path@),
{
    let text = decode_utf8(stdout, stdout.len());
    assert(stdout@.take(stdout@.len() as int) =~= stdout@);
    es_files(text.as_str(), max_results)
}

// ---------------------------------------------------------------------------------------------
// The ways to search, one after another
// ---------------------------------------------------------------------------------------------

/// What to do so that Everything runs.
#[derive(Debug)]
pub enum StartStep {
    /// It runs.
    Ready,
    /// Start the program.
    Start(String),
    /// Wait, and try to connect again.
    Wait,
    /// Tell the user why not.
    Fail(String),
}

/// How often to try to connect after a start.
pub const CONNECT_TRIES: u32 = 60;

/// What to do first, given whether Everything answers already and where its program is.
pub fn start_step(connected: bool, exe: Option<String>) -> (r: StartStep)
    ensures
        match (connected, exe) {
            (true, _) => r is Ready,
            (false, Some(exe)) => r matches StartStep::Start(p) && p == exe,
            (false, None) => r matches StartStep::Fail(t) && t@
                == "程序目录缺少 Everything.exe。请将 everything 文件夹中的文件放到与 yian-launcher.exe 同级目录"@,
        },
{
    if connected {
        return StartStep::Ready;
    }
    match exe {
        Some(exe) => StartStep::Start(exe),
        None => StartStep::Fail(
            "程序目录缺少 Everything.exe。请将 everything 文件夹中的文件放到与 yian-launcher.exe 同级目录".to_owned(),
        ),
    }
}

/// What to do after `tries` tries to connect, the last of which is known.
pub fn wait_step(connected: bool, tries: u32) -> (r: StartStep)
    ensures
        if connected {
            r is Ready
        } else if tries < CONNECT_TRIES {
            r is Wait
        } else {
            r matches StartStep::Fail(t) && t@
                == "已启动程序目录下的 Everything，但仍无法连接。请稍候再搜，或手动运行同目录 Everything.exe"@
        },
{
    if connected {
        StartStep::Ready
    } else if tries < CONNECT_TRIES {
        StartStep::Wait
    } else {
        StartStep::Fail(
            "已启动程序目录下的 Everything，但仍无法连接。请稍候再搜，或手动运行同目录 Everything.exe".to_owned(),
        )
    }
}

/// How often to look whether the index is loaded.
pub const LOAD_TRIES: u32 = 50;

/// Whether to wait once more for the index to be loaded, after `tries` waits. In the end it is
/// asked all the same.
pub fn waits_for_index(loaded: bool, tries: u32) -> (r: bool)
    ensures
        r == (!loaded && tries < LOAD_TRIES),
{
    !loaded && tries < LOAD_TRIES
}

/// What the command line program brought: the hits, or, where there are none and the program
/// failed, how it ended.
pub fn es_result(hits: Vec<EverythingHit>, success: bool, exit: &str, stderr: &str) -> (r: Result<
    Vec<EverythingHit>,
    String,
>)
    ensures
        match r {
            Ok(v) => v == hits && (hits@.len() > 0 || success),
            Err(e) => hits@.len() == 0 && !success && e@ == "es.exe 无结果 (exit="@ + exit@
                + ") stderr="@ + trim(stderr@),
        },
{
    if hits.len() == 0 && !success {
        let head = concat3("es.exe 无结果 (exit=", exit, ") stderr=");
        let tail = trimmed(stderr);
        return Err(concat(head.as_str(), tail.as_str()));
    }
    Ok(hits)
}

/// What the command line program brought, given the bytes that it put out as errors.
pub fn es_output_result(
    hits: Vec<EverythingHit>,
    success: bool,
    exit: &str,
    stderr: &Vec<u8>,
) -> (r: Result<Vec<EverythingHit>, String>)
    ensures
        match r {
            Ok(v) => v == hits && (hits@.len() > 0 || success),
            Err(e) => hits@.len() == 0 && !success && e@ == "es.exe 无结果 (exit="@ + exit@
                + ") stderr="@ + trim(utf8_text(stderr@)),
        },
{
    let text = decode_utf8(stderr, stderr.len());
    assert(stderr@.take(stderr@.len() as int) =~= stderr@);
    es_result(hits, success, exit, text.as_str())
}

/// How far a search has come.
#[derive(Debug)]
pub enum SearchProgress {
    /// It begins.
    Begun,
    /// Everything itself has replied.
    IndexReplied(Result<Vec<EverythingHit>, String>),
    /// The command line program has replied.
    ProgramReplied(Result<Vec<EverythingHit>, String>),
    /// Everything was asked to show its own window.
    WindowAsked(Result<(), String>),
}

/// What follows from how far a search has come.
#[derive(Debug)]
pub enum SearchStep {
    /// Ask Everything itself for the text.
    AskIndex(String),
    /// Ask the command line program.
    AskProgram,
    /// Let Everything show its own window.
    ShowWindow,
    /// The search is over.
    Done(Result<Vec<EverythingHit>, String>),
}

/// What the user is told once nothing else is left, given whether Everything showed its window.
pub open spec fn last_resort_text(outcome: Result<(), String>) -> Seq<char> {
    match outcome {
        Ok(()) => "已用程序目录 Everything 打开搜索窗口。若首次运行请等待索引完成后再搜"@,
        Err(e) => "搜索失败：请确认程序目录存在 Everything.exe / Everything64.dll / es.exe。"@ + e@,
    }
}

/// What a search for a text comes to next. Nothing to search for finds nothing. Hits of
/// Everything itself are the answer; where there are none, or it fails, the command line program
/// is asked, whose hits are the answer, were there none; where that fails too, Everything shows
/// its own window, and the user is told so.
pub fn search_files(query: &str, progress: SearchProgress) -> (r: SearchStep)
    ensures
        match progress {
            SearchProgress::Begun => if trim(query@).len() == 0 {
                r matches SearchStep::Done(Ok(hits)) && hits@.len() == 0
            } else {
                r matches SearchStep::AskIndex(q) && q@ == trim(query@)
            },
            SearchProgress::IndexReplied(reply) => match reply {
                Ok(hits) if hits@.len() > 0 => r == SearchStep::Done(reply),
                _ => r is AskProgram,
            },
            SearchProgress::ProgramReplied(reply) => match reply {
                Ok(hits) => r == SearchStep::Done(reply),
                Err(_) => r is ShowWindow,
            },
            SearchProgress::WindowAsked(outcome) => r matches SearchStep::Done(Err(e)) && e@
                == last_resort_text(outcome),
        },
{
    match progress {
        SearchProgress::Begun => {
            let q = trimmed(query);
            if q.as_str().is_empty() {
                SearchStep::Done(Ok(Vec::new()))
            } else {
                SearchStep::AskIndex(q)
            }
        },
        SearchProgress::IndexReplied(reply) => match reply {
            Ok(hits) => if hits.len() > 0 {
                SearchStep::Done(Ok(hits))
            } else {
                SearchStep::AskProgram
            },
            Err(_) => SearchStep::AskProgram,
        },
        SearchProgress::ProgramReplied(reply) => match reply {
            Ok(hits) => SearchStep::Done(Ok(hits)),
            Err(_) => SearchStep::ShowWindow,
        },
        SearchProgress::WindowAsked(outcome) => SearchStep::Done(
            Err(
                match outcome {
                    Ok(()) =>
                        "已用程序目录 Everything 打开搜索窗口。若首次运行请等待索引完成后再搜".to_owned(),
                    Err(e) => concat(
                        "搜索失败：请确认程序目录存在 Everything.exe / Everything64.dll / es.exe。",
                        e.as_str(),
                    ),
                },
            ),
        ),
    }
}

} // verus!
