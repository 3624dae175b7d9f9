//! The icons of entries: where each comes from, and the store of those shown lately.

use vstd::prelude::*;

use crate::lists::first_where;
use crate::models::AppInfo;
use crate::path_convert::{resolve_path, resolved};
use crate::paths::{extension_of, path_extension};
use crate::raster::{
    bgra_to_rgba, decode, decoded, opt_parts, repaired_byte, resize, triangle_resized, Filter,
    Raster,
};
use crate::text::{
    ascii_lowercase, ascii_upper, lowercase, same_ignoring_ascii_case, same_text, to_ascii_upper,
    to_chars,
};

verus! {

/// How many icons are kept.
pub const ICON_MEMO_MAX: usize = 64;

/// The side of the largest icon that is kept.
pub const ICON_RASTER_MAX_EDGE: u32 = 48;

/// An icon that is kept, under its key.
#[derive(Debug)]
pub struct MemoEntry<T> {
    pub key: String,
    pub icon: T,
}

/// Icons under their keys, those used longest ago first.
pub type Memo<T> = Seq<(Seq<char>, T)>;

/// Whether an icon is kept under the key.
pub open spec fn under<T>(key: Seq<char>) -> spec_fn((Seq<char>, T)) -> bool {
    |e: (Seq<char>, T)| e.0 == key
}

/// The icon kept under the key.
pub open spec fn kept<T>(memo: Memo<T>, key: Seq<char>) -> Option<T> {
    match first_where(memo, under(key)) {
        Some(i) => Some(memo[i].1),
        None => None,
    }
}

/// The store without the icon under the key.
pub open spec fn without<T>(memo: Memo<T>, key: Seq<char>) -> Memo<T> {
    match first_where(memo, under(key)) {
        Some(i) => memo.remove(i),
        None => memo,
    }
}

/// The store once the icon under the key was used: it becomes the one used last.
pub open spec fn used<T>(memo: Memo<T>, key: Seq<char>) -> Memo<T> {
    match kept(memo, key) {
        Some(icon) => without(memo, key).push((key, icon)),
        None => memo,
    }
}

/// The store with no more than `keep` icons: those used longest ago go.
pub open spec fn trimmed_to<T>(memo: Memo<T>, keep: int) -> Memo<T> {
    if memo.len() > keep {
        memo.skip(memo.len() - keep)
    } else {
        memo
    }
}

/// The store with the icon under the key, as the one used last.
pub open spec fn stored<T>(memo: Memo<T>, key: Seq<char>, icon: T) -> Memo<T> {
    trimmed_to(without(memo, key).push((key, icon)), ICON_MEMO_MAX as int)
}

/// Whether no two icons are under one key.
pub open spec fn keys_distinct<T>(memo: Memo<T>) -> bool {
    forall|i: int, j: int| 0 <= i < j < memo.len() ==> (#[trigger] memo[i]).0 != (
    #[trigger] memo[j]).0
}

/// Loads icons and keeps those shown lately.
#[derive(Debug)]
pub struct IconLoader<T> {
    cache_dir: String,
    memo: Vec<MemoEntry<T>>,
}

impl<T> IconLoader<T> {
    /// The icons that are kept.
    pub closed spec fn view(&self) -> Memo<T> {
        self.memo@.map_values(|e: MemoEntry<T>| (e.key@, e.icon))
    }

    /// The directory of the icon files.
    pub closed spec fn dir(&self) -> Seq<char> {
        self.cache_dir@
    }

    /// No two icons are under one key, and not too many are kept.
    pub open spec fn wf(&self) -> bool {
        keys_distinct(self@) && self@.len() <= ICON_MEMO_MAX
    }

    /// A loader that keeps no icon yet.
    pub fn new(cache_dir: String) -> (r: Self)
        ensures
            r.dir() == cache_dir@,
            r@ == Seq::<(Seq<char>, T)>::empty(),
            r.wf(),
    {
        let r = IconLoader { cache_dir, memo: Vec::new() };
        assert(r@ =~= Seq::<(Seq<char>, T)>::empty());
        r
    }

    /// The directory of the icon files.
    pub fn cache_dir(&self) -> (r: &str)
        ensures
            r@ == self.dir(),
    {
        self.cache_dir.as_str()
    }

    fn position(&self, key: &str) -> (r: Option<usize>)
        ensures
            match r {
                Some(i) => i < self.memo@.len() && first_where(self@, under(key@)) == Some(i as int),
                None => first_where(self@, under(key@)) is None,
            },
    {
        let ghost p = under::<T>(key@);
        let ghost m = self@;
        let mut i: usize = 0;
        while i < self.memo.len()
            invariant
                i <= self.memo@.len(),
                m == self@,
                m.len() == self.memo@.len(),
                p == under::<T>(key@),
                forall|k: int| 0 <= k < i ==> !p(#[trigger] m[k]),
            decreases self.memo@.len() - i,
        {
            assert(m[i as int] == (self.memo@[i as int].key@, self.memo@[i as int].icon));
            if same_text(self.memo[i].key.as_str(), key) {
                proof {
                    crate::lists::first_where_found(m, p, i as int);
                }
                return Some(i);
            }
            i = i + 1;
        }
        proof {
            crate::lists::first_where_absent(m, p);
        }
        None
    }

    /// The icon under the key, which thereby becomes the one used last.
    pub fn memo_get(&mut self, key: &str) -> (r: Option<&T>)
        ensures
            match r {
                Some(icon) => kept(old(self)@, key@) == Some(*icon),
                None => kept(old(self)@, key@) is None,
            },
            final(self)@ == used(old(self)@, key@),
            final(self).dir() == old(self).dir(),
            old(self).wf() ==> final(self).wf(),
    {
        match self.position(key) {
            None => None,
            Some(i) => {
                let ghost before = self@;
                proof {
                    removal_keeps_distinct(before, i as int);
                    crate::lists::first_where_means(before, under(key@));
                }
                let e = self.memo.remove(i);
                self.memo.push(e);
                assert(self@ =~= used(before, key@));
                let last = self.memo.len() - 1;
                Some(&self.memo[last].icon)
            },
        }
    }

    /// Keeps the icon under the key, as the one used last. Where too many are then kept, the one
    /// used longest ago goes.
    pub fn memo_put(&mut self, key: String, icon: T)
        ensures
            final(self)@ == stored(old(self)@, key@, icon),
            final(self).dir() == old(self).dir(),
            old(self).wf() ==> final(self).wf(),
    {
        let ghost before = self@;
        self.forget(key.as_str());
        let ghost rest = self@;
        self.memo.push(MemoEntry { key, icon });
        assert(self@ =~= rest.push((key@, icon)));
        let ghost whole = self@;
        self.trim_memo_to(ICON_MEMO_MAX);
        proof {
            if keys_distinct(before) {
                forgotten_key_is_gone(before, key@);
                trimming_keeps_distinct(whole, ICON_MEMO_MAX as int);
            }
        }
    }

    fn forget(&mut self, key: &str)
        ensures
            final(self)@ == without(old(self)@, key@),
            final(self).dir() == old(self).dir(),
    {
        if let Some(i) = self.position(key) {
            let ghost before = self@;
            let _ = self.memo.remove(i);
            assert(self@ =~= before.remove(i as int));
        }
    }

    /// Keeps no more than `keep` icons: those used longest ago go.
    pub fn trim_memo_to(&mut self, keep: usize)
        ensures
            final(self)@ == trimmed_to(old(self)@, keep as int),
            final(self).dir() == old(self).dir(),
            old(self).wf() ==> final(self).wf(),
    {
        let ghost before = self@;
        while self.memo.len() > keep
            invariant
                self.dir() == old(self).dir(),
                before == old(self)@,
                self.memo@.len() <= before.len(),
                self.memo@.len() >= keep || self.memo@.len() == before.len(),
                self@ == before.skip(before.len() - self.memo@.len()),
            decreases self.memo@.len(),
        {
            let ghost now = self@;
            let _ = self.memo.remove(0);
            assert(self@ =~= now.remove(0));
            assert(now.remove(0) =~= before.skip(before.len() - self.memo@.len()));
        }
        assert(self@ =~= trimmed_to(before, keep as int));
        proof {
            if keys_distinct(before) {
                trimming_keeps_distinct(before, keep as int);
            }
        }
    }

    /// The icon that the system shows for the path, if it is kept.
    pub fn load_real_icon(&mut self, path: &str) -> (r: Option<&T>)
        ensures
            match r {
                Some(icon) => kept(old(self)@, lowercase(path@)) == Some(*icon),
                None => kept(old(self)@, lowercase(path@)) is None,
            },
            final(self)@ == used(old(self)@, lowercase(path@)),
            final(self).dir() == old(self).dir(),
            old(self).wf() ==> final(self).wf(),
    {
        let key = path.to_lowercase();
        self.memo_get(key.as_str())
    }

    /// The icon of sites without one, if it is kept.
    pub fn create_web_placeholder_icon(&mut self) -> (r: Option<&T>)
        ensures
            match r {
                Some(icon) => kept(old(self)@, WEB_PLACEHOLDER_KEY@) == Some(*icon),
                None => kept(old(self)@, WEB_PLACEHOLDER_KEY@) is None,
            },
            final(self)@ == used(old(self)@, WEB_PLACEHOLDER_KEY@),
            final(self).dir() == old(self).dir(),
            old(self).wf() ==> final(self).wf(),
    {
        self.memo_get(WEB_PLACEHOLDER_KEY)
    }

    /// The icon in a picture file that was read.
    pub fn load_from_path(&self, file: &Vec<u8>) -> (r: Option<Raster>)
        ensures
            opt_parts(r) == match decoded(file@) {
                Some((w, h, bytes)) => Some(icon_size_bytes(w, h, bytes)),
                None => None,
            },
            r is Some ==> r->0.wf(),
    {
        icon_in_file(file)
    }

    /// Where the icon of an entry comes from, given where the entry leads and the directory of
    /// the settings.
    pub fn load_app_icon(&self, app: &AppInfo, resolved_path: &str, config_base: &str) -> (r:
        IconSource)
        ensures
            icon_comes_from(r, *app, resolved_path@, config_base@),
    {
        icon_source(app, resolved_path, config_base)
    }

    /// Keeps the icon of the path no more: its file has changed.
    pub fn invalidate_memo_path(&mut self, path: &str)
        ensures
            final(self)@ == without(old(self)@, lowercase(path@)),
            final(self).dir() == old(self).dir(),
            old(self).wf() ==> final(self).wf() && kept(final(self)@, lowercase(path@)) is None,
    {
        let ghost before = self@;
        let key = path.to_lowercase();
        self.forget(key.as_str());
        proof {
            if keys_distinct(before) {
                forgotten_key_is_gone(before, key@);
            }
        }
    }
}

proof fn removal_keeps_distinct<T>(memo: Memo<T>, i: int)
    requires
        0 <= i < memo.len(),
    ensures
        keys_distinct(memo) ==> keys_distinct(memo.remove(i)) && keys_distinct(
            memo.remove(i).push(memo[i]),
        ),
{
}

proof fn forgotten_key_is_gone<T>(memo: Memo<T>, key: Seq<char>)
    requires
        keys_distinct(memo),
    ensures
        keys_distinct(without(memo, key)),
        kept(without(memo, key), key) is None,
        forall|icon: T| keys_distinct(#[trigger] without(memo, key).push((key, icon))),
{
    let p = under::<T>(key);
    crate::lists::first_where_means(memo, p);
    let rest = without(memo, key);
    assert forall|k: int| 0 <= k < rest.len() implies !p(#[trigger] rest[k]) by {
        match first_where(memo, p) {
            Some(i) => {
                if k < i {
                    assert(rest[k] == memo[k]);
                } else {
                    assert(rest[k] == memo[k + 1]);
                    assert(memo[i].0 == key);
                }
            },
            None => {
                assert(rest[k] == memo[k]);
            },
        }
    }
    crate::lists::first_where_absent(rest, p);
    assert forall|k: int| 0 <= k < rest.len() implies (#[trigger] rest[k]).0 != key by {
        assert(!p(rest[k]));
    }
}

proof fn trimming_keeps_distinct<T>(memo: Memo<T>, keep: int)
    requires
        keys_distinct(memo),
        keep >= 0,
    ensures
        keys_distinct(trimmed_to(memo, keep)),
        trimmed_to(memo, keep).len() <= keep,
{
}

/// An icon that was stored is found again, and is the last to go.
pub proof fn stored_icon_is_found<T>(memo: Memo<T>, key: Seq<char>, icon: T)
    requires
        keys_distinct(memo),
    ensures
        kept(stored(memo, key, icon), key) == Some(icon),
        stored(memo, key, icon).last() == (key, icon),
        stored(memo, key, icon).len() <= ICON_MEMO_MAX,
        keys_distinct(stored(memo, key, icon)),
{
    forgotten_key_is_gone(memo, key);
    let whole = without(memo, key).push((key, icon));
    trimming_keeps_distinct(whole, ICON_MEMO_MAX as int);
    let s = stored(memo, key, icon);
    assert(s.last() == (key, icon));
    let p = under::<T>(key);
    assert(p(s[s.len() - 1]));
    crate::lists::first_where_exists(s, p, s.len() - 1);
    crate::lists::first_where_means(s, p);
}

/// Using an icon keeps every icon that is kept, and no other.
pub proof fn using_keeps_icons<T>(memo: Memo<T>, key: Seq<char>, other: Seq<char>)
    requires
        keys_distinct(memo),
    ensures
        kept(used(memo, key), other) == kept(memo, other),
        used(memo, key).len() == memo.len(),
{
    let p = under::<T>(key);
    let q = under::<T>(other);
    crate::lists::first_where_means(memo, p);
    crate::lists::first_where_means(memo, q);
    if let Some(i) = first_where(memo, p) {
        let after = used(memo, key);
        assert(after =~= memo.remove(i).push(memo[i]));
        assert forall|k: int| 0 <= k < after.len() implies memo.contains(
            #[trigger] after[k],
        ) by {
            if k < i {
                assert(memo[k] == after[k]);
            } else if k < after.len() - 1 {
                assert(memo[k + 1] == after[k]);
            } else {
                assert(memo[i] == after[k]);
            }
        }
        removal_keeps_distinct(memo, i);
        crate::lists::first_where_means(after, q);
        match first_where(memo, q) {
            Some(j) => {
                let k = if j < i {
                    j
                } else if j == i {
                    after.len() - 1
                } else {
                    j - 1
                };
                assert(after[k] == memo[j]);
                assert(q(after[k]));
                crate::lists::first_where_exists(after, q, k);
                let f = first_where(after, q)->0;
                assert(after[f].0 == other);
                assert(f == k);
            },
            None => {
                assert forall|k: int| 0 <= k < after.len() implies !q(#[trigger] after[k]) by {
                    assert(memo.contains(after[k]));
                    let m = choose|m: int| 0 <= m < memo.len() && memo[m] == after[k];
                    assert(!q(memo[m]));
                }
                crate::lists::first_where_absent(after, q);
            },
        }
    }
}

// ---------------------------------------------------------------------------------------------
// Where an icon comes from
// ---------------------------------------------------------------------------------------------

/// The key under which the icon of sites without one is kept.
pub const WEB_PLACEHOLDER_KEY: &'static str = "__web_placeholder__v1";

/// Where the icon of an entry comes from.
#[derive(Debug)]
pub struct IconSource {
    /// The picture that the user chose and the key of its icon. It goes first, if it can be read.
    pub custom: Option<(String, String)>,
    /// What comes otherwise.
    pub otherwise: IconOrigin,
}

/// Where the icon of an entry comes from that has no picture of its own.
#[derive(Debug)]
pub enum IconOrigin {
    /// The icon of sites without one.
    WebPlaceholder,
    /// The icon that the system shows for the file, kept under the key; where there is none, a
    /// letter.
    System { path: String, key: String },
}

/// Whether the path is one of a web shortcut.
pub open spec fn is_url_file(path: Seq<char>) -> bool {
    path_extension(path) matches Some(ext) && ascii_lowercase(ext) == ascii_lowercase("url"@)
}

/// Whether the icon of an entry comes from `r`, given where the entry leads and the directory of
/// the settings.
pub open spec fn icon_comes_from(
    r: IconSource,
    app: AppInfo,
    resolved_path: Seq<char>,
    base: Seq<char>,
) -> bool {
    &&& match app.icon_path {
        Some(ip) => r.custom is Some && (r.custom->0).0@ == resolved(base, ip@) && (r.custom->0).1@
            == lowercase(resolved(base, ip@)),
        None => r.custom is None,
    }
    &&& if app.web_url is Some || is_url_file(resolved_path) {
        r.otherwise is WebPlaceholder
    } else {
        r.otherwise matches IconOrigin::System { path, key } && path@ == resolved_path && key@
            == lowercase(resolved_path)
    }
}

/// Where the icon of the entry comes from, given where the entry leads and the directory of the
/// settings.
pub fn icon_source(app: &AppInfo, resolved_path: &str, config_base: &str) -> (r: IconSource)
    ensures
        icon_comes_from(r, *app, resolved_path@, config_base@),
{
    let custom = match &app.icon_path {
        Some(ip) => {
            let p = resolve_path(config_base, ip.as_str());
            let key = p.as_str().to_lowercase();
            Some((p, key))
        },
        None => None,
    };
    let url_file = match extension_of(resolved_path) {
        Some(ext) => same_ignoring_ascii_case(ext.as_str(), "url"),
        None => false,
    };
    let otherwise = if app.web_url.is_some() || url_file {
        IconOrigin::WebPlaceholder
    } else {
        IconOrigin::System { path: resolved_path.to_owned(), key: resolved_path.to_lowercase() }
    };
    IconSource { custom, otherwise }
}

// ---------------------------------------------------------------------------------------------
// Pixels
// ---------------------------------------------------------------------------------------------

/// The size and the bytes of a picture as an icon: one that is too large is made smaller.
pub open spec fn icon_size_bytes(width: u32, height: u32, rgba: Seq<u8>) -> (u32, u32, Seq<u8>) {
    if width <= ICON_RASTER_MAX_EDGE && height <= ICON_RASTER_MAX_EDGE {
        (width, height, rgba)
    } else {
        (
            ICON_RASTER_MAX_EDGE,
            ICON_RASTER_MAX_EDGE,
            triangle_resized(width, height, rgba, ICON_RASTER_MAX_EDGE, ICON_RASTER_MAX_EDGE),
        )
    }
}

/// The picture as an icon: one that is too large is made smaller.
pub fn normalize_rgba_for_cache(r: Raster) -> (out: Raster)
    requires
        r.wf(),
    ensures
        out.wf(),
        out.parts() == icon_size_bytes(r.width, r.height, r.rgba@),
{
    if r.width <= ICON_RASTER_MAX_EDGE && r.height <= ICON_RASTER_MAX_EDGE {
        return r;
    }
    resize(r, ICON_RASTER_MAX_EDGE, ICON_RASTER_MAX_EDGE, Filter::Triangle)
}

/// The icon in a picture file.
pub fn icon_in_file(file: &Vec<u8>) -> (r: Option<Raster>)
    ensures
        opt_parts(r) == match decoded(file@) {
            Some((w, h, bytes)) => Some(icon_size_bytes(w, h, bytes)),
            None => None,
        },
        r is Some ==> r->0.wf(),
{
    match decode(file) {
        Some(picture) => Some(normalize_rgba_for_cache(picture)),
        None => None,
    }
}

/// The icon made of pixels that the system gave; none where they are fewer than the size asks
/// for.
pub fn icon_from_pixels(rgba: Vec<u8>, width: u32, height: u32) -> (r: Option<Raster>)
    requires
        rgba@.len() <= width * height * 4,
    ensures
        opt_parts(r) == (if rgba@.len() == width * height * 4 {
            Some(icon_size_bytes(width, height, rgba@))
        } else {
            None
        }),
        r is Some ==> r->0.wf(),
{
    if !bytes_match(rgba.len(), width, height) {
        return None;
    }
    Some(normalize_rgba_for_cache(Raster { width, height, rgba }))
}

fn bytes_match(len: usize, width: u32, height: u32) -> (r: bool)
    ensures
        r == (len == width * height * 4),
{
    let ghost w = width as int;
    let ghost h = height as int;
    assert(0 <= w * h <= 0xffff_ffff * 0xffff_ffff) by (nonlinear_arith)
        requires
            0 <= w <= 0xffff_ffff,
            0 <= h <= 0xffff_ffff,
    ;
    len as u128 == width as u128 * height as u128 * 4
}

/// The icon made of the bits of a bitmap that the system gave, blue first; none where the bitmap
/// is empty or the bits are fewer than its size asks for.
pub fn extract_icon_rgba(bgra: &Vec<u8>, width: i32, height: i32) -> (r: Option<Raster>)
    requires
        width > 0 && height > 0 ==> bgra@.len() <= width * height * 4,
    ensures
        if width > 0 && height > 0 && bgra@.len() == width * height * 4 {
            &&& r is Some
            &&& r->0.wf()
            &&& exists|rgba: Seq<u8>|
                {
                    &&& rgba.len() == bgra@.len()
                    &&& forall|i: int|
                        0 <= i < rgba.len() ==> rgba[i] == repaired_byte(bgra@, i)
                    &&& r->0.parts() == #[trigger] icon_size_bytes(
                        width as u32,
                        height as u32,
                        rgba,
                    )
                }
        } else {
            r is None
        },
{
    if width <= 0 || height <= 0 {
        return None;
    }
    let rgba = bgra_to_rgba(bgra);
    let ghost bytes = rgba@;
    let r = icon_from_pixels(rgba, width as u32, height as u32);
    assert(bytes.len() == width * height * 4 ==> opt_parts(r) == Some(
        icon_size_bytes(width as u32, height as u32, bytes),
    ));
    r
}

/// The letter that stands for an entry without an icon: the first of its name.
pub open spec fn icon_letter(name: Seq<char>) -> char {
    ascii_upper(
        if name.len() > 0 {
            name[0]
        } else {
            '?'
        },
    )
}

/// The letter that stands for an entry without an icon, and the hue of its ground in degrees.
pub fn letter_and_hue(name: &str) -> (r: (char, u32))
    ensures
        r.0 == icon_letter(name@),
        r.1 == (icon_letter(name@) as int * 137) % 360,
{
    let chars = to_chars(name);
    let first = if chars.len() > 0 {
        chars[0]
    } else {
        '?'
    };
    let letter = to_ascii_upper(first);
    let n: u32 = letter as u32;
    (letter, (n * 137) % 360)
}

} // verus!
