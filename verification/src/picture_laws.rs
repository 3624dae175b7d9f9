//! What holds of icons and pictures, whatever they show: which icons are kept, where one comes from,
//! which replies count, and where the pixels of a changed picture come from.

use vstd::arithmetic::div_mod::lemma_fundamental_div_mod_converse;
use vstd::prelude::*;

use crate::favicon::{
    accept_reply, download_site_icon_png, icon_requests, normalize_image_bytes_to_png, reply_counts,
    resized_png, IconRequests, Reply,
};
use crate::icon_loader::{
    extract_icon_rgba, icon_from_pixels, icon_in_file, icon_source, letter_and_hue,
    normalize_rgba_for_cache, IconLoader, IconSource,
};
use crate::lists::{first_where_absent, first_where_found, first_where_means};
use crate::models::AppInfo;
use crate::path_convert::resolve_path;
use crate::paths::path_extension;
use crate::raster::{
    bgra_to_rgba, bitmap_bytes, crop_square_rgba, fallback_blue_tray_icon, lanczos_resized_to,
    part_bytes, picture_in_file, png_file, source_byte, square_png, tray_raster, triangle_resized,
    PictureError, Raster,
};
use crate::text::{ascii_lowercase, lowercase};
use crate::text_laws::{stands_between_space, trimmed_part};
use crate::web::{joined_url, parsed_url};

verus! {

// ---------------------------------------------------------------------------------------------
// Icons that are kept
// ---------------------------------------------------------------------------------------------

/// Whether an icon is kept under the key at the place, and none before it is.
pub open spec fn first_under<T>(l: &IconLoader<T>, key: Seq<char>, j: int) -> bool {
    &&& 0 <= j < l@.len() && l@[j].0 == key
    &&& forall|i: int| 0 <= i < j ==> (#[trigger] l@[i]).0 != key
}

/// Whether no icon is kept under the key.
pub open spec fn none_under<T>(l: &IconLoader<T>, key: Seq<char>) -> bool {
    forall|i: int| 0 <= i < l@.len() ==> (#[trigger] l@[i]).0 != key
}

proof fn place_under_key<T>(l: &IconLoader<T>, key: Seq<char>, j: int)
    ensures
        first_under(l, key, j) ==> crate::lists::first_where(
            l@,
            crate::icon_loader::under(key),
        ) == Some(j),
        none_under(l, key) ==> crate::lists::first_where(l@, crate::icon_loader::under(key))
            is None,
{
    let p = crate::icon_loader::under::<T>(key);
    if first_under(l, key, j) {
        assert(p(l@[j]));
        assert forall|i: int| 0 <= i < j implies !p(#[trigger] l@[i]) by {
            assert(l@[i].0 != key);
        }
        first_where_found(l@, p, j);
    }
    if none_under(l, key) {
        assert forall|i: int| 0 <= i < l@.len() implies !p(#[trigger] l@[i]) by {
            assert(l@[i].0 != key);
        }
        first_where_absent(l@, p);
    }
}

/// A new loader keeps no icon. An icon that is stored stands last. Where one was kept under its key,
/// it takes that one's place; else, once 64 are kept, the one used longest ago goes. The others stay
/// as they stood.
pub proof fn stored_icon_stands_last<T>(
    dir: String,
    start: IconLoader<T>,
    l: &mut IconLoader<T>,
    key: String,
    icon: T,
    j: int,
)
    requires
        call_ensures(IconLoader::<T>::new, (dir,), start),
        call_ensures(IconLoader::<T>::memo_put, (l, key, icon), ()),
        old(l)@.len() <= 64,
    ensures
        start@.len() == 0 && start.dir() == dir@,
        final(l).dir() == old(l).dir(),
        final(l)@.len() <= 64 && final(l)@.last() == (key@, icon),
        first_under(old(l), key@, j) ==> final(l)@ == old(l)@.remove(j).push((key@, icon)),
        none_under(old(l), key@) && old(l)@.len() < 64 ==> final(l)@ == old(l)@.push((key@, icon)),
        none_under(old(l), key@) && old(l)@.len() == 64 ==> final(l)@ == old(l)@.skip(1).push(
            (key@, icon),
        ),
{
    place_under_key(old(l), key@, j);
    first_where_means(old(l)@, crate::icon_loader::under(key@));
    let m = old(l)@;
    assert(m.len() == 64 ==> m.push((key@, icon)).skip(1) =~= m.skip(1).push((key@, icon)));
}

/// An icon that is kept is found under its key, and stands last from then on; where none is kept,
/// nothing changes. The others stay as they stood.
pub proof fn used_icon_stands_last<'a, T>(
    l: &'a mut IconLoader<T>,
    key: &str,
    r: Option<&'a T>,
    j: int,
)
    requires
        call_ensures(IconLoader::<T>::memo_get, (l, key), r),
    ensures
        first_under(old(l), key@, j) ==> r is Some && *r->0 == old(l)@[j].1 && final(l)@
            == old(l)@.remove(j).push(old(l)@[j]),
        none_under(old(l), key@) ==> r is None && final(l)@ == old(l)@,
        final(l).dir() == old(l).dir(),
{
    place_under_key(old(l), key@, j);
}

/// The icon of a path is kept under the path in small letters, and that of sites without one under
/// a key of its own.
pub proof fn icons_are_kept_by_path<'a, T>(
    l: &'a mut IconLoader<T>,
    path: &str,
    r: Option<&'a T>,
    m: &'a mut IconLoader<T>,
    s: Option<&'a T>,
    j: int,
)
    requires
        call_ensures(IconLoader::<T>::load_real_icon, (l, path), r),
        call_ensures(IconLoader::<T>::create_web_placeholder_icon, (m,), s),
    ensures
        first_under(old(l), lowercase(path@), j) ==> r is Some && *r->0 == old(l)@[j].1,
        none_under(old(l), lowercase(path@)) ==> r is None && final(l)@ == old(l)@,
        first_under(old(m), "__web_placeholder__v1"@, j) ==> s is Some && *s->0 == old(m)@[j].1,
        none_under(old(m), "__web_placeholder__v1"@) ==> s is None && final(m)@ == old(m)@,
{
    place_under_key(old(l), lowercase(path@), j);
    place_under_key(old(m), "__web_placeholder__v1"@, j);
}

/// A loader reads icons from files and finds where they come from as they are.
pub proof fn loader_reads_icons<T>(
    l: &IconLoader<T>,
    file: &Vec<u8>,
    r: Option<Raster>,
    plain: Option<Raster>,
    app: &AppInfo,
    leads_to: &str,
    base: &str,
    source: IconSource,
    same: IconSource,
    dir: &str,
)
    requires
        call_ensures(IconLoader::<T>::load_from_path, (l, file), r),
        call_ensures(icon_in_file, (file,), plain),
        call_ensures(IconLoader::<T>::load_app_icon, (l, app, leads_to, base), source),
        call_ensures(icon_source, (app, leads_to, base), same),
        call_ensures(IconLoader::<T>::cache_dir, (l,), dir),
    ensures
        r is Some <==> plain is Some,
        r is Some ==> r->0.parts() == plain->0.parts(),
        crate::search_laws::same_source(source, same),
        dir@ == l.dir(),
{
}

/// Of more icons than are to stay, those used longest ago go.
pub proof fn oldest_icons_go<T>(l: &mut IconLoader<T>, keep: usize, i: int)
    requires
        call_ensures(IconLoader::<T>::trim_memo_to, (l, keep), ()),
    ensures
        old(l)@.len() <= keep ==> final(l)@ == old(l)@,
        old(l)@.len() > keep ==> final(l)@.len() == keep,
        old(l)@.len() > keep && 0 <= i < keep ==> final(l)@[i] == old(l)@[old(l)@.len() - keep + i],
{
}

/// The icon of a path is kept no more once the path's file has changed; the others stay.
pub proof fn changed_icon_is_forgotten<T>(l: &mut IconLoader<T>, path: &str, j: int)
    requires
        call_ensures(IconLoader::<T>::invalidate_memo_path, (l, path), ()),
    ensures
        first_under(old(l), lowercase(path@), j) ==> final(l)@ == old(l)@.remove(j),
        none_under(old(l), lowercase(path@)) ==> final(l)@ == old(l)@,
{
    place_under_key(old(l), lowercase(path@), j);
}

// ---------------------------------------------------------------------------------------------
// Where an icon comes from
// ---------------------------------------------------------------------------------------------

/// The picture that the user chose goes first, found where its path leads. Otherwise entries of the
/// web, and files with the extension `url` in letters of either case, have the icon of sites; all
/// others have the one that the system shows for where they lead.
pub proof fn icon_comes_from_choice_or_kind(
    app: &AppInfo,
    leads_to: &str,
    base: &str,
    r: IconSource,
    chosen: &str,
    place: String,
)
    requires
        call_ensures(icon_source, (app, leads_to, base), r),
        app.icon_path is Some ==> chosen@ == app.icon_path->0@,
        call_ensures(resolve_path, (base, chosen), place),
    ensures
        r.custom is Some <==> app.icon_path is Some,
        r.custom matches Some((p, key)) ==> p@ == place@ && key@ == lowercase(place@),
        ({
            let ext = path_extension(leads_to@);
            let url = ext is Some && ext->0.len() == 3 && (ext->0[0] == 'u' || ext->0[0] == 'U') && (
            ext->0[1] == 'r' || ext->0[1] == 'R') && (ext->0[2] == 'l' || ext->0[2] == 'L');
            &&& r.otherwise is WebPlaceholder <==> app.web_url is Some || url
            &&& r.otherwise matches crate::icon_loader::IconOrigin::System { path, key } ==> path@
                == leads_to@ && key@ == lowercase(leads_to@)
        }),
{
    reveal_strlit("url");
    let ext = path_extension(leads_to@);
    if ext is Some {
        let a = ascii_lowercase(ext->0);
        let b = ascii_lowercase("url"@);
        assert(b =~= seq!['u', 'r', 'l']);
        assert(a.len() == ext->0.len());
        if ext->0.len() == 3 {
            assert(a == b <==> a[0] == 'u' && a[1] == 'r' && a[2] == 'l') by {
                if a[0] == 'u' && a[1] == 'r' && a[2] == 'l' {
                    assert(a =~= b);
                }
            }
        }
    }
}

/// An entry without an icon is shown by the first letter of its name, a small one as the capital,
/// and an entry without a name by a question mark. The hue goes by the letter's number.
pub proof fn letter_stands_for_entry(name: &str, r: (char, u32))
    requires
        call_ensures(letter_and_hue, (name,), r),
    ensures
        name@.len() == 0 ==> r.0 == '?',
        name@.len() > 0 && 97 <= name@[0] as u32 <= 122 ==> r.0 as u32 + 32 == name@[0] as u32,
        name@.len() > 0 && !(97 <= name@[0] as u32 <= 122) ==> r.0 == name@[0],
        r.1 < 360 && (r.0 as u32 * 137 - r.1) % 360 == 0,
{
}

/// A picture of at most 48 pixels a side is an icon as it is; a larger one is brought to 48 by 48.
pub proof fn large_icon_is_made_smaller(p: Raster, r: Raster)
    requires
        call_ensures(normalize_rgba_for_cache, (p,), r),
        p.wf(),
    ensures
        p.width <= 48 && p.height <= 48 ==> r.width == p.width && r.height == p.height && r.rgba@
            == p.rgba@,
        p.width > 48 || p.height > 48 ==> r.width == 48 && r.height == 48 && r.rgba@
            == triangle_resized(p.width, p.height, p.rgba@, 48, 48),
{
}

/// The icon in a file is made of the picture in it, and the icon of pixels that the system gave of
/// these, where there are as many as the size asks for.
pub proof fn icon_is_made_of_picture(
    file: &Vec<u8>,
    r: Option<Raster>,
    picture: Option<Raster>,
    p: Raster,
    small: Raster,
    rgba: Vec<u8>,
    width: u32,
    height: u32,
    s: Option<Raster>,
)
    requires
        call_ensures(icon_in_file, (file,), r),
        call_ensures(picture_in_file, (file,), picture),
        picture is Some ==> p == picture->0,
        p.wf(),
        call_ensures(normalize_rgba_for_cache, (p,), small),
        call_ensures(icon_from_pixels, (rgba, width, height), s),
    ensures
        r is Some <==> picture is Some,
        r is Some ==> r->0.width == small.width && r->0.height == small.height && r->0.rgba@
            == small.rgba@,
        s is Some <==> rgba@.len() == width * height * 4,
        s is Some && width <= 48 && height <= 48 ==> s->0.width == width && s->0.height == height
            && s->0.rgba@ == rgba@,
        s is Some && (width > 48 || height > 48) ==> s->0.width == 48 && s->0.height == 48
            && s->0.rgba@ == triangle_resized(width, height, rgba@, 48, 48),
{
}

/// A bitmap of the system gives an icon where it is not empty and has all its bits; a small one
/// gives its pixels with red first.
pub proof fn bitmap_gives_icon(
    bgra: &Vec<u8>,
    width: i32,
    height: i32,
    r: Option<Raster>,
    rgba: Vec<u8>,
)
    requires
        call_ensures(extract_icon_rgba, (bgra, width, height), r),
        call_ensures(bgra_to_rgba, (bgra,), rgba),
    ensures
        r is Some <==> width > 0 && height > 0 && bgra@.len() == width * height * 4,
        r is Some && width <= 48 && height <= 48 ==> r->0.width == width && r->0.height == height
            && r->0.rgba@ == rgba@,
        r is Some && (width > 48 || height > 48) ==> r->0.width == 48 && r->0.height == 48
            && r->0.rgba@ == triangle_resized(width as u32, height as u32, rgba@, 48, 48),
{
    if r is Some {
        let made = choose|made: Seq<u8>|
            {
                &&& made.len() == bgra@.len()
                &&& forall|i: int|
                    0 <= i < made.len() ==> made[i] == crate::raster::repaired_byte(bgra@, i)
                &&& r->0.parts() == #[trigger] crate::icon_loader::icon_size_bytes(
                    width as u32,
                    height as u32,
                    made,
                )
            };
        assert(made =~= rgba@);
    }
}

// ---------------------------------------------------------------------------------------------
// Icons of sites
// ---------------------------------------------------------------------------------------------

/// The icon of a site is asked for just where the text between white space is an address of the
/// web with a host: at the root of the site, and at the service by the host's name.
pub proof fn icon_is_asked_of_site_and_service(
    web_url: &str,
    r: Option<IconRequests>,
    a: Seq<char>,
    t: Seq<char>,
    b: Seq<char>,
    scheme: Seq<char>,
    host: Seq<char>,
    site: Seq<char>,
)
    requires
        call_ensures(icon_requests, (web_url,), r),
        web_url@ == a + t + b,
        stands_between_space(a, t, b),
    ensures
        parsed_url(t) == Some((scheme, Some(host))) && (scheme == "http"@ || scheme == "https"@)
            && joined_url(t, "/favicon.ico"@) == Some(site) ==> r is Some && r->0.site@ == site
            && r->0.service@ == "https://www.google.com/s2/favicons?sz=64&domain="@ + host,
        parsed_url(t) is None ==> r is None,
        parsed_url(t) == Some((scheme, None::<Seq<char>>)) ==> r is None,
        parsed_url(t) == Some((scheme, Some(host))) && scheme != "http"@ && scheme != "https"@
            ==> r is None,
        joined_url(t, "/favicon.ico"@) is None ==> r is None,
{
    trimmed_part(web_url@, a, t, b);
}

/// A reply counts where its status is from 200 to 399 and it brings at least eight bytes; what
/// counts is what it brings. The site's reply goes before the service's.
pub proof fn reply_of_site_goes_first(
    reply: &Reply,
    r: bool,
    given: Option<Reply>,
    taken: Option<Vec<u8>>,
    site: Option<Reply>,
    from_site: Option<Vec<u8>>,
    service: Option<Reply>,
    from_service: Option<Vec<u8>>,
    png: Option<Vec<u8>>,
)
    requires
        call_ensures(reply_counts, (reply,), r),
        call_ensures(accept_reply, (given,), taken),
        given is Some ==> given->0 == *reply,
        call_ensures(accept_reply, (site,), from_site),
        call_ensures(accept_reply, (service,), from_service),
        call_ensures(download_site_icon_png, (site, service), png),
    ensures
        r <==> 200 <= reply.status <= 399 && reply.body@.len() >= 8,
        taken is Some <==> given is Some && r,
        taken is Some ==> taken->0@ == reply.body@,
        from_site is None && from_service is None ==> png is None,
        from_site is Some && png is Some ==> resized_png(from_site->0@, 64, 64) == Some(png->0@),
        from_site is Some && png is None ==> resized_png(from_site->0@, 64, 64) is None,
        from_site is None && from_service is Some && png is Some ==> resized_png(
            from_service->0@,
            64,
            64,
        ) == Some(png->0@),
        from_site is None && from_service is Some && png is None ==> resized_png(
            from_service->0@,
            64,
            64,
        ) is None,
{
}

/// A picture is made a PNG file of 64 by 64 pixels.
pub proof fn site_icon_is_64_wide(raw: &Vec<u8>, r: Option<Vec<u8>>)
    requires
        call_ensures(normalize_image_bytes_to_png, (raw,), r),
    ensures
        r is Some ==> resized_png(raw@, 64, 64) == Some(r->0@),
        r is None ==> resized_png(raw@, 64, 64) is None,
{
}

// ---------------------------------------------------------------------------------------------
// Pixels
// ---------------------------------------------------------------------------------------------

proof fn byte_of_pixel(
    rgba: Seq<u8>,
    width: int,
    x: int,
    y: int,
    side: int,
    row: int,
    col: int,
    k: int,
)
    requires
        0 <= col < side,
        0 <= row < side,
        0 <= k < 4,
    ensures
        part_bytes(rgba, width, x, y, side, side)[(row * side + col) * 4 + k] == rgba[((y + row)
            * width + x + col) * 4 + k],
        0 <= (row * side + col) * 4 + k < side * side * 4,
{
    let p = row * side + col;
    let i = p * 4 + k;
    assert(i / 4 == p && i % 4 == k);
    lemma_fundamental_div_mod_converse(p, side, row, col);
    assert(0 <= p && p + 1 <= side * side) by (nonlinear_arith)
        requires
            p == row * side + col,
            0 <= col < side,
            0 <= row < side,
    ;
    assert(source_byte(width, x, y, side, i) == ((y + row) * width + x + col) * 4 + k);
}

/// The square of a picture is as large as its shorter side and lies in its middle: pixel for pixel
/// it is the picture from half of what is left over on.
pub proof fn square_lies_in_middle(p: &Raster, r: Raster, row: int, col: int, k: int)
    requires
        call_ensures(crop_square_rgba, (p,), r),
        p.wf(),
        p.width > 0 && p.height > 0,
    ensures
        r.width == r.height,
        r.width <= p.width && r.height <= p.height,
        r.width == p.width || r.width == p.height,
        r.rgba@.len() == r.width * r.width * 4,
        0 <= row < r.width && 0 <= col < r.width && 0 <= k < 4 ==> r.rgba@[(row * r.width + col) * 4
            + k] == p.rgba@[(((p.height - r.width) / 2 + row) * p.width + (p.width - r.width) / 2
            + col) * 4 + k],
{
    if 0 <= row < r.width && 0 <= col < r.width && 0 <= k < 4 {
        byte_of_pixel(
            p.rgba@,
            p.width as int,
            (p.width - r.width) / 2,
            (p.height - r.width) / 2,
            r.width as int,
            row,
            col,
            k,
        );
    }
}

/// A square file is made of the square in the middle of the picture, brought to the side. A file
/// that holds no picture is told as unreadable.
pub proof fn square_file_is_made_of_middle(
    file: &Vec<u8>,
    side: u32,
    r: Result<Vec<u8>, PictureError>,
    picture: Option<Raster>,
    p: &Raster,
    square: Raster,
)
    requires
        call_ensures(square_png, (file, side), r),
        call_ensures(picture_in_file, (file,), picture),
        picture is Some ==> *p == picture->0,
        call_ensures(crop_square_rgba, (p,), square),
    ensures
        picture is None ==> r == Err::<Vec<u8>, _>(PictureError::Unreadable),
        picture is Some && r is Err ==> r->Err_0 == PictureError::Unwritable,
        picture is Some && r is Ok ==> exists|pixels: Seq<u8>|
            #![trigger png_file(side, side, pixels)]
            {
                &&& png_file(side, side, pixels) == Some(r->Ok_0@)
                &&& lanczos_resized_to(
                    square.width,
                    square.height,
                    square.rgba@,
                    side,
                    side,
                    pixels,
                )
                &&& pixels.len() == side * side * 4
                &&& square.width == side && square.height == side ==> pixels == square.rgba@
            },
{
}

/// Pictures behind the entries are 1024 pixels wide, and icons that the user chose 256.
pub proof fn kept_pictures_have_their_sides()
    ensures
        crate::raster::BACKGROUND_SIDE == 1024,
        crate::raster::CUSTOM_ICON_SIDE == 256,
{
}

/// The icon of the tray is 64 pixels wide and high. A picture of that size is taken as it is, and
/// a plain blue one where there is none.
pub proof fn tray_icon_is_64_wide(
    file: &Vec<u8>,
    r: Option<Raster>,
    picture: Option<Raster>,
    blue: Raster,
    i: int,
)
    requires
        call_ensures(tray_raster, (file,), r),
        call_ensures(picture_in_file, (file,), picture),
        call_ensures(fallback_blue_tray_icon, (), blue),
    ensures
        r is Some <==> picture is Some,
        r is Some ==> r->0.width == 64 && r->0.height == 64 && r->0.rgba@.len() == 64 * 64 * 4,
        r is Some && picture->0.width == 64 && picture->0.height == 64 ==> r->0.rgba@
            == picture->0.rgba@,
        r is Some && !(picture->0.width == 64 && picture->0.height == 64) ==> lanczos_resized_to(
            picture->0.width,
            picture->0.height,
            picture->0.rgba@,
            64,
            64,
            r->0.rgba@,
        ),
        blue.width == 64 && blue.height == 64 && blue.rgba@.len() == 64 * 64 * 4,
        0 <= i < 64 * 64 ==> blue.rgba@[4 * i] == 70 && blue.rgba@[4 * i + 1] == 125
            && blue.rgba@[4 * i + 2] == 195 && blue.rgba@[4 * i + 3] == 255,
{
    if 0 <= i < 64 * 64 {
        assert(crate::raster::is_blue(blue.rgba@, i));
        let four = blue.rgba@.subrange(i * 4, i * 4 + 4);
        assert(four[0] == blue.rgba@[4 * i] && four[1] == blue.rgba@[4 * i + 1] && four[2]
            == blue.rgba@[4 * i + 2] && four[3] == blue.rgba@[4 * i + 3]);
    }
}

/// Whether a pixel has no opacity.
pub open spec fn clear_pixel(bgra: Seq<u8>, k: int) -> bool {
    bgra[4 * k + 3] == 0
}

/// Red and blue of every pixel change places, and green stays. The opacity stays where any pixel
/// has some; where none has, black pixels stay clear and all others become opaque.
pub proof fn red_and_blue_change_places(bgra: &Vec<u8>, r: Vec<u8>, p: int, q: int)
    requires
        call_ensures(bgra_to_rgba, (bgra,), r),
        0 <= p && 4 * p + 4 <= bgra@.len(),
    ensures
        r@.len() == bgra@.len(),
        r@[4 * p] == bgra@[4 * p + 2],
        r@[4 * p + 1] == bgra@[4 * p + 1],
        r@[4 * p + 2] == bgra@[4 * p],
        0 <= q && 4 * q + 4 <= bgra@.len() && bgra@[4 * q + 3] != 0 ==> r@[4 * p + 3] == bgra@[4 * p
            + 3],
        (forall|k: int| 0 <= k && 4 * k + 4 <= bgra@.len() ==> #[trigger] clear_pixel(bgra@, k)) ==> {
            let black = bgra@[4 * p] == 0 && bgra@[4 * p + 1] == 0 && bgra@[4 * p + 2] == 0;
            &&& black ==> r@[4 * p + 3] == 0
            &&& !black ==> r@[4 * p + 3] == 255
        },
{
    let s = bgra@;
    assert((4 * p) / 4 == p && (4 * p + 1) / 4 == p && (4 * p + 2) / 4 == p && (4 * p + 3) / 4 == p);
    assert(r@[4 * p] == crate::raster::repaired_byte(s, 4 * p));
    assert(r@[4 * p + 1] == crate::raster::repaired_byte(s, 4 * p + 1));
    assert(r@[4 * p + 2] == crate::raster::repaired_byte(s, 4 * p + 2));
    assert(r@[4 * p + 3] == crate::raster::repaired_byte(s, 4 * p + 3));
    assert(crate::raster::opacity(s, p) == s[4 * p + 3]);
    if 0 <= q && 4 * q + 4 <= s.len() {
        assert(crate::raster::opacity(s, q) == s[4 * q + 3]);
    }
    if forall|k: int| 0 <= k && 4 * k + 4 <= s.len() ==> #[trigger] clear_pixel(s, k) {
        assert forall|k: int| 0 <= k && k * 4 + 4 <= s.len() implies
            #[trigger] crate::raster::opacity(s, k) == 0 by {
            assert(clear_pixel(s, k));
        }
        assert(crate::raster::all_clear(s));
        assert(clear_pixel(s, p));
    }
}

/// A bitmap takes four bytes a pixel; an empty one gives nothing.
pub proof fn pixels_take_four_bytes(width: i32, height: i32, r: Option<usize>)
    requires
        call_ensures(bitmap_bytes, (width, height), r),
        width > 0 && height > 0 ==> width * height <= i32::MAX && width * height * 4 <= usize::MAX,
    ensures
        r is Some <==> width > 0 && height > 0,
        r is Some ==> r->0 == width * height * 4,
{
    if width > 0 && height > 0 {
        assert(0 <= width * height) by (nonlinear_arith)
            requires
                width > 0,
                height > 0,
        ;
    }
}

} // verus!
