use yian_launcher::favicon::{
    accept_reply, download_site_icon_png, icon_requests, normalize_image_bytes_to_png,
    reply_counts, Reply,
};
use yian_launcher::icon_loader::{
    extract_icon_rgba, icon_from_pixels, icon_in_file, icon_source, letter_and_hue,
    normalize_rgba_for_cache, IconLoader, IconOrigin,
};
use yian_launcher::models::AppInfo;
use yian_launcher::raster::{
    bgra_to_rgba, bitmap_bytes, crop_square_rgba, fallback_blue_tray_icon, picture_in_file,
    square_png, tray_raster, PictureError, Raster,
};

fn raster(width: u32, height: u32) -> Raster {
    let mut rgba: Vec<u8> = Vec::new();
    for y in 0..height {
        for x in 0..width {
            rgba.extend_from_slice(&[x as u8, y as u8, (x + y) as u8, 255]);
        }
    }
    Raster { width, height, rgba }
}

fn png(r: &Raster) -> Vec<u8> {
    let img = image::RgbaImage::from_raw(r.width, r.height, r.rgba.clone());
    let mut out = std::io::Cursor::new(Vec::new());
    let written = img.map(|i| i.write_to(&mut out, image::ImageFormat::Png));
    assert!(matches!(written, Some(Ok(()))));
    out.into_inner()
}

fn read(bytes: &[u8]) -> Raster {
    match image::load_from_memory(bytes) {
        Ok(i) => {
            let i = i.to_rgba8();
            Raster { width: i.width(), height: i.height(), rgba: i.into_raw() }
        }
        Err(e) => panic!("{}", e),
    }
}

#[test]
fn the_middle_of_a_picture() {
    let s = crop_square_rgba(&raster(5, 2));
    assert_eq!((s.width, s.height), (2, 2));
    assert_eq!(s.rgba, vec![1, 0, 1, 255, 2, 0, 2, 255, 1, 1, 2, 255, 2, 1, 3, 255]);
    let s = crop_square_rgba(&raster(1, 4));
    assert_eq!((s.width, s.height), (1, 1));
    assert_eq!(s.rgba, vec![0, 1, 1, 255]);
    let s = crop_square_rgba(&raster(3, 3));
    assert_eq!(s.rgba, raster(3, 3).rgba);
    let s = crop_square_rgba(&raster(0, 3));
    assert_eq!((s.width, s.rgba.len()), (0, 0));
}

#[test]
fn square_files() {
    let made = match square_png(&png(&raster(5, 4)), 4) {
        Ok(f) => read(&f),
        Err(e) => panic!("{:?}", e),
    };
    assert_eq!((made.width, made.height), (4, 4));
    assert_eq!(made.rgba, crop_square_rgba(&raster(5, 4)).rgba);
    let made = match square_png(&png(&raster(50, 40)), 16) {
        Ok(f) => read(&f),
        Err(e) => panic!("{:?}", e),
    };
    assert_eq!((made.width, made.height), (16, 16));
    assert_eq!(square_png(&vec![1, 2, 3], 16), Err(PictureError::Unreadable));
    assert_eq!(square_png(&png(&raster(5, 4)), 0), Err(PictureError::Unwritable));
}

#[test]
fn pictures_in_files() {
    let shown = match picture_in_file(&png(&raster(5, 4))) {
        Some(r) => r,
        None => panic!("none"),
    };
    assert_eq!((shown.width, shown.height), (5, 4));
    assert_eq!(shown.rgba, raster(5, 4).rgba);
    assert!(picture_in_file(&vec![1, 2, 3]).is_none());
    assert!(picture_in_file(&vec![]).is_none());
}

#[test]
fn pictures_keep_their_colour() {
    let plain = Raster { width: 10, height: 20, rgba: [200, 10, 30, 255].repeat(200) };
    let icon = match tray_raster(&png(&plain)) {
        Some(i) => i,
        None => panic!("none"),
    };
    assert_eq!(icon.rgba, [200, 10, 30, 255].repeat(64 * 64));
    let square = match square_png(&png(&plain), 16) {
        Ok(f) => read(&f),
        Err(e) => panic!("{:?}", e),
    };
    assert_eq!(square.rgba, [200, 10, 30, 255].repeat(16 * 16));
}

#[test]
fn tray_icons() {
    let icon = match tray_raster(&png(&raster(64, 64))) {
        Some(i) => i,
        None => panic!("none"),
    };
    assert_eq!(icon.rgba, raster(64, 64).rgba);
    let icon = match tray_raster(&png(&raster(10, 20))) {
        Some(i) => i,
        None => panic!("none"),
    };
    assert_eq!((icon.width, icon.height, icon.rgba.len()), (64, 64, 64 * 64 * 4));
    assert!(tray_raster(&vec![]).is_none());
    let blue = fallback_blue_tray_icon();
    assert_eq!(blue.rgba.len(), 64 * 64 * 4);
    assert_eq!(&blue.rgba[400..404], &[70, 125, 195, 255]);
}

#[test]
fn pixels_of_the_system() {
    assert_eq!(bgra_to_rgba(&vec![1, 2, 3, 4, 5, 6, 7, 0]), vec![3, 2, 1, 4, 7, 6, 5, 0]);
    assert_eq!(bgra_to_rgba(&vec![1, 2, 3, 0, 0, 0, 0, 0]), vec![3, 2, 1, 255, 0, 0, 0, 0]);
    assert_eq!(bgra_to_rgba(&vec![1, 2, 3, 9, 5, 6]), vec![3, 2, 1, 9, 5, 6]);
    assert_eq!(bitmap_bytes(3, 2), Some(24));
    assert_eq!(bitmap_bytes(0, 2), None);
    assert_eq!(bitmap_bytes(2, -1), None);
    let icon = match extract_icon_rgba(&vec![1, 2, 3, 4], 1, 1) {
        Some(i) => i,
        None => panic!("none"),
    };
    assert_eq!(icon.rgba, vec![3, 2, 1, 4]);
    assert!(extract_icon_rgba(&vec![], 0, 1).is_none());
    assert!(extract_icon_rgba(&vec![1, 2, 3], 1, 1).is_none());
}

#[test]
fn icons_are_small() {
    let small = normalize_rgba_for_cache(raster(48, 10));
    assert_eq!((small.width, small.height), (48, 10));
    let plain: Vec<u8> = [9u8, 8, 7, 255].iter().cycle().take(4 * 100 * 60).cloned().collect();
    let made = match icon_from_pixels(plain.clone(), 100, 60) {
        Some(i) => i,
        None => panic!("none"),
    };
    assert_eq!((made.width, made.height, made.rgba.len()), (48, 48, 48 * 48 * 4));
    assert_eq!(&made.rgba[0..4], &[9, 8, 7, 255]);
    assert!(icon_from_pixels(vec![1, 2], 1, 1).is_none());
    let file = png(&Raster { width: 100, height: 60, rgba: plain });
    assert!(icon_in_file(&file).map(|i| i.rgba == made.rgba).unwrap_or(false));
    assert!(icon_in_file(&vec![0; 9]).is_none());
}

#[test]
fn icons_used_longest_ago_go_first() {
    let mut l: IconLoader<u32> = IconLoader::new("/r".to_string());
    assert_eq!(l.cache_dir(), "/r");
    assert_eq!(l.memo_get("x"), None);
    for i in 0..64 {
        l.memo_put(format!("k{}", i), i);
    }
    assert_eq!(l.memo_get("k0"), Some(&0));
    l.memo_put("new".to_string(), 99);
    assert_eq!(l.memo_get("k1"), None);
    assert_eq!(l.memo_get("k0"), Some(&0));
    assert_eq!(l.memo_get("new"), Some(&99));
    l.memo_put("new".to_string(), 100);
    assert_eq!(l.memo_get("new"), Some(&100));
    l.trim_memo_to(1);
    assert_eq!(l.memo_get("new"), Some(&100));
    assert_eq!(l.memo_get("k0"), None);
    l.memo_put("/p/x.exe".to_string(), 5);
    assert_eq!(l.load_real_icon("/P/X.exe"), Some(&5));
    l.invalidate_memo_path("/P/x.EXE");
    assert_eq!(l.load_real_icon("/p/x.exe"), None);
    assert_eq!(l.create_web_placeholder_icon(), None);
    l.memo_put("__web_placeholder__v1".to_string(), 7);
    assert_eq!(l.create_web_placeholder_icon(), Some(&7));
    assert!(l.load_from_path(&png(&raster(2, 2))).is_some());
}

#[test]
fn where_icons_come_from() {
    let mut a = AppInfo::new("1".to_string(), "n".to_string(), "x".to_string(), "g".to_string());
    let s = icon_source(&a, "/P/X.exe", "/r");
    assert!(s.custom.is_none());
    match s.otherwise {
        IconOrigin::System { path, key } => assert_eq!((path.as_str(), key.as_str()), ("/P/X.exe", "/p/x.exe")),
        other => panic!("{:?}", other),
    }
    assert!(matches!(icon_source(&a, "/p/x.URL", "/r").otherwise, IconOrigin::WebPlaceholder));
    a.web_url = Some("u".to_string());
    a.icon_path = Some("Icons/1.png".to_string());
    let l: IconLoader<u32> = IconLoader::new("/r".to_string());
    let s = l.load_app_icon(&a, "/p/x.exe", "/r");
    assert_eq!(s.custom, Some(("/r/Icons/1.png".to_string(), "/r/icons/1.png".to_string())));
    assert!(matches!(s.otherwise, IconOrigin::WebPlaceholder));
}

#[test]
fn letters_for_icons() {
    assert_eq!(letter_and_hue("editor"), ('E', (69 * 137) % 360));
    assert_eq!(letter_and_hue(""), ('?', (63 * 137) % 360));
    assert_eq!(letter_and_hue("中"), ('中', (0x4e2d * 137) % 360));
}

#[test]
fn where_site_icons_are_asked_for() {
    let q = match icon_requests(" https://Site.example:8443/a/b?c ") {
        Some(q) => q,
        None => panic!("none"),
    };
    assert_eq!(q.site, "https://site.example:8443/favicon.ico");
    assert_eq!(q.service, "https://www.google.com/s2/favicons?sz=64&domain=site.example");
    for bad in ["", "ftp://a.example", "a b", "/x"] {
        assert!(icon_requests(bad).is_none());
    }
}

#[test]
fn replies_that_count() {
    let reply = |status: u16, body: Vec<u8>| Some(Reply { status, body });
    assert_eq!(accept_reply(reply(200, vec![7; 8])), Some(vec![7; 8]));
    assert_eq!(accept_reply(reply(399, vec![7; 9])), Some(vec![7; 9]));
    assert_eq!(accept_reply(reply(400, vec![7; 9])), None);
    assert_eq!(accept_reply(reply(199, vec![7; 9])), None);
    assert_eq!(accept_reply(reply(200, vec![7; 7])), None);
    assert_eq!(accept_reply(None), None);
    let icon = match normalize_image_bytes_to_png(&png(&raster(10, 20))) {
        Some(f) => read(&f),
        None => panic!("none"),
    };
    assert_eq!((icon.width, icon.height), (64, 64));
    let small = png(&raster(3, 3));
    let from_site = download_site_icon_png(reply(200, small.clone()), None);
    let from_service = download_site_icon_png(reply(404, vec![7; 9]), reply(200, small.clone()));
    assert!(from_site.is_some());
    assert_eq!(from_site, from_service);
    assert_eq!(download_site_icon_png(reply(200, vec![7; 9]), reply(200, small)), None);
    assert_eq!(download_site_icon_png(None, None), None);
}

#[test]
fn statuses_and_lengths_that_count() {
    for (status, length, counts) in
        [(200, 8, true), (200, 7, false), (399, 8, true), (400, 8, false), (199, 8, false)]
    {
        assert_eq!(reply_counts(&Reply { status, body: vec![0u8; length] }), counts);
    }
}
