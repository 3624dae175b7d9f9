use yian_launcher::links::{
    extract_http_url_from_text, parse_internet_shortcut_url, resolve_windows_shortcut_target,
    shortcut_url_in_text,
};
use yian_launcher::web::{begins_like_web, is_web_address, is_web_scheme};
use yian_launcher::win_ole_drop::{
    drop_effect_from_allowed, drop_hint_status, extract_url_from_cf_html_headers, guid_eq,
    idle_status, offers_interface, plain_text_status, try_extract_any_text, try_extract_http_url,
    try_read_byte_text, try_read_unicode_text, try_read_uri_list_url, DropOutcome, DropTexts, Guid,
    LauncherDropHandler, QueryAnswer, TextDropKind, EFFECT_COPY, EFFECT_LINK, EFFECT_MOVE,
    EFFECT_NONE,
};

fn nothing() -> DropTexts {
    DropTexts { unicode: None, ansi: None, oem: None, html: None, uri_list: None }
}

fn unicode(s: &str) -> Option<Vec<u8>> {
    let mut v: Vec<u8> = Vec::new();
    for u in s.encode_utf16() {
        v.extend_from_slice(&u.to_le_bytes());
    }
    v.extend_from_slice(&[0, 0, 65, 0]);
    Some(v)
}

fn bytes(s: &str) -> Option<Vec<u8>> {
    Some(s.as_bytes().to_vec())
}

#[test]
fn addresses_of_the_web() {
    assert!(is_web_scheme("http") && is_web_scheme("https") && !is_web_scheme("ftp"));
    assert!(is_web_address("https://a.example") && !is_web_address("mailto:a@b") && !is_web_address("a"));
    assert!(begins_like_web("http://") && begins_like_web("https://x") && !begins_like_web("HTTP://x"));
}

#[test]
fn addresses_in_texts() {
    let f = |s: &str| extract_http_url_from_text(s);
    assert_eq!(f("  https://a.example/x?y=1  rest").as_deref(), Some("https://a.example/x?y=1"));
    assert_eq!(f("see (http://a.example/b).").as_deref(), Some("http://a.example/b"));
    assert_eq!(f("链接：HTTPS://a.example/中，好").as_deref(), Some("HTTPS://a.example/中"));
    assert_eq!(f("http://first.example https://second.example").as_deref(), Some("http://first.example"));
    assert_eq!(f("https://first.example http://second.example").as_deref(), Some("https://first.example"));
    assert_eq!(f("http://a.example/1 https://b.example/2").as_deref(), Some("http://a.example/1"));
    assert_eq!(f("\"https://a.example\""), Some("https://a.example".to_string()));
    assert_eq!(f("https://"), None);
    assert_eq!(f("http://a"), Some("http://a".to_string()));
    assert_eq!(f("no address"), None);
    assert_eq!(f(""), None);
    let far = format!("{}https://a.example", "x".repeat(300));
    assert_eq!(f(&far), None);
    let near = format!("{}https://a.example", "x".repeat(248));
    assert_eq!(f(&near).as_deref(), Some("https://a.example"));
}

#[test]
fn shortcut_files() {
    let file = "\u{feff}[InternetShortcut]\r\nurl= \r\n  Url=https://a.example/ \r\nURL=other\r\n";
    assert_eq!(shortcut_url_in_text(file).as_deref(), Some("https://a.example/"));
    assert_eq!(parse_internet_shortcut_url(&file.as_bytes().to_vec()).as_deref(), Some("https://a.example/"));
    assert_eq!(shortcut_url_in_text("\u{feff}URL=x").as_deref(), Some("x"));
    assert_eq!(shortcut_url_in_text("URL =x"), None);
    assert_eq!(shortcut_url_in_text("[x]\nURLS=1"), None);
    assert_eq!(parse_internet_shortcut_url(&vec![0x55, 0x52, 0x4c, 0x3d, 0xff]).as_deref(), Some("\u{fffd}"));
    let wide = |s: &str| -> Vec<u16> { s.encode_utf16().chain([0u16, 65]).collect() };
    assert_eq!(resolve_windows_shortcut_target(&wide(" /t/x.exe ")).as_deref(), Some("/t/x.exe"));
    assert_eq!(resolve_windows_shortcut_target(&wide("  ")), None);
    assert_eq!(resolve_windows_shortcut_target(&wide("")), None);
    assert_eq!(resolve_windows_shortcut_target(&vec![0xd800, 65, 0]), None);
}

#[test]
fn effects() {
    assert_eq!(drop_effect_from_allowed(0), EFFECT_COPY);
    assert_eq!(drop_effect_from_allowed(7), EFFECT_COPY);
    assert_eq!(drop_effect_from_allowed(6), EFFECT_LINK);
    assert_eq!(drop_effect_from_allowed(2), EFFECT_MOVE);
    assert_eq!(drop_effect_from_allowed(8), EFFECT_NONE);
}

#[test]
fn interfaces() {
    let id = |data1: u32| Guid { data1, data2: 0, data3: 0, data4: 0xc000_0000_0000_0046 };
    assert!(offers_interface(&id(0)));
    assert!(offers_interface(&id(0x122)));
    assert!(!offers_interface(&id(0x121)));
    assert!(!offers_interface(&Guid { data3: 1, ..id(0) }));
    assert!(guid_eq(&id(3), &id(3)) && !guid_eq(&id(3), &id(4)));
    let mut h = LauncherDropHandler::new();
    assert_eq!(h.QueryInterface(Some(id(0x122)), true), QueryAnswer::Given);
    assert_eq!(h.QueryInterface(Some(id(9)), true), QueryAnswer::NoInterface);
    assert_eq!(h.QueryInterface(None, true), QueryAnswer::NoInterface);
    assert_eq!(h.QueryInterface(Some(id(0)), false), QueryAnswer::NoPlace);
    assert_eq!(h.refcount, 2);
    assert_eq!(h.AddRef(), 3);
    assert_eq!(h.Release(), 2);
    assert_eq!(h.Release(), 1);
    assert_eq!(h.Release(), 0);
}

#[test]
fn texts_of_a_drop() {
    assert_eq!(try_read_unicode_text(&unicode("中😀")).as_deref(), Some("中😀"));
    assert_eq!(try_read_unicode_text(&Some(vec![65])), None);
    assert_eq!(try_read_unicode_text(&Some(vec![65, 0, 66])).as_deref(), Some("A"));
    assert_eq!(try_read_unicode_text(&None), None);
    assert_eq!(try_read_byte_text(&Some(vec![65, 0, 66])).as_deref(), Some("A"));
    assert_eq!(try_read_byte_text(&Some(vec![65, 0xff])).as_deref(), Some("A\u{fffd}"));
    let mut d = nothing();
    assert_eq!(try_extract_any_text(&d), None);
    d.html = bytes("html");
    assert_eq!(try_extract_any_text(&d).as_deref(), Some("html"));
    d.oem = bytes("oem");
    assert_eq!(try_extract_any_text(&d).as_deref(), Some("oem"));
    d.ansi = bytes("ansi");
    assert_eq!(try_extract_any_text(&d).as_deref(), Some("ansi"));
    d.unicode = unicode(" \t");
    assert_eq!(try_extract_any_text(&d), None);
}

#[test]
fn addresses_of_a_drop() {
    let html = "Version:0.9\r\nSourceURL:https://a.example/page\r\n<html>";
    assert_eq!(extract_url_from_cf_html_headers(html).as_deref(), Some("https://a.example/page"));
    assert_eq!(extract_url_from_cf_html_headers("SourceURL:http://["), Some("http://[".to_string()));
    assert_eq!(extract_url_from_cf_html_headers("SourceURL:about:blank"), None);
    assert_eq!(extract_url_from_cf_html_headers("x"), None);
    let list = "# remark https://no.example\r\n\r\nhttps://a.example/1\r\nhttps://b.example";
    assert_eq!(try_read_uri_list_url(list).as_deref(), Some("https://a.example/1"));
    assert_eq!(try_read_uri_list_url("# x"), None);
    let mut d = nothing();
    assert_eq!(try_extract_http_url(&d), None);
    d.uri_list = bytes("https://list.example");
    assert_eq!(try_extract_http_url(&d).as_deref(), Some("https://list.example"));
    d.html = bytes("<a href=\"https://body.example\">");
    assert_eq!(try_extract_http_url(&d).as_deref(), Some("https://body.example"));
    d.html = bytes(html);
    assert_eq!(try_extract_http_url(&d).as_deref(), Some("https://a.example/page"));
    d.oem = bytes("https://oem.example");
    assert_eq!(try_extract_http_url(&d).as_deref(), Some("https://oem.example"));
    d.ansi = bytes("https://ansi.example");
    assert_eq!(try_extract_http_url(&d).as_deref(), Some("https://ansi.example"));
    d.unicode = unicode("https://uni.example");
    assert_eq!(try_extract_http_url(&d).as_deref(), Some("https://uni.example"));
    d.unicode = unicode("plain");
    assert_eq!(try_extract_http_url(&d).as_deref(), Some("https://ansi.example"));
}

#[test]
fn files_are_dropped() {
    let mut h = LauncherDropHandler::new();
    assert_eq!(h.DragEnter(Some(2), &nothing(), Some(6)), EFFECT_LINK);
    assert_eq!(h.DragOver(Some(2)), EFFECT_MOVE);
    assert_eq!(h.DragOver(None), EFFECT_COPY);
    match h.Drop(Some(vec!["/a".to_string(), "/b".to_string()]), &nothing()) {
        DropOutcome::Files(f) => assert_eq!(f, vec!["/a", "/b"]),
        other => panic!("{:?}", other),
    }
    assert!(!h.hovered_is_valid);
    assert_eq!(h.DragEnter(Some(0), &nothing(), Some(7)), EFFECT_NONE);
    assert!(!h.DragLeave());
    assert_eq!(h.DragEnter(Some(1), &nothing(), Some(7)), EFFECT_COPY);
    assert!(h.DragLeave());
    assert_eq!(h, LauncherDropHandler::new());
}

#[test]
fn texts_are_dropped() {
    let mut h = LauncherDropHandler::new();
    let mut d = nothing();
    assert_eq!(h.DragEnter(None, &d, None), EFFECT_NONE);
    assert!(matches!(h.Drop(None, &d), DropOutcome::Cancel));
    d.unicode = unicode("see https://a.example");
    assert_eq!(h.DragEnter(None, &d, None), EFFECT_COPY);
    assert_eq!(h.hover_text, Some(TextDropKind::Url));
    assert!(matches!(h.Drop(None, &d), DropOutcome::Url(u) if u == "https://a.example"));
    d.unicode = unicode("plain");
    h.DragEnter(None, &d, None);
    assert_eq!(h.hover_text, Some(TextDropKind::Plain));
    assert!(matches!(h.Drop(None, &d), DropOutcome::Plain(t) if t == "plain"));
    h.DragEnter(None, &d, None);
    assert!(matches!(h.Drop(None, &nothing()), DropOutcome::Cancel));
}

#[test]
fn what_is_told_of_drops() {
    assert_eq!(plain_text_status("a\r\nb"), "已接收文本（未识别为链接）：a  b");
    let long = "中".repeat(121);
    assert_eq!(plain_text_status(&long), format!("已接收文本（未识别为链接）：{}…", "中".repeat(120)));
    assert_eq!(plain_text_status(&"x".repeat(120)), format!("已接收文本（未识别为链接）：{}", "x".repeat(120)));
    assert_eq!(
        drop_hint_status(),
        "松开鼠标即可添加（支持 exe · lnk · url · 文件夹 · 图片 · 文档 · 含 http(s) 的文本）"
    );
    assert_eq!(idle_status(), "拖入文件添加 · 左键启动 · 右键菜单");
}
