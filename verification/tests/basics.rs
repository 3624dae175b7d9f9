use yian_launcher::models::{
    default_category_color, default_hotkey_enabled, default_icon_size, default_launcher_title,
    default_true, default_window_opacity, Category, SkinId, UserConfig,
};
use yian_launcher::numbers::{
    clamp_i32, larger_i32, parse_hex_pair, parse_i32, saturate_i32, signed_to_text, smaller_i32,
    unsigned_to_text,
};
use yian_launcher::ordering::comes_before;
use yian_launcher::settings::{
    bg_overlay_rgba_for_skin, clear_background, resolved_background_path, save_launcher_title,
    set_background, set_icon_size, set_skin, set_window_opacity, settings_view, start_view,
    toggle_always_on_top, toggle_auto_start, toggle_edge_auto_hide, toggle_hide_on_launch_click,
    toggle_hotkey_enabled, toggle_start_minimized, tray_action, usage_missing_status,
    usage_txt_path, TrayAction,
};
use yian_launcher::text::{
    concat3, find_chars, has_prefix, has_text, is_blank, join, list_has, same_chars,
    same_ignoring_ascii_case, same_text, split_lines, split_words, strip_prefix, to_ascii_lower,
    to_ascii_upper, to_chars, trimmed, trimmed_start,
};

#[test]
fn numbers_as_texts() {
    for n in [0u128, 9, 10, 4096, u128::MAX] {
        assert_eq!(unsigned_to_text(n), n.to_string());
    }
    for n in [0i64, -1, 12, i64::MIN, i64::MAX] {
        assert_eq!(signed_to_text(n), n.to_string());
    }
    for t in ["0", "-0", "+7", "2147483647", "-2147483648", "007"] {
        assert_eq!(parse_i32(t), t.parse::<i32>().ok());
        assert!(parse_i32(t).is_some());
    }
    for t in ["", "+", "-", "2147483648", "-2147483649", " 1", "1 ", "1_0", "x", "+-1", "99999999999999999999"] {
        assert_eq!(parse_i32(t), None);
        assert!(t.parse::<i32>().is_err());
    }
    assert_eq!(parse_hex_pair(b'f', b'0'), Some(240));
    assert_eq!(parse_hex_pair(b'A', b'b'), Some(171));
    assert_eq!(parse_hex_pair(b'+', b'b'), Some(11));
    assert_eq!(parse_hex_pair(b'-', b'b'), None);
    assert_eq!(parse_hex_pair(b'g', b'0'), None);
}

#[test]
fn bounds_of_numbers() {
    assert_eq!(saturate_i32(i64::MAX), i32::MAX);
    assert_eq!(saturate_i32(i64::MIN), i32::MIN);
    assert_eq!(saturate_i32(-5), -5);
    assert_eq!((clamp_i32(5, 0, 3), clamp_i32(-5, 0, 3), clamp_i32(2, 0, 3)), (3, 0, 2));
    assert_eq!((larger_i32(1, 2), smaller_i32(1, 2)), (2, 1));
}

#[test]
fn texts_are_compared() {
    assert!(same_text("中", "中") && !same_text("a", "A") && !same_text("a", "ab"));
    assert!(same_chars(&to_chars("ab"), &to_chars("ab")));
    assert!(same_ignoring_ascii_case("LnK", "lNk") && !same_ignoring_ascii_case("Ä", "ä"));
    assert!(has_prefix("abc", "ab") && has_prefix("abc", "") && !has_prefix("a", "ab"));
    assert_eq!(strip_prefix("abc", "ab").as_deref(), Some("c"));
    assert_eq!(strip_prefix("abc", "b"), None);
    assert!(has_text("abcabd", "abd") && has_text("", "") && !has_text("abc", "abd"));
    assert_eq!(find_chars(&to_chars("abcabd"), &to_chars("abd")), Some(3));
    assert!(list_has(&vec!["a".to_string()], "a") && !list_has(&vec![], ""));
    assert!(comes_before("a", "b") && comes_before("a", "aa") && !comes_before("a", "a"));
    assert!(comes_before("Z", "a") && comes_before("z", "中") && comes_before("\u{ffff}", "\u{10000}"));
    assert_eq!((to_ascii_lower('Q'), to_ascii_upper('q'), to_ascii_upper('ä')), ('q', 'Q', 'ä'));
}

#[test]
fn texts_are_cut_and_joined() {
    for s in ["", " a b ", "\u{3000}中\u{a0}\t", "\u{200b}x", "\u{85}y\u{2028}"] {
        assert_eq!(trimmed(s), s.trim());
        assert_eq!(trimmed_start(s), s.trim_start());
        assert_eq!(is_blank(s), s.trim().is_empty());
        let words: Vec<&str> = s.split_whitespace().collect();
        assert_eq!(split_words(s), words);
    }
    for s in ["", "\n", "a\nb", "a\r\nb\r\n", "a\rb\n\n", "\r", "a\r"] {
        let rows: Vec<&str> = s.lines().collect();
        assert_eq!(split_lines(s), rows);
    }
    assert_eq!(concat3("a", "", "c"), "ac");
    let parts = vec!["a".to_string(), "".to_string(), "b".to_string()];
    assert_eq!(join(&parts, "--"), "a----b");
    assert_eq!(join(&vec![], "--"), "");
}

#[test]
fn settings_are_changed() {
    let mut c = UserConfig::default();
    assert!(toggle_always_on_top(&mut c) && c.always_on_top);
    assert!(toggle_auto_start(&mut c) && c.auto_start);
    assert!(toggle_start_minimized(&mut c) && c.start_minimized);
    assert!(toggle_edge_auto_hide(&mut c) && c.edge_auto_hide);
    assert!(toggle_hide_on_launch_click(&mut c) && c.hide_on_launch_click);
    assert!(!toggle_hotkey_enabled(&mut c) && !c.hotkey_enabled);
    assert!(!toggle_always_on_top(&mut c));
    save_launcher_title(&mut c, "  mine ");
    assert_eq!(c.launcher_title, "mine");
    save_launcher_title(&mut c, " ");
    assert_eq!(c.launcher_title, "亦安");
    assert_eq!((set_icon_size(&mut c, 10), set_icon_size(&mut c, 100), set_icon_size(&mut c, 40)), (28, 64, 40));
    assert_eq!(c.icon_size, 40);
    assert_eq!((set_window_opacity(&mut c, 1), set_window_opacity(&mut c, 101)), (50, 100));
    set_skin(&mut c, 2);
    assert_eq!(c.skin, SkinId::Warm);
    assert_eq!(resolved_background_path(&c, "/r"), None);
    set_background(&mut c, "config/background.png".to_string());
    assert_eq!(resolved_background_path(&c, "/r").as_deref(), Some("/r/config/background.png"));
    let v = settings_view(&c);
    assert_eq!((v.skin_index, v.icon_size, v.window_opacity), (2, 40, 100));
    assert_eq!((v.launcher_title.as_str(), v.background.as_str()), ("亦安", "已设置自定义背景"));
    assert!(v.auto_start && v.start_minimized && v.edge_auto_hide && v.hide_on_launch_click && !v.always_on_top);
    clear_background(&mut c);
    assert_eq!(settings_view(&c).background, "未设置");
}

#[test]
fn colours_over_the_picture() {
    assert_eq!(bg_overlay_rgba_for_skin(SkinId::Dark), (12, 18, 28, 178));
    assert_eq!(bg_overlay_rgba_for_skin(SkinId::Light), (245, 247, 250, 170));
    assert_eq!(bg_overlay_rgba_for_skin(SkinId::Warm), (44, 34, 28, 168));
    assert_eq!(bg_overlay_rgba_for_skin(SkinId::Cozy), (26, 22, 34, 168));
}

#[test]
fn the_start() {
    let mut c = UserConfig::default();
    let v = start_view(&c, &vec![]);
    assert_eq!((v.selected.as_str(), v.ask_password), ("", None));
    c.categories = vec![Category {
        id: "a".to_string(),
        name: "first".to_string(),
        color: "#102030".to_string(),
        sort_order: 0,
        visible: true,
        password: Some("pw".to_string()),
    }];
    let v = start_view(&c, &vec![]);
    assert_eq!((v.selected.as_str(), v.ask_password.as_deref()), ("a", Some("first")));
    assert_eq!(v.status, "该分组已密码保护，请输入密码查看");
    let v = start_view(&c, &vec!["a".to_string()]);
    assert_eq!(v.ask_password, None);
}

#[test]
fn help_and_tray() {
    assert_eq!(usage_txt_path(Some("/r".to_string())), "/r/USAGE.txt");
    assert_eq!(usage_txt_path(None), "./USAGE.txt");
    assert_eq!(usage_missing_status("/x"), "未找到使用说明，请将 USAGE.txt 放在程序同目录：/x");
    assert_eq!(tray_action("show"), Some(TrayAction::Toggle));
    assert_eq!(tray_action("settings"), Some(TrayAction::Settings));
    assert_eq!(tray_action("help"), Some(TrayAction::Help));
    assert_eq!(tray_action("quit"), Some(TrayAction::Quit));
    assert_eq!(tray_action("x"), None);
}

#[test]
fn settings_that_are_not_stored() {
    assert_eq!(default_category_color(), "#6366f1");
    assert_eq!(default_launcher_title(), "亦安");
    assert_eq!((default_icon_size(), default_window_opacity()), (46, 100));
    assert!(default_true() && default_hotkey_enabled());
}
