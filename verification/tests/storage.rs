use yian_launcher::config::{application_root_dir, sanitize_filename, ConfigManager, RootError};
use yian_launcher::legacy::{normalize_legacy_zero_sort_orders, sort_apps_for_display};
use yian_launcher::models::{AppInfo, Category, SkinId, Theme, UserConfig};
use yian_launcher::path_convert::{
    conversion_target, convert_all_to_absolute, convert_all_to_relative, resolve_path, PathProbe,
};

fn app(id: &str, name: &str, cat: &str) -> AppInfo {
    AppInfo::new(
        id.to_string(),
        name.to_string(),
        format!("/bin/{}", name),
        cat.to_string(),
    )
}

fn group(id: &str, order: i32) -> Category {
    Category {
        id: id.to_string(),
        name: format!("group {}", id),
        color: "#102030".to_string(),
        sort_order: order,
        visible: true,
        password: None,
    }
}

fn manager() -> ConfigManager {
    match ConfigManager::new(Some("/opt/yian/yian.exe".to_string()), None) {
        Ok(m) => m,
        Err(e) => panic!("{:?}", e),
    }
}

#[test]
fn new_entry_is_found_by_its_name() {
    let a = app("x", "Editor", "work");
    assert_eq!(a.keywords, vec!["editor".to_string()]);
    assert_eq!(a.exec_count, 0);
    assert_eq!(a.last_used, None);
    assert!(!a.pinned);
    assert!(a.web_url.is_none());
}

#[test]
fn ids_hold_the_moment() {
    assert_eq!(AppInfo::id_at(0), "app_0");
    assert_eq!(AppInfo::id_at(1700000000123), "app_1700000000123");
    let id = AppInfo::generate_id();
    assert!(id.starts_with("app_"));
    assert!(id[4..].parse::<u128>().is_ok());
    assert!(id[4..].parse::<u128>().unwrap_or(0) > 1_600_000_000_000);
}

#[test]
fn copies_of_entries_hold_the_same() {
    let mut a = app("x", "Editor", "work");
    a.args = vec!["-n".to_string(), "two words".to_string()];
    a.web_url = Some("https://a.example".to_string());
    a.pin_order = 7;
    let b = a.clone();
    assert_eq!(format!("{:?}", a), format!("{:?}", b));
}

#[test]
fn skins_have_numbers() {
    for i in 0..4 {
        assert_eq!(SkinId::from_index(i).as_index(), i);
    }
    assert_eq!(SkinId::from_index(9), SkinId::Dark);
    assert_eq!(SkinId::from_index(-1), SkinId::Dark);
}

#[test]
fn empty_password_locks_nothing() {
    let mut c = group("a", 0);
    assert!(!c.has_password());
    c.password = Some(String::new());
    assert!(!c.has_password());
    c.password = Some("x".to_string());
    assert!(c.has_password());
}

#[test]
fn root_is_beside_the_program() {
    let s = |t: &str| Some(t.to_string());
    assert_eq!(application_root_dir(s("/opt/yian/yian.exe"), s("/home")), Ok("/opt/yian".to_string()));
    assert_eq!(application_root_dir(s("yian.exe"), s("/home")), Ok("/home".to_string()));
    assert_eq!(application_root_dir(s("yian.exe"), None), Err(RootError::NoRoot));
    assert_eq!(application_root_dir(None, s("/home")), Ok("/home".to_string()));
    assert_eq!(application_root_dir(None, None), Err(RootError::NoProgramPath));
    assert_eq!(RootError::NoRoot.message(), "无法确定程序根目录");
    assert_eq!(RootError::NoProgramPath.message(), "无法获取程序路径");
    assert!(ConfigManager::new(None, None).is_err());
}

#[test]
fn file_names_are_clean() {
    assert_eq!(sanitize_filename("a<b>c:d\"e/f\\g|h?i*j k"), "a_b_c_d_e_f_g_h_i_j_k");
    assert_eq!(sanitize_filename("图标 1"), "图标_1");
    assert_eq!(sanitize_filename(&sanitize_filename("x:y z")), sanitize_filename("x:y z"));
}

#[test]
fn files_stand_under_the_root() {
    let m = manager();
    assert_eq!(m.config_file_path(), "/opt/yian/config.json");
    assert_eq!(m.cache_dir(), "/opt/yian");
    assert_eq!(m.config_dir_path(), "/opt/yian");
    assert_eq!(m.custom_icons_dir(), "/opt/yian/config/icons");
    assert_eq!(m.custom_icon_path("app:1"), "/opt/yian/config/icons/app_1.png");
    assert_eq!(m.custom_icon_rel_path("app:1"), "config/icons/app_1.png");
    assert_eq!(m.background_image_path(), "/opt/yian/config/background.png");
    assert_eq!(m.background_image_rel_path(), "config/background.png");
    assert_eq!(m.get_icon_cache_path("app 2"), "/opt/yian/icons/app_2.png");
    assert_eq!(m.dragout_dir(), "/opt/yian/dragout");
    assert_eq!(
        m.ensure_dirs(),
        vec![
            "/opt/yian",
            "/opt/yian",
            "/opt/yian/icons",
            "/opt/yian/config",
            "/opt/yian/config/icons",
        ]
    );
    assert_eq!(m.clone().config_file_path(), m.config_file_path());
}

#[test]
fn first_start_makes_settings() {
    let loaded = manager().load_or_create_config_sync(None);
    assert!(loaded.write_back);
    let c = loaded.config;
    assert_eq!(c.categories.len(), 1);
    assert_eq!(c.categories[0].id, "default");
    assert_eq!(c.categories[0].name, "默认");
    assert_eq!(c.categories[0].color, "#4a82c4");
    assert!(c.apps.is_empty());
    assert_eq!(c.theme, Theme::Dark);
    assert_eq!(c.icon_size, 46);
    assert_eq!(c.window_opacity, 100);
    assert!(c.hotkey_enabled);
    assert_eq!(c.launcher_title, "亦安");
}

#[test]
fn loading_drops_the_old_group_of_all() {
    let mut c = UserConfig::default();
    c.categories = vec![group("all", -5), group("b", 3), group("a", 1)];
    c.apps = vec![app("1", "one", "all"), app("2", "two", ""), app("3", "three", "a")];
    c.apps[2].sort_order = 4;
    let loaded = manager().load_or_create_config_sync(Some(c));
    assert!(!loaded.write_back);
    let c = loaded.config;
    let ids: Vec<&str> = c.categories.iter().map(|g| g.id.as_str()).collect();
    assert_eq!(ids, vec!["a", "b"]);
    let entries: Vec<(&str, &str)> =
        c.apps.iter().map(|a| (a.id.as_str(), a.category_id.as_str())).collect();
    assert_eq!(entries, vec![("3", "a"), ("1", "b"), ("2", "b")]);
    let again = manager().load_or_create_config_sync(Some(c.clone())).config;
    assert_eq!(format!("{:?}", again), format!("{:?}", c));
}

#[test]
fn loading_makes_a_group_where_none_is_left() {
    let mut c = UserConfig::default();
    c.categories = vec![group("all", 0)];
    c.apps = vec![app("1", "one", "all"), app("2", "two", "gone")];
    let c = manager().load_or_create_config_sync(Some(c)).config;
    assert_eq!(c.categories.len(), 1);
    assert_eq!(c.categories[0].id, "default");
    assert_eq!(c.apps[0].category_id, "default");
    assert_eq!(c.apps[1].category_id, "gone");
}

#[test]
fn loaded_entries_are_ordered() {
    let mut c = UserConfig::default();
    c.categories = vec![group("a", 0)];
    c.apps = vec![app("1", "zeta", "a"), app("2", "beta", "a"), app("3", "alpha", "a"), app("4", "x", "a")];
    c.apps[2].exec_count = 5;
    c.apps[3].sort_order = 9;
    let c = manager().load_or_create_config_sync(Some(c)).config;
    let ids: Vec<&str> = c.apps.iter().map(|a| a.id.as_str()).collect();
    assert_eq!(ids, vec!["4", "3", "2", "1"]);
}

#[test]
fn groups_without_an_order_get_the_shown_one() {
    let mut c = UserConfig::default();
    c.categories = vec![group("a", 0), group("b", 1)];
    c.apps = vec![app("1", "one", "a"), app("2", "two", "a"), app("3", "three", "a"), app("4", "four", "b")];
    c.apps[1].exec_count = 3;
    normalize_legacy_zero_sort_orders(&mut c);
    // Shown: the most used first, then by name.
    assert_eq!(c.apps[1].sort_order, 2);
    assert_eq!(c.apps[0].sort_order, 1);
    assert_eq!(c.apps[2].sort_order, 0);
    assert_eq!(c.apps[3].sort_order, 0);
    let before = format!("{:?}", c);
    normalize_legacy_zero_sort_orders(&mut c);
    assert_eq!(format!("{:?}", c), before);
}

#[test]
fn filled_orders_count_down() {
    let mut c = UserConfig::default();
    c.categories = vec![group("a", 0), group("b", 1)];
    c.apps = vec![
        app("1", "one", "a"),
        app("2", "two", "b"),
        app("3", "three", "a"),
        app("4", "four", "a"),
        app("5", "five", "b"),
        app("6", "six", "other"),
        app("7", "seven", "other"),
    ];
    c.apps[2].pinned = true;
    c.apps[2].pin_order = 9;
    c.apps[3].pinned = true;
    c.apps[3].pin_order = 4;
    c.apps[4].sort_order = 5;
    normalize_legacy_zero_sort_orders(&mut c);
    let orders: Vec<(i32, u64)> = c.apps.iter().map(|a| (a.sort_order, a.pin_order)).collect();
    // The group shows "four", "three" and "one"; the other groups are left alone.
    assert_eq!(orders, vec![(0, 0), (0, 0), (1, 2), (2, 1), (5, 0), (0, 0), (0, 0)]);
    let once = format!("{:?}", c);
    normalize_legacy_zero_sort_orders(&mut c);
    assert_eq!(format!("{:?}", c), once);
}

#[test]
fn order_by_group() {
    let mut v = vec![app("1", "b", "y"), app("2", "a", "y"), app("3", "c", "x"), app("4", "d", "y")];
    v[3].pinned = true;
    v[1].exec_count = 2;
    sort_apps_for_display(&mut v);
    let ids: Vec<&str> = v.iter().map(|a| a.id.as_str()).collect();
    assert_eq!(ids, vec!["3", "4", "2", "1"]);
}

#[test]
fn stored_paths_lead_somewhere() {
    assert_eq!(resolve_path("/opt/yian", "tools/x.exe"), "/opt/yian/tools/x.exe");
    assert_eq!(resolve_path("/opt/yian", "/bin/x"), "/bin/x");
    assert_eq!(resolve_path("/opt/yian", "https://a.example"), "https://a.example");
    assert_eq!(resolve_path("/opt/yian", "http://a.example"), "http://a.example");
}

#[test]
fn resolving_again_changes_nothing() {
    for stored in ["tools/x.exe", "/bin/x", "https://a.example", "", "../up", "C:\\x"] {
        let once = resolve_path("/opt/yian", stored);
        assert_eq!(resolve_path("/opt/yian", &once), once);
    }
    // From a relative directory, what is given is not where it leads.
    assert_eq!(resolve_path("here", "x"), "here/x");
    assert_eq!(resolve_path("here", "here/x"), "here/here/x");
}

#[test]
fn stored_pictures_lead_to_their_files() {
    let m = manager();
    for id in ["app:1", "", ".", "..", "a/b\\c", "https://a.example", "图标 1"] {
        let file = m.custom_icon_path(id);
        assert_eq!(resolve_path(&m.config_dir_path(), &m.custom_icon_rel_path(id)), file);
        let dir = std::path::Path::new(&file).parent();
        assert_eq!(dir, Some(std::path::Path::new(&m.custom_icons_dir())));
    }
    assert_eq!(
        resolve_path(&m.config_dir_path(), &m.background_image_rel_path()),
        m.background_image_path()
    );
}

#[test]
fn absolute_paths_are_restored() {
    let paths = ["/real/tools/x", "/elsewhere/x", "/real", "https://a.example"];
    let mut c = UserConfig::default();
    c.apps = vec![app("1", "a", "g"), app("2", "b", "g"), app("3", "c", "g"), app("4", "d", "g")];
    for i in 0..4 {
        c.apps[i].path = paths[i].to_string();
    }
    let before = format!("{:?}", c);
    let canonical: Vec<Option<String>> = paths.iter().map(|p| Some(p.to_string())).collect();
    convert_all_to_relative(&mut c, "/link", Some("/real".to_string()), &canonical);
    let shorter: Vec<&str> = c.apps.iter().map(|a| a.path.as_str()).collect();
    assert_eq!(shorter, vec!["tools/x", "/elsewhere/x", "", "https://a.example"]);
    assert_eq!(conversion_target(&c.apps[0], "/link"), Some("/link/tools/x".to_string()));
    let probes: Vec<PathProbe> = paths
        .iter()
        .map(|p| PathProbe { canonical: Some(p.to_string()), exists: true })
        .collect();
    convert_all_to_absolute(&mut c, "/link", &probes);
    assert_eq!(format!("{:?}", c), before);
}

#[test]
fn paths_become_absolute() {
    let mut c = UserConfig::default();
    c.apps = vec![app("1", "a", "g"), app("2", "b", "g"), app("3", "c", "g"), app("4", "d", "g"), app("5", "e", "g")];
    c.apps[0].path = "x/../y".to_string();
    c.apps[1].path = "here".to_string();
    c.apps[2].path = "gone".to_string();
    c.apps[3].path = "https://a.example".to_string();
    c.apps[4].path = "link".to_string();
    c.apps[4].web_url = Some("https://b.example".to_string());
    assert_eq!(conversion_target(&c.apps[0], "/r"), Some("/r/x/../y".to_string()));
    assert_eq!(conversion_target(&c.apps[3], "/r"), None);
    assert_eq!(conversion_target(&c.apps[4], "/r"), None);
    let probe = |canonical: Option<&str>, exists: bool| PathProbe {
        canonical: canonical.map(|t| t.to_string()),
        exists,
    };
    let probes = vec![
        probe(Some("/r/y"), true),
        probe(None, true),
        probe(None, false),
        probe(Some("/no"), true),
        probe(Some("/no"), true),
    ];
    convert_all_to_absolute(&mut c, "/r", &probes);
    let paths: Vec<&str> = c.apps.iter().map(|a| a.path.as_str()).collect();
    assert_eq!(paths, vec!["/r/y", "/r/here", "gone", "https://a.example", "link"]);
}

#[test]
fn paths_become_relative() {
    let mut c = UserConfig::default();
    c.apps = vec![app("1", "a", "g"), app("2", "b", "g"), app("3", "c", "g"), app("4", "d", "g")];
    c.apps[0].path = "/real/tools/x".to_string();
    c.apps[1].path = "/elsewhere/x".to_string();
    c.apps[2].path = "sub/x".to_string();
    c.apps[3].path = "http://a.example".to_string();
    let canonical = vec![
        Some("/real/tools/x".to_string()),
        None,
        Some("/real/sub/x".to_string()),
        None,
    ];
    convert_all_to_relative(&mut c, "/r", Some("/real".to_string()), &canonical);
    let paths: Vec<&str> = c.apps.iter().map(|a| a.path.as_str()).collect();
    assert_eq!(paths, vec!["tools/x", "/elsewhere/x", "sub/x", "http://a.example"]);
    let mut d = UserConfig::default();
    d.apps = vec![app("1", "a", "g")];
    d.apps[0].path = "/r/x".to_string();
    convert_all_to_relative(&mut d, "/r", None, &vec![None]);
    assert_eq!(d.apps[0].path, "x");
}
