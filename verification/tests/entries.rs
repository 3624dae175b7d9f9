use yian_launcher::catalog::{
    apply_display_sort_index, apps_in_category_sorted, assign_sort_orders_from_display_order,
    compare_apps, display_sort_index_in_category, find_app, next_sort_order_for_new_app, shown_ids,
    sort_apps_by_usage,
};
use yian_launcher::entries::{
    add_dropped_http_url, add_dropped_http_url_as, add_dropped_path, add_dropped_path_as,
    admin_status, admin_target, delete_app, drop_gate, file_entry, file_launch, launch_app,
    launch_category_gate, launch_category_status, launch_counts, launch_single_app,
    location_status, location_target, move_app_to_category, pin_status, properties_status,
    request_edit, resolve_dropped, save_app_edit, set_icon_path, toggle_pin, AddOutcome, DropFacts,
    DropGate,
};
use yian_launcher::models::{AppInfo, Category, LaunchResult, UserConfig};

fn app(id: &str, name: &str, cat: &str) -> AppInfo {
    AppInfo::new(
        id.to_string(),
        name.to_string(),
        format!("bin/{}", name),
        cat.to_string(),
    )
}

fn group(id: &str, name: &str, order: i32) -> Category {
    Category {
        id: id.to_string(),
        name: name.to_string(),
        color: "#102030".to_string(),
        sort_order: order,
        visible: true,
        password: None,
    }
}

fn config() -> UserConfig {
    let mut c = UserConfig::default();
    c.categories = vec![group("w", "work", 1), group("p", "play", 0)];
    c.apps = vec![app("1", "one", "w"), app("2", "two", "w"), app("3", "three", "w"), app("4", "four", "p")];
    c.apps[0].sort_order = 30;
    c.apps[1].sort_order = 20;
    c.apps[2].sort_order = 10;
    c
}

fn ids(apps: &Vec<AppInfo>) -> Vec<&str> {
    apps.iter().map(|a| a.id.as_str()).collect()
}

#[test]
fn entries_are_ordered() {
    let mut a = app("a", "alpha", "g");
    let mut b = app("b", "beta", "g");
    assert_eq!(compare_apps(&a, &b), std::cmp::Ordering::Less);
    assert_eq!(compare_apps(&a, &a), std::cmp::Ordering::Equal);
    b.exec_count = 1;
    assert_eq!(compare_apps(&a, &b), std::cmp::Ordering::Greater);
    a.sort_order = 1;
    assert_eq!(compare_apps(&a, &b), std::cmp::Ordering::Less);
    b.pinned = true;
    assert_eq!(compare_apps(&a, &b), std::cmp::Ordering::Greater);
    a.pinned = true;
    a.pin_order = 2;
    b.pin_order = 1;
    assert_eq!(compare_apps(&a, &b), std::cmp::Ordering::Greater);
    a.pin_order = 1;
    assert_eq!(compare_apps(&a, &b), std::cmp::Ordering::Less);
}

#[test]
fn names_are_compared_by_their_characters() {
    let mut v = vec![app("1", "b", "g"), app("2", "a", "g"), app("3", "Z", "g"), app("4", "ab", "g"), app("5", "中", "g")];
    sort_apps_by_usage(&mut v);
    assert_eq!(ids(&v), vec!["3", "2", "4", "1", "5"]);
}

#[test]
fn equal_entries_keep_their_places() {
    let mut v = vec![app("1", "x", "g"), app("2", "x", "h"), app("3", "x", "g")];
    sort_apps_by_usage(&mut v);
    assert_eq!(ids(&v), vec!["1", "2", "3"]);
    let shown: Vec<&str> = apps_in_category_sorted(&v, "g").iter().map(|a| a.id.as_str()).collect();
    assert_eq!(shown, vec!["1", "3"]);
    assert!(apps_in_category_sorted(&v, "none").is_empty());
    assert_eq!(find_app(&v, "2"), Some(1));
    assert_eq!(find_app(&v, "9"), None);
}

#[test]
fn display_order_is_written_into_the_entries() {
    let mut v = config().apps;
    let wanted: Vec<String> = vec!["3".to_string(), "1".to_string(), "2".to_string()];
    assign_sort_orders_from_display_order(&mut v, "w", &wanted);
    assert_eq!(shown_ids(&v, "w"), wanted);
    assert_eq!((v[0].sort_order, v[1].sort_order, v[2].sort_order), (1, 0, 2));
    assert_eq!(shown_ids(&v, "p"), vec!["4"]);
}

#[test]
fn pins_are_numbered_anew() {
    let mut v = config().apps;
    v[0].pinned = true;
    v[0].pin_order = 8;
    v[1].pinned = true;
    v[1].pin_order = 9;
    assign_sort_orders_from_display_order(
        &mut v,
        "w",
        &vec!["2".to_string(), "1".to_string(), "3".to_string()],
    );
    assert_eq!((v[0].pin_order, v[1].pin_order, v[2].pin_order), (2, 1, 0));
    assert_eq!(shown_ids(&v, "w"), vec!["2", "1", "3"]);
}

#[test]
fn an_entry_is_shown_under_the_number_given() {
    let mut v = config().apps;
    assert_eq!(display_sort_index_in_category(&v, "2", "w"), 2);
    assert_eq!(display_sort_index_in_category(&v, "2", "p"), 1);
    apply_display_sort_index(&mut v, "3", "w", 1);
    assert_eq!(shown_ids(&v, "w"), vec!["3", "1", "2"]);
    assert_eq!(display_sort_index_in_category(&v, "3", "w"), 1);
    apply_display_sort_index(&mut v, "3", "w", 99);
    assert_eq!(shown_ids(&v, "w"), vec!["1", "2", "3"]);
    apply_display_sort_index(&mut v, "3", "w", -4);
    assert_eq!(shown_ids(&v, "w"), vec!["3", "1", "2"]);
    apply_display_sort_index(&mut v, "none", "w", 1);
    assert_eq!(shown_ids(&v, "w"), vec!["3", "1", "2"]);
}

#[test]
fn pinned_entries_come_first_whatever_their_number() {
    let mut v = config().apps;
    v[2].pinned = true;
    v[2].pin_order = 1;
    apply_display_sort_index(&mut v, "1", "w", 1);
    assert_eq!(shown_ids(&v, "w"), vec!["3", "1", "2"]);
}

#[test]
fn new_entries_join_behind() {
    let mut v = config().apps;
    assert_eq!(next_sort_order_for_new_app(&v, "w"), 9);
    assert_eq!(next_sort_order_for_new_app(&v, "none"), 0);
    v[2].sort_order = i32::MIN;
    assert_eq!(next_sort_order_for_new_app(&v, "w"), i32::MIN);
}

#[test]
fn launching_counts() {
    let mut v = config().apps;
    let a = match launch_single_app(&mut v, "/r", "2", 77) {
        Some(a) => a,
        None => panic!("no entry"),
    };
    assert_eq!(a.path, "/r/bin/two");
    assert_eq!(v[1].path, "bin/two");
    assert_eq!((v[1].exec_count, v[1].last_used), (1, Some(77)));
    assert_eq!((a.exec_count, a.last_used), (1, Some(77)));
    assert!(launch_single_app(&mut v, "/r", "none", 78).is_none());
}

#[test]
fn clicks_launch_entries_and_files() {
    let mut c = config();
    c.hide_on_launch_click = true;
    let r = launch_app(&mut c, "/r", "4", "", "", 5);
    assert!(r.save && r.hide);
    assert_eq!(r.app.map(|a| a.path), Some("/r/bin/four".to_string()));
    let r = launch_app(&mut c, "/r", "ev:3", "n", "/f/n", 6);
    assert!(!r.save && r.hide);
    assert_eq!(r.app.map(|a| (a.id, a.name, a.path)), Some(("ev:3".to_string(), "n".to_string(), "/f/n".to_string())));
    let r = launch_app(&mut c, "/r", "ev:3", "n", "", 6);
    assert!(!r.save && !r.hide && r.app.is_none());
    let r = launch_app(&mut c, "/r", "none", "n", "/f/n", 6);
    assert!(!r.save && !r.hide && r.app.is_none());
}

#[test]
fn launching_a_group() {
    assert_eq!(launch_counts(&vec![true, false, true]), (2, 1));
    assert_eq!(launch_category_status(2, 0), "已启动分组内 2 个项目");
    assert_eq!(launch_category_status(2, 1), "已启动 2 个，1 个失败");
    let mut cats = config().categories;
    assert!(launch_category_gate(&cats, &vec![], "w").is_none());
    cats[0].password = Some("x".to_string());
    let p = match launch_category_gate(&cats, &vec![], "w") {
        Some(p) => p,
        None => panic!("open"),
    };
    assert_eq!(p.name, "work");
    assert_eq!(p.status, "该分组已密码保护，请先解锁再启动全部程序");
    assert!(launch_category_gate(&cats, &vec!["w".to_string()], "w").is_none());
}

#[test]
fn pinning_and_unpinning() {
    let mut v = config().apps;
    let before = format!("{:?}", v);
    assert_eq!(toggle_pin(&mut v, "3"), Some(true));
    assert_eq!(ids(&v)[0], "3");
    assert_eq!(v[0].pin_order, 1);
    assert_eq!(toggle_pin(&mut v, "1"), Some(true));
    assert_eq!((ids(&v)[0], ids(&v)[1]), ("3", "1"));
    assert_eq!(v[1].pin_order, 2);
    assert_eq!(toggle_pin(&mut v, "1"), Some(false));
    assert_eq!(toggle_pin(&mut v, "3"), Some(false));
    assert_eq!(format!("{:?}", v), before);
    assert_eq!(toggle_pin(&mut v, "none"), None);
    assert_eq!(pin_status(true), "已置顶：固定显示在分组最前");
    assert_eq!(pin_status(false), "已取消置顶");
}

#[test]
fn deleting_moving_and_icons() {
    let mut v = config().apps;
    delete_app(&mut v, "2");
    assert_eq!(ids(&v), vec!["1", "3", "4"]);
    assert_eq!(find_app(&v, "2"), None);
    assert!(move_app_to_category(&mut v, "1", "p"));
    assert_eq!(v[0].category_id, "p");
    assert!(!move_app_to_category(&mut v, "1", "p"));
    assert!(!move_app_to_category(&mut v, "none", "p"));
    assert!(set_icon_path(&mut v, "3", "config/icons/3.png"));
    assert_eq!(v[1].icon_path.as_deref(), Some("config/icons/3.png"));
    assert!(!set_icon_path(&mut v, "none", "x"));
}

#[test]
fn editing() {
    let mut c = config();
    c.apps[1].args = vec!["-a".to_string(), "b".to_string()];
    let form = match request_edit(&c, "2") {
        Some(f) => f,
        None => panic!("no entry"),
    };
    assert_eq!((form.name.as_str(), form.path.as_str(), form.args.as_str()), ("two", "bin/two", "-a b"));
    assert_eq!((form.category.as_str(), form.sort, form.sort_text.as_str()), ("work", 2, "2"));
    assert!(request_edit(&c, "none").is_none());

    save_app_edit(&mut c, "2", "", "", "  x   y ", "", " 3 ");
    assert_eq!(c.apps[1].name, "two");
    assert_eq!(c.apps[1].args, vec!["x", "y"]);
    assert_eq!(shown_ids(&c.apps, "w"), vec!["1", "3", "2"]);

    save_app_edit(&mut c, "2", "deux", "bin/deux", "", "play", "nonsense");
    assert_eq!((c.apps[1].name.as_str(), c.apps[1].path.as_str()), ("deux", "bin/deux"));
    assert!(c.apps[1].args.is_empty());
    assert_eq!(c.apps[1].category_id, "p");
    assert_eq!(shown_ids(&c.apps, "p"), vec!["2", "4"]);
    assert_eq!(shown_ids(&c.apps, "w"), vec!["1", "3"]);

    let before = format!("{:?}", c.apps);
    save_app_edit(&mut c, "none", "n", "p", "a", "", "1");
    assert_eq!(format!("{:?}", c.apps), before);
}

#[test]
fn targets_of_items() {
    let v = config().apps;
    let t = admin_target(&v, "/r", "1");
    assert_eq!((t.path.as_str(), t.label.as_str()), ("/r/bin/one", "one"));
    let t = admin_target(&v, "/r", "/a/b.exe");
    assert_eq!((t.path.as_str(), t.label.as_str()), ("/a/b.exe", "/a/b.exe"));
    let t = location_target(&v, "/r", "/a/b.exe");
    assert_eq!((t.path.as_str(), t.label.as_str()), ("/a/b.exe", "b.exe"));
    assert_eq!(admin_status("x", &Ok(())), "已以管理员身份运行：x");
    assert_eq!(admin_status("x", &Err("e".to_string())), "管理员启动失败：e");
    assert_eq!(location_status("x", &Ok(())), "已打开位置：x");
    assert_eq!(location_status("x", &Err("e".to_string())), "打开位置失败：e");
    assert_eq!(properties_status(&Ok(())), None);
    assert_eq!(properties_status(&Err("e".to_string())).as_deref(), Some("打开属性失败：e"));
}

#[test]
fn files_of_the_computer() {
    let a = file_entry("/a/b.txt");
    assert_eq!((a.id.as_str(), a.name.as_str(), a.path.as_str()), ("ev_launch", "b.txt", "/a/b.txt"));
    let l = file_launch("b", &LaunchResult::Success, true);
    assert_eq!((l.status.as_str(), l.hide), ("已打开：b", true));
    let l = file_launch("b", &LaunchResult::Failed("e".to_string()), true);
    assert_eq!((l.status.as_str(), l.hide), ("打开失败：e", false));
    let l = file_launch("b", &LaunchResult::NotFound, true);
    assert_eq!((l.status.as_str(), l.hide), ("路径不存在", false));
}

#[test]
fn sites_are_added_once() {
    let mut c = config();
    let url = "  https://Example.com/Path  ";
    let added = match add_dropped_http_url_as(&mut c, "new".to_string(), url, "w") {
        AddOutcome::Added(a) => a,
        other => panic!("{:?}", other),
    };
    assert_eq!(added.id, "new");
    assert_eq!(added.select, None);
    assert_eq!(added.status, "已添加网页：example.com（共 5 项）");
    assert_eq!(added.fetch.as_deref(), Some("https://Example.com/Path"));
    let a = &c.apps[find_app(&c.apps, "new").unwrap_or(0)];
    assert_eq!(a.path, "https://Example.com/Path");
    assert_eq!(a.keywords, vec!["example.com", "url", "http", "https", "internet", "website", "example.com"]);
    assert_eq!(a.category_id, "w");
    assert_eq!(a.sort_order, 9);
    match add_dropped_http_url(&mut c, "HTTPS://example.COM/path", "w") {
        AddOutcome::Refused(why) => assert_eq!(why, "该项目已在列表中"),
        other => panic!("{:?}", other),
    }
    for bad in ["", "ftp://a.example", "no address", "file:///x"] {
        match add_dropped_http_url(&mut c, bad, "w") {
            AddOutcome::Refused(why) => assert_eq!(why, "添加失败：不是有效的 http(s) 链接"),
            other => panic!("{:?}", other),
        }
    }
    match add_dropped_http_url(&mut c, "http://other.example", "gone") {
        AddOutcome::Added(a) => {
            assert!(a.id.starts_with("app_"));
            assert_eq!(a.select.as_deref(), Some("p"));
        }
        other => panic!("{:?}", other),
    }
}

#[test]
fn drops_are_looked_at_first() {
    let refused = |g: DropGate| match g {
        DropGate::Refused(why) => why,
        other => panic!("{:?}", other),
    };
    let look = |g: DropGate| match g {
        DropGate::Look { shortcut, web_shortcut } => (shortcut, web_shortcut),
        other => panic!("{:?}", other),
    };
    assert_eq!(refused(drop_gate("/a", false, "/r")), "添加失败：路径不存在");
    assert_eq!(refused(drop_gate("/r/dragout/x.LNK", true, "/r")), "已取消外部拖拽创建");
    assert_eq!(look(drop_gate("/r/dragout/x.url", true, "/r")), (false, true));
    assert_eq!(look(drop_gate("/r/dragoutside/x.lnk", true, "/r")), (true, false));
    assert_eq!(look(drop_gate("/a/x.Lnk", true, "/r")), (true, false));
    assert_eq!(look(drop_gate("/a/x", true, "/r")), (false, false));
    let t = Some("/t/p.exe".to_string());
    assert_eq!(resolve_dropped("/a/x.lnk", &t), "/t/p.exe");
    assert_eq!(resolve_dropped("/a/x.txt", &t), "/a/x.txt");
    assert_eq!(resolve_dropped("/a/x.lnk", &Some(String::new())), "/a/x.lnk");
    assert_eq!(resolve_dropped("/a/x.lnk", &None), "/a/x.lnk");
}

#[test]
fn paths_are_added_once() {
    let mut c = config();
    let facts = |target: Option<&str>, web: Option<&str>, is_dir: bool| DropFacts {
        target: target.map(|t| t.to_string()),
        web_file: web.map(|t| t.as_bytes().to_vec()),
        is_dir,
    };
    let add = |c: &mut UserConfig, id: &str, path: &str, f: &DropFacts| {
        match add_dropped_path_as(c, id.to_string(), path, f, "w") {
            AddOutcome::Added(a) => a.status,
            AddOutcome::Refused(why) => why,
        }
    };
    assert_eq!(add(&mut c, "a", "/x/Prog.lnk", &facts(Some("/t/Prog.EXE"), None, false)), "已添加：Prog（共 5 项）");
    let a = c.apps[find_app(&c.apps, "a").unwrap_or(0)].clone();
    assert_eq!((a.name.as_str(), a.path.as_str()), ("Prog", "/t/Prog.EXE"));
    assert_eq!(a.keywords, vec!["prog", "lnk"]);
    assert_eq!(a.web_url, None);
    assert_eq!(add(&mut c, "b", "/t/prog.exe", &facts(None, None, false)), "该项目已在列表中");
    assert_eq!(add(&mut c, "b", "/docs", &facts(None, None, true)), "已添加：docs（共 6 项）");
    let b = c.apps[find_app(&c.apps, "b").unwrap_or(0)].clone();
    assert_eq!(b.keywords, vec!["docs", "folder"]);
    let web = "[InternetShortcut]\r\nURL=https://Site.example/a\r\n";
    assert_eq!(add(&mut c, "c", "/x/Site.url", &facts(None, Some(web), false)), "已添加：Site（共 7 项）");
    let s = c.apps[find_app(&c.apps, "c").unwrap_or(0)].clone();
    assert_eq!(s.web_url.as_deref(), Some("https://Site.example/a"));
    assert_eq!(s.keywords, vec!["site", "url", "internet", "website", "site.example"]);
    assert_eq!(add(&mut c, "d", "/", &facts(None, None, true)), "已添加：未命名（共 8 项）");
    match add_dropped_path(&mut c, "/other", &facts(None, None, false), "w") {
        AddOutcome::Added(a) => assert!(a.id.starts_with("app_")),
        other => panic!("{:?}", other),
    }
}
