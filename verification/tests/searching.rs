use yian_launcher::everything_search::EverythingHit;
use yian_launcher::models::{AppInfo, Category, UserConfig};
use yian_launcher::search::{
    app_matches_query, apply_everything_hits, apps_search_fingerprint, build_app_item,
    clear_search, computer_status, ensure_search_cache, entries_status, ready_status, refresh_apps,
    reset_search_for_invoke, search_keys, search_status, SearchIndexCache, SearchPlan,
    SearchSession,
};

fn app(id: &str, name: &str, path: &str, cat: &str) -> AppInfo {
    AppInfo::new(id.to_string(), name.to_string(), path.to_string(), cat.to_string())
}

fn group(id: &str, order: i32) -> Category {
    Category {
        id: id.to_string(),
        name: id.to_string(),
        color: "#102030".to_string(),
        sort_order: order,
        visible: true,
        password: None,
    }
}

fn config() -> UserConfig {
    let mut c = UserConfig::default();
    c.categories = vec![group("a", 0), group("b", 1)];
    c.apps = vec![
        app("1", "Editor", "tools/ed.exe", "a"),
        app("2", "Browser", "tools/web.exe", "a"),
        app("3", "ÄRGER", "x", "b"),
    ];
    c.apps[1].web_url = Some("https://Site.example".to_string());
    c.apps[1].args = vec!["-n".to_string(), "2".to_string()];
    c
}

#[test]
fn entries_are_found_by_all_their_texts() {
    let c = config();
    let mut cache = SearchIndexCache::new();
    ensure_search_cache(&mut cache, &c.apps);
    assert_eq!(cache.by_id.len(), 3);
    let found = |q: &str| -> Vec<&str> {
        c.apps.iter().filter(|a| app_matches_query(a, q, &cache)).map(|a| a.id.as_str()).collect()
    };
    assert_eq!(found(""), vec!["1", "2", "3"]);
    assert_eq!(found("edit"), vec!["1"]);
    assert_eq!(found("tools/"), vec!["1", "2"]);
    assert_eq!(found("site.ex"), vec!["2"]);
    assert_eq!(found("ärger"), vec!["3"]);
    assert_eq!(found("Edit"), Vec::<&str>::new());
    let empty = SearchIndexCache::new();
    assert!(app_matches_query(&c.apps[0], "edit", &empty));
    assert!(!app_matches_query(&c.apps[0], "brow", &empty));
}

#[test]
fn the_index_follows_the_entries() {
    let mut c = config();
    let mut cache = SearchIndexCache::new();
    ensure_search_cache(&mut cache, &c.apps);
    let before = cache.fingerprint;
    assert_eq!(before, apps_search_fingerprint(&c.apps));
    ensure_search_cache(&mut cache, &c.apps);
    assert_eq!(before, cache.fingerprint);
    c.apps[0].name = "Writer".to_string();
    assert_ne!(before, apps_search_fingerprint(&c.apps));
    ensure_search_cache(&mut cache, &c.apps);
    assert_eq!(cache.by_id[0].data.name_lc, "writer");
    cache.reindex(&vec![], cache.fingerprint);
    assert_eq!(cache.by_id.len(), 3);
    cache.reindex(&vec![], 1);
    assert_eq!((cache.by_id.len(), cache.fingerprint), (0, 1));
    cache.clear();
    assert_eq!(cache.fingerprint, 0);
    let keys = search_keys(&c.apps);
    assert_eq!(keys[1].web_url.as_deref(), Some("https://Site.example"));
    assert_eq!(keys[0].name, "Writer");
}

#[test]
fn listings() {
    let mut c = config();
    let mut cache = SearchIndexCache::new();
    let list = refresh_apps(&c, &vec![], &mut cache, "/r", "a", "");
    let ids: Vec<&str> = list.rows.iter().map(|r| r.id.as_str()).collect();
    assert_eq!(ids, vec!["2", "1"]);
    assert!(!list.to_top);
    assert!(cache.by_id.is_empty());
    let list = refresh_apps(&c, &vec![], &mut cache, "/r", "a", "EDIT");
    assert_eq!(list.rows.len(), 1);
    assert_eq!(list.rows[0].leads_to, "/r/tools/ed.exe");
    assert!(list.to_top);
    assert_eq!(cache.by_id.len(), 3);
    let list = refresh_apps(&c, &vec![], &mut cache, "/r", "a", "nothing");
    assert!(list.rows.is_empty() && !list.to_top);
    let list = refresh_apps(&c, &vec![], &mut cache, "/r", "gone", "");
    assert_eq!(list.rows.len(), 2);
    c.categories[0].password = Some("pw".to_string());
    let list = refresh_apps(&c, &vec![], &mut cache, "/r", "a", "edit");
    assert!(list.rows.is_empty());
    let list = refresh_apps(&c, &vec!["a".to_string()], &mut cache, "/r", "a", "edit");
    assert_eq!(list.rows.len(), 1);
}

#[test]
fn a_row_shows_its_entry() {
    let c = config();
    let row = build_app_item(&c.apps[1], "/r");
    assert_eq!((row.id.as_str(), row.name.as_str(), row.path.as_str()), ("2", "Browser", "tools/web.exe"));
    assert_eq!((row.category_id.as_str(), row.args.as_str(), row.sort_order, row.pinned), ("a", "-n 2", 0, false));
    assert_eq!(row.leads_to, "/r/tools/web.exe");
}

#[test]
fn files_found_are_numbered() {
    let hit = |n: &str| EverythingHit {
        name: n.to_string(),
        path: format!("/d/{}", n),
        location: "/d".to_string(),
        modified: "m".to_string(),
        attributes: "A".to_string(),
    };
    let rows = apply_everything_hits(&vec![hit("x"), hit("y")]);
    assert_eq!(rows.len(), 2);
    assert_eq!((rows[1].id.as_str(), rows[1].name.as_str(), rows[1].path.as_str()), ("ev:1", "y", "/d/y"));
    assert_eq!((rows[1].location.as_str(), rows[1].modified.as_str(), rows[1].attributes.as_str()), ("/d", "m", "A"));
}

#[test]
fn later_searches_outdate_earlier_ones() {
    let mut s = SearchSession::new();
    let first = match s.text_changed("a", 1) {
        SearchPlan::Computer { ticket: Some(t) } => t,
        other => panic!("{:?}", other),
    };
    assert!(s.is_current(first));
    assert_eq!(s.text_changed(" \t", 1), SearchPlan::AskForText);
    assert!(!s.is_current(first));
    assert_eq!(s.text_changed("a", 0), SearchPlan::Entries);
    assert_eq!(s.submit("a", 1), SearchPlan::Computer { ticket: None });
    assert_eq!(s.submit("", 1), SearchPlan::AskForText);
    assert_eq!(s.submit("a", 0), SearchPlan::Entries);
    assert_eq!(s.generation, 6);
    s.generation = u64::MAX;
    s.submit("a", 0);
    assert_eq!(s.generation, 0);
}

#[test]
fn search_texts() {
    assert_eq!(search_status(SearchPlan::AskForText).as_deref(), Some("请输入要搜索的关键字"));
    assert_eq!(
        search_status(SearchPlan::Computer { ticket: None }).as_deref(),
        Some("正在通过 Everything 搜索计算机…")
    );
    assert_eq!(search_status(SearchPlan::Entries), None);
    assert_eq!(entries_status("", false, 7), ready_status());
    assert_eq!(entries_status("", true, 7), "程序内搜索：7 项");
    assert_eq!(entries_status("x", false, 12), "程序内搜索：12 项");
    assert_eq!(computer_status(1, Ok(3)).as_deref(), Some("Everything：找到 3 项（最多显示 48 项）"));
    assert_eq!(computer_status(1, Err("e".to_string())).as_deref(), Some("e"));
    assert_eq!(computer_status(0, Ok(3)), None);
    assert_eq!(clear_search("x").as_deref(), Some("已清空搜索"));
    assert_eq!(clear_search(""), None);
    assert_eq!(ready_status(), "就绪：可拖入 exe · lnk · url · 文本链接 · 文件夹 · 图片 · 文档");
    let r = reset_search_for_invoke("", "x", false);
    assert!(r.clear);
    assert_eq!(r.status, Some(ready_status()));
    let r = reset_search_for_invoke("x", "", true);
    assert!(r.clear && r.status.is_none());
    let r = reset_search_for_invoke("", "", false);
    assert!(!r.clear && r.status.is_none());
}
