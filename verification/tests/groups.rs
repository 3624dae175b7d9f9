use yian_launcher::groups::{
    add_category, add_category_at, category_exists, category_fallback_id, category_name_by_id,
    category_requires_unlock, category_rows, category_shown, category_title, change_category,
    confirm_password, delete_category, delete_category_at, find_category, parse_color,
    password_mode, relock, rename_category, reorder_categories_vec, reorder_category,
    resolve_category_id_input, unlock, CategoryChange, PasswordMode, PasswordOutcome,
};
use yian_launcher::models::{AppInfo, Category, UserConfig};

fn group(id: &str, name: &str, order: i32) -> Category {
    Category {
        id: id.to_string(),
        name: name.to_string(),
        color: "#102030".to_string(),
        sort_order: order,
        visible: true,
        password: None,
    }
}

fn groups() -> Vec<Category> {
    vec![group("a", "first", 5), group("b", "second", 1), group("c", "third", 1)]
}

fn ids(cats: &Vec<Category>) -> Vec<&str> {
    cats.iter().map(|c| c.id.as_str()).collect()
}

#[test]
fn groups_are_found() {
    let g = groups();
    assert_eq!(find_category(&g, "b"), Some(1));
    assert_eq!(find_category(&g, "x"), None);
    assert_eq!(category_fallback_id(&g), "b");
    assert_eq!(category_fallback_id(&vec![]), "");
    assert!(category_exists(&g, "a"));
    assert!(!category_exists(&g, ""));
    assert!(!category_exists(&vec![group("", "n", 0)], ""));
    assert_eq!(category_shown(&g, "c"), "c");
    assert_eq!(category_shown(&g, "x"), "b");
    assert_eq!(category_name_by_id(&g, "a"), "first");
    assert_eq!(category_name_by_id(&g, "x"), "x");
    assert_eq!(category_title(&g, "a"), "first");
    assert_eq!(category_title(&g, "x"), "");
    assert_eq!(resolve_category_id_input(&g, "a"), "a");
    assert_eq!(resolve_category_id_input(&g, "third"), "c");
    assert_eq!(resolve_category_id_input(&g, "x"), "x");
}

#[test]
fn groups_are_locked_and_unlocked() {
    let mut g = groups();
    let mut open: Vec<String> = Vec::new();
    let r = confirm_password(&mut g, &mut open, PasswordMode::Lock, "a", "pw", "b");
    assert_eq!(r, PasswordOutcome::Locked);
    assert_eq!(g[0].password.as_deref(), Some("pw"));
    assert!(category_requires_unlock(&g, &open, "a"));
    assert_eq!(
        confirm_password(&mut g, &mut open, PasswordMode::Lock, "a", "other", "b"),
        PasswordOutcome::AlreadyLocked
    );
    assert_eq!(
        confirm_password(&mut g, &mut open, PasswordMode::Enter, "a", "no", "b"),
        PasswordOutcome::Wrong
    );
    assert_eq!(
        confirm_password(&mut g, &mut open, PasswordMode::Enter, "a", "yian123", "b"),
        PasswordOutcome::Wrong
    );
    assert!(category_requires_unlock(&g, &open, "a"));
    assert_eq!(
        confirm_password(&mut g, &mut open, PasswordMode::Enter, "a", "pw", "b"),
        PasswordOutcome::Entered
    );
    assert!(!category_requires_unlock(&g, &open, "a"));
    assert_eq!(
        confirm_password(&mut g, &mut open, PasswordMode::Clear, "a", "no", "b"),
        PasswordOutcome::Wrong
    );
    assert_eq!(
        confirm_password(&mut g, &mut open, PasswordMode::Clear, "a", "yian123", "b"),
        PasswordOutcome::Cleared
    );
    assert_eq!(g[0].password, None);
    assert!(open.is_empty());
    assert!(!category_requires_unlock(&g, &open, "a"));
    assert_eq!(
        confirm_password(&mut g, &mut open, PasswordMode::Clear, "a", "pw", "b"),
        PasswordOutcome::NotLocked
    );
    assert_eq!(
        confirm_password(&mut g, &mut open, PasswordMode::Enter, "a", "", "b"),
        PasswordOutcome::Missing
    );
}

#[test]
fn a_group_locked_while_shown_stays_open_until_left() {
    let mut g = groups();
    let mut open: Vec<String> = Vec::new();
    let r = confirm_password(&mut g, &mut open, PasswordMode::Lock, "a", "pw", "a");
    assert_eq!(r, PasswordOutcome::Locked);
    assert!(!category_requires_unlock(&g, &open, "a"));
    match change_category(&g, &mut open, "a", "b", 0, "text") {
        CategoryChange::Open { search } => assert_eq!(search, "text"),
        other => panic!("{:?}", other),
    }
    assert!(category_requires_unlock(&g, &open, "a"));
    match change_category(&g, &mut open, "b", "a", 0, "text") {
        CategoryChange::AskPassword { name } => assert_eq!(name, "first"),
        other => panic!("{:?}", other),
    }
    assert!(matches!(change_category(&g, &mut open, "a", "a", 0, "x"), CategoryChange::Stay));
    match change_category(&g, &mut open, "a", "c", 1, "text") {
        CategoryChange::Open { search } => assert_eq!(search, ""),
        other => panic!("{:?}", other),
    }
}

#[test]
fn unlocked_list() {
    let mut open: Vec<String> = Vec::new();
    unlock(&mut open, "a");
    unlock(&mut open, "a");
    unlock(&mut open, "b");
    assert_eq!(open, vec!["a", "b"]);
    relock(&mut open, "a");
    assert_eq!(open, vec!["b"]);
}

#[test]
fn password_dialog() {
    assert_eq!(password_mode(0), PasswordMode::Lock);
    assert_eq!(password_mode(1), PasswordMode::Enter);
    assert_eq!(password_mode(2), PasswordMode::Clear);
    assert_eq!(password_mode(9), PasswordMode::Enter);
    let texts = [
        (PasswordOutcome::Missing, false, "请输入密码"),
        (PasswordOutcome::AlreadyLocked, false, "该分组已有密码，请先「清除分组密码」后再重新设定"),
        (PasswordOutcome::NotLocked, false, "该分组未设置密码"),
        (PasswordOutcome::Wrong, false, "密码错误"),
        (PasswordOutcome::Locked, true, "已为分组设定密码保护"),
        (PasswordOutcome::Cleared, true, "已清除分组密码"),
        (PasswordOutcome::Entered, true, "分组已解锁"),
    ];
    for (o, settled, text) in texts {
        assert_eq!(o.is_settled(), settled);
        assert_eq!(o.message(), text);
    }
}

#[test]
fn groups_are_added_and_named() {
    let mut g = groups();
    add_category_at(&mut g, "new", 1700000000123);
    assert_eq!(g[3].id, "cat_1700000000123");
    assert_eq!((g[3].name.as_str(), g[3].color.as_str(), g[3].sort_order), ("new", "#4a82c4", 3));
    assert!(g[3].visible && g[3].password.is_none());
    add_category(&mut g, "newer");
    assert!(g[4].id.starts_with("cat_"));
    assert!(g[4].id[4..].parse::<i64>().unwrap_or(0) > 1_600_000_000_000);
    rename_category(&mut g, "a", "best");
    rename_category(&mut g, "b", "");
    rename_category(&mut g, "x", "y");
    assert_eq!(g[0].name, "best");
    assert_eq!(g[1].name, "second");
}

#[test]
fn groups_are_deleted_with_their_entries() {
    let mut c = UserConfig::default();
    c.categories = groups();
    let entry = |id: &str, cat: &str| AppInfo::new(id.to_string(), id.to_string(), id.to_string(), cat.to_string());
    c.apps = vec![entry("1", "a"), entry("2", "b"), entry("3", "a")];
    let mut open = vec!["a".to_string(), "b".to_string()];
    let d = delete_category_at(&mut c, &mut open, "a", 7);
    assert_eq!(d.selected, "b");
    assert_eq!(d.removed, vec!["1", "3"]);
    assert_eq!(ids(&c.categories), vec!["b", "c"]);
    assert_eq!(c.apps.len(), 1);
    assert_eq!(open, vec!["b"]);
    delete_category(&mut c, &mut open, "c");
    let d = delete_category_at(&mut c, &mut open, "b", 7);
    assert_eq!(d.selected, "cat_7");
    assert_eq!(c.categories[0].name, "默认分组");
    assert_eq!(c.categories[0].sort_order, 0);
    assert!(c.apps.is_empty());
}

#[test]
fn groups_are_moved() {
    let mut g = groups();
    assert!(reorder_categories_vec(&mut g, 0, 3));
    assert_eq!(ids(&g), vec!["c", "a", "b"]);
    let numbers: Vec<i32> = g.iter().map(|c| c.sort_order).collect();
    assert_eq!(numbers, vec![0, 1, 2]);
    assert!(reorder_category(&mut g, 2, 0));
    assert_eq!(ids(&g), vec!["b", "c", "a"]);
    assert!(!reorder_category(&mut g, -1, 0));
    assert!(!reorder_category(&mut g, 0, -1));
    assert!(!reorder_category(&mut g, 3, 0));
    assert!(!reorder_category(&mut g, 0, 4));
    assert!(!reorder_category(&mut g, 1, 1));
    assert!(!reorder_category(&mut g, 1, 2));
    assert_eq!(ids(&g), vec!["b", "c", "a"]);
    let mut one = vec![group("a", "x", 9)];
    assert!(!reorder_category(&mut one, 0, 1));
}

#[test]
fn rows_of_groups() {
    let mut g = groups();
    g[0].password = Some("x".to_string());
    let rows = category_rows(&g);
    let shown: Vec<&str> = rows.iter().map(|r| r.id.as_str()).collect();
    assert_eq!(shown, vec!["b", "c", "a"]);
    assert_eq!(rows[0].color, (16, 32, 48));
    assert_eq!((rows[0].sort_order, rows[2].sort_order), (1, 5));
    assert!(rows[2].has_password && !rows[0].has_password);
    assert_eq!(rows[2].name, "first");
}

#[test]
fn colours() {
    assert_eq!(parse_color("#4a82c4"), (74, 130, 196));
    assert_eq!(parse_color("#FF0080"), (255, 0, 128));
    assert_eq!(parse_color("#zz0080"), (74, 0, 128));
    assert_eq!(parse_color("#00zz00"), (0, 130, 0));
    assert_eq!(parse_color("#0000zz"), (0, 0, 196));
    assert_eq!(parse_color("#+1-200"), (1, 130, 0));
    assert_eq!(parse_color("red"), (74, 130, 196));
    assert_eq!(parse_color(""), (74, 130, 196));
}
