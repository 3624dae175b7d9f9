use yian_launcher::app_launcher::{run_as_admin, AppLauncher, LaunchFacts, LaunchPlan};
use yian_launcher::dnd::{create_shortcut, drag_app_link, query_continue_drag, DragState};
use yian_launcher::everything_search::{
    discover_ipc_instance_names, enrich_hit, es_candidates, es_files, es_output_files,
    es_output_result, es_result,
    everything_candidates, find_in_program_dirs, format_file_attributes, hit_with, instance_name,
    ipc_file, name_of, program_search_dirs, search_files, start_step, unquote, wait_step,
    waits_for_index, DirEntry, DirListing, FileFacts, SearchProgress, SearchStep, StartStep,
    CONNECT_TRIES, LOAD_TRIES,
};
use yian_launcher::models::{AppInfo, LaunchResult};
use yian_launcher::utf16::{all_paired, decode_utf16, find_zero, to_wide};

fn app(path: &str) -> AppInfo {
    AppInfo::new("1".to_string(), "n".to_string(), path.to_string(), "g".to_string())
}

fn facts(exists: bool, work_dir_exists: bool) -> LaunchFacts {
    LaunchFacts { exists, work_dir_exists }
}

fn wide(s: &str) -> Vec<u16> {
    let mut v: Vec<u16> = s.encode_utf16().collect();
    v.push(0);
    v
}

#[test]
fn links_go_first() {
    let l = AppLauncher::new();
    let mut a = app("/p/x.exe");
    a.web_url = Some("https://a.example".to_string());
    match l.launch(&a, facts(true, true)) {
        LaunchPlan::OpenLink(u) => assert_eq!(u, "https://a.example"),
        other => panic!("{:?}", other),
    }
    a.web_url = Some("  ".to_string());
    assert!(matches!(l.launch(&a, facts(true, true)), LaunchPlan::RunProgram { .. }));
    match l.launch(&app("http://b.example/x"), facts(false, false)) {
        LaunchPlan::OpenLink(u) => assert_eq!(u, "http://b.example/x"),
        other => panic!("{:?}", other),
    }
}

#[test]
fn programs_run_and_files_open() {
    let l = AppLauncher::new();
    let mut a = app("/p/x.EXE");
    a.args = vec!["-a".to_string()];
    match l.launch(&a, facts(true, false)) {
        LaunchPlan::RunProgram { program, args, dir } => {
            assert_eq!(program, "/p/x.EXE");
            assert_eq!(args, vec!["-a"]);
            assert_eq!(dir.as_deref(), Some("/p"));
        }
        other => panic!("{:?}", other),
    }
    a.work_dir = Some("/w".to_string());
    match l.launch(&a, facts(true, true)) {
        LaunchPlan::RunProgram { dir, .. } => assert_eq!(dir.as_deref(), Some("/w")),
        other => panic!("{:?}", other),
    }
    match l.launch(&a, facts(true, false)) {
        LaunchPlan::RunProgram { dir, .. } => assert_eq!(dir, None),
        other => panic!("{:?}", other),
    }
    match l.launch(&app("/p/x.txt"), facts(true, false)) {
        LaunchPlan::OpenFile(p) => assert_eq!(p, "/p/x.txt"),
        other => panic!("{:?}", other),
    }
    match l.launch(&app("/p/x\n.txt"), facts(false, false)) {
        LaunchPlan::Refuse(why) => assert_eq!(why, "路径不存在: \"/p/x\\n.txt\""),
        other => panic!("{:?}", other),
    }
}

#[test]
fn outcomes_of_launches() {
    let l = AppLauncher::new();
    let said = |plan: LaunchPlan, outcome: Result<(), String>| match l.launch_result(&plan, outcome) {
        LaunchResult::Success => "ok".to_string(),
        LaunchResult::Failed(t) => t,
        LaunchResult::NotFound => "none".to_string(),
    };
    let bad = || Err("e".to_string());
    assert_eq!(said(LaunchPlan::OpenFile("x".to_string()), Ok(())), "ok");
    assert_eq!(said(LaunchPlan::OpenFile("x".to_string()), bad()), "启动失败：e");
    assert_eq!(said(LaunchPlan::OpenLink("x".to_string()), bad()), "打开链接失败：e");
    assert_eq!(said(LaunchPlan::Refuse("no".to_string()), Ok(())), "no");
}

#[test]
fn administrators_programs() {
    let l = AppLauncher::new();
    let mut a = app("/p/x.exe");
    match l.launch_as_admin(&a, false) {
        Err(e) => assert_eq!(e, "路径不存在"),
        Ok(_) => panic!("launched"),
    }
    match l.launch_as_admin(&a, true) {
        Ok(r) => {
            assert_eq!(r.file, wide("/p/x.exe"));
            assert_eq!((r.args, r.dir), (None, None));
        }
        Err(e) => panic!("{}", e),
    }
    a.args = vec!["a".to_string(), "b c".to_string()];
    a.work_dir = Some("/w".to_string());
    match l.launch_as_admin(&a, true) {
        Ok(r) => {
            assert_eq!(r.args, Some(wide("a b c")));
            assert_eq!(r.dir, Some(wide("/w")));
        }
        Err(e) => panic!("{}", e),
    }
    assert!(run_as_admin("/x", &vec![], None, false).is_err());
    assert_eq!(l.open_in_explorer("/p/x", true), Ok("/select,\"/p/x\"".to_string()));
    assert_eq!(l.open_in_explorer("/p/x", false), Err("路径不存在".to_string()));
    assert_eq!(l.show_properties("/p/中", true), Ok(wide("/p/中")));
    assert_eq!(l.show_properties("/p/x", false), Err("路径不存在".to_string()));
}

#[test]
fn texts_in_units_of_sixteen_bits() {
    for s in ["", "abc", "中文", "a😀b", "\u{10ffff}\u{e000}"] {
        assert_eq!(to_wide(s), wide(s));
        let v = to_wide(s);
        assert_eq!(find_zero(&v), v.len() - 1);
        assert!(all_paired(&v, v.len() - 1));
        assert_eq!(decode_utf16(&v, v.len() - 1), s);
    }
    let broken: Vec<u16> = vec![0x61, 0xd83d, 0x62, 0xde00, 0xd83d];
    assert_eq!(decode_utf16(&broken, 5), String::from_utf16_lossy(&broken));
    assert!(!all_paired(&broken, 5));
    assert!(all_paired(&broken, 1));
    assert!(!all_paired(&vec![0xd83d, 0xde00], 1));
    assert_eq!(find_zero(&vec![5, 0, 6, 0]), 1);
}

#[test]
fn dragging_out() {
    assert_eq!(query_continue_drag(true, 1), DragState::Cancel);
    assert_eq!(query_continue_drag(false, 1), DragState::Continue);
    assert_eq!(query_continue_drag(false, 2), DragState::Drop);
    let p = drag_app_link("/p/x.exe", "a: b/c", "/t");
    assert_eq!(p.link_path, "/t/a_ b_c.lnk");
    assert_eq!(p.shortcut.target, wide("/p/x.exe"));
    assert_eq!(p.shortcut.link, wide("/t/a_ b_c.lnk"));
    assert_eq!(p.shortcut.work_dir, Some(wide("/p")));
    assert_eq!(p.shortcut.args, None);
    let s = create_shortcut("/", "/l", "-x", Some("/w".to_string()));
    assert_eq!((s.args, s.work_dir), (Some(wide("-x")), Some(wide("/w"))));
    assert_eq!(create_shortcut("/", "/l", "", None).work_dir, None);
}

#[test]
fn kinds_of_files() {
    let f = |is_dir: bool, is_symlink: bool, attributes: Option<u32>| {
        format_file_attributes(FileFacts { is_dir, is_symlink, attributes, modified: None })
    };
    assert_eq!(f(true, false, None), "文件夹");
    assert_eq!(f(false, true, Some(0)), "链接");
    assert_eq!(f(false, false, Some(0x27)), "文件 · 只读 · 隐藏 · 系统 · 存档");
    assert_eq!(f(false, false, Some(0x22)), "文件 · 隐藏 · 存档");
}

#[test]
fn hits_tell_of_files() {
    let f = FileFacts { is_dir: false, is_symlink: false, attributes: None, modified: Some((86_400 * 365, 5)) };
    let h = enrich_hit("x".to_string(), "/d/x".to_string(), Some(f));
    assert_eq!((h.name.as_str(), h.path.as_str(), h.location.as_str()), ("x", "/d/x", "/d"));
    assert_eq!(h.attributes, "文件");
    assert_eq!(h.modified.len(), "1971-01-01 00:00".len());
    assert!(h.modified.starts_with("1971-01-01") || h.modified.starts_with("1970-12-31"));
    let h = enrich_hit("x".to_string(), "/".to_string(), None);
    assert_eq!((h.location.as_str(), h.modified.as_str(), h.attributes.as_str()), ("", "—", "未知"));
    let g = FileFacts { modified: None, ..f };
    assert_eq!(enrich_hit("x".to_string(), "y".to_string(), Some(g)).modified, "—");
    assert_eq!(hit_with("x".to_string(), "y".to_string(), Some(f), Some("m".to_string())).modified, "m");
}

#[test]
fn places_of_programs() {
    let s = |t: &str| Some(t.to_string());
    assert_eq!(program_search_dirs(s("/r"), s("/c")), vec!["/r", "/r/everything", "/c", "/c/everything"]);
    assert_eq!(program_search_dirs(s("/r"), s("/r/")), vec!["/r", "/r/everything"]);
    assert_eq!(program_search_dirs(s("/r"), s("/r/everything")), vec!["/r", "/r/everything"]);
    assert_eq!(program_search_dirs(None, s("/c")), vec!["/c", "/c/everything"]);
    assert!(program_search_dirs(None, None).is_empty());
    let entry = |name: &str, is_file: bool| DirEntry { name: name.to_string(), is_file };
    let dir = |d: &str, has_exact: bool, entries: Vec<DirEntry>| DirListing {
        dir: d.to_string(),
        has_exact,
        entries,
    };
    let listings = vec![
        dir("/a", false, vec![entry("es.exe", false), entry("other", true)]),
        dir("/b", false, vec![entry("ES.exe", true)]),
        dir("/c", true, vec![]),
    ];
    assert_eq!(find_in_program_dirs(&listings, "es.exe").as_deref(), Some("/b/ES.exe"));
    assert_eq!(find_in_program_dirs(&vec![dir("/c", true, vec![])], "es.exe").as_deref(), Some("/c/es.exe"));
    assert_eq!(find_in_program_dirs(&vec![dir("/a", false, vec![])], "es.exe"), None);
    assert_eq!(unquote("\"\"/x y\""), "/x y");
    assert_eq!(unquote("a\"b"), "a\"b");
    assert_eq!(unquote("\"\""), "");
    let v = |l: &[&str]| -> Vec<String> { l.iter().map(|t| t.to_string()).collect() };
    assert_eq!(
        everything_candidates(&v(&["\"/i\""]), &v(&["/pf"]), &v(&["/b"])),
        vec!["/i", "/i/Everything.exe", "/pf/Everything\\Everything.exe", "/b/Everything.exe"]
    );
    assert_eq!(es_candidates(s("/e/Everything.exe"), &v(&["/b"])), vec!["/e/es.exe", "/b/es.exe"]);
    assert_eq!(es_candidates(None, &v(&["/b"])), vec!["/b/es.exe"]);
}

#[test]
fn running_instances() {
    let class = "EVERYTHING_TASKBAR_NOTIFICATION";
    assert_eq!(instance_name(class), None);
    assert_eq!(instance_name(&format!("{}_(1.5b)", class)).as_deref(), Some("1.5b"));
    assert_eq!(instance_name(&format!("{}(x)", class)).as_deref(), Some("x"));
    assert_eq!(instance_name(&format!("{}()", class)), None);
    assert_eq!(instance_name(&format!("{}_(x", class)), None);
    assert_eq!(instance_name("OTHER_(x)"), None);
    let classes: Vec<String> = vec![
        format!("{}_(1.5a)", class),
        format!("{}(mine)", class),
        format!("{}_(mine)", class),
        "OTHER".to_string(),
    ];
    assert_eq!(
        discover_ipc_instance_names(&classes),
        vec![None, Some("1.5a".to_string()), Some("mine".to_string())]
    );
}

#[test]
fn replies_name_files() {
    let s = |t: &str| Some(t.to_string());
    let pair = |f: Option<yian_launcher::everything_search::FoundFile>| f.map(|f| (f.name, f.path));
    let want = |n: &str, p: &str| Some((n.to_string(), p.to_string()));
    assert_eq!(pair(ipc_file(s("/d/x"), s("y"), s("/e"))), want("x", "/d/x"));
    assert_eq!(pair(ipc_file(s(""), s("y"), s("/e"))), want("y", "/e/y"));
    assert_eq!(pair(ipc_file(None, s("y"), s(""))), want("y", "y"));
    assert_eq!(pair(ipc_file(None, s("y"), None)), want("y", "y"));
    assert_eq!(pair(ipc_file(None, s(""), s("/e"))), None);
    assert_eq!(pair(ipc_file(None, None, s("/e"))), None);
    assert_eq!(name_of("/"), "/");
    assert_eq!(name_of("/a/b"), "b");
    let paths = |out: &str, max: u32| -> Vec<String> { es_files(out, max).into_iter().map(|f| f.path).collect() };
    assert_eq!(paths(" /a \r\n\r\n/b\n/c", 2), vec!["/a", "/b"]);
    assert_eq!(paths("/a\n/b", 0), vec!["/a"]);
    assert_eq!(paths("/a\n/b\n", 9), vec!["/a", "/b"]);
    assert!(paths("\n \n", 9).is_empty());
    assert_eq!(es_files("/a/b\n", 1)[0].name, "b");
    let found = es_output_files(&b"/a/\xe5\x9b\xbe\n\n /c\xff \r\n/d\n".to_vec(), 2);
    let found: Vec<(&str, &str)> = found.iter().map(|f| (f.name.as_str(), f.path.as_str())).collect();
    assert_eq!(found, vec![("图", "/a/图"), ("c\u{fffd}", "/c\u{fffd}")]);
}

#[test]
fn starting_the_index() {
    assert!(matches!(start_step(true, None), StartStep::Ready));
    assert!(matches!(start_step(false, Some("/e".to_string())), StartStep::Start(p) if p == "/e"));
    match start_step(false, None) {
        StartStep::Fail(t) => assert_eq!(
            t,
            "程序目录缺少 Everything.exe。请将 everything 文件夹中的文件放到与 yian-launcher.exe 同级目录"
        ),
        other => panic!("{:?}", other),
    }
    assert_eq!(LOAD_TRIES, 50);
    assert!(waits_for_index(false, 0));
    assert!(waits_for_index(false, LOAD_TRIES - 1));
    assert!(!waits_for_index(false, LOAD_TRIES));
    assert!(!waits_for_index(true, 0));
    assert!(matches!(wait_step(true, 9), StartStep::Ready));
    assert!(matches!(wait_step(false, CONNECT_TRIES - 1), StartStep::Wait));
    match wait_step(false, CONNECT_TRIES) {
        StartStep::Fail(t) => assert_eq!(
            t,
            "已启动程序目录下的 Everything，但仍无法连接。请稍候再搜，或手动运行同目录 Everything.exe"
        ),
        other => panic!("{:?}", other),
    }
}

#[test]
fn the_ways_to_search() {
    let hit = || hit_with("x".to_string(), "/x".to_string(), None, None);
    assert!(matches!(search_files("  ", SearchProgress::Begun), SearchStep::Done(Ok(v)) if v.is_empty()));
    assert!(matches!(search_files(" q ", SearchProgress::Begun), SearchStep::AskIndex(q) if q == "q"));
    assert!(matches!(
        search_files("q", SearchProgress::IndexReplied(Ok(vec![hit()]))),
        SearchStep::Done(Ok(v)) if v.len() == 1
    ));
    assert!(matches!(search_files("q", SearchProgress::IndexReplied(Ok(vec![]))), SearchStep::AskProgram));
    assert!(matches!(
        search_files("q", SearchProgress::IndexReplied(Err("e".to_string()))),
        SearchStep::AskProgram
    ));
    assert!(matches!(
        search_files("q", SearchProgress::ProgramReplied(Ok(vec![]))),
        SearchStep::Done(Ok(v)) if v.is_empty()
    ));
    assert!(matches!(
        search_files("q", SearchProgress::ProgramReplied(Err("e".to_string()))),
        SearchStep::ShowWindow
    ));
    assert!(matches!(
        search_files("q", SearchProgress::WindowAsked(Ok(()))),
        SearchStep::Done(Err(e)) if e == "已用程序目录 Everything 打开搜索窗口。若首次运行请等待索引完成后再搜"
    ));
    assert!(matches!(
        search_files("q", SearchProgress::WindowAsked(Err("!".to_string()))),
        SearchStep::Done(Err(e))
            if e == "搜索失败：请确认程序目录存在 Everything.exe / Everything64.dll / es.exe。!"
    ));
    match es_result(vec![], false, "3", " bad \n") {
        Err(e) => assert_eq!(e, "es.exe 无结果 (exit=3) stderr=bad"),
        Ok(_) => panic!("hits"),
    }
    assert!(es_result(vec![], true, "0", "").is_ok());
    match es_output_result(vec![], false, "3", &b" b\xc3\xa4d \n".to_vec()) {
        Err(e) => assert_eq!(e, "es.exe 无结果 (exit=3) stderr=bäd"),
        Ok(_) => panic!("nothing was found"),
    }
    assert!(es_output_result(vec![hit()], false, "3", &vec![]).is_ok());
    assert!(es_result(vec![hit()], false, "3", "").is_ok());
}
