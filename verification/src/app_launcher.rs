//! Launching entries: what is done for an entry, and what the user is told of the outcome.

use vstd::prelude::*;

use crate::models::{AppInfo, LaunchResult};
use crate::paths::{debug_form, extension_of, parent_of, path_debug, path_extension, path_parent};
use crate::text::{
    concat, concat3, copy_texts, is_blank, join, joined, lowercase, opt_text, same_text, texts,
    trim,
};
use crate::utf16::{to_wide, utf16};
use crate::web::{is_web_address, web_address};

verus! {

/// What is done to launch an entry.
#[derive(Debug)]
pub enum LaunchPlan {
    /// Let the system open a link.
    OpenLink(String),
    /// Tell the user that nothing can be launched.
    Refuse(String),
    /// Run a program with arguments, in a directory of its own if one is given.
    RunProgram { program: String, args: Vec<String>, dir: Option<String> },
    /// Let the system open a file.
    OpenFile(String),
}

/// What is known of an entry's files: whether its path leads to anything, and whether its
/// working directory does.
#[derive(Debug, Clone, Copy, PartialEq, Eq, Structural)]
pub struct LaunchFacts {
    pub exists: bool,
    pub work_dir_exists: bool,
}

/// Whether the path is one of a program.
pub open spec fn is_program(path: Seq<char>) -> bool {
    path_extension(path) matches Some(ext) && lowercase(ext) == "exe"@
}

/// The directory in which a program is run: the one that the entry names, if it is there; for an
/// entry that names none, the program's own.
pub open spec fn launch_dir(
    path: Seq<char>,
    work_dir: Option<Seq<char>>,
    work_dir_exists: bool,
) -> Option<Seq<char>> {
    match work_dir {
        Some(dir) => if work_dir_exists {
            Some(dir)
        } else {
            None
        },
        None => path_parent(path),
    }
}

/// What the user is told of a path that leads nowhere.
pub open spec fn missing_path_text(path: Seq<char>) -> Seq<char> {
    "路径不存在: "@ + path_debug(path)
}

/// Launches entries.
#[derive(Debug, Clone, Copy)]
pub struct AppLauncher;

impl AppLauncher {
    /// A launcher.
    pub fn new() -> (r: Self)
        ensures
            r == AppLauncher,
    {
        AppLauncher
    }

    /// What is done to launch an entry. A link of its own goes first, then a path that is an
    /// address of the web; then a path that leads nowhere is refused; programs are run, and
    /// everything else is left to the system.
    pub fn launch(&self, app: &AppInfo, facts: LaunchFacts) -> (r: LaunchPlan)
        ensures
            if app.web_url is Some && trim(app.web_url->0@).len() > 0 {
                r matches LaunchPlan::OpenLink(link) && link@ == app.web_url->0@
            } else if web_address(app.path@) {
                r matches LaunchPlan::OpenLink(link) && link@ == app.path@
            } else if !facts.exists {
                r matches LaunchPlan::Refuse(why) && why@ == missing_path_text(app.path@)
            } else if is_program(app.path@) {
                r matches LaunchPlan::RunProgram { program, args, dir } && program@ == app.path@
                    && args@ == app.args@ && opt_text(dir) == launch_dir(
                    app.path@,
                    opt_text(app.work_dir),
                    facts.work_dir_exists,
                )
            } else {
                r matches LaunchPlan::OpenFile(path) && path@ == app.path@
            },
    {
        if let Some(link) = &app.web_url {
            if !is_blank(link.as_str()) {
                return LaunchPlan::OpenLink(link.clone());
            }
        }
        if is_web_address(app.path.as_str()) {
            return LaunchPlan::OpenLink(app.path.clone());
        }
        if !facts.exists {
            let shown = debug_form(app.path.as_str());
            return LaunchPlan::Refuse(concat("路径不存在: ", shown.as_str()));
        }
        let program = match extension_of(app.path.as_str()) {
            Some(ext) => {
                let lower = ext.as_str().to_lowercase();
                same_text(lower.as_str(), "exe")
            },
            None => false,
        };
        if program {
            self.launch_exe(app, facts.work_dir_exists)
        } else {
            LaunchPlan::OpenFile(app.path.clone())
        }
    }

    fn launch_exe(&self, app: &AppInfo, work_dir_exists: bool) -> (r: LaunchPlan)
        ensures
            r matches LaunchPlan::RunProgram { program, args, dir } && program@ == app.path@
                && args@ == app.args@ && opt_text(dir) == launch_dir(
                app.path@,
                opt_text(app.work_dir),
                work_dir_exists,
            ),
    {
        let dir = match &app.work_dir {
            Some(dir) => if work_dir_exists {
                Some(dir.clone())
            } else {
                None
            },
            None => parent_of(app.path.as_str()),
        };
        LaunchPlan::RunProgram { program: app.path.clone(), args: copy_texts(&app.args), dir }
    }

    /// What the outcome of a plan is called, given how the system ended it. A plan that refuses
    /// has failed whatever the system says.
    pub fn launch_result(&self, plan: &LaunchPlan, outcome: Result<(), String>) -> (r: LaunchResult)
        ensures
            match (plan, outcome) {
                (LaunchPlan::Refuse(why), _) => r == LaunchResult::Failed(*why),
                (_, Ok(())) => r == LaunchResult::Success,
                (LaunchPlan::OpenLink(_), Err(e)) => r matches LaunchResult::Failed(t) && t@
                    == "打开链接失败："@ + e@,
                (_, Err(e)) => r matches LaunchResult::Failed(t) && t@ == "启动失败："@ + e@,
            },
    {
        match plan {
            LaunchPlan::Refuse(why) => LaunchResult::Failed(why.clone()),
            LaunchPlan::OpenLink(_) => match outcome {
                Ok(()) => LaunchResult::Success,
                Err(e) => LaunchResult::Failed(concat("打开链接失败：", e.as_str())),
            },
            _ => match outcome {
                Ok(()) => LaunchResult::Success,
                Err(e) => LaunchResult::Failed(concat("启动失败：", e.as_str())),
            },
        }
    }

    /// What is handed to the system to run the entry with the rights of an administrator.
    pub fn launch_as_admin(&self, app: &AppInfo, present: bool) -> (r: Result<AdminLaunch, String>)
        ensures
            r is Ok <==> present,
            r matches Err(e) ==> e@ == "路径不存在"@,
            r matches Ok(l) ==> admin_launch(l, app.path@, texts(app.args@), opt_text(app.work_dir)),
    {
        match &app.work_dir {
            Some(dir) => run_as_admin(app.path.as_str(), &app.args, Some(dir.as_str()), present),
            None => run_as_admin(app.path.as_str(), &app.args, None, present),
        }
    }

    /// The argument with which the file browser shows the file and selects it.
    pub fn open_in_explorer(&self, path: &str, present: bool) -> (r: Result<String, String>)
        ensures
            r is Ok <==> present,
            r matches Err(e) ==> e@ == "路径不存在"@,
            r matches Ok(arg) ==> arg@ == "/select,\""@ + path@ + "\""@,
    {
        if !present {
            return Err("路径不存在".to_owned());
        }
        Ok(concat3("/select,\"", path, "\""))
    }

    /// The path whose properties the system is to show.
    pub fn show_properties(&self, path: &str, present: bool) -> (r: Result<Vec<u16>, String>)
        ensures
            r is Ok <==> present,
            r matches Err(e) ==> e@ == "路径不存在"@,
            r matches Ok(file) ==> file@ == utf16(path@).push(0u16),
    {
        if !present {
            return Err("路径不存在".to_owned());
        }
        Ok(to_wide(path))
    }
}

/// What is handed to the system to run a program with the rights of an administrator, each text
/// in units of sixteen bits and closed by a zero.
#[derive(Debug)]
pub struct AdminLaunch {
    pub file: Vec<u16>,
    pub args: Option<Vec<u16>>,
    pub dir: Option<Vec<u16>>,
}

/// Whether the launch runs the program with the arguments, separated by spaces, in the directory.
pub open spec fn admin_launch(
    l: AdminLaunch,
    path: Seq<char>,
    args: Seq<Seq<char>>,
    dir: Option<Seq<char>>,
) -> bool {
    &&& l.file@ == utf16(path).push(0u16)
    &&& match l.args {
        Some(a) => joined(args, " "@).len() > 0 && a@ == utf16(joined(args, " "@)).push(0u16),
        None => joined(args, " "@).len() == 0,
    }
    &&& match (l.dir, dir) {
        (Some(d), Some(dir)) => d@ == utf16(dir).push(0u16),
        (None, None) => true,
        _ => false,
    }
}

/// What is handed to the system to run a program with the rights of an administrator.
pub fn run_as_admin(path: &str, args: &Vec<String>, work_dir: Option<&str>, present: bool) -> (r:
    Result<AdminLaunch, String>)
    ensures
        r is Ok <==> present,
        r matches Err(e) ==> e@ == "路径不存在"@,
        r matches Ok(l) ==> admin_launch(
            l,
            path@,
            texts(args@),
            match work_dir {
                Some(d) => Some(d@),
                None => None,
            },
        ),
{
    if !present {
        return Err("路径不存在".to_owned());
    }
    let line = join(args, " ");
    let args = if line.as_str().is_empty() {
        None
    } else {
        Some(to_wide(line.as_str()))
    };
    let dir = match work_dir {
        Some(d) => Some(to_wide(d)),
        None => None,
    };
    Ok(AdminLaunch { file: to_wide(path), args, dir })
}

} // verus!
