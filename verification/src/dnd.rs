//! Dragging an entry out of the window, as a shortcut to it.

use vstd::prelude::*;

use crate::config::file_name_char;
use crate::paths::{join_path, parent_of, path_join, path_parent};
use crate::text::{concat, to_chars};
use crate::utf16::{to_wide, utf16};

verus! {

/// The state of the left mouse button among the keys.
pub const LEFT_BUTTON: u32 = 1;

/// How a drag goes on.
#[derive(Debug, Clone, Copy, PartialEq, Eq, Structural)]
pub enum DragState {
    Continue,
    Drop,
    Cancel,
}

/// How a drag goes on: it is given up on escape, and ends where the left button is let go.
pub fn query_continue_drag(escape: bool, key_state: u32) -> (r: DragState)
    ensures
        r == (if escape {
            DragState::Cancel
        } else if key_state & LEFT_BUTTON == 0 {
            DragState::Drop
        } else {
            DragState::Continue
        }),
{
    if escape {
        return DragState::Cancel;
    }
    if key_state & LEFT_BUTTON == 0 {
        return DragState::Drop;
    }
    DragState::Continue
}

/// A character as it stands in the name of a shortcut: as in a file name, but spaces stay.
pub open spec fn link_name_char(c: char) -> char {
    if c == ' ' {
        ' '
    } else {
        file_name_char(c)
    }
}

/// The file name of the shortcut to an entry.
pub open spec fn link_name(name: Seq<char>) -> Seq<char> {
    name.map_values(|c: char| link_name_char(c)) + ".lnk"@
}

fn to_link_name_char(c: char) -> (r: char)
    ensures
        r == link_name_char(c),
{
    match c {
        '<' | '>' | ':' | '"' | '/' | '\\' | '|' | '?' | '*' => '_',
        _ => c,
    }
}

/// Where the shortcut to an entry is made for the drag.
fn link_path(temp_dir: &str, name: &str) -> (r: String)
    ensures
        r@ == path_join(temp_dir@, link_name(name@)),
{
    let chars = to_chars(name);
    let ghost all = chars@.map_values(|c: char| link_name_char(c));
    let mut safe = String::new();
    let mut i: usize = 0;
    assert(safe@ =~= all.take(0));
    while i < chars.len()
        invariant
            i <= chars@.len(),
            all == chars@.map_values(|c: char| link_name_char(c)),
            safe@ == all.take(i as int),
        decreases chars@.len() - i,
    {
        safe.push(to_link_name_char(chars[i]));
        i = i + 1;
        assert(safe@ =~= all.take(i as int));
    }
    assert(all.take(i as int) =~= all);
    let file = concat(safe.as_str(), ".lnk");
    join_path(temp_dir, file.as_str())
}

/// What a shortcut holds, each text in units of sixteen bits and closed by a zero.
#[derive(Debug)]
pub struct Shortcut {
    pub target: Vec<u16>,
    pub args: Option<Vec<u16>>,
    pub work_dir: Option<Vec<u16>>,
    pub link: Vec<u16>,
}

/// The directory in which a shortcut runs: the one given, or else the target's own.
pub open spec fn shortcut_dir(target: Seq<char>, work_dir: Option<Seq<char>>) -> Option<Seq<char>> {
    match work_dir {
        Some(dir) => Some(dir),
        None => path_parent(target),
    }
}

/// What the shortcut `link` to the target holds. Without arguments, none are set.
pub fn create_shortcut(target: &str, link: &str, args: &str, work_dir: Option<String>) -> (r:
    Shortcut)
    ensures
        r.target@ == utf16(target@).push(0u16),
        r.link@ == utf16(link@).push(0u16),
        match r.args {
            Some(a) => args@.len() > 0 && a@ == utf16(args@).push(0u16),
            None => args@.len() == 0,
        },
        match (r.work_dir, shortcut_dir(target@, crate::text::opt_text(work_dir))) {
            (Some(w), Some(dir)) => w@ == utf16(dir).push(0u16),
            (None, None) => true,
            _ => false,
        },
{
    let dir = match work_dir {
        Some(dir) => Some(dir),
        None => parent_of(target),
    };
    let args = if args.is_empty() {
        None
    } else {
        Some(to_wide(args))
    };
    let work_dir = match dir {
        Some(dir) => Some(to_wide(dir.as_str())),
        None => None,
    };
    Shortcut { target: to_wide(target), args, work_dir, link: to_wide(link) }
}

/// What is dragged: the shortcut, where it is made, and what it holds.
#[derive(Debug)]
pub struct DragPlan {
    pub link_path: String,
    pub shortcut: Shortcut,
}

/// What is dragged for an entry: a shortcut to it without arguments, made in `temp_dir` for the
/// time of the drag.
pub fn drag_app_link(target: &str, name: &str, temp_dir: &str) -> (r: DragPlan)
    ensures
        r.link_path@ == path_join(temp_dir@, link_name(name@)),
        r.shortcut.target@ == utf16(target@).push(0u16),
        r.shortcut.link@ == utf16(r.link_path@).push(0u16),
        r.shortcut.args is None,
        match (r.shortcut.work_dir, path_parent(target@)) {
            (Some(w), Some(dir)) => w@ == utf16(dir).push(0u16),
            (None, None) => true,
            _ => false,
        },
{
    let link = link_path(temp_dir, name);
    let shortcut = create_shortcut(target, link.as_str(), "", None);
    proof {
        reveal_strlit("");
    }
    DragPlan { link_path: link, shortcut }
}

} // verus!
