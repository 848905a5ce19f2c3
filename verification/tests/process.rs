use kaku_tools::path::FilePath;
use kaku_tools::process::{LocalProcessInfo, LocalProcessStatus};
use std::collections::HashMap;

fn proc(pid: u32, pgid: u32, exe: &str, children: Vec<LocalProcessInfo>) -> LocalProcessInfo {
    let mut info = proc_at(pid, pgid, &format!("/usr/bin/{exe}"), children);
    info.name = exe.to_string();
    info
}

fn proc_at(pid: u32, pgid: u32, path: &str, children: Vec<LocalProcessInfo>) -> LocalProcessInfo {
    LocalProcessInfo {
        pid,
        ppid: 0,
        pgid,
        name: path.to_string(),
        executable: FilePath::from_text(path),
        argv: vec![],
        cwd: FilePath::new(),
        status: LocalProcessStatus::Run,
        start_time: 0,
        children: children.into_iter().map(|c| (c.pid, c)).collect(),
    }
}

#[test]
fn group_filter_ignores_background_daemon() {
    // Idle shell in foreground group 100, with a backgrounded gitstatusd
    // daemon in its own group 200 living in the same process tree.
    let tree = proc(100, 100, "zsh", vec![proc(150, 200, "gitstatusd", vec![])]);

    // Whole-tree view sees both processes.
    let names = tree.flatten_to_exe_names();
    assert_eq!(names.len(), 2);
    assert!(names.contains("zsh"));
    assert!(names.contains("gitstatusd"));

    // Foreground-group view sees only the shell.
    let names = tree.flatten_to_exe_names_in_group(100);
    assert_eq!(names.len(), 1);
    assert!(names.contains("zsh"));
}

#[test]
fn group_filter_keeps_foreground_job_children() {
    // A foreground `./build.sh` (bash) that shells out to make stays in the
    // same foreground group and must remain visible.
    let tree = proc(100, 300, "bash", vec![proc(160, 300, "make", vec![])]);

    let names = tree.flatten_to_exe_names_in_group(300);
    assert_eq!(names.len(), 2);
    assert!(names.contains("bash"));
    assert!(names.contains("make"));
}

fn sorted_names(tree: &LocalProcessInfo, group: Option<u32>) -> Vec<String> {
    let mut names = tree.list_exe_names(group);
    names.sort();
    names
}

#[test]
fn names_can_be_listed() {
    let leaf = proc(4, 7, "leaf", vec![proc(5, 7, "root", vec![])]);
    let tree = proc(1, 1, "root", vec![proc(2, 7, "mid", vec![leaf]), proc(3, 1, "mid", vec![])]);
    assert_eq!(sorted_names(&tree, None), vec!["leaf", "mid", "root"]);
    assert_eq!(sorted_names(&tree, Some(1)), vec!["mid", "root"]);
    assert_eq!(sorted_names(&tree, Some(7)), vec!["leaf", "mid", "root"]);
    assert!(tree.list_exe_names(Some(99)).is_empty());
}

#[test]
fn names_depend_on_what_a_group_runs_alone() {
    // The same executables in the group, in another shape and beside other processes.
    let a = proc(1, 1, "zsh", vec![proc(2, 1, "make", vec![proc(3, 1, "cc", vec![])])]);
    let b = proc(
        9,
        2,
        "gitstatusd",
        vec![
            proc(8, 1, "cc", vec![]),
            proc(7, 1, "make", vec![proc(6, 1, "zsh", vec![proc(5, 1, "cc", vec![])])]),
        ],
    );
    assert_eq!(sorted_names(&a, Some(1)), sorted_names(&b, Some(1)));
    assert_eq!(sorted_names(&a, Some(1)), vec!["cc", "make", "zsh"]);
}

#[test]
fn same_base_name_counts_once() {
    let tree = proc_at(1, 1, "foo/bar", vec![proc_at(2, 1, "woot/bar", vec![])]);
    let names = tree.flatten_to_exe_names();
    assert_eq!(names.len(), 1);
    assert!(names.contains("bar"));
    assert_eq!(tree.list_exe_names(None), vec!["bar"]);
}

#[test]
fn executables_without_a_name_are_left_out() {
    let tree = proc_at(1, 1, "", vec![proc_at(2, 1, "/", vec![]), proc_at(3, 1, "a/..", vec![])]);
    assert_eq!(tree.flatten_to_exe_names().len(), 0);
}

#[test]
fn names_are_collected_at_every_depth() {
    let leaf = proc(4, 7, "leaf", vec![]);
    let tree = proc(1, 1, "root", vec![proc(2, 7, "mid", vec![leaf]), proc(3, 1, "side", vec![])]);
    let all = tree.flatten_to_exe_names();
    assert_eq!(all.len(), 4);
    let group = tree.flatten_to_exe_names_in_group(7);
    assert_eq!(group.len(), 2);
    assert!(group.contains("mid"));
    assert!(group.contains("leaf"));
    assert_eq!(tree.flatten_to_exe_names_in_group(99).len(), 0);
}

#[test]
fn names_that_are_not_unicode_are_replaced() {
    let mut tree = proc(1, 1, "x", vec![]);
    tree.executable = FilePath { bytes: vec![b'/', b'a', 0xff, b'b'] };
    let names = tree.flatten_to_exe_names();
    assert!(names.contains("a\u{fffd}b"));
}

#[test]
fn copies_say_the_same() {
    let tree = proc(1, 1, "root", vec![proc(2, 7, "mid", vec![proc(4, 7, "leaf", vec![])])]);
    let copy = tree.clone();
    assert_eq!(copy.pid, 1);
    assert_eq!(copy.executable.bytes, b"/usr/bin/root".to_vec());
    assert_eq!(copy.children.len(), 1);
    assert_eq!(copy.children[&2].children[&4].name, "leaf");
    assert!(copy.flatten_to_exe_names_in_group(7).contains("leaf"));
    let empty: HashMap<u32, LocalProcessInfo> = HashMap::new();
    assert_eq!(copy.children[&2].children[&4].children.len(), empty.len());
}

#[test]
fn this_platform_tells_nothing_of_a_pid() {
    assert!(LocalProcessInfo::with_root_pid(1).is_none());
    assert!(LocalProcessInfo::current_working_dir(1).is_none());
    assert!(LocalProcessInfo::executable_path(1).is_none());
}
