//! What is known of the processes that run below a terminal.
use std::collections::HashMap;
use vstd::hash_set::StringHashSet;
use vstd::prelude::*;
use vstd::utf8::encode_utf8;

use crate::path::{base_name, joined_path, law_joined_name_is_file_name, plain_name, FilePath};
use crate::text::{law_bytes_of_a_text_are_read_as_it, lossy, readable, views};

verus! {

/// What a process is doing.
#[derive(Debug, Copy, Clone)]
pub enum LocalProcessStatus {
    Idle,
    Run,
    Sleep,
    Stop,
    Zombie,
    Tracing,
    Dead,
    Wakekill,
    Waking,
    Parked,
    LockBlocked,
    Unknown,
}

/// A process and the processes below it.
#[derive(Debug)]
pub struct LocalProcessInfo {
    /// The process identifier
    pub pid: u32,
    /// The parent process identifier
    pub ppid: u32,
    /// The process group identifier. Used to distinguish the tty's
    /// foreground job from backgrounded processes in the same tree.
    pub pgid: u32,
    /// The COMM name of the process. May not bear any relation to
    /// the executable image name. May be changed at runtime by
    /// the process.
    /// Many systems truncate this
    /// field to 15-16 characters.
    pub name: String,
    /// Path to the executable image
    pub executable: FilePath,
    /// The argument vector.
    /// Some systems allow changing the argv block at runtime
    /// eg: setproctitle().
    pub argv: Vec<String>,
    /// The current working directory for the process, or an empty
    /// path if it was not accessible for some reason.
    pub cwd: FilePath,
    /// The status of the process. Not all possible values are
    /// portably supported on all systems.
    pub status: LocalProcessStatus,
    /// A clock value in unspecified system dependent units that
    /// indicates the relative age of the process.
    pub start_time: u64,
    /// Child processes, keyed by pid
    pub children: HashMap<u32, LocalProcessInfo>,
}

/// Whether `p` is `root` or one of the processes below it.
pub open spec fn in_tree(root: LocalProcessInfo, p: LocalProcessInfo) -> bool
    decreases root,
{
    p == root || exists|pid: u32| #[trigger]
        root.children@.contains_key(pid) && in_tree(root.children@[pid], p)
}

impl LocalProcessInfo {
    /// The base name of the executable, as text.
    pub open spec fn exe_name(self) -> Option<Seq<char>> {
        match base_name(self.executable@) {
            Some(name) => Some(readable(name)),
            None => None,
        }
    }
}

/// Whether a process of the tree that `root` heads, and of the group where one is given, has `name`
/// as the base name of its executable.
pub open spec fn has_exe_name(root: LocalProcessInfo, group: Option<u32>, name: Seq<char>) -> bool {
    exists|p: LocalProcessInfo| #[trigger]
        in_tree(root, p) && (group is None || p.pgid == group->0) && p.exe_name() == Some(name)
}

/// The base names of the executables in the tree that `root` heads, those of one group where a
/// group is given.
pub open spec fn exe_names(root: LocalProcessInfo, group: Option<u32>) -> Set<Seq<char>> {
    Set::new(|name: Seq<char>| has_exe_name(root, group, name))
}

/// The name that the process itself brings, if any.
spec fn own_name(item: LocalProcessInfo, group: Option<u32>, name: Seq<char>) -> bool {
    (group is None || item.pgid == group->0) && item.exe_name() == Some(name)
}

/// The names in a tree are that of its root and those in the trees of the root's children.
proof fn lemma_names_by_child(root: LocalProcessInfo, group: Option<u32>, name: Seq<char>)
    ensures
        has_exe_name(root, group, name) <==> own_name(root, group, name) || exists|
            child: LocalProcessInfo,
        | #[trigger]
            root.children@.values().contains(child) && has_exe_name(child, group, name),
{
    if has_exe_name(root, group, name) {
        let p = choose|p: LocalProcessInfo| #[trigger]
            in_tree(root, p) && (group is None || p.pgid == group->0) && p.exe_name() == Some(name);
        if p != root {
            let pid = choose|pid: u32| #[trigger]
                root.children@.contains_key(pid) && in_tree(root.children@[pid], p);
            assert(root.children@.values().contains(root.children@[pid]));
        }
    }
    if own_name(root, group, name) {
        assert(in_tree(root, root));
    }
    if exists|child: LocalProcessInfo| #[trigger]
        root.children@.values().contains(child) && has_exe_name(child, group, name) {
        let child = choose|child: LocalProcessInfo| #[trigger]
            root.children@.values().contains(child) && has_exe_name(child, group, name);
        let p = choose|p: LocalProcessInfo| #[trigger]
            in_tree(child, p) && (group is None || p.pgid == group->0) && p.exe_name() == Some(
                name,
            );
        let pid = choose|pid: u32| #[trigger]
            root.children@.contains_key(pid) && root.children@[pid] == child;
        assert(in_tree(root, p));
    }
}

/// Names that were found so far, each once.
struct FoundNames {
    /// For looking a name up.
    set: StringHashSet,
    /// The same names, in the order in which they were found.
    list: Vec<String>,
}

impl View for FoundNames {
    type V = Set<Seq<char>>;

    closed spec fn view(&self) -> Set<Seq<char>> {
        self.set@
    }
}

impl FoundNames {
    /// The list holds the names of the set, none of them twice.
    spec fn wf(self) -> bool {
        views(self.list@).no_duplicates() && views(self.list@).to_set() == self.set@
    }

    fn new() -> (names: FoundNames)
        ensures
            names.wf(),
            names@ == Set::<Seq<char>>::empty(),
    {
        let names = FoundNames { set: StringHashSet::new(), list: Vec::new() };
        assert(views(names.list@).to_set() =~= names.set@);
        names
    }

    /// Adds a name, unless it is there.
    fn note(&mut self, name: String)
        requires
            old(self).wf(),
        ensures
            final(self).wf(),
            final(self)@ == old(self)@.insert(name@),
    {
        let ghost before = views(self.list@);
        if self.set.insert(name.clone()) {
            self.list.push(name);
            let ghost after = views(self.list@);
            assert(after =~= before.push(name@));
            assert(!before.to_set().contains(name@));
            assert forall|n: Seq<char>| after.to_set().contains(n) <==> self.set@.contains(n) by {
                if before.contains(n) {
                    let i = choose|i: int| 0 <= i < before.len() && before[i] == n;
                    assert(after[i] == n);
                }
                assert(after[before.len() as int] == name@);
            }
            assert(after.to_set() =~= self.set@);
        } else {
            assert(self.set@ =~= old(self).set@);
        }
    }
}

/// Adds to `names` the base names of the executables at and below `item`, those of one group where
/// a group is given.
fn flatten(item: &LocalProcessInfo, group: Option<u32>, names: &mut FoundNames)
    requires
        old(names).wf(),
    ensures
        final(names).wf(),
        final(names)@ == old(names)@.union(exe_names(*item, group)),
    decreases item,
{
    let wanted = match group {
        Some(pgid) => item.pgid == pgid,
        None => true,
    };
    if wanted {
        if let Some(exe) = item.executable.file_name() {
            names.note(lossy(exe.as_slice()));
        }
    }
    let ghost before = old(names)@;
    assert(forall|name: Seq<char>|
        names@.contains(name) <==> before.contains(name) || own_name(*item, group, name));
    let ghost mut walked: Seq<LocalProcessInfo> = seq![];
    for child in it: item.children.values()
        invariant
            names.wf(),
            it.seq().unref().to_set() == item.children@.values(),
            walked == it.seq().unref().take(it.index()),
            it.index() == it.seq().len() ==> walked == it.seq().unref(),
            forall|name: Seq<char>| #[trigger]
                names@.contains(name) <==> before.contains(name) || own_name(*item, group, name)
                    || exists|i: int|
                    0 <= i < walked.len() && has_exe_name(#[trigger] walked[i], group, name),
    {
        assert(it.seq().unref().to_set().contains(*child)) by {
            assert(it.seq().unref()[it.index()] == *child);
        }
        flatten(child, group, names);
        proof {
            let next = walked.push(*child);
            assert forall|name: Seq<char>| #[trigger]
                names@.contains(name) <==> before.contains(name) || own_name(*item, group, name)
                    || exists|i: int|
                    0 <= i < next.len() && has_exe_name(#[trigger] next[i], group, name) by {
                if exists|i: int| 0 <= i < walked.len() && has_exe_name(walked[i], group, name) {
                    let i = choose|i: int|
                        0 <= i < walked.len() && has_exe_name(walked[i], group, name);
                    assert(next[i] == walked[i]);
                }
                if has_exe_name(*child, group, name) {
                    assert(next[walked.len() as int] == *child);
                }
                if exists|i: int| 0 <= i < next.len() && has_exe_name(next[i], group, name) {
                    let i = choose|i: int|
                        0 <= i < next.len() && has_exe_name(next[i], group, name);
                    if i < walked.len() {
                        assert(next[i] == walked[i]);
                    }
                }
            }
            walked = next;
        }
    }
    proof {
        assert forall|name: Seq<char>| #[trigger]
            names@.contains(name) <==> before.contains(name) || has_exe_name(
                *item,
                group,
                name,
            ) by {
            lemma_names_by_child(*item, group, name);
            if exists|i: int| 0 <= i < walked.len() && has_exe_name(walked[i], group, name) {
                let i = choose|i: int|
                    0 <= i < walked.len() && has_exe_name(walked[i], group, name);
                assert(walked.to_set().contains(walked[i]));
            }
            if exists|child: LocalProcessInfo| #[trigger]
                item.children@.values().contains(child) && has_exe_name(child, group, name) {
                let child = choose|child: LocalProcessInfo| #[trigger]
                    item.children@.values().contains(child) && has_exe_name(child, group, name);
                assert(walked.to_set().contains(child));
                let i = choose|i: int| 0 <= i < walked.len() && walked[i] == child;
                assert(has_exe_name(walked[i], group, name));
            }
        }
    }
}

impl LocalProcessInfo {
    /// Walk this sub-tree of processes and return a unique set
    /// of executable base names. eg: `foo/bar` and `woot/bar`
    /// produce a set containing just `bar`.
    pub fn flatten_to_exe_names(&self) -> (names: StringHashSet)
        ensures
            names@ == exe_names(*self, None),
    {
        let mut names = FoundNames::new();
        flatten(self, None, &mut names);
        assert(names@ =~= exe_names(*self, None));
        names.set
    }

    /// Like `flatten_to_exe_names`, but only includes processes whose process
    /// group id matches `pgid`. Lets callers consider just the tty's foreground
    /// job and ignore backgrounded daemons (e.g. gitstatusd) that live in the
    /// same process tree but a different process group.
    pub fn flatten_to_exe_names_in_group(&self, pgid: u32) -> (names: StringHashSet)
        ensures
            names@ == exe_names(*self, Some(pgid)),
    {
        let mut names = FoundNames::new();
        flatten(self, Some(pgid), &mut names);
        assert(names@ =~= exe_names(*self, Some(pgid)));
        names.set
    }

    /// The names of `flatten_to_exe_names`, or of `flatten_to_exe_names_in_group`
    /// where a group is given, one after the other. The order is not told: it
    /// follows that of the children's table.
    pub fn list_exe_names(&self, group: Option<u32>) -> (names: Vec<String>)
        ensures
            views(names@).no_duplicates(),
            views(names@).to_set() == exe_names(*self, group),
    {
        let mut names = FoundNames::new();
        flatten(self, group, &mut names);
        assert(names@ =~= exe_names(*self, group));
        names.list
    }

    /// The process `_pid` and those below it. This platform does not tell.
    pub fn with_root_pid(_pid: u32) -> (info: Option<Self>)
        ensures
            info is None,
    {
        None
    }

    /// The working directory of the process `_pid`. This platform does not tell.
    pub fn current_working_dir(_pid: u32) -> (dir: Option<FilePath>)
        ensures
            dir is None,
    {
        None
    }

    /// The executable image of the process `_pid`. This platform does not tell.
    pub fn executable_path(_pid: u32) -> (path: Option<FilePath>)
        ensures
            path is None,
    {
        None
    }
}

/// Whether two trees of processes say the same, field by field and child by child.
pub open spec fn alike(a: LocalProcessInfo, b: LocalProcessInfo) -> bool
    decreases a,
{
    &&& a.pid == b.pid
    &&& a.ppid == b.ppid
    &&& a.pgid == b.pgid
    &&& a.name@ == b.name@
    &&& a.executable@ == b.executable@
    &&& a.argv@ == b.argv@
    &&& a.cwd@ == b.cwd@
    &&& a.status == b.status
    &&& a.start_time == b.start_time
    &&& a.children@.dom() == b.children@.dom()
    &&& forall|pid: u32| #[trigger]
        a.children@.contains_key(pid) ==> alike(a.children@[pid], b.children@[pid])
}

impl Clone for LocalProcessInfo {
    fn clone(&self) -> (copy: Self)
        ensures
            alike(*self, copy),
        decreases self,
    {
        let mut children: HashMap<u32, LocalProcessInfo> = HashMap::new();
        for entry in it: self.children.iter()
            invariant
                forall|i: int|
                    0 <= i < it.seq().len() ==> self.children@.contains_key(
                        *(#[trigger] it.seq()[i]).0,
                    ) && self.children@[*it.seq()[i].0] == *it.seq()[i].1,
                forall|pid: u32| #[trigger]
                    self.children@.contains_key(pid) ==> it.seq().contains(
                        (&pid, &self.children@[pid]),
                    ),
                forall|i: int|
                    0 <= i < it.index() ==> children@.contains_key(*(#[trigger] it.seq()[i]).0),
                forall|pid: u32| #[trigger]
                    children@.contains_key(pid) ==> self.children@.contains_key(pid) && alike(
                        self.children@[pid],
                        children@[pid],
                    ),
                it.index() == it.seq().len() ==> children@.dom() =~= self.children@.dom(),
        {
            assert(self.children@[*entry.0] == *entry.1);
            let child = entry.1.clone();
            children.insert(*entry.0, child);
            assert forall|pid: u32| #[trigger]
                self.children@.contains_key(pid) && it.index() + 1
                    == it.seq().len() implies children@.contains_key(pid) by {
                assert(it.seq().contains((&pid, &self.children@[pid])));
            }
        }
        LocalProcessInfo {
            pid: self.pid,
            ppid: self.ppid,
            pgid: self.pgid,
            name: self.name.clone(),
            executable: self.executable.clone(),
            argv: self.argv.clone(),
            cwd: self.cwd.clone(),
            status: self.status,
            start_time: self.start_time,
            children,
        }
    }
}

// ---- Laws ----

/// The names of a group are among the names of the whole tree.
pub proof fn law_group_names_are_names(root: LocalProcessInfo, pgid: u32)
    ensures
        exe_names(root, Some(pgid)).subset_of(exe_names(root, None)),
{
}

/// The names of the whole tree are the names of its groups taken together.
pub proof fn law_names_come_from_groups(root: LocalProcessInfo, name: Seq<char>)
    ensures
        exe_names(root, None).contains(name) <==> exists|pgid: u32| #[trigger]
            exe_names(root, Some(pgid)).contains(name),
{
    if has_exe_name(root, None, name) {
        let p = choose|p: LocalProcessInfo| #[trigger]
            in_tree(root, p) && p.exe_name() == Some(name);
        assert(exe_names(root, Some(p.pgid)).contains(name));
    }
}

/// Where all processes of a tree are in one group, the names of that group are all names.
pub proof fn law_tree_of_one_group_shows_all_names(root: LocalProcessInfo, pgid: u32)
    requires
        forall|p: LocalProcessInfo| #[trigger] in_tree(root, p) ==> p.pgid == pgid,
    ensures
        exe_names(root, Some(pgid)) == exe_names(root, None),
{
    assert forall|name: Seq<char>|
        has_exe_name(root, None, name) implies has_exe_name(root, Some(pgid), name) by {
        let p = choose|p: LocalProcessInfo| #[trigger]
            in_tree(root, p) && p.exe_name() == Some(name);
        assert(in_tree(root, p));
    }
    assert(exe_names(root, Some(pgid)) =~= exe_names(root, None));
}

/// Whether a process of the tree that `root` heads, and of the group where one is given, runs the
/// executable at `executable`.
pub open spec fn runs(root: LocalProcessInfo, group: Option<u32>, executable: Seq<u8>) -> bool {
    exists|p: LocalProcessInfo| #[trigger]
        in_tree(root, p) && (group is None || p.pgid == group->0) && p.executable@ == executable
}

/// The names depend on the executables alone, and those of a group on what that group runs: two
/// trees that run the same executables there, whatever their shape and whatever else runs in them,
/// give the same names.
pub proof fn law_group_ignores_other_groups(
    a: LocalProcessInfo,
    b: LocalProcessInfo,
    group: Option<u32>,
)
    requires
        forall|executable: Seq<u8>| #[trigger]
            runs(a, group, executable) <==> #[trigger] runs(b, group, executable),
    ensures
        exe_names(a, group) == exe_names(b, group),
{
    assert forall|name: Seq<char>|
        has_exe_name(a, group, name) <==> has_exe_name(b, group, name) by {
        if has_exe_name(a, group, name) {
            lemma_name_is_that_of_an_executable(a, b, group, name);
        }
        if has_exe_name(b, group, name) {
            lemma_name_is_that_of_an_executable(b, a, group, name);
        }
    }
    assert(exe_names(a, group) =~= exe_names(b, group));
}

/// A name in one tree is in any other that runs the same executables.
proof fn lemma_name_is_that_of_an_executable(
    a: LocalProcessInfo,
    b: LocalProcessInfo,
    group: Option<u32>,
    name: Seq<char>,
)
    requires
        has_exe_name(a, group, name),
        forall|executable: Seq<u8>| #[trigger]
            runs(a, group, executable) ==> runs(b, group, executable),
    ensures
        has_exe_name(b, group, name),
{
    let p = choose|p: LocalProcessInfo| #[trigger]
        in_tree(a, p) && (group is None || p.pgid == group->0) && p.exe_name() == Some(name);
    assert(runs(a, group, p.executable@));
    assert(runs(b, group, p.executable@));
    let q = choose|q: LocalProcessInfo| #[trigger]
        in_tree(b, q) && (group is None || q.pgid == group->0) && q.executable@ == p.executable@;
    assert(q.exe_name() == Some(name));
}

/// A copy of a tree, and any tree that says the same, has the same names, group by group.
pub proof fn law_alike_trees_have_the_same_names(
    a: LocalProcessInfo,
    b: LocalProcessInfo,
    group: Option<u32>,
)
    requires
        alike(a, b),
    ensures
        exe_names(a, group) == exe_names(b, group),
{
    assert forall|name: Seq<char>|
        has_exe_name(a, group, name) <==> has_exe_name(b, group, name) by {
        lemma_alike_name(a, b, group, name);
    }
    assert(exe_names(a, group) =~= exe_names(b, group));
}

proof fn lemma_alike_name(
    a: LocalProcessInfo,
    b: LocalProcessInfo,
    group: Option<u32>,
    name: Seq<char>,
)
    requires
        alike(a, b),
    ensures
        has_exe_name(a, group, name) <==> has_exe_name(b, group, name),
    decreases a,
{
    lemma_names_by_child(a, group, name);
    lemma_names_by_child(b, group, name);
    assert forall|pid: u32| #[trigger] a.children@.contains_key(pid) implies has_exe_name(
        a.children@[pid],
        group,
        name,
    ) <==> has_exe_name(b.children@[pid], group, name) by {
        lemma_alike_name(a.children@[pid], b.children@[pid], group, name);
    }
    if exists|child: LocalProcessInfo| #[trigger]
        a.children@.values().contains(child) && has_exe_name(child, group, name) {
        let child = choose|child: LocalProcessInfo| #[trigger]
            a.children@.values().contains(child) && has_exe_name(child, group, name);
        let pid = choose|pid: u32| #[trigger]
            a.children@.contains_key(pid) && a.children@[pid] == child;
        assert(b.children@.contains_key(pid));
        assert(b.children@.values().contains(b.children@[pid]));
    }
    if exists|child: LocalProcessInfo| #[trigger]
        b.children@.values().contains(child) && has_exe_name(child, group, name) {
        let child = choose|child: LocalProcessInfo| #[trigger]
            b.children@.values().contains(child) && has_exe_name(child, group, name);
        let pid = choose|pid: u32| #[trigger]
            b.children@.contains_key(pid) && b.children@[pid] == child;
        assert(a.children@.contains_key(pid));
        assert(a.children@.values().contains(a.children@[pid]));
    }
}

/// The names in a tree are the name of its root, where the root is in the group that is asked for
/// and its executable has a file name, and the names in the trees of the root's children, and no
/// other. A name is the whole file name, read as text.
pub proof fn law_names_are_those_of_root_and_children(
    root: LocalProcessInfo,
    group: Option<u32>,
    name: Seq<char>,
)
    ensures
        exe_names(root, group).contains(name) <==> {
            ||| (group is None || group == Some(root.pgid)) && exists|file_name: Seq<u8>|
                base_name(root.executable@) == Some(file_name) && #[trigger] readable(file_name)
                    == name
            ||| exists|pid: u32| #[trigger]
                root.children@.contains_key(pid) && exe_names(
                    root.children@[pid],
                    group,
                ).contains(name)
        },
{
    lemma_names_by_child(root, group, name);
    if own_name(root, group, name) {
        assert(readable(base_name(root.executable@)->0) == name);
    }
    if exists|child: LocalProcessInfo| #[trigger]
        root.children@.values().contains(child) && has_exe_name(child, group, name) {
        let child = choose|child: LocalProcessInfo| #[trigger]
            root.children@.values().contains(child) && has_exe_name(child, group, name);
        let pid = choose|pid: u32| #[trigger]
            root.children@.contains_key(pid) && root.children@[pid] == child;
        assert(root.children@.contains_key(pid));
        assert(exe_names(root.children@[pid], group).contains(name));
    }
    if exists|pid: u32| #[trigger]
        root.children@.contains_key(pid) && exe_names(root.children@[pid], group).contains(name) {
        let pid = choose|pid: u32| #[trigger]
            root.children@.contains_key(pid) && exe_names(root.children@[pid], group).contains(
                name,
            );
        assert(root.children@.values().contains(root.children@[pid]));
        assert(has_exe_name(root.children@[pid], group, name));
    }
}

/// A process whose executable is in some directory under a name that is a text brings just that
/// name, whole, wherever in the tree it is.
pub proof fn law_whole_file_name_is_among_the_names(
    root: LocalProcessInfo,
    p: LocalProcessInfo,
    dir: Seq<u8>,
    name: Seq<char>,
)
    requires
        in_tree(root, p),
        p.executable@ == joined_path(dir, encode_utf8(name)),
        encode_utf8(name).len() > 0,
        !encode_utf8(name).contains(47u8),
        encode_utf8(name) != seq![46u8],
        encode_utf8(name) != seq![46u8, 46u8],
    ensures
        p.exe_name() == Some(name),
        exe_names(root, None).contains(name),
        exe_names(root, Some(p.pgid)).contains(name),
{
    assert(plain_name(encode_utf8(name)));
    law_joined_name_is_file_name(dir, encode_utf8(name));
    law_bytes_of_a_text_are_read_as_it(name, encode_utf8(name));
}

/// A process heads its own tree, and the trees of its children are in it, and nothing else is.
pub proof fn law_tree_is_root_and_children(root: LocalProcessInfo, p: LocalProcessInfo)
    ensures
        in_tree(root, root),
        in_tree(root, p) <==> p == root || exists|pid: u32| #[trigger]
            root.children@.contains_key(pid) && in_tree(root.children@[pid], p),
{
}

/// Trees that say the same agree in every field of the root, and have children under the same
/// identifiers, which say the same in turn.
pub proof fn law_alike_trees_agree_throughout(
    a: LocalProcessInfo,
    b: LocalProcessInfo,
    pid: u32,
)
    requires
        alike(a, b),
    ensures
        a.pid == b.pid && a.ppid == b.ppid && a.pgid == b.pgid,
        a.name@ == b.name@,
        a.executable@ == b.executable@,
        a.argv@ == b.argv@,
        a.cwd@ == b.cwd@,
        a.status == b.status,
        a.start_time == b.start_time,
        a.children@.contains_key(pid) <==> b.children@.contains_key(pid),
        a.children@.contains_key(pid) ==> alike(a.children@[pid], b.children@[pid]),
{
}

} // verus!
