//! Process snapshots and the heuristics that pick lock-owner candidates.

use vstd::prelude::*;
use crate::text::{contains, contains_seq, directory, directory_of, lower_of, lowercase, views_of};

verus! {

/// One process as a snapshot saw it.
#[derive(Debug, Clone)]
pub struct ProcessInfo {
    pub pid: u32,
    pub name: String,
    pub path: Option<String>,
    pub parent_pid: u32,
}

/// One thread as a thread snapshot saw it.
#[derive(Debug, Clone, Copy, PartialEq, Eq, Structural)]
pub struct ThreadEntry {
    pub thread_id: u32,
    pub owner_pid: u32,
}

/// The name lists that drive candidate selection. Patterns are matched
/// against lower-cased process names, so they are written in lower case.
#[derive(Debug, Clone)]
pub struct LockConfig {
    /// Applications known to hold files open.
    pub deny_list: Vec<String>,
    /// Processes that are never acted upon.
    pub critical: Vec<String>,
    /// The interactive shell, spared until the forced phase.
    pub shell_pattern: String,
}

/// `name` contains one of `pats`.
pub open spec fn matches_any(name: Seq<char>, pats: Seq<String>) -> bool {
    exists|j: int| 0 <= j < pats.len() && contains_seq(name, #[trigger] pats[j]@)
}

/// The lower-cased directory of an executable path, if there is a path.
pub open spec fn lowered_dir(path: Option<String>) -> Option<Seq<char>> {
    match path {
        Some(p) => Some(lower_of(directory_of(p@))),
        None => None,
    }
}

/// Two lower-cased directories name the same non-empty place.
pub open spec fn same_directory(dir: Option<Seq<char>>, target_dir: Seq<char>) -> bool {
    match dir {
        Some(d) => d.len() > 0 && target_dir.len() > 0 && d == target_dir,
        None => false,
    }
}

/// The selection rule on values already lower-cased: deny-listed or beside
/// the target, and never critical.
pub open spec fn selection_rule(
    lname: Seq<char>,
    ldir: Option<Seq<char>>,
    ltarget_dir: Seq<char>,
    cfg: LockConfig,
) -> bool {
    &&& (matches_any(lname, cfg.deny_list@) || same_directory(ldir, ltarget_dir))
    &&& !matches_any(lname, cfg.critical@)
}

/// The process runs from the directory that holds `target`.
pub open spec fn shares_directory(p: ProcessInfo, target: Seq<char>) -> bool {
    same_directory(lowered_dir(p.path), lower_of(directory_of(target)))
}

/// The process's name matches the critical exclusion set.
pub open spec fn is_critical(p: ProcessInfo, cfg: LockConfig) -> bool {
    matches_any(lower_of(p.name@), cfg.critical@)
}

/// The process's name matches the shell-exclusion pattern.
pub open spec fn is_shell(p: ProcessInfo, cfg: LockConfig) -> bool {
    contains_seq(lower_of(p.name@), cfg.shell_pattern@)
}

/// The process is a lock-owner candidate for `target`.
pub open spec fn is_candidate(p: ProcessInfo, target: Seq<char>, cfg: LockConfig) -> bool {
    selection_rule(lower_of(p.name@), lowered_dir(p.path), lower_of(directory_of(target)), cfg)
}

/// Some entry of the snapshot with this pid has a name matching `pats`.
pub open spec fn pid_named(s: Seq<ProcessInfo>, pid: u32, pats: Seq<String>) -> bool {
    exists|j: int| 0 <= j < s.len() && #[trigger] s[j].pid == pid && matches_any(lower_of(s[j].name@), pats)
}

/// Some entry of the snapshot with this pid is the shell.
pub open spec fn pid_is_shell(s: Seq<ProcessInfo>, pid: u32, cfg: LockConfig) -> bool {
    exists|j: int| 0 <= j < s.len() && #[trigger] s[j].pid == pid && is_shell(s[j], cfg)
}

/// Entry `p` of snapshot `full` is selected: a candidate whose pid no
/// critical entry of the snapshot carries.
pub open spec fn chosen(p: ProcessInfo, full: Seq<ProcessInfo>, target: Seq<char>, cfg: LockConfig) -> bool {
    is_candidate(p, target, cfg) && !pid_named(full, p.pid, cfg.critical@)
}

/// Entry `p` of snapshot `full` is terminated gracefully: selected, and its
/// pid carried by no shell entry.
pub open spec fn spared_not(p: ProcessInfo, full: Seq<ProcessInfo>, target: Seq<char>, cfg: LockConfig) -> bool {
    chosen(p, full, target, cfg) && !pid_is_shell(full, p.pid, cfg)
}

/// The pids of the entries of `part` selected within snapshot `full`, in order.
pub open spec fn chosen_pids(part: Seq<ProcessInfo>, full: Seq<ProcessInfo>, target: Seq<char>, cfg: LockConfig) -> Seq<u32>
    decreases part.len(),
{
    if part.len() == 0 {
        Seq::empty()
    } else {
        let rest = chosen_pids(part.drop_last(), full, target, cfg);
        if chosen(part.last(), full, target, cfg) {
            rest.push(part.last().pid)
        } else {
            rest
        }
    }
}

/// The pids of the entries of `part` terminated gracefully within snapshot
/// `full`, in order.
pub open spec fn spared_pids(part: Seq<ProcessInfo>, full: Seq<ProcessInfo>, target: Seq<char>, cfg: LockConfig) -> Seq<u32>
    decreases part.len(),
{
    if part.len() == 0 {
        Seq::empty()
    } else {
        let rest = spared_pids(part.drop_last(), full, target, cfg);
        if spared_not(part.last(), full, target, cfg) {
            rest.push(part.last().pid)
        } else {
            rest
        }
    }
}

/// The lock-owner candidates of a snapshot, in snapshot order.
pub open spec fn candidate_pids(s: Seq<ProcessInfo>, target: Seq<char>, cfg: LockConfig) -> Seq<u32> {
    chosen_pids(s, s, target, cfg)
}

/// The candidates of a snapshot that are not the shell, in snapshot order.
pub open spec fn graceful_pids(s: Seq<ProcessInfo>, target: Seq<char>, cfg: LockConfig) -> Seq<u32> {
    spared_pids(s, s, target, cfg)
}

impl LockConfig {
    /// The lists for a Windows desktop: editors, office suites, browsers and
    /// media players as lock owners; kernel, session and service hosts as
    /// critical; Explorer as the shell.
    pub fn windows_desktop() -> (r: LockConfig)
        ensures
            views_of(r.deny_list@) == seq![
                "explorer"@,
                "notepad"@,
                "wordpad"@,
                "winword"@,
                "excel"@,
                "powerpnt"@,
                "outlook"@,
                "acrobat"@,
                "chrome"@,
                "firefox"@,
                "edge"@,
                "photoshop"@,
                "vlc"@,
                "media"@,
            ],
            views_of(r.critical@) == seq![
                "system"@,
                "csrss"@,
                "winlogon"@,
                "services"@,
                "svchost"@,
                "dwm"@,
                "wininit"@,
            ],
            r.shell_pattern@ == "explorer"@,
    {
        let mut deny: Vec<String> = Vec::new();
        deny.push("explorer".to_owned());
        deny.push("notepad".to_owned());
        deny.push("wordpad".to_owned());
        deny.push("winword".to_owned());
        deny.push("excel".to_owned());
        deny.push("powerpnt".to_owned());
        deny.push("outlook".to_owned());
        deny.push("acrobat".to_owned());
        deny.push("chrome".to_owned());
        deny.push("firefox".to_owned());
        deny.push("edge".to_owned());
        deny.push("photoshop".to_owned());
        deny.push("vlc".to_owned());
        deny.push("media".to_owned());
        let mut critical: Vec<String> = Vec::new();
        critical.push("system".to_owned());
        critical.push("csrss".to_owned());
        critical.push("winlogon".to_owned());
        critical.push("services".to_owned());
        critical.push("svchost".to_owned());
        critical.push("dwm".to_owned());
        critical.push("wininit".to_owned());
        let r = LockConfig { deny_list: deny, critical, shell_pattern: "explorer".to_owned() };
        assert(views_of(r.deny_list@) =~= seq![
            "explorer"@,
            "notepad"@,
            "wordpad"@,
            "winword"@,
            "excel"@,
            "powerpnt"@,
            "outlook"@,
            "acrobat"@,
            "chrome"@,
            "firefox"@,
            "edge"@,
            "photoshop"@,
            "vlc"@,
            "media"@,
        ]);
        assert(views_of(r.critical@) =~= seq![
            "system"@,
            "csrss"@,
            "winlogon"@,
            "services"@,
            "svchost"@,
            "dwm"@,
            "wininit"@,
        ]);
        r
    }
}

/// The names whose termination asks for confirmation first.
pub fn emergency_warning_names() -> (r: Vec<String>)
    ensures
        views_of(r@) == seq!["system"@, "csrss"@, "winlogon"@, "services"@],
{
    let mut v: Vec<String> = Vec::new();
    v.push("system".to_owned());
    v.push("csrss".to_owned());
    v.push("winlogon".to_owned());
    v.push("services".to_owned());
    assert(views_of(v@) =~= seq!["system"@, "csrss"@, "winlogon"@, "services"@]);
    v
}

/// The names counted as system processes in a status report.
pub fn system_process_names() -> (r: Vec<String>)
    ensures
        views_of(r@) == seq!["system"@, "svchost"@, "csrss"@],
{
    let mut v: Vec<String> = Vec::new();
    v.push("system".to_owned());
    v.push("svchost".to_owned());
    v.push("csrss".to_owned());
    assert(views_of(v@) =~= seq!["system"@, "svchost"@, "csrss"@]);
    v
}

/// Does `name` contain one of `pats`?
pub fn matches_any_pattern(name: &str, pats: &Vec<String>) -> (r: bool)
    ensures
        r == matches_any(name@, pats@),
{
    let mut j: usize = 0;
    while j < pats.len()
        invariant
            j <= pats@.len(),
            forall|k: int| 0 <= k < j ==> !contains_seq(name@, #[trigger] pats@[k]@),
        decreases pats@.len() - j,
    {
        if contains(name, pats[j].as_str()) {
            return true;
        }
        j = j + 1;
    }
    false
}

/// Does the lower-cased `name` contain one of `pats`?
pub fn name_matches(name: &str, pats: &Vec<String>) -> (r: bool)
    ensures
        r == matches_any(lower_of(name@), pats@),
{
    let l = lowercase(name);
    matches_any_pattern(l.as_str(), pats)
}

/// The selection rule, on a lower-cased name, the lower-cased directory of
/// the executable (if known) and the lower-cased directory of the target.
pub fn is_selected(lname: &str, ldir: &Option<String>, ltarget_dir: &str, cfg: &LockConfig) -> (r: bool)
    ensures
        r == selection_rule(
            lname@,
            match ldir {
                Some(d) => Some(d@),
                None => None,
            },
            ltarget_dir@,
            *cfg,
        ),
{
    if matches_any_pattern(lname, &cfg.critical) {
        return false;
    }
    if matches_any_pattern(lname, &cfg.deny_list) {
        return true;
    }
    match ldir {
        Some(d) => {
            let n = d.as_str().unicode_len();
            let m = ltarget_dir.unicode_len();
            n > 0 && m > 0 && *d == ltarget_dir.to_owned()
        },
        None => false,
    }
}

/// The lower-cased directory of an executable path.
fn executable_dir(path: &Option<String>) -> (r: Option<String>)
    ensures
        match r {
            Some(d) => lowered_dir(*path) == Some(d@),
            None => lowered_dir(*path) is None,
        },
{
    match path {
        Some(p) => {
            let d = directory(p.as_str());
            Some(lowercase(d.as_str()))
        },
        None => None,
    }
}

/// Does some entry of `snapshot` with this pid have a name matching `pats`?
pub fn pid_has_name(snapshot: &Vec<ProcessInfo>, pid: u32, pats: &Vec<String>) -> (r: bool)
    ensures
        r == pid_named(snapshot@, pid, pats@),
{
    let mut j: usize = 0;
    while j < snapshot.len()
        invariant
            j <= snapshot@.len(),
            forall|k: int|
                0 <= k < j && #[trigger] snapshot@[k].pid == pid ==> !matches_any(lower_of(snapshot@[k].name@), pats@),
        decreases snapshot@.len() - j,
    {
        if snapshot[j].pid == pid && name_matches(snapshot[j].name.as_str(), pats) {
            return true;
        }
        j = j + 1;
    }
    false
}

/// Is some entry of `snapshot` with this pid the shell?
pub fn pid_has_shell(snapshot: &Vec<ProcessInfo>, pid: u32, cfg: &LockConfig) -> (r: bool)
    ensures
        r == pid_is_shell(snapshot@, pid, *cfg),
{
    let mut j: usize = 0;
    while j < snapshot.len()
        invariant
            j <= snapshot@.len(),
            forall|k: int| 0 <= k < j && #[trigger] snapshot@[k].pid == pid ==> !is_shell(snapshot@[k], *cfg),
        decreases snapshot@.len() - j,
    {
        if snapshot[j].pid == pid {
            let lname = lowercase(snapshot[j].name.as_str());
            if contains(lname.as_str(), cfg.shell_pattern.as_str()) {
                return true;
            }
        }
        j = j + 1;
    }
    false
}

/// Selects the processes of `snapshot` that may hold `target` open: those
/// whose name matches the deny list or whose executable lives in the
/// target's directory, minus any pid that an entry whose name matches the
/// critical set carries.
pub fn find_file_lock_owners(snapshot: &Vec<ProcessInfo>, target: &str, cfg: &LockConfig) -> (r: Vec<u32>)
    ensures
        r@ == candidate_pids(snapshot@, target@, *cfg),
{
    let tdir = directory(target);
    let ltarget = lowercase(tdir.as_str());
    let mut out: Vec<u32> = Vec::new();
    let mut i: usize = 0;
    while i < snapshot.len()
        invariant
            i <= snapshot@.len(),
            ltarget@ == lower_of(directory_of(target@)),
            out@ == chosen_pids(snapshot@.subrange(0, i as int), snapshot@, target@, *cfg),
        decreases snapshot@.len() - i,
    {
        let p = &snapshot[i];
        let lname = lowercase(p.name.as_str());
        let ldir = executable_dir(&p.path);
        let chosen = is_selected(lname.as_str(), &ldir, ltarget.as_str(), cfg) && !pid_has_name(
            snapshot,
            p.pid,
            &cfg.critical,
        );
        assert(snapshot@.subrange(0, i + 1).drop_last() =~= snapshot@.subrange(0, i as int));
        if chosen {
            out.push(p.pid);
        }
        i = i + 1;
    }
    assert(snapshot@.subrange(0, snapshot@.len() as int) =~= snapshot@);
    out
}

/// Of the candidates of `snapshot` for `target`, those whose pid no shell
/// entry carries.
pub fn graceful_targets(snapshot: &Vec<ProcessInfo>, target: &str, cfg: &LockConfig) -> (r: Vec<u32>)
    ensures
        r@ == graceful_pids(snapshot@, target@, *cfg),
{
    let tdir = directory(target);
    let ltarget = lowercase(tdir.as_str());
    let mut out: Vec<u32> = Vec::new();
    let mut i: usize = 0;
    while i < snapshot.len()
        invariant
            i <= snapshot@.len(),
            ltarget@ == lower_of(directory_of(target@)),
            out@ == spared_pids(snapshot@.subrange(0, i as int), snapshot@, target@, *cfg),
        decreases snapshot@.len() - i,
    {
        let p = &snapshot[i];
        let lname = lowercase(p.name.as_str());
        let ldir = executable_dir(&p.path);
        let chosen = is_selected(lname.as_str(), &ldir, ltarget.as_str(), cfg) && !pid_has_name(
            snapshot,
            p.pid,
            &cfg.critical,
        ) && !pid_has_shell(snapshot, p.pid, cfg);
        assert(snapshot@.subrange(0, i + 1).drop_last() =~= snapshot@.subrange(0, i as int));
        if chosen {
            out.push(p.pid);
        }
        i = i + 1;
    }
    assert(snapshot@.subrange(0, snapshot@.len() as int) =~= snapshot@);
    out
}

/// Some entry of `part` that is selected within `full` carries `pid`.
pub open spec fn pid_of_chosen(part: Seq<ProcessInfo>, full: Seq<ProcessInfo>, pid: u32, target: Seq<char>, cfg: LockConfig) -> bool {
    exists|k: int| 0 <= k < part.len() && #[trigger] part[k].pid == pid && chosen(part[k], full, target, cfg)
}

/// Every pid that selection returns belongs to a selected entry.
pub proof fn lemma_selected_are_chosen(part: Seq<ProcessInfo>, full: Seq<ProcessInfo>, target: Seq<char>, cfg: LockConfig)
    ensures
        forall|j: int|
            0 <= j < chosen_pids(part, full, target, cfg).len() ==> pid_of_chosen(
                part,
                full,
                #[trigger] chosen_pids(part, full, target, cfg)[j],
                target,
                cfg,
            ),
    decreases part.len(),
{
    if part.len() > 0 {
        lemma_selected_are_chosen(part.drop_last(), full, target, cfg);
        let rest = chosen_pids(part.drop_last(), full, target, cfg);
        let all = chosen_pids(part, full, target, cfg);
        assert forall|j: int| 0 <= j < all.len() implies pid_of_chosen(part, full, #[trigger] all[j], target, cfg) by {
            if j < rest.len() {
                assert(pid_of_chosen(part.drop_last(), full, rest[j], target, cfg));
                let k = choose|k: int|
                    0 <= k < part.drop_last().len() && #[trigger] part.drop_last()[k].pid == rest[j]
                        && chosen(part.drop_last()[k], full, target, cfg);
                assert(part[k] == part.drop_last()[k]);
                assert(all[j] == rest[j]);
                assert(part[k].pid == all[j]);
            } else {
                let k = part.len() - 1;
                assert(part[k].pid == all[j]);
            }
        }
    }
}

/// Every selected entry has its pid among the selected.
pub proof fn lemma_chosen_selected(part: Seq<ProcessInfo>, full: Seq<ProcessInfo>, target: Seq<char>, cfg: LockConfig, i: int)
    requires
        0 <= i < part.len(),
        chosen(part[i], full, target, cfg),
    ensures
        chosen_pids(part, full, target, cfg).contains(part[i].pid),
    decreases part.len(),
{
    let rest = chosen_pids(part.drop_last(), full, target, cfg);
    if i == part.len() - 1 {
        assert(chosen_pids(part, full, target, cfg)[rest.len() as int] == part[i].pid);
    } else {
        assert(part.drop_last()[i] == part[i]);
        lemma_chosen_selected(part.drop_last(), full, target, cfg, i);
        let k = choose|k: int| 0 <= k < rest.len() && rest[k] == part[i].pid;
        assert(chosen_pids(part, full, target, cfg)[k] == part[i].pid);
    }
}

/// A candidate whose pid no critical entry carries is among the selected.
pub proof fn lemma_candidate_selected(s: Seq<ProcessInfo>, target: Seq<char>, cfg: LockConfig, i: int)
    requires
        0 <= i < s.len(),
        is_candidate(s[i], target, cfg),
        !pid_named(s, s[i].pid, cfg.critical@),
    ensures
        candidate_pids(s, target, cfg).contains(s[i].pid),
{
    lemma_chosen_selected(s, s, target, cfg, i);
}

/// A process that runs from the target's directory is among the candidates,
/// unless a process with its pid has a critical name.
pub proof fn lemma_directory_match_selected(s: Seq<ProcessInfo>, target: Seq<char>, cfg: LockConfig, i: int)
    requires
        0 <= i < s.len(),
        shares_directory(s[i], target),
        !pid_named(s, s[i].pid, cfg.critical@),
    ensures
        candidate_pids(s, target, cfg).contains(s[i].pid),
{
    if is_critical(s[i], cfg) {
        assert(pid_named(s, s[i].pid, cfg.critical@));
    }
    lemma_candidate_selected(s, target, cfg, i);
}

/// No process whose name matches the critical set is ever selected, whatever
/// its directory: its pid is not among the candidates.
pub proof fn lemma_critical_never_selected(s: Seq<ProcessInfo>, target: Seq<char>, cfg: LockConfig, i: int)
    requires
        0 <= i < s.len(),
        is_critical(s[i], cfg),
    ensures
        !candidate_pids(s, target, cfg).contains(s[i].pid),
{
    lemma_selected_are_chosen(s, s, target, cfg);
    let out = candidate_pids(s, target, cfg);
    if out.contains(s[i].pid) {
        let j = choose|j: int| 0 <= j < out.len() && out[j] == s[i].pid;
        assert(pid_of_chosen(s, s, out[j], target, cfg));
        let k = choose|k: int| 0 <= k < s.len() && #[trigger] s[k].pid == out[j] && chosen(s[k], s, target, cfg);
        assert(pid_named(s, s[k].pid, cfg.critical@)) by {
            assert(s[i].pid == s[k].pid);
        }
    }
}

/// Some entry of `part` terminated gracefully within `full` carries `pid`.
pub open spec fn pid_of_spared(part: Seq<ProcessInfo>, full: Seq<ProcessInfo>, pid: u32, target: Seq<char>, cfg: LockConfig) -> bool {
    exists|k: int| 0 <= k < part.len() && #[trigger] part[k].pid == pid && spared_not(part[k], full, target, cfg)
}

/// Every pid of the graceful set belongs to an entry terminated gracefully.
pub proof fn lemma_graceful_are_spared(part: Seq<ProcessInfo>, full: Seq<ProcessInfo>, target: Seq<char>, cfg: LockConfig)
    ensures
        forall|j: int|
            0 <= j < spared_pids(part, full, target, cfg).len() ==> pid_of_spared(
                part,
                full,
                #[trigger] spared_pids(part, full, target, cfg)[j],
                target,
                cfg,
            ),
    decreases part.len(),
{
    if part.len() > 0 {
        lemma_graceful_are_spared(part.drop_last(), full, target, cfg);
        let rest = spared_pids(part.drop_last(), full, target, cfg);
        let all = spared_pids(part, full, target, cfg);
        assert forall|j: int| 0 <= j < all.len() implies pid_of_spared(part, full, #[trigger] all[j], target, cfg) by {
            if j < rest.len() {
                assert(pid_of_spared(part.drop_last(), full, rest[j], target, cfg));
                let k = choose|k: int|
                    0 <= k < part.drop_last().len() && #[trigger] part.drop_last()[k].pid == rest[j]
                        && spared_not(part.drop_last()[k], full, target, cfg);
                assert(part[k] == part.drop_last()[k]);
                assert(all[j] == rest[j]);
                assert(part[k].pid == all[j]);
            } else {
                let k = part.len() - 1;
                assert(part[k].pid == all[j]);
            }
        }
    }
}

/// The shell's pid is never in the graceful set.
pub proof fn lemma_shell_spared(s: Seq<ProcessInfo>, target: Seq<char>, cfg: LockConfig, i: int)
    requires
        0 <= i < s.len(),
        is_shell(s[i], cfg),
    ensures
        !graceful_pids(s, target, cfg).contains(s[i].pid),
{
    lemma_graceful_are_spared(s, s, target, cfg);
    let out = graceful_pids(s, target, cfg);
    if out.contains(s[i].pid) {
        let j = choose|j: int| 0 <= j < out.len() && out[j] == s[i].pid;
        assert(pid_of_spared(s, s, out[j], target, cfg));
        let k = choose|k: int| 0 <= k < s.len() && #[trigger] s[k].pid == out[j] && spared_not(s[k], s, target, cfg);
        assert(pid_is_shell(s, s[k].pid, cfg)) by {
            assert(s[i].pid == s[k].pid);
        }
    }
}

/// The first entry of `s` with the given pid, if any.
pub open spec fn first_with_pid(s: Seq<ProcessInfo>, pid: u32, i: int) -> bool {
    &&& 0 <= i < s.len()
    &&& s[i].pid == pid
    &&& forall|k: int| 0 <= k < i ==> #[trigger] s[k].pid != pid
}

/// Looks up the process with the given pid in a snapshot.
pub fn get_process_details(snapshot: &Vec<ProcessInfo>, pid: u32) -> (r: Option<&ProcessInfo>)
    ensures
        match r {
            Some(p) => exists|i: int| first_with_pid(snapshot@, pid, i) && *p == snapshot@[i],
            None => forall|k: int| 0 <= k < snapshot@.len() ==> #[trigger] snapshot@[k].pid != pid,
        },
{
    let mut i: usize = 0;
    while i < snapshot.len()
        invariant
            i <= snapshot@.len(),
            forall|k: int| 0 <= k < i ==> #[trigger] snapshot@[k].pid != pid,
        decreases snapshot@.len() - i,
    {
        if snapshot[i].pid == pid {
            assert(first_with_pid(snapshot@, pid, i as int));
            return Some(&snapshot[i]);
        }
        i = i + 1;
    }
    None
}

/// The ids of the threads owned by `pid`, in snapshot order.
pub open spec fn threads_of(t: Seq<ThreadEntry>, pid: u32) -> Seq<u32>
    decreases t.len(),
{
    if t.len() == 0 {
        Seq::empty()
    } else if t.last().owner_pid == pid {
        threads_of(t.drop_last(), pid).push(t.last().thread_id)
    } else {
        threads_of(t.drop_last(), pid)
    }
}

/// Filters a thread snapshot down to the threads of one process.
pub fn threads_owned_by(threads: &Vec<ThreadEntry>, pid: u32) -> (r: Vec<u32>)
    ensures
        r@ == threads_of(threads@, pid),
{
    let mut out: Vec<u32> = Vec::new();
    let mut i: usize = 0;
    while i < threads.len()
        invariant
            i <= threads@.len(),
            out@ == threads_of(threads@.subrange(0, i as int), pid),
        decreases threads@.len() - i,
    {
        assert(threads@.subrange(0, i + 1).drop_last() =~= threads@.subrange(0, i as int));
        if threads[i].owner_pid == pid {
            out.push(threads[i].thread_id);
        }
        i = i + 1;
    }
    assert(threads@.subrange(0, threads@.len() as int) =~= threads@);
    out
}

/// The process's lower-cased name or path contains the lower-cased pattern.
pub open spec fn matches_search(p: ProcessInfo, pattern: Seq<char>) -> bool {
    ||| contains_seq(lower_of(p.name@), lower_of(pattern))
    ||| (p.path matches Some(path) && contains_seq(lower_of(path@), lower_of(pattern)))
}

/// The indices of the entries of `s` that match the search pattern.
pub open spec fn search_hits(s: Seq<ProcessInfo>, pattern: Seq<char>) -> Seq<usize>
    decreases s.len(),
{
    if s.len() == 0 {
        Seq::empty()
    } else if matches_search(s.last(), pattern) {
        search_hits(s.drop_last(), pattern).push((s.len() - 1) as usize)
    } else {
        search_hits(s.drop_last(), pattern)
    }
}

/// Finds the processes whose name or executable path contains `pattern`,
/// ignoring case; returns their indices in the snapshot.
pub fn search_processes(snapshot: &Vec<ProcessInfo>, pattern: &str) -> (r: Vec<usize>)
    ensures
        r@ == search_hits(snapshot@, pattern@),
{
    let lpat = lowercase(pattern);
    let mut out: Vec<usize> = Vec::new();
    let mut i: usize = 0;
    while i < snapshot.len()
        invariant
            i <= snapshot@.len(),
            lpat@ == lower_of(pattern@),
            out@ == search_hits(snapshot@.subrange(0, i as int), pattern@),
        decreases snapshot@.len() - i,
    {
        let p = &snapshot[i];
        let lname = lowercase(p.name.as_str());
        let mut hit = contains(lname.as_str(), lpat.as_str());
        if !hit {
            match &p.path {
                Some(path) => {
                    let lpath = lowercase(path.as_str());
                    hit = contains(lpath.as_str(), lpat.as_str());
                },
                None => {},
            }
        }
        let ghost prefix = snapshot@.subrange(0, i + 1);
        assert(prefix.drop_last() =~= snapshot@.subrange(0, i as int));
        assert(prefix.last() == snapshot@[i as int]);
        if hit {
            out.push(i);
        }
        i = i + 1;
    }
    assert(snapshot@.subrange(0, snapshot@.len() as int) =~= snapshot@);
    out
}

/// How many entries of `s` have a lower-cased name matching one of `pats`.
pub open spec fn count_matching(s: Seq<ProcessInfo>, pats: Seq<String>) -> nat
    decreases s.len(),
{
    if s.len() == 0 {
        0
    } else if matches_any(lower_of(s.last().name@), pats) {
        count_matching(s.drop_last(), pats) + 1
    } else {
        count_matching(s.drop_last(), pats)
    }
}

/// Counts the processes of a snapshot whose name matches one of `pats`.
pub fn count_named(snapshot: &Vec<ProcessInfo>, pats: &Vec<String>) -> (r: usize)
    ensures
        r == count_matching(snapshot@, pats@),
{
    let mut n: usize = 0;
    let mut i: usize = 0;
    while i < snapshot.len()
        invariant
            i <= snapshot@.len(),
            n <= i,
            n == count_matching(snapshot@.subrange(0, i as int), pats@),
        decreases snapshot@.len() - i,
    {
        assert(snapshot@.subrange(0, i + 1).drop_last() =~= snapshot@.subrange(0, i as int));
        if name_matches(snapshot[i].name.as_str(), pats) {
            n = n + 1;
        }
        i = i + 1;
    }
    assert(snapshot@.subrange(0, snapshot@.len() as int) =~= snapshot@);
    n
}

} // verus!
