//! What the process table says, and which processes and windows a stop concerns.
//!
//! Enumeration is fallible on purpose: callers that guard the live Riot session must treat
//! "the process table could not be read" as a refusal to proceed, never as "nothing is running".

use vstd::prelude::*;

use crate::number::{decimal, decimal_of};
use crate::text::{eq_ignore_ascii_case, owned, same_folded, views};
use crate::unicode::{from_utf16_lossy, utf16_lossy};

verus! {

/// A running process.
#[derive(Debug, PartialEq, Eq)]
pub struct ProcessRef {
    pub pid: u32,
    pub image: String,
}

/// A running process as a mathematical value.
pub struct ProcessModel {
    pub pid: u32,
    pub image: Seq<char>,
}

impl View for ProcessRef {
    type V = ProcessModel;

    open spec fn view(&self) -> ProcessModel {
        ProcessModel { pid: self.pid, image: self.image@ }
    }
}

impl Clone for ProcessRef {
    fn clone(&self) -> (copy: Self)
        ensures
            copy == *self,
    {
        ProcessRef { pid: self.pid, image: self.image.clone() }
    }
}

/// The process table could not be inspected. Callers that guard the live session must fail
/// closed when this happens.
#[derive(Clone, Copy, Debug, PartialEq, Eq, Structural)]
pub struct SnapshotError {
    pub code: u32,
}

impl SnapshotError {
    /// What the error says.
    pub open spec fn text(self) -> Seq<char> {
        "process enumeration failed (win32 error "@ + decimal(self.code as nat) + ")"@
    }

    /// What the error says.
    pub fn message(self) -> (text: String)
        ensures
            text@ == self.text(),
    {
        let mut text = "process enumeration failed (win32 error ".to_owned();
        text.append(decimal_of(self.code as u64).as_str());
        text.append(")");
        text
    }
}

/// What the system reports when a table of processes has been read to its end.
pub const ERROR_NO_MORE_FILES: u32 = 18;

/// One step of reading the table: `Ok(true)` means that it gave another process, `Ok(false)`
/// that the table ended. Any other failure must never be read as a clean end of the table.
pub fn advance(advanced: bool, code: u32) -> (step: Result<bool, SnapshotError>)
    ensures
        step == (if advanced {
            Ok(true)
        } else if code == ERROR_NO_MORE_FILES {
            Ok(false)
        } else {
            Err(SnapshotError { code })
        }),
{
    if advanced {
        return Ok(true);
    }
    if code == ERROR_NO_MORE_FILES {
        return Ok(false);
    }
    Err(SnapshotError { code })
}

/// How many units stand before the first zero; all of them where there is none.
pub open spec fn until_zero(units: Seq<u16>) -> int
    decreases units.len(),
{
    if units.len() == 0 || units[0] == 0 {
        0
    } else {
        1 + until_zero(units.skip(1))
    }
}

/// The text of a zero-terminated UTF-16 buffer.
pub fn utf16(buffer: &[u16]) -> (text: String)
    ensures
        text@ == utf16_lossy(buffer@.take(until_zero(buffer@))),
{
    let n: usize = buffer.len();
    let mut end: usize = 0;
    assert(buffer@.skip(0) == buffer@);
    while end < n && buffer[end] != 0
        invariant
            n == buffer@.len(),
            end <= n,
            until_zero(buffer@) == end + until_zero(buffer@.skip(end as int)),
        decreases n - end,
    {
        assert(buffer@.skip(end as int).skip(1) == buffer@.skip(end + 1));
        end = end + 1;
    }
    let head = vstd::slice::slice_subrange(buffer, 0, end);
    assert(head@ == buffer@.take(end as int));
    from_utf16_lossy(head)
}

/// The processes as mathematical values.
pub open spec fn process_models(processes: Seq<ProcessRef>) -> Seq<ProcessModel> {
    processes.map_values(|p: ProcessRef| p@)
}

/// What came of reading the process table.
pub type Table = Result<Vec<ProcessRef>, SnapshotError>;

/// What came of reading the process table, as a mathematical value.
pub open spec fn table_view(table: Table) -> Result<Seq<ProcessModel>, SnapshotError> {
    match table {
        Ok(processes) => Ok(process_models(processes@)),
        Err(error) => Err(error),
    }
}

/// Whether an image name is one of `names`, whatever its case.
pub open spec fn is_named(image: Seq<char>, names: Seq<Seq<char>>) -> bool {
    exists|i: int| 0 <= i < names.len() && same_folded(image, #[trigger] names[i])
}

/// The processes whose image is one of `names`, in the order of the table.
pub open spec fn named(processes: Seq<ProcessModel>, names: Seq<Seq<char>>) -> Seq<ProcessModel> {
    processes.filter(|p: ProcessModel| is_named(p.image, names))
}

/// Whether any of the processes is one of `names`.
pub open spec fn any_named(processes: Seq<ProcessModel>, names: Seq<Seq<char>>) -> bool {
    exists|i: int| 0 <= i < processes.len() && is_named(#[trigger] processes[i].image, names)
}

/// Filtering a longer sequence keeps or drops its last element.
pub proof fn lemma_filter_push<A>(s: Seq<A>, keep: spec_fn(A) -> bool, e: A)
    ensures
        s.push(e).filter(keep) == if keep(e) {
            s.filter(keep).push(e)
        } else {
            s.filter(keep)
        },
{
    reveal(Seq::filter);
    assert(s.push(e).drop_last() == s);
}

proof fn lemma_filter_empty<A>(s: Seq<A>, keep: spec_fn(A) -> bool)
    ensures
        s.filter(keep).len() == 0 <==> forall|i: int| 0 <= i < s.len() ==> !keep(s[i]),
    decreases s.len(),
{
    reveal(Seq::filter);
    if s.len() > 0 {
        lemma_filter_empty(s.drop_last(), keep);
        let front = s.drop_last();
        if s.filter(keep).len() == 0 {
            assert(!keep(s.last()));
            assert forall|i: int| 0 <= i < s.len() implies !keep(s[i]) by {
                if i < front.len() {
                    assert(!keep(front[i]));
                }
            }
        } else if keep(s.last()) {
            assert(keep(s[s.len() - 1]));
        } else {
            let i = choose|i: int| 0 <= i < front.len() && keep(front[i]);
            assert(keep(s[i]));
        }
    }
}

/// No process is kept exactly when none is named.
pub proof fn lemma_named_empty(processes: Seq<ProcessModel>, names: Seq<Seq<char>>)
    ensures
        named(processes, names).len() == 0 <==> !any_named(processes, names),
{
    let keep = |p: ProcessModel| is_named(p.image, names);
    lemma_filter_empty(processes, keep);
    if any_named(processes, names) {
        let i = choose|i: int|
            0 <= i < processes.len() && is_named(#[trigger] processes[i].image, names);
        assert(keep(processes[i]));
    } else {
        assert forall|i: int| 0 <= i < processes.len() implies !keep(processes[i]) by {
            assert(!is_named(processes[i].image, names));
        }
    }
}

/// Whether an image name is one of `names`, whatever its case.
pub fn matches_any(image: &str, names: &[&str]) -> (found: bool)
    ensures
        found == is_named(image@, views(names@)),
{
    let n: usize = names.len();
    let ghost all = views(names@);
    let mut i: usize = 0;
    while i < n
        invariant
            n == names@.len(),
            all == views(names@),
            i <= n,
            forall|k: int| 0 <= k < i ==> !same_folded(image@, #[trigger] all[k]),
        decreases n - i,
    {
        assert(all[i as int] == names@[i as int]@);
        if eq_ignore_ascii_case(image, names[i]) {
            assert(same_folded(image@, all[i as int]));
            return true;
        }
        i = i + 1;
    }
    false
}

/// The processes whose image is one of `names`, in the order of the table.
pub fn retain_named(processes: Vec<ProcessRef>, names: &[&str]) -> (kept: Vec<ProcessRef>)
    ensures
        process_models(kept@) == named(process_models(processes@), views(names@)),
{
    let n: usize = processes.len();
    let ghost all = process_models(processes@);
    let ghost keep = |p: ProcessModel| is_named(p.image, views(names@));
    let mut kept: Vec<ProcessRef> = Vec::new();
    let mut i: usize = 0;
    proof {
        reveal(Seq::filter);
        assert(process_models(kept@) =~= all.take(0).filter(keep));
    }
    while i < n
        invariant
            n == processes@.len(),
            i <= n,
            all == process_models(processes@),
            keep == |p: ProcessModel| is_named(p.image, views(names@)),
            process_models(kept@) == all.take(i as int).filter(keep),
        decreases n - i,
    {
        let process = &processes[i];
        let ghost before = process_models(kept@);
        assert(all[i as int] == process@);
        proof {
            lemma_filter_push(all.take(i as int), keep, process@);
            assert(all.take(i + 1) == all.take(i as int).push(process@));
        }
        if matches_any(process.image.as_str(), names) {
            kept.push(process.clone());
            assert(process_models(kept@) =~= before.push(process@));
        }
        i = i + 1;
    }
    assert(all.take(n as int) == all);
    kept
}

/// Processes whose image base name matches any of `names` (case-insensitive).
pub fn matching(table: Table, names: &[&str]) -> (result: Table)
    ensures
        table_view(result) == (match table_view(table) {
            Ok(processes) => Ok(named(processes, views(names@))),
            Err(error) => Err(error),
        }),
{
    match table {
        Ok(processes) => Ok(retain_named(processes, names)),
        Err(error) => Err(error),
    }
}

/// Whether any process is one of `names`. An unreadable table is never an answer.
pub open spec fn running(
    table: Result<Seq<ProcessModel>, SnapshotError>,
    names: Seq<Seq<char>>,
) -> Result<bool, SnapshotError> {
    match table {
        Ok(processes) => Ok(any_named(processes, names)),
        Err(error) => Err(error),
    }
}

/// Whether any process is one of `names`.
pub fn any_running(table: Table, names: &[&str]) -> (result: Result<bool, SnapshotError>)
    ensures
        result == running(table_view(table), views(names@)),
{
    let ghost shown = table_view(table);
    match matching(table, names) {
        Ok(found) => {
            proof {
                lemma_named_empty(shown->Ok_0, views(names@));
                assert(process_models(found@).len() == found@.len());
            }
            Ok(!found.is_empty())
        },
        Err(error) => Err(error),
    }
}

/// The image of the first process `pid` from `from` on.
pub open spec fn image_of(processes: Seq<ProcessModel>, pid: u32, from: int) -> Option<Seq<char>>
    decreases processes.len() - from,
{
    if from >= processes.len() {
        None
    } else if processes[from].pid == pid {
        Some(processes[from].image)
    } else {
        image_of(processes, pid, from + 1)
    }
}

/// Image base name of a PID.
pub fn image_for_pid(table: &Table, pid: u32) -> (result: Result<Option<String>, SnapshotError>)
    ensures
        match (table_view(*table), result) {
            (Ok(processes), Ok(image)) => owned(image) == image_of(processes, pid, 0),
            (Err(error), Err(reported)) => error == reported,
            _ => false,
        },
{
    match table {
        Ok(processes) => {
            let n: usize = processes.len();
            let ghost all = process_models(processes@);
            let mut i: usize = 0;
            while i < n
                invariant
                    n == processes@.len(),
                    all == process_models(processes@),
                    table_view(*table) == Ok::<Seq<ProcessModel>, SnapshotError>(all),
                    i <= n,
                    image_of(all, pid, 0) == image_of(all, pid, i as int),
                decreases n - i,
            {
                assert(all[i as int] == processes@[i as int]@);
                if processes[i].pid == pid {
                    return Ok(Some(processes[i].image.clone()));
                }
                i = i + 1;
            }
            Ok(None)
        },
        Err(error) => Err(*error),
    }
}

/// The texts of a sequence of strings.
pub open spec fn texts(strings: Seq<String>) -> Seq<Seq<char>> {
    strings.map_values(|s: String| s@)
}

/// The distinct image names, in the order and the case in which they are first seen.
pub open spec fn unique_of(processes: Seq<ProcessModel>) -> Seq<Seq<char>>
    decreases processes.len(),
{
    if processes.len() == 0 {
        Seq::empty()
    } else {
        let seen = unique_of(processes.drop_last());
        let image = processes.last().image;
        if is_named(image, seen) {
            seen
        } else {
            seen.push(image)
        }
    }
}

fn seen_before(image: &str, images: &Vec<String>) -> (seen: bool)
    ensures
        seen == is_named(image@, texts(images@)),
{
    let n: usize = images.len();
    let ghost all = texts(images@);
    let mut i: usize = 0;
    while i < n
        invariant
            n == images@.len(),
            all == texts(images@),
            i <= n,
            forall|k: int| 0 <= k < i ==> !same_folded(image@, #[trigger] all[k]),
        decreases n - i,
    {
        assert(all[i as int] == images@[i as int]@);
        if eq_ignore_ascii_case(image, images[i].as_str()) {
            assert(same_folded(image@, all[i as int]));
            return true;
        }
        i = i + 1;
    }
    false
}

/// Distinct image names, preserving first-seen casing. Renderer processes with the same name
/// collapse into a single kill.
pub fn unique_images(processes: &[ProcessRef]) -> (images: Vec<String>)
    ensures
        texts(images@) == unique_of(process_models(processes@)),
{
    let n: usize = processes.len();
    let ghost all = process_models(processes@);
    let mut images: Vec<String> = Vec::new();
    let mut i: usize = 0;
    assert(texts(images@) =~= unique_of(all.take(0)));
    while i < n
        invariant
            n == processes@.len(),
            all == process_models(processes@),
            i <= n,
            texts(images@) == unique_of(all.take(i as int)),
        decreases n - i,
    {
        let process = &processes[i];
        let ghost before = texts(images@);
        assert(all[i as int] == process@);
        assert(all.take(i + 1).drop_last() == all.take(i as int));
        assert(all.take(i + 1).last() == process@);
        if !seen_before(process.image.as_str(), &images) {
            images.push(process.image.clone());
            assert(texts(images@) =~= before.push(process.image@));
        }
        i = i + 1;
    }
    assert(all.take(n as int) == all);
    images
}

/// No image name occurs twice among the distinct ones, whatever its case.
pub proof fn unique_images_are_distinct(processes: Seq<ProcessModel>, i: int, j: int)
    requires
        0 <= i < j < unique_of(processes).len(),
    ensures
        !same_folded(unique_of(processes)[i], unique_of(processes)[j]),
    decreases processes.len(),
{
    if processes.len() > 0 {
        let seen = unique_of(processes.drop_last());
        if j < seen.len() {
            unique_images_are_distinct(processes.drop_last(), i, j);
        } else {
            assert(unique_of(processes)[i] == seen[i]);
            assert(!same_folded(processes.last().image, seen[i]));
        }
    }
}

/// The unique images are images of the processes.
pub proof fn unique_images_are_images(processes: Seq<ProcessModel>, i: int) -> (k: int)
    requires
        0 <= i < unique_of(processes).len(),
    ensures
        0 <= k < processes.len(),
        unique_of(processes)[i] == processes[k].image,
    decreases processes.len(),
{
    let seen = unique_of(processes.drop_last());
    if i < seen.len() {
        unique_images_are_images(processes.drop_last(), i)
    } else {
        processes.len() - 1
    }
}

/// The named processes are processes of the table.
pub proof fn named_processes_are_listed(
    processes: Seq<ProcessModel>,
    names: Seq<Seq<char>>,
    k: int,
) -> (j: int)
    requires
        0 <= k < named(processes, names).len(),
    ensures
        0 <= j < processes.len(),
        named(processes, names)[k] == processes[j],
        is_named(processes[j].image, names),
    decreases processes.len(),
{
    reveal(Seq::filter);
    let keep = |p: ProcessModel| is_named(p.image, names);
    let front = processes.drop_last();
    lemma_filter_push(front, keep, processes.last());
    assert(processes == front.push(processes.last()));
    if k < named(front, names).len() {
        named_processes_are_listed(front, names, k)
    } else {
        processes.len() - 1
    }
}

/// Every process is covered by one of the distinct image names.
pub proof fn unique_images_cover(processes: Seq<ProcessModel>, k: int)
    requires
        0 <= k < processes.len(),
    ensures
        is_named(processes[k].image, unique_of(processes)),
    decreases processes.len(),
{
    let front = processes.drop_last();
    let seen = unique_of(front);
    let all = unique_of(processes);
    let image = processes[k].image;
    if k < front.len() {
        unique_images_cover(front, k);
        let i = choose|i: int| 0 <= i < seen.len() && same_folded(image, #[trigger] seen[i]);
        assert(all[i] == seen[i]);
        assert(same_folded(image, all[i]));
    } else if !is_named(image, seen) {
        assert(all[seen.len() as int] == image);
        assert(same_folded(image, all[seen.len() as int]));
    }
}

/// A window of the desktop: the process it belongs to, and whether another window owns it.
#[derive(Clone, Copy)]
pub struct WindowRef {
    pub pid: u32,
    pub owned: bool,
}

/// Whether a window is the root of an application of the process `pid`. Owned windows are
/// dialogs, not the application root; no process has the id 0.
pub open spec fn is_root(window: WindowRef, pid: u32) -> bool {
    pid != 0 && window.pid == pid && !window.owned
}

/// How many windows are roots of the process `pid`.
pub open spec fn roots(windows: Seq<WindowRef>, pid: u32) -> nat
    decreases windows.len(),
{
    if windows.len() == 0 {
        0
    } else {
        roots(windows.drop_last(), pid) + if is_root(windows.last(), pid) {
            1nat
        } else {
            0nat
        }
    }
}

/// Whether a window is the root of an application of the process `pid`.
pub fn visit_window(window: WindowRef, pid: u32) -> (hit: bool)
    ensures
        hit == is_root(window, pid),
{
    pid != 0 && window.pid == pid && !window.owned
}

proof fn lemma_roots(windows: Seq<WindowRef>, pid: u32)
    ensures
        roots(windows, pid) <= windows.len(),
    decreases windows.len(),
{
    if windows.len() > 0 {
        lemma_roots(windows.drop_last(), pid);
    }
}

/// How many top-level windows a process owns. Zero means no graceful close signal can ever
/// reach it, so callers skip the grace wait.
pub fn count_top_level_windows(windows: &[WindowRef], pid: u32) -> (count: usize)
    ensures
        count == roots(windows@, pid),
        count <= windows@.len(),
{
    let n: usize = windows.len();
    let mut count: usize = 0;
    let mut i: usize = 0;
    assert(windows@.take(0) == Seq::<WindowRef>::empty());
    while i < n
        invariant
            n == windows@.len(),
            i <= n,
            count <= i,
            count == roots(windows@.take(i as int), pid),
        decreases n - i,
    {
        assert(windows@.take(i + 1).drop_last() == windows@.take(i as int));
        if visit_window(windows[i], pid) {
            count = count + 1;
        }
        i = i + 1;
    }
    assert(windows@.take(n as int) == windows@);
    count
}

/// How many windows are roots of one of the processes, each counted once per mention.
pub open spec fn reached(windows: Seq<WindowRef>, pids: Seq<u32>) -> nat
    decreases pids.len(),
{
    if pids.len() == 0 {
        0
    } else {
        reached(windows, pids.drop_last()) + roots(windows, pids.last())
    }
}

/// How many windows a request to close reaches; zero means that the graceful phase should be
/// skipped entirely.
pub fn post_wm_close(windows: &[WindowRef], pids: &[u32]) -> (count: usize)
    requires
        windows@.len() * pids@.len() <= usize::MAX,
    ensures
        count == reached(windows@, pids@),
{
    let n: usize = pids.len();
    let mut count: usize = 0;
    let mut i: usize = 0;
    assert(pids@.take(0) == Seq::<u32>::empty());
    while i < n
        invariant
            n == pids@.len(),
            i <= n,
            windows@.len() * pids@.len() <= usize::MAX,
            count == reached(windows@, pids@.take(i as int)),
            count <= windows@.len() * i,
        decreases n - i,
    {
        assert(pids@.take(i + 1).drop_last() == pids@.take(i as int));
        let hits = count_top_level_windows(windows, pids[i]);
        assert(windows@.len() * i + windows@.len() == windows@.len() * (i + 1)) by (nonlinear_arith);
        assert(windows@.len() * (i + 1) <= windows@.len() * pids@.len()) by (nonlinear_arith)
            requires
                i + 1 <= pids@.len(),
        ;
        count = count + hits;
        i = i + 1;
    }
    assert(pids@.take(n as int) == pids@);
    count
}

/// The pids of the processes.
pub open spec fn pids_of(processes: Seq<ProcessModel>) -> Seq<u32> {
    processes.map_values(|p: ProcessModel| p.pid)
}

/// The pids of the table that are wanted, in the order of the table.
pub open spec fn alive_of(processes: Seq<ProcessModel>, wanted: Seq<u32>) -> Seq<u32> {
    pids_of(processes).filter(|pid: u32| wanted.contains(pid))
}

/// Whether `pid` is among `pids`.
pub fn contains_pid(pids: &[u32], pid: u32) -> (found: bool)
    ensures
        found == pids@.contains(pid),
{
    let mut i: usize = 0;
    while i < pids.len()
        invariant
            i <= pids@.len(),
            forall|k: int| 0 <= k < i ==> pids@[k] != pid,
        decreases pids@.len() - i,
    {
        if pids[i] == pid {
            return true;
        }
        i = i + 1;
    }
    false
}

/// The pids of a table that are wanted, in the order of the table.
pub fn alive(processes: &Vec<ProcessRef>, wanted: &[u32]) -> (pids: Vec<u32>)
    ensures
        pids@ == alive_of(process_models(processes@), wanted@),
{
    let n: usize = processes.len();
    let ghost all = pids_of(process_models(processes@));
    let ghost keep = |pid: u32| wanted@.contains(pid);
    let mut pids: Vec<u32> = Vec::new();
    let mut i: usize = 0;
    proof {
        reveal(Seq::filter);
        assert(pids@ =~= all.take(0).filter(keep));
    }
    while i < n
        invariant
            n == processes@.len(),
            i <= n,
            all == pids_of(process_models(processes@)),
            keep == |pid: u32| wanted@.contains(pid),
            pids@ == all.take(i as int).filter(keep),
        decreases n - i,
    {
        let pid = processes[i].pid;
        assert(all[i as int] == pid);
        proof {
            lemma_filter_push(all.take(i as int), keep, pid);
            assert(all.take(i + 1) == all.take(i as int).push(pid));
        }
        if contains_pid(wanted, pid) {
            pids.push(pid);
        }
        i = i + 1;
    }
    assert(all.take(n as int) == all);
    pids
}

/// The command that ends every process of an image together with its descendants.
pub fn kill_arguments(image: &str) -> (args: Vec<String>)
    ensures
        texts(args@) == seq!["/F"@, "/T"@, "/IM"@, image@],
{
    let mut args: Vec<String> = Vec::new();
    args.push("/F".to_owned());
    args.push("/T".to_owned());
    args.push("/IM".to_owned());
    args.push(image.to_owned());
    assert(texts(args@) =~= seq!["/F"@, "/T"@, "/IM"@, image@]);
    args
}

/// A process can be asked to close exactly where it owns a window that is no dialog of another one.
pub proof fn root_windows_can_be_asked(windows: Seq<WindowRef>, pid: u32)
    ensures
        roots(windows, pid) > 0 <==> pid != 0 && exists|k: int|
            0 <= k < windows.len() && (#[trigger] windows[k]).pid == pid && !windows[k].owned,
    decreases windows.len(),
{
    if windows.len() > 0 {
        let front = windows.drop_last();
        root_windows_can_be_asked(front, pid);
        assert forall|k: int| 0 <= k < front.len() implies front[k] == windows[k] by {}
        assert(windows[windows.len() - 1] == windows.last());
        if roots(front, pid) > 0 {
            let k = choose|k: int|
                0 <= k < front.len() && (#[trigger] front[k]).pid == pid && !front[k].owned;
            assert(windows[k].pid == pid);
        }
        if exists|k: int|
            0 <= k < windows.len() && (#[trigger] windows[k]).pid == pid && !windows[k].owned {
            let k = choose|k: int|
                0 <= k < windows.len() && (#[trigger] windows[k]).pid == pid && !windows[k].owned;
            if k < front.len() {
                assert(front[k].pid == pid);
            }
        }
    }
}

/// A search of the process table finds exactly the processes whose image is one of the names but
/// for the case.
pub proof fn named_processes_are_found(
    processes: Seq<ProcessModel>,
    names: Seq<Seq<char>>,
    k: int,
)
    requires
        0 <= k < processes.len(),
        exists|i: int| 0 <= i < names.len() && same_folded(processes[k].image, #[trigger] names[i]),
    ensures
        named(processes, names).contains(processes[k]),
        any_named(processes, names),
    decreases processes.len(),
{
    reveal(Seq::filter);
    let keep = |p: ProcessModel| is_named(p.image, names);
    let front = processes.drop_last();
    lemma_filter_push(front, keep, processes.last());
    assert(processes == front.push(processes.last()));
    assert(is_named(processes[k].image, names));
    if k < front.len() {
        assert(front[k] == processes[k]);
        named_processes_are_found(front, names, k);
        let n = choose|n: int|
            0 <= n < named(front, names).len() && named(front, names)[n] == processes[k];
        assert(named(processes, names)[n] == processes[k]);
    } else {
        assert(named(processes, names).last() == processes[k]);
    }
}

} // verus!
