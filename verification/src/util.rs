//! Process control as far as it is decided here: which processes carry a
//! given executable name, where a process is found in the process file
//! system, and when a probed process counts as gone.

use vstd::prelude::*;
use vstd::string::*;
use crate::path::{join, joined};
use crate::text::{
    decimal, i32_to_string, is_digit, lemma_decimal_reads_back, parse_i32, parse_i32_spec,
    signed_decimal,
};

verus! {

/// Root of the process file system.
pub const PROC_DIR_PREFIX: &'static str = "/proc";

/// Name of the link, inside a process's directory, to its executable.
pub const PROC_FILE_EXE: &'static str = "exe";

/// Seconds to sleep between two probes of a process that is still alive.
pub const POLL_INTERVAL_SECONDS: u64 = 1;

/// The number of the termination signal.
pub open spec fn sigterm() -> i32 {
    15
}

/// Reads the constant `libc::SIGTERM`. Believed: it is 15, as the crate
/// defines it for every target.
#[verifier::external_body]
pub(crate) fn termination_signal() -> (signal: i32)
    ensures
        signal == sigterm(),
{
    libc::SIGTERM
}

/// One entry of the process file system, as far as the search reads it.
#[derive(Debug)]
pub struct ProcEntry {
    /// The entry's own name, where it is text.
    pub dir_name: Option<String>,
    /// The last component of the path that the entry's executable link
    /// resolves to, where it resolves and that component is text.
    pub exe_name: Option<String>,
}

/// What a [`ProcEntry`] says.
pub struct ProcEntryView {
    pub dir_name: Option<Seq<char>>,
    pub exe_name: Option<Seq<char>>,
}

impl View for ProcEntry {
    type V = ProcEntryView;

    open spec fn view(&self) -> ProcEntryView {
        ProcEntryView {
            dir_name: match self.dir_name {
                Some(text) => Some(text@),
                None => None,
            },
            exe_name: match self.exe_name {
                Some(text) => Some(text@),
                None => None,
            },
        }
    }
}

/// The entries of a listing, each by its view.
pub open spec fn proc_views(entries: Seq<ProcEntry>) -> Seq<ProcEntryView> {
    Seq::new(entries.len(), |i: int| entries[i]@)
}

/// The process id that an entry contributes to the search for `name`: the
/// number its own name denotes, where its executable is called `name`.
pub open spec fn proc_pid(name: Seq<char>, entry: ProcEntryView) -> Option<i32> {
    if entry.exe_name == Some(name) {
        match entry.dir_name {
            Some(text) => parse_i32_spec(text),
            None => None,
        }
    } else {
        None
    }
}

/// The process ids that a listing contributes to the search for `name`, in
/// the listing's order.
pub open spec fn named_pids(name: Seq<char>, entries: Seq<ProcEntryView>) -> Seq<i32>
    decreases entries.len(),
{
    if entries.len() == 0 {
        Seq::empty()
    } else {
        let front = named_pids(name, entries.drop_last());
        match proc_pid(name, entries.last()) {
            Some(pid) => front.push(pid),
            None => front,
        }
    }
}

/// A process id is among those found for `name` exactly when some entry of
/// the listing contributes it.
pub proof fn lemma_named_pids_members(name: Seq<char>, entries: Seq<ProcEntryView>, pid: i32)
    ensures
        named_pids(name, entries).contains(pid) <==> exists|i: int|
            0 <= i < entries.len() && proc_pid(name, #[trigger] entries[i]) == Some(pid),
    decreases entries.len(),
{
    if entries.len() > 0 {
        let front = entries.drop_last();
        let found = named_pids(name, front);
        lemma_named_pids_members(name, front, pid);
        assert forall|i: int| 0 <= i < front.len() implies front[i] == entries[i] by {}
        if named_pids(name, entries).contains(pid) {
            if found.contains(pid) {
                let i = choose|i: int|
                    0 <= i < front.len() && proc_pid(name, #[trigger] front[i]) == Some(pid);
                assert(proc_pid(name, entries[i]) == Some(pid));
            } else {
                let k = choose|k: int|
                    0 <= k < named_pids(name, entries).len() && named_pids(name, entries)[k] == pid;
                if k < found.len() {
                    assert(found[k] == pid);
                }
                assert(proc_pid(name, entries[entries.len() - 1]) == Some(pid));
            }
        }
        if exists|i: int|
            0 <= i < entries.len() && proc_pid(name, #[trigger] entries[i]) == Some(pid) {
            let i = choose|i: int|
                0 <= i < entries.len() && proc_pid(name, #[trigger] entries[i]) == Some(pid);
            if i < front.len() {
                assert(proc_pid(name, front[i]) == Some(pid));
                let k = choose|k: int| 0 <= k < found.len() && found[k] == pid;
                assert(named_pids(name, entries)[k] == pid);
            } else {
                assert(named_pids(name, entries) == found.push(pid));
                assert(found.push(pid)[found.len() as int] == pid);
            }
        }
    }
}

/// What `lemma_named_pids_members` says of the views of a listing, said of
/// the listing's entries.
proof fn lemma_named_pids_of_listing(name: Seq<char>, entries: Seq<ProcEntry>, pid: i32)
    ensures
        named_pids(name, proc_views(entries)).contains(pid) <==> exists|i: int|
            0 <= i < entries.len() && proc_pid(name, #[trigger] entries[i]@) == Some(pid),
{
    let views = proc_views(entries);
    lemma_named_pids_members(name, views, pid);
    assert forall|i: int| 0 <= i < entries.len() implies #[trigger] entries[i]@ == views[i] by {}
    if named_pids(name, views).contains(pid) {
        let i = choose|i: int|
            0 <= i < views.len() && proc_pid(name, #[trigger] views[i]) == Some(pid);
        assert(proc_pid(name, entries[i]@) == Some(pid));
    }
    if exists|i: int|
        0 <= i < entries.len() && proc_pid(name, #[trigger] entries[i]@) == Some(pid) {
        let i = choose|i: int|
            0 <= i < entries.len() && proc_pid(name, #[trigger] entries[i]@) == Some(pid);
        assert(proc_pid(name, views[i]) == Some(pid));
    }
}

/// The process id that one entry contributes to the search for `name`.
pub fn entry_pid(name: &String, entry: &ProcEntry) -> (pid: Option<i32>)
    ensures
        pid == proc_pid(name@, entry@),
{
    let named = match &entry.exe_name {
        Some(exe) => *exe == *name,
        None => false,
    };
    if !named {
        return None;
    }
    match &entry.dir_name {
        Some(text) => parse_i32(text.as_str()),
        None => None,
    }
}

/// Finds the ids of the processes whose executable is called `name`, among
/// the entries read from the process file system.
pub fn find_named_process_pids(name: &str, entries: &Vec<ProcEntry>) -> (pids: Vec<i32>)
    ensures
        pids@ == named_pids(name@, proc_views(entries@)),
        forall|pid: i32| #[trigger]
            pids@.contains(pid) <==> exists|i: int|
                0 <= i < entries.len() && proc_pid(name@, #[trigger] entries[i]@) == Some(pid),
{
    let wanted = name.to_owned();
    let ghost views = proc_views(entries@);
    let mut pids: Vec<i32> = Vec::new();
    let mut i: usize = 0;
    while i < entries.len()
        invariant
            i <= entries.len(),
            wanted@ == name@,
            views == proc_views(entries@),
            pids@ == named_pids(name@, views.take(i as int)),
        decreases entries.len() - i,
    {
        proof {
            assert(views.take(i + 1).drop_last() == views.take(i as int));
            assert(views.take(i + 1).last() == entries[i as int]@);
        }
        match entry_pid(&wanted, &entries[i]) {
            Some(pid) => pids.push(pid),
            None => {},
        }
        i += 1;
    }
    proof {
        assert(views.take(i as int) == views);
        assert forall|pid: i32| #[trigger]
            pids@.contains(pid) <==> exists|i: int|
                0 <= i < entries.len() && proc_pid(name@, #[trigger] entries[i]@) == Some(
                    pid,
                ) by {
            lemma_named_pids_of_listing(name@, entries@, pid);
        }
    }
    pids
}

/// Where a process is found in the process file system.
pub open spec fn procfs_path_text(pid: int) -> Seq<char> {
    joined(PROC_DIR_PREFIX@, signed_decimal(pid))
}

/// The path of a process's directory in the process file system.
pub fn procfs_path(pid: i32) -> (path: String)
    ensures
        path@ == procfs_path_text(pid as int),
{
    let number = i32_to_string(pid);
    join(PROC_DIR_PREFIX, number.as_str())
}

/// A process's path is the root of the process file system, a separator and
/// the process id in decimal. It holds no NUL character, so it can be handed
/// to the operating system as a C string.
pub proof fn lemma_procfs_path_has_no_nul(pid: int)
    ensures
        procfs_path_text(pid) == PROC_DIR_PREFIX@ + seq!['/'] + signed_decimal(pid),
        forall|i: int|
            0 <= i < procfs_path_text(pid).len() ==> #[trigger] procfs_path_text(pid)[i] != '\0',
{
    reveal_strlit("/proc");
    let path = procfs_path_text(pid);
    let number = signed_decimal(pid);
    let size = if pid < 0 {
        (-pid) as nat
    } else {
        pid as nat
    };
    let digits = decimal(size);
    lemma_decimal_reads_back(size);
    assert forall|i: int| 0 <= i < number.len() implies #[trigger] number[i] != '\0' by {
        if pid < 0 {
            if i > 0 {
                assert(number[i] == digits[i - 1]);
                assert(is_digit(digits[i - 1]));
            }
        } else {
            assert(is_digit(digits[i]));
        }
    }
    assert forall|i: int| 0 <= i < path.len() implies #[trigger] path[i] != '\0' by {
        if i >= 6 {
            assert(path[i] == number[i - 6]);
        }
    }
}

/// Whether a probed process is still there: the probe reports zero as long
/// as the process can be signalled.
pub open spec fn probe_says_alive(status: i32) -> bool {
    status == 0
}

/// Decides from a probe's status whether the process is still alive.
pub fn process_alive(status: i32) -> (alive: bool)
    ensures
        alive == probe_says_alive(status),
{
    status == 0
}

} // verus!
