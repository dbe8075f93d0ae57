//! Finding the sandboxed workload: which instance directory of the sandbox
//! runtime belongs to the launcher, and which process id its descriptor names.

use vstd::prelude::*;
use vstd::string::*;
use crate::error::{Error, ErrorView, Result, result_view};
use crate::json::{
    as_unsigned, get_member, json_document, json_member, json_unsigned, parse_document,
};
use crate::path::{join, joined};

verus! {

/// Directory below which each user's runtime directory lies.
pub const RUN_DIR_PREFIX: &'static str = "/run/user";

/// Name of the sandbox runtime directory inside a user's runtime directory.
pub const RUN_DIR_SUFFIX: &'static str = ".flatpak";

/// Name of the file, inside an instance directory, that holds the launcher's
/// process id as text.
pub const RUN_FILE_PID: &'static str = "pid";

/// Name of the JSON descriptor inside an instance directory.
pub const RUN_FILE_INFO: &'static str = "bwrapinfo.json";

/// Name of the descriptor's field that holds the workload's process id.
pub const RUN_FILE_INFO_FIELD_PID: &'static str = "child-pid";

/// Message of the failure when no instance directory belongs to the launcher.
pub const MSG_NO_INSTANCE: &'static str = "No pidfs dir found for pid.";

/// Message of the failure when the descriptor is no JSON document.
pub const MSG_MALFORMED: &'static str = "Failed to parse bwrapinfo.json.";

/// Message of the failure when the descriptor has no process id field.
pub const MSG_FIELD_ABSENT: &'static str = "Failed to find pid.";

/// Message of the failure when the process id field is no integer from zero
/// to `i32::MAX`.
pub const MSG_NOT_INTEGER: &'static str = "Failed to convert pid to integer.";

/// The path of a user's sandbox runtime directory.
pub open spec fn run_dir_text(uid: Seq<char>) -> Seq<char> {
    joined(joined(RUN_DIR_PREFIX@, uid), RUN_DIR_SUFFIX@)
}

/// The path of the directory that holds one subdirectory for each sandbox
/// instance of the user.
pub fn sandbox_run_dir(uid: &str) -> (path: String)
    ensures
        path@ == run_dir_text(uid@),
{
    let user_dir = join(RUN_DIR_PREFIX, uid);
    join(user_dir.as_str(), RUN_DIR_SUFFIX)
}

/// One entry of the sandbox runtime directory, as far as the lookup reads it.
#[derive(Debug)]
pub struct InstanceEntry {
    /// Whether the entry could be examined and is itself a directory.
    pub is_dir: bool,
    /// The content of the entry's `pid` file, where it could be read as text.
    pub pid_text: Option<String>,
}

/// What an [`InstanceEntry`] says.
pub struct InstanceEntryView {
    pub is_dir: bool,
    pub pid_text: Option<Seq<char>>,
}

impl View for InstanceEntry {
    type V = InstanceEntryView;

    open spec fn view(&self) -> InstanceEntryView {
        InstanceEntryView {
            is_dir: self.is_dir,
            pid_text: match self.pid_text {
                Some(text) => Some(text@),
                None => None,
            },
        }
    }
}

/// The entries of a listing, each by its view.
pub open spec fn instance_views(entries: Seq<InstanceEntry>) -> Seq<InstanceEntryView> {
    Seq::new(entries.len(), |i: int| entries[i]@)
}

/// An entry belongs to the launcher when it is a directory whose `pid` file
/// holds exactly the launcher's process id.
pub open spec fn instance_matches(entry: InstanceEntryView, launcher_pid: Seq<char>) -> bool {
    entry.is_dir && entry.pid_text == Some(launcher_pid)
}

/// The position of the first entry that belongs to the launcher.
pub open spec fn first_match(entries: Seq<InstanceEntryView>, launcher_pid: Seq<char>) -> Option<
    int,
>
    decreases entries.len(),
{
    if entries.len() == 0 {
        None
    } else {
        match first_match(entries.drop_last(), launcher_pid) {
            Some(i) => Some(i),
            None => if instance_matches(entries.last(), launcher_pid) {
                Some(entries.len() - 1)
            } else {
                None
            },
        }
    }
}

/// `first_match` finds a matching entry before which none matches, and finds
/// none only where no entry matches.
pub proof fn lemma_first_match(entries: Seq<InstanceEntryView>, launcher_pid: Seq<char>)
    ensures
        match first_match(entries, launcher_pid) {
            Some(i) => {
                &&& 0 <= i < entries.len()
                &&& instance_matches(entries[i], launcher_pid)
                &&& forall|j: int|
                    0 <= j < i ==> !instance_matches(#[trigger] entries[j], launcher_pid)
            },
            None => forall|j: int|
                0 <= j < entries.len() ==> !instance_matches(#[trigger] entries[j], launcher_pid),
        },
    decreases entries.len(),
{
    if entries.len() > 0 {
        let front = entries.drop_last();
        lemma_first_match(front, launcher_pid);
        assert forall|j: int| 0 <= j < front.len() implies front[j] == entries[j] by {}
    }
}

/// Whether one entry belongs to the launcher.
pub fn entry_matches(entry: &InstanceEntry, launcher_pid: &String) -> (matches: bool)
    ensures
        matches == instance_matches(entry@, launcher_pid@),
{
    if !entry.is_dir {
        return false;
    }
    match &entry.pid_text {
        Some(text) => *text == *launcher_pid,
        None => false,
    }
}

/// Finds the first entry of the listing that belongs to the launcher.
pub fn find_instance(entries: &Vec<InstanceEntry>, launcher_pid: &String) -> (found: Option<usize>)
    ensures
        match found {
            Some(i) => first_match(instance_views(entries@), launcher_pid@) == Some(i as int),
            None => first_match(instance_views(entries@), launcher_pid@) is None,
        },
        match found {
            Some(i) => {
                &&& i < entries.len()
                &&& instance_matches(entries[i as int]@, launcher_pid@)
                &&& forall|j: int|
                    0 <= j < i ==> !instance_matches(#[trigger] entries[j]@, launcher_pid@)
            },
            None => forall|j: int|
                0 <= j < entries.len() ==> !instance_matches(#[trigger] entries[j]@, launcher_pid@),
        },
{
    let ghost views = instance_views(entries@);
    let mut i: usize = 0;
    while i < entries.len()
        invariant
            i <= entries.len(),
            views == instance_views(entries@),
            first_match(views.take(i as int), launcher_pid@) is None,
        decreases entries.len() - i,
    {
        proof {
            assert(views.take(i + 1).drop_last() == views.take(i as int));
            assert(views.take(i + 1).last() == entries[i as int]@);
        }
        if entry_matches(&entries[i], launcher_pid) {
            proof {
                lemma_first_match_extends(views, launcher_pid@, i + 1);
                lemma_first_match_of_listing(entries@, launcher_pid@);
            }
            return Some(i);
        }
        i += 1;
    }
    proof {
        assert(views.take(i as int) == views);
        lemma_first_match_of_listing(entries@, launcher_pid@);
    }
    None
}

/// What `first_match` finds among the views of a listing, said of the
/// listing's entries.
proof fn lemma_first_match_of_listing(entries: Seq<InstanceEntry>, launcher_pid: Seq<char>)
    ensures
        match first_match(instance_views(entries), launcher_pid) {
            Some(i) => {
                &&& 0 <= i < entries.len()
                &&& instance_matches(entries[i]@, launcher_pid)
                &&& forall|j: int|
                    0 <= j < i ==> !instance_matches(#[trigger] entries[j]@, launcher_pid)
            },
            None => forall|j: int|
                0 <= j < entries.len() ==> !instance_matches(#[trigger] entries[j]@, launcher_pid),
        },
{
    let views = instance_views(entries);
    lemma_first_match(views, launcher_pid);
    assert forall|j: int| 0 <= j < entries.len() implies #[trigger] entries[j]@ == views[j] by {}
}

/// A match found among the first `n` entries is the match of the whole
/// listing.
pub proof fn lemma_first_match_extends(
    entries: Seq<InstanceEntryView>,
    launcher_pid: Seq<char>,
    n: int,
)
    requires
        0 <= n <= entries.len(),
        first_match(entries.take(n), launcher_pid) is Some,
    ensures
        first_match(entries, launcher_pid) == first_match(entries.take(n), launcher_pid),
    decreases entries.len() - n,
{
    if n < entries.len() {
        assert(entries.take(n + 1).drop_last() == entries.take(n));
        lemma_first_match_extends(entries, launcher_pid, n + 1);
    } else {
        assert(entries.take(n) == entries);
    }
}

/// What the descriptor says about the workload's process id.
#[derive(Clone, Copy, Debug, PartialEq, Eq, Structural)]
pub enum DescriptorField {
    /// The descriptor is no JSON document.
    Malformed,
    /// The document has no process id field.
    Absent,
    /// The field is there and holds no unsigned integer.
    NotInteger,
    /// The field holds this unsigned number.
    Integer(u64),
}

/// The process id field of a descriptor, in terms of what the JSON parser
/// and its accessors return.
pub open spec fn descriptor_field(text: Seq<char>) -> DescriptorField {
    match json_document(text) {
        None => DescriptorField::Malformed,
        Some(document) => match json_member(document, RUN_FILE_INFO_FIELD_PID@) {
            None => DescriptorField::Absent,
            Some(member) => match json_unsigned(member) {
                None => DescriptorField::NotInteger,
                Some(number) => DescriptorField::Integer(number),
            },
        },
    }
}

/// The largest number that is a process id.
pub const PID_MAX: u64 = 0x7fff_ffff;

/// The process id that a field stands for: the field's number itself, where
/// it is one that a process id can be, or the failure that says what is wrong
/// with the descriptor. A number above `i32::MAX` is no process id.
pub open spec fn pid_of_field(field: DescriptorField) -> std::result::Result<i32, ErrorView> {
    match field {
        DescriptorField::Malformed => Err(ErrorView::Generic { message: MSG_MALFORMED@ }),
        DescriptorField::Absent => Err(ErrorView::Generic { message: MSG_FIELD_ABSENT@ }),
        DescriptorField::NotInteger => Err(ErrorView::Generic { message: MSG_NOT_INTEGER@ }),
        DescriptorField::Integer(number) => if number <= PID_MAX {
            Ok(number as i32)
        } else {
            Err(ErrorView::Generic { message: MSG_NOT_INTEGER@ })
        },
    }
}

/// A descriptor gives a process id exactly when its field holds that number:
/// the id is never another number than the field's.
pub proof fn lemma_pid_is_the_field(field: DescriptorField, pid: i32)
    ensures
        pid_of_field(field) == Ok::<i32, ErrorView>(pid) <==> field == DescriptorField::Integer(
            pid as u64,
        ) && pid >= 0,
        pid_of_field(field) is Ok <==> (field matches DescriptorField::Integer(number) && number
            <= PID_MAX),
{
}

/// The workload's process id according to a descriptor's text.
pub open spec fn child_pid_of(text: Seq<char>) -> std::result::Result<i32, ErrorView> {
    pid_of_field(descriptor_field(text))
}

/// Parses the descriptor and looks its process id field up.
pub fn read_descriptor_field(text: &str) -> (field: DescriptorField)
    ensures
        field == descriptor_field(text@),
{
    match parse_document(text) {
        None => DescriptorField::Malformed,
        Some(document) => match get_member(&document, RUN_FILE_INFO_FIELD_PID) {
            None => DescriptorField::Absent,
            Some(member) => match as_unsigned(member) {
                None => DescriptorField::NotInteger,
                Some(number) => DescriptorField::Integer(number),
            },
        },
    }
}

/// Turns the looked-up field into the workload's process id, or into the
/// failure for what is wrong with the descriptor.
pub fn child_pid_from_field(field: DescriptorField) -> (pid: Result<i32>)
    ensures
        result_view(pid) == pid_of_field(field),
{
    match field {
        DescriptorField::Malformed => Err(Error::generic(MSG_MALFORMED)),
        DescriptorField::Absent => Err(Error::generic(MSG_FIELD_ABSENT)),
        DescriptorField::NotInteger => Err(Error::generic(MSG_NOT_INTEGER)),
        DescriptorField::Integer(number) => if number <= PID_MAX {
            Ok(number as i32)
        } else {
            Err(Error::generic(MSG_NOT_INTEGER))
        },
    }
}

/// Reads the workload's process id out of a descriptor's text.
pub fn parse_child_pid(text: &str) -> (pid: Result<i32>)
    ensures
        result_view(pid) == child_pid_of(text@),
{
    child_pid_from_field(read_descriptor_field(text))
}

} // verus!
