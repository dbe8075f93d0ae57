//! The registry of active sessions: a directory shared by all sessions of
//! one user, in which each session keeps one empty file named by its
//! launcher's process id. The directory itself is the caller's business;
//! here are its name, the rule read from its count, and its model as a set
//! of entry names.

use vstd::prelude::*;
use vstd::string::*;
use crate::path::{join, joined};

verus! {

/// What the registry directory's name starts with.
pub const TMP_DIR_FLATKAP: &'static str = ".flatkap";

/// The name of a user's registry directory below the temporary directory.
pub open spec fn registry_dir_name_text(uid: Seq<char>) -> Seq<char> {
    TMP_DIR_FLATKAP@ + seq!['-'] + uid
}

/// The path of a user's registry directory, below the given temporary
/// directory.
pub open spec fn registry_dir_text(temp_dir: Seq<char>, uid: Seq<char>) -> Seq<char> {
    joined(temp_dir, registry_dir_name_text(uid))
}

/// The name of a user's registry directory below the temporary directory.
pub fn registry_dir_name(uid: &str) -> (name: String)
    ensures
        name@ == registry_dir_name_text(uid@),
{
    let mut name = TMP_DIR_FLATKAP.to_owned();
    proof {
        reveal_strlit("-");
    }
    name.append("-");
    name.append(uid);
    assert(name@ =~= registry_dir_name_text(uid@));
    name
}

/// The path of a user's registry directory, below the given temporary
/// directory.
pub fn registry_dir(temp_dir: &str, uid: &str) -> (path: String)
    ensures
        path@ == registry_dir_text(temp_dir@, uid@),
{
    let name = registry_dir_name(uid);
    join(temp_dir, name.as_str())
}

/// A session is the last one when the registry holds exactly one entry,
/// which is then its own. An empty registry does not make it the last.
pub open spec fn sole_session(entries: int) -> bool {
    entries == 1
}

/// Decides from the registry's count whether this session is the last one.
pub fn is_last_session(entries: usize) -> (last: bool)
    ensures
        last == sole_session(entries as int),
{
    entries == 1
}

/// The registry after a session has put its entry there.
pub open spec fn registered(registry: Set<Seq<char>>, entry: Seq<char>) -> Set<Seq<char>> {
    registry.insert(entry)
}

/// The registry after a session has taken its entry away.
pub open spec fn deregistered(registry: Set<Seq<char>>, entry: Seq<char>) -> Set<Seq<char>> {
    registry.remove(entry)
}

/// After a session has registered, its entry is there; taking it away leaves
/// none of that name, also where it was gone already, and touches no entry
/// of another session.
pub proof fn lemma_registry_entries(registry: Set<Seq<char>>, entry: Seq<char>)
    ensures
        registered(registry, entry).contains(entry),
        !deregistered(registry, entry).contains(entry),
        deregistered(deregistered(registry, entry), entry) == deregistered(registry, entry),
        !registry.contains(entry) ==> deregistered(registry, entry) == registry,
        forall|other: Seq<char>|
            other != entry ==> (deregistered(registry, entry).contains(other)
                <==> registry.contains(other)),
        forall|other: Seq<char>|
            other != entry ==> (registered(registry, entry).contains(other) <==> registry.contains(
                other,
            )),
{
    assert(deregistered(deregistered(registry, entry), entry) =~= deregistered(registry, entry));
    if !registry.contains(entry) {
        assert(deregistered(registry, entry) =~= registry);
    }
}

/// The registry after each of the given sessions has put its entry there.
pub open spec fn all_registered(registry: Set<Seq<char>>, entries: Seq<Seq<char>>) -> Set<
    Seq<char>,
>
    decreases entries.len(),
{
    if entries.len() == 0 {
        registry
    } else {
        registered(all_registered(registry, entries.drop_last()), entries.last())
    }
}

/// The registry after each of the given sessions has taken its entry away.
pub open spec fn all_deregistered(registry: Set<Seq<char>>, entries: Seq<Seq<char>>) -> Set<
    Seq<char>,
>
    decreases entries.len(),
{
    if entries.len() == 0 {
        registry
    } else {
        deregistered(all_deregistered(registry, entries.drop_last()), entries.last())
    }
}

/// The registry at the moment when the session at position `finished` of
/// `order` counts it: the sessions of `order` have all registered in a
/// registry that was empty, they end in that order, and those before
/// `finished` have taken their entries away.
pub open spec fn registry_at(order: Seq<Seq<char>>, finished: int) -> Set<Seq<char>> {
    all_deregistered(all_registered(Set::empty(), order), order.take(finished))
}

/// The entries of a sequence are those before its last, and its last.
pub proof fn lemma_entries_with_last(entries: Seq<Seq<char>>)
    requires
        entries.len() > 0,
    ensures
        entries.to_set() == entries.drop_last().to_set().insert(entries.last()),
{
    let front = entries.drop_last();
    assert forall|entry: Seq<char>|
        entries.to_set().contains(entry) <==> front.to_set().contains(entry) || entry
            == entries.last() by {
        if entries.to_set().contains(entry) {
            let i = choose|i: int| 0 <= i < entries.len() && entries[i] == entry;
            if i < front.len() {
                assert(front[i] == entry);
            }
        }
        if front.to_set().contains(entry) {
            let i = choose|i: int| 0 <= i < front.len() && front[i] == entry;
            assert(entries[i] == entry);
        }
        if entry == entries.last() {
            assert(entries[entries.len() - 1] == entry);
        }
    }
    assert(entries.to_set() =~= front.to_set().insert(entries.last()));
}

/// Putting entries into the registry adds exactly these to it.
pub proof fn lemma_all_registered(registry: Set<Seq<char>>, entries: Seq<Seq<char>>)
    ensures
        all_registered(registry, entries) == registry.union(entries.to_set()),
    decreases entries.len(),
{
    if entries.len() == 0 {
        assert(registry.union(entries.to_set()) =~= registry);
    } else {
        let front = entries.drop_last();
        lemma_all_registered(registry, front);
        lemma_entries_with_last(entries);
        assert(all_registered(registry, entries) =~= registry.union(entries.to_set()));
    }
}

/// Taking entries out of the registry removes exactly these from it.
pub proof fn lemma_all_deregistered(registry: Set<Seq<char>>, entries: Seq<Seq<char>>)
    ensures
        all_deregistered(registry, entries) == registry.difference(entries.to_set()),
    decreases entries.len(),
{
    if entries.len() == 0 {
        assert(registry.difference(entries.to_set()) =~= registry);
    } else {
        let front = entries.drop_last();
        lemma_all_deregistered(registry, front);
        lemma_entries_with_last(entries);
        assert(all_deregistered(registry, entries) =~= registry.difference(entries.to_set()));
    }
}

/// Of sessions that end one after another, each counts as many entries as
/// there are sessions that have not yet taken theirs away, itself included;
/// so the last of them, and no other, finds itself alone.
pub proof fn lemma_only_last_session_is_sole(order: Seq<Seq<char>>, finished: int)
    requires
        order.no_duplicates(),
        0 <= finished < order.len(),
    ensures
        registry_at(order, finished) == order.skip(finished).to_set(),
        registry_at(order, finished).finite(),
        registry_at(order, finished).len() == order.len() - finished,
        registry_at(order, finished).contains(order[finished]),
        sole_session(registry_at(order, finished).len() as int) <==> finished == order.len() - 1,
{
    let gone = order.take(finished);
    let rest = order.skip(finished);
    lemma_all_registered(Set::empty(), order);
    assert(Set::<Seq<char>>::empty().union(order.to_set()) =~= order.to_set());
    lemma_all_deregistered(order.to_set(), gone);
    assert forall|entry: Seq<char>|
        rest.to_set().contains(entry) <==> order.to_set().contains(entry)
            && !gone.to_set().contains(entry) by {
        if rest.to_set().contains(entry) {
            let i = choose|i: int| 0 <= i < rest.len() && rest[i] == entry;
            assert(order[i + finished] == entry);
            if gone.to_set().contains(entry) {
                let j = choose|j: int| 0 <= j < gone.len() && gone[j] == entry;
                assert(order[j] == entry);
            }
        }
        if order.to_set().contains(entry) && !gone.to_set().contains(entry) {
            let i = choose|i: int| 0 <= i < order.len() && order[i] == entry;
            if i < finished {
                assert(gone[i] == entry);
            } else {
                assert(rest[i - finished] == entry);
            }
        }
    }
    assert(registry_at(order, finished) =~= rest.to_set());
    assert(rest.no_duplicates()) by {
        assert forall|i: int, j: int|
            0 <= i < rest.len() && 0 <= j < rest.len() && i != j implies rest[i] != rest[j] by {
            assert(rest[i] == order[i + finished]);
            assert(rest[j] == order[j + finished]);
        }
    }
    rest.unique_seq_to_set();
    assert(rest[0] == order[finished]);
    assert(rest.to_set().contains(rest[0]));
}

} // verus!
