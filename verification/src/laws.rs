//! Registry-wide laws: the guarantees that hold across whole operation
//! sequences, stated over the registry's mathematical model.

use vstd::prelude::*;

use crate::commands::session_id_of;
use crate::registry::{
    contains_id, ids_of, keeps, remove_exited, remove_id, wf, EntryModel, lemma_wf_remove,
};
use crate::strutil::{dec_str, lemma_dec_str_injective};

verus! {

/// Two launches for the same target yield distinct session identifiers as
/// long as their native process identifiers differ, so starting the same
/// target twice produces two independent sessions.
pub proof fn lemma_session_id_unique_per_launch(device_id: Seq<char>, p1: u64, p2: u64)
    requires
        p1 != p2,
    ensures
        session_id_of(device_id, p1) != session_id_of(device_id, p2),
{
    let s1 = session_id_of(device_id, p1);
    let s2 = session_id_of(device_id, p2);
    if s1 == s2 {
        let prefix_len = "session_"@.len() + device_id.len() + "_"@.len();
        assert(s1.subrange(prefix_len as int, s1.len() as int) =~= dec_str(p1 as nat));
        assert(s2.subrange(prefix_len as int, s2.len() as int) =~= dec_str(p2 as nat));
        lemma_dec_str_injective(p1 as nat, p2 as nat);
    }
}

/// A sequence all of whose elements a filter keeps is left unchanged by it.
proof fn lemma_filter_all<A>(s: Seq<A>, pred: spec_fn(A) -> bool)
    requires
        forall|i: int| 0 <= i < s.len() ==> pred(#[trigger] s[i]),
    ensures
        s.filter(pred) == s,
    decreases s.len(),
{
    reveal(Seq::filter);
    if s.len() == 0 {
        assert(s.filter(pred) =~= s);
    } else {
        let rest = s.drop_last();
        assert(forall|i: int| 0 <= i < rest.len() ==> pred(#[trigger] rest[i]));
        lemma_filter_all(rest, pred);
        assert(s.filter(pred) =~= s);
    }
}

/// No process is ever signalled for termination twice.  A termination
/// signal is issued only on a record handed out by a removal, and a removal
/// hands a record out only while the registry tracks its identifier; this
/// law states that after one removal the identifier is no longer tracked,
/// and that a repeated removal finds nothing and changes nothing.
pub proof fn lemma_no_double_removal(s: Seq<EntryModel>, id: Seq<char>)
    requires
        wf(s),
    ensures
        !contains_id(remove_id(s, id), id),
        remove_id(remove_id(s, id), id) == remove_id(s, id),
{
    lemma_wf_remove(s, id);
}

/// Pruning and stopping never both hand out the same record: once a
/// cleanup pass has removed a session as exited, a stop request for that
/// session finds nothing, whichever of the two was asked for first.
pub proof fn lemma_prune_then_stop_finds_nothing(
    s: Seq<EntryModel>,
    exited: Seq<Seq<char>>,
    id: Seq<char>,
)
    requires
        exited.contains(id),
    ensures
        !contains_id(remove_exited(s, exited), id),
{
    broadcast use vstd::seq_lib::group_filter_ensures;

    let t = remove_exited(s, exited);
    if contains_id(t, id) {
        let i = choose|i: int| 0 <= i < t.len() && #[trigger] t[i].session_id == id;
        assert(keeps(exited)(t[i]));
    }
}

/// A bulk drain hands out one record per tracked session: under
/// well-formedness the drained records carry pairwise-distinct session
/// identifiers, so signalling each drained record once signals every
/// previously-tracked process exactly once.
pub proof fn lemma_drained_ids_distinct(s: Seq<EntryModel>)
    requires
        wf(s),
    ensures
        ids_of(s).no_duplicates(),
{
    assert forall|i: int, j: int|
        0 <= i < ids_of(s).len() && 0 <= j < ids_of(s).len() && i != j implies #[trigger] ids_of(
        s,
    )[i] != #[trigger] ids_of(s)[j] by {
        assert(ids_of(s)[i] == s[i].session_id);
        assert(ids_of(s)[j] == s[j].session_id);
    }
}

/// Cleanup is idempotent: pruning with the same observed-exited set twice
/// in a row, with no intervening start, leaves the same active set as
/// pruning once.
pub proof fn lemma_cleanup_idempotent(s: Seq<EntryModel>, exited: Seq<Seq<char>>)
    ensures
        remove_exited(remove_exited(s, exited), exited) == remove_exited(s, exited),
{
    broadcast use vstd::seq_lib::group_filter_ensures;

    let pred = keeps(exited);
    let once = s.filter(pred);
    assert(forall|i: int| 0 <= i < once.len() ==> pred(#[trigger] once[i]));
    lemma_filter_all(once, pred);
}

} // verus!
