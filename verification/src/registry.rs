//! The mirroring session registry: a store of live process records keyed by
//! session identifier.
//!
//! The registry holds, for each tracked session, the process's native
//! identifier, the target device it mirrors, and its creation time.  It owns
//! every structural decision — what an insert overwrites, what a removal
//! returns, what a cleanup pass discards, what a drain hands back — while the
//! embedding application performs the OS work (polling and signalling) on
//! the records the registry hands out.  A record leaves the registry exactly
//! once, so a termination signal, issued only on a record handed out by
//! `remove_process` or `stop_all`, is issued at most once per process.

use vstd::prelude::*;
use vstd::string::StrSliceExecFns;

use crate::strutil::{str_eq, vec_contains_str};

verus! {

/// What the registry tracks for one live mirroring process.  The process
/// handle itself stays with the embedding application; the registry works
/// with the process's native identifier.
#[derive(Debug)]
pub struct ProcessInfo {
    /// Native identifier of the launched process.
    pub pid: u64,
    /// Identifier of the target device the process mirrors.
    pub device_id: String,
    /// Launch time, in milliseconds since the epoch.
    pub started_at: u64,
}

/// Mathematical image of a [`ProcessInfo`].
pub ghost struct ProcessInfoModel {
    pub pid: u64,
    pub device_id: Seq<char>,
    pub started_at: u64,
}

impl View for ProcessInfo {
    type V = ProcessInfoModel;

    open spec fn view(&self) -> ProcessInfoModel {
        ProcessInfoModel { pid: self.pid, device_id: self.device_id@, started_at: self.started_at }
    }
}

impl DeepView for ProcessInfo {
    type V = ProcessInfoModel;

    open spec fn deep_view(&self) -> ProcessInfoModel {
        self@
    }
}

impl Clone for ProcessInfo {
    fn clone(&self) -> (r: Self)
        ensures
            r@ == self@,
    {
        ProcessInfo {
            pid: self.pid,
            device_id: self.device_id.clone(),
            started_at: self.started_at,
        }
    }
}

/// One tracked session: its identifier and its process record.
#[derive(Debug)]
pub struct SessionEntry {
    pub session_id: String,
    pub info: ProcessInfo,
}

/// Mathematical image of a [`SessionEntry`].
pub ghost struct EntryModel {
    pub session_id: Seq<char>,
    pub info: ProcessInfoModel,
}

impl View for SessionEntry {
    type V = EntryModel;

    open spec fn view(&self) -> EntryModel {
        EntryModel { session_id: self.session_id@, info: self.info@ }
    }
}

impl DeepView for SessionEntry {
    type V = EntryModel;

    open spec fn deep_view(&self) -> EntryModel {
        self@
    }
}

impl Clone for SessionEntry {
    fn clone(&self) -> (r: Self)
        ensures
            r@ == self@,
    {
        SessionEntry { session_id: self.session_id.clone(), info: self.info.clone() }
    }
}

/// The session identifiers of `s`, in registry order.
pub open spec fn ids_of(s: Seq<EntryModel>) -> Seq<Seq<char>> {
    s.map_values(|e: EntryModel| e.session_id)
}

/// Well-formedness of a registry: at most one record per session identifier.
pub open spec fn wf(s: Seq<EntryModel>) -> bool {
    forall|i: int, j: int|
        0 <= i < j < s.len() ==> #[trigger] s[i].session_id != #[trigger] s[j].session_id
}

/// Whether `s` tracks the session identifier `id`.
pub open spec fn contains_id(s: Seq<EntryModel>, id: Seq<char>) -> bool {
    exists|i: int| 0 <= i < s.len() && #[trigger] s[i].session_id == id
}

/// The position of `id` in `s`; meaningful only when `contains_id` holds and
/// unique under `wf`.
pub open spec fn index_of_id(s: Seq<EntryModel>, id: Seq<char>) -> int {
    choose|i: int| 0 <= i < s.len() && #[trigger] s[i].session_id == id
}

/// `s` with the record for `id` removed; `s` itself when `id` is not tracked.
pub open spec fn remove_id(s: Seq<EntryModel>, id: Seq<char>) -> Seq<EntryModel> {
    if contains_id(s, id) {
        s.remove(index_of_id(s, id))
    } else {
        s
    }
}

/// `s` with `e` inserted, overwriting any record that already carries the
/// same session identifier.
pub open spec fn upsert(s: Seq<EntryModel>, e: EntryModel) -> Seq<EntryModel> {
    remove_id(s, e.session_id).push(e)
}

/// The predicate a cleanup pass keeps records by: the record's session was
/// not observed to have exited.
pub open spec fn keeps(exited: Seq<Seq<char>>) -> spec_fn(EntryModel) -> bool {
    |e: EntryModel| !exited.contains(e.session_id)
}

/// `s` with every record whose session identifier occurs in `exited`
/// removed, order preserved.
pub open spec fn remove_exited(s: Seq<EntryModel>, exited: Seq<Seq<char>>) -> Seq<EntryModel> {
    s.filter(keeps(exited))
}

/// In a well-formed registry the tracked index of an identifier is unique.
pub proof fn lemma_index_of_id(s: Seq<EntryModel>, id: Seq<char>)
    requires
        wf(s),
        contains_id(s, id),
    ensures
        0 <= index_of_id(s, id) < s.len(),
        s[index_of_id(s, id)].session_id == id,
        forall|k: int| 0 <= k < s.len() && #[trigger] s[k].session_id == id ==> k == index_of_id(
            s,
            id,
        ),
{
    let i = index_of_id(s, id);
    assert(0 <= i < s.len() && s[i].session_id == id);
    assert forall|k: int| 0 <= k < s.len() && #[trigger] s[k].session_id == id implies k == i by {
        if k < i {
            assert(s[k].session_id != s[i].session_id);
        } else if k > i {
            assert(s[i].session_id != s[k].session_id);
        }
    }
}

/// Removing an identifier keeps the registry well-formed and leaves the
/// identifier untracked.
pub proof fn lemma_wf_remove(s: Seq<EntryModel>, id: Seq<char>)
    requires
        wf(s),
    ensures
        wf(remove_id(s, id)),
        !contains_id(remove_id(s, id), id),
{
    if contains_id(s, id) {
        lemma_index_of_id(s, id);
        let i = index_of_id(s, id);
        let t = s.remove(i);
        assert forall|p: int, q: int|
            0 <= p < q < t.len() implies #[trigger] t[p].session_id != #[trigger] t[q].session_id by {
            let p0 = if p < i { p } else { p + 1 };
            let q0 = if q < i { q } else { q + 1 };
            assert(t[p] == s[p0]);
            assert(t[q] == s[q0]);
        }
        assert forall|p: int| 0 <= p < t.len() implies #[trigger] t[p].session_id != id by {
            let p0 = if p < i { p } else { p + 1 };
            assert(t[p] == s[p0]);
            if t[p].session_id == id {
                assert(p0 == i);
            }
        }
    }
}

/// Inserting a record keeps the registry well-formed.
pub proof fn lemma_wf_upsert(s: Seq<EntryModel>, e: EntryModel)
    requires
        wf(s),
    ensures
        wf(upsert(s, e)),
{
    lemma_wf_remove(s, e.session_id);
    let mid = remove_id(s, e.session_id);
    let t = mid.push(e);
    assert forall|p: int, q: int|
        0 <= p < q < t.len() implies #[trigger] t[p].session_id != #[trigger] t[q].session_id by {
        if q == t.len() - 1 {
            assert(t[p] == mid[p]);
            if t[p].session_id == e.session_id {
                assert(contains_id(mid, e.session_id));
            }
        } else {
            assert(t[p] == mid[p]);
            assert(t[q] == mid[q]);
        }
    }
}

/// Every record a cleanup pass keeps was tracked before, and the pass keeps
/// the registry well-formed.
pub proof fn lemma_wf_remove_exited(s: Seq<EntryModel>, exited: Seq<Seq<char>>)
    requires
        wf(s),
    ensures
        wf(remove_exited(s, exited)),
        forall|id: Seq<char>|
            #[trigger] contains_id(remove_exited(s, exited), id) ==> contains_id(s, id),
    decreases s.len(),
{
    reveal(Seq::filter);
    let pred = keeps(exited);
    if s.len() == 0 {
        assert(s.filter(pred) =~= Seq::<EntryModel>::empty());
    } else {
        let rest = s.drop_last();
        let last = s.last();
        assert(wf(rest)) by {
            assert forall|i: int, j: int|
                0 <= i < j < rest.len() implies #[trigger] rest[i].session_id
                != #[trigger] rest[j].session_id by {
                assert(rest[i] == s[i]);
                assert(rest[j] == s[j]);
            }
        }
        lemma_wf_remove_exited(rest, exited);
        let rf = rest.filter(pred);
        if pred(last) {
            assert(s.filter(pred) == rf.push(last));
            let t = rf.push(last);
            assert forall|p: int, q: int|
                0 <= p < q < t.len() implies #[trigger] t[p].session_id
                != #[trigger] t[q].session_id by {
                if q == t.len() - 1 {
                    assert(t[p] == rf[p]);
                    if t[p].session_id == last.session_id {
                        assert(contains_id(rf, last.session_id));
                        let w = choose|w: int|
                            0 <= w < rest.len() && #[trigger] rest[w].session_id
                                == last.session_id;
                        assert(rest[w] == s[w]);
                        assert(s[w].session_id == s[s.len() - 1].session_id);
                    }
                } else {
                    assert(t[p] == rf[p]);
                    assert(t[q] == rf[q]);
                }
            }
            assert forall|id: Seq<char>|
                #[trigger] contains_id(t, id) implies contains_id(s, id) by {
                let w = choose|w: int| 0 <= w < t.len() && #[trigger] t[w].session_id == id;
                if w == t.len() - 1 {
                    assert(s[s.len() - 1].session_id == id);
                } else {
                    assert(contains_id(rf, id));
                    let v = choose|v: int|
                        0 <= v < rest.len() && #[trigger] rest[v].session_id == id;
                    assert(rest[v] == s[v]);
                }
            }
        } else {
            assert(s.filter(pred) == rf);
            assert forall|id: Seq<char>|
                #[trigger] contains_id(rf, id) implies contains_id(s, id) by {
                let v = choose|v: int| 0 <= v < rest.len() && #[trigger] rest[v].session_id == id;
                assert(rest[v] == s[v]);
            }
        }
    }
}

/// The mirroring session registry.  One instance lives for the whole run of
/// the application, is built empty at startup, and is drained by `stop_all`
/// at shutdown.
pub struct ScrcpyState {
    entries: Vec<SessionEntry>,
}

impl View for ScrcpyState {
    type V = Seq<EntryModel>;

    closed spec fn view(&self) -> Seq<EntryModel> {
        self.entries.deep_view()
    }
}

impl ScrcpyState {
    /// A fresh registry, tracking nothing.
    pub fn new() -> (r: Self)
        ensures
            r@ == Seq::<EntryModel>::empty(),
            wf(r@),
    {
        let r = ScrcpyState { entries: Vec::new() };
        proof {
            assert(r@ =~= Seq::<EntryModel>::empty());
        }
        r
    }

    /// Starts tracking a process under `session_id`.  A stale record under
    /// the same identifier — which the identifier derivation should rule
    /// out — is overwritten, never duplicated.
    pub fn add_process(&mut self, session_id: String, info: ProcessInfo)
        requires
            wf(old(self)@),
        ensures
            final(self)@ == upsert(
                old(self)@,
                EntryModel { session_id: session_id@, info: info@ },
            ),
            wf(final(self)@),
    {
        let _stale = self.remove_process(session_id.as_str());
        let ghost mid = self@;
        self.entries.push(SessionEntry { session_id, info });
        proof {
            assert(self@ =~= mid.push(EntryModel { session_id: session_id@, info: info@ }));
            lemma_wf_upsert(old(self)@, EntryModel { session_id: session_id@, info: info@ });
        }
    }

    /// Stops tracking `session_id` and hands its record — and with it the
    /// sole right to signal the process — to the caller.  Returns `None`,
    /// and changes nothing, when the identifier is not tracked.
    pub fn remove_process(&mut self, session_id: &str) -> (r: Option<ProcessInfo>)
        requires
            wf(old(self)@),
        ensures
            final(self)@ == remove_id(old(self)@, session_id@),
            wf(final(self)@),
            contains_id(old(self)@, session_id@) ==> (r matches Some(info) && info@ == old(
                self,
            )@[index_of_id(old(self)@, session_id@)].info),
            !contains_id(old(self)@, session_id@) ==> r is None && final(self)@ == old(self)@,
    {
        proof {
            lemma_wf_remove(old(self)@, session_id@);
        }
        let n = self.entries.len();
        let mut i: usize = 0;
        while i < n
            invariant
                *self == *old(self),
                wf(old(self)@),
                n == self.entries@.len(),
                i <= n,
                forall|j: int| 0 <= j < i ==> #[trigger] self@[j].session_id != session_id@,
            decreases n - i,
        {
            if str_eq(self.entries[i].session_id.as_str(), session_id) {
                proof {
                    assert(self@[i as int].session_id == session_id@);
                    assert(contains_id(old(self)@, session_id@));
                    lemma_index_of_id(old(self)@, session_id@);
                    lemma_wf_remove(old(self)@, session_id@);
                    assert(index_of_id(old(self)@, session_id@) == i as int);
                }
                let entry = self.entries.remove(i);
                proof {
                    assert(self@ =~= old(self)@.remove(i as int));
                }
                return Some(entry.info);
            }
            i = i + 1;
        }
        proof {
            assert(!contains_id(old(self)@, session_id@));
        }
        None
    }

    /// Whether `session_id` is currently tracked.  A purely structural
    /// check: it does not consult the OS about the process.
    pub fn is_running(&self, session_id: &str) -> (r: bool)
        ensures
            r == contains_id(self@, session_id@),
    {
        let n = self.entries.len();
        let mut i: usize = 0;
        while i < n
            invariant
                n == self.entries@.len(),
                i <= n,
                forall|j: int| 0 <= j < i ==> #[trigger] self@[j].session_id != session_id@,
            decreases n - i,
        {
            if str_eq(self.entries[i].session_id.as_str(), session_id) {
                assert(self@[i as int].session_id == session_id@);
                return true;
            }
            i = i + 1;
        }
        false
    }

    /// A snapshot of every tracked session identifier, in registry order.
    pub fn get_active_sessions(&self) -> (r: Vec<String>)
        ensures
            r.deep_view() == ids_of(self@),
    {
        let n = self.entries.len();
        let mut out: Vec<String> = Vec::new();
        let mut i: usize = 0;
        while i < n
            invariant
                n == self.entries@.len(),
                i <= n,
                out.deep_view().len() == i,
                forall|j: int| 0 <= j < i ==> out.deep_view()[j] == self@[j].session_id,
            decreases n - i,
        {
            let ghost prev = out.deep_view();
            out.push(self.entries[i].session_id.clone());
            proof {
                assert(out.deep_view() =~= prev.push(self.entries@[i as int].session_id@));
            }
            i = i + 1;
        }
        proof {
            assert(out.deep_view() =~= ids_of(self@));
        }
        out
    }

    /// The target device and creation time of a tracked session; `None`
    /// when the identifier is not tracked.
    pub fn get_process_info(&self, session_id: &str) -> (r: Option<(String, u64)>)
        requires
            wf(self@),
        ensures
            contains_id(self@, session_id@) ==> (r matches Some(p) && p.0@ == self@[index_of_id(
                self@,
                session_id@,
            )].info.device_id && p.1 == self@[index_of_id(self@, session_id@)].info.started_at),
            !contains_id(self@, session_id@) ==> r is None,
    {
        let n = self.entries.len();
        let mut i: usize = 0;
        while i < n
            invariant
                wf(self@),
                n == self.entries@.len(),
                i <= n,
                forall|j: int| 0 <= j < i ==> #[trigger] self@[j].session_id != session_id@,
            decreases n - i,
        {
            if str_eq(self.entries[i].session_id.as_str(), session_id) {
                proof {
                    assert(self@[i as int].session_id == session_id@);
                    lemma_index_of_id(self@, session_id@);
                }
                return Some((self.entries[i].info.device_id.clone(), self.entries[i].info.started_at));
            }
            i = i + 1;
        }
        None
    }

    /// Discards every record whose session identifier the caller observed to
    /// have exited (by a non-blocking poll of each tracked process), keeping
    /// the rest in order.
    pub fn cleanup_finished(&mut self, exited: &Vec<String>)
        requires
            wf(old(self)@),
        ensures
            final(self)@ == remove_exited(old(self)@, exited.deep_view()),
            wf(final(self)@),
    {
        broadcast use vstd::seq_lib::group_filter_ensures;

        let ghost pred = keeps(exited.deep_view());
        let n = self.entries.len();
        let mut kept: Vec<SessionEntry> = Vec::new();
        let mut i: usize = 0;
        while i < n
            invariant
                *self == *old(self),
                n == self.entries@.len(),
                i <= n,
                kept.deep_view() == old(self)@.subrange(0, i as int).filter(pred),
                pred == keeps(exited.deep_view()),
            decreases n - i,
        {
            let ghost prefix = old(self)@.subrange(0, i as int);
            let ghost prev = kept.deep_view();
            let e = &self.entries[i];
            let gone = vec_contains_str(exited, e.session_id.as_str());
            if !gone {
                kept.push(e.clone());
            }
            proof {
                broadcast use vstd::seq_lib::group_filter_ensures;

                prefix.lemma_filter_push(self@[i as int], pred);
                assert(old(self)@.subrange(0, i + 1 as int) =~= prefix.push(self@[i as int]));
                assert(pred(self@[i as int]) == !gone);
                if !gone {
                    assert(kept.deep_view() =~= prev.push(self@[i as int]));
                }
            }
            i = i + 1;
        }
        proof {
            assert(old(self)@.subrange(0, n as int) =~= old(self)@);
        }
        self.entries = kept;
        proof {
            lemma_wf_remove_exited(old(self)@, exited.deep_view());
        }
    }

    /// Drains the registry: stops tracking everything and hands every
    /// record out exactly once, in registry order, so the caller can issue
    /// one termination signal per process.
    pub fn stop_all(&mut self) -> (r: Vec<SessionEntry>)
        ensures
            final(self)@ == Seq::<EntryModel>::empty(),
            wf(final(self)@),
            r.deep_view() == old(self)@,
    {
        let mut drained: Vec<SessionEntry> = Vec::new();
        core::mem::swap(&mut self.entries, &mut drained);
        proof {
            assert(self@ =~= Seq::<EntryModel>::empty());
        }
        drained
    }

    /// How many sessions are tracked right now.
    pub fn active_count(&self) -> (r: usize)
        ensures
            r == self@.len(),
    {
        self.entries.len()
    }
}

} // verus!
