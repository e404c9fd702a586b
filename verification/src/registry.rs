//! The client registry: the one structure shared by every connection's
//! lifecycle. It maps each admitted client identifier to that connection's
//! outbound send handle, holds at most one entry per identifier, and offers
//! registration, idempotent removal, and iteration-for-broadcast.

use vstd::prelude::*;
use vstd::seq_lib::*;
use crate::channel::send_text;
use tokio::sync::mpsc::UnboundedSender;
use warp::ws::Message;

verus! {

/// One admitted connection: its identifier paired with the enqueue-only
/// handle whose sole consumer is that connection's write loop.
pub struct Entry {
    pub id: u128,
    pub sender: UnboundedSender<Message>,
}

/// The identifiers of a run of entries, in order.
pub open spec fn seq_ids(s: Seq<Entry>) -> Seq<u128> {
    s.map_values(|e: Entry| e.id)
}

/// The mapping a run of entries stands for. A later entry would win over an
/// earlier one with the same identifier, but the registry never holds two.
pub open spec fn map_of(s: Seq<Entry>) -> Map<u128, UnboundedSender<Message>>
    decreases s.len(),
{
    if s.len() == 0 {
        Map::empty()
    } else {
        map_of(s.drop_last()).insert(s.last().id, s.last().sender)
    }
}

proof fn lemma_map_of_contains(s: Seq<Entry>)
    ensures
        forall|k: u128| map_of(s).dom().contains(k) <==> seq_ids(s).contains(k),
    decreases s.len(),
{
    broadcast use vstd::seq_lib::group_seq_properties;

    if s.len() > 0 {
        lemma_map_of_contains(s.drop_last());
        assert(seq_ids(s) =~= seq_ids(s.drop_last()).push(s.last().id));
    }
}

proof fn lemma_map_of_remove(s: Seq<Entry>, j: int)
    requires
        seq_ids(s).no_duplicates(),
        0 <= j < s.len(),
    ensures
        map_of(s.remove(j)) == map_of(s).remove(s[j].id),
        seq_ids(s.remove(j)) =~= seq_ids(s).remove(j),
        seq_ids(s.remove(j)).no_duplicates(),
    decreases s.len(),
{
    seq_ids(s).remove_ensures(j);
    s.remove_ensures(j);
    assert(seq_ids(s.remove(j)) =~= seq_ids(s).remove(j));
    assert(seq_ids(s.remove(j)).no_duplicates());
    let k = s[j].id;
    if j == s.len() - 1 {
        assert(s.remove(j) =~= s.drop_last());
        lemma_map_of_contains(s.drop_last());
        assert(seq_ids(s.drop_last()) =~= seq_ids(s).drop_last());
        assert(!seq_ids(s.drop_last()).contains(k)) by {
            if seq_ids(s.drop_last()).contains(k) {
                let i = choose|i: int|
                    0 <= i < seq_ids(s.drop_last()).len() && seq_ids(s.drop_last())[i] == k;
                assert(seq_ids(s)[i] == k && seq_ids(s)[j] == k);
            }
        }
        assert(map_of(s).remove(k) =~= map_of(s.drop_last()));
    } else {
        let t = s.drop_last();
        assert(seq_ids(t) =~= seq_ids(s).drop_last());
        lemma_map_of_remove(t, j);
        assert(s.remove(j).drop_last() =~= t.remove(j));
        assert(s.remove(j).last() == s.last());
        assert(map_of(s.remove(j)) == map_of(t.remove(j)).insert(s.last().id, s.last().sender));
        assert(seq_ids(s)[j] != seq_ids(s)[s.len() - 1]);
        assert(map_of(t).remove(k).insert(s.last().id, s.last().sender) =~= map_of(t).insert(
            s.last().id,
            s.last().sender,
        ).remove(k));
        assert(map_of(s).remove(k) =~= map_of(s.remove(j)));
    }
}

/// The registry. Access is serialized by the caller holding it behind one
/// mutual-exclusion guard; every operation below is a short synchronous
/// critical section, never a network write.
pub struct Registry {
    entries: Vec<Entry>,
}

impl View for Registry {
    type V = Map<u128, UnboundedSender<Message>>;

    closed spec fn view(&self) -> Map<u128, UnboundedSender<Message>> {
        map_of(self.entries@)
    }
}

impl Registry {
    /// The admitted identifiers, in registration order.
    pub closed spec fn ids(&self) -> Seq<u128> {
        seq_ids(self.entries@)
    }

    /// At most one entry per identifier.
    pub closed spec fn wf(&self) -> bool {
        seq_ids(self.entries@).no_duplicates()
    }

    /// Every identifier of the mapping is an element of `ids()`, and the
    /// other way round.
    pub proof fn lemma_ids_dom(&self)
        ensures
            forall|k: u128| self@.dom().contains(k) <==> self.ids().contains(k),
    {
        lemma_map_of_contains(self.entries@);
    }

    pub fn new() -> (r: Registry)
        ensures
            r.wf(),
            r@ == Map::<u128, UnboundedSender<Message>>::empty(),
            r.ids() == Seq::<u128>::empty(),
    {
        let r = Registry { entries: Vec::new() };
        proof {
            assert(r.ids() =~= Seq::<u128>::empty());
        }
        r
    }

    /// How many connections are admitted.
    pub fn len(&self) -> (n: usize)
        requires
            self.wf(),
        ensures
            n == self.ids().len(),
            n == self@.dom().len(),
    {
        proof {
            self.lemma_ids_dom();
            assert(self@.dom() =~= self.ids().to_set());
            self.ids().unique_seq_to_set();
        }
        self.entries.len()
    }

    /// Whether `id` is currently admitted.
    pub fn contains(&self, id: u128) -> (b: bool)
        requires
            self.wf(),
        ensures
            b == self@.dom().contains(id),
    {
        let n = self.entries.len();
        let mut i: usize = 0;
        while i < n
            invariant
                n == self.entries.len(),
                0 <= i <= n,
                forall|j: int| 0 <= j < i ==> self.entries@[j].id != id,
            decreases n - i,
        {
            if self.entries[i].id == id {
                proof {
                    self.lemma_ids_dom();
                    assert(self.ids()[i as int] == id);
                    assert(self.ids().contains(id));
                }
                return true;
            }
            i += 1;
        }
        proof {
            self.lemma_ids_dom();
        }
        assert(!self.ids().contains(id)) by {
            if self.ids().contains(id) {
                let j = choose|j: int| 0 <= j < self.ids().len() && self.ids()[j] == id;
                assert(self.entries@[j].id == id);
            }
        }
        false
    }

    /// Admit a connection: insert a fresh entry. The identifier generation
    /// scheme, not a defensive check here, guarantees freshness.
    pub fn register(&mut self, id: u128, sender: UnboundedSender<Message>)
        requires
            old(self).wf(),
            !old(self)@.dom().contains(id),
        ensures
            final(self).wf(),
            final(self)@ == old(self)@.insert(id, sender),
            final(self).ids() == old(self).ids().push(id),
    {
        proof {
            self.lemma_ids_dom();
        }
        let ghost before = self.entries@;
        self.entries.push(Entry { id, sender });
        proof {
            assert(self.entries@.drop_last() =~= before);
            assert(seq_ids(self.entries@) =~= seq_ids(before).push(id));
            assert forall|i: int, j: int|
                0 <= i < j < seq_ids(self.entries@).len() implies seq_ids(self.entries@)[i]
                != seq_ids(self.entries@)[j] by {
                assert(seq_ids(self.entries@)[i] == seq_ids(before).push(id)[i]);
                assert(seq_ids(self.entries@)[j] == seq_ids(before).push(id)[j]);
                if j < seq_ids(before).len() {
                    assert(seq_ids(before)[i] != seq_ids(before)[j]);
                } else if seq_ids(before)[i] == id {
                    assert(seq_ids(before).contains(id));
                    assert(old(self).ids().contains(id));
                }
            }
        }
    }

    /// Tear an identifier down: remove its entry if present, a no-op if
    /// already absent, so that teardown is safe to invoke from both the read
    /// loop's and the write loop's failure paths.
    pub fn deregister(&mut self, id: u128)
        requires
            old(self).wf(),
        ensures
            final(self).wf(),
            final(self)@ == old(self)@.remove(id),
    {
        let n = self.entries.len();
        let mut i: usize = 0;
        while i < n
            invariant
                old(self).wf(),
                self.entries@ == old(self).entries@,
                n == self.entries.len(),
                0 <= i <= n,
                forall|j: int| 0 <= j < i ==> self.entries@[j].id != id,
            decreases n - i,
        {
            if self.entries[i].id == id {
                proof {
                    lemma_map_of_remove(self.entries@, i as int);
                }
                let _ = self.entries.remove(i);
                return;
            }
            i += 1;
        }
        proof {
            self.lemma_ids_dom();
            assert(!self.ids().contains(id)) by {
                if self.ids().contains(id) {
                    let j = choose|j: int| 0 <= j < self.ids().len() && self.ids()[j] == id;
                    assert(self.entries@[j].id == id);
                }
            }
            assert(self@.remove(id) =~= self@);
        }
    }

    /// Fan one frame out: enqueue `payload` onto the outbound queue of every
    /// admitted connection other than `excluded`, and report the identifiers
    /// reached, in iteration order, together with those whose enqueue failed.
    /// A recipient whose queue is already defunct is reported and skipped,
    /// without aborting delivery to the rest and without touching the
    /// broadcaster.
    pub fn broadcast(&self, excluded: u128, payload: &str) -> (r: Fanout)
        requires
            self.wf(),
        ensures
            r.recipients@ == self.ids().filter(|x: u128| x != excluded),
            r.recipients@.no_duplicates(),
            forall|id: u128| #[trigger] r.recipients@.contains(id) <==> (self@.dom().contains(id)
                && id != excluded),
            r.failed@.no_duplicates(),
            forall|id: u128| #[trigger] r.failed@.contains(id) ==> r.recipients@.contains(id),
    {
        let n = self.entries.len();
        let mut recipients: Vec<u128> = Vec::new();
        let mut failed: Vec<u128> = Vec::new();
        let mut i: usize = 0;
        while i < n
            invariant
                self.wf(),
                n == self.entries.len(),
                0 <= i <= n,
                recipients@ == seq_ids(self.entries@).take(i as int).filter(
                    |x: u128| x != excluded,
                ),
                failed@.no_duplicates(),
                forall|id: u128| #[trigger] failed@.contains(id) ==> recipients@.contains(id),
            decreases n - i,
        {
            let e = &self.entries[i];
            let ghost taken = seq_ids(self.entries@).take(i as int);
            let ghost pred = |x: u128| x != excluded;
            proof {
                assert(!recipients@.contains(e.id)) by {
                    if recipients@.contains(e.id) {
                        taken.lemma_filter_contains_rev(pred, e.id);
                        let j = choose|j: int| 0 <= j < taken.len() && taken[j] == e.id;
                        assert(seq_ids(self.entries@)[j] == seq_ids(self.entries@)[i as int]);
                    }
                }
            }
            let ghost failed_before = failed@;
            let ghost recipients_before = recipients@;
            if e.id != excluded {
                let ok = send_text(&e.sender, payload);
                recipients.push(e.id);
                if !ok {
                    failed.push(e.id);
                }
            }
            proof {
                broadcast use vstd::seq_lib::group_seq_properties;

                taken.lemma_filter_push(e.id, pred);
                assert(seq_ids(self.entries@).take(i + 1) =~= taken.push(e.id));
                if failed@ != failed_before {
                    assert(failed@ == failed_before.push(e.id));
                    assert(!failed_before.contains(e.id));
                    assert forall|a: int, b: int|
                        0 <= a < b < failed@.len() implies failed@[a] != failed@[b] by {
                        if b == failed_before.len() && failed_before[a] == e.id {
                            assert(failed_before.contains(e.id));
                        }
                    }
                }
            }
            i += 1;
        }
        proof {
            assert(seq_ids(self.entries@).take(n as int) =~= self.ids());
            self.lemma_ids_dom();
            broadcast use vstd::seq_lib::group_filter_ensures;

            let pred = |x: u128| x != excluded;
            assert forall|id: u128| #[trigger] recipients@.contains(id) implies (
            self@.dom().contains(id) && id != excluded) by {
                self.ids().lemma_filter_contains_rev(pred, id);
            }
            assert forall|id: u128| self@.dom().contains(id) && id != excluded implies recipients@
                .contains(id) by {
                assert(self.ids().contains(id));
                let j = choose|j: int| 0 <= j < self.ids().len() && self.ids()[j] == id;
                assert(self.ids().filter(pred).contains(self.ids()[j]));
            }
            lemma_filter_no_duplicates(self.ids(), pred);
        }
        Fanout { recipients, failed }
    }
}

/// What one fan-out did: the identifiers whose queues the frame was enqueued
/// for — every admitted one but the excluded — and among them those whose
/// enqueue failed because the consuming write loop was already gone. Partial
/// delivery is the accepted failure mode; the failed ones are reported, never
/// fatal.
pub struct Fanout {
    pub recipients: Vec<u128>,
    pub failed: Vec<u128>,
}

/// Filtering a duplicate-free sequence leaves no duplicates either.
proof fn lemma_filter_no_duplicates(s: Seq<u128>, pred: spec_fn(u128) -> bool)
    requires
        s.no_duplicates(),
    ensures
        s.filter(pred).no_duplicates(),
    decreases s.len(),
{
    reveal(Seq::filter);
    if s.len() > 0 {
        let t = s.drop_last();
        assert(t.no_duplicates()) by {
            assert(forall|j: int| 0 <= j < t.len() ==> t[j] == s[j]);
        }
        lemma_filter_no_duplicates(t, pred);
        if pred(s.last()) {
            assert(!t.filter(pred).contains(s.last())) by {
                if t.filter(pred).contains(s.last()) {
                    t.lemma_filter_contains_rev(pred, s.last());
                    let j = choose|j: int| 0 <= j < t.len() && t[j] == s.last();
                    assert(s[j] == s[s.len() - 1]);
                }
            }
            lemma_no_dup_in_concat(t.filter(pred), seq![s.last()]);
            assert(s.filter(pred) =~= t.filter(pred) + seq![s.last()]);
        }
    }
}

} // verus!
