//! The connection lifecycle controller. Admission assigns a fresh 128-bit
//! identifier and registers the connection's send handle; a decoded inbound
//! frame runs through the protocol handler and, when it asks for one, a
//! broadcast that excludes the sender; teardown is the registry's idempotent
//! removal. The read and write loops that feed and drain a connection live
//! with the network plumbing outside this crate and call in here.

use vstd::prelude::*;
use crate::protocol::{
    plan_frame, now_rfc3339, is_update, data_field_of, ts_field_of, payload_text, quote_text,
    json_safe_text, rfc3339_text, lemma_rfc3339_text_is_json_safe,
};
use crate::registry::Registry;
use tokio::sync::mpsc::UnboundedSender;
use warp::ws::Message;

verus! {

/// What handling one inbound frame did: the envelope fanned out, if any, the
/// identifiers it was enqueued for, in iteration order, and among them those
/// whose enqueue failed — reported so the caller can log them, never fatal.
pub struct Delivery {
    pub payload: Option<String>,
    pub recipients: Vec<u128>,
    pub failed: Vec<u128>,
}

/// Relies on uuid's `Uuid::new_v4`: a freshly drawn random 128-bit
/// identifier. Nothing can be promised of a random value; admission itself
/// checks freshness against the registry.
#[verifier::external_body]
fn fresh_id() -> (id: u128) {
    uuid::Uuid::new_v4().as_u128()
}

/// Admit one connection under a given identifier: register its send handle
/// if and only if the identifier is not already admitted, and report which.
pub fn admit_with(reg: &mut Registry, id: u128, sender: UnboundedSender<Message>) -> (ok: bool)
    requires
        old(reg).wf(),
    ensures
        final(reg).wf(),
        ok == !old(reg)@.dom().contains(id),
        ok ==> final(reg)@ == old(reg)@.insert(id, sender),
        !ok ==> final(reg)@ == old(reg)@,
{
    if reg.contains(id) {
        false
    } else {
        reg.register(id, sender);
        true
    }
}

/// Admit one connection: draw a fresh identifier and register its send
/// handle under it. `None` — with the registry untouched — only in the
/// vanishingly unlikely event that the drawn identifier is already admitted;
/// `admit_with` owes admission for every identifier that is in fact fresh.
pub fn admit_connection(reg: &mut Registry, sender: UnboundedSender<Message>) -> (r: Option<u128>)
    requires
        old(reg).wf(),
    ensures
        final(reg).wf(),
        r matches Some(id) ==> !old(reg)@.dom().contains(id) && final(reg)@ == old(reg)@.insert(
            id,
            sender,
        ),
        r is None ==> final(reg)@ == old(reg)@,
{
    let id = fresh_id();
    if admit_with(reg, id, sender) {
        Some(id)
    } else {
        None
    }
}

/// Handle one inbound text frame from the admitted connection `sender_id`:
/// decode and classify it, and fan a `user_update` out to every other
/// admitted connection — never back to the sender. Any frame that is not a
/// `user_update` object, malformed ones included, is accepted and ignored.
pub fn handle_text_frame(reg: &Registry, sender_id: u128, text: &str) -> (r: Delivery)
    requires
        reg.wf(),
    ensures
        !is_update(text@) ==> r.payload is None && r.recipients@ == Seq::<u128>::empty()
            && r.failed@ == Seq::<u128>::empty(),
        forall|id: u128| #[trigger] r.failed@.contains(id) ==> r.recipients@.contains(id),
        r.failed@.no_duplicates(),
        is_update(text@) ==> r.recipients@ == reg.ids().filter(|x: u128| x != sender_id),
        is_update(text@) ==> (forall|id: u128| #[trigger] r.recipients@.contains(id) <==> (
        reg@.dom().contains(id) && id != sender_id)),
        is_update(text@) && ts_field_of(text@) is Some ==> (r.payload matches Some(p) && p@
            == payload_text(data_field_of(text@), ts_field_of(text@)->0)),
        is_update(text@) && ts_field_of(text@) is None ==> (r.payload matches Some(p)
            && exists|now: Seq<char>|
            rfc3339_text(now) && json_safe_text(now) && p@ == payload_text(
                data_field_of(text@),
                quote_text(now),
            )),
{
    let now = now_rfc3339();
    match plan_frame(text, now.as_str()) {
        Some(payload) => {
            let fanout = reg.broadcast(sender_id, payload.as_str());
            proof {
                if ts_field_of(text@) is None {
                    lemma_rfc3339_text_is_json_safe(now@);
                    assert(exists|n: Seq<char>|
                        rfc3339_text(n) && json_safe_text(n) && payload@ == payload_text(
                            data_field_of(text@),
                            quote_text(n),
                        )) by {
                        assert(rfc3339_text(now@) && json_safe_text(now@) && payload@
                            == payload_text(data_field_of(text@), quote_text(now@)));
                    }
                }
            }
            Delivery { payload: Some(payload), recipients: fanout.recipients, failed: fanout.failed }
        },
        None => Delivery { payload: None, recipients: Vec::new(), failed: Vec::new() },
    }
}

/// Identifier uniqueness across admissions: identifiers handed out in turn,
/// each fresh against every identifier admitted before it — which is what
/// `admit_with`, and so `admit_connection`, ensures of each one, the starting
/// registry's domain being `dom` — are pairwise distinct, however many.
pub proof fn lemma_admitted_ids_distinct(dom: Set<u128>, ids: Seq<u128>)
    requires
        forall|k: int|
            0 <= k < ids.len() ==> !(dom + ids.take(k).to_set()).contains(#[trigger] ids[k]),
    ensures
        ids.no_duplicates(),
{
    assert forall|i: int, j: int| 0 <= i < j < ids.len() implies ids[i] != ids[j] by {
        assert(ids.take(j)[i] == ids[i]);
        assert(ids.take(j).contains(ids[i]));
        assert((dom + ids.take(j).to_set()).contains(ids[i]));
    }
}

/// Deregistration is idempotent: tearing the same identifier down a second
/// time — as when a connection's read and write loops fail concurrently and
/// both run the teardown path — leaves the registry mapping exactly as the
/// first teardown left it.
pub proof fn lemma_teardown_idempotent(m: Map<u128, UnboundedSender<Message>>, id: u128)
    ensures
        m.remove(id).remove(id) == m.remove(id),
{
    assert(m.remove(id).remove(id) =~= m.remove(id));
}

} // verus!
