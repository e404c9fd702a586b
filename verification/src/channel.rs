//! The connection channel adapter: the enqueue-only side of a connection's
//! outbound queue. Each connection's write loop is the sole consumer of its
//! queue; the registry and broadcasters only ever enqueue into it, through
//! [`send_text`], which never blocks.

use vstd::prelude::*;

verus! {

#[verifier::external_type_specification]
#[verifier::external_body]
#[verifier::reject_recursive_types(T)]
pub struct ExUnboundedSender<T>(tokio::sync::mpsc::UnboundedSender<T>);

#[verifier::external_type_specification]
#[verifier::external_body]
pub struct ExWsMessage(warp::ws::Message);

/// Relies on warp's `Message::text` and tokio's `UnboundedSender::send`:
/// enqueues one text frame onto a connection's unbounded outbound queue and
/// returns at once. The enqueue fails, and `false` comes back, only when the
/// consuming write loop has already gone away; nothing else can be promised
/// of it, since the receiving half lives on another task.
#[verifier::external_body]
pub(crate) fn send_text(
    sender: &tokio::sync::mpsc::UnboundedSender<warp::ws::Message>,
    payload: &str,
) -> (ok: bool) {
    sender.send(warp::ws::Message::text(payload)).is_ok()
}

} // verus!
