//! The worker pool's event handling.
//!
//! A fixed pool of workers takes connect, disconnect and message events off
//! bounded mailboxes and delegates to the business-logic consumer. The
//! consumer is the embedder's callback; a worker here is the decision that
//! runs around its answer: what the consumer said, what the registry did,
//! and in which order the registry is touched.

use vstd::prelude::*;

use crate::msg::{ActorError, ActorMsg, Connect, Disconnect};
use crate::room::Room;

verus! {

/// The bound on each worker's mailbox: bursts are absorbed up to this many
/// events, beyond which the sender is pushed back rather than the queue
/// growing without bound.
pub const WORKER_MAILBOX_CAPACITY: usize = 2048;

/// The bound on each connection actor's mailbox.
pub const CONN_MAILBOX_CAPACITY: usize = 1000;

/// The default number of worker threads when the embedder names none.
pub const DEFAULT_WORKER_THREADS: usize = 3;

/// How many workers the pool holds for a requested thread count: two per
/// thread, with the default when none is requested.
pub open spec fn spec_worker_pool_size(worker_num: Option<usize>) -> int {
    match worker_num {
        Some(n) => 2 * n,
        None => 2 * DEFAULT_WORKER_THREADS,
    }
}

/// The size of the worker pool spawned for a requested thread count.
pub fn worker_pool_size(worker_num: Option<usize>) -> (r: usize)
    requires
        worker_num matches Some(n) ==> n <= usize::MAX / 2,
    ensures
        r == spec_worker_pool_size(worker_num),
{
    match worker_num {
        Some(n) => 2 * n,
        None => 2 * DEFAULT_WORKER_THREADS,
    }
}

/// Draws a uniformly random index below `len`.
///
/// Relies on `rand::random_range` over `0..len`, which panics on an empty
/// range and otherwise samples the range uniformly with the thread-local
/// generator; nothing but the bound is assumed of the draw.
#[verifier::external_body]
fn random_below(len: usize) -> (r: usize)
    requires
        len > 0,
    ensures
        r < len,
{
    rand::random_range(0..len)
}

/// Picks the worker to handle one event: a uniform random choice among the
/// pool, made anew at each call site, so no shared counter serializes the
/// connections. An empty pool has no worker to pick.
pub fn assign_worker(pool_len: usize) -> (r: Option<usize>)
    ensures
        pool_len == 0 ==> r is None,
        pool_len > 0 ==> (r matches Some(i) && i < pool_len),
{
    if pool_len == 0 {
        None
    } else {
        Some(random_below(pool_len))
    }
}

/// A worker's handling of a connect event, around the consumer's answer
/// `status`: only an acceptance reaches the registry, where the session is
/// added atomically — or rejected as a duplicate, in which case the caller
/// tears the connection down without it ever having been registered. Any
/// other answer is passed through untouched and the registry is not
/// touched either.
pub fn handle_connect<C>(
    room: &mut Room<C>,
    msg: Connect<C>,
    status: Result<ActorMsg, ActorError>,
) -> (r: Result<ActorMsg, ActorError>)
    requires
        old(room).wf(),
    ensures
        final(room).wf(),
        status matches Ok(ActorMsg::Accepted) ==> Room::add_step(
            *old(room),
            *final(room),
            msg.conn,
            msg.addr,
            r,
        ),
        !(status matches Ok(ActorMsg::Accepted)) ==> *final(room) == *old(room) && r == status,
{
    match status {
        Ok(ActorMsg::Accepted) => room.add(msg),
        other => other,
    }
}

/// A worker's handling of a disconnect event: the session leaves the
/// registry first, and only then is the consumer notified (by the caller),
/// so a concurrent broadcast stops targeting the session as early as
/// possible. Removal of an already-gone session is a no-op.
pub fn handle_disconnect<C>(room: &mut Room<C>, msg: &Disconnect) -> (r: Result<
    ActorMsg,
    ActorError,
>)
    requires
        old(room).wf(),
    ensures
        final(room).wf(),
        Room::remove_step(*old(room), *final(room), msg.conn),
        r == Ok::<ActorMsg, ActorError>(ActorMsg::Accepted),
{
    room.remove(msg)
}

} // verus!
