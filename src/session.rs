//! Server-side session records: a revocable, expiring map from token id to
//! user id, kept in an outside key-value store.
//!
//! The library decides which store commands to run; the caller runs them
//! and hands back what the store answered. The spec functions here model
//! the store, so that the rules can be stated over it.

use vstd::prelude::*;

verus! {

/// A record as the store holds it: the user id, and the instant (in seconds
/// since the Unix epoch) from which it is gone.
pub struct SessionEntry {
    pub user_id: Seq<u8>,
    pub lapses_at: nat,
}

/// A command for the session store.
#[derive(Clone, Debug)]
pub enum SessionCommand {
    /// Store `token_id -> user_id`, expiring after `ttl_seconds`.
    Put { token_id: Vec<u8>, user_id: Vec<u8>, ttl_seconds: u64 },
    /// Read the user id stored under `token_id`.
    Get { token_id: Vec<u8> },
    /// Delete the record under `token_id`; deleting an absent one succeeds.
    Remove { token_id: Vec<u8> },
}

/// What a session command means, over plain values.
pub enum SessionOp {
    Put { token_id: Seq<u8>, user_id: Seq<u8>, ttl_seconds: nat },
    Get { token_id: Seq<u8> },
    Remove { token_id: Seq<u8> },
}

impl View for SessionCommand {
    type V = SessionOp;

    open spec fn view(&self) -> SessionOp {
        match self {
            SessionCommand::Put { token_id, user_id, ttl_seconds } => SessionOp::Put {
                token_id: token_id@,
                user_id: user_id@,
                ttl_seconds: *ttl_seconds as nat,
            },
            SessionCommand::Get { token_id } => SessionOp::Get { token_id: token_id@ },
            SessionCommand::Remove { token_id } => SessionOp::Remove { token_id: token_id@ },
        }
    }
}

/// The store after running `op` at time `now`.
pub open spec fn apply_op(
    store: Map<Seq<u8>, SessionEntry>,
    op: SessionOp,
    now: nat,
) -> Map<Seq<u8>, SessionEntry> {
    match op {
        SessionOp::Put { token_id, user_id, ttl_seconds } => store.insert(
            token_id,
            SessionEntry { user_id, lapses_at: now + ttl_seconds },
        ),
        SessionOp::Get { .. } => store,
        SessionOp::Remove { token_id } => store.remove(token_id),
    }
}

/// What a read of `token_id` at time `now` returns: the user id of a live
/// record, or nothing for an absent or lapsed one.
pub open spec fn session_lookup(store: Map<Seq<u8>, SessionEntry>, token_id: Seq<u8>, now: nat) -> Option<
    Seq<u8>,
> {
    if store.contains_key(token_id) && now < store[token_id].lapses_at {
        Some(store[token_id].user_id)
    } else {
        None
    }
}

/// What the store answered to a read.
#[derive(Clone, Debug)]
pub enum SessionLookup {
    /// A live record holds this user id.
    Found(Vec<u8>),
    /// No live record: never stored, revoked, or lapsed.
    Absent,
    /// The store could not be reached or failed.
    Unavailable,
}

/// The command that records a new session.
pub fn put_command(token_id: &Vec<u8>, user_id: &Vec<u8>, ttl_seconds: u64) -> (r: SessionCommand)
    ensures
        r@ == (SessionOp::Put { token_id: token_id@, user_id: user_id@, ttl_seconds: ttl_seconds as nat }),
{
    SessionCommand::Put { token_id: token_id.clone(), user_id: user_id.clone(), ttl_seconds }
}

/// The command that reads a session.
pub fn get_command(token_id: &Vec<u8>) -> (r: SessionCommand)
    ensures
        r@ == (SessionOp::Get { token_id: token_id@ }),
{
    SessionCommand::Get { token_id: token_id.clone() }
}

/// The command that revokes a session.
pub fn remove_command(token_id: &Vec<u8>) -> (r: SessionCommand)
    ensures
        r@ == (SessionOp::Remove { token_id: token_id@ }),
{
    SessionCommand::Remove { token_id: token_id.clone() }
}

/// A record that was put is read back, with its user id, until its time to
/// live has passed, and is gone from then on.
pub proof fn lemma_put_then_lookup(
    store: Map<Seq<u8>, SessionEntry>,
    token_id: Seq<u8>,
    user_id: Seq<u8>,
    ttl_seconds: nat,
    now: nat,
    later: nat,
)
    requires
        now <= later,
    ensures
        ({
            let after = apply_op(store, SessionOp::Put { token_id, user_id, ttl_seconds }, now);
            &&& later < now + ttl_seconds ==> session_lookup(after, token_id, later) == Some(user_id)
            &&& later >= now + ttl_seconds ==> session_lookup(after, token_id, later) is None
        }),
{
}

/// After a record is removed, reading it gives nothing, at any time;
/// removing an absent record leaves the store as it was.
pub proof fn lemma_remove_then_lookup(
    store: Map<Seq<u8>, SessionEntry>,
    token_id: Seq<u8>,
    now: nat,
    later: nat,
)
    ensures
        session_lookup(apply_op(store, SessionOp::Remove { token_id }, now), token_id, later) is None,
        !store.contains_key(token_id) ==> apply_op(store, SessionOp::Remove { token_id }, now)
            == store,
{
    if !store.contains_key(token_id) {
        assert(store.remove(token_id) =~= store);
    }
}

/// Records under other token ids are untouched by a put or a remove: two
/// sessions never alias one another.
pub proof fn lemma_other_sessions_untouched(
    store: Map<Seq<u8>, SessionEntry>,
    op: SessionOp,
    other: Seq<u8>,
    now: nat,
    later: nat,
)
    requires
        match op {
            SessionOp::Put { token_id, .. } => token_id != other,
            SessionOp::Get { .. } => true,
            SessionOp::Remove { token_id } => token_id != other,
        },
    ensures
        session_lookup(apply_op(store, op, now), other, later) == session_lookup(store, other, later),
{
}

} // verus!
