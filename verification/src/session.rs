//! The two ends of a connection that the relay writes to: its queue of lines, and the signal
//! that closes it.
use serde_json::Value;
use std::sync::Arc;
use tokio::sync::mpsc;
use tokio::sync::watch;
use vstd::prelude::*;

use crate::json::{json_of, json_text, reads_back, value_text, Json};

verus! {

/// The sending end of a bounded queue of `tokio`.
#[verifier::external_type_specification]
#[verifier::external_body]
#[verifier::reject_recursive_types(T)]
pub struct ExQueueSender<T>(mpsc::Sender<T>);

/// The sending end of a watched value of `tokio`.
#[verifier::external_type_specification]
#[verifier::external_body]
#[verifier::reject_recursive_types(T)]
pub struct ExWatchSender<T>(watch::Sender<T>);

/// The channel that a sender belongs to.
pub uninterp spec fn channel_of(tx: mpsc::Sender<Arc<String>>) -> int;

/// The lines that a sender has been told to put into its channel so far, the first one first,
/// each with whether the channel took it. The receiver takes lines out meanwhile: this is what
/// was offered through this sender, not what waits there.
pub uninterp spec fn offered_lines(tx: mpsc::Sender<Arc<String>>) -> Seq<(Seq<char>, bool)>;

/// The watched value that a sender belongs to.
pub uninterp spec fn watch_of(shutdown: watch::Sender<bool>) -> int;

/// The values that a sender has been told to send so far, the first one first.
pub uninterp spec fn sent_signals(shutdown: watch::Sender<bool>) -> Seq<bool>;

/// `tokio::sync::mpsc::Sender::try_send`: puts a line into the channel, or leaves the channel as
/// it was, and says which. Which of the two it is depends on the room that the receiver has left
/// and on whether it is still there, so nothing is claimed of that.
#[verifier::external_body]
fn try_send(tx: &mut mpsc::Sender<Arc<String>>, line: Arc<String>) -> (queued: bool)
    ensures
        channel_of(*final(tx)) == channel_of(*old(tx)),
        offered_lines(*final(tx)) == offered_lines(*old(tx)).push((line@, queued)),
{
    tx.try_send(line).is_ok()
}

/// `tokio::sync::mpsc::Sender::same_channel`: whether two senders belong to one channel.
#[verifier::external_body]
fn same_channel(a: &mpsc::Sender<Arc<String>>, b: &mpsc::Sender<Arc<String>>) -> (same: bool)
    ensures
        same == (channel_of(*a) == channel_of(*b)),
{
    a.same_channel(b)
}

/// `tokio::sync::mpsc::Sender::clone`: another sender of the same channel, through which nothing
/// has been offered yet.
#[verifier::external_body]
fn another_sender(tx: &mpsc::Sender<Arc<String>>) -> (other: mpsc::Sender<Arc<String>>)
    ensures
        channel_of(other) == channel_of(*tx),
        offered_lines(other) == Seq::<(Seq<char>, bool)>::empty(),
{
    tx.clone()
}

/// `tokio::sync::watch::Sender::send`: sends a value to whoever watches. Whether anybody still
/// does is left open.
#[verifier::external_body]
fn send_signal(shutdown: &mut watch::Sender<bool>, value: bool)
    ensures
        watch_of(*final(shutdown)) == watch_of(*old(shutdown)),
        sent_signals(*final(shutdown)) == sent_signals(*old(shutdown)).push(value),
{
    let _ = shutdown.send(value);
}

/// `tokio::sync::watch::Sender::clone`: another sender of the same watched value, which has sent
/// nothing yet.
#[verifier::external_body]
fn another_signal(shutdown: &watch::Sender<bool>) -> (other: watch::Sender<bool>)
    ensures
        watch_of(other) == watch_of(*shutdown),
        sent_signals(other) == Seq::<bool>::empty(),
{
    shutdown.clone()
}

/// What the relay needs to reach a connection.
pub struct Session {
    /// The queue of lines that are written to the peer.
    pub tx: mpsc::Sender<Arc<String>>,
    /// Sending true closes the connection.
    pub shutdown: watch::Sender<bool>,
}

impl Session {
    /// The channel that the lines go to: it tells one connection from another.
    pub open spec fn channel(self) -> int {
        channel_of(self.tx)
    }

    /// The lines offered to the queue through this session, each with whether it was taken.
    pub open spec fn offers(self) -> Seq<(Seq<char>, bool)> {
        offered_lines(self.tx)
    }

    /// The signals given through this session.
    pub open spec fn signals(self) -> Seq<bool> {
        sent_signals(self.shutdown)
    }
}

/// Two sessions write to the same queue and give the same signal.
pub open spec fn same_ends(a: Session, b: Session) -> bool {
    a.channel() == b.channel() && watch_of(a.shutdown) == watch_of(b.shutdown)
}

/// A new session for the connection of another one.
pub open spec fn is_twin(twin: Session, session: Session) -> bool {
    &&& same_ends(twin, session)
    &&& twin.offers() == Seq::<(Seq<char>, bool)>::empty()
    &&& twin.signals() == Seq::<bool>::empty()
}

/// A line was offered to the queue once, and taken or not. Nothing else was done.
pub open spec fn offered(before: Session, after: Session, line: Seq<char>, taken: bool) -> bool {
    &&& same_ends(after, before)
    &&& after.offers() == before.offers().push((line, taken))
    &&& after.signals() == before.signals()
}

/// The connection was told to close. Nothing else was done.
pub open spec fn closed(before: Session, after: Session) -> bool {
    &&& same_ends(after, before)
    &&& after.offers() == before.offers()
    &&& after.signals() == before.signals().push(true)
}

/// A line was offered to the queue once, and was not taken, upon which the connection was told to
/// close.
pub open spec fn overrun(before: Session, after: Session, line: Seq<char>) -> bool {
    &&& same_ends(after, before)
    &&& after.offers() == before.offers().push((line, false))
    &&& after.signals() == before.signals().push(true)
}

/// A session was handed a line: the queue took it, or it did not and the connection was told to
/// close.
pub open spec fn delivered(before: Session, after: Session, line: Seq<char>) -> bool {
    offered(before, after, line, true) || overrun(before, after, line)
}

/// A connection was answered with a JSON value: its text, which is a single line that reads back
/// as the value, was offered to the queue.
pub open spec fn answered(before: Session, after: Session, json: Json, queued: bool) -> bool {
    &&& !json_text(json).contains('\n')
    &&& reads_back(json)
    &&& offered(before, after, json_text(json), queued)
}

/// Hands a line to a session. A session that does not take it is slow or gone, and is closed.
pub fn deliver(session: &mut Session, line: Arc<String>)
    ensures
        delivered(*old(session), *final(session), line@),
{
    if !try_send(&mut session.tx, line) {
        send_signal(&mut session.shutdown, true);
    }
}

/// Answers a connection. Returns whether there was room in its queue.
pub fn reply(session: &mut Session, message: &Value) -> (queued: bool)
    ensures
        answered(*old(session), *final(session), json_of(*message), queued),
{
    let text = value_text(message);
    try_send(&mut session.tx, Arc::new(text))
}

/// Tells a connection to close.
pub fn close(session: &mut Session)
    ensures
        closed(*old(session), *final(session)),
{
    send_signal(&mut session.shutdown, true);
}

/// Another session for the same connection.
pub fn twin(session: &Session) -> (other: Session)
    ensures
        is_twin(other, *session),
{
    Session { tx: another_sender(&session.tx), shutdown: another_signal(&session.shutdown) }
}

/// Whether two sessions are for the same connection.
pub fn same_connection(a: &Session, b: &Session) -> (same: bool)
    ensures
        same == (a.channel() == b.channel()),
{
    same_channel(&a.tx, &b.tx)
}

} // verus!
