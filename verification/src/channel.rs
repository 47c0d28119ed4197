//! A registry of channels by numeric handle: one-shot channels and unbounded
//! streams, with a record of which kind each live handle is.
use vstd::prelude::*;
use std::collections::HashMap;
use futures::channel::mpsc::{UnboundedReceiver, UnboundedSender};

verus! {

broadcast use vstd::std_specs::hash::group_hash_axioms;

#[verifier::external_type_specification]
#[verifier::external_body]
#[verifier::reject_recursive_types(T)]
pub struct ExOneshotSender<T>(oneshot::Sender<T>);

#[verifier::external_type_specification]
#[verifier::external_body]
#[verifier::reject_recursive_types(T)]
pub struct ExOneshotReceiver<T>(oneshot::Receiver<T>);

/// The error a one-shot receiver yields as a future; Verus needs it declared
/// to accept the receiver type.
#[verifier::external_type_specification]
#[verifier::external_body]
pub struct ExOneshotRecvError(oneshot::RecvError);

#[verifier::external_type_specification]
#[verifier::external_body]
#[verifier::reject_recursive_types(T)]
pub struct ExUnboundedSender<T>(UnboundedSender<T>);

#[verifier::external_type_specification]
#[verifier::external_body]
#[verifier::reject_recursive_types(T)]
pub struct ExUnboundedReceiver<T>(UnboundedReceiver<T>);

/// Calls `oneshot::channel`: a fresh pair of endpoints.  Nothing is stated
/// of them; they are opaque.
#[verifier::external_body]
fn oneshot_channel<M>() -> (r: (oneshot::Sender<M>, oneshot::Receiver<M>)) {
    oneshot::channel()
}

/// Calls `oneshot::Sender::send` and reports whether it succeeded.  Whether
/// it does depends on whether the receiver is still alive, so nothing is
/// stated of the result.
#[verifier::external_body]
fn oneshot_send<M>(tx: oneshot::Sender<M>, val: M) -> (r: bool) {
    tx.send(val).is_ok()
}

/// Calls `futures::channel::mpsc::unbounded`: a fresh pair of endpoints.
/// Nothing is stated of them; they are opaque.
#[verifier::external_body]
fn unbounded_channel<M>() -> (r: (UnboundedSender<M>, UnboundedReceiver<M>)) {
    futures::channel::mpsc::unbounded()
}

/// Calls `UnboundedSender::unbounded_send`; its outcome depends on whether
/// the receiver is still alive and is discarded.
#[verifier::external_body]
fn unbounded_send<M>(tx: &UnboundedSender<M>, val: M) {
    let _ = tx.unbounded_send(val);
}

/// A channel handle.
pub type ChannelHandle = u64;

#[derive(Debug)]
pub enum ChannelError {
    SendError(String),
    RecvError(String),
    HandleNotFound,
    HandleIsOneshotNotFound,
    ChannelClosed,
}

/// The registry.
#[verifier::reject_recursive_types(M)]
pub struct ChannelManager<M> {
    current_handle: u64,
    handle_is_oneshot_tracker: HashMap<u64, bool>,
    oneshot_tx: HashMap<u64, oneshot::Sender<M>>,
    oneshot_rx: HashMap<u64, oneshot::Receiver<M>>,
    stream_tx: HashMap<u64, UnboundedSender<M>>,
    stream_rx: HashMap<u64, UnboundedReceiver<M>>,
}

impl<M> ChannelManager<M> {
    /// The next handle to be given out.
    pub closed spec fn next_handle(&self) -> u64 {
        self.current_handle
    }

    /// For each live handle, whether it is a one-shot channel.
    pub closed spec fn kinds(&self) -> Map<u64, bool> {
        self.handle_is_oneshot_tracker@
    }

    /// The unused one-shot senders, by handle.
    pub closed spec fn oneshot_sender_map(&self) -> Map<u64, oneshot::Sender<M>> {
        self.oneshot_tx@
    }

    /// The one-shot receivers not yet taken, by handle.
    pub closed spec fn oneshot_receiver_map(&self) -> Map<u64, oneshot::Receiver<M>> {
        self.oneshot_rx@
    }

    /// The stream senders, by handle.
    pub closed spec fn stream_sender_map(&self) -> Map<u64, UnboundedSender<M>> {
        self.stream_tx@
    }

    /// The stream receivers in place, by handle.
    pub closed spec fn stream_receiver_map(&self) -> Map<u64, UnboundedReceiver<M>> {
        self.stream_rx@
    }

    /// Handles with a one-shot sender that has not been used.
    pub closed spec fn oneshot_senders(&self) -> Set<u64> {
        self.oneshot_tx@.dom()
    }

    /// Handles with a one-shot receiver not yet taken.
    pub closed spec fn oneshot_receivers(&self) -> Set<u64> {
        self.oneshot_rx@.dom()
    }

    /// Handles with a stream sender.
    pub closed spec fn stream_senders(&self) -> Set<u64> {
        self.stream_tx@.dom()
    }

    /// Handles with a stream receiver in place.
    pub closed spec fn stream_receivers(&self) -> Set<u64> {
        self.stream_rx@.dom()
    }

    /// An empty registry whose first handle is 0.
    pub fn new() -> (r: ChannelManager<M>)
        ensures
            r.next_handle() == 0,
            r.kinds() == Map::<u64, bool>::empty(),
            r.oneshot_senders() == Set::<u64>::empty(),
            r.oneshot_receivers() == Set::<u64>::empty(),
            r.stream_senders() == Set::<u64>::empty(),
            r.stream_receivers() == Set::<u64>::empty(),
    {
        let r = ChannelManager {
            current_handle: 0,
            handle_is_oneshot_tracker: HashMap::new(),
            oneshot_tx: HashMap::new(),
            oneshot_rx: HashMap::new(),
            stream_tx: HashMap::new(),
            stream_rx: HashMap::new(),
        };
        proof {
            assert(r.oneshot_senders() =~= Set::<u64>::empty());
            assert(r.oneshot_receivers() =~= Set::<u64>::empty());
            assert(r.stream_senders() =~= Set::<u64>::empty());
            assert(r.stream_receivers() =~= Set::<u64>::empty());
        }
        r
    }

    /// Hands out the next handle and advances the counter, wrapping at the
    /// top of `u64`.
    pub fn handle(&mut self) -> (r: ChannelHandle)
        ensures
            final(self).oneshot_sender_map() == old(self).oneshot_sender_map(),
            final(self).oneshot_receiver_map() == old(self).oneshot_receiver_map(),
            final(self).stream_sender_map() == old(self).stream_sender_map(),
            final(self).stream_receiver_map() == old(self).stream_receiver_map(),
            r == old(self).next_handle(),
            final(self).next_handle() == (if old(self).next_handle() == u64::MAX {
                0
            } else {
                (old(self).next_handle() + 1) as u64
            }),
            final(self).kinds() == old(self).kinds(),
            final(self).oneshot_senders() == old(self).oneshot_senders(),
            final(self).oneshot_receivers() == old(self).oneshot_receivers(),
            final(self).stream_senders() == old(self).stream_senders(),
            final(self).stream_receivers() == old(self).stream_receivers(),
    {
        let h = self.current_handle;
        self.current_handle = self.current_handle.wrapping_add(1);
        h
    }

    /// Whether `handle` is a one-shot channel; unknown handles are refused.
    pub fn handle_is_oneshot(&self, handle: &ChannelHandle) -> (r: Result<bool, ChannelError>)
        ensures
            self.kinds().contains_key(*handle) ==> (r matches Ok(b) && b == self.kinds()[*handle]),
            !self.kinds().contains_key(*handle) ==> r matches Err(
                ChannelError::HandleIsOneshotNotFound,
            ),
    {
        match self.handle_is_oneshot_tracker.get(handle) {
            Some(res) => Ok(*res),
            None => Err(ChannelError::HandleIsOneshotNotFound),
        }
    }

    /// Opens a one-shot channel under a fresh handle.
    pub fn create_oneshot(&mut self) -> (r: ChannelHandle)
        ensures
            final(self).oneshot_sender_map().remove(r) == old(self).oneshot_sender_map().remove(r),
            final(self).oneshot_receiver_map().remove(r) == old(self).oneshot_receiver_map().remove(r),
            final(self).stream_sender_map() == old(self).stream_sender_map(),
            final(self).stream_receiver_map() == old(self).stream_receiver_map(),
            r == old(self).next_handle(),
            final(self).next_handle() == (if old(self).next_handle() == u64::MAX {
                0
            } else {
                (old(self).next_handle() + 1) as u64
            }),
            final(self).kinds() == old(self).kinds().insert(r, true),
            final(self).oneshot_senders() == old(self).oneshot_senders().insert(r),
            final(self).oneshot_receivers() == old(self).oneshot_receivers().insert(r),
            final(self).stream_senders() == old(self).stream_senders(),
            final(self).stream_receivers() == old(self).stream_receivers(),
    {
        let handle = self.handle();
        self.create_oneshot_with_handle(&handle);
        handle
    }

    /// Opens a one-shot channel under `handle`, replacing what was there.
    pub fn create_oneshot_with_handle(&mut self, handle: &ChannelHandle)
        ensures
            final(self).oneshot_sender_map().remove(*handle) == old(self).oneshot_sender_map().remove(*handle),
            final(self).oneshot_receiver_map().remove(*handle) == old(self).oneshot_receiver_map().remove(*handle),
            final(self).stream_sender_map() == old(self).stream_sender_map(),
            final(self).stream_receiver_map() == old(self).stream_receiver_map(),
            final(self).next_handle() == old(self).next_handle(),
            final(self).kinds() == old(self).kinds().insert(*handle, true),
            final(self).oneshot_senders() == old(self).oneshot_senders().insert(*handle),
            final(self).oneshot_receivers() == old(self).oneshot_receivers().insert(*handle),
            final(self).stream_senders() == old(self).stream_senders(),
            final(self).stream_receivers() == old(self).stream_receivers(),
    {
        let (tx, rx) = oneshot_channel::<M>();
        self.oneshot_tx.insert(*handle, tx);
        self.oneshot_rx.insert(*handle, rx);
        self.handle_is_oneshot_tracker.insert(*handle, true);
    }

    /// Sends `val` on the one-shot channel `handle`, using its sender up.
    /// Unknown handles are refused; a send whose receiver is gone fails.
    pub fn send_oneshot(&mut self, handle: &ChannelHandle, val: M) -> (r: Result<(), ChannelError>)
        ensures
            final(self).oneshot_sender_map() == old(self).oneshot_sender_map().remove(*handle),
            final(self).oneshot_receiver_map() == old(self).oneshot_receiver_map(),
            final(self).stream_sender_map() == old(self).stream_sender_map(),
            final(self).stream_receiver_map() == old(self).stream_receiver_map(),
            final(self).next_handle() == old(self).next_handle(),
            final(self).kinds() == old(self).kinds(),
            final(self).oneshot_senders() == old(self).oneshot_senders().remove(*handle),
            final(self).oneshot_receivers() == old(self).oneshot_receivers(),
            final(self).stream_senders() == old(self).stream_senders(),
            final(self).stream_receivers() == old(self).stream_receivers(),
            !old(self).oneshot_senders().contains(*handle) ==> r matches Err(
                ChannelError::HandleNotFound,
            ),
            old(self).oneshot_senders().contains(*handle) ==> (r is Ok || (r matches Err(
                ChannelError::SendError(s),
            ) && s@ == send_failure_message())),
    {
        let tx = match self.oneshot_tx.remove(handle) {
            Some(tx) => tx,
            None => {
                proof {
                    assert(old(self).oneshot_tx@.remove(*handle) =~= old(self).oneshot_tx@);
                }
                return Err(ChannelError::HandleNotFound);
            },
        };
        if !oneshot_send(tx, val) {
            return Err(ChannelError::SendError(String::from_str("Failed to send oneshot message")));
        }
        Ok(())
    }

    /// Takes the receiver of the one-shot channel `handle` out of the
    /// registry, to wait on it.
    pub fn take_oneshot_receiver(&mut self, handle: &ChannelHandle) -> (r: Option<oneshot::Receiver<M>>)
        ensures
            final(self).oneshot_sender_map() == old(self).oneshot_sender_map(),
            final(self).oneshot_receiver_map() == old(self).oneshot_receiver_map().remove(*handle),
            r matches Some(rx) ==> rx == old(self).oneshot_receiver_map()[*handle],
            final(self).stream_sender_map() == old(self).stream_sender_map(),
            final(self).stream_receiver_map() == old(self).stream_receiver_map(),
            r is Some == old(self).oneshot_receivers().contains(*handle),
            final(self).next_handle() == old(self).next_handle(),
            final(self).kinds() == old(self).kinds(),
            final(self).oneshot_senders() == old(self).oneshot_senders(),
            final(self).oneshot_receivers() == old(self).oneshot_receivers().remove(*handle),
            final(self).stream_senders() == old(self).stream_senders(),
            final(self).stream_receivers() == old(self).stream_receivers(),
    {
        let r = self.oneshot_rx.remove(handle);
        proof {
            if r is None {
                assert(old(self).oneshot_rx@.remove(*handle) =~= old(self).oneshot_rx@);
            }
        }
        r
    }

    /// Forgets the kind of `handle`, once its one-shot message was received.
    pub fn finish_oneshot(&mut self, handle: &ChannelHandle)
        ensures
            final(self).oneshot_sender_map() == old(self).oneshot_sender_map(),
            final(self).oneshot_receiver_map() == old(self).oneshot_receiver_map(),
            final(self).stream_sender_map() == old(self).stream_sender_map(),
            final(self).stream_receiver_map() == old(self).stream_receiver_map(),
            final(self).next_handle() == old(self).next_handle(),
            final(self).kinds() == old(self).kinds().remove(*handle),
            final(self).oneshot_senders() == old(self).oneshot_senders(),
            final(self).oneshot_receivers() == old(self).oneshot_receivers(),
            final(self).stream_senders() == old(self).stream_senders(),
            final(self).stream_receivers() == old(self).stream_receivers(),
    {
        self.handle_is_oneshot_tracker.remove(handle);
    }

    /// Opens a stream under a fresh handle.
    pub fn create_stream(&mut self) -> (r: ChannelHandle)
        ensures
            final(self).oneshot_sender_map() == old(self).oneshot_sender_map(),
            final(self).oneshot_receiver_map() == old(self).oneshot_receiver_map(),
            final(self).stream_sender_map().remove(r) == old(self).stream_sender_map().remove(r),
            final(self).stream_receiver_map().remove(r) == old(self).stream_receiver_map().remove(r),
            r == old(self).next_handle(),
            final(self).next_handle() == (if old(self).next_handle() == u64::MAX {
                0
            } else {
                (old(self).next_handle() + 1) as u64
            }),
            final(self).kinds() == old(self).kinds().insert(r, false),
            final(self).oneshot_senders() == old(self).oneshot_senders(),
            final(self).oneshot_receivers() == old(self).oneshot_receivers(),
            final(self).stream_senders() == old(self).stream_senders().insert(r),
            final(self).stream_receivers() == old(self).stream_receivers().insert(r),
    {
        let handle = self.handle();
        self.create_stream_with_handle(&handle);
        handle
    }

    /// Opens a stream under `handle`, replacing what was there.
    pub fn create_stream_with_handle(&mut self, handle: &ChannelHandle)
        ensures
            final(self).oneshot_sender_map() == old(self).oneshot_sender_map(),
            final(self).oneshot_receiver_map() == old(self).oneshot_receiver_map(),
            final(self).stream_sender_map().remove(*handle) == old(self).stream_sender_map().remove(*handle),
            final(self).stream_receiver_map().remove(*handle) == old(self).stream_receiver_map().remove(*handle),
            final(self).next_handle() == old(self).next_handle(),
            final(self).kinds() == old(self).kinds().insert(*handle, false),
            final(self).oneshot_senders() == old(self).oneshot_senders(),
            final(self).oneshot_receivers() == old(self).oneshot_receivers(),
            final(self).stream_senders() == old(self).stream_senders().insert(*handle),
            final(self).stream_receivers() == old(self).stream_receivers().insert(*handle),
    {
        let (tx, rx) = unbounded_channel::<M>();
        self.stream_tx.insert(*handle, tx);
        self.stream_rx.insert(*handle, rx);
        self.handle_is_oneshot_tracker.insert(*handle, false);
    }

    /// Closes the stream `handle`: its endpoints and kind are dropped.
    pub fn delete_stream(&mut self, handle: &ChannelHandle)
        ensures
            final(self).oneshot_sender_map() == old(self).oneshot_sender_map(),
            final(self).oneshot_receiver_map() == old(self).oneshot_receiver_map(),
            final(self).stream_sender_map() == old(self).stream_sender_map().remove(*handle),
            final(self).stream_receiver_map() == old(self).stream_receiver_map().remove(*handle),
            final(self).next_handle() == old(self).next_handle(),
            final(self).kinds() == old(self).kinds().remove(*handle),
            final(self).oneshot_senders() == old(self).oneshot_senders(),
            final(self).oneshot_receivers() == old(self).oneshot_receivers(),
            final(self).stream_senders() == old(self).stream_senders().remove(*handle),
            final(self).stream_receivers() == old(self).stream_receivers().remove(*handle),
    {
        self.stream_tx.remove(handle);
        self.stream_rx.remove(handle);
        self.handle_is_oneshot_tracker.remove(handle);
    }

    /// Sends `val` on the stream `handle`; unknown handles are refused.
    pub fn send_stream(&mut self, handle: &ChannelHandle, val: M) -> (r: Result<(), ChannelError>)
        ensures
            final(self).oneshot_sender_map() == old(self).oneshot_sender_map(),
            final(self).oneshot_receiver_map() == old(self).oneshot_receiver_map(),
            final(self).stream_sender_map() == old(self).stream_sender_map(),
            final(self).stream_receiver_map() == old(self).stream_receiver_map(),
            final(self).next_handle() == old(self).next_handle(),
            final(self).kinds() == old(self).kinds(),
            final(self).oneshot_senders() == old(self).oneshot_senders(),
            final(self).oneshot_receivers() == old(self).oneshot_receivers(),
            final(self).stream_senders() == old(self).stream_senders(),
            final(self).stream_receivers() == old(self).stream_receivers(),
            old(self).stream_senders().contains(*handle) ==> r is Ok,
            !old(self).stream_senders().contains(*handle) ==> r matches Err(
                ChannelError::HandleNotFound,
            ),
    {
        match self.stream_tx.get(handle) {
            Some(tx) => {
                unbounded_send(tx, val);
                Ok(())
            },
            None => Err(ChannelError::HandleNotFound),
        }
    }

    /// Takes the receiver of the stream `handle` out of the registry, to
    /// wait on it; `restore_stream_receiver` puts it back.
    pub fn take_stream_receiver(&mut self, handle: &ChannelHandle) -> (r: Option<UnboundedReceiver<M>>)
        ensures
            final(self).oneshot_sender_map() == old(self).oneshot_sender_map(),
            final(self).oneshot_receiver_map() == old(self).oneshot_receiver_map(),
            final(self).stream_sender_map() == old(self).stream_sender_map(),
            final(self).stream_receiver_map() == old(self).stream_receiver_map().remove(*handle),
            r matches Some(rx) ==> rx == old(self).stream_receiver_map()[*handle],
            r is Some == old(self).stream_receivers().contains(*handle),
            final(self).next_handle() == old(self).next_handle(),
            final(self).kinds() == old(self).kinds(),
            final(self).oneshot_senders() == old(self).oneshot_senders(),
            final(self).oneshot_receivers() == old(self).oneshot_receivers(),
            final(self).stream_senders() == old(self).stream_senders(),
            final(self).stream_receivers() == old(self).stream_receivers().remove(*handle),
    {
        let r = self.stream_rx.remove(handle);
        proof {
            if r is None {
                assert(old(self).stream_rx@.remove(*handle) =~= old(self).stream_rx@);
            }
        }
        r
    }

    /// Puts a stream receiver back under `handle`.
    pub fn restore_stream_receiver(&mut self, handle: &ChannelHandle, rx: UnboundedReceiver<M>)
        ensures
            final(self).oneshot_sender_map() == old(self).oneshot_sender_map(),
            final(self).oneshot_receiver_map() == old(self).oneshot_receiver_map(),
            final(self).stream_sender_map() == old(self).stream_sender_map(),
            final(self).stream_receiver_map() == old(self).stream_receiver_map().insert(*handle, rx),
            final(self).next_handle() == old(self).next_handle(),
            final(self).kinds() == old(self).kinds(),
            final(self).oneshot_senders() == old(self).oneshot_senders(),
            final(self).oneshot_receivers() == old(self).oneshot_receivers(),
            final(self).stream_senders() == old(self).stream_senders(),
            final(self).stream_receivers() == old(self).stream_receivers().insert(*handle),
    {
        self.stream_rx.insert(*handle, rx);
    }
}

/// The text a failed one-shot send reports.
pub open spec fn send_failure_message() -> Seq<char> {
    "Failed to send oneshot message"@
}

/// A change to the kind of one handle: `create_oneshot` and
/// `create_oneshot_with_handle` make it a one-shot channel,
/// `create_stream` and `create_stream_with_handle` a stream, and
/// `delete_stream` and `finish_oneshot` forget it.  No other call changes
/// `kinds`.
pub enum KindChange {
    Oneshot(u64),
    Stream(u64),
    Forget(u64),
}

/// The handle a change is about.
pub open spec fn change_handle(c: KindChange) -> u64 {
    match c {
        KindChange::Oneshot(h) => h,
        KindChange::Stream(h) => h,
        KindChange::Forget(h) => h,
    }
}

/// The kinds after one change, as the calls' contracts state it.
pub open spec fn apply_change(kinds: Map<u64, bool>, c: KindChange) -> Map<u64, bool> {
    match c {
        KindChange::Oneshot(h) => kinds.insert(h, true),
        KindChange::Stream(h) => kinds.insert(h, false),
        KindChange::Forget(h) => kinds.remove(h),
    }
}

/// The kinds after a run of changes, from those of `kinds`.
pub open spec fn kinds_after(kinds: Map<u64, bool>, cs: Seq<KindChange>) -> Map<u64, bool>
    decreases cs.len(),
{
    if cs.len() == 0 {
        kinds
    } else {
        apply_change(kinds_after(kinds, cs.drop_last()), cs.last())
    }
}

/// The last change of a run about handle `h`, if any.
pub open spec fn last_change_on(cs: Seq<KindChange>, h: u64) -> Option<KindChange>
    decreases cs.len(),
{
    if cs.len() == 0 {
        None
    } else if change_handle(cs.last()) == h {
        Some(cs.last())
    } else {
        last_change_on(cs.drop_last(), h)
    }
}

/// From a new registry, a handle reads as one-shot (`handle_is_oneshot`
/// gives `Ok(true)`) exactly when the last change about it made it a
/// one-shot channel, as a stream (`Ok(false)`) when it made it a stream,
/// and is unknown when it was forgotten or never created.
pub proof fn law_kind_follows_last_change(cs: Seq<KindChange>, h: u64)
    ensures
        ({
            let kinds = kinds_after(Map::empty(), cs);
            match last_change_on(cs, h) {
                Some(KindChange::Oneshot(_)) => kinds.contains_key(h) && kinds[h] == true,
                Some(KindChange::Stream(_)) => kinds.contains_key(h) && kinds[h] == false,
                _ => !kinds.contains_key(h),
            }
        }),
    decreases cs.len(),
{
    if cs.len() > 0 {
        law_kind_follows_last_change(cs.drop_last(), h);
    }
}

/// A call on a registry, with its handle argument where it takes one.
pub enum ChannelCall {
    Handle,
    CreateOneshot,
    CreateOneshotWithHandle(u64),
    SendOneshot(u64),
    TakeOneshotReceiver(u64),
    FinishOneshot(u64),
    CreateStream,
    CreateStreamWithHandle(u64),
    DeleteStream(u64),
    SendStream(u64),
    TakeStreamReceiver(u64),
    RestoreStreamReceiver(u64),
}

/// The handle after `next`, wrapping at the top of `u64`.
pub open spec fn handle_after(next: u64) -> u64 {
    if next == u64::MAX {
        0
    } else {
        (next + 1) as u64
    }
}

/// The change a call makes to the kinds, when the next handle is `next`,
/// as the calls' contracts state it.
pub open spec fn call_change(next: u64, c: ChannelCall) -> Option<KindChange> {
    match c {
        ChannelCall::CreateOneshot => Some(KindChange::Oneshot(next)),
        ChannelCall::CreateOneshotWithHandle(h) => Some(KindChange::Oneshot(h)),
        ChannelCall::FinishOneshot(h) => Some(KindChange::Forget(h)),
        ChannelCall::CreateStream => Some(KindChange::Stream(next)),
        ChannelCall::CreateStreamWithHandle(h) => Some(KindChange::Stream(h)),
        ChannelCall::DeleteStream(h) => Some(KindChange::Forget(h)),
        _ => None,
    }
}

/// The next handle after a call, as the calls' contracts state it.
pub open spec fn call_next(next: u64, c: ChannelCall) -> u64 {
    match c {
        ChannelCall::Handle => handle_after(next),
        ChannelCall::CreateOneshot => handle_after(next),
        ChannelCall::CreateStream => handle_after(next),
        _ => next,
    }
}

/// The next handle and the kinds of a new registry after `calls`.
pub open spec fn registry_after(calls: Seq<ChannelCall>) -> (u64, Map<u64, bool>)
    decreases calls.len(),
{
    if calls.len() == 0 {
        (0, Map::empty())
    } else {
        let (next, kinds) = registry_after(calls.drop_last());
        let kinds2 = match call_change(next, calls.last()) {
            Some(c) => apply_change(kinds, c),
            None => kinds,
        };
        (call_next(next, calls.last()), kinds2)
    }
}

/// The kind changes that `calls` make on a new registry, in order.
pub open spec fn changes_of(calls: Seq<ChannelCall>) -> Seq<KindChange>
    decreases calls.len(),
{
    if calls.len() == 0 {
        Seq::empty()
    } else {
        let before = changes_of(calls.drop_last());
        match call_change(registry_after(calls.drop_last()).0, calls.last()) {
            Some(c) => before.push(c),
            None => before,
        }
    }
}

proof fn lemma_registry_kinds(calls: Seq<ChannelCall>)
    ensures
        registry_after(calls).1 == kinds_after(Map::empty(), changes_of(calls)),
    decreases calls.len(),
{
    if calls.len() > 0 {
        lemma_registry_kinds(calls.drop_last());
        let before = changes_of(calls.drop_last());
        match call_change(registry_after(calls.drop_last()).0, calls.last()) {
            Some(c) => {
                assert(before.push(c).drop_last() =~= before);
            },
            None => {},
        }
    }
}

/// After any run of calls on a new registry, `handle_is_oneshot(&h)` gives
/// `Ok(true)` when the last call that created or forgot `h` created it as a
/// one-shot channel, `Ok(false)` when it created it as a stream, and
/// `HandleIsOneshotNotFound` when it forgot it or no call touched it.
/// `create_oneshot` and `create_stream` create under the handle that was
/// next; `delete_stream` and `finish_oneshot` forget.
pub proof fn law_kind_follows_last_call(calls: Seq<ChannelCall>, h: u64)
    ensures
        ({
            let kinds = registry_after(calls).1;
            match last_change_on(changes_of(calls), h) {
                Some(KindChange::Oneshot(_)) => kinds.contains_key(h) && kinds[h] == true,
                Some(KindChange::Stream(_)) => kinds.contains_key(h) && kinds[h] == false,
                _ => !kinds.contains_key(h),
            }
        }),
{
    lemma_registry_kinds(calls);
    law_kind_follows_last_change(changes_of(calls), h);
}

} // verus!
