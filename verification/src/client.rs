//! The reactor: the append-only session registry, the consumer end of the
//! cross-thread action queue with its wake source, and the dispatch of
//! readiness events; plus the cloneable handle other threads use to inject
//! send requests.
use vstd::prelude::*;
use crate::action::Action;
use crate::message::Message;
use crate::session::{MessageHandler, ReadRecord, SendStatus, SessionEntry, Transport};
use crate::session::session_event_post;

verus! {

/// Capacity of the cross-thread action queue, shared by all handles.
pub const MPSC_QUEUE_SIZE_LIMIT: usize = 1024;

/// The reserved poll token that identifies the action queue's wake source;
/// never assigned to a session, so the registry holds fewer sessions than
/// this.
pub const MPSC_QUEUE_TOKEN: usize = usize::MAX;

/// A stable handle for one registered session: an index into the reactor's
/// append-only session registry.
#[derive(Clone, Debug, PartialEq, Eq, Structural)]
pub struct SessionId {
    index: usize,
}

impl View for SessionId {
    type V = int;

    closed spec fn view(&self) -> int {
        self.index as int
    }
}

impl SessionId {
    /// The registry index this handle stands for.
    pub fn index(&self) -> (i: usize)
        ensures
            i as int == self@,
    {
        self.index
    }

    /// The id for a given registry index. Ids handed out by
    /// [`Client::add_session`] are the ones a reactor routes to; the reactor
    /// ignores an id no session was registered under.
    pub fn from_index(index: usize) -> (r: SessionId)
        ensures
            r@ == index as int,
    {
        SessionId { index }
    }
}

/// Declares `mio::Registration`: the pollable half of the wake pair.
#[verifier::external_type_specification]
#[verifier::external_body]
pub struct ExRegistration(mio::Registration);

/// Declares `mio::SetReadiness`: the triggering half of the wake pair.
#[verifier::external_type_specification]
#[verifier::external_body]
pub struct ExSetReadiness(mio::SetReadiness);

/// Declares `std::sync::mpsc::SyncSender`: the producer end of a bounded
/// channel.
#[verifier::external_type_specification]
#[verifier::external_body]
#[verifier::reject_recursive_types(T)]
pub struct ExSyncSender<T>(std::sync::mpsc::SyncSender<T>);

/// Declares `std::sync::mpsc::Receiver`: the consumer end of a bounded
/// channel.
#[verifier::external_type_specification]
#[verifier::external_body]
#[verifier::reject_recursive_types(T)]
pub struct ExReceiver<T>(std::sync::mpsc::Receiver<T>);

/// What one push onto the bounded action queue reported.
#[derive(Debug)]
pub enum PushOutcome {
    /// The action is queued.
    Accepted,
    /// The bounded queue is at capacity.
    QueueFull,
    /// The consumer end is gone.
    Disconnected,
}

/// What one non-blocking pop from the action queue reported.
pub enum PollOutcome {
    /// The oldest queued action.
    Item(Action),
    /// The queue is empty.
    Empty,
    /// Every producer end is gone.
    Disconnected,
}

/// Relies on `std::sync::mpsc::sync_channel`: the two ends of a fresh
/// bounded queue of the given capacity.
#[verifier::external_body]
fn new_action_channel(capacity: usize) -> (std::sync::mpsc::SyncSender<Action>, std::sync::mpsc::Receiver<Action>) {
    std::sync::mpsc::sync_channel(capacity)
}

/// Relies on `std::sync::mpsc::SyncSender::try_send`: queues the action
/// unless the queue is full or the consumer is gone; never blocks.
#[verifier::external_body]
fn push_action(tx: &std::sync::mpsc::SyncSender<Action>, action: Action) -> PushOutcome {
    match tx.try_send(action) {
        Ok(()) => PushOutcome::Accepted,
        Err(std::sync::mpsc::TrySendError::Full(_)) => PushOutcome::QueueFull,
        Err(std::sync::mpsc::TrySendError::Disconnected(_)) => PushOutcome::Disconnected,
    }
}

/// Relies on `std::sync::mpsc::Receiver::try_recv`: pops the oldest queued
/// action, or reports an empty queue or gone producers; never blocks.
#[verifier::external_body]
fn poll_action(rx: &std::sync::mpsc::Receiver<Action>) -> PollOutcome {
    match rx.try_recv() {
        Ok(a) => PollOutcome::Item(a),
        Err(std::sync::mpsc::TryRecvError::Empty) => PollOutcome::Empty,
        Err(std::sync::mpsc::TryRecvError::Disconnected) => PollOutcome::Disconnected,
    }
}

/// Relies on `mio::Registration::new2`: a paired pollable registration and
/// readiness setter; setting readiness on the second makes the first poll
/// ready.
#[verifier::external_body]
fn new_wake_pair() -> (mio::Registration, mio::SetReadiness) {
    mio::Registration::new2()
}

/// Relies on `mio::SetReadiness::set_readiness`: marks the paired
/// registration readable, so a blocked poll returns even with no socket
/// event; reports whether that succeeded.
#[verifier::external_body]
fn trigger_wake(setter: &mio::SetReadiness) -> bool {
    match setter.set_readiness(mio::Ready::readable()) {
        Ok(()) => true,
        Err(_) => false,
    }
}

/// Relies on `mio::SetReadiness::clone` and
/// `std::sync::mpsc::SyncSender::clone`: a handle clone reaches the same
/// queue and the same wake source.
#[verifier::external_body]
fn clone_handle_parts(h: &ClientHandle) -> ClientHandle {
    ClientHandle { mpsc_sender: h.mpsc_sender.clone(), readiness_setter: h.readiness_setter.clone() }
}

/// A cloneable, thread-safe capability restricted to enqueueing actions for
/// the reactor and triggering its wake source.
pub struct ClientHandle {
    mpsc_sender: std::sync::mpsc::SyncSender<Action>,
    readiness_setter: mio::SetReadiness,
}

/// An error from [`ClientHandle::try_send`].
#[derive(Debug)]
pub enum HandleSendError {
    /// The bounded action queue is at capacity.
    QueueFull,
    /// The reactor end of the queue is gone.
    Disconnected,
    /// The wake source could not be triggered.
    WakeFailed,
}

impl ClientHandle {
    /// Enqueue a send request for the addressed session and wake the
    /// reactor, so its blocked poll returns. The message then goes through
    /// the same per-session queueing and backpressure path as a
    /// handler-produced send. A full queue or a failed wake trigger is
    /// reported, not a panic.
    pub fn try_send(&mut self, session: SessionId, message: Message) -> Result<
        (),
        HandleSendError,
    > {
        match push_action(&self.mpsc_sender, Action::RawMsg { session, message }) {
            PushOutcome::Accepted => {
                if trigger_wake(&self.readiness_setter) {
                    Ok(())
                } else {
                    Err(HandleSendError::WakeFailed)
                }
            },
            PushOutcome::QueueFull => Err(HandleSendError::QueueFull),
            PushOutcome::Disconnected => Err(HandleSendError::Disconnected),
        }
    }
}

impl Clone for ClientHandle {
    /// A clone reaches the same action queue and the same wake source.
    fn clone(&self) -> ClientHandle {
        clone_handle_parts(self)
    }
}

/// The registry is full: every id below the reserved wake token is taken.
#[derive(Debug)]
pub struct RegistryFullError;

/// The reactor's state: the append-only session registry, the consumer end
/// of the action queue, the wake source's pollable registration, and the
/// prototype that [`Client::handle`] clones. Owned and mutated by the
/// reactor thread alone.
pub struct Client<T> {
    /// The append-only session registry; index = session id.
    pub sessions: Vec<SessionEntry<T>>,
    mpsc_receiver: std::sync::mpsc::Receiver<Action>,
    mpsc_registration: mio::Registration,
    handle_prototype: ClientHandle,
}

/// What routing one action guarantees: a `RawMsg` addressed to a registered
/// session goes through that session's direct-send path — one transport
/// attempt, with the per-status effects of [`SessionEntry::send`] — and
/// every other session is untouched; a `Nothing` or an unregistered id
/// changes nothing and reports no status.
pub open spec fn action_route_post<T>(
    pre: Seq<SessionEntry<T>>,
    post: Seq<SessionEntry<T>>,
    action: Action,
    st: Option<SendStatus>,
) -> bool {
    &&& post.len() == pre.len()
    &&& (action is Nothing ==> post == pre && st is None)
    &&& (action matches Action::RawMsg { session, message } ==> (if 0 <= session@ < pre.len() {
        &&& st is Some
        &&& (forall|i: int| 0 <= i < pre.len() && i != session@ ==> post[i] == pre[i])
        &&& post[session@].attempts@ == pre[session@].attempts@ + seq![message@]
        &&& post[session@].dequeued@ == pre[session@].dequeued@
        &&& (st matches Some(s) && s is Sent ==> post[session@].output_queue@
            == pre[session@].output_queue@ && post[session@].sent@ == pre[session@].sent@
            + seq![message@] && post[session@].enqueued@ == pre[session@].enqueued@)
        &&& (st matches Some(s) && s is Transient ==> post[session@].output_queue@
            == pre[session@].output_queue@.push(message) && !post[session@].is_writable
            && post[session@].enqueued@ == pre[session@].enqueued@ + seq![message@]
            && post[session@].sent@ == pre[session@].sent@)
        &&& (st matches Some(s) && s is Failed ==> post[session@].output_queue@
            == pre[session@].output_queue@ && post[session@].sent@ == pre[session@].sent@
            && post[session@].enqueued@ == pre[session@].enqueued@)
    } else {
        post == pre && st is None
    }))
}

/// One step of an action-queue drain, recorded so the contract can say what
/// was popped and how it was routed.
pub enum QueueRecord {
    /// One popped action, routed through the per-session send path, and the
    /// status of that send (none for a `Nothing` or an unregistered id).
    Routed(Action, Option<SendStatus>),
    /// The queue reported empty; the drain stopped.
    Emptied,
    /// Every producer end is gone; the drain stopped.
    Closed,
}

/// A recorded step that ends the drain.
pub open spec fn queue_stop(r: QueueRecord) -> bool {
    r is Emptied || r is Closed
}

/// The registry evolves by folding the routing of each popped action, in pop
/// order, over it.
pub open spec fn queue_steps<T>(
    pre: Seq<SessionEntry<T>>,
    post: Seq<SessionEntry<T>>,
    log: Seq<QueueRecord>,
) -> bool
    decreases log.len(),
{
    if log.len() == 0 {
        post == pre
    } else {
        match log[0] {
            QueueRecord::Routed(a, st) => exists|mid: Seq<SessionEntry<T>>|
                action_route_post(pre, mid, a, st) && queue_steps(mid, post, log.skip(1)),
            _ => post == pre,
        }
    }
}

proof fn lemma_queue_steps_snoc<T>(
    pre: Seq<SessionEntry<T>>,
    cur: Seq<SessionEntry<T>>,
    post: Seq<SessionEntry<T>>,
    log: Seq<QueueRecord>,
    rec: QueueRecord,
)
    requires
        queue_steps(pre, cur, log),
        forall|i: int| 0 <= i < log.len() ==> (#[trigger] log[i]) is Routed,
        match rec {
            QueueRecord::Routed(a, st) => action_route_post(cur, post, a, st),
            _ => post == cur,
        },
    ensures
        queue_steps(pre, post, log.push(rec)),
    decreases log.len(),
{
    let lp = log.push(rec);
    assert(lp[0] == if log.len() == 0 { rec } else { log[0] });
    if log.len() == 0 {
        assert(lp.skip(1) =~= Seq::<QueueRecord>::empty());
        match rec {
            QueueRecord::Routed(a, st) => {
                assert(queue_steps(post, post, lp.skip(1)));
                assert(action_route_post(pre, post, a, st));
                assert(queue_steps(pre, post, lp));
            },
            _ => {
                assert(queue_steps(pre, post, lp));
            },
        }
    } else {
        match log[0] {
            QueueRecord::Routed(a0, st0) => {
                let m = choose|m: Seq<SessionEntry<T>>|
                    action_route_post(pre, m, a0, st0) && queue_steps(m, cur, log.skip(1));
                lemma_queue_steps_snoc(m, cur, post, log.skip(1), rec);
                assert(lp.skip(1) =~= log.skip(1).push(rec));
                assert(action_route_post(pre, m, a0, st0) && queue_steps(m, post, lp.skip(1)));
                assert(queue_steps(pre, post, lp));
            },
            _ => {
                assert(false);
            },
        }
    }
}

/// What a bounded action-queue drain guarantees, given its record log: the
/// registry evolves by routing each popped action in pop order; a stop
/// record stands only last, and the drain ended either on one (`done`, the
/// queue reported empty or closed) or because the whole budget was spent.
pub open spec fn queue_drain_post<T>(
    pre: Seq<SessionEntry<T>>,
    post: Seq<SessionEntry<T>>,
    log: Seq<QueueRecord>,
    done: bool,
    max: int,
) -> bool {
    &&& queue_steps(pre, post, log)
    &&& post.len() == pre.len()
    &&& log.len() <= max
    &&& (done <==> (log.len() > 0 && queue_stop(log.last())))
    &&& (!done ==> log.len() == max)
    &&& (forall|i: int| 0 <= i < log.len() - 1 ==> !queue_stop(#[trigger] log[i]))
}

impl<T> Client<T> {
    /// The registered sessions, in registration order.
    pub closed spec fn registry(self) -> Seq<SessionEntry<T>> {
        self.sessions@
    }

    /// Every registered session satisfies its queue invariant.
    pub open spec fn wf(self) -> bool {
        forall|i: int|
            0 <= i < self.registry().len() ==> (#[trigger] self.registry()[i]).wf()
    }
}

impl<T: Transport> Client<T> {
    /// A fresh reactor: empty registry, a bounded action queue of capacity
    /// [`MPSC_QUEUE_SIZE_LIMIT`], and the wake pair for it.
    pub fn new() -> (c: Client<T>)
        ensures
            c.wf(),
            c.registry().len() == 0,
    {
        let (mpsc_sender, mpsc_receiver) = new_action_channel(MPSC_QUEUE_SIZE_LIMIT);
        let (mpsc_registration, readiness_setter) = new_wake_pair();
        let handle_prototype = ClientHandle { mpsc_sender, readiness_setter };
        Client { sessions: Vec::new(), mpsc_receiver, mpsc_registration, handle_prototype }
    }

    /// A new cloneable handle onto this reactor's action queue and wake
    /// source.
    pub fn handle(&self) -> ClientHandle {
        self.handle_prototype.clone()
    }

    /// The pollable registration of the wake source; register it under the
    /// reserved token [`MPSC_QUEUE_TOKEN`].
    pub fn wake_registration(&self) -> &mio::Registration {
        &self.mpsc_registration
    }

    /// How many sessions are registered.
    pub fn session_count(&self) -> (n: usize)
        ensures
            n as int == self.registry().len(),
    {
        self.sessions.len()
    }

    /// Append one session to the registry. Registration in order yields the
    /// ids `0, 1, 2, …`; an id stays valid for the client's whole lifetime,
    /// because the registry only grows. The id space ends below the reserved
    /// wake token: a full registry is reported as an error, not a panic.
    pub fn add_session(&mut self, transport: T) -> (r: Result<SessionId, RegistryFullError>)
        requires
            old(self).wf(),
        ensures
            final(self).wf(),
            old(self).registry().len() < MPSC_QUEUE_TOKEN as int ==> ({
                &&& r matches Ok(id) && id@ == old(self).registry().len()
                &&& final(self).registry().len() == old(self).registry().len() + 1
                &&& (forall|i: int|
                    0 <= i < old(self).registry().len() ==> final(self).registry()[i] == old(
                        self,
                    ).registry()[i])
                &&& final(self).registry().last().output_queue@.len() == 0
                &&& !final(self).registry().last().is_writable
                &&& final(self).registry().last().enqueued@ == Seq::<crate::message::MsgView>::empty()
                &&& final(self).registry().last().sent@ == Seq::<crate::message::MsgView>::empty()
            }),
            old(self).registry().len() >= MPSC_QUEUE_TOKEN as int ==> r is Err && final(self).registry()
                == old(self).registry(),
    {
        let index = self.sessions.len();
        if index == MPSC_QUEUE_TOKEN {
            return Err(RegistryFullError);
        }
        self.sessions.push(SessionEntry::new(transport));
        Ok(SessionId::from_index(index))
    }

    /// Route one action: a `RawMsg` goes through the addressed session's
    /// direct-send path — the same one reactions use — and reports that
    /// send's status; anything else changes nothing. An id of no registered
    /// session is ignored rather than a panic: ids handed out by
    /// [`Client::add_session`] are always in range.
    pub fn process_action(&mut self, action: Action) -> (st: Option<SendStatus>)
        requires
            old(self).wf(),
        ensures
            final(self).wf(),
            action_route_post(old(self).registry(), final(self).registry(), action, st),
    {
        match action {
            Action::Nothing => None,
            Action::RawMsg { session, message } => {
                let idx = session.index();
                if idx < self.sessions.len() {
                    let mut entry = self.sessions.remove(idx);
                    proof {
                        assert(old(self).registry()[idx as int].wf());
                    }
                    let st = entry.send(message);
                    self.sessions.insert(idx, entry);
                    proof {
                        assert(self.registry() =~= old(self).registry().update(
                            idx as int,
                            self.registry()[idx as int],
                        ));
                    }
                    Some(st)
                } else {
                    None
                }
            },
        }
    }

    /// Drain the action queue, routing each popped action through the same
    /// per-session send path as reactions; called when the reserved wake
    /// token fires. Several wake triggers may collapse into one wake, so the
    /// queue is drained until it reports empty rather than one action per
    /// wake, making at most `max_actions` pops per call. The returned record
    /// log holds one record per pop, and the contract pins the registry as
    /// the fold of routing each popped action, in pop order; the first
    /// result says whether the queue reported empty or closed (`true`) or
    /// the budget ran out first. Nothing is ever taken off any session's
    /// output queue here.
    pub fn process_mpsc_queue(&mut self, max_actions: usize) -> (r: (
        bool,
        Ghost<Seq<QueueRecord>>,
    ))
        requires
            old(self).wf(),
        ensures
            final(self).wf(),
            queue_drain_post(
                old(self).registry(),
                final(self).registry(),
                r.1@,
                r.0,
                max_actions as int,
            ),
            forall|i: int|
                0 <= i < old(self).registry().len()
                    ==> (#[trigger] final(self).registry()[i]).dequeued@
                    == old(self).registry()[i].dequeued@,
    {
        let mut n: usize = 0;
        let ghost mut qlog: Seq<QueueRecord> = Seq::empty();
        proof {
            assert(queue_steps(old(self).registry(), self.registry(), qlog));
        }
        loop
            invariant
                self.wf(),
                self.registry().len() == old(self).registry().len(),
                queue_steps(old(self).registry(), self.registry(), qlog),
                qlog.len() == n,
                n <= max_actions,
                forall|i: int| 0 <= i < qlog.len() ==> (#[trigger] qlog[i]) is Routed,
                forall|i: int|
                    0 <= i < old(self).registry().len()
                        ==> (#[trigger] self.registry()[i]).dequeued@
                        == old(self).registry()[i].dequeued@,
            decreases max_actions - n,
        {
            if n == max_actions {
                return (false, Ghost(qlog));
            }
            n += 1;
            match poll_action(&self.mpsc_receiver) {
                PollOutcome::Item(a) => {
                    let ghost pre_reg = self.registry();
                    let ghost a_snap = a;
                    let st = self.process_action(a);
                    proof {
                        lemma_queue_steps_snoc(
                            old(self).registry(),
                            pre_reg,
                            self.registry(),
                            qlog,
                            QueueRecord::Routed(a_snap, st),
                        );
                        qlog = qlog.push(QueueRecord::Routed(a_snap, st));
                    }
                },
                PollOutcome::Empty => {
                    proof {
                        lemma_queue_steps_snoc(
                            old(self).registry(),
                            self.registry(),
                            self.registry(),
                            qlog,
                            QueueRecord::Emptied,
                        );
                        qlog = qlog.push(QueueRecord::Emptied);
                    }
                    return (true, Ghost(qlog));
                },
                PollOutcome::Disconnected => {
                    proof {
                        lemma_queue_steps_snoc(
                            old(self).registry(),
                            self.registry(),
                            self.registry(),
                            qlog,
                            QueueRecord::Closed,
                        );
                        qlog = qlog.push(QueueRecord::Closed);
                    }
                    return (true, Ghost(qlog));
                },
            }
        }
    }

    /// Dispatch one readiness event by its token: the reserved wake token
    /// drains the action queue (to the full contract of
    /// [`Client::process_mpsc_queue`], for some record log); a session's
    /// token runs its writable handling first, then its readable handling
    /// (to the full contract of [`SessionEntry::process_session_event`], for
    /// some logs), leaving every other session untouched and handing back
    /// that session's writable-drain send outcomes, so the caller can report
    /// non-transient send errors (their messages are dropped); a token of no
    /// registered session changes nothing. `budget` bounds receive attempts
    /// and action pops per call; the first result says whether the drain ran
    /// to exhaustion — if it is `false`, dispatch the same event again
    /// before polling anew, or an edge-triggered readiness could be missed.
    pub fn dispatch_event<H: MessageHandler>(
        &mut self,
        token: usize,
        readable: bool,
        writable: bool,
        handler: &mut H,
        budget: usize,
    ) -> (r: (bool, Vec<crate::session::SendStatus>))
        requires
            old(self).wf(),
        ensures
            final(self).wf(),
            final(self).registry().len() == old(self).registry().len(),
            token == MPSC_QUEUE_TOKEN ==> (exists|qlog: Seq<QueueRecord>|
                queue_drain_post(
                    old(self).registry(),
                    final(self).registry(),
                    qlog,
                    r.0,
                    budget as int,
                )) && r.1@.len() == 0,
            (token != MPSC_QUEUE_TOKEN && 0 <= token < old(self).registry().len()) ==> ({
                &&& (forall|i: int|
                    0 <= i < old(self).registry().len() && i != token
                        ==> final(self).registry()[i] == old(self).registry()[i])
                &&& (exists|mid: SessionEntry<T>, rlog: Seq<ReadRecord>|
                    session_event_post(
                        old(self).registry()[token as int],
                        final(self).registry()[token as int],
                        readable,
                        writable,
                        mid,
                        r.1@,
                        rlog,
                        r.0,
                        budget as int,
                    ))
            }),
            (token != MPSC_QUEUE_TOKEN && !(0 <= token < old(self).registry().len()))
                ==> final(self).registry() == old(self).registry() && r.0 && r.1@.len() == 0,
    {
        if token == MPSC_QUEUE_TOKEN {
            let (d, qlog) = self.process_mpsc_queue(budget);
            let result = (d, Vec::<crate::session::SendStatus>::new());
            proof {
                assert(queue_drain_post(
                    old(self).registry(),
                    self.registry(),
                    qlog@,
                    result.0,
                    budget as int,
                ));
                assert(exists|l: Seq<QueueRecord>|
                    queue_drain_post(
                        old(self).registry(),
                        self.registry(),
                        l,
                        result.0,
                        budget as int,
                    ));
            }
            result
        } else if token < self.sessions.len() {
            let mut entry = self.sessions.remove(token);
            proof {
                assert(old(self).registry()[token as int].wf());
            }
            let (d, wlog, rlog, mid) = entry.process_session_event(
                readable,
                writable,
                SessionId::from_index(token),
                handler,
                budget,
            );
            self.sessions.insert(token, entry);
            proof {
                assert(self.registry() =~= old(self).registry().update(
                    token as int,
                    self.registry()[token as int],
                ));
            }
            let result = (d, wlog);
            proof {
                assert(session_event_post(
                    old(self).registry()[token as int],
                    self.registry()[token as int],
                    readable,
                    writable,
                    mid@,
                    result.1@,
                    rlog@,
                    result.0,
                    budget as int,
                ));
                assert(exists|m: SessionEntry<T>, rl: Seq<ReadRecord>|
                    session_event_post(
                        old(self).registry()[token as int],
                        self.registry()[token as int],
                        readable,
                        writable,
                        m,
                        result.1@,
                        rl,
                        result.0,
                        budget as int,
                    ));
            }
            result
        } else {
            (true, Vec::new())
        }
    }
}

} // verus!
