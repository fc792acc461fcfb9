//! One registered session: a line-protocol transport paired with a FIFO
//! output queue and a writability flag — the unit of backpressure
//! bookkeeping — and the drain disciplines that run on readiness events.
use vstd::prelude::*;
use crate::message::{command_of, ping_reply_text, reply_parses, Message, MsgView};
use crate::msg_ctx::MessageContext;
use crate::client::SessionId;
use crate::reaction::{Reaction, reaction_sends, seq_sends, lemma_multi_sends, lemma_seq_sends_push};
use crate::reaction::{seq_size, reaction_size, lemma_reaction_size_unfold, lemma_seq_size_push};

verus! {

/// Outcome of one non-blocking send attempt on a transport.
#[derive(Debug)]
pub enum SendStatus {
    /// The transport accepted the message.
    Sent,
    /// The transport would block or timed out; try again on the next
    /// writable event.
    Transient,
    /// Any other send error; the message is dropped, delivery is best-effort.
    Failed(String),
}

impl SendStatus {
    pub fn is_transient(&self) -> (r: bool)
        ensures
            r == (self is Transient),
    {
        match self {
            SendStatus::Transient => true,
            _ => false,
        }
    }

    pub fn is_sent(&self) -> (r: bool)
        ensures
            r == (self is Sent),
    {
        match self {
            SendStatus::Sent => true,
            _ => false,
        }
    }
}

/// Outcome of one non-blocking receive attempt on a transport.
#[derive(Debug)]
pub enum RecvStatus {
    /// One parsed inbound message.
    Msg(Message),
    /// Nothing to read now; stop draining.
    NoData,
    /// The read would block or timed out; stop draining, not an error.
    Transient,
    /// Any other receive error; forwarded to the message handler.
    Failed(String),
}

/// An error handed to the message handler in place of a message.
#[derive(Debug)]
pub enum SessionError {
    /// A non-transient receive error.
    Recv(String),
    /// The synthesized keep-alive reply did not parse back.
    Parse(String),
}

/// The duplex non-blocking capability of one network session. The reactor
/// promises nothing about outcomes: any status may come back from any call,
/// and its contracts hold whatever comes back.
pub trait Transport {
    /// Non-blocking receive of the next parsed inbound message.
    fn receive(&mut self) -> RecvStatus;

    /// Non-blocking best-effort send of one message.
    fn try_send(&mut self, msg: &Message) -> SendStatus;
}

/// The framework's callback: turns one inbound event into a declarative
/// [`Reaction`], interpreted on the originating session. Runs only on the
/// reactor thread.
pub trait MessageHandler {
    fn handle(&mut self, ctx: &MessageContext, event: Result<Message, SessionError>) -> Reaction;
}

/// The views of the queued messages, oldest first.
pub open spec fn queue_views(q: Seq<Message>) -> Seq<MsgView> {
    q.map_values(|m: Message| m@)
}

/// Of a prefix of queued messages attempted in order with these outcomes,
/// the ones the transport accepted, oldest first.
pub open spec fn sent_views(q: Seq<Message>, log: Seq<SendStatus>) -> Seq<MsgView>
    decreases log.len(),
{
    if log.len() == 0 || q.len() == 0 {
        Seq::empty()
    } else {
        (if log[0] is Sent {
            seq![q[0]@]
        } else {
            Seq::empty()
        }) + sent_views(q.skip(1), log.skip(1))
    }
}

proof fn lemma_sent_views_push(q: Seq<Message>, log: Seq<SendStatus>, m: Message, st: SendStatus)
    requires
        log.len() == q.len(),
    ensures
        sent_views(q.push(m), log.push(st)) == sent_views(q, log) + (if st is Sent {
            seq![m@]
        } else {
            Seq::<MsgView>::empty()
        }),
    decreases log.len(),
{
    let qm = q.push(m);
    let ls = log.push(st);
    if log.len() == 0 {
        assert(qm.skip(1) =~= Seq::<Message>::empty());
        assert(ls.skip(1) =~= Seq::<SendStatus>::empty());
        assert(ls[0] == st);
        assert(qm[0] == m);
        assert(sent_views(qm.skip(1), ls.skip(1)) == Seq::<MsgView>::empty());
        assert(sent_views(qm, ls) =~= sent_views(q, log) + (if st is Sent {
            seq![m@]
        } else {
            Seq::<MsgView>::empty()
        }));
    } else {
        lemma_sent_views_push(q.skip(1), log.skip(1), m, st);
        assert(qm.skip(1) =~= q.skip(1).push(m));
        assert(ls.skip(1) =~= log.skip(1).push(st));
        assert(sent_views(qm, ls) =~= sent_views(q, log) + (if st is Sent {
            seq![m@]
        } else {
            Seq::<MsgView>::empty()
        }));
    }
}

/// One session owned by the reactor: the transport, the not-yet-sent output
/// queue (oldest first), and whether the transport was last seen writable.
/// The ghost fields record the whole delivery history, so that the queue
/// discipline can be stated and proved:
/// `enqueued` is every message ever queued, `dequeued` every message taken
/// off the queue (accepted or dropped), `attempts` every message ever handed
/// to the transport, and `sent` every message the transport accepted.
#[verifier::ext_equal]
pub struct SessionEntry<T> {
    pub transport: T,
    pub output_queue: Vec<Message>,
    pub is_writable: bool,
    pub enqueued: Ghost<Seq<MsgView>>,
    pub dequeued: Ghost<Seq<MsgView>>,
    pub attempts: Ghost<Seq<MsgView>>,
    pub sent: Ghost<Seq<MsgView>>,
}

impl<T> SessionEntry<T> {
    /// The queue invariant: what was taken off the queue, followed by what
    /// still waits in it, is exactly everything ever enqueued, in order.
    pub open spec fn wf(self) -> bool {
        self.dequeued@ + queue_views(self.output_queue@) == self.enqueued@
    }

    /// A fresh entry: empty queue, not writable until the first writable
    /// readiness is observed, nothing delivered yet.
    pub fn new(transport: T) -> (e: SessionEntry<T>)
        ensures
            e.wf(),
            e.output_queue@.len() == 0,
            !e.is_writable,
            e.enqueued@ == Seq::<MsgView>::empty(),
            e.dequeued@ == Seq::<MsgView>::empty(),
            e.attempts@ == Seq::<MsgView>::empty(),
            e.sent@ == Seq::<MsgView>::empty(),
    {
        let e = SessionEntry {
            transport,
            output_queue: Vec::new(),
            is_writable: false,
            enqueued: Ghost(Seq::empty()),
            dequeued: Ghost(Seq::empty()),
            attempts: Ghost(Seq::empty()),
            sent: Ghost(Seq::empty()),
        };
        proof {
            assert(e.dequeued@ + queue_views(e.output_queue@) =~= e.enqueued@);
        }
        e
    }
}

/// Law: first-in-first-out. From the queue invariant alone: consumption
/// always takes the oldest enqueued message — what has left the queue is
/// exactly the oldest prefix of everything ever enqueued, and the queue
/// holds the remainder, still in enqueue order.
pub proof fn lemma_queue_fifo<T>(e: SessionEntry<T>)
    requires
        e.wf(),
    ensures
        e.dequeued@.is_prefix_of(e.enqueued@),
        queue_views(e.output_queue@) == e.enqueued@.skip(e.dequeued@.len() as int),
{
    assert(e.dequeued@ =~= e.enqueued@.subrange(0, e.dequeued@.len() as int));
    assert(queue_views(e.output_queue@) =~= e.enqueued@.skip(e.dequeued@.len() as int));
}

impl<T: Transport> SessionEntry<T> {
    /// A direct send: attempt at once; on a transient failure mark the
    /// session not writable and append to the tail of the queue, behind
    /// everything already queued; on any other error drop the message.
    pub fn send(&mut self, msg: Message) -> (st: SendStatus)
        requires
            old(self).wf(),
        ensures
            final(self).wf(),
            final(self).attempts@ == old(self).attempts@ + seq![msg@],
            final(self).dequeued@ == old(self).dequeued@,
            st is Sent ==> final(self).output_queue@ == old(self).output_queue@
                && final(self).is_writable == old(self).is_writable
                && final(self).enqueued@ == old(self).enqueued@
                && final(self).sent@ == old(self).sent@ + seq![msg@],
            st is Transient ==> final(self).output_queue@ == old(self).output_queue@.push(msg)
                && !final(self).is_writable
                && final(self).enqueued@ == old(self).enqueued@ + seq![msg@]
                && final(self).sent@ == old(self).sent@,
            st is Failed ==> final(self).output_queue@ == old(self).output_queue@
                && final(self).is_writable == old(self).is_writable
                && final(self).enqueued@ == old(self).enqueued@
                && final(self).sent@ == old(self).sent@,
    {
        let ghost mv = msg@;
        let st = self.transport.try_send(&msg);
        self.attempts = Ghost(self.attempts@ + seq![mv]);
        if st.is_transient() {
            self.is_writable = false;
            self.enqueued = Ghost(self.enqueued@ + seq![mv]);
            self.output_queue.push(msg);
            proof {
                assert(queue_views(self.output_queue@) =~= queue_views(
                    old(self).output_queue@,
                ).push(mv));
                assert(self.dequeued@ + queue_views(self.output_queue@) =~= self.enqueued@);
            }
        } else if st.is_sent() {
            self.sent = Ghost(self.sent@ + seq![mv]);
        }
        st
    }

    /// Drain the output queue: attempt each queued message in FIFO order.
    /// The first transient failure marks the session not writable and stops,
    /// keeping everything unsent in its original order; any other failure
    /// drops that one message and goes on. Returns the outcome of every
    /// attempt, in order; the contract pins the final state exactly, given
    /// those outcomes. On an empty queue this is a no-op.
    pub fn process_writable(&mut self) -> (log: Vec<SendStatus>)
        requires
            old(self).wf(),
            old(self).is_writable,
        ensures
            writable_drain_post(*old(self), *final(self), log@),
    {
        let ghost q0 = self.output_queue@;
        let mut log: Vec<SendStatus> = Vec::new();
        loop
            invariant_except_break
                self.wf(),
                self.is_writable,
                log@.len() <= q0.len(),
                forall|j: int| 0 <= j < log@.len() ==> !(log@[j] is Transient),
                self.output_queue@ == q0.skip(log@.len() as int),
                self.dequeued@ == old(self).dequeued@ + queue_views(q0.take(log@.len() as int)),
                self.attempts@ == old(self).attempts@ + queue_views(q0.take(log@.len() as int)),
                self.sent@ == old(self).sent@ + sent_views(q0.take(log@.len() as int), log@),
                self.enqueued@ == old(self).enqueued@,
                q0 == old(self).output_queue@,
                log@.len() == 0 ==> self.transport == old(self).transport,
            ensures
                self.wf(),
                log@.len() <= q0.len(),
                forall|j: int| 0 <= j < log@.len() - 1 ==> !(log@[j] is Transient),
                self.is_writable == !stops_short(log@),
                self.output_queue@ == q0.skip(consumed_of(log@)),
                self.dequeued@ == old(self).dequeued@ + queue_views(q0.take(consumed_of(log@))),
                self.attempts@ == old(self).attempts@ + queue_views(q0.take(log@.len() as int)),
                self.sent@ == old(self).sent@ + sent_views(q0.take(log@.len() as int), log@),
                self.enqueued@ == old(self).enqueued@,
                !stops_short(log@) ==> log@.len() == q0.len() && self.output_queue@.len() == 0,
                log@.len() == 0 ==> self.transport == old(self).transport,
                q0 == old(self).output_queue@,
            decreases q0.len() - log@.len(),
        {
            if self.output_queue.len() == 0 {
                proof {
                    assert(!stops_short(log@));
                    assert(consumed_of(log@) == log@.len() as int);
                }
                break;
            }
            let ghost i = log@.len() as int;
            let msg = self.output_queue.remove(0);
            let ghost mv = msg@;
            let st = self.transport.try_send(&msg);
            self.attempts = Ghost(self.attempts@ + seq![mv]);
            proof {
                assert(q0.skip(i)[0] == q0[i]);
                assert(q0.take(i + 1) =~= q0.take(i).push(msg));
                assert(queue_views(q0.take(i + 1)) =~= queue_views(q0.take(i)).push(mv));
                assert(q0.skip(i).remove(0) =~= q0.skip(i + 1));
                assert(self.output_queue@ == q0.skip(i + 1));
                assert(self.attempts@ =~= old(self).attempts@ + queue_views(q0.take(i + 1)));
                lemma_sent_views_push(q0.take(i), log@, msg, st);
                assert(queue_views(q0.skip(i)) =~= seq![mv] + queue_views(q0.skip(i + 1)));
            }
            if st.is_transient() {
                self.is_writable = false;
                self.output_queue.insert(0, msg);
                log.push(st);
                proof {
                    assert(self.output_queue@ =~= q0.skip(i));
                    assert(stops_short(log@));
                    assert(consumed_of(log@) == i);
                    assert(self.sent@ =~= old(self).sent@ + sent_views(q0.take(i + 1), log@));
                    assert(self.dequeued@ + queue_views(self.output_queue@) =~= self.enqueued@);
                }
                break;
            }
            if st.is_sent() {
                self.sent = Ghost(self.sent@ + seq![mv]);
            }
            self.dequeued = Ghost(self.dequeued@ + seq![mv]);
            log.push(st);
            proof {
                assert(self.dequeued@ =~= old(self).dequeued@ + queue_views(q0.take(i + 1)));
                assert(self.sent@ =~= old(self).sent@ + sent_views(q0.take(i + 1), log@));
                assert(self.dequeued@ + queue_views(self.output_queue@) =~= self.enqueued@);
            }
        }
        log
    }
}

/// The view of the keep-alive reply synthesized from this raw text.
pub open spec fn pong_view(raw: Seq<char>) -> MsgView {
    MsgView { raw: ping_reply_text(raw), command: command_of(ping_reply_text(raw)) }
}

/// One step of a readable drain, recorded so the contract can say what the
/// drain received, what it answered itself, and what it handed the handler.
pub enum ReadRecord {
    /// The transport reported no data; the drain stopped.
    NoMore,
    /// The transport reported a transient condition; the drain stopped.
    Blocked,
    /// A keep-alive whose synthesized reply parsed back; the reply was
    /// attempted directly on this session, and the handler never saw it.
    Ponged(MsgView),
    /// A keep-alive whose synthesized reply did not parse back; the failure
    /// went to the handler as an ordinary error, which returned this
    /// reaction.
    PongFailed(MsgView, Reaction),
    /// Any other message, delivered to the handler, which returned this
    /// reaction.
    Delivered(MsgView, Reaction),
    /// A non-transient receive error, delivered to the handler, which
    /// returned this reaction.
    ErrDelivered(Reaction),
}

/// A recorded step that ends the drain.
pub open spec fn is_stop(r: ReadRecord) -> bool {
    r is NoMore || r is Blocked
}

/// A recorded step is internally consistent: a keep-alive was answered
/// directly exactly when its synthesized reply parses back, and no message
/// delivered to the handler is a keep-alive.
pub open spec fn valid_record(r: ReadRecord) -> bool {
    match r {
        ReadRecord::Ponged(mv) => mv.command == "PING"@ && reply_parses(mv.raw),
        ReadRecord::PongFailed(mv, _) => mv.command == "PING"@ && !reply_parses(mv.raw),
        ReadRecord::Delivered(mv, _) => mv.command != "PING"@,
        _ => true,
    }
}

/// The messages one recorded step handed to the transport, in order: a
/// keep-alive's synthesized reply, or the sends of the handler's reaction.
pub open spec fn record_sends(r: ReadRecord) -> Seq<MsgView> {
    match r {
        ReadRecord::NoMore => Seq::empty(),
        ReadRecord::Blocked => Seq::empty(),
        ReadRecord::Ponged(mv) => seq![pong_view(mv.raw)],
        ReadRecord::PongFailed(_, reaction) => reaction_sends(reaction),
        ReadRecord::Delivered(_, reaction) => reaction_sends(reaction),
        ReadRecord::ErrDelivered(reaction) => reaction_sends(reaction),
    }
}

/// The messages a sequence of recorded steps handed to the transport.
pub open spec fn records_sends(rs: Seq<ReadRecord>) -> Seq<MsgView>
    decreases rs.len(),
{
    if rs.len() == 0 {
        Seq::empty()
    } else {
        records_sends(rs.drop_last()) + record_sends(rs.last())
    }
}

/// What a bounded readable drain guarantees, given its record log: one
/// record per receive, each internally consistent; the transport was handed
/// exactly the recorded sends, in recorded order (each keep-alive's reply,
/// then each reaction's sends, before the next receive); a stop record
/// stands only last, and the drain ended either on one (`done`) or because
/// the whole budget was spent; nothing left the output queue.
pub open spec fn readable_post<T>(
    pre: SessionEntry<T>,
    post: SessionEntry<T>,
    rlog: Seq<ReadRecord>,
    done: bool,
    max_reads: int,
) -> bool {
    &&& post.wf()
    &&& post.dequeued@ == pre.dequeued@
    &&& post.attempts@ == pre.attempts@ + records_sends(rlog)
    &&& pre.enqueued@.is_prefix_of(post.enqueued@)
    &&& pre.sent@.is_prefix_of(post.sent@)
    &&& (post.is_writable ==> pre.is_writable)
    &&& rlog.len() <= max_reads
    &&& (done <==> (rlog.len() > 0 && is_stop(rlog.last())))
    &&& (!done ==> rlog.len() == max_reads)
    &&& (forall|i: int| 0 <= i < rlog.len() - 1 ==> !is_stop(#[trigger] rlog[i]))
    &&& (forall|i: int| 0 <= i < rlog.len() ==> valid_record(#[trigger] rlog[i]))
}

/// The sends still owed by a worklist of reactions, top of the stack first.
spec fn stack_sends(st: Seq<Reaction>) -> Seq<MsgView>
    decreases st.len(),
{
    if st.len() == 0 {
        Seq::empty()
    } else {
        reaction_sends(st.last()) + stack_sends(st.drop_last())
    }
}

proof fn lemma_prefix_concat(a: Seq<MsgView>, b: Seq<MsgView>)
    ensures
        a.is_prefix_of(a + b),
        a.is_prefix_of(a),
{
    assert(a =~= (a + b).subrange(0, a.len() as int));
    assert(a =~= a.subrange(0, a.len() as int));
}

proof fn lemma_prefix_trans(a: Seq<MsgView>, b: Seq<MsgView>, c: Seq<MsgView>)
    requires
        a.is_prefix_of(b),
        b.is_prefix_of(c),
    ensures
        a.is_prefix_of(c),
{
    assert(a =~= c.subrange(0, a.len() as int));
}

impl<T: Transport> SessionEntry<T> {
    /// Interpret a reaction on this session: nothing, one direct send, or
    /// each part of a `Multi` in order, however deeply nested. Exactly the
    /// messages the reaction asks for are handed to the transport, in the
    /// reaction's order, whatever each send's outcome.
    pub fn process_reaction(&mut self, reaction: Reaction)
        requires
            old(self).wf(),
        ensures
            final(self).wf(),
            final(self).attempts@ == old(self).attempts@ + reaction_sends(reaction),
            final(self).dequeued@ == old(self).dequeued@,
            old(self).enqueued@.is_prefix_of(final(self).enqueued@),
            old(self).sent@.is_prefix_of(final(self).sent@),
            final(self).is_writable ==> old(self).is_writable,
    {
        let ghost target = old(self).attempts@ + reaction_sends(reaction);
        let mut stack: Vec<Reaction> = Vec::new();
        stack.push(reaction);
        proof {
            lemma_prefix_concat(old(self).enqueued@, Seq::<MsgView>::empty());
            lemma_prefix_concat(old(self).sent@, Seq::<MsgView>::empty());
            assert(stack@.drop_last() =~= Seq::<Reaction>::empty());
            assert(stack@.last() == reaction);
            assert(stack_sends(Seq::<Reaction>::empty()) =~= Seq::<MsgView>::empty());
            assert(reaction_sends(reaction) + Seq::<MsgView>::empty() =~= reaction_sends(
                reaction,
            ));
            assert(self.attempts@ + stack_sends(stack@) =~= target);
        }
        loop
            invariant
                self.wf(),
                self.attempts@ + stack_sends(stack@) == target,
                self.dequeued@ == old(self).dequeued@,
                old(self).enqueued@.is_prefix_of(self.enqueued@),
                old(self).sent@.is_prefix_of(self.sent@),
                self.is_writable ==> old(self).is_writable,
                target == old(self).attempts@ + reaction_sends(reaction),
            ensures
                stack@.len() == 0,
            decreases seq_size(stack@),
        {
            if stack.len() == 0 {
                break;
            }
            let ghost pre_stack = stack@;
            let ghost s0 = seq_size(pre_stack);
            let top = stack.pop().unwrap();
            proof {
                assert(stack@ =~= pre_stack.drop_last());
                assert(stack_sends(pre_stack) == reaction_sends(top) + stack_sends(stack@));
                assert(pre_stack =~= stack@.push(top));
                lemma_seq_size_push(stack@, top);
                lemma_reaction_size_unfold(top);
            }
            match top {
                Reaction::Nothing => {
                    proof {
                        assert(seq![Reaction::Nothing].skip(1) =~= Seq::<Reaction>::empty());
                        assert(seq_sends(Seq::<Reaction>::empty()) =~= Seq::<MsgView>::empty());
                        assert(reaction_sends(Reaction::Nothing) =~= Seq::<MsgView>::empty());
                        assert(self.attempts@ + stack_sends(stack@) =~= target);
                    }
                }
                Reaction::RawMsg(m) => {
                    let ghost mv = m@;
                    let ghost pre_enq = self.enqueued@;
                    let ghost pre_sent = self.sent@;
                    proof {
                        assert(seq![Reaction::RawMsg(m)].skip(1) =~= Seq::<Reaction>::empty());
                        assert(seq_sends(Seq::<Reaction>::empty()) =~= Seq::<MsgView>::empty());
                        assert(reaction_sends(Reaction::RawMsg(m)) =~= seq![mv]);
                    }
                    let _st = self.send(m);
                    proof {
                        assert(self.attempts@ + stack_sends(stack@) =~= target);
                        lemma_prefix_concat(pre_enq, seq![mv]);
                        lemma_prefix_concat(pre_sent, seq![mv]);
                        lemma_prefix_trans(old(self).enqueued@, pre_enq, self.enqueued@);
                        lemma_prefix_trans(old(self).sent@, pre_sent, self.sent@);
                    }
                }
                Reaction::Multi(rs) => {
                    proof {
                        lemma_multi_sends(rs);
                    }
                    let mut rs = rs;
                    while rs.len() > 0
                        invariant
                            self.attempts@ + (seq_sends(rs@) + stack_sends(stack@)) == target,
                            seq_size(stack@) + seq_size(rs@) + 1 == s0,
                        decreases rs@.len(),
                    {
                        let ghost pre_rs = rs@;
                        let ghost pre_inner = stack@;
                        let r = rs.pop().unwrap();
                        stack.push(r);
                        proof {
                            assert(rs@ =~= pre_rs.drop_last());
                            assert(pre_rs =~= rs@.push(r));
                            lemma_seq_sends_push(rs@, r);
                            lemma_seq_size_push(rs@, r);
                            assert(stack@.drop_last() =~= pre_inner);
                            assert(stack@ =~= pre_inner.push(r));
                            lemma_seq_size_push(pre_inner, r);
                            assert(stack_sends(stack@) == reaction_sends(r) + stack_sends(
                                pre_inner,
                            ));
                            assert(self.attempts@ + (seq_sends(rs@) + stack_sends(stack@)) =~= target);
                        }
                    }
                    proof {
                        assert(seq_sends(rs@) =~= Seq::<MsgView>::empty());
                        assert(seq_size(rs@) == 0);
                        assert(self.attempts@ + stack_sends(stack@) =~= target);
                        assert(seq_size(stack@) < s0);
                    }
                }
            }
        }
        proof {
            assert(stack_sends(Seq::<Reaction>::empty()) =~= Seq::<MsgView>::empty());
            assert(stack_sends(stack@) =~= Seq::<MsgView>::empty());
            assert(self.attempts@ =~= target);
        }
    }

    /// Drain inbound traffic on a readable session: receive repeatedly until
    /// no data or a transient condition, making at most `max_reads` receive
    /// attempts so that one session cannot starve the rest. The returned
    /// record log holds one record per receive, and the contract pins, over
    /// it: a message whose command is the keep-alive request and whose
    /// synthesized reply (the raw text with only its first `'I'` replaced by
    /// `'O'`) parses back is answered with exactly that reply, attempted
    /// directly on this session before the next receive, and the handler
    /// never sees it; a keep-alive whose reply does not parse back goes to
    /// the handler as an ordinary error; every other message and every
    /// non-transient receive error is delivered to the handler exactly once,
    /// in arrival order, and each returned reaction's sends are attempted
    /// before the next receive; the drain stops early only on no data or a
    /// transient condition. Nothing is ever taken off the output queue.
    ///
    /// The first result says whether the drain ran to exhaustion (`true`) or
    /// the budget ran out first — then the caller must call again before
    /// polling anew, or an edge-triggered readiness could be missed.
    pub fn process_readable<H: MessageHandler>(
        &mut self,
        session_id: SessionId,
        handler: &mut H,
        max_reads: usize,
    ) -> (r: (bool, Ghost<Seq<ReadRecord>>))
        requires
            old(self).wf(),
        ensures
            readable_post(*old(self), *final(self), r.1@, r.0, max_reads as int),
    {
        let ctx = MessageContext { session_id };
        let mut reads: usize = 0;
        let ghost mut rlog: Seq<ReadRecord> = Seq::empty();
        proof {
            lemma_prefix_concat(old(self).enqueued@, Seq::<MsgView>::empty());
            lemma_prefix_concat(old(self).sent@, Seq::<MsgView>::empty());
            assert(records_sends(rlog) =~= Seq::<MsgView>::empty());
            assert(self.attempts@ =~= old(self).attempts@ + records_sends(rlog));
        }
        loop
            invariant
                self.wf(),
                self.dequeued@ == old(self).dequeued@,
                old(self).enqueued@.is_prefix_of(self.enqueued@),
                old(self).sent@.is_prefix_of(self.sent@),
                self.attempts@ == old(self).attempts@ + records_sends(rlog),
                self.is_writable ==> old(self).is_writable,
                reads <= max_reads,
                rlog.len() == reads,
                forall|i: int| 0 <= i < rlog.len() ==> !is_stop(#[trigger] rlog[i]),
                forall|i: int| 0 <= i < rlog.len() ==> valid_record(#[trigger] rlog[i]),
            decreases max_reads - reads,
        {
            if reads == max_reads {
                return (false, Ghost(rlog));
            }
            reads += 1;
            let status = self.transport.receive();
            let ghost pre_log = rlog;
            let reaction = match status {
                RecvStatus::Msg(msg) => {
                    let ghost mv = msg@;
                    if msg.is_ping() {
                        match crate::message::pong_for(&msg) {
                            Ok(pong) => {
                                proof {
                                    assert(seq![Reaction::RawMsg(pong)].skip(1)
                                        =~= Seq::<Reaction>::empty());
                                    assert(seq_sends(Seq::<Reaction>::empty())
                                        =~= Seq::<MsgView>::empty());
                                    assert(reaction_sends(Reaction::RawMsg(pong)) =~= seq![pong@]);
                                    assert(pong@ =~= pong_view(mv.raw));
                                    rlog = rlog.push(ReadRecord::Ponged(mv));
                                    assert(record_sends(rlog.last()) == reaction_sends(
                                        Reaction::RawMsg(pong),
                                    ));
                                }
                                Reaction::RawMsg(pong)
                            },
                            Err(e) => {
                                let rx = handler.handle(&ctx, Err(SessionError::Parse(e)));
                                proof {
                                    rlog = rlog.push(ReadRecord::PongFailed(mv, rx));
                                }
                                rx
                            },
                        }
                    } else {
                        let rx = handler.handle(&ctx, Ok(msg));
                        proof {
                            rlog = rlog.push(ReadRecord::Delivered(mv, rx));
                        }
                        rx
                    }
                },
                RecvStatus::NoData => {
                    proof {
                        rlog = rlog.push(ReadRecord::NoMore);
                        assert(rlog.drop_last() =~= pre_log);
                        assert(records_sends(rlog) =~= records_sends(pre_log));
                    }
                    return (true, Ghost(rlog));
                },
                RecvStatus::Transient => {
                    proof {
                        rlog = rlog.push(ReadRecord::Blocked);
                        assert(rlog.drop_last() =~= pre_log);
                        assert(records_sends(rlog) =~= records_sends(pre_log));
                    }
                    return (true, Ghost(rlog));
                },
                RecvStatus::Failed(e) => {
                    let rx = handler.handle(&ctx, Err(SessionError::Recv(e)));
                    proof {
                        rlog = rlog.push(ReadRecord::ErrDelivered(rx));
                    }
                    rx
                },
            };
            let ghost pre_enq = self.enqueued@;
            let ghost pre_sent = self.sent@;
            let ghost rx_snapshot = reaction;
            self.process_reaction(reaction);
            proof {
                assert(rlog.drop_last() =~= pre_log);
                assert(records_sends(rlog) == records_sends(pre_log) + record_sends(rlog.last()));
                assert(record_sends(rlog.last()) == reaction_sends(rx_snapshot));
                assert(self.attempts@ =~= old(self).attempts@ + records_sends(rlog));
                lemma_prefix_concat(pre_enq, Seq::<MsgView>::empty());
                lemma_prefix_concat(pre_sent, Seq::<MsgView>::empty());
                lemma_prefix_trans(old(self).enqueued@, pre_enq, self.enqueued@);
                lemma_prefix_trans(old(self).sent@, pre_sent, self.sent@);
            }
        }
    }

    /// Handle one readiness event for this session: a writable edge marks
    /// the session writable; a session seen writable drains its output queue
    /// first — also when the flag was set by an earlier cycle and this event
    /// has no writable edge; a readable edge then drains inbound messages,
    /// with at most `max_reads` receive attempts. The result carries the
    /// writable drain's send outcomes (so a caller can report non-transient
    /// send errors, whose messages are dropped), the readable drain's
    /// records, and the state between the two phases; the contract pins the
    /// final state as the writable drain followed by the readable drain, in
    /// that order.
    /// Draining an already-empty output queue on a writable event is a no-op
    /// beyond setting the writability flag.
    pub fn process_session_event<H: MessageHandler>(
        &mut self,
        readable: bool,
        writable: bool,
        session_id: SessionId,
        handler: &mut H,
        max_reads: usize,
    ) -> (r: (bool, Vec<SendStatus>, Ghost<Seq<ReadRecord>>, Ghost<SessionEntry<T>>))
        requires
            old(self).wf(),
        ensures
            final(self).wf(),
            session_event_post(
                *old(self),
                *final(self),
                readable,
                writable,
                r.3@,
                r.1@,
                r.2@,
                r.0,
                max_reads as int,
            ),
            old(self).dequeued@.is_prefix_of(final(self).dequeued@),
            old(self).enqueued@.is_prefix_of(final(self).enqueued@),
            old(self).sent@.is_prefix_of(final(self).sent@),
            old(self).attempts@.is_prefix_of(final(self).attempts@),
            !writable && !old(self).is_writable ==> final(self).dequeued@ == old(self).dequeued@,
            (writable && !readable && old(self).output_queue@.len() == 0) ==> ({
                &&& final(self).is_writable
                &&& final(self).output_queue@ == old(self).output_queue@
                &&& final(self).transport == old(self).transport
                &&& final(self).enqueued@ == old(self).enqueued@
                &&& final(self).dequeued@ == old(self).dequeued@
                &&& final(self).attempts@ == old(self).attempts@
                &&& final(self).sent@ == old(self).sent@
            }),
    {
        proof {
            lemma_prefix_concat(old(self).dequeued@, Seq::<MsgView>::empty());
            lemma_prefix_concat(old(self).enqueued@, Seq::<MsgView>::empty());
            lemma_prefix_concat(old(self).sent@, Seq::<MsgView>::empty());
            lemma_prefix_concat(old(self).attempts@, Seq::<MsgView>::empty());
        }
        if writable {
            self.is_writable = true;
        }
        proof {
            assert(*self =~= with_writable(*old(self), old(self).is_writable || writable));
        }
        let mut wlog: Vec<SendStatus> = Vec::new();
        if self.is_writable {
            wlog = self.process_writable();
            proof {
                lemma_prefix_concat(
                    old(self).dequeued@,
                    queue_views(old(self).output_queue@.take(consumed_of(wlog@))),
                );
                lemma_prefix_concat(
                    old(self).attempts@,
                    queue_views(old(self).output_queue@.take(wlog@.len() as int)),
                );
                lemma_prefix_concat(
                    old(self).sent@,
                    sent_views(old(self).output_queue@.take(wlog@.len() as int), wlog@),
                );
                if old(self).output_queue@.len() == 0 {
                    assert(old(self).output_queue@.take(0) =~= Seq::<Message>::empty());
                    assert(queue_views(Seq::<Message>::empty()) =~= Seq::<MsgView>::empty());
                    assert(self.dequeued@ =~= old(self).dequeued@);
                    assert(self.attempts@ =~= old(self).attempts@);
                    assert(self.sent@ =~= old(self).sent@);
                    assert(self.output_queue@ =~= old(self).output_queue@);
                }
            }
        }
        let ghost mid = *self;
        let mut done: bool = true;
        let ghost mut rlog: Seq<ReadRecord> = Seq::empty();
        if readable {
            let ghost pre_deq = self.dequeued@;
            let ghost pre_enq = self.enqueued@;
            let ghost pre_sent = self.sent@;
            let ghost pre_att = self.attempts@;
            let (rdone, rl) = self.process_readable(session_id, handler, max_reads);
            done = rdone;
            proof {
                rlog = rl@;
                lemma_prefix_concat(pre_deq, Seq::<MsgView>::empty());
                lemma_prefix_concat(pre_att, records_sends(rlog));
                lemma_prefix_trans(old(self).dequeued@, pre_deq, self.dequeued@);
                lemma_prefix_trans(old(self).enqueued@, pre_enq, self.enqueued@);
                lemma_prefix_trans(old(self).sent@, pre_sent, self.sent@);
                lemma_prefix_trans(old(self).attempts@, pre_att, self.attempts@);
            }
        }
        (done, wlog, Ghost(rlog), Ghost(mid))
    }
}

/// Whether a drain stopped short of the queue's end: its last attempt hit a
/// transient failure.
pub open spec fn stops_short(log: Seq<SendStatus>) -> bool {
    log.len() > 0 && log.last() is Transient
}

/// How many queued messages a drain with these outcomes consumed: every
/// attempted one, except that a message whose attempt failed transiently
/// stays queued.
pub open spec fn consumed_of(log: Seq<SendStatus>) -> int {
    if stops_short(log) {
        log.len() - 1
    } else {
        log.len() as int
    }
}

/// What a writable drain guarantees, given the outcome of each attempt:
/// attempts went to the oldest queued messages in FIFO order; only the last
/// attempt may be transient, and it clears the writability flag and keeps
/// everything unsent queued in order; a non-transient drain ran the whole
/// queue; the histories grow by exactly the attempted prefix.
pub open spec fn writable_drain_post<T>(
    pre: SessionEntry<T>,
    post: SessionEntry<T>,
    log: Seq<SendStatus>,
) -> bool {
    &&& post.wf()
    &&& log.len() <= pre.output_queue@.len()
    &&& (forall|j: int| 0 <= j < log.len() - 1 ==> !((#[trigger] log[j]) is Transient))
    &&& post.is_writable == !stops_short(log)
    &&& post.output_queue@ == pre.output_queue@.skip(consumed_of(log))
    &&& post.dequeued@ == pre.dequeued@ + queue_views(pre.output_queue@.take(consumed_of(log)))
    &&& post.attempts@ == pre.attempts@ + queue_views(pre.output_queue@.take(log.len() as int))
    &&& post.sent@ == pre.sent@ + sent_views(pre.output_queue@.take(log.len() as int), log)
    &&& post.enqueued@ == pre.enqueued@
    &&& (!stops_short(log) ==> log.len() == pre.output_queue@.len() && post.output_queue@.len()
        == 0)
    &&& (log.len() == 0 ==> post.transport == pre.transport)
}

/// The given entry with its writability flag replaced.
pub open spec fn with_writable<T>(e: SessionEntry<T>, w: bool) -> SessionEntry<T> {
    SessionEntry {
        transport: e.transport,
        output_queue: e.output_queue,
        is_writable: w,
        enqueued: e.enqueued,
        dequeued: e.dequeued,
        attempts: e.attempts,
        sent: e.sent,
    }
}

/// What one readiness dispatch on a session guarantees: a writable edge
/// raises the writability flag; if the session then is writable, the
/// writable drain runs first, to the state between (`mid`); the readable
/// drain (if the event is readable) runs after it and nowhere else — so
/// within one event, writable handling always precedes readable handling,
/// and a session marked writable by an earlier cycle drains even on an
/// event with no writable edge.
pub open spec fn session_event_post<T>(
    pre: SessionEntry<T>,
    post: SessionEntry<T>,
    readable: bool,
    writable: bool,
    mid: SessionEntry<T>,
    wlog: Seq<SendStatus>,
    rlog: Seq<ReadRecord>,
    done: bool,
    max_reads: int,
) -> bool {
    let flagged = with_writable(pre, pre.is_writable || writable);
    &&& (if flagged.is_writable {
        writable_drain_post(flagged, mid, wlog)
    } else {
        mid == flagged && wlog.len() == 0
    })
    &&& (if readable {
        readable_post(mid, post, rlog, done, max_reads)
    } else {
        post == mid && rlog.len() == 0 && done
    })
}

} // verus!
