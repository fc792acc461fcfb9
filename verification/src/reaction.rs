//! A handler's declarative response: nothing, one raw message, or an ordered
//! sequence of responses, interpreted recursively and order-preservingly.
use vstd::prelude::*;
use crate::message::{Message, MsgView};

verus! {

/// What a message handler asks the reactor to do on the originating session.
#[derive(Debug)]
pub enum Reaction {
    /// Send nothing.
    Nothing,
    /// Send this one message.
    RawMsg(Message),
    /// Apply each reaction in order.
    Multi(Vec<Reaction>),
}

/// The messages a sequence of reactions asks to send, in order.
pub open spec fn seq_sends(rs: Seq<Reaction>) -> Seq<MsgView>
    decreases rs,
{
    if rs.len() == 0 {
        Seq::empty()
    } else {
        (match rs[0] {
            Reaction::Nothing => Seq::empty(),
            Reaction::RawMsg(m) => seq![m@],
            Reaction::Multi(inner) => seq_sends(inner@),
        }) + seq_sends(rs.skip(1))
    }
}

/// The messages one reaction asks to send, in order.
pub open spec fn reaction_sends(r: Reaction) -> Seq<MsgView> {
    seq_sends(seq![r])
}

/// The sends a concatenation of reaction sequences asks for are the sends
/// of the parts, concatenated in order.
pub proof fn lemma_seq_sends_append(a: Seq<Reaction>, b: Seq<Reaction>)
    ensures
        seq_sends(a + b) == seq_sends(a) + seq_sends(b),
    decreases a.len(),
{
    if a.len() == 0 {
        assert(a + b =~= b);
        assert(seq_sends(a) =~= Seq::<MsgView>::empty());
        assert(seq_sends(a + b) =~= seq_sends(a) + seq_sends(b));
    } else {
        lemma_seq_sends_append(a.skip(1), b);
        assert((a + b).skip(1) =~= a.skip(1) + b);
        assert((a + b)[0] == a[0]);
        assert(seq_sends(a + b) =~= seq_sends(a) + seq_sends(b));
    }
}

pub proof fn lemma_seq_sends_push(a: Seq<Reaction>, r: Reaction)
    ensures
        seq_sends(a.push(r)) == seq_sends(a) + reaction_sends(r),
{
    lemma_seq_sends_append(a, seq![r]);
    assert(a.push(r) =~= a + seq![r]);
}

/// The structural size of a sequence of reactions: one for each node,
/// however nested. Interpreting a reaction does work bounded by its size.
pub(crate) open spec fn seq_size(rs: Seq<Reaction>) -> nat
    decreases rs,
{
    if rs.len() == 0 {
        0
    } else {
        (match rs[0] {
            Reaction::Nothing => 1nat,
            Reaction::RawMsg(_) => 1nat,
            Reaction::Multi(inner) => 1nat + seq_size(inner@),
        }) + seq_size(rs.skip(1))
    }
}

/// The structural size of one reaction.
pub(crate) open spec fn reaction_size(r: Reaction) -> nat {
    seq_size(seq![r])
}

pub(crate) proof fn lemma_reaction_size_unfold(r: Reaction)
    ensures
        reaction_size(r) >= 1,
        r is Nothing ==> reaction_size(r) == 1,
        r is RawMsg ==> reaction_size(r) == 1,
        r matches Reaction::Multi(rs) ==> reaction_size(r) == 1 + seq_size(rs@),
{
    assert(seq![r].skip(1) =~= Seq::<Reaction>::empty());
    assert(seq![r][0] == r);
    assert(seq_size(Seq::<Reaction>::empty()) == 0);
}

pub(crate) proof fn lemma_seq_size_append(a: Seq<Reaction>, b: Seq<Reaction>)
    ensures
        seq_size(a + b) == seq_size(a) + seq_size(b),
    decreases a.len(),
{
    if a.len() == 0 {
        assert(a + b =~= b);
    } else {
        lemma_seq_size_append(a.skip(1), b);
        assert((a + b).skip(1) =~= a.skip(1) + b);
        assert((a + b)[0] == a[0]);
    }
}

pub(crate) proof fn lemma_seq_size_push(a: Seq<Reaction>, r: Reaction)
    ensures
        seq_size(a.push(r)) == seq_size(a) + reaction_size(r),
{
    lemma_seq_size_append(a, seq![r]);
    assert(a.push(r) =~= a + seq![r]);
}

/// Law: a `Multi` asks for exactly the sends of its parts, in order — the
/// sends of `Multi(rs)` are those of `rs[0]`, then `rs[1]`, and so on — so
/// interpreting `Multi([R1, ..., Rn])` is interpreting `R1`, ..., `Rn` one
/// after the other, however deeply nested each part is.
pub proof fn lemma_multi_sends(rs: Vec<Reaction>)
    ensures
        reaction_sends(Reaction::Multi(rs)) == seq_sends(rs@),
        rs@.len() > 0 ==> seq_sends(rs@) == reaction_sends(rs@[0]) + seq_sends(rs@.skip(1)),
{
    let s = seq![Reaction::Multi(rs)];
    assert(s.skip(1) =~= Seq::<Reaction>::empty());
    assert(s[0] == Reaction::Multi(rs));
    assert(seq_sends(s) == seq_sends(rs@) + seq_sends(Seq::<Reaction>::empty()));
    assert(seq_sends(rs@) + Seq::<MsgView>::empty() =~= seq_sends(rs@));
    if rs@.len() > 0 {
        assert(seq![rs@[0]].skip(1) =~= Seq::<Reaction>::empty());
        assert(reaction_sends(rs@[0]) =~= (match rs@[0] {
            Reaction::Nothing => Seq::<MsgView>::empty(),
            Reaction::RawMsg(m) => seq![m@],
            Reaction::Multi(inner) => seq_sends(inner@),
        }));
    }
}

} // verus!
