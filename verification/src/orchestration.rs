//! Agents working together: their roles and states, the messages they send
//! each other, and the bus that hands a message to the handlers that an
//! agent subscribed.
use vstd::prelude::*;

use crate::text::{chars_eq, chars_of};

verus! {

/// The part an agent plays.
#[derive(Debug, Clone, Copy, PartialEq, Eq, Structural)]
pub enum AgentRole {
    Orchestrator,
    Executor,
    Planner,
    Advisor,
    Explorer,
    Librarian,
}

/// Whether an agent can take work.
#[derive(Debug, Clone, Copy, PartialEq, Eq, Structural)]
pub enum AgentStatus {
    Idle,
    Busy,
    Offline,
}

/// A message from one agent to another.
#[derive(Debug, Clone)]
pub struct AgentMessage {
    pub from: String,
    pub to: String,
    pub subject: String,
    pub body: String,
}

/// A message's fields as text.
pub struct MessageView {
    pub from: Seq<char>,
    pub to: Seq<char>,
    pub subject: Seq<char>,
    pub body: Seq<char>,
}

pub open spec fn message_view(m: AgentMessage) -> MessageView {
    MessageView { from: m.from@, to: m.to@, subject: m.subject@, body: m.body@ }
}

/// Receives the messages sent to an agent. Implemented by the users of the
/// bus: a handler takes a message or refuses it with an error, and its
/// implementer says which through `accepts` and `refusal`. An error stops
/// the delivery of the message to later handlers.
pub trait MessageHandler {
    /// Whether the handler takes `message`.
    spec fn accepts(&self, message: MessageView) -> bool;

    /// The error with which the handler refuses `message`.
    spec fn refusal(&self, message: MessageView) -> String;

    fn handle(&self, message: AgentMessage) -> (r: Result<(), String>)
        ensures
            match r {
                Ok(()) => self.accepts(message_view(message)),
                Err(e) => !self.accepts(message_view(message)) && e@ == self.refusal(message_view(message))@,
            },
    ;
}

/// The error of the first handler, in delivery order, that refuses its
/// message; `None` when every one takes it.
pub open spec fn first_refusal<H: MessageHandler>(ds: Seq<(H, MessageView)>) -> Option<Seq<char>>
    decreases ds.len(),
{
    if ds.len() == 0 {
        None
    } else if !ds[0].0.accepts(ds[0].1) {
        Some(ds[0].0.refusal(ds[0].1)@)
    } else {
        first_refusal(ds.drop_first())
    }
}

/// The outcome of delivering in order: `Ok`, or the first refusal.
pub open spec fn delivery_result<H: MessageHandler>(ds: Seq<(H, MessageView)>) -> Result<(), Seq<char>> {
    match first_refusal(ds) {
        None => Ok(()),
        Some(e) => Err(e),
    }
}

pub open spec fn result_text(r: Result<(), String>) -> Result<(), Seq<char>> {
    match r {
        Ok(()) => Ok(()),
        Err(e) => Err(e@),
    }
}

/// Each handler of `hs` with the message `m`.
pub open spec fn deliveries_to<H>(hs: Seq<H>, m: MessageView) -> Seq<(H, MessageView)> {
    hs.map_values(|h: H| (h, m))
}

/// What a broadcast from `from` delivers: for every subscription but the
/// sender's, in order, each of its handlers with the message addressed to
/// that agent.
pub open spec fn broadcast_deliveries<H>(
    subs: Seq<(Seq<char>, Seq<H>)>,
    from: Seq<char>,
    subject: Seq<char>,
    body: Seq<char>,
) -> Seq<(H, MessageView)>
    decreases subs.len(),
{
    if subs.len() == 0 {
        Seq::empty()
    } else {
        let last = subs.last();
        broadcast_deliveries(subs.drop_last(), from, subject, body) + if last.0 != from {
            deliveries_to(last.1, MessageView { from, to: last.0, subject, body })
        } else {
            Seq::empty()
        }
    }
}

proof fn lemma_first_refusal_concat<H: MessageHandler>(a: Seq<(H, MessageView)>, b: Seq<(H, MessageView)>)
    ensures
        first_refusal(a + b) == match first_refusal(a) {
            Some(x) => Some(x),
            None => first_refusal(b),
        },
    decreases a.len(),
{
    if a.len() == 0 {
        assert(a + b =~= b);
    } else {
        assert((a + b)[0] == a[0]);
        assert((a + b).drop_first() =~= a.drop_first() + b);
        lemma_first_refusal_concat(a.drop_first(), b);
    }
}

proof fn lemma_refusal_at<H: MessageHandler>(ds: Seq<(H, MessageView)>, i: int)
    requires
        0 <= i < ds.len(),
        first_refusal(ds.take(i)) is None,
        !ds[i].0.accepts(ds[i].1),
    ensures
        first_refusal(ds) == Some(ds[i].0.refusal(ds[i].1)@),
{
    lemma_first_refusal_concat(ds.take(i), ds.skip(i));
    assert(ds.take(i) + ds.skip(i) =~= ds);
    assert(ds.skip(i)[0] == ds[i]);
}

proof fn lemma_accepted_through<H: MessageHandler>(ds: Seq<(H, MessageView)>, i: int)
    requires
        0 <= i < ds.len(),
        first_refusal(ds.take(i)) is None,
        ds[i].0.accepts(ds[i].1),
    ensures
        first_refusal(ds.take(i + 1)) is None,
{
    let one = seq![ds[i]];
    assert(one.drop_first() =~= Seq::<(H, MessageView)>::empty());
    assert(first_refusal(one.drop_first()) is None);
    assert(one[0] == ds[i]);
    assert(first_refusal(one) is None);
    lemma_first_refusal_concat(ds.take(i), one);
    assert(ds.take(i) + one =~= ds.take(i + 1));
}

proof fn lemma_broadcast_split<H>(
    subs: Seq<(Seq<char>, Seq<H>)>,
    j: int,
    from: Seq<char>,
    subject: Seq<char>,
    body: Seq<char>,
)
    requires
        0 <= j <= subs.len(),
    ensures
        broadcast_deliveries(subs, from, subject, body) == broadcast_deliveries(subs.take(j), from, subject, body)
            + broadcast_deliveries(subs.skip(j), from, subject, body),
    decreases subs.len(),
{
    if j == subs.len() {
        assert(subs.take(j) =~= subs);
        assert(subs.skip(j).len() == 0);
        assert(broadcast_deliveries(subs, from, subject, body) + Seq::<(H, MessageView)>::empty()
            =~= broadcast_deliveries(subs, from, subject, body));
    } else {
        let dl = subs.drop_last();
        lemma_broadcast_split(dl, j, from, subject, body);
        assert(dl.take(j) =~= subs.take(j));
        assert(subs.skip(j).drop_last() =~= dl.skip(j));
        assert(subs.skip(j).last() == subs.last());
        let a = broadcast_deliveries(subs.take(j), from, subject, body);
        let b = broadcast_deliveries(dl.skip(j), from, subject, body);
        let last = subs.last();
        let c = if last.0 != from {
            deliveries_to(last.1, MessageView { from, to: last.0, subject, body })
        } else {
            Seq::empty()
        };
        assert(a + b + c =~= a + (b + c));
    }
}

/// The handlers subscribed under an agent id; none when it has none.
pub open spec fn handlers_of<H>(subs: Seq<(Seq<char>, Seq<H>)>, id: Seq<char>) -> Seq<H>
    decreases subs.len(),
{
    if subs.len() == 0 {
        Seq::empty()
    } else if subs.last().0 == id {
        subs.last().1
    } else {
        handlers_of(subs.drop_last(), id)
    }
}

/// Hands messages to the handlers subscribed under the addressee's id.
pub struct MessageBus<H> {
    pub subscriptions: Vec<(String, Vec<H>)>,
}

pub open spec fn sub_views<H>(v: Seq<(String, Vec<H>)>) -> Seq<(Seq<char>, Seq<H>)> {
    v.map_values(|p: (String, Vec<H>)| (p.0@, p.1@))
}

/// No agent id occurs twice.
pub open spec fn distinct_ids<H>(s: Seq<(Seq<char>, Seq<H>)>) -> bool {
    forall|i: int, j: int| 0 <= i < j < s.len() ==> s[i].0 != s[j].0
}

pub(crate) proof fn lemma_handlers_at<H>(s: Seq<(Seq<char>, Seq<H>)>, k: int)
    requires
        distinct_ids(s),
        0 <= k < s.len(),
    ensures
        handlers_of(s, s[k].0) == s[k].1,
    decreases s.len(),
{
    if k < s.len() - 1 {
        assert(s.last().0 != s[k].0);
        assert(distinct_ids(s.drop_last()));
        assert(s.drop_last()[k] == s[k]);
        lemma_handlers_at(s.drop_last(), k);
    }
}

pub(crate) proof fn lemma_handlers_absent<H>(s: Seq<(Seq<char>, Seq<H>)>, id: Seq<char>)
    requires
        forall|i: int| 0 <= i < s.len() ==> s[i].0 != id,
    ensures
        handlers_of(s, id) == Seq::<H>::empty(),
    decreases s.len(),
{
    if s.len() > 0 {
        assert(s.last().0 != id);
        lemma_handlers_absent(s.drop_last(), id);
    }
}

impl<H> MessageBus<H> {
    pub open spec fn view_subs(&self) -> Seq<(Seq<char>, Seq<H>)> {
        sub_views(self.subscriptions@)
    }

    pub open spec fn wf(&self) -> bool {
        distinct_ids(self.view_subs())
    }

    /// A bus with no subscriptions.
    pub fn new() -> (r: Self)
        ensures
            r.wf(),
            r.view_subs().len() == 0,
    {
        let r = MessageBus { subscriptions: Vec::new() };
        assert(r.view_subs() =~= Seq::<(Seq<char>, Seq<H>)>::empty());
        r
    }

    /// Index of the subscription of `id`, if there is one.
    fn find(&self, id: &str) -> (r: Option<usize>)
        requires
            self.wf(),
        ensures
            match r {
                Some(k) => k < self.view_subs().len() && self.view_subs()[k as int].0 == id@,
                None => forall|i: int| 0 <= i < self.view_subs().len() ==> self.view_subs()[i].0 != id@,
            },
    {
        let target = chars_of(id);
        let mut k: usize = 0;
        while k < self.subscriptions.len()
            invariant
                k <= self.subscriptions@.len(),
                target@ == id@,
                forall|i: int| 0 <= i < k ==> self.view_subs()[i].0 != id@,
            decreases self.subscriptions@.len() - k,
        {
            if chars_eq(&chars_of(self.subscriptions[k].0.as_str()), &target) {
                return Some(k);
            }
            k = k + 1;
        }
        None
    }

    /// The handlers of an agent, in the order they subscribed.
    pub fn handlers(&self, agent_id: &str) -> (r: &[H])
        requires
            self.wf(),
        ensures
            r@ == handlers_of(self.view_subs(), agent_id@),
    {
        match self.find(agent_id) {
            Some(k) => {
                proof {
                    lemma_handlers_at(self.view_subs(), k as int);
                }
                self.subscriptions[k].1.as_slice()
            },
            None => {
                proof {
                    lemma_handlers_absent(self.view_subs(), agent_id@);
                }
                &[]
            },
        }
    }

    /// Adds a handler after those the agent already has.
    pub fn subscribe(&mut self, agent_id: &str, handler: H)
        requires
            old(self).wf(),
        ensures
            final(self).wf(),
            handlers_of(final(self).view_subs(), agent_id@) == handlers_of(old(self).view_subs(), agent_id@).push(handler),
            forall|other: Seq<char>| other != agent_id@ ==> handlers_of(final(self).view_subs(), other) == handlers_of(
                old(self).view_subs(),
                other,
            ),
    {
        let ghost s0 = self.view_subs();
        match self.find(agent_id) {
            Some(k) => {
                let mut entry = self.subscriptions.remove(k);
                entry.1.push(handler);
                self.subscriptions.insert(k, entry);
                let ghost s1 = self.view_subs();
                assert(s1 =~= s0.update(k as int, (agent_id@, s0[k as int].1.push(handler))));
                assert(distinct_ids(s1));
                proof {
                    lemma_handlers_at(s0, k as int);
                    lemma_handlers_at(s1, k as int);
                    assert forall|other: Seq<char>| other != agent_id@ implies handlers_of(s1, other) == handlers_of(s0, other) by {
                        lemma_handlers_update(s0, k as int, s0[k as int].1.push(handler), other);
                    }
                }
            },
            None => {
                let mut hs: Vec<H> = Vec::new();
                hs.push(handler);
                self.subscriptions.push((String::from_str(agent_id), hs));
                let ghost s1 = self.view_subs();
                assert(s1 =~= s0.push((agent_id@, seq![handler])));
                assert(s1.drop_last() =~= s0);
                proof {
                    lemma_handlers_absent(s0, agent_id@);
                }
                assert(handlers_of(s0, agent_id@).push(handler) =~= seq![handler]);
            },
        }
    }

    /// Drops every handler of an agent.
    pub fn unsubscribe(&mut self, agent_id: &str)
        requires
            old(self).wf(),
        ensures
            final(self).wf(),
            handlers_of(final(self).view_subs(), agent_id@).len() == 0,
            forall|other: Seq<char>| other != agent_id@ ==> handlers_of(final(self).view_subs(), other) == handlers_of(
                old(self).view_subs(),
                other,
            ),
    {
        let ghost s0 = self.view_subs();
        match self.find(agent_id) {
            Some(k) => {
                self.subscriptions.remove(k);
                let ghost s1 = self.view_subs();
                assert(s1 =~= s0.remove(k as int));
                proof {
                    assert forall|i: int| 0 <= i < s1.len() implies s1[i].0 != agent_id@ by {
                        if i < k {
                            assert(s1[i] == s0[i]);
                        } else {
                            assert(s1[i] == s0[i + 1]);
                        }
                    }
                    lemma_handlers_absent(s1, agent_id@);
                    assert forall|other: Seq<char>| other != agent_id@ implies handlers_of(s1, other) == handlers_of(s0, other) by {
                        lemma_handlers_remove(s0, k as int, other);
                    }
                }
            },
            None => {
                proof {
                    lemma_handlers_absent(s0, agent_id@);
                }
            },
        }
    }
}

pub(crate) proof fn lemma_handlers_update<H>(s: Seq<(Seq<char>, Seq<H>)>, k: int, hs: Seq<H>, other: Seq<char>)
    requires
        distinct_ids(s),
        0 <= k < s.len(),
        other != s[k].0,
    ensures
        handlers_of(s.update(k, (s[k].0, hs)), other) == handlers_of(s, other),
    decreases s.len(),
{
    let t = s.update(k, (s[k].0, hs));
    if k == s.len() - 1 {
        assert(t.drop_last() =~= s.drop_last());
    } else {
        assert(t.drop_last() =~= s.drop_last().update(k, (s[k].0, hs)));
        lemma_handlers_update(s.drop_last(), k, hs, other);
    }
}

proof fn lemma_handlers_remove<H>(s: Seq<(Seq<char>, Seq<H>)>, k: int, other: Seq<char>)
    requires
        distinct_ids(s),
        0 <= k < s.len(),
        other != s[k].0,
    ensures
        handlers_of(s.remove(k), other) == handlers_of(s, other),
    decreases s.len(),
{
    let t = s.remove(k);
    if k == s.len() - 1 {
        assert(t =~= s.drop_last());
    } else {
        assert(t.last() == s.last());
        assert(t.drop_last() =~= s.drop_last().remove(k));
        lemma_handlers_remove(s.drop_last(), k, other);
    }
}

impl<H: MessageHandler> MessageBus<H> {
    /// Hands the message to each handler of its addressee, in order; the
    /// first refusal is returned and the later handlers do not see the
    /// message.
    pub fn send(&self, message: AgentMessage) -> (r: Result<(), String>)
        requires
            self.wf(),
        ensures
            result_text(r) == delivery_result(
                deliveries_to(handlers_of(self.view_subs(), message.to@), message_view(message)),
            ),
    {
        let hs = self.handlers(message.to.as_str());
        let ghost mv = message_view(message);
        let ghost ds = deliveries_to(hs@, mv);
        let mut i: usize = 0;
        assert(ds.take(0) =~= Seq::<(H, MessageView)>::empty());
        while i < hs.len()
            invariant
                i <= hs@.len(),
                hs@ == handlers_of(self.view_subs(), message.to@),
                mv == message_view(message),
                ds == deliveries_to(hs@, mv),
                first_refusal(ds.take(i as int)) is None,
            decreases hs@.len() - i,
        {
            let copy = AgentMessage {
                from: message.from.clone(),
                to: message.to.clone(),
                subject: message.subject.clone(),
                body: message.body.clone(),
            };
            assert(message_view(copy) == mv);
            assert(ds[i as int] == (hs@[i as int], mv));
            match hs[i].handle(copy) {
                Ok(()) => {
                    proof {
                        lemma_accepted_through(ds, i as int);
                    }
                },
                Err(e) => {
                    proof {
                        lemma_refusal_at(ds, i as int);
                    }
                    return Err(e);
                },
            }
            i = i + 1;
        }
        assert(ds.take(hs@.len() as int) =~= ds);
        Ok(())
    }

    /// Hands a message from `from` to the handlers of every other agent, in
    /// the order of the subscriptions, addressed to that agent; the first
    /// refusal is returned and the delivery stops there.
    pub fn broadcast(&self, from: &str, subject: &str, body: &str) -> (r: Result<(), String>)
        requires
            self.wf(),
        ensures
            result_text(r) == delivery_result(broadcast_deliveries(self.view_subs(), from@, subject@, body@)),
    {
        let ghost subs = self.view_subs();
        let ghost all = broadcast_deliveries(subs, from@, subject@, body@);
        let me = chars_of(from);
        let mut k: usize = 0;
        assert(subs.take(0) =~= Seq::<(Seq<char>, Seq<H>)>::empty());
        while k < self.subscriptions.len()
            invariant
                k <= self.subscriptions@.len(),
                me@ == from@,
                subs == self.view_subs(),
                all == broadcast_deliveries(subs, from@, subject@, body@),
                first_refusal(broadcast_deliveries(subs.take(k as int), from@, subject@, body@)) is None,
            decreases self.subscriptions@.len() - k,
        {
            let ghost done = broadcast_deliveries(subs.take(k as int), from@, subject@, body@);
            let ghost next = broadcast_deliveries(subs.take(k + 1), from@, subject@, body@);
            assert(subs.take(k + 1).drop_last() =~= subs.take(k as int));
            assert(subs.take(k + 1).last() == subs[k as int]);
            proof {
                lemma_broadcast_split(subs, k as int + 1, from@, subject@, body@);
            }
            let (agent_id, hs) = &self.subscriptions[k];
            assert(subs[k as int] == (agent_id@, hs@));
            if !chars_eq(&chars_of(agent_id.as_str()), &me) {
                let ghost mv = MessageView { from: from@, to: agent_id@, subject: subject@, body: body@ };
                let ghost block = deliveries_to(hs@, mv);
                assert(next == done + block);
                let mut i: usize = 0;
                assert(block.take(0) =~= Seq::<(H, MessageView)>::empty());
                while i < hs.len()
                    invariant
                        i <= hs@.len(),
                        k < subs.len(),
                        hs@ == subs[k as int].1,
                        agent_id@ == subs[k as int].0,
                        agent_id@ != from@,
                        mv == (MessageView { from: from@, to: agent_id@, subject: subject@, body: body@ }),
                        block == deliveries_to(hs@, mv),
                        first_refusal(done) is None,
                        next == done + block,
                        all == next + broadcast_deliveries(subs.skip(k + 1), from@, subject@, body@),
                        subs == self.view_subs(),
                        all == broadcast_deliveries(subs, from@, subject@, body@),
                        first_refusal(block.take(i as int)) is None,
                    decreases hs@.len() - i,
                {
                    let m = AgentMessage {
                        from: String::from_str(from),
                        to: agent_id.clone(),
                        subject: String::from_str(subject),
                        body: String::from_str(body),
                    };
                    assert(message_view(m) == mv);
                    assert(block[i as int] == (hs@[i as int], mv));
                    match hs[i].handle(m) {
                        Ok(()) => {
                            proof {
                                lemma_accepted_through(block, i as int);
                            }
                        },
                        Err(e) => {
                            proof {
                                lemma_refusal_at(block, i as int);
                                lemma_first_refusal_concat(done, block);
                                lemma_first_refusal_concat(next, broadcast_deliveries(subs.skip(k + 1), from@, subject@, body@));
                            }
                            return Err(e);
                        },
                    }
                    i = i + 1;
                }
                assert(block.take(hs@.len() as int) =~= block);
                proof {
                    lemma_first_refusal_concat(done, block);
                }
            } else {
                assert(next =~= done);
            }
            k = k + 1;
        }
        assert(subs.take(subs.len() as int) =~= subs);
        Ok(())
    }
}

} // verus!
