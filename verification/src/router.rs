//! The front door of a generation: messages go to the running generation, or
//! wait in order while one generation is replaced by the next.

use std::collections::VecDeque;

use vstd::prelude::*;

verus! {

/// A route to the current generation. `S` is what a message is sent through.
pub struct GenerationRouter<S, T> {
    pub paused: bool,
    pub target: Option<S>,
    pub queued: VecDeque<T>,
}

/// The model of a route.
#[verifier::ext_equal]
pub struct RouterModel<S, T> {
    pub paused: bool,
    pub target: Option<S>,
    pub queued: Seq<T>,
}

impl<S, T> View for GenerationRouter<S, T> {
    type V = RouterModel<S, T>;

    open spec fn view(&self) -> RouterModel<S, T> {
        RouterModel { paused: self.paused, target: self.target, queued: self.queued@ }
    }
}

/// What becomes of a message.
pub enum Routed<T> {
    /// It waits for the next generation.
    Queued,
    /// It goes to the current target.
    Send(T),
    /// There is no target: it is dropped.
    Dropped,
}

/// The route after a message, and what becomes of the message.
pub open spec fn routed<S, T>(r: RouterModel<S, T>, message: T) -> (RouterModel<S, T>, Routed<T>) {
    if r.paused {
        (RouterModel { queued: r.queued.push(message), ..r }, Routed::Queued)
    } else if r.target is Some {
        (r, Routed::Send(message))
    } else {
        (r, Routed::Dropped)
    }
}

/// The route after a run of messages.
pub open spec fn routed_all<S, T>(r: RouterModel<S, T>, messages: Seq<T>) -> RouterModel<S, T>
    decreases messages.len(),
{
    if messages.len() == 0 {
        r
    } else {
        routed(routed_all(r, messages.drop_last()), messages.last()).0
    }
}

/// The route after its oldest waiting message has been taken, and that message.
pub open spec fn released<S, T>(r: RouterModel<S, T>) -> (RouterModel<S, T>, Option<T>) {
    if r.queued.len() == 0 {
        (r, None)
    } else {
        (RouterModel { queued: r.queued.drop_first(), ..r }, Some(r.queued[0]))
    }
}

/// What `n` releases hand out, and the route after them.
pub open spec fn released_all<S, T>(r: RouterModel<S, T>, n: nat) -> (RouterModel<S, T>, Seq<T>)
    decreases n,
{
    if n == 0 {
        (r, Seq::empty())
    } else {
        let (before, out) = released_all(r, (n - 1) as nat);
        match released(before) {
            (after, Some(m)) => (after, out.push(m)),
            (after, None) => (after, out),
        }
    }
}

impl<S, T> GenerationRouter<S, T> {
    /// A route to a first generation.
    pub fn new(target: S) -> (res: Self)
        ensures
            res@ == (RouterModel::<S, T> {
                paused: false,
                target: Some(target),
                queued: Seq::empty(),
            }),
    {
        GenerationRouter { paused: false, target: Some(target), queued: VecDeque::new() }
    }

    /// What messages are sent through now.
    pub fn current(&self) -> (res: Option<&S>)
        ensures
            match self@.target {
                Some(t) => res == Some(&t),
                None => res is None,
            },
    {
        match &self.target {
            Some(t) => Some(t),
            None => None,
        }
    }

    /// Let messages wait; the old generation gets none of them.
    pub fn pause(&mut self)
        ensures
            final(self)@ == (RouterModel { paused: true, target: None, ..old(self)@ }),
    {
        self.paused = true;
        self.target = None;
    }

    /// Point the route at the next generation. What waits is released next.
    pub fn install(&mut self, target: S)
        ensures
            final(self)@ == (RouterModel { target: Some(target), ..old(self)@ }),
    {
        self.target = Some(target);
    }

    /// The oldest message that waits, which waits no longer.
    pub fn release_next(&mut self) -> (res: Option<T>)
        ensures
            (final(self)@, res) == released(old(self)@),
    {
        let out = self.queued.pop_front();
        proof {
            if old(self)@.queued.len() > 0 {
                assert(self.queued@ =~= old(self)@.queued.drop_first());
            }
        }
        out
    }

    /// Let messages through again, once what waited has been released.
    pub fn resume(&mut self)
        ensures
            final(self)@ == (RouterModel { paused: false, ..old(self)@ }),
    {
        self.paused = false;
    }

    /// Route a message.
    pub fn route(&mut self, message: T) -> (res: Routed<T>)
        ensures
            (final(self)@, res) == routed(old(self)@, message),
    {
        if self.paused {
            self.queued.push_back(message);
            return Routed::Queued;
        }
        match &self.target {
            Some(_) => Routed::Send(message),
            None => Routed::Dropped,
        }
    }
}

/// While a route is paused every message waits, behind those that came before,
/// and nothing is sent.
pub proof fn law_paused_route_keeps_every_message<S, T>(r: RouterModel<S, T>, messages: Seq<T>)
    requires
        r.paused,
    ensures
        routed_all(r, messages) == (RouterModel { queued: r.queued + messages, ..r }),
    decreases messages.len(),
{
    if messages.len() == 0 {
        assert(r.queued + messages =~= r.queued);
    } else {
        law_paused_route_keeps_every_message(r, messages.drop_last());
        assert((r.queued + messages.drop_last()).push(messages.last()) =~= r.queued + messages);
    }
}

/// What waited is released once each, in the order in which it came, and
/// nothing waits afterwards.
pub proof fn law_release_is_in_order<S, T>(r: RouterModel<S, T>, n: nat)
    requires
        n <= r.queued.len(),
    ensures
        released_all(r, n).1 == r.queued.take(n as int),
        released_all(r, n).0 == (RouterModel { queued: r.queued.skip(n as int), ..r }),
    decreases n,
{
    if n == 0 {
        assert(r.queued.take(0) =~= Seq::<T>::empty());
        assert(r.queued.skip(0) =~= r.queued);
    } else {
        let m = (n - 1) as nat;
        law_release_is_in_order(r, m);
        let rest = r.queued.skip(m as int);
        assert(rest[0] == r.queued[m as int]);
        assert(rest.drop_first() =~= r.queued.skip(n as int));
        assert(r.queued.take(m as int).push(r.queued[m as int]) =~= r.queued.take(n as int));
    }
}

/// The messages of a pause reach the next generation exactly as they came: what
/// was routed while the route was paused is what the releases hand out, and a
/// message that comes after them is sent at once.
pub proof fn law_replacement_loses_no_message<S, T>(
    next: S,
    messages: Seq<T>,
    later: T,
)
    ensures
        ({
            let fresh = RouterModel::<S, T> {
                paused: true,
                target: None,
                queued: Seq::empty(),
            };
            let waited = routed_all(fresh, messages);
            let pointed = RouterModel { target: Some(next), ..waited };
            let (drained, out) = released_all(pointed, messages.len());
            let open = RouterModel { paused: false, ..drained };
            out == messages && open.queued == Seq::<T>::empty() && routed(open, later) == (
                open,
                Routed::Send(later),
            )
        }),
{
    let fresh = RouterModel::<S, T> { paused: true, target: None, queued: Seq::empty() };
    law_paused_route_keeps_every_message(fresh, messages);
    let pointed = RouterModel { target: Some(next), ..routed_all(fresh, messages) };
    assert(pointed.queued =~= messages);
    law_release_is_in_order(pointed, messages.len());
    assert(messages.take(messages.len() as int) =~= messages);
    assert(messages.skip(messages.len() as int) =~= Seq::<T>::empty());
}

/// A message is never lost where there is somewhere to send it or to keep it: it
/// is sent over an open route, queued behind all others on a paused one, and
/// dropped only where an open route has no target.
pub proof fn law_message_goes_on_or_waits<S, T>(r: RouterModel<S, T>, message: T)
    ensures
        !r.paused && r.target is Some ==> routed(r, message) == (r, Routed::Send(message)),
        !r.paused && r.target is None ==> routed(r, message) == (r, Routed::<T>::Dropped),
        r.paused ==> routed(r, message).1 == Routed::<T>::Queued && routed(r, message).0.queued
            == r.queued.push(message) && routed(r, message).0.paused && routed(r, message).0.target
            == r.target,
        r.queued.len() == 0 ==> released(r) == (r, None::<T>),
{
}

} // verus!
