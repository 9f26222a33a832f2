use vstd::prelude::*;

verus! {

/// A class of change that a subscriber registers for.
#[derive(Clone, Copy, Debug, PartialEq, Eq, Structural)]
pub enum Subscription {
    /// Something in the given thread changed.
    ThreadChange(u64),
}

/// The registrations left once `handle` is taken out, in their order.
pub open spec fn without_handle(entries: Seq<(u64, Subscription)>, handle: u64) -> Seq<
    (u64, Subscription),
>
    decreases entries.len(),
{
    if entries.len() == 0 {
        Seq::empty()
    } else {
        let prev = without_handle(entries.drop_last(), handle);
        if entries.last().0 == handle {
            prev
        } else {
            prev.push(entries.last())
        }
    }
}

/// The handles registered under `topic`, in the order they registered.
pub open spec fn handles_for(entries: Seq<(u64, Subscription)>, topic: Subscription) -> Seq<u64>
    decreases entries.len(),
{
    if entries.len() == 0 {
        Seq::empty()
    } else {
        let prev = handles_for(entries.drop_last(), topic);
        if entries.last().1 == topic {
            prev.push(entries.last().0)
        } else {
            prev
        }
    }
}

/// Subscribers by topic: each handle stands under at most one topic, and
/// the registrations keep the order in which they were made.
pub struct Registry {
    entries: Vec<(u64, Subscription)>,
}

impl View for Registry {
    type V = Seq<(u64, Subscription)>;

    closed spec fn view(&self) -> Seq<(u64, Subscription)> {
        self.entries@
    }
}

impl Registry {
    /// A registry with nobody in it.
    pub fn new() -> (r: Registry)
        ensures
            r@ == Seq::<(u64, Subscription)>::empty(),
    {
        Registry { entries: Vec::new() }
    }

    /// Takes `handle` out of whatever topic it stands under; nothing happens
    /// where it stands under none.
    pub fn unsubscribe(&mut self, handle: u64)
        ensures
            final(self)@ == without_handle(old(self)@, handle),
    {
        let mut kept: Vec<(u64, Subscription)> = Vec::new();
        let mut i: usize = 0;
        assert(self.entries@.subrange(0, 0) =~= Seq::<(u64, Subscription)>::empty());
        while i < self.entries.len()
            invariant
                i <= self.entries@.len(),
                self.entries@ == old(self)@,
                kept@ == without_handle(self.entries@.subrange(0, i as int), handle),
            decreases self.entries@.len() - i,
        {
            let e = self.entries[i];
            assert(self.entries@.subrange(0, i + 1).drop_last() =~= self.entries@.subrange(
                0,
                i as int,
            ));
            if e.0 != handle {
                kept.push(e);
            }
            i = i + 1;
        }
        assert(self.entries@.subrange(0, self.entries@.len() as int) =~= self.entries@);
        self.entries = kept;
    }

    /// Registers `handle` under `topic`, after taking it out of the topic it
    /// stood under before.
    pub fn subscribe(&mut self, topic: Subscription, handle: u64)
        ensures
            final(self)@ == without_handle(old(self)@, handle).push((handle, topic)),
    {
        self.unsubscribe(handle);
        self.entries.push((handle, topic));
    }

    /// The handles to call for `topic`, in the order they registered.
    pub fn notify(&self, topic: Subscription) -> (r: Vec<u64>)
        ensures
            r@ == handles_for(self@, topic),
    {
        let mut out: Vec<u64> = Vec::new();
        let mut i: usize = 0;
        assert(self.entries@.subrange(0, 0) =~= Seq::<(u64, Subscription)>::empty());
        while i < self.entries.len()
            invariant
                i <= self.entries@.len(),
                out@ == handles_for(self.entries@.subrange(0, i as int), topic),
            decreases self.entries@.len() - i,
        {
            let e = self.entries[i];
            assert(self.entries@.subrange(0, i + 1).drop_last() =~= self.entries@.subrange(
                0,
                i as int,
            ));
            if e.1 == topic {
                out.push(e.0);
            }
            i = i + 1;
        }
        assert(self.entries@.subrange(0, self.entries@.len() as int) =~= self.entries@);
        out
    }
}

/// Once a handle is unsubscribed, no topic's notification reaches it.
pub proof fn lemma_unsubscribed_not_notified(
    entries: Seq<(u64, Subscription)>,
    handle: u64,
    topic: Subscription,
)
    ensures
        !handles_for(without_handle(entries, handle), topic).contains(handle),
    decreases entries.len(),
{
    if entries.len() > 0 {
        let rest = without_handle(entries.drop_last(), handle);
        lemma_unsubscribed_not_notified(entries.drop_last(), handle, topic);
        if entries.last().0 != handle {
            assert(rest.push(entries.last()).drop_last() =~= rest);
            let r = handles_for(rest, topic);
            if entries.last().1 == topic {
                assert(!r.push(entries.last().0).contains(handle)) by {
                    if r.push(entries.last().0).contains(handle) {
                        let i = choose|i: int|
                            0 <= i < r.push(entries.last().0).len() && r.push(entries.last().0)[i]
                                == handle;
                        assert(i < r.len());
                    }
                }
            }
        }
    }
}

} // verus!
