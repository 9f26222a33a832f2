use vstd::prelude::*;
use crate::agent::Agent;
use crate::registry::{without_handle, Subscription};
use crate::select::{select_posts, selection, PageSet};

verus! {

/// What a thread view is told.
#[derive(Clone, Copy, Debug, PartialEq, Eq, Structural)]
pub enum Message {
    /// The thread changed: show it again.
    ThreadChange,
    /// Nothing to do.
    NOP,
}

/// What a thread view is made from.
#[derive(Clone, Copy)]
pub struct Props {
    pub id: u64,
    pub pages: PageSet,
}

/// A view of one thread: its root post and the posts its page set selects.
/// While it lives, its handle stands under the change of its thread.
#[derive(Clone, Copy)]
pub struct Thread {
    pub id: u64,
    pub pages: PageSet,
    pub handle: u64,
}

impl Thread {
    /// The message a view gets for a change of `topic`.
    pub fn message_for(topic: Subscription) -> (r: Message)
        ensures
            r == match topic {
                Subscription::ThreadChange(_) => Message::ThreadChange,
            },
    {
        match topic {
            Subscription::ThreadChange(_) => Message::ThreadChange,
        }
    }

    /// Makes a view of `props.id` and subscribes `handle` to its changes.
    pub fn create(props: Props, handle: u64, state: &mut Agent) -> (r: Thread)
        ensures
            r.id == props.id,
            r.pages == props.pages,
            r.handle == handle,
            final(state).index_spec() == old(state).index_spec(),
            final(state).subscriptions() == without_handle(old(state).subscriptions(), handle).push(
                (handle, Subscription::ThreadChange(props.id)),
            ),
    {
        state.subscribe(Subscription::ThreadChange(props.id), handle);
        Thread { id: props.id, pages: props.pages, handle }
    }

    /// Whether the view is to be shown again after `msg`.
    pub fn update(&mut self, msg: Message) -> (r: bool)
        ensures
            *final(self) == *old(self),
            r == (msg == Message::ThreadChange),
    {
        match msg {
            Message::ThreadChange => true,
            Message::NOP => false,
        }
    }

    /// The post ids shown below the root post, in ascending order.
    pub fn posts(&self, state: &Agent) -> (r: Vec<u64>)
        requires
            state.wf(),
        ensures
            r@ == selection(self.pages, state.index_spec(), self.id),
    {
        select_posts(&self.pages, state.index(), self.id)
    }

    /// Ends the view: its handle leaves the registry.
    pub fn destroy(self, state: &mut Agent)
        ensures
            final(state).index_spec() == old(state).index_spec(),
            final(state).subscriptions() == without_handle(old(state).subscriptions(), self.handle),
    {
        state.unsubscribe(self.handle);
    }
}

} // verus!
