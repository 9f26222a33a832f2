use vstd::prelude::*;
use crate::post_index::{bumped, inserted, PostIndex};
use crate::registry::{handles_for, without_handle, Registry, Subscription};

verus! {

/// A change to the shared state, as the connection layer reports it.
#[derive(Clone, Copy, Debug, PartialEq, Eq, Structural)]
pub enum Update {
    /// A post was added to a page of a thread.
    NewPost { thread_id: u64, page: u32, post_id: u64 },
    /// A thread's page count changed.
    PageCountChanged { thread_id: u64, count: u32 },
}

/// The thread an update is about.
pub open spec fn update_thread(u: Update) -> u64 {
    match u {
        Update::NewPost { thread_id, .. } => thread_id,
        Update::PageCountChanged { thread_id, .. } => thread_id,
    }
}

/// The shared client state: posts and page counts, and who listens for
/// changes to them. Every change goes through `apply_update`.
pub struct Agent {
    index: PostIndex,
    registry: Registry,
}

impl Agent {
    /// The posts and page counts held.
    pub closed spec fn index_spec(&self) -> PostIndex {
        self.index
    }

    /// The registrations, in the order they were made.
    pub closed spec fn subscriptions(&self) -> Seq<(u64, Subscription)> {
        self.registry@
    }

    pub open spec fn wf(&self) -> bool {
        self.index_spec().wf()
    }

    /// A state with no posts and no subscribers.
    pub fn new() -> (r: Agent)
        ensures
            r.wf(),
            r.index_spec().counts() == Map::<u64, u32>::empty(),
            r.index_spec().pages() == Map::<(u64, u32), Seq<u64>>::empty(),
            r.subscriptions() == Seq::<(u64, Subscription)>::empty(),
    {
        Agent { index: PostIndex::new(), registry: Registry::new() }
    }

    /// Applies `update` to the posts and page counts, then returns the
    /// handles subscribed to the change of its thread, in the order they
    /// subscribed: the caller delivers to each of them.
    pub fn apply_update(&mut self, update: Update) -> (r: Vec<u64>)
        requires
            old(self).wf(),
        ensures
            final(self).wf(),
            final(self).subscriptions() == old(self).subscriptions(),
            match update {
                Update::NewPost { thread_id, page, post_id } => {
                    &&& final(self).index_spec().pages() == inserted(
                        old(self).index_spec().pages(),
                        thread_id,
                        page,
                        post_id,
                    )
                    &&& final(self).index_spec().counts() == old(self).index_spec().counts()
                },
                Update::PageCountChanged { thread_id, count } => {
                    &&& final(self).index_spec().counts() == bumped(
                        old(self).index_spec().counts(),
                        thread_id,
                        count,
                    )
                    &&& final(self).index_spec().pages() == old(self).index_spec().pages()
                },
            },
            r@ == handles_for(
                old(self).subscriptions(),
                Subscription::ThreadChange(update_thread(update)),
            ),
    {
        let thread = match update {
            Update::NewPost { thread_id, page, post_id } => {
                self.index.insert_post(thread_id, page, post_id);
                thread_id
            },
            Update::PageCountChanged { thread_id, count } => {
                self.index.bump_page_count(thread_id, count);
                thread_id
            },
        };
        self.registry.notify(Subscription::ThreadChange(thread))
    }

    /// Registers `handle` under `topic`, in place of any topic it had.
    pub fn subscribe(&mut self, topic: Subscription, handle: u64)
        ensures
            final(self).index_spec() == old(self).index_spec(),
            final(self).subscriptions() == without_handle(old(self).subscriptions(), handle).push(
                (handle, topic),
            ),
    {
        self.registry.subscribe(topic, handle);
    }

    /// Takes `handle` out of the topic it stands under, if any.
    pub fn unsubscribe(&mut self, handle: u64)
        ensures
            final(self).index_spec() == old(self).index_spec(),
            final(self).subscriptions() == without_handle(old(self).subscriptions(), handle),
    {
        self.registry.unsubscribe(handle);
    }

    /// The handles to call for `topic`, in the order they subscribed.
    pub fn notify(&self, topic: Subscription) -> (r: Vec<u64>)
        ensures
            r@ == handles_for(self.subscriptions(), topic),
    {
        self.registry.notify(topic)
    }

    /// The page count of `thread`; 1 for a thread never seen.
    pub fn get_page_count(&self, thread: u64) -> (r: u32)
        requires
            self.wf(),
        ensures
            r == self.index_spec().page_count_spec(thread),
            r >= 1,
    {
        self.index.get_page_count(thread)
    }

    /// The posts of a page in order of insertion, the root post aside.
    pub fn get_page_posts(&self, thread: u64, page: u32) -> (r: Vec<u64>)
        requires
            self.wf(),
        ensures
            r@ == self.index_spec().page_posts_spec(thread, page),
    {
        self.index.get_page_posts(thread, page)
    }

    /// Read access to the posts and page counts.
    pub fn index(&self) -> (r: &PostIndex)
        ensures
            *r == self.index_spec(),
    {
        &self.index
    }
}

} // verus!
