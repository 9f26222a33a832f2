use vstd::prelude::*;

verus! {

/// The page count of a thread that the index has never seen: a thread always
/// has its first page.
pub open spec fn count_or_default(counts: Map<u64, u32>, thread: u64) -> u32 {
    if counts.contains_key(thread) {
        counts[thread]
    } else {
        1
    }
}

/// The post ids stored on a page, or none where the page is absent.
pub open spec fn stored_or_empty(pages: Map<(u64, u32), Seq<u64>>, thread: u64, page: u32) -> Seq<
    u64,
> {
    if pages.contains_key((thread, page)) {
        pages[(thread, page)]
    } else {
        Seq::empty()
    }
}

/// A page as readers see it: the thread's root post is shown apart.
pub open spec fn without_root(posts: Seq<u64>, thread: u64) -> Seq<u64> {
    posts.filter(is_reply(thread))
}

/// Holds of every post of a thread but its root post.
pub open spec fn is_reply(thread: u64) -> spec_fn(u64) -> bool {
    |id: u64| id != thread
}

/// The page count after a bump to `count`.
pub open spec fn bumped(counts: Map<u64, u32>, thread: u64, count: u32) -> Map<u64, u32> {
    let cur = count_or_default(counts, thread);
    counts.insert(thread, if count > cur { count } else { cur })
}

/// The pages after `post` is added to a page, where it is not there yet.
pub open spec fn inserted(
    pages: Map<(u64, u32), Seq<u64>>,
    thread: u64,
    page: u32,
    post: u64,
) -> Map<(u64, u32), Seq<u64>> {
    let cur = stored_or_empty(pages, thread, page);
    if cur.contains(post) {
        pages
    } else {
        pages.insert((thread, page), cur.push(post))
    }
}

/// Posts stored by thread and page, and the page count of each thread.
pub struct PostIndex {
    count_entries: Vec<(u64, u32)>,
    page_keys: Vec<(u64, u32)>,
    page_posts: Vec<Vec<u64>>,
    counts: Ghost<Map<u64, u32>>,
    pages: Ghost<Map<(u64, u32), Seq<u64>>>,
}

impl PostIndex {
    /// The stored page count of each thread that has one.
    pub closed spec fn counts(&self) -> Map<u64, u32> {
        self.counts@
    }

    /// The posts of each stored page, in order of insertion.
    pub closed spec fn pages(&self) -> Map<(u64, u32), Seq<u64>> {
        self.pages@
    }

    /// Each table has unique keys and agrees with the maps it stands for;
    /// no page holds a post twice.
    pub closed spec fn wf(&self) -> bool {
        &&& forall|i: int|
            0 <= i < self.count_entries@.len() ==> {
                &&& self.counts@.contains_key(#[trigger] self.count_entries@[i].0)
                &&& self.counts@[self.count_entries@[i].0] == self.count_entries@[i].1
            }
        &&& forall|t: u64| #[trigger]
            self.counts@.contains_key(t) ==> exists|i: int|
                0 <= i < self.count_entries@.len() && #[trigger] self.count_entries@[i].0 == t
        &&& forall|i: int, j: int|
            0 <= i < self.count_entries@.len() && 0 <= j < self.count_entries@.len()
                && #[trigger] self.count_entries@[i].0 == #[trigger] self.count_entries@[j].0
                ==> i == j
        &&& forall|t: u64| #[trigger] self.counts@.contains_key(t) ==> self.counts@[t] >= 1
        &&& self.page_keys@.len() == self.page_posts@.len()
        &&& forall|i: int|
            0 <= i < self.page_keys@.len() ==> {
                &&& self.pages@.contains_key(#[trigger] self.page_keys@[i])
                &&& self.pages@[self.page_keys@[i]] == self.page_posts@[i]@
            }
        &&& forall|k: (u64, u32)| #[trigger]
            self.pages@.contains_key(k) ==> exists|i: int|
                0 <= i < self.page_keys@.len() && #[trigger] self.page_keys@[i] == k
        &&& forall|i: int, j: int|
            0 <= i < self.page_keys@.len() && 0 <= j < self.page_keys@.len()
                && #[trigger] self.page_keys@[i] == #[trigger] self.page_keys@[j] ==> i == j
        &&& forall|k: (u64, u32)| #[trigger]
            self.pages@.contains_key(k) ==> self.pages@[k].no_duplicates()
    }

    /// The page count of `thread`, 1 where it is unknown.
    pub open spec fn page_count_spec(&self, thread: u64) -> u32 {
        count_or_default(self.counts(), thread)
    }

    /// What a reader sees of a page: its posts but the root one.
    pub open spec fn page_posts_spec(&self, thread: u64, page: u32) -> Seq<u64> {
        without_root(stored_or_empty(self.pages(), thread, page), thread)
    }

    /// An empty index.
    pub fn new() -> (r: PostIndex)
        ensures
            r.wf(),
            r.counts() == Map::<u64, u32>::empty(),
            r.pages() == Map::<(u64, u32), Seq<u64>>::empty(),
    {
        PostIndex {
            count_entries: Vec::new(),
            page_keys: Vec::new(),
            page_posts: Vec::new(),
            counts: Ghost(Map::empty()),
            pages: Ghost(Map::empty()),
        }
    }

    fn find_count(&self, thread: u64) -> (r: Option<usize>)
        requires
            self.wf(),
        ensures
            match r {
                Some(i) => i < self.count_entries@.len() && self.count_entries@[i as int].0
                    == thread,
                None => !self.counts().contains_key(thread),
            },
    {
        let mut i: usize = 0;
        while i < self.count_entries.len()
            invariant
                self.wf(),
                i <= self.count_entries@.len(),
                forall|j: int| 0 <= j < i ==> self.count_entries@[j].0 != thread,
            decreases self.count_entries@.len() - i,
        {
            if self.count_entries[i].0 == thread {
                return Some(i);
            }
            i = i + 1;
        }
        None
    }

    fn find_page(&self, thread: u64, page: u32) -> (r: Option<usize>)
        requires
            self.wf(),
        ensures
            match r {
                Some(i) => i < self.page_keys@.len() && self.page_keys@[i as int] == (
                thread,
                page,
                ),
                None => !self.pages().contains_key((thread, page)),
            },
    {
        let mut i: usize = 0;
        while i < self.page_keys.len()
            invariant
                self.wf(),
                i <= self.page_keys@.len(),
                forall|j: int| 0 <= j < i ==> self.page_keys@[j] != (thread, page),
            decreases self.page_keys@.len() - i,
        {
            let k = self.page_keys[i];
            if k.0 == thread && k.1 == page {
                return Some(i);
            }
            i = i + 1;
        }
        None
    }

    /// The page count of `thread`; 1 for a thread never seen.
    pub fn get_page_count(&self, thread: u64) -> (r: u32)
        requires
            self.wf(),
        ensures
            r == self.page_count_spec(thread),
            r >= 1,
    {
        match self.find_count(thread) {
            Some(i) => self.count_entries[i].1,
            None => 1,
        }
    }

    /// The posts of a page in order of insertion, without the thread's root
    /// post; empty where the page is absent.
    pub fn get_page_posts(&self, thread: u64, page: u32) -> (r: Vec<u64>)
        requires
            self.wf(),
        ensures
            r@ == self.page_posts_spec(thread, page),
    {
        let mut out: Vec<u64> = Vec::new();
        match self.find_page(thread, page) {
            Some(i) => {
                let posts = &self.page_posts[i];
                let ghost all = posts@;
                let mut j: usize = 0;
                while j < posts.len()
                    invariant
                        posts@ == all,
                        j <= all.len(),
                        out@ == without_root(all.subrange(0, j as int), thread),
                    decreases all.len() - j,
                {
                    proof {
                        assert(all.subrange(0, j + 1) =~= all.subrange(0, j as int).push(all[j as int]));
                        all.subrange(0, j as int).lemma_filter_push(all[j as int], is_reply(thread));
                    }
                    if posts[j] != thread {
                        out.push(posts[j]);
                    }
                    j = j + 1;
                }
                assert(all.subrange(0, all.len() as int) =~= all);
            },
            None => {
                assert(Seq::<u64>::empty().filter(is_reply(thread)) =~= Seq::empty());
            },
        }
        out
    }
    /// Raises the page count of `thread` to `count`, where that is more than
    /// what it was; a page count never goes down.
    pub fn bump_page_count(&mut self, thread: u64, count: u32)
        requires
            old(self).wf(),
        ensures
            final(self).wf(),
            final(self).counts() == bumped(old(self).counts(), thread, count),
            final(self).pages() == old(self).pages(),
    {
        let cur = self.get_page_count(thread);
        let next = if count > cur { count } else { cur };
        match self.find_count(thread) {
            Some(i) => {
                self.count_entries.set(i, (thread, next));
            },
            None => {
                self.count_entries.push((thread, next));
            },
        }
        self.counts = Ghost(self.counts@.insert(thread, next));
        proof {
            assert forall|t: u64| #[trigger]
                self.counts@.contains_key(t) implies exists|i: int|
                    0 <= i < self.count_entries@.len() && #[trigger] self.count_entries@[i].0
                        == t by {
                if t != thread {
                    let i = choose|i: int|
                        0 <= i < old(self).count_entries@.len()
                            && #[trigger] old(self).count_entries@[i].0 == t;
                    assert(self.count_entries@[i].0 == t);
                } else {
                    let k = self.count_entries@.len() - 1;
                    if exists|i: int| 0 <= i < old(self).count_entries@.len()
                        && #[trigger] old(self).count_entries@[i].0 == thread {
                        let i = choose|i: int|
                            0 <= i < old(self).count_entries@.len()
                                && #[trigger] old(self).count_entries@[i].0 == thread;
                        assert(self.count_entries@[i].0 == t);
                    } else {
                        assert(self.count_entries@[k].0 == t);
                    }
                }
            }
        }
    }

    /// Adds `post` to a page; a post already on the page is left where it
    /// is, and an absent page is created.
    pub fn insert_post(&mut self, thread: u64, page: u32, post: u64)
        requires
            old(self).wf(),
        ensures
            final(self).wf(),
            final(self).pages() == inserted(old(self).pages(), thread, page, post),
            final(self).counts() == old(self).counts(),
    {
        match self.find_page(thread, page) {
            Some(i) => {
                let mut present = false;
                let mut j: usize = 0;
                while j < self.page_posts[i].len()
                    invariant
                        self.wf(),
                        i < self.page_posts@.len(),
                        j <= self.page_posts@[i as int]@.len(),
                        present <==> exists|k: int| 0 <= k < j && self.page_posts@[i as int]@[k] == post,
                    decreases self.page_posts@[i as int]@.len() - j,
                {
                    if self.page_posts[i][j] == post {
                        present = true;
                    }
                    j = j + 1;
                }
                if !present {
                    let ghost key = self.page_keys@[i as int];
                    self.page_posts[i].push(post);
                    self.pages = Ghost(self.pages@.insert(key, self.page_posts@[i as int]@));
                    proof {
                        assert forall|k: (u64, u32)| #[trigger]
                            self.pages@.contains_key(k) implies exists|m: int|
                                0 <= m < self.page_keys@.len() && #[trigger] self.page_keys@[m] == k by {
                            if k != key {
                                let m = choose|m: int|
                                    0 <= m < old(self).page_keys@.len()
                                        && #[trigger] old(self).page_keys@[m] == k;
                                assert(self.page_keys@[m] == k);
                            } else {
                                assert(self.page_keys@[i as int] == k);
                            }
                        }
                        assert(self.pages@[key].no_duplicates());
                    }
                }
            },
            None => {
                let mut v: Vec<u64> = Vec::new();
                v.push(post);
                self.page_keys.push((thread, page));
                self.page_posts.push(v);
                self.pages = Ghost(self.pages@.insert((thread, page), seq![post]));
                proof {
                    assert(Seq::<u64>::empty().push(post) =~= seq![post]);
                    assert forall|k: (u64, u32)| #[trigger]
                        self.pages@.contains_key(k) implies exists|m: int|
                            0 <= m < self.page_keys@.len() && #[trigger] self.page_keys@[m] == k by {
                        if k != (thread, page) {
                            let m = choose|m: int|
                                0 <= m < old(self).page_keys@.len()
                                    && #[trigger] old(self).page_keys@[m] == k;
                            assert(self.page_keys@[m] == k);
                        } else {
                            assert(self.page_keys@[self.page_keys@.len() - 1] == k);
                        }
                    }
                }
            },
        }
        proof {
            assert forall|t: u64| #[trigger]
                self.counts@.contains_key(t) implies exists|m: int|
                    0 <= m < self.count_entries@.len() && #[trigger] self.count_entries@[m].0
                        == t by {
                let m = choose|m: int|
                    0 <= m < old(self).count_entries@.len()
                        && #[trigger] old(self).count_entries@[m].0 == t;
                assert(self.count_entries@[m].0 == t);
            }
        }
    }
}

/// The page counts after a series of bumps, each a thread and a count, in
/// the order given.
pub open spec fn bumped_all(counts: Map<u64, u32>, calls: Seq<(u64, u32)>) -> Map<u64, u32>
    decreases calls.len(),
{
    if calls.len() == 0 {
        counts
    } else {
        let prev = bumped_all(counts, calls.drop_last());
        bumped(prev, calls.last().0, calls.last().1)
    }
}

/// The largest count that a series of bumps gives `thread`, 0 where none
/// names it.
pub open spec fn max_supplied(calls: Seq<(u64, u32)>, thread: u64) -> u32
    decreases calls.len(),
{
    if calls.len() == 0 {
        0
    } else {
        let prev = max_supplied(calls.drop_last(), thread);
        if calls.last().0 == thread && calls.last().1 > prev {
            calls.last().1
        } else {
            prev
        }
    }
}

/// Adding a post to a page a second time leaves the page as the first time
/// left it, and so what readers see of it too.
pub proof fn lemma_insert_idempotent(
    pages: Map<(u64, u32), Seq<u64>>,
    thread: u64,
    page: u32,
    post: u64,
)
    ensures
        inserted(inserted(pages, thread, page, post), thread, page, post) == inserted(
            pages,
            thread,
            page,
            post,
        ),
{
    let once = inserted(pages, thread, page, post);
    let cur = stored_or_empty(pages, thread, page);
    if !cur.contains(post) {
        assert(cur.push(post)[cur.len() as int] == post);
        assert(stored_or_empty(once, thread, page).contains(post));
    }
}

/// After any series of bumps the page count of a thread is the largest of
/// the counts supplied for it and the count it had before (1 for a thread
/// the index had not seen).
pub proof fn lemma_bumps_keep_maximum(counts: Map<u64, u32>, calls: Seq<(u64, u32)>, thread: u64)
    ensures
        count_or_default(bumped_all(counts, calls), thread) == if max_supplied(calls, thread)
            > count_or_default(counts, thread) {
            max_supplied(calls, thread)
        } else {
            count_or_default(counts, thread)
        },
    decreases calls.len(),
{
    if calls.len() > 0 {
        lemma_bumps_keep_maximum(counts, calls.drop_last(), thread);
    }
}

/// The root post of a thread never shows among the posts of its pages,
/// even where it was stored on one.
pub proof fn lemma_root_never_shown(pages: Map<(u64, u32), Seq<u64>>, thread: u64, page: u32)
    ensures
        !without_root(stored_or_empty(pages, thread, page), thread).contains(thread),
{
    let s = stored_or_empty(pages, thread, page);
    if without_root(s, thread).contains(thread) {
        let i = choose|i: int|
            0 <= i < without_root(s, thread).len() && without_root(s, thread)[i] == thread;
        s.lemma_filter_pred(is_reply(thread), i);
    }
}

} // verus!
