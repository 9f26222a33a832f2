use vstd::prelude::*;
use vstd::relations::{sorted_by, total_ordering};
use crate::post_index::PostIndex;

verus! {

/// How many of a thread's latest posts `PageSet::Last5Posts` shows.
pub const LATEST_SHOWN: usize = 5;

/// The pages that a thread view shows, beside the root post.
#[derive(Clone, Copy)]
pub enum PageSet {
    /// The latest five posts, read from the last one or two pages.
    Last5Posts,
    /// Up to three chosen pages; `None` marks an unused slot.
    Pages([Option<u32>; 3]),
}

impl Default for PageSet {
    fn default() -> (r: PageSet)
        ensures
            r == PageSet::Last5Posts,
    {
        PageSet::Last5Posts
    }
}

/// Ascending order of post ids.
pub open spec fn ascending() -> spec_fn(u64, u64) -> bool {
    |a: u64, b: u64| a <= b
}

/// The post ids of `s` in ascending order.
pub open spec fn sorted_ids(s: Seq<u64>) -> Seq<u64> {
    s.sort_by(ascending())
}

/// The last `n` entries of `s`, or all of it where it is shorter.
pub open spec fn last_n(s: Seq<u64>, n: nat) -> Seq<u64> {
    if s.len() > n {
        s.subrange(s.len() - n, s.len() as int)
    } else {
        s
    }
}

/// What a page adds to a selection: its visible posts, or nothing where the
/// page number is not below the thread's page count.
pub open spec fn page_part(index: PostIndex, thread: u64, page: u32) -> Seq<u64> {
    if page < index.page_count_spec(thread) {
        index.page_posts_spec(thread, page)
    } else {
        Seq::empty()
    }
}

/// The posts read for the latest-posts policy: the last page, and the one
/// before it where the last holds fewer than five and there is one before.
pub open spec fn latest_source(index: PostIndex, thread: u64) -> Seq<u64> {
    let count = index.page_count_spec(thread);
    let last = page_part(index, thread, (count - 1) as u32);
    if last.len() < LATEST_SHOWN && count > 1 {
        last + page_part(index, thread, (count - 2) as u32)
    } else {
        last
    }
}

/// The posts read for a list of chosen pages, in the order listed.
pub open spec fn listed_source(index: PostIndex, thread: u64, pages: Seq<Option<u32>>) -> Seq<
    u64,
>
    decreases pages.len(),
{
    if pages.len() == 0 {
        Seq::empty()
    } else {
        let prev = listed_source(index, thread, pages.drop_last());
        match pages.last() {
            Some(p) => prev + page_part(index, thread, p),
            None => prev,
        }
    }
}

/// The post ids a thread view shows under `policy`, the root post aside.
pub open spec fn selection(policy: PageSet, index: PostIndex, thread: u64) -> Seq<u64> {
    match policy {
        PageSet::Last5Posts => last_n(sorted_ids(latest_source(index, thread)), LATEST_SHOWN as nat),
        PageSet::Pages(pages) => sorted_ids(listed_source(index, thread, pages@)),
    }
}

proof fn lemma_ascending_total()
    ensures
        total_ordering(ascending()),
{
}

/// Sorts post ids in ascending order.
pub fn sort_ids(v: &mut Vec<u64>)
    ensures
        final(v)@ == sorted_ids(old(v)@),
{
    let mut out: Vec<u64> = Vec::new();
    let mut i: usize = 0;
    assert(out@ =~= v@.subrange(0, 0));
    while i < v.len()
        invariant
            i <= v@.len(),
            v@ == old(v)@,
            sorted_by(out@, ascending()),
            out@.to_multiset() == v@.subrange(0, i as int).to_multiset(),
        decreases v@.len() - i,
    {
        let x = v[i];
        let mut pos: usize = 0;
        while pos < out.len() && out[pos] <= x
            invariant
                pos <= out@.len(),
                forall|k: int| 0 <= k < pos ==> out@[k] <= x,
            decreases out@.len() - pos,
        {
            pos = pos + 1;
        }
        let ghost before = out@;
        out.insert(pos, x);
        proof {
            assert(forall|k: int| pos <= k < before.len() ==> x < before[k]) by {
                assert forall|k: int| pos <= k < before.len() implies x < before[k] by {
                    assert(ascending()(before[pos as int], before[k]) || k == pos);
                }
            }
            assert(sorted_by(out@, ascending())) by {
                assert forall|a: int, b: int| 0 <= a < b < out@.len() implies #[trigger] ascending()(
                    out@[a],
                    out@[b],
                ) by {
                    if b < pos {
                        assert(ascending()(before[a], before[b]));
                    } else if a > pos {
                        assert(ascending()(before[a - 1], before[b - 1]));
                    } else if a < pos {
                    }
                }
            }
            vstd::seq_lib::to_multiset_insert(before, pos as int, x);
            assert(v@.subrange(0, i + 1) =~= v@.subrange(0, i as int).push(x));
            vstd::seq_lib::to_multiset_build(v@.subrange(0, i as int), x);
        }
        i = i + 1;
    }
    proof {
        assert(v@.subrange(0, v@.len() as int) =~= v@);
        lemma_ascending_total();
        v@.lemma_sort_by_ensures(ascending());
        vstd::seq_lib::lemma_sorted_unique(out@, v@.sort_by(ascending()), ascending());
    }
    *v = out;
}

/// Appends what `page` adds to a selection of `thread` to `dst`.
pub fn read_page_posts(index: &PostIndex, thread: u64, dst: &mut Vec<u64>, page: u32)
    requires
        index.wf(),
    ensures
        final(dst)@ == old(dst)@ + page_part(*index, thread, page),
{
    if page < index.get_page_count(thread) {
        let mut posts = index.get_page_posts(thread, page);
        dst.append(&mut posts);
    } else {
        assert(old(dst)@ + Seq::<u64>::empty() =~= old(dst)@);
    }
}

/// The post ids that a view of `thread` shows under `policy`, in ascending
/// order, the root post aside.
pub fn select_posts(policy: &PageSet, index: &PostIndex, thread: u64) -> (r: Vec<u64>)
    requires
        index.wf(),
    ensures
        r@ == selection(*policy, *index, thread),
{
    match policy {
        PageSet::Last5Posts => {
            let mut v: Vec<u64> = Vec::new();
            let count = index.get_page_count(thread);
            read_page_posts(index, thread, &mut v, count - 1);
            assert(v@ =~= page_part(*index, thread, (count - 1) as u32));
            if v.len() < LATEST_SHOWN && count > 1 {
                read_page_posts(index, thread, &mut v, count - 2);
            }
            assert(v@ == latest_source(*index, thread));
            sort_ids(&mut v);
            if v.len() > LATEST_SHOWN {
                let start: usize = v.len() - LATEST_SHOWN;
                let mut out: Vec<u64> = Vec::new();
                let mut k: usize = start;
                while k < v.len()
                    invariant
                        start <= k <= v@.len(),
                        out@ == v@.subrange(start as int, k as int),
                    decreases v@.len() - k,
                {
                    out.push(v[k]);
                    k = k + 1;
                    assert(out@ =~= v@.subrange(start as int, k as int));
                }
                out
            } else {
                v
            }
        },
        PageSet::Pages(pages) => {
            let mut v: Vec<u64> = Vec::new();
            let mut i: usize = 0;
            assert(pages@.subrange(0, 0) =~= Seq::<Option<u32>>::empty());
            while i < 3
                invariant
                    i <= 3,
                    pages@.len() == 3,
                    index.wf(),
                    v@ == listed_source(*index, thread, pages@.subrange(0, i as int)),
                decreases 3 - i,
            {
                let slot = pages[i];
                let ghost upto = pages@.subrange(0, i + 1);
                assert(upto.drop_last() =~= pages@.subrange(0, i as int));
                assert(upto.last() == pages@[i as int]);
                match slot {
                    Some(p) => {
                        read_page_posts(index, thread, &mut v, p);
                    },
                    None => {},
                }
                i = i + 1;
            }
            assert(pages@.subrange(0, 3) =~= pages@);
            sort_ids(&mut v);
            v
        },
    }
}

} // verus!
