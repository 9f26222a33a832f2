use client::agent::{Agent, Update};
use client::post_index::PostIndex;
use client::select::{read_page_posts, select_posts, sort_ids, PageSet};
use client::thread::{Message, Props, Thread};

fn post(state: &mut Agent, thread_id: u64, page: u32, post_id: u64) {
    state.apply_update(Update::NewPost { thread_id, page, post_id });
}

fn pages(state: &mut Agent, thread_id: u64, count: u32) {
    state.apply_update(Update::PageCountChanged { thread_id, count });
}

#[test]
fn latest_posts_read_two_pages_and_keep_five() {
    let mut s = Agent::new();
    pages(&mut s, 100, 2);
    for id in [1u64, 2, 3, 4, 5, 6] {
        post(&mut s, 100, 0, id);
    }
    post(&mut s, 100, 1, 8);
    post(&mut s, 100, 1, 7);
    let r = select_posts(&PageSet::Last5Posts, s.index(), 100);
    assert_eq!(r, vec![4, 5, 6, 7, 8]);
}

#[test]
fn latest_posts_single_page() {
    let mut s = Agent::new();
    post(&mut s, 100, 0, 20);
    post(&mut s, 100, 0, 10);
    assert_eq!(s.get_page_count(100), 1);
    let r = select_posts(&PageSet::Last5Posts, s.index(), 100);
    assert_eq!(r, vec![10, 20]);
}

#[test]
fn latest_posts_skip_earlier_page_when_last_is_full() {
    let mut s = Agent::new();
    pages(&mut s, 1, 2);
    post(&mut s, 1, 0, 2);
    for id in [9u64, 3, 8, 4, 7, 5] {
        post(&mut s, 1, 1, id);
    }
    let r = select_posts(&PageSet::Last5Posts, s.index(), 1);
    assert_eq!(r, vec![4, 5, 7, 8, 9]);
}

#[test]
fn latest_posts_of_unknown_thread_are_empty() {
    let s = Agent::new();
    assert!(select_posts(&PageSet::Last5Posts, s.index(), 42).is_empty());
}

#[test]
fn explicit_pages_concatenate_and_sort() {
    let mut s = Agent::new();
    pages(&mut s, 100, 6);
    post(&mut s, 100, 0, 30);
    post(&mut s, 100, 0, 10);
    post(&mut s, 100, 1, 50);
    post(&mut s, 100, 2, 40);
    post(&mut s, 100, 2, 20);
    let policy = PageSet::Pages([Some(0), Some(2), Some(5)]);
    let r = select_posts(&policy, s.index(), 100);
    assert_eq!(r, vec![10, 20, 30, 40]);
}

#[test]
fn explicit_pages_skip_unused_slots() {
    let mut s = Agent::new();
    pages(&mut s, 100, 3);
    post(&mut s, 100, 0, 5);
    post(&mut s, 100, 2, 3);
    let policy = PageSet::Pages([Some(2), None, None]);
    assert_eq!(select_posts(&policy, s.index(), 100), vec![3]);
}

#[test]
fn explicit_pages_beyond_count_add_nothing() {
    let mut s = Agent::new();
    post(&mut s, 100, 0, 5);
    post(&mut s, 100, 3, 9);
    let policy = PageSet::Pages([Some(0), Some(3), None]);
    assert_eq!(select_posts(&policy, s.index(), 100), vec![5]);
}

#[test]
fn explicit_pages_listed_twice_are_not_deduplicated() {
    let mut s = Agent::new();
    post(&mut s, 100, 0, 5);
    post(&mut s, 100, 0, 4);
    let policy = PageSet::Pages([Some(0), Some(0), None]);
    assert_eq!(select_posts(&policy, s.index(), 100), vec![4, 4, 5, 5]);
}

#[test]
fn selection_leaves_out_root_post() {
    let mut s = Agent::new();
    post(&mut s, 7, 0, 7);
    post(&mut s, 7, 0, 8);
    assert_eq!(select_posts(&PageSet::Last5Posts, s.index(), 7), vec![8]);
    let policy = PageSet::Pages([Some(0), None, None]);
    assert_eq!(select_posts(&policy, s.index(), 7), vec![8]);
}

#[test]
fn sort_ids_orders_ascending_and_keeps_repeats() {
    let mut v = vec![5u64, 1, 9, 1, u64::MAX, 0];
    sort_ids(&mut v);
    assert_eq!(v, vec![0, 1, 1, 5, 9, u64::MAX]);
    let mut e: Vec<u64> = Vec::new();
    sort_ids(&mut e);
    assert!(e.is_empty());
}

#[test]
fn read_page_posts_appends() {
    let mut idx = PostIndex::new();
    idx.insert_post(3, 0, 11);
    idx.insert_post(3, 0, 3);
    idx.insert_post(3, 0, 10);
    let mut dst = vec![99u64];
    read_page_posts(&idx, 3, &mut dst, 0);
    assert_eq!(dst, vec![99, 11, 10]);
    read_page_posts(&idx, 3, &mut dst, 1);
    assert_eq!(dst, vec![99, 11, 10]);
}

#[test]
fn page_set_default_is_latest_posts() {
    assert!(matches!(PageSet::default(), PageSet::Last5Posts));
}

#[test]
fn thread_view_subscribes_selects_and_unsubscribes() {
    let mut s = Agent::new();
    let t = Thread::create(Props { id: 4, pages: PageSet::Last5Posts }, 77, &mut s);
    let notified = s.apply_update(Update::NewPost { thread_id: 4, page: 0, post_id: 12 });
    assert_eq!(notified, vec![77]);
    assert_eq!(t.posts(&s), vec![12]);
    t.destroy(&mut s);
    let notified = s.apply_update(Update::NewPost { thread_id: 4, page: 0, post_id: 13 });
    assert!(notified.is_empty());
}

#[test]
fn thread_view_update_rerenders_on_change_only() {
    let mut s = Agent::new();
    let mut t = Thread::create(Props { id: 4, pages: PageSet::Last5Posts }, 1, &mut s);
    assert!(t.update(Message::ThreadChange));
    assert!(!t.update(Message::NOP));
    assert_eq!(t.id, 4);
    assert_eq!(
        Thread::message_for(client::registry::Subscription::ThreadChange(9)),
        Message::ThreadChange
    );
}
