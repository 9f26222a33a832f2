use client::agent::{Agent, Update};
use client::post_index::PostIndex;
use client::registry::{Registry, Subscription};

#[test]
fn insert_post_twice_keeps_one_entry() {
    let mut idx = PostIndex::new();
    idx.insert_post(1, 0, 5);
    let first = idx.get_page_posts(1, 0);
    idx.insert_post(1, 0, 5);
    assert_eq!(idx.get_page_posts(1, 0), first);
    assert_eq!(first, vec![5]);
}

#[test]
fn insert_post_keeps_insertion_order() {
    let mut idx = PostIndex::new();
    idx.insert_post(1, 2, 9);
    idx.insert_post(1, 2, 3);
    idx.insert_post(1, 2, 6);
    idx.insert_post(1, 2, 3);
    assert_eq!(idx.get_page_posts(1, 2), vec![9, 3, 6]);
    assert!(idx.get_page_posts(1, 1).is_empty());
    assert!(idx.get_page_posts(2, 2).is_empty());
}

#[test]
fn page_count_is_maximum_supplied() {
    let mut idx = PostIndex::new();
    idx.bump_page_count(3, 4);
    idx.bump_page_count(3, 2);
    idx.bump_page_count(3, 7);
    idx.bump_page_count(3, 5);
    idx.bump_page_count(8, 9);
    assert_eq!(idx.get_page_count(3), 7);
    assert_eq!(idx.get_page_count(8), 9);
}

#[test]
fn page_count_defaults_to_one() {
    let mut idx = PostIndex::new();
    assert_eq!(idx.get_page_count(12), 1);
    idx.bump_page_count(12, 0);
    assert_eq!(idx.get_page_count(12), 1);
    idx.bump_page_count(12, u32::MAX);
    assert_eq!(idx.get_page_count(12), u32::MAX);
}

#[test]
fn root_post_is_never_listed() {
    let mut idx = PostIndex::new();
    idx.insert_post(7, 0, 7);
    idx.insert_post(7, 0, 70);
    idx.insert_post(7, 1, 7);
    assert_eq!(idx.get_page_posts(7, 0), vec![70]);
    assert!(idx.get_page_posts(7, 1).is_empty());
}

#[test]
fn fan_out_reaches_subscribers_in_order() {
    let mut s = Agent::new();
    s.subscribe(Subscription::ThreadChange(7), 1);
    s.subscribe(Subscription::ThreadChange(7), 2);
    s.subscribe(Subscription::ThreadChange(8), 3);
    let r = s.apply_update(Update::NewPost { thread_id: 7, page: 0, post_id: 71 });
    assert_eq!(r, vec![1, 2]);
    assert_eq!(s.get_page_posts(7, 0), vec![71]);
    let r = s.apply_update(Update::PageCountChanged { thread_id: 8, count: 3 });
    assert_eq!(r, vec![3]);
    assert_eq!(s.get_page_count(8), 3);
}

#[test]
fn unsubscribed_handle_is_not_notified() {
    let mut s = Agent::new();
    s.subscribe(Subscription::ThreadChange(7), 1);
    s.subscribe(Subscription::ThreadChange(7), 2);
    s.unsubscribe(1);
    let r = s.apply_update(Update::NewPost { thread_id: 7, page: 0, post_id: 71 });
    assert_eq!(r, vec![2]);
    s.unsubscribe(1);
    assert_eq!(s.notify(Subscription::ThreadChange(7)), vec![2]);
}

#[test]
fn subscribing_again_moves_the_handle() {
    let mut reg = Registry::new();
    reg.subscribe(Subscription::ThreadChange(1), 10);
    reg.subscribe(Subscription::ThreadChange(1), 20);
    reg.subscribe(Subscription::ThreadChange(2), 10);
    assert_eq!(reg.notify(Subscription::ThreadChange(1)), vec![20]);
    assert_eq!(reg.notify(Subscription::ThreadChange(2)), vec![10]);
    reg.subscribe(Subscription::ThreadChange(1), 10);
    assert_eq!(reg.notify(Subscription::ThreadChange(1)), vec![20, 10]);
    assert!(reg.notify(Subscription::ThreadChange(2)).is_empty());
}

#[test]
fn notify_with_no_subscribers_is_empty() {
    let reg = Registry::new();
    assert!(reg.notify(Subscription::ThreadChange(1)).is_empty());
}
