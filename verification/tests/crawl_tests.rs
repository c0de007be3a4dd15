use sandslash::crawler::engine::{after_robots, child_depth, on_dequeued, should_stop, with_depth, PageBudget, WorkerStep};
use sandslash::crawler::frontier::{decode, encode, key_inflight, key_queue, key_seen};
use sandslash::model::{Headers, PageData};
use sandslash::weburl::WebUrl;

#[test]
fn enqueue_gate_admits_exactly_k_of_n() {
    const MAX: usize = 3;
    const CANDIDATES: usize = 10;

    // The root is page 1.
    let mut budget = PageBudget::new(Some(MAX));
    let mut admitted = 0usize;
    for _ in 0..CANDIDATES {
        if budget.try_admit() {
            admitted += 1;
        }
    }

    assert_eq!(admitted, MAX - 1, "gate must admit exactly {} children when max_pages={MAX} and root=page1", MAX - 1);
    assert_eq!(budget.counted, MAX, "counter must settle at MAX after gate");
}

#[test]
fn released_slot_can_be_taken_again() {
    let mut budget = PageBudget::new(Some(2));
    assert!(budget.try_admit());
    assert!(!budget.try_admit());
    budget.release();
    assert!(budget.try_admit());
    let mut open = PageBudget::new(None);
    for _ in 0..100 {
        assert!(open.try_admit());
    }
    assert_eq!(open.counted, 1);
}

#[test]
fn frontier_keys_are_scoped_by_job() {
    assert_eq!(key_seen("job1"), "seo:job1:seen");
    assert_eq!(key_queue("job1"), "seo:job1:queue");
    assert_eq!(key_inflight("job1"), "seo:job1:inflight");
}

#[test]
fn frontier_entry_round_trips() {
    let e = encode(3, "https://example.com/a|b");
    assert_eq!(e, "3|https://example.com/a|b");
    assert_eq!(decode(&e), Some((3, "https://example.com/a|b".to_owned())));
    assert_eq!(decode("x|https://example.com/"), None);
    assert_eq!(decode("no separator"), None);
    assert_eq!(decode("4294967296|u"), None);
}

#[test]
fn worker_steps() {
    assert!(matches!(on_dequeued(None, true), WorkerStep::Wait));
    assert!(matches!(on_dequeued(Some((1, "not a url".to_owned())), true), WorkerStep::Skip));
    match on_dequeued(Some((2, "https://example.com/x".to_owned())), true) {
        WorkerStep::CheckRobots { url, depth } => {
            assert_eq!(url.as_str(), "https://example.com/x");
            assert_eq!(depth, 2);
            assert!(matches!(after_robots(false, url.clone(), depth), WorkerStep::Skip));
            assert!(matches!(after_robots(true, url, depth), WorkerStep::Fetch { depth: 2, .. }));
        }
        _ => panic!("expected a robots check"),
    }
    assert!(matches!(on_dequeued(Some((0, "https://example.com/".to_owned())), false), WorkerStep::Fetch { depth: 0, .. }));
    assert!(should_stop(Some(true)));
    assert!(!should_stop(Some(false)));
    assert!(!should_stop(None));
}

#[test]
fn children_are_crawled_only_above_the_depth_limit() {
    assert_eq!(child_depth(0, 2), Some(1));
    assert_eq!(child_depth(1, 2), Some(2));
    assert_eq!(child_depth(2, 2), None);
    let page = PageData {
        url: WebUrl::parse("https://example.com/").unwrap(),
        status: 200,
        redirect_chain: vec![],
        html: "x".to_owned(),
        headers: Headers::default(),
        depth: 0,
    };
    assert_eq!(with_depth(page, 4).depth, 4);
}
