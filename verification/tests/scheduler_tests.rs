//! The scheduler's dedup: at-most-once execution per identity, however
//! often an identity is discovered.

use engine::Scheduler;
use engine::WorkItem;

fn drain(sched: &mut Scheduler) -> Vec<WorkItem> {
    let mut taken = Vec::new();
    while let Some(item) = sched.take_next() {
        taken.push(item);
    }
    taken
}

#[test]
fn discovery_from_two_pages_runs_once() {
    let mut sched = Scheduler::new();
    // Two pages independently discover the same image.
    let a = WorkItem::Image { input: String::from("https://example.com/a.png"), output: String::from("k") };
    let b = WorkItem::Image { input: String::from("https://example.com/a.png"), output: String::from("k") };
    assert!(sched.enqueue_if_new(a));
    assert!(!sched.enqueue_if_new(b));
    let taken = drain(&mut sched);
    assert_eq!(taken.len(), 1);
}

#[test]
fn finished_identity_is_never_requeued() {
    let mut sched = Scheduler::new();
    let item = WorkItem::Page(String::from("/src/a.md"));
    assert!(sched.enqueue_if_new(item));
    let taken = sched.take_next().expect("one item was queued");
    assert!(sched.take_next().is_none());
    sched.finish(&taken);
    // Rediscovery after completion is a no-op.
    assert!(!sched.enqueue_if_new(WorkItem::Page(String::from("/src/a.md"))));
    assert!(sched.take_next().is_none());
}

#[test]
fn running_identity_is_not_requeued() {
    let mut sched = Scheduler::new();
    assert!(sched.enqueue_if_new(WorkItem::Style(String::from("link"))));
    let _running = sched.take_next().expect("queued");
    // Discovered again while its worker still runs: no second execution.
    assert!(!sched.enqueue_if_new(WorkItem::Style(String::from("link"))));
    assert!(sched.take_next().is_none());
}

#[test]
fn distinct_identities_all_run() {
    let mut sched = Scheduler::new();
    assert!(sched.enqueue_if_new(WorkItem::Index));
    assert!(sched.enqueue_if_new(WorkItem::Keep));
    assert!(sched.enqueue_if_new(WorkItem::Page(String::from("/src/a.md"))));
    assert!(sched.enqueue_if_new(WorkItem::Font {
        input: String::from("https://f.example/a.woff"),
        output: String::from("h.woff"),
    }));
    let taken = drain(&mut sched);
    assert_eq!(taken.len(), 4);
}

#[test]
fn items_differing_in_payload_are_distinct() {
    let mut sched = Scheduler::new();
    assert!(sched.enqueue_if_new(WorkItem::Page(String::from("/src/a.md"))));
    assert!(sched.enqueue_if_new(WorkItem::Page(String::from("/src/b.md"))));
    let taken = drain(&mut sched);
    assert_eq!(taken.len(), 2);
}
