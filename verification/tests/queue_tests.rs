use quotelementa::assigner::Job;
use quotelementa::queue::JobQueue;

fn job(url: &str) -> Job {
    Job { url: url.to_string() }
}

#[test]
fn fifo_order_is_kept() {
    let mut q = JobQueue::new(4);
    q.push(job("https://a.example/"));
    q.push(job("https://b.example/"));
    q.push(job("https://c.example/"));
    assert_eq!(q.try_pop().unwrap().url, "https://a.example/");
    assert_eq!(q.try_pop().unwrap().url, "https://b.example/");
    assert_eq!(q.try_pop().unwrap().url, "https://c.example/");
    assert!(q.try_pop().is_none());
}

#[test]
fn empty_pop_returns_nothing_and_changes_nothing() {
    let mut q = JobQueue::new(2);
    assert!(q.try_pop().is_none());
    assert_eq!(q.len(), 0);
    q.push(job("https://a.example/"));
    assert_eq!(q.len(), 1);
}

#[test]
fn capacity_queries() {
    let mut q = JobQueue::new(3);
    assert_eq!(q.capacity(), 3);
    assert_eq!(q.remaining_capacity(), 3);
    q.push(job("https://a.example/"));
    q.push(job("https://b.example/"));
    assert_eq!(q.len(), 2);
    assert_eq!(q.remaining_capacity(), 1);
    let _ = q.try_pop();
    assert_eq!(q.remaining_capacity(), 2);
}

#[test]
fn drain_delivers_everything_once_in_order() {
    let mut q = JobQueue::new(5);
    let jobs = vec![
        job("https://a.example/"),
        job("https://b.example/"),
        job("https://c.example/"),
    ];
    q.enqueue_all(jobs);
    let out = q.drain();
    let urls: Vec<&str> = out.iter().map(|j| j.url.as_str()).collect();
    assert_eq!(
        urls,
        vec!["https://a.example/", "https://b.example/", "https://c.example/"]
    );
    assert_eq!(q.len(), 0);
    assert!(q.try_pop().is_none());
}

#[test]
fn two_consumers_never_share_a_job() {
    // Two "workers" alternating on one queue: every pop removes what
    // it returns, so the deliveries are disjoint and cover the queue.
    let mut q = JobQueue::new(4);
    q.push(job("https://a.example/"));
    q.push(job("https://b.example/"));
    q.push(job("https://c.example/"));
    q.push(job("https://d.example/"));
    let mut first = Vec::new();
    let mut second = Vec::new();
    loop {
        match q.try_pop() {
            Some(j) => first.push(j.url),
            None => break,
        }
        match q.try_pop() {
            Some(j) => second.push(j.url),
            None => break,
        }
    }
    assert_eq!(first, vec!["https://a.example/", "https://c.example/"]);
    assert_eq!(second, vec!["https://b.example/", "https://d.example/"]);
}
