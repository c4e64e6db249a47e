use quotelementa::assigner::Job;
use quotelementa::crawler::{
    Crawler, CrawlerState, PageOutcome, WorkerCmd, WorkerPhase, strip_scheme,
};
use quotelementa::state::Freq;
use quotelementa::tag::Tag;

fn page(names: &[Option<&str>]) -> PageOutcome {
    PageOutcome::Elements(names.iter().map(|n| n.map(|s| s.to_string())).collect())
}

#[test]
fn spinner_spins_only_while_working() {
    assert!(CrawlerState::Initializing.should_spinner_spin());
    assert!(CrawlerState::InProgress("example.com/".to_string()).should_spinner_spin());
    assert!(CrawlerState::ShuttingDown.should_spinner_spin());
    assert!(!CrawlerState::Complete.should_spinner_spin());
    assert!(!CrawlerState::Terminated.should_spinner_spin());
}

#[test]
fn state_labels() {
    assert_eq!(CrawlerState::Initializing.label(), "Initializing...");
    assert_eq!(
        CrawlerState::InProgress("example.com/".to_string()).label(),
        "example.com/"
    );
    assert_eq!(CrawlerState::Complete.label(), "Complete!");
    assert_eq!(CrawlerState::ShuttingDown.label(), "Shutting down...");
    assert_eq!(CrawlerState::Terminated.label(), "Terminated");
}

#[test]
fn scheme_is_stripped_for_display() {
    assert_eq!(strip_scheme("https://example.com/"), "example.com/");
    assert_eq!(strip_scheme("example.com"), "example.com");
    assert_eq!(strip_scheme("http://example.com/"), "http://example.com/");
}

#[test]
fn initialization_reports() {
    let r = Crawler::initializing_report(4444);
    assert_eq!(r.port, 4444);
    assert_eq!(r.state, CrawlerState::Initializing);
    let r = Crawler::init_failed_report(4444);
    assert_eq!(r.port, 4444);
    assert_eq!(r.state, CrawlerState::Terminated);
}

#[test]
fn a_job_is_navigated_and_counted() {
    let mut freq = Freq::new();
    let w = Crawler::new(4444);
    let job = Job { url: "https://example.com/".to_string() };
    let (w, report, cmd) = w.on_poll(Some(job));
    assert_eq!(w.phase, WorkerPhase::Navigating);
    assert_eq!(report.state, CrawlerState::InProgress("example.com/".to_string()));
    assert_eq!(cmd, WorkerCmd::Navigate);

    let (w, report, cmd) =
        w.on_page(&mut freq, page(&[Some("div"), Some("nav-custom"), None, Some("span")]));
    assert_eq!(w.phase, WorkerPhase::Fetching);
    assert_eq!(report.state, CrawlerState::Complete);
    assert_eq!(cmd, WorkerCmd::Poll);
    let counts = freq.get();
    assert_eq!(counts[Tag::Div.index()], 1);
    assert_eq!(counts[Tag::Span.index()], 1);
    assert_eq!(counts.iter().sum::<u64>(), 2);
}

#[test]
fn failed_navigation_abandons_the_job_and_continues() {
    let mut freq = Freq::new();
    let w = Crawler::new(4444);
    let job = Job { url: "https://unreachable.example/".to_string() };
    let (w, _, _) = w.on_poll(Some(job));
    let (w, report, cmd) = w.on_page(&mut freq, PageOutcome::NavFailed);
    assert_eq!(w.phase, WorkerPhase::Fetching);
    assert_eq!(report.state, CrawlerState::Complete);
    assert_eq!(cmd, WorkerCmd::Poll);
    assert_eq!(freq.get().iter().sum::<u64>(), 0);
}

#[test]
fn missing_root_finishes_the_worker_for_good() {
    let mut freq = Freq::new();
    let w = Crawler::new(4444);
    let job = Job { url: "https://empty.example/".to_string() };
    let (w, _, _) = w.on_poll(Some(job));
    let (w, report, cmd) = w.on_page(&mut freq, PageOutcome::MissingRoot);
    assert_eq!(w.phase, WorkerPhase::Failed);
    assert_eq!(report.state, CrawlerState::Terminated);
    assert_eq!(cmd, WorkerCmd::Kill);
}

#[test]
fn empty_queue_sends_the_worker_into_shutdown() {
    let w = Crawler::new(4444);
    let (w, report, cmd) = w.on_poll(None);
    assert_eq!(w.phase, WorkerPhase::Closing);
    assert_eq!(report.state, CrawlerState::ShuttingDown);
    assert_eq!(cmd, WorkerCmd::Close);
    let (w, report, cmd) = w.on_close_done();
    assert_eq!(w.phase, WorkerPhase::Done);
    assert_eq!(report.state, CrawlerState::Terminated);
    assert_eq!(cmd, WorkerCmd::Kill);
}

#[test]
fn shutdown_signal_stops_popping_then_forced_kills() {
    // First signal: the worker moves to ShuttingDown without taking
    // another job. Second signal during the close: immediate kill.
    let w = Crawler::new(4444);
    let (w, report, cmd) = w.on_shutdown();
    assert_eq!(w.phase, WorkerPhase::Closing);
    assert_eq!(report.state, CrawlerState::ShuttingDown);
    assert_eq!(cmd, WorkerCmd::Close);
    let (w, report, cmd) = w.on_forced_shutdown();
    assert_eq!(w.phase, WorkerPhase::Done);
    assert_eq!(report.state, CrawlerState::Terminated);
    assert_eq!(cmd, WorkerCmd::Kill);
}
