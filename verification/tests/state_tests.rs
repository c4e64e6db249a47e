use quotelementa::state::{Freq, Output, State};
use quotelementa::tag::{Tag, TAG_COUNT};

#[test]
fn fresh_table_is_zero_and_clean() {
    let f = Freq::new();
    assert_eq!(f.get().len(), TAG_COUNT);
    assert!(f.get().iter().all(|&c| c == 0));
    assert!(!f.is_dirty());
}

#[test]
fn bump_increments_one_slot_and_sets_dirty() {
    let mut f = Freq::new();
    f.bump(Tag::Div);
    f.bump(Tag::Div);
    f.bump(Tag::Span);
    assert!(f.is_dirty());
    let counts = f.get();
    assert_eq!(counts[Tag::Div.index()], 2);
    assert_eq!(counts[Tag::Span.index()], 1);
    for i in 0..TAG_COUNT {
        if i != Tag::Div.index() && i != Tag::Span.index() {
            assert_eq!(counts[i], 0);
        }
    }
}

#[test]
fn dirty_flag_is_never_cleared_by_reads() {
    let mut f = Freq::new();
    f.bump(Tag::Li);
    assert!(f.is_dirty());
    let _ = f.get();
    assert!(f.is_dirty());
}

#[test]
fn accept_node_counts_only_recognized_tags() {
    let s = State::new(Output::default(), 1920, 1080);
    let s = s.accept_node(Some("div"));
    let s = s.accept_node(Some("blink"));
    let s = s.accept_node(None);
    let s = s.accept_node(Some("span"));
    let counts = s.output.freq.get();
    assert_eq!(counts[Tag::Div.index()], 1);
    assert_eq!(counts[Tag::Span.index()], 1);
    assert_eq!(counts.iter().sum::<u64>(), 2);
    assert_eq!(s.window_width, 1920);
    assert_eq!(s.window_height, 1080);
}

#[test]
fn interleavings_agree_on_final_counts() {
    // Two workers' elements, folded in two different interleavings.
    let worker_a = [Tag::Div, Tag::Span, Tag::Div];
    let worker_b = [Tag::Li, Tag::Div];

    let mut one = Freq::new();
    for t in worker_a.iter().chain(worker_b.iter()) {
        one.bump(*t);
    }

    let mut two = Freq::new();
    for t in worker_b.iter().chain(worker_a.iter().rev()) {
        two.bump(*t);
    }

    assert_eq!(one.get(), two.get());
    assert_eq!(one.get()[Tag::Div.index()], 3);
    assert_eq!(one.get()[Tag::Span.index()], 1);
    assert_eq!(one.get()[Tag::Li.index()], 1);
}
