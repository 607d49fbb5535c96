use wavefront::math::fft::{fft_window, push_history};

#[test]
fn short_record_is_padded_at_the_end() {
    let record: Vec<u32> = vec![1, 2, 3];
    let window = fft_window(&record, 6, 0);
    assert_eq!(window, vec![1, 2, 3, 0, 0, 0]);
}

#[test]
fn long_record_keeps_its_newest_samples() {
    let record: Vec<u32> = (0..10).collect();
    let window = fft_window(&record, 4, 99);
    assert_eq!(window, vec![6, 7, 8, 9]);
}

#[test]
fn record_of_exact_window_size_is_kept_whole() {
    let record: Vec<u32> = vec![5, 6, 7, 8];
    assert_eq!(fft_window(&record, 4, 0), record);
}

#[test]
fn empty_record_gives_only_padding() {
    let record: Vec<u32> = Vec::new();
    assert_eq!(fft_window(&record, 3, 7), vec![7, 7, 7]);
}

#[test]
fn window_of_size_zero_is_empty() {
    let record: Vec<u32> = vec![1, 2];
    assert!(fft_window(&record, 0, 0).is_empty());
}

#[test]
fn history_grows_until_its_limit() {
    let mut history: Vec<u32> = Vec::new();
    push_history(&mut history, 1, 3);
    push_history(&mut history, 2, 3);
    push_history(&mut history, 3, 3);
    assert_eq!(history, vec![1, 2, 3]);
}

#[test]
fn history_drops_its_oldest_entry_past_the_limit() {
    let mut history: Vec<u32> = vec![1, 2, 3];
    push_history(&mut history, 4, 3);
    assert_eq!(history, vec![2, 3, 4]);
    push_history(&mut history, 5, 3);
    assert_eq!(history, vec![3, 4, 5]);
}

#[test]
fn history_with_limit_zero_stays_empty() {
    let mut history: Vec<u32> = Vec::new();
    push_history(&mut history, 1, 0);
    assert!(history.is_empty());
}
