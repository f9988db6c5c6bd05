use snui::window::{current_buffer, select, Ratio, Window};

fn three_quarters() -> Ratio {
    Ratio::from_thousandths(750)
}

#[test]
fn window_in_the_middle_reaches_two_back_and_eight_ahead() {
    let window = select(100, 50, 10, three_quarters());
    assert_eq!(window, Window { lo: 48, hi: 58 });
}

#[test]
fn window_near_the_start_begins_at_zero() {
    let window = select(100, 1, 10, three_quarters());
    assert_eq!(window.lo, 0);
    assert_eq!(window.hi, 1 + 8);
    assert!(window.contains(1));
}

#[test]
fn window_past_the_end_is_the_last_buffer() {
    let window = select(100, 99, 10, three_quarters());
    assert_eq!(window, Window { lo: 90, hi: 100 });
    assert!(window.contains(99));
}

#[test]
fn window_is_everything_when_the_buffer_holds_all() {
    for total in 0..=10usize {
        for focus in 0..12usize {
            for ratio in [0u16, 250, 500, 750, 1000] {
                let window = select(total, focus, 10, Ratio::from_thousandths(ratio));
                assert_eq!(window, Window { lo: 0, hi: total });
            }
        }
    }
}

#[test]
fn window_holds_the_focus_when_something_lies_ahead() {
    for total in 11..40usize {
        for focus in 0..total {
            for ratio in [100u16, 250, 500, 750, 900, 1000] {
                let window = select(total, focus, 10, Ratio::from_thousandths(ratio));
                assert!(window.contains(focus), "{} {} {}", total, focus, ratio);
                assert!(window.lo <= window.hi && window.hi <= total);
                assert!(window.len() <= 11);
            }
        }
    }
}

#[test]
fn window_without_anything_ahead_stops_before_the_focus() {
    let window = select(100, 5, 10, Ratio::from_thousandths(0));
    assert_eq!(window, Window { lo: 0, hi: 5 });
    assert!(!window.contains(5));
    let window = select(100, 50, 10, Ratio::from_thousandths(0));
    assert_eq!(window, Window { lo: 40, hi: 50 });
}

#[test]
fn window_with_everything_ahead_starts_at_the_focus() {
    let window = select(100, 50, 10, Ratio::from_thousandths(1000));
    assert_eq!(window, Window { lo: 50, hi: 60 });
}

#[test]
fn window_of_an_empty_buffer_is_empty() {
    let window = select(100, 50, 0, three_quarters());
    assert_eq!(window.len(), 0);
    let window = select(0, 0, 0, three_quarters());
    assert_eq!(window, Window { lo: 0, hi: 0 });
}

#[test]
fn window_for_a_focus_beyond_the_items_is_the_last_buffer() {
    let window = select(100, 500, 10, three_quarters());
    assert_eq!(window, Window { lo: 90, hi: 100 });
    let window = select(100, usize::MAX, 10, three_quarters());
    assert_eq!(window, Window { lo: 90, hi: 100 });
}

#[test]
fn halves_are_rounded_to_the_even_number() {
    // 7.5 items ahead become 8, 2.5 items behind become 2.
    let window = select(1000, 500, 10, three_quarters());
    assert_eq!((500 - window.lo, window.hi - 500), (2, 8));
    // 2.5 ahead become 2, 7.5 behind become 8.
    let window = select(1000, 500, 10, Ratio::from_thousandths(250));
    assert_eq!((500 - window.lo, window.hi - 500), (8, 2));
    // 1.5 ahead become 2, 3.5 behind become 4: one more than the buffer.
    let window = select(1000, 500, 5, Ratio::from_thousandths(300));
    assert_eq!((500 - window.lo, window.hi - 500), (4, 2));
    // 12.5 each way become 12: one less than the buffer.
    let window = select(1000, 500, 25, Ratio::from_thousandths(500));
    assert_eq!((500 - window.lo, window.hi - 500), (12, 12));
}

#[test]
fn shares_off_the_half_are_rounded_to_the_nearest() {
    let window = select(1000, 500, 10, Ratio::from_thousandths(740));
    assert_eq!((500 - window.lo, window.hi - 500), (3, 7));
    let window = select(1000, 500, 10, Ratio::from_thousandths(760));
    assert_eq!((500 - window.lo, window.hi - 500), (2, 8));
    let window = select(1000, 500, 50, Ratio::from_thousandths(333));
    assert_eq!((500 - window.lo, window.hi - 500), (33, 17));
}

#[test]
fn ratio_is_clamped_to_the_whole() {
    assert_eq!(Ratio::from_thousandths(1500).thousandths(), 1000);
    assert_eq!(Ratio::from_thousandths(1000).thousandths(), 1000);
    assert_eq!(Ratio::from_thousandths(0).thousandths(), 0);
    assert_eq!(Ratio::from_thousandths(750).complement().thousandths(), 250);
    assert_eq!(Ratio::from_thousandths(9999).complement().thousandths(), 0);
}

#[test]
fn current_buffer_is_the_slice_of_the_window() {
    let items: Vec<usize> = (0..100).collect();
    assert_eq!(current_buffer(&items, 50, 10, three_quarters()), &items[48..58]);
    assert_eq!(current_buffer(&items, 1, 10, three_quarters()), &items[0..9]);
    assert_eq!(current_buffer(&items, 99, 10, three_quarters()), &items[90..100]);
    let few: Vec<usize> = (0..7).collect();
    assert_eq!(current_buffer(&few, 3, 10, three_quarters()), &few[..]);
}

#[test]
fn window_len_and_contains() {
    let window = Window { lo: 3, hi: 7 };
    assert_eq!(window.len(), 4);
    assert!(window.contains(3) && window.contains(6));
    assert!(!window.contains(2) && !window.contains(7));
    assert_eq!(Window { lo: 7, hi: 3 }.len(), 0);
}
