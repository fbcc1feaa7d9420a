use dir_picker::window::{window, VISIBLE_ROWS};

#[test]
fn visible_rows_is_thirty() {
    assert_eq!(VISIBLE_ROWS, 30);
}

#[test]
fn window_centres_selection_in_long_listing() {
    assert_eq!(window(100, 50, 30), (35, 30));
}

#[test]
fn window_starts_at_top_near_the_top() {
    assert_eq!(window(100, 0, 30), (0, 30));
    assert_eq!(window(100, 15, 30), (0, 30));
    assert_eq!(window(100, 16, 30), (1, 30));
}

#[test]
fn window_stops_at_last_screenful() {
    assert_eq!(window(100, 99, 30), (70, 30));
    assert_eq!(window(100, 85, 30), (70, 30));
    assert_eq!(window(100, 84, 30), (69, 30));
}

#[test]
fn window_of_short_listing_shows_everything() {
    assert_eq!(window(10, 3, 30), (0, 10));
    assert_eq!(window(10, 9, 30), (0, 10));
    assert_eq!(window(30, 29, 30), (0, 30));
}

#[test]
fn window_of_empty_listing_is_empty() {
    assert_eq!(window(0, 0, 30), (0, 0));
}

#[test]
fn window_with_no_rows_takes_nothing() {
    assert_eq!(window(10, 4, 0), (4, 0));
}

#[test]
fn window_with_odd_capacity_rounds_half_down() {
    assert_eq!(window(20, 10, 5), (8, 5));
}

#[test]
fn window_holds_selection_for_every_index() {
    for total in 1usize..80 {
        for capacity in 1usize..40 {
            for selected in 0..total {
                let (skip, take) = window(total, selected, capacity);
                assert!(skip <= selected && selected < skip + take);
                assert!(skip + take <= total);
                assert_eq!(take, capacity.min(total));
                if total >= capacity {
                    assert_eq!(skip + take == capacity, selected <= capacity / 2 || total == capacity);
                }
            }
        }
    }
}

#[test]
fn window_survives_extreme_values() {
    assert_eq!(window(usize::MAX, usize::MAX, 30), (usize::MAX - 30, 30));
    assert_eq!(window(5, usize::MAX, usize::MAX), (0, 5));
}
