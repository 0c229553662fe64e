use rns_dns::view::{rounded_quotient, LogViewState, Thumb, Window, PAGE_STEP};

fn at(scroll: usize) -> LogViewState {
    LogViewState { scroll, tail: false }
}

#[test]
fn new_view_follows_the_newest_line() {
    assert_eq!(LogViewState::new(), LogViewState { scroll: 0, tail: true });
    assert_eq!(LogViewState::default(), LogViewState { scroll: 0, tail: true });
    assert_eq!(PAGE_STEP, 10);
}

#[test]
fn window_at_the_bottom() {
    assert_eq!(at(0).window(25, 10), Window { start: 15, end: 25 });
    assert_eq!(LogViewState::new().window(25, 10), Window { start: 15, end: 25 });
}

#[test]
fn window_scrolled_back() {
    assert_eq!(at(5).window(25, 10), Window { start: 10, end: 20 });
    assert_eq!(at(20).window(25, 10), Window { start: 0, end: 5 });
}

#[test]
fn window_scrolled_past_the_oldest_line_is_empty() {
    assert_eq!(at(25).window(25, 10), Window { start: 0, end: 0 });
    assert_eq!(at(26).window(25, 10), Window { start: 0, end: 0 });
    assert_eq!(at(usize::MAX).window(25, 10), Window { start: 0, end: 0 });
}

#[test]
fn window_of_short_or_empty_log() {
    assert_eq!(at(0).window(3, 10), Window { start: 0, end: 3 });
    assert_eq!(at(0).window(0, 10), Window { start: 0, end: 0 });
    assert_eq!(at(0).window(5, 0), Window { start: 5, end: 5 });
}

#[test]
fn following_view_ignores_stored_offset() {
    let v = LogViewState { scroll: 7, tail: true };
    assert_eq!(v.window(25, 10), Window { start: 15, end: 25 });
    assert_eq!(v.page_up(100), at(10));
}

#[test]
fn page_up_moves_back_by_ten_within_the_log() {
    assert_eq!(LogViewState::new().page_up(100), at(10));
    assert_eq!(at(10).page_up(100), at(20));
    assert_eq!(at(95).page_up(100), at(100));
    assert_eq!(at(0).page_up(3), at(3));
    assert_eq!(at(0).page_up(0), at(0));
    assert_eq!(at(500).page_up(100), at(100));
    assert_eq!(at(usize::MAX).page_up(usize::MAX), at(usize::MAX));
}

#[test]
fn page_down_moves_forward_by_ten() {
    assert_eq!(at(25).page_down(100), at(15));
    assert_eq!(at(10).page_down(100), at(0));
    assert_eq!(at(4).page_down(100), at(0));
    assert_eq!(LogViewState::new().page_down(100), at(0));
    assert_eq!(at(500).page_down(100), at(100));
}

#[test]
fn home_end_and_toggle() {
    assert_eq!(at(30).home(), at(0));
    assert_eq!(LogViewState::new().home(), at(0));
    assert_eq!(at(30).end(), LogViewState { scroll: 0, tail: true });
    assert_eq!(at(30).toggle_tail(), LogViewState { scroll: 0, tail: true });
    assert_eq!(LogViewState::new().toggle_tail(), at(0));
    assert_eq!(at(30).toggle_tail().toggle_tail(), at(0));
}

#[test]
fn rounded_quotient_rounds_halves_up() {
    assert_eq!(rounded_quotient(7, 2), 4);
    assert_eq!(rounded_quotient(6, 4), 2);
    assert_eq!(rounded_quotient(5, 4), 1);
    assert_eq!(rounded_quotient(0, 5), 0);
    assert_eq!(rounded_quotient(9, 0), 0);
    assert_eq!(rounded_quotient(10, 10), 1);
}

#[test]
fn thumb_of_a_long_log() {
    assert_eq!(at(0).thumb(100, 10, 10), Thumb { size: 1, position: 0 });
    assert_eq!(at(45).thumb(100, 10, 10), Thumb { size: 1, position: 5 });
    assert_eq!(at(90).thumb(100, 10, 10), Thumb { size: 1, position: 9 });
    assert_eq!(at(30).thumb(40, 20, 20), Thumb { size: 10, position: 15 });
}

#[test]
fn thumb_degenerates_without_dividing_by_zero() {
    assert_eq!(at(0).thumb(0, 10, 10), Thumb { size: 1, position: 0 });
    assert_eq!(at(0).thumb(5, 10, 10), Thumb { size: 20, position: 0 });
    assert_eq!(at(0).thumb(10, 10, 10), Thumb { size: 10, position: 0 });
    assert_eq!(at(3).thumb(10, 10, 10), Thumb { size: 10, position: 0 });
    assert_eq!(at(0).thumb(10, 10, 0), Thumb { size: 1, position: 0 });
    assert_eq!(LogViewState { scroll: 9, tail: true }.thumb(100, 10, 10).position, 0);
}
