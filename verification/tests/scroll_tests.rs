use qmassa::scroll::{max_offset, ScrollState};

#[test]
fn max_offset_is_zero_when_content_fits() {
    assert_eq!(max_offset(10, 20), 0);
    assert_eq!(max_offset(20, 20), 0);
    assert_eq!(max_offset(21, 20), 1);
}

#[test]
fn scrolling_is_noop_when_content_fits() {
    let mut st = ScrollState::new();
    st.scroll_right(0);
    st.scroll_down(0);
    st.scroll_left(0);
    st.scroll_up(0);
    assert_eq!((st.x, st.y), (0, 0));
}

#[test]
fn offsets_stay_within_admissible_range() {
    let mut st = ScrollState::new();
    let max_x = max_offset(30, 20);
    for _ in 0..50 {
        st.scroll_right(max_x);
        assert!(st.x <= max_x);
    }
    assert_eq!(st.x, 10);
    for _ in 0..50 {
        st.scroll_left(max_x);
        assert!(st.x <= max_x);
    }
    assert_eq!(st.x, 0);
}

#[test]
fn clamp_pulls_offsets_back_after_content_shrinks() {
    let mut st = ScrollState::new();
    for _ in 0..8 {
        st.scroll_right(8);
        st.scroll_down(8);
    }
    assert_eq!((st.x, st.y), (8, 8));
    // Content shrank between ticks: the next draw re-clamps.
    st.clamp(3, 0);
    assert_eq!((st.x, st.y), (3, 0));
}

#[test]
fn vertical_scrolling_clamps_like_horizontal() {
    let mut st = ScrollState::new();
    st.scroll_down(2);
    st.scroll_down(2);
    st.scroll_down(2);
    assert_eq!(st.y, 2);
    st.scroll_up(2);
    assert_eq!(st.y, 1);
    st.scroll_up(2);
    st.scroll_up(2);
    assert_eq!(st.y, 0);
}
