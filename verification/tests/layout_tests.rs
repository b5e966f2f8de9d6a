use masonry::layout::Layout;

fn three_item_layout() -> Layout {
    // Thumbnail 100, gap 10, raw dimensions (200,100), (100,100), (100,200).
    let mut layout = Layout::new(3, 100, 10);
    layout.set_dimension(0, 200, 100);
    layout.set_dimension(1, 100, 100);
    layout.set_dimension(2, 100, 200);
    layout
}

#[test]
fn horizontal_round_trip_scenario() {
    let mut layout = three_item_layout();
    let height = layout.compute_horizontal(300);

    // Items 1 and 2 overflow the 300-wide container (200 + 10 + 100 + 10 =
    // 320), so the first row is rescaled by 300/320 to corrected height 94;
    // item 3 starts a second, uncorrected row of natural height 100.
    let t0 = layout.get_transform(0);
    assert_eq!((t0.width, t0.height, t0.left, t0.top), (188, 94, 0, 0));
    let t1 = layout.get_transform(1);
    assert_eq!((t1.width, t1.height, t1.left, t1.top), (94, 94, 197, 0));
    let t2 = layout.get_transform(2);
    assert_eq!((t2.width, t2.height, t2.left, t2.top), (50, 100, 0, 104));

    // Total height: 94 (row 1) + 10 (gap) + 100 (row 2) + 10 (gap).
    assert_eq!(height, 214);
}

#[test]
fn horizontal_twice_is_idempotent() {
    let mut layout = three_item_layout();
    let first_height = layout.compute_horizontal(300);
    let first: Vec<(u16, u16, u32, u32)> = (0..3)
        .map(|i| {
            let t = layout.get_transform(i);
            (t.width, t.height, t.left, t.top)
        })
        .collect();
    let second_height = layout.compute_horizontal(300);
    let second: Vec<(u16, u16, u32, u32)> = (0..3)
        .map(|i| {
            let t = layout.get_transform(i);
            (t.width, t.height, t.left, t.top)
        })
        .collect();
    assert_eq!(first_height, second_height);
    assert_eq!(first, second);
}

#[test]
fn vertical_twice_is_idempotent() {
    let mut layout = three_item_layout();
    let first_height = layout.compute_vertical(300);
    let first: Vec<(u16, u16, u32, u32)> = (0..3)
        .map(|i| {
            let t = layout.get_transform(i);
            (t.width, t.height, t.left, t.top)
        })
        .collect();
    let second_height = layout.compute_vertical(300);
    let second: Vec<(u16, u16, u32, u32)> = (0..3)
        .map(|i| {
            let t = layout.get_transform(i);
            (t.width, t.height, t.left, t.top)
        })
        .collect();
    assert_eq!(first_height, second_height);
    assert_eq!(first, second);
}

#[test]
fn grid_twice_is_idempotent() {
    let mut layout = three_item_layout();
    let first_height = layout.compute_grid(300);
    let first: Vec<(u16, u16, u32, u32)> = (0..3)
        .map(|i| {
            let t = layout.get_transform(i);
            (t.width, t.height, t.left, t.top)
        })
        .collect();
    let second_height = layout.compute_grid(300);
    let second: Vec<(u16, u16, u32, u32)> = (0..3)
        .map(|i| {
            let t = layout.get_transform(i);
            (t.width, t.height, t.left, t.top)
        })
        .collect();
    assert_eq!(first_height, second_height);
    assert_eq!(first, second);
}

#[test]
fn grid_scenario_four_items_two_columns() {
    let mut layout = Layout::new(4, 50, 0);
    for i in 0..4 {
        layout.set_dimension(i, 100, 100);
    }
    let height = layout.compute_grid(100);
    let expected = [(0u32, 0u32), (50, 0), (0, 50), (50, 50)];
    for (i, (left, top)) in expected.iter().enumerate() {
        let t = layout.get_transform(i);
        assert_eq!(t.width, 50);
        assert_eq!(t.height, 50);
        assert_eq!(t.left, *left);
        assert_eq!(t.top, *top);
    }
    assert_eq!(height, 100);
}

#[test]
fn grid_partial_last_row() {
    let mut layout = Layout::new(3, 50, 0);
    for i in 0..3 {
        layout.set_dimension(i, 100, 100);
    }
    let height = layout.compute_grid(100);
    assert_eq!(height, 100);
    let t2 = layout.get_transform(2);
    assert_eq!((t2.left, t2.top), (0, 50));
}

#[test]
fn vertical_balance_scenario() {
    // Three items of equal normalized height over two columns: the first
    // two go to distinct columns (ties broken by ascending left), the third
    // to whichever column is then shorter.
    let mut layout = Layout::new(3, 50, 0);
    for i in 0..3 {
        layout.set_dimension(i, 100, 100);
    }
    let height = layout.compute_vertical(100);
    let t0 = layout.get_transform(0);
    assert_eq!((t0.width, t0.height, t0.left, t0.top), (50, 50, 0, 0));
    let t1 = layout.get_transform(1);
    assert_eq!((t1.width, t1.height, t1.left, t1.top), (50, 50, 50, 0));
    let t2 = layout.get_transform(2);
    assert_eq!((t2.width, t2.height, t2.left, t2.top), (50, 50, 0, 50));
    assert_eq!(height, 100);
}

#[test]
fn vertical_left_offsets_are_column_multiples() {
    let mut layout = three_item_layout();
    layout.set_padding(0);
    let _ = layout.compute_vertical(300);
    // 300 / 100 gives 3 columns of width 100.
    for i in 0..3 {
        let t = layout.get_transform(i);
        assert_eq!(t.left % 100, 0);
    }
}

#[test]
fn empty_layout_returns_zero_everywhere() {
    let mut layout = Layout::new(0, 100, 10);
    assert_eq!(layout.compute_horizontal(300), 0);
    assert_eq!(layout.compute_vertical(300), 0);
    assert_eq!(layout.compute_grid(300), 0);
}

#[test]
fn zero_thumbnail_size_returns_zero() {
    let mut layout = Layout::new(3, 0, 10);
    assert_eq!(layout.compute_horizontal(300), 0);
    assert_eq!(layout.compute_vertical(300), 0);
    assert_eq!(layout.compute_grid(300), 0);
}

#[test]
fn new_layout_has_zero_transforms() {
    let layout = Layout::new(5, 100, 10);
    for i in 0..5 {
        let t = layout.get_transform(i);
        assert_eq!((t.width, t.height, t.left, t.top), (0, 0, 0, 0));
    }
}

#[test]
fn unset_dimensions_behave_as_squares() {
    let mut layout = Layout::new(2, 50, 0);
    let height = layout.compute_grid(100);
    assert_eq!(height, 50);
    let t1 = layout.get_transform(1);
    assert_eq!((t1.width, t1.height, t1.left, t1.top), (50, 50, 50, 0));
}

#[test]
fn resize_grows_and_recomputes() {
    let mut layout = Layout::new(2, 50, 0);
    layout.set_dimension(0, 100, 100);
    layout.set_dimension(1, 100, 100);
    layout.resize(4);
    layout.set_dimension(2, 100, 100);
    layout.set_dimension(3, 100, 100);
    let height = layout.compute_grid(100);
    assert_eq!(height, 100);
    let t3 = layout.get_transform(3);
    assert_eq!((t3.left, t3.top), (50, 50));
}

#[test]
fn resize_beyond_initial_capacity() {
    let mut layout = Layout::new(1, 50, 0);
    layout.resize(1500);
    let t = layout.get_transform(1499);
    assert_eq!((t.width, t.height, t.left, t.top), (0, 0, 0, 0));
}

#[test]
fn thumbnail_size_is_clamped_to_overflow_safe_cap() {
    // 1000 exceeds the 655 cap; with one item and a container narrower than
    // the thumbnail, the clamped width equals the capped thumbnail size, so
    // the grid is one 655-wide column.
    let mut layout = Layout::new(1, 1000, 0);
    let height = layout.compute_grid(0);
    assert_eq!(height, 655);

    let mut layout2 = Layout::new(1, 50, 0);
    layout2.set_thumbnail_size(1000);
    let height2 = layout2.compute_grid(0);
    assert_eq!(height2, 655);
}

#[test]
fn set_thumbnail_size_and_padding_take_effect() {
    let mut layout = Layout::new(4, 100, 10);
    for i in 0..4 {
        layout.set_dimension(i, 100, 100);
    }
    layout.set_thumbnail_size(50);
    layout.set_padding(0);
    let height = layout.compute_grid(100);
    assert_eq!(height, 100);
}

#[test]
fn horizontal_single_row_keeps_natural_height() {
    let mut layout = Layout::new(1, 100, 0);
    layout.set_dimension(0, 100, 100);
    let height = layout.compute_horizontal(300);
    assert_eq!(height, 100);
    let t = layout.get_transform(0);
    assert_eq!((t.width, t.height, t.left, t.top), (100, 100, 0, 0));
}

#[test]
fn horizontal_container_clamped_to_thumbnail_size() {
    // Container width 10 is clamped up to the thumbnail size 100.
    let mut layout = Layout::new(1, 100, 0);
    layout.set_dimension(0, 100, 100);
    let height = layout.compute_horizontal(10);
    assert_eq!(height, 100);
}

#[test]
fn horizontal_closed_row_is_tight_with_zero_gap() {
    // With a zero gap, a closed row's widths sum to the container width
    // within one unit per item.
    let mut layout = Layout::new(3, 100, 0);
    layout.set_dimension(0, 200, 100);
    layout.set_dimension(1, 100, 100);
    layout.set_dimension(2, 100, 200);
    let height = layout.compute_horizontal(300);
    // All three items land in one row that closes on the third.
    let sum: u32 = (0..3).map(|i| layout.get_transform(i).width as u32).sum();
    assert!(sum >= 300 - 3 && sum <= 300 + 3);
    assert_eq!(sum, 300);
    for i in 0..3 {
        assert_eq!(layout.get_transform(i).height, 86);
    }
    assert_eq!(height, 86);
}

#[test]
fn placements_stay_within_returned_bounds() {
    // No packer produces a left or top beyond the returned height or the
    // container width by more than one item's extent.
    let mut layout = three_item_layout();
    let hh = layout.compute_horizontal(300);
    for i in 0..3 {
        let t = layout.get_transform(i);
        assert!(t.top <= hh);
        assert!(t.left <= 300);
    }
    let vh = layout.compute_vertical(300);
    for i in 0..3 {
        let t = layout.get_transform(i);
        assert!(t.top <= vh);
        assert!(t.left + 100 <= 300 + 100);
    }
    let gh = layout.compute_grid(300);
    for i in 0..3 {
        let t = layout.get_transform(i);
        assert!(t.top < gh);
        assert!(t.left + 100 <= 300 + 100);
    }
}
