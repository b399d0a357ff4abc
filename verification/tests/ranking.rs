use draft_contest::ranking::{
    find_top_n, is_ranked_before, min_heapify, sift_down, sort_descending,
};
use draft_contest::roi::Roi;

fn roi(value: f64) -> Roi {
    Roi::from_bits(value.to_bits())
}

fn value(roi: &Roi) -> f64 {
    f64::from_bits(roi.to_bits())
}

/// The reference: a full sort, best return first, lower index first among equals.
fn naive_ranking(entries: &[(usize, Roi)]) -> Vec<(usize, Roi)> {
    let mut sorted = entries.to_vec();
    sorted.sort_by(|a, b| value(&b.1).total_cmp(&value(&a.1)).then(a.0.cmp(&b.0)));
    sorted
}

fn next(state: &mut u64) -> u64 {
    *state = state.wrapping_mul(6364136223846793005).wrapping_add(1442695040888963407);
    *state >> 33
}

fn is_heap(arr: &[(usize, Roi)]) -> bool {
    (1..arr.len()).all(|c| !is_ranked_before(&arr[(c - 1) / 2], &arr[c]))
}

#[test]
fn top_two_of_four() {
    let entries = vec![(0usize, roi(1.5)), (1, roi(-2.0)), (2, roi(7.25)), (3, roi(3.0))];
    let winners = find_top_n(&entries, 2);
    assert_eq!(winners, vec![(2usize, roi(7.25)), (3, roi(3.0))]);
}

#[test]
fn fewer_entries_than_ranks_are_all_ranked() {
    let entries = vec![(0usize, roi(-1.0)), (1, roi(4.0))];
    let winners = find_top_n(&entries, 5);
    assert_eq!(winners, vec![(1usize, roi(4.0)), (0, roi(-1.0))]);
}

#[test]
fn as_many_entries_as_ranks_are_all_ranked() {
    let entries = vec![(0usize, roi(2.0)), (1, roi(9.0)), (2, roi(5.0))];
    let winners = find_top_n(&entries, 3);
    assert_eq!(winners, vec![(1usize, roi(9.0)), (2, roi(5.0)), (0, roi(2.0))]);
}

#[test]
fn no_entries_no_winners() {
    let entries: Vec<(usize, Roi)> = Vec::new();
    assert_eq!(find_top_n(&entries, 3), Vec::new());
    assert_eq!(find_top_n(&entries, 0), Vec::new());
}

#[test]
fn no_ranks_no_winners() {
    let entries = vec![(0usize, roi(2.0)), (1, roi(9.0))];
    assert_eq!(find_top_n(&entries, 0), Vec::new());
}

#[test]
fn equal_returns_go_to_the_lower_index() {
    let entries = vec![
        (0usize, roi(1.0)),
        (1, roi(5.0)),
        (2, roi(5.0)),
        (3, roi(5.0)),
        (4, roi(0.5)),
    ];
    assert_eq!(find_top_n(&entries, 2), vec![(1usize, roi(5.0)), (2, roi(5.0))]);
    assert_eq!(
        find_top_n(&entries, 4),
        vec![(1usize, roi(5.0)), (2, roi(5.0)), (3, roi(5.0)), (0, roi(1.0))]
    );
}

#[test]
fn equal_returns_in_any_order_of_arrival() {
    let entries = vec![(3usize, roi(5.0)), (1, roi(5.0)), (2, roi(5.0)), (0, roi(5.0))];
    assert_eq!(find_top_n(&entries, 2), vec![(0usize, roi(5.0)), (1, roi(5.0))]);
}

#[test]
fn top_n_equals_head_of_full_sort() {
    let mut state: u64 = 7;
    for round in 0..300 {
        let len = (next(&mut state) % 40) as usize;
        let n = (next(&mut state) % 12) as usize;
        let spread = 1 + next(&mut state) % 9;
        let entries: Vec<(usize, Roi)> = (0..len)
            .map(|i| {
                let raw = (next(&mut state) % (2 * spread + 1)) as f64 - spread as f64;
                (i, roi(raw * 1.25))
            })
            .collect();
        let expected: Vec<(usize, Roi)> =
            naive_ranking(&entries).into_iter().take(n).collect();
        assert_eq!(find_top_n(&entries, n), expected, "round {}", round);
    }
}

#[test]
fn top_n_with_wide_range_of_returns() {
    let mut state: u64 = 99;
    for _ in 0..100 {
        let len = 1 + (next(&mut state) % 60) as usize;
        let n = 1 + (next(&mut state) % 5) as usize;
        let entries: Vec<(usize, Roi)> = (0..len)
            .map(|i| {
                let raw = next(&mut state) as f64 / 1000.0 - 1_000_000.0;
                (i, roi(raw))
            })
            .collect();
        let expected: Vec<(usize, Roi)> =
            naive_ranking(&entries).into_iter().take(n).collect();
        assert_eq!(find_top_n(&entries, n), expected);
    }
}

#[test]
fn sort_descending_equals_full_sort() {
    let mut state: u64 = 3;
    for _ in 0..100 {
        let len = (next(&mut state) % 30) as usize;
        let entries: Vec<(usize, Roi)> =
            (0..len).map(|i| (i, roi((next(&mut state) % 7) as f64 - 3.0))).collect();
        assert_eq!(sort_descending(&entries), naive_ranking(&entries));
    }
}

#[test]
fn sort_descending_keeps_the_input() {
    let entries = vec![(0usize, roi(1.0)), (1, roi(2.0))];
    let sorted = sort_descending(&entries);
    assert_eq!(entries, vec![(0usize, roi(1.0)), (1, roi(2.0))]);
    assert_eq!(sorted, vec![(1usize, roi(2.0)), (0, roi(1.0))]);
}

#[test]
fn min_heapify_puts_the_last_ranked_at_the_root() {
    let mut state: u64 = 11;
    for _ in 0..100 {
        let len = (next(&mut state) % 30) as usize;
        let mut arr: Vec<(usize, Roi)> =
            (0..len).map(|i| (i, roi((next(&mut state) % 9) as f64))).collect();
        let before = arr.clone();
        min_heapify(&mut arr);
        assert!(is_heap(&arr));
        assert_eq!(naive_ranking(&arr), naive_ranking(&before));
        if len > 0 {
            assert_eq!(arr[0], *naive_ranking(&before).last().unwrap());
        }
    }
}

#[test]
fn sift_down_restores_the_heap_after_a_new_root() {
    let mut arr = vec![
        (0usize, roi(1.0)),
        (1, roi(3.0)),
        (2, roi(2.0)),
        (3, roi(7.0)),
        (4, roi(4.0)),
    ];
    assert!(is_heap(&arr));
    arr[0] = (5, roi(5.0));
    sift_down(&mut arr, 0);
    assert!(is_heap(&arr));
    assert_eq!(
        arr,
        vec![(2usize, roi(2.0)), (1, roi(3.0)), (5, roi(5.0)), (3, roi(7.0)), (4, roi(4.0))]
    );
}

#[test]
fn sift_down_past_the_end_changes_nothing() {
    let mut arr = vec![(0usize, roi(1.0)), (1, roi(3.0))];
    sift_down(&mut arr, 2);
    sift_down(&mut arr, usize::MAX);
    assert_eq!(arr, vec![(0usize, roi(1.0)), (1, roi(3.0))]);
}

#[test]
fn sift_down_moves_to_the_last_ranked_child() {
    let mut arr = vec![(0usize, roi(9.0)), (1, roi(3.0)), (2, roi(1.0))];
    sift_down(&mut arr, 0);
    assert_eq!(arr, vec![(2usize, roi(1.0)), (1, roi(3.0)), (0, roi(9.0))]);
}

#[test]
fn ranked_before_compares_return_then_index() {
    assert!(is_ranked_before(&(4, roi(2.0)), &(1, roi(1.0))));
    assert!(!is_ranked_before(&(1, roi(1.0)), &(4, roi(2.0))));
    assert!(is_ranked_before(&(1, roi(1.0)), &(4, roi(1.0))));
    assert!(!is_ranked_before(&(4, roi(1.0)), &(1, roi(1.0))));
    assert!(!is_ranked_before(&(4, roi(1.0)), &(4, roi(1.0))));
    assert!(is_ranked_before(&(9, roi(-1.0)), &(0, roi(-1.5))));
}

#[test]
fn roi_keys_follow_the_total_order_of_doubles() {
    let values = [
        f64::NEG_INFINITY,
        -1.0e300,
        -5.0,
        -1.0,
        -f64::MIN_POSITIVE,
        -0.0,
        0.0,
        f64::MIN_POSITIVE,
        0.3,
        1.0,
        4.0,
        1.0e300,
        f64::INFINITY,
        f64::NAN,
    ];
    for a in values {
        for b in values {
            assert_eq!(roi(a).order_key().cmp(&roi(b).order_key()), a.total_cmp(&b));
        }
    }
}

#[test]
fn roi_key_exact_values() {
    assert_eq!(Roi::from_bits(0).order_key(), 0);
    assert_eq!(Roi::from_bits(1).order_key(), 1);
    assert_eq!(Roi::from_bits(0x7fff_ffff_ffff_ffff).order_key(), i64::MAX);
    assert_eq!(Roi::from_bits(0x8000_0000_0000_0000).order_key(), -1);
    assert_eq!(Roi::from_bits(0x8000_0000_0000_0001).order_key(), -2);
    assert_eq!(Roi::from_bits(0xffff_ffff_ffff_ffff).order_key(), i64::MIN);
    assert_eq!(roi(4.0).to_bits(), 0x4010_0000_0000_0000);
}

#[test]
fn sift_down_changes_places_with_the_last_ranked_child_only() {
    let mut arr = vec![(0usize, roi(5.0)), (1, roi(1.0)), (2, roi(3.0))];
    sift_down(&mut arr, 0);
    assert_eq!(arr, vec![(1usize, roi(1.0)), (0, roi(5.0)), (2, roi(3.0))]);
}

#[test]
fn sift_down_leaves_the_other_subtrees_as_they_are() {
    let mut arr = vec![
        (0usize, roi(1.0)),
        (1, roi(9.0)),
        (2, roi(0.5)),
        (3, roi(4.0)),
        (4, roi(2.0)),
    ];
    sift_down(&mut arr, 1);
    assert_eq!(
        arr,
        vec![(0usize, roi(1.0)), (4, roi(2.0)), (2, roi(0.5)), (3, roi(4.0)), (1, roi(9.0))]
    );
}

#[test]
fn sift_down_sinks_through_several_levels() {
    let returns = [9.0, 1.0, 2.0, 3.0, 4.0, 5.0, 6.0, 7.0];
    let mut arr: Vec<(usize, Roi)> =
        returns.iter().enumerate().map(|(i, v)| (i, roi(*v))).collect();
    sift_down(&mut arr, 0);
    let values: Vec<f64> = arr.iter().map(|e| value(&e.1)).collect();
    assert_eq!(values, vec![1.0, 3.0, 2.0, 7.0, 4.0, 5.0, 6.0, 9.0]);
}

#[test]
fn sift_down_keeps_an_entry_that_is_ranked_like_its_child() {
    let mut arr = vec![(0usize, roi(2.0)), (0, roi(2.0)), (5, roi(2.0))];
    sift_down(&mut arr, 0);
    assert_eq!(arr, vec![(5usize, roi(2.0)), (0, roi(2.0)), (0, roi(2.0))]);
}
