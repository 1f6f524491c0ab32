use layout_interface::choice::{first_hit, focus_flags, last_hit_below};

#[test]
fn first_hit_finds_first() {
    assert_eq!(first_hit(&vec![]), None);
    assert_eq!(first_hit(&vec![false, false]), None);
    assert_eq!(first_hit(&vec![false, true, true]), Some(1));
}

#[test]
fn last_hit_finds_topmost_below_bound() {
    assert_eq!(last_hit_below(&vec![true, false, true, true], 4), Some(3));
    assert_eq!(last_hit_below(&vec![true, false, true, true], 3), Some(2));
    assert_eq!(last_hit_below(&vec![true, false, true, true], 9), Some(3));
    assert_eq!(last_hit_below(&vec![false, true], 1), None);
    assert_eq!(last_hit_below(&vec![], 5), None);
}

#[test]
fn focus_goes_to_first_hit_only() {
    assert_eq!(focus_flags(&vec![false, true, true]), vec![false, true, false]);
    assert_eq!(focus_flags(&vec![false, false]), vec![false, false]);
    assert_eq!(focus_flags(&vec![]), Vec::<bool>::new());
    let f = focus_flags(&vec![true, true, true, true]);
    assert_eq!(f.iter().filter(|b| **b).count(), 1);
}
