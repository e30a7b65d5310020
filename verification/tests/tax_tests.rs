use rollover_planner::get_tax;

#[test]
fn tax_gt_510_300() {
    assert_eq!(153835, get_tax(510_400));
}

#[test]
fn tax_0() {
    assert_eq!(0, get_tax(0));
}

#[test]
fn tax_bracket_boundaries_give_exact_base_amounts() {
    assert_eq!(970, get_tax(9_700));
    assert_eq!(4_543, get_tax(39_475));
    assert_eq!(14_382, get_tax(84_200));
    assert_eq!(32_748, get_tax(160_725));
    assert_eq!(46_628, get_tax(204_100));
    assert_eq!(153_798, get_tax(510_300));
}

#[test]
fn tax_within_brackets() {
    // 10% bracket, floored: floor(55 * 0.10) == 5.
    assert_eq!(5, get_tax(55));
    // 12% bracket: 970 + 0.12 * (10,000 - 9,700) == 1,006.
    assert_eq!(1_006, get_tax(10_000));
    // 22% bracket: 4,543 + 0.22 * (50,000 - 39,475) == 6,858.50, floored.
    assert_eq!(6_858, get_tax(50_000));
}

#[test]
fn tax_is_non_decreasing() {
    let mut previous: u32 = 0;
    let mut income: u32 = 0;
    while income <= 600_000 {
        let t = get_tax(income);
        assert!(t >= previous);
        previous = t;
        income += 97;
    }
}
