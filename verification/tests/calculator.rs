use noir_atelier::calculator::{
    apply_number_input, calculate, recommend_size, toggle_selected, CalcField, OutfitCalcState,
};

fn state(selected: &[&str], budget: i64, discount: i64, months: i64, chest_cm: i64) -> OutfitCalcState {
    OutfitCalcState {
        budget,
        discount,
        months,
        chest_cm,
        selected: selected.iter().map(|s| s.to_string()).collect(),
    }
}

#[test]
fn default_state_is_coat_and_hoodie() {
    let s = OutfitCalcState::default();
    assert_eq!(s.budget, 50_000);
    assert_eq!(s.discount, 10);
    assert_eq!(s.months, 6);
    assert_eq!(s.chest_cm, 96);
    assert_eq!(s.selected, vec!["coat".to_string(), "hoodie".to_string()]);
}

#[test]
fn default_state_prices_the_outfit() {
    let r = calculate(&OutfitCalcState::default());
    assert_eq!(r.subtotal, 34_700);
    assert_eq!(r.total, 31_230);
    assert_eq!(r.monthly, 5_205);
    assert_eq!(r.balance, 18_770);
    assert_eq!(r.size, "M");
}

#[test]
fn discount_is_bounded_to_seventy_percent() {
    let r = calculate(&state(&["coat"], 0, 90, 1, 96));
    assert_eq!(r.subtotal, 24_900);
    assert_eq!(r.total, 24_900 - 24_900 * 70 / 100);
    let r = calculate(&state(&["coat"], 0, -5, 1, 96));
    assert_eq!(r.total, 24_900);
}

#[test]
fn months_are_bounded_to_one_and_twenty_four() {
    let r = calculate(&state(&["bag"], 0, 0, 0, 96));
    assert_eq!(r.monthly, 7_900);
    let r = calculate(&state(&["bag"], 0, 0, 30, 96));
    assert_eq!(r.monthly, (7_900 + 23) / 24);
}

#[test]
fn nothing_selected_costs_nothing() {
    let r = calculate(&state(&[], 1_000, 10, 6, 80));
    assert_eq!(r.subtotal, 0);
    assert_eq!(r.total, 0);
    assert_eq!(r.monthly, 0);
    assert_eq!(r.balance, 1_000);
    assert_eq!(r.size, "XS");
}

#[test]
fn repeated_and_unknown_ids_do_not_count_twice() {
    let once = calculate(&state(&["jacket", "boots"], 0, 0, 1, 96));
    let again = calculate(&state(&["boots", "jacket", "boots", "scarf"], 0, 0, 1, 96));
    assert_eq!(once.subtotal, 33_900);
    assert_eq!(again.subtotal, 33_900);
}

#[test]
fn everything_selected_costs_the_catalogue() {
    let r = calculate(&state(&["coat", "hoodie", "trousers", "jacket", "bag", "boots"], 100_000, 0, 24, 120));
    assert_eq!(r.subtotal, 88_900);
    assert_eq!(r.balance, 11_100);
    assert_eq!(r.size, "XL");
    assert!(r.monthly * 24 >= r.total && r.monthly * 24 < r.total + 24);
}

#[test]
fn balance_can_go_negative() {
    let r = calculate(&state(&["coat"], 10_000, 0, 1, 96));
    assert_eq!(r.balance, -14_900);
}

#[test]
fn instalments_round_up() {
    // 9 800 over 24 months is 408.33..., paid as 409.
    let r = calculate(&state(&["hoodie"], 0, 0, 24, 96));
    assert_eq!(r.monthly, 409);
}

#[test]
fn sizes_follow_the_chest_girth() {
    assert_eq!(recommend_size(70), "XS");
    assert_eq!(recommend_size(85), "XS");
    assert_eq!(recommend_size(86), "S");
    assert_eq!(recommend_size(93), "S");
    assert_eq!(recommend_size(94), "M");
    assert_eq!(recommend_size(101), "M");
    assert_eq!(recommend_size(102), "L");
    assert_eq!(recommend_size(109), "L");
    assert_eq!(recommend_size(110), "XL");
    assert_eq!(recommend_size(i64::MIN), "XS");
    assert_eq!(recommend_size(i64::MAX), "XL");
}

#[test]
fn toggling_selects_and_deselects() {
    let mut selected = vec!["coat".to_string()];
    toggle_selected(&mut selected, "bag");
    assert_eq!(selected, vec!["coat".to_string(), "bag".to_string()]);
    toggle_selected(&mut selected, "bag");
    assert_eq!(selected, vec!["coat".to_string()]);
}

#[test]
fn toggling_removes_every_copy() {
    let mut selected = vec!["coat".to_string(), "bag".to_string(), "coat".to_string()];
    toggle_selected(&mut selected, "coat");
    assert_eq!(selected, vec!["bag".to_string()]);
}

#[test]
fn number_inputs_fill_their_field() {
    let mut s = OutfitCalcState::default();
    apply_number_input(&mut s, CalcField::Budget, "120000");
    apply_number_input(&mut s, CalcField::Discount, "-5");
    apply_number_input(&mut s, CalcField::Months, "+12");
    apply_number_input(&mut s, CalcField::Chest, "101");
    assert_eq!((s.budget, s.discount, s.months, s.chest_cm), (120_000, -5, 12, 101));
    assert_eq!(s.selected, vec!["coat".to_string(), "hoodie".to_string()]);
}

#[test]
fn text_that_is_no_number_counts_as_zero() {
    let mut s = OutfitCalcState::default();
    for text in ["", "abc", " 5", "5 ", "-", "+", "1e3", "12,5", "9223372036854775808", "٣"] {
        s.budget = 7;
        apply_number_input(&mut s, CalcField::Budget, text);
        assert_eq!(s.budget, 0, "{text:?}");
    }
}

#[test]
fn number_inputs_reach_the_limits_of_i64() {
    let mut s = OutfitCalcState::default();
    apply_number_input(&mut s, CalcField::Budget, "9223372036854775807");
    assert_eq!(s.budget, i64::MAX);
    apply_number_input(&mut s, CalcField::Budget, "-9223372036854775808");
    assert_eq!(s.budget, i64::MIN);
    apply_number_input(&mut s, CalcField::Budget, "-9223372036854775809");
    assert_eq!(s.budget, 0);
    apply_number_input(&mut s, CalcField::Budget, "007");
    assert_eq!(s.budget, 7);
}

#[test]
fn number_inputs_agree_with_std_parse() {
    for text in ["0", "-0", "+0", "42", "-17", "1234567890123", "--1", "+-1", "99999999999999999999"] {
        let mut s = OutfitCalcState::default();
        apply_number_input(&mut s, CalcField::Months, text);
        assert_eq!(s.months, text.parse::<i64>().unwrap_or(0), "{text:?}");
    }
}

#[test]
fn checked_calculation_refuses_an_overflowing_balance() {
    let ok = noir_atelier::calculator::calculate_checked(&OutfitCalcState::default()).unwrap();
    assert_eq!(ok.balance, 18_770);
    assert!(noir_atelier::calculator::calculate_checked(&state(&["coat"], i64::MIN, 0, 1, 96)).is_none());
    let r = noir_atelier::calculator::calculate_checked(&state(&[], i64::MIN, 0, 1, 96)).unwrap();
    assert_eq!(r.balance, i64::MIN);
    let r = noir_atelier::calculator::calculate_checked(&state(&["bag"], i64::MIN + 7_900, 0, 1, 96)).unwrap();
    assert_eq!(r.balance, i64::MIN);
}

#[test]
fn calculator_offers_the_first_four_articles() {
    let ids: Vec<&str> = noir_atelier::calculator::selectable_products().iter().map(|p| p.id).collect();
    assert_eq!(ids, vec!["coat", "hoodie", "trousers", "jacket"]);
}

#[test]
fn a_number_shown_in_the_form_reads_back_unchanged() {
    for v in [0, 5, -5, 50_000, -1_000_000, i64::MAX, i64::MIN] {
        let mut s = OutfitCalcState::default();
        let shown = noir_atelier::text::signed_decimal_string(v);
        assert_eq!(shown, v.to_string());
        apply_number_input(&mut s, CalcField::Chest, &shown);
        assert_eq!(s.chest_cm, v);
    }
}

#[test]
fn unknown_ids_and_order_do_not_change_the_result() {
    let a = calculate(&state(&["coat", "bag"], 70_000, 15, 5, 100));
    let b = calculate(&state(&["bag", "scarf", "coat", "bag"], 70_000, 15, 5, 100));
    assert_eq!(a, b);
}

#[test]
fn more_discount_or_months_never_costs_more() {
    let mut previous = calculate(&state(&["coat", "jacket"], 60_000, 0, 1, 96));
    for (discount, months) in [(5, 1), (5, 3), (20, 3), (20, 12), (70, 24), (90, 30)] {
        let r = calculate(&state(&["coat", "jacket"], 60_000, discount, months, 96));
        assert_eq!(r.subtotal, previous.subtotal);
        assert!(r.total <= previous.total);
        assert!(r.monthly <= previous.monthly);
        assert!(r.balance >= previous.balance);
        assert_eq!(r.size, previous.size);
        previous = r;
    }
}
