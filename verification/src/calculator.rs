use vstd::prelude::*;
use vstd::string::*;

use crate::models::{catalog_id, catalog_len, catalog_price, catalog_row, product_row, products, Product};
use crate::text::{parse_i64, parsed_i64, str_eq};

verus! {

/// What the outfit calculator is given: a budget in roubles, a discount in
/// percent, a number of monthly instalments, the chest girth in centimetres
/// and the identifiers of the selected articles.
#[derive(Clone, Debug, PartialEq)]
pub struct OutfitCalcState {
    pub budget: i64,
    pub discount: i64,
    pub months: i64,
    pub chest_cm: i64,
    pub selected: Vec<String>,
}

/// What the outfit calculator answers.
#[derive(Clone, Debug, PartialEq)]
pub struct OutfitCalcResult {
    pub subtotal: i64,
    pub total: i64,
    pub monthly: i64,
    pub balance: i64,
    pub size: &'static str,
}

/// The selected identifiers, each taken by its characters.
pub open spec fn id_views(selected: Seq<String>) -> Seq<Seq<char>> {
    selected.map_values(|s: String| s@)
}

/// `v` bounded to the range `lo..=hi`.
pub open spec fn clamp_to(v: int, lo: int, hi: int) -> int {
    if v < lo {
        lo
    } else if v > hi {
        hi
    } else {
        v
    }
}

/// The sum of the prices of the first `n` catalogue articles whose
/// identifier occurs among `ids`.
pub open spec fn selected_subtotal(ids: Seq<Seq<char>>, n: int) -> int
    decreases n,
{
    if n <= 0 {
        0
    } else {
        selected_subtotal(ids, n - 1) + if ids.contains(catalog_id(n - 1)) {
            catalog_price(n - 1)
        } else {
            0
        }
    }
}

/// The price after a discount of `discount` percent, the discount itself
/// rounded down to whole roubles.
pub open spec fn discounted(subtotal: int, discount: int) -> int {
    subtotal - (subtotal * discount) / 100
}

/// The monthly instalment that pays `total` in `months` payments, rounded up.
pub open spec fn instalment(total: int, months: int) -> int {
    if total <= 0 {
        0
    } else {
        (total + months - 1) / months
    }
}

/// The size label recommended for a chest girth given in centimetres.
pub open spec fn size_for_chest(chest_cm: int) -> Seq<char> {
    if chest_cm < 86 {
        "XS"@
    } else if chest_cm < 94 {
        "S"@
    } else if chest_cm < 102 {
        "M"@
    } else if chest_cm < 110 {
        "L"@
    } else {
        "XL"@
    }
}

impl OutfitCalcState {
    /// The price of the selected articles before the discount.
    pub open spec fn spec_subtotal(&self) -> int {
        selected_subtotal(id_views(self.selected@), catalog_len() as int)
    }

    /// The discount in percent that applies: the one asked for, bounded to `0..=70`.
    pub open spec fn spec_discount(&self) -> int {
        clamp_to(self.discount as int, 0, 70)
    }

    /// The number of instalments that applies: the one asked for, bounded to `1..=24`.
    pub open spec fn spec_months(&self) -> int {
        clamp_to(self.months as int, 1, 24)
    }

    /// The price after the discount.
    pub open spec fn spec_total(&self) -> int {
        discounted(self.spec_subtotal(), self.spec_discount())
    }

    /// The monthly instalment.
    pub open spec fn spec_monthly(&self) -> int {
        instalment(self.spec_total(), self.spec_months())
    }

    /// What is left of the budget once the outfit is paid.
    pub open spec fn spec_balance(&self) -> int {
        self.budget - self.spec_total()
    }
}

impl Default for OutfitCalcState {
    /// A budget of 50 000, a discount of 10 %, six instalments, a chest of
    /// 96 cm, and the coat and the hoodie selected.
    fn default() -> (state: Self)
        ensures
            state.budget == 50_000,
            state.discount == 10,
            state.months == 6,
            state.chest_cm == 96,
            id_views(state.selected@) == seq!["coat"@, "hoodie"@],
    {
        let state = OutfitCalcState {
            budget: 50_000,
            discount: 10,
            months: 6,
            chest_cm: 96,
            selected: vec![String::from_str("coat"), String::from_str("hoodie")],
        };
        assert(id_views(state.selected@) =~= seq!["coat"@, "hoodie"@]);
        state
    }
}

/// Whether `id` is among the selected identifiers.
pub fn is_selected(selected: &Vec<String>, id: &str) -> (found: bool)
    ensures
        found == id_views(selected@).contains(id@),
{
    let mut i: usize = 0;
    while i < selected.len()
        invariant
            i <= selected.len(),
            forall|k: int| 0 <= k < i ==> selected@[k]@ != id@,
        decreases selected.len() - i,
    {
        if str_eq(selected[i].as_str(), id) {
            assert(id_views(selected@)[i as int] == id@);
            return true;
        }
        i = i + 1;
    }
    assert(!id_views(selected@).contains(id@)) by {
        if id_views(selected@).contains(id@) {
            let k = choose|k: int| 0 <= k < id_views(selected@).len() && id_views(selected@)[k] == id@;
            assert(selected@[k]@ == id@);
        }
    }
    false
}

/// `v` bounded to the range `lo..=hi`.
fn clamp_i64(v: i64, lo: i64, hi: i64) -> (r: i64)
    requires
        lo <= hi,
    ensures
        r == clamp_to(v as int, lo as int, hi as int),
{
    if v < lo {
        lo
    } else if v > hi {
        hi
    } else {
        v
    }
}

/// The partial sums of the catalogue prices stay within the sum of all prices.
proof fn lemma_subtotal_bounds(ids: Seq<Seq<char>>, n: int)
    requires
        0 <= n <= catalog_len(),
    ensures
        0 <= selected_subtotal(ids, n) <= 25_000 * n,
    decreases n,
{
    if n > 0 {
        lemma_subtotal_bounds(ids, n - 1);
    }
}

/// The subtotal, total and monthly instalment of the selected outfit.
fn outfit_totals(state: &OutfitCalcState) -> (totals: (i64, i64, i64))
    ensures
        totals.0 == state.spec_subtotal(),
        totals.1 == state.spec_total(),
        totals.2 == state.spec_monthly(),
        0 <= totals.1 <= totals.0,
{
    let list = products();
    let ghost ids = id_views(state.selected@);
    let mut subtotal: i64 = 0;
    let mut i: usize = 0;
    while i < list.len()
        invariant
            list@.len() == catalog_len(),
            forall|k: int| 0 <= k < catalog_len() ==> #[trigger] product_row(list@[k]) == catalog_row(k),
            ids == id_views(state.selected@),
            i <= list.len(),
            subtotal == selected_subtotal(ids, i as int),
        decreases list.len() - i,
    {
        assert(product_row(list@[i as int]) == catalog_row(i as int));
        proof {
            lemma_subtotal_bounds(ids, i as int + 1);
        }
        if is_selected(&state.selected, list[i].id) {
            subtotal = subtotal + list[i].price;
        }
        i = i + 1;
    }
    proof {
        lemma_subtotal_bounds(ids, catalog_len() as int);
    }
    let discount = clamp_i64(state.discount, 0, 70);
    let months = clamp_i64(state.months, 1, 24);
    assert(0 <= subtotal * discount <= 150_000 * 70) by (nonlinear_arith)
        requires
            0 <= subtotal <= 150_000,
            0 <= discount <= 70,
    ;
    let total = subtotal - subtotal * discount / 100;
    assert(0 <= total <= subtotal) by (nonlinear_arith)
        requires
            0 <= subtotal,
            0 <= discount <= 70,
            total == subtotal - subtotal * discount / 100,
    ;
    let monthly = if total <= 0 {
        0
    } else {
        (total + months - 1) / months
    };
    (subtotal, total, monthly)
}

/// Prices the selected outfit: the subtotal of the selected catalogue articles,
/// the total after the discount (bounded to `0..=70` percent), the monthly
/// instalment over `1..=24` months rounded up, the balance left of the budget,
/// and the recommended size.
pub fn calculate(state: &OutfitCalcState) -> (result: OutfitCalcResult)
    requires
        state.spec_balance() >= i64::MIN,
    ensures
        result.subtotal == state.spec_subtotal(),
        result.total == state.spec_total(),
        result.monthly == state.spec_monthly(),
        result.balance == state.spec_balance(),
        result.size@ == size_for_chest(state.chest_cm as int),
{
    let (subtotal, total, monthly) = outfit_totals(state);
    OutfitCalcResult {
        subtotal,
        total,
        monthly,
        balance: state.budget - total,
        size: recommend_size(state.chest_cm),
    }
}

/// Prices the selected outfit as `calculate` does, where the balance fits in
/// an `i64`; `None` where it does not (a budget within the price of the
/// outfit above `i64::MIN`).
pub fn calculate_checked(state: &OutfitCalcState) -> (result: Option<OutfitCalcResult>)
    ensures
        result is None <==> state.spec_balance() < i64::MIN,
        result matches Some(r) ==> {
            &&& r.subtotal == state.spec_subtotal()
            &&& r.total == state.spec_total()
            &&& r.monthly == state.spec_monthly()
            &&& r.balance == state.spec_balance()
            &&& r.size@ == size_for_chest(state.chest_cm as int)
        },
{
    let (subtotal, total, monthly) = outfit_totals(state);
    match state.budget.checked_sub(total) {
        Some(balance) => Some(
            OutfitCalcResult { subtotal, total, monthly, balance, size: recommend_size(state.chest_cm) },
        ),
        None => None,
    }
}

/// The articles that the calculator offers to combine: the first four of the catalogue.
pub fn selectable_products() -> (list: Vec<Product>)
    ensures
        list@.len() == 4,
        forall|i: int| 0 <= i < 4 ==> #[trigger] product_row(list@[i]) == catalog_row(i),
{
    let all = products();
    let mut list: Vec<Product> = Vec::new();
    let mut i: usize = 0;
    while i < 4
        invariant
            all@.len() == catalog_len(),
            forall|k: int| 0 <= k < catalog_len() ==> #[trigger] product_row(all@[k]) == catalog_row(k),
            i <= 4,
            list@ == all@.take(i as int),
        decreases 4 - i,
    {
        list.push(all[i]);
        i = i + 1;
        assert(list@ =~= all@.take(i as int));
    }
    assert forall|k: int| 0 <= k < 4 implies #[trigger] product_row(list@[k]) == catalog_row(k) by {
        assert(list@[k] == all@[k]);
    }
    list
}

/// Recommends a clothing size from the chest girth in centimetres.
pub fn recommend_size(chest_cm: i64) -> (size: &'static str)
    ensures
        size@ == size_for_chest(chest_cm as int),
{
    if chest_cm < 86 {
        "XS"
    } else if chest_cm < 94 {
        "S"
    } else if chest_cm < 102 {
        "M"
    } else if chest_cm < 110 {
        "L"
    } else {
        "XL"
    }
}

/// The size labels from the smallest to the largest.
pub open spec fn size_order() -> Seq<Seq<char>> {
    seq!["XS"@, "S"@, "M"@, "L"@, "XL"@]
}

/// The position in `size_order` of the size recommended for a chest girth.
pub open spec fn size_rank(chest_cm: int) -> int {
    if chest_cm < 86 {
        0
    } else if chest_cm < 94 {
        1
    } else if chest_cm < 102 {
        2
    } else if chest_cm < 110 {
        3
    } else {
        4
    }
}

/// A larger chest girth never gets a smaller size: the recommended label is
/// the one at `size_rank` in `size_order`, and that rank grows with the girth.
pub proof fn lemma_size_monotone(a: int, b: int)
    requires
        a <= b,
    ensures
        size_for_chest(a) == size_order()[size_rank(a)],
        size_for_chest(b) == size_order()[size_rank(b)],
        0 <= size_rank(a) <= size_rank(b) < 5,
{
}

/// The discount never makes the outfit cost more than its subtotal, nor less
/// than 30 % of it, and the price never goes below zero.
pub proof fn lemma_total_within_subtotal(state: OutfitCalcState)
    ensures
        0 <= state.spec_total() <= state.spec_subtotal(),
        state.spec_total() * 100 >= state.spec_subtotal() * 30,
{
    lemma_subtotal_bounds(id_views(state.selected@), catalog_len() as int);
    let s = state.spec_subtotal();
    let d = state.spec_discount();
    assert(0 <= s - (s * d) / 100 <= s && (s - (s * d) / 100) * 100 >= s * 30) by (nonlinear_arith)
        requires
            0 <= s,
            0 <= d <= 70,
    ;
}

/// The instalments pay the whole total, and overpay it by less than one month:
/// `monthly * months` is at least the total and less than the total plus the
/// number of months; nothing is to pay monthly exactly when nothing is to pay.
pub proof fn lemma_instalments_cover_total(state: OutfitCalcState)
    ensures
        state.spec_monthly() * state.spec_months() >= state.spec_total(),
        state.spec_total() > 0 ==> state.spec_monthly() * state.spec_months() < state.spec_total()
            + state.spec_months(),
        state.spec_monthly() == 0 <==> state.spec_total() == 0,
{
    lemma_total_within_subtotal(state);
    let t = state.spec_total();
    let m = state.spec_months();
    if t > 0 {
        let q = (t + m - 1) / m;
        assert(q * m >= t && q * m < t + m && q > 0) by (nonlinear_arith)
            requires
                t > 0,
                1 <= m <= 24,
                q == (t + m - 1) / m,
        ;
    }
}

/// Whether two selections agree on every catalogue article: each article is
/// selected in both or in neither. Order, repetitions and unknown identifiers
/// may differ.
pub open spec fn same_catalogue_selection(a: Seq<Seq<char>>, b: Seq<Seq<char>>) -> bool {
    forall|i: int| 0 <= i < catalog_len() ==> (a.contains(#[trigger] catalog_id(i)) <==> b.contains(catalog_id(i)))
}

/// The subtotal depends only on which catalogue articles are selected: neither
/// the order of the identifiers, nor repetitions, nor unknown identifiers count.
pub proof fn lemma_subtotal_ignores_order(a: OutfitCalcState, b: OutfitCalcState)
    requires
        same_catalogue_selection(id_views(a.selected@), id_views(b.selected@)),
    ensures
        a.spec_subtotal() == b.spec_subtotal(),
{
    lemma_same_ids_same_subtotal(id_views(a.selected@), id_views(b.selected@), catalog_len() as int);
}

proof fn lemma_same_ids_same_subtotal(x: Seq<Seq<char>>, y: Seq<Seq<char>>, n: int)
    requires
        same_catalogue_selection(x, y),
        n <= catalog_len(),
    ensures
        selected_subtotal(x, n) == selected_subtotal(y, n),
    decreases n,
{
    if n > 0 {
        lemma_same_ids_same_subtotal(x, y, n - 1);
        assert(x.contains(catalog_id(n - 1)) <==> y.contains(catalog_id(n - 1)));
    }
}

/// Two forms with the same numbers that select the same catalogue articles,
/// in whatever order, with whatever repetitions or unknown identifiers, are
/// priced alike: same subtotal, total, instalment, balance and size.
pub proof fn lemma_calculation_depends_on_catalogue_selection(a: OutfitCalcState, b: OutfitCalcState)
    requires
        a.budget == b.budget,
        a.discount == b.discount,
        a.months == b.months,
        a.chest_cm == b.chest_cm,
        same_catalogue_selection(id_views(a.selected@), id_views(b.selected@)),
    ensures
        a.spec_subtotal() == b.spec_subtotal(),
        a.spec_total() == b.spec_total(),
        a.spec_monthly() == b.spec_monthly(),
        a.spec_balance() == b.spec_balance(),
        size_for_chest(a.chest_cm as int) == size_for_chest(b.chest_cm as int),
{
    lemma_subtotal_ignores_order(a, b);
}

/// Raising the discount or the number of instalments never makes the outfit
/// cost more: the subtotal and the size stay, the total and the instalment do
/// not grow, and the balance does not shrink.
pub proof fn lemma_more_discount_or_months_never_costs_more(a: OutfitCalcState, b: OutfitCalcState)
    requires
        a.budget == b.budget,
        a.chest_cm == b.chest_cm,
        a.selected@ == b.selected@,
        a.discount <= b.discount,
        a.months <= b.months,
    ensures
        b.spec_subtotal() == a.spec_subtotal(),
        b.spec_total() <= a.spec_total(),
        b.spec_monthly() <= a.spec_monthly(),
        b.spec_balance() >= a.spec_balance(),
        size_for_chest(b.chest_cm as int) == size_for_chest(a.chest_cm as int),
{
    lemma_subtotal_bounds(id_views(a.selected@), catalog_len() as int);
    lemma_total_within_subtotal(a);
    lemma_total_within_subtotal(b);
    let s = a.spec_subtotal();
    let d1 = a.spec_discount();
    let d2 = b.spec_discount();
    assert(d1 <= d2);
    assert(s * d1 / 100 <= s * d2 / 100) by (nonlinear_arith)
        requires
            0 <= s,
            0 <= d1 <= d2,
    {
        assert(s * d1 <= s * d2);
    }
    let t1 = a.spec_total();
    let t2 = b.spec_total();
    let m1 = a.spec_months();
    let m2 = b.spec_months();
    assert(1 <= m1 <= m2);
    lemma_instalments_cover_total(a);
    lemma_instalments_cover_total(b);
    let q1 = a.spec_monthly();
    let q2 = b.spec_monthly();
    if t2 > 0 {
        assert(q2 <= q1) by (nonlinear_arith)
            requires
                0 < t2 <= t1,
                1 <= m1 <= m2,
                q1 * m1 >= t1,
                q2 * m2 < t2 + m2,
                q1 >= 0,
        {
            assert(q1 * m2 >= q1 * m1);
            assert((q2 - 1) * m2 < t2);
            assert((q2 - 1) * m2 < q1 * m2);
        }
    }
}

/// Nothing selected costs nothing; everything selected costs the sum of the
/// catalogue, 88 900; any selection costs between the two.
pub proof fn lemma_subtotal_range(state: OutfitCalcState)
    ensures
        0 <= state.spec_subtotal() <= 88_900,
        state.selected@.len() == 0 ==> state.spec_subtotal() == 0,
        (forall|i: int| 0 <= i < catalog_len() ==> id_views(state.selected@).contains(catalog_id(i)))
            ==> state.spec_subtotal() == 88_900,
{
    let ids = id_views(state.selected@);
    lemma_subtotal_bounds(ids, catalog_len() as int);
    assert(selected_subtotal(ids, 0) == 0);
    assert(selected_subtotal(ids, 1) <= 24_900);
    assert(selected_subtotal(ids, 2) <= 34_700);
    assert(selected_subtotal(ids, 3) <= 47_100);
    assert(selected_subtotal(ids, 4) <= 66_700);
    assert(selected_subtotal(ids, 5) <= 74_600);
    if state.selected@.len() == 0 {
        assert(forall|id: Seq<char>| !ids.contains(id));
        assert(selected_subtotal(ids, 6) == 0) by {
            reveal_with_fuel(selected_subtotal, 7);
        }
    }
    if forall|i: int| 0 <= i < catalog_len() ==> ids.contains(catalog_id(i)) {
        assert(ids.contains(catalog_id(0)));
        assert(ids.contains(catalog_id(1)));
        assert(ids.contains(catalog_id(2)));
        assert(ids.contains(catalog_id(3)));
        assert(ids.contains(catalog_id(4)));
        assert(ids.contains(catalog_id(5)));
        assert(selected_subtotal(ids, 6) == 88_900) by {
            reveal_with_fuel(selected_subtotal, 7);
        }
    }
}

/// The predicate of being another identifier than `id`.
pub open spec fn other_than(id: Seq<char>) -> spec_fn(Seq<char>) -> bool {
    |x: Seq<char>| x != id
}

/// `ids` without any occurrence of `id`.
pub open spec fn without_id(ids: Seq<Seq<char>>, id: Seq<char>) -> Seq<Seq<char>> {
    ids.filter(other_than(id))
}

/// Selects an article in the calculator, or deselects it where it is selected
/// already: every occurrence of its identifier is then removed, else the
/// identifier is appended.
pub fn toggle_selected(selected: &mut Vec<String>, id: &str)
    ensures
        id_views(old(selected)@).contains(id@) ==> id_views(final(selected)@) == without_id(
            id_views(old(selected)@),
            id@,
        ),
        !id_views(old(selected)@).contains(id@) ==> id_views(final(selected)@) == id_views(
            old(selected)@,
        ).push(id@),
{
    let ghost before = id_views(selected@);
    if is_selected(selected, id) {
        let mut kept: Vec<String> = Vec::new();
        let mut i: usize = 0;
        while i < selected.len()
            invariant
                i <= selected.len(),
                before == id_views(selected@),
                id_views(kept@) == without_id(before.take(i as int), id@),
            decreases selected.len() - i,
        {
            let ghost kept_before = id_views(kept@);
            assert(before.take(i + 1).drop_last() =~= before.take(i as int));
            assert(before.take(i + 1).last() == selected@[i as int]@);
            assert(without_id(before.take(i + 1), id@) == if before.take(i + 1).last() != id@ {
                without_id(before.take(i as int), id@).push(before.take(i + 1).last())
            } else {
                without_id(before.take(i as int), id@)
            }) by {
                reveal(Seq::filter);
            }
            if !str_eq(selected[i].as_str(), id) {
                let copy = selected[i].clone();
                kept.push(copy);
                assert(id_views(kept@) =~= kept_before.push(selected@[i as int]@));
            }
            i = i + 1;
        }
        assert(before.take(selected@.len() as int) =~= before);
        *selected = kept;
    } else {
        selected.push(String::from_str(id));
        assert(id_views(selected@) =~= before.push(id@));
    }
}

/// A filter that keeps every element gives the sequence back.
proof fn lemma_filter_keeps_all<A>(s: Seq<A>, p: spec_fn(A) -> bool)
    requires
        forall|i: int| 0 <= i < s.len() ==> p(#[trigger] s[i]),
    ensures
        s.filter(p) == s,
    decreases s.len(),
{
    reveal(Seq::filter);
    if s.len() > 0 {
        lemma_filter_keeps_all(s.drop_last(), p);
        assert(p(s[s.len() - 1]));
        assert(s.drop_last().push(s.last()) =~= s);
    }
}

/// A toggle flips whether an article is selected; toggling an article that is
/// not selected twice gives the selection back as it was.
pub proof fn lemma_toggle_selected_flips(ids: Seq<Seq<char>>, id: Seq<char>)
    ensures
        !without_id(ids, id).contains(id),
        ids.push(id).contains(id),
        !ids.contains(id) ==> without_id(ids.push(id), id) == ids,
{
    broadcast use Seq::lemma_filter_pred;
    let p = other_than(id);
    if without_id(ids, id).contains(id) {
        let k = choose|k: int| 0 <= k < without_id(ids, id).len() && without_id(ids, id)[k] == id;
        assert(p(ids.filter(p)[k]));
    }
    assert(ids.push(id)[ids.len() as int] == id);
    if !ids.contains(id) {
        assert forall|i: int| 0 <= i < ids.len() implies p(#[trigger] ids[i]) by {
            if ids[i] == id {
                assert(ids.contains(id));
            }
        }
        lemma_filter_keeps_all(ids, p);
        assert(ids.push(id).drop_last() =~= ids);
        assert(ids.push(id).filter(p) == ids.filter(p)) by {
            reveal(Seq::filter);
        }
    }
}

/// The numeric fields of the calculator form.
#[derive(Clone, Copy, Debug, PartialEq, Eq)]
pub enum CalcField {
    Budget,
    Discount,
    Months,
    Chest,
}

/// What the calculator reads from the text of a numeric field: the number it
/// holds, or 0 where it holds none that fits an `i64`.
pub open spec fn input_number(text: Seq<char>) -> int {
    match parsed_i64(text) {
        Some(v) => v,
        None => 0,
    }
}

/// Stores the number typed into a field of the calculator form; text that is
/// not a number counts as 0. The other fields stay as they were.
pub fn apply_number_input(state: &mut OutfitCalcState, field: CalcField, text: &str)
    ensures
        final(state).budget == if field == CalcField::Budget {
            input_number(text@)
        } else {
            old(state).budget as int
        },
        final(state).discount == if field == CalcField::Discount {
            input_number(text@)
        } else {
            old(state).discount as int
        },
        final(state).months == if field == CalcField::Months {
            input_number(text@)
        } else {
            old(state).months as int
        },
        final(state).chest_cm == if field == CalcField::Chest {
            input_number(text@)
        } else {
            old(state).chest_cm as int
        },
        final(state).selected == old(state).selected,
{
    let value = match parse_i64(text) {
        Some(v) => v,
        None => 0,
    };
    match field {
        CalcField::Budget => state.budget = value,
        CalcField::Discount => state.discount = value,
        CalcField::Months => state.months = value,
        CalcField::Chest => state.chest_cm = value,
    }
}

/// The discount applies at every subtotal: the amount taken off is the
/// subtotal times the discount asked for (bounded to `0..=70` percent),
/// divided by 100 and rounded down to whole roubles. So any positive discount
/// on a subtotal of at least 100 roubles lowers the price.
pub proof fn lemma_discount_applies_at_every_subtotal(state: OutfitCalcState)
    ensures
        ({
            let d: int = if state.discount < 0 {
                0
            } else if state.discount > 70 {
                70
            } else {
                state.discount as int
            };
            let s = state.spec_subtotal();
            let t = state.spec_total();
            &&& 100 * (s - t) <= s * d < 100 * (s - t) + 100
            &&& (s >= 100 && d > 0 ==> t < s)
        }),
{
    lemma_subtotal_bounds(id_views(state.selected@), catalog_len() as int);
    let d: int = if state.discount < 0 {
        0
    } else if state.discount > 70 {
        70
    } else {
        state.discount as int
    };
    let s = state.spec_subtotal();
    assert(d == state.spec_discount());
    let q = (s * d) / 100;
    assert(100 * q <= s * d < 100 * q + 100) by (nonlinear_arith)
        requires
            q == (s * d) / 100,
            0 <= s,
            0 <= d,
    ;
    assert(s >= 100 && d > 0 ==> s * d >= 100) by (nonlinear_arith)
        requires
            0 <= d,
    ;
}

/// The instalments are taken over exactly the number of months asked for,
/// bounded to `1..=24`: the monthly payment times that number covers the
/// total and exceeds it by less than one payment period's worth of roubles,
/// and there is nothing to pay monthly when the total is nothing.
pub proof fn lemma_instalments_use_the_months_asked_for(state: OutfitCalcState)
    ensures
        ({
            let m: int = if state.months < 1 {
                1
            } else if state.months > 24 {
                24
            } else {
                state.months as int
            };
            let t = state.spec_total();
            let q = state.spec_monthly();
            &&& t > 0 ==> q * m >= t && q * m < t + m
            &&& t == 0 ==> q == 0
        }),
{
    lemma_instalments_cover_total(state);
    lemma_total_within_subtotal(state);
}

/// The balance is what the budget keeps once the discounted total is paid,
/// within the budget and beyond it alike.
pub proof fn lemma_balance_is_budget_minus_total(state: OutfitCalcState)
    ensures
        state.spec_balance() + state.spec_total() == state.budget,
{
}

/// The catalogue identifiers are pairwise distinct.
proof fn lemma_catalog_ids_distinct(i: int, j: int)
    requires
        0 <= i < catalog_len(),
        0 <= j < catalog_len(),
        i != j,
    ensures
        catalog_id(i) != catalog_id(j),
{
    reveal_strlit("coat");
    reveal_strlit("hoodie");
    reveal_strlit("trousers");
    reveal_strlit("jacket");
    reveal_strlit("bag");
    reveal_strlit("boots");
    if catalog_id(i) == catalog_id(j) {
        assert(catalog_id(i).len() == catalog_id(j).len());
        assert(catalog_id(i)[0] == catalog_id(j)[0]);
    }
}

proof fn lemma_subtotal_add_prefix(ids: Seq<Seq<char>>, i: int, n: int)
    requires
        0 <= i < catalog_len(),
        0 <= n <= catalog_len(),
        !ids.contains(catalog_id(i)),
    ensures
        selected_subtotal(ids.push(catalog_id(i)), n) == selected_subtotal(ids, n) + if i < n {
            catalog_price(i)
        } else {
            0
        },
    decreases n,
{
    if n > 0 {
        lemma_subtotal_add_prefix(ids, i, n - 1);
        let x = catalog_id(n - 1);
        let more = ids.push(catalog_id(i));
        if n - 1 == i {
            assert(more[ids.len() as int] == x);
        } else {
            lemma_catalog_ids_distinct(n - 1, i);
            assert(more.contains(x) <==> ids.contains(x)) by {
                if more.contains(x) {
                    let k = choose|k: int| 0 <= k < more.len() && more[k] == x;
                    if k < ids.len() {
                        assert(ids[k] == x);
                    }
                }
                if ids.contains(x) {
                    let k = choose|k: int| 0 <= k < ids.len() && ids[k] == x;
                    assert(more[k] == x);
                }
            }
        }
    }
}

/// The subtotal adds up the prices of the selected articles: selecting one
/// more catalogue article that was not selected yet raises it by exactly that
/// article's price, whatever else is selected; with nothing selected it is 0.
pub proof fn lemma_subtotal_is_additive(a: OutfitCalcState, b: OutfitCalcState, i: int)
    requires
        0 <= i < catalog_len(),
        !id_views(a.selected@).contains(catalog_id(i)),
        id_views(b.selected@) == id_views(a.selected@).push(catalog_id(i)),
    ensures
        b.spec_subtotal() == a.spec_subtotal() + catalog_row(i).4,
{
    lemma_subtotal_add_prefix(id_views(a.selected@), i, catalog_len() as int);
}

/// Selecting exactly one catalogue article costs that article's price.
pub proof fn lemma_single_article_costs_its_price(state: OutfitCalcState, i: int)
    requires
        0 <= i < catalog_len(),
        id_views(state.selected@) == seq![catalog_id(i)],
    ensures
        state.spec_subtotal() == catalog_row(i).4,
{
    let empty = Seq::<Seq<char>>::empty();
    lemma_subtotal_add_prefix(empty, i, catalog_len() as int);
    assert(empty.push(catalog_id(i)) =~= seq![catalog_id(i)]);
    assert(selected_subtotal(empty, catalog_len() as int) == 0) by {
        lemma_zero_when_nothing(empty, catalog_len() as int);
    }
}

proof fn lemma_zero_when_nothing(ids: Seq<Seq<char>>, n: int)
    requires
        ids.len() == 0,
    ensures
        selected_subtotal(ids, n) == 0,
    decreases n,
{
    if n > 0 {
        lemma_zero_when_nothing(ids, n - 1);
        assert(!ids.contains(catalog_id(n - 1)));
    }
}

} // verus!
