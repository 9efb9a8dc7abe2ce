use vstd::prelude::*;

verus! {

use crate::errors::ReportError;
use crate::money::{cents_of, valid_money, parse_money_cents, lemma_cents_nonneg};
use crate::order::{
    Order,
    OrderModel,
    LineItem,
    LineItemModel,
    is_refund,
    is_refund_order,
    order_valid,
    tips_valid,
};
use crate::text::str_eq;

/// Subtotals strictly above this many cents donate one percent; at or below
/// it they donate the flat amount.
pub const PERCENT_THRESHOLD_CENTS: u64 = 10_000;

/// The flat donation, in ten-thousandths of a dollar: one dollar.
pub const FLAT_DONATION: u64 = 10_000;

/// The five accumulated report values.  Monetary fields are fixed-point
/// integers in ten-thousandths of a dollar, so that one percent of a
/// cent-denominated subtotal is exact.
#[derive(Clone, Copy, PartialEq, Eq, Structural, Debug)]
pub struct DonationTotals {
    pub typeractive_donations: u64,
    pub orders_flat: u64,
    pub orders_percent: u64,
    pub replacements_refunds: u64,
    pub customer_donations: u64,
}

/// Totals over unbounded integers.
pub ghost struct TotalsModel {
    pub typeractive_donations: int,
    pub orders_flat: int,
    pub orders_percent: int,
    pub replacements_refunds: int,
    pub customer_donations: int,
}

impl View for DonationTotals {
    type V = TotalsModel;

    open spec fn view(&self) -> TotalsModel {
        TotalsModel {
            typeractive_donations: self.typeractive_donations as int,
            orders_flat: self.orders_flat as int,
            orders_percent: self.orders_percent as int,
            replacements_refunds: self.replacements_refunds as int,
            customer_donations: self.customer_donations as int,
        }
    }
}

impl DonationTotals {
    /// Derived report value: how many orders were fetched in all.
    pub fn total_orders(&self) -> (r: u128)
        ensures
            r == self@.orders_flat + self@.orders_percent + self@.replacements_refunds,
    {
        self.orders_flat as u128 + self.orders_percent as u128 + self.replacements_refunds as u128
    }

    /// Derived report value: the store matches customer donations equally.
    pub fn donation_match(&self) -> (r: u64)
        ensures
            r == self@.customer_donations,
    {
        self.customer_donations
    }

    /// Derived report value: the store's order donations plus its match.
    pub fn typeractive_total(&self) -> (r: u128)
        ensures
            r == self@.typeractive_donations + self@.customer_donations,
    {
        self.typeractive_donations as u128 + self.customer_donations as u128
    }

    /// Derived report value: everything donated, the customers' gifts counted
    /// once as given and once as matched.
    pub fn grand_total(&self) -> (r: u128)
        ensures
            r == self@.typeractive_donations + self@.customer_donations * 2,
    {
        self.typeractive_donations as u128 + self.customer_donations as u128 * 2
    }
}

/// Ten-thousandths of a dollar the store donates for one order: nothing for
/// a refund, one percent of the subtotal above the threshold (one percent of
/// `c` cents is exactly `c` ten-thousandths of a dollar), the flat amount
/// otherwise.
pub open spec fn order_store_donation(o: OrderModel) -> int {
    if is_refund(o) {
        0
    } else if cents_of(o.current_subtotal_price) > PERCENT_THRESHOLD_CENTS {
        cents_of(o.current_subtotal_price)
    } else {
        FLAT_DONATION as int
    }
}

pub open spec fn order_flat(o: OrderModel) -> int {
    if !is_refund(o) && cents_of(o.current_subtotal_price) <= PERCENT_THRESHOLD_CENTS {
        1
    } else {
        0
    }
}

pub open spec fn order_percent(o: OrderModel) -> int {
    if !is_refund(o) && cents_of(o.current_subtotal_price) > PERCENT_THRESHOLD_CENTS {
        1
    } else {
        0
    }
}

pub open spec fn order_refund(o: OrderModel) -> int {
    if is_refund(o) {
        1
    } else {
        0
    }
}

/// Sum of the prices of line items named exactly "Tip", in ten-thousandths
/// of a dollar; items under any other name contribute nothing.
pub open spec fn tip_sum(items: Seq<LineItemModel>) -> int
    decreases items.len(),
{
    if items.len() == 0 {
        0
    } else {
        tip_sum(items.drop_last()) + if items.last().name == "Tip"@ {
            cents_of(items.last().price) * 100
        } else {
            0
        }
    }
}

/// Customer donation of one order: its tips, unless it is a refund.
pub open spec fn order_customer_donation(o: OrderModel) -> int {
    if is_refund(o) {
        0
    } else {
        tip_sum(o.line_items)
    }
}

pub open spec fn empty_totals() -> TotalsModel {
    TotalsModel {
        typeractive_donations: 0,
        orders_flat: 0,
        orders_percent: 0,
        replacements_refunds: 0,
        customer_donations: 0,
    }
}

/// One order folded into running totals.
pub open spec fn add_order(t: TotalsModel, o: OrderModel) -> TotalsModel {
    TotalsModel {
        typeractive_donations: t.typeractive_donations + order_store_donation(o),
        orders_flat: t.orders_flat + order_flat(o),
        orders_percent: t.orders_percent + order_percent(o),
        replacements_refunds: t.replacements_refunds + order_refund(o),
        customer_donations: t.customer_donations + order_customer_donation(o),
    }
}

/// Totals of a sequence of orders, folded in input order.
pub open spec fn totals_of(orders: Seq<OrderModel>) -> TotalsModel
    decreases orders.len(),
{
    if orders.len() == 0 {
        empty_totals()
    } else {
        add_order(totals_of(orders.drop_last()), orders.last())
    }
}

pub open spec fn all_orders_valid(orders: Seq<OrderModel>) -> bool {
    forall|i: int| 0 <= i < orders.len() ==> order_valid(#[trigger] orders[i])
}

/// The monetary totals fit the 64-bit accumulators.
pub open spec fn totals_fit(t: TotalsModel) -> bool {
    t.typeractive_donations <= u64::MAX && t.customer_donations <= u64::MAX
}

pub open spec fn orders_seq_model(orders: Seq<Order>) -> Seq<OrderModel> {
    orders.map_values(|o: Order| o@)
}

/// Everything `summarize` promises of its result: a parse error exactly when
/// some price it must read is not an accepted money string; an overflow
/// exactly when the prices all parse but a monetary total exceeds the
/// accumulators; the exact folded totals otherwise.
pub open spec fn summarize_post(
    orders: Seq<OrderModel>,
    r: Result<DonationTotals, ReportError>,
) -> bool {
    if !all_orders_valid(orders) {
        r == Err::<DonationTotals, ReportError>(ReportError::ParseError)
    } else if !totals_fit(totals_of(orders)) {
        r == Err::<DonationTotals, ReportError>(ReportError::Overflow)
    } else {
        match r {
            Ok(t) => t@ == totals_of(orders),
            Err(_) => false,
        }
    }
}

/// Per-order contributions are never negative, and the three counters are
/// zero or one.
pub proof fn lemma_contributions_nonneg(o: OrderModel)
    requires
        order_valid(o),
    ensures
        order_store_donation(o) >= 0,
        order_customer_donation(o) >= 0,
        0 <= order_flat(o) <= 1,
        0 <= order_percent(o) <= 1,
        0 <= order_refund(o) <= 1,
{
    if !is_refund(o) {
        lemma_cents_nonneg(o.current_subtotal_price);
        lemma_tip_sum_nonneg(o.line_items);
    }
}

pub proof fn lemma_tip_sum_nonneg(items: Seq<LineItemModel>)
    requires
        tips_valid(items),
    ensures
        tip_sum(items) >= 0,
    decreases items.len(),
{
    if items.len() > 0 {
        assert(tips_valid(items.drop_last())) by {
            assert forall|i: int|
                0 <= i < items.drop_last().len() && (#[trigger] items.drop_last()[i]).name
                    == "Tip"@ implies valid_money(items.drop_last()[i].price) by {
                assert(items.drop_last()[i] == items[i]);
            }
        }
        lemma_tip_sum_nonneg(items.drop_last());
        if items.last().name == "Tip"@ {
            assert(items[items.len() - 1] == items.last());
            assert(valid_money(items.last().price));
            lemma_cents_nonneg(items.last().price);
        }
    }
}

/// The tip sum of a prefix never exceeds the tip sum of the whole.
pub proof fn lemma_tip_sum_take_le(items: Seq<LineItemModel>, j: int)
    requires
        tips_valid(items),
        0 <= j <= items.len(),
    ensures
        tip_sum(items.take(j)) <= tip_sum(items),
    decreases items.len() - j,
{
    if j < items.len() {
        assert(items.take(j + 1).drop_last() =~= items.take(j));
        assert(items.take(j + 1).last() == items[j]);
        if items[j].name == "Tip"@ {
            assert(valid_money(items[j].price));
            lemma_cents_nonneg(items[j].price);
        }
        lemma_tip_sum_take_le(items, j + 1);
    } else {
        assert(items.take(j) =~= items);
    }
}

/// The monetary totals of a prefix never exceed those of the whole run.
pub proof fn lemma_totals_take_le(orders: Seq<OrderModel>, i: int)
    requires
        all_orders_valid(orders),
        0 <= i <= orders.len(),
    ensures
        totals_of(orders.take(i)).typeractive_donations <= totals_of(orders).typeractive_donations,
        totals_of(orders.take(i)).customer_donations <= totals_of(orders).customer_donations,
    decreases orders.len() - i,
{
    if i < orders.len() {
        assert(orders.take(i + 1).drop_last() =~= orders.take(i));
        assert(orders.take(i + 1).last() == orders[i]);
        lemma_contributions_nonneg(orders[i]);
        lemma_totals_take_le(orders, i + 1);
    } else {
        assert(orders.take(i) =~= orders);
    }
}

/// The three counters always add up to the number of orders, whatever the
/// input sequence.
pub proof fn lemma_order_count(orders: Seq<OrderModel>)
    ensures
        totals_of(orders).orders_flat + totals_of(orders).orders_percent + totals_of(
            orders,
        ).replacements_refunds == orders.len(),
    decreases orders.len(),
{
    if orders.len() > 0 {
        lemma_order_count(orders.drop_last());
    }
}

/// Law: a refund or replacement order increments `replacements_refunds` by
/// exactly one and contributes to no other total.
pub proof fn lemma_refund_order(orders: Seq<OrderModel>, o: OrderModel)
    requires
        is_refund(o),
    ensures
        ({
            let t = totals_of(orders);
            let u = totals_of(orders.push(o));
            &&& u.replacements_refunds == t.replacements_refunds + 1
            &&& u.typeractive_donations == t.typeractive_donations
            &&& u.customer_donations == t.customer_donations
            &&& u.orders_flat == t.orders_flat
            &&& u.orders_percent == t.orders_percent
        }),
{
    assert(orders.push(o).drop_last() =~= orders);
    assert(orders.push(o).last() == o);
}

/// Law: a non-refund order with subtotal at most the threshold adds exactly
/// the flat dollar to the store donation, increments `orders_flat`, and adds
/// its tips to the customer donation.
pub proof fn lemma_flat_order(orders: Seq<OrderModel>, o: OrderModel)
    requires
        !is_refund(o),
        cents_of(o.current_subtotal_price) <= PERCENT_THRESHOLD_CENTS,
    ensures
        ({
            let t = totals_of(orders);
            let u = totals_of(orders.push(o));
            &&& u.typeractive_donations == t.typeractive_donations + FLAT_DONATION
            &&& u.orders_flat == t.orders_flat + 1
            &&& u.orders_percent == t.orders_percent
            &&& u.replacements_refunds == t.replacements_refunds
            &&& u.customer_donations == t.customer_donations + tip_sum(o.line_items)
        }),
{
    assert(orders.push(o).drop_last() =~= orders);
    assert(orders.push(o).last() == o);
}

/// Law: a non-refund order with subtotal above the threshold adds exactly
/// one percent of the subtotal to the store donation (one percent of `c`
/// cents is `c` ten-thousandths of a dollar) and increments `orders_percent`.
pub proof fn lemma_percent_order(orders: Seq<OrderModel>, o: OrderModel)
    requires
        !is_refund(o),
        cents_of(o.current_subtotal_price) > PERCENT_THRESHOLD_CENTS,
    ensures
        ({
            let t = totals_of(orders);
            let u = totals_of(orders.push(o));
            &&& u.typeractive_donations == t.typeractive_donations + cents_of(
                o.current_subtotal_price,
            )
            &&& u.orders_percent == t.orders_percent + 1
            &&& u.orders_flat == t.orders_flat
            &&& u.replacements_refunds == t.replacements_refunds
            &&& u.customer_donations == t.customer_donations + tip_sum(o.line_items)
        }),
{
    assert(orders.push(o).drop_last() =~= orders);
    assert(orders.push(o).last() == o);
}

/// Law: a line item under any name but "Tip" never moves the tip sum.
pub proof fn lemma_non_tip_item(items: Seq<LineItemModel>, it: LineItemModel)
    requires
        it.name != "Tip"@,
    ensures
        tip_sum(items.push(it)) == tip_sum(items),
{
    assert(items.push(it).drop_last() =~= items);
    assert(items.push(it).last() == it);
}

/// Law: a line item named exactly "Tip" adds exactly its price to the tip
/// sum.
pub proof fn lemma_tip_item(items: Seq<LineItemModel>, it: LineItemModel)
    requires
        it.name == "Tip"@,
    ensures
        tip_sum(items.push(it)) == tip_sum(items) + cents_of(it.price) * 100,
{
    assert(items.push(it).drop_last() =~= items);
    assert(items.push(it).last() == it);
}

/// Running sum of the tips of the non-refund orders alone.
pub open spec fn total_tips(orders: Seq<OrderModel>) -> int
    decreases orders.len(),
{
    if orders.len() == 0 {
        0
    } else {
        total_tips(orders.drop_last()) + if !is_refund(orders.last()) {
            tip_sum(orders.last().line_items)
        } else {
            0
        }
    }
}

/// Law: the customer donation total is exactly the tips of the non-refund
/// orders, for any input sequence.
pub proof fn lemma_tip_aggregation(orders: Seq<OrderModel>)
    ensures
        totals_of(orders).customer_donations == total_tips(orders),
    decreases orders.len(),
{
    if orders.len() > 0 {
        lemma_tip_aggregation(orders.drop_last());
    }
}

/// Law: the summarizer's contract pins its result: any two results that
/// satisfy it on the same order sequence are equal, so two runs on one input
/// return the same value.
pub proof fn lemma_summarize_deterministic(
    orders: Seq<OrderModel>,
    r1: Result<DonationTotals, ReportError>,
    r2: Result<DonationTotals, ReportError>,
)
    requires
        summarize_post(orders, r1),
        summarize_post(orders, r2),
    ensures
        r1 == r2,
{
    if all_orders_valid(orders) && totals_fit(totals_of(orders)) {
        match (r1, r2) {
            (Ok(t1), Ok(t2)) => {
                assert(t1@ == t2@);
                assert(t1 == t2);
            }
            _ => {
                assert(false);
            }
        }
    }
}

/// Validity of every price the summarizer reads, decided; `Err` exactly when
/// one is not accepted.
fn check_orders_valid(orders: &Vec<Order>) -> (r: Result<(), ReportError>)
    ensures
        r matches Ok(_) ==> all_orders_valid(orders_seq_model(orders@)),
        r matches Err(e) ==> e == ReportError::ParseError && !all_orders_valid(
            orders_seq_model(orders@),
        ),
{
    let ghost os = orders_seq_model(orders@);
    let n = orders.len();
    let mut i: usize = 0;
    while i < n
        invariant
            0 <= i <= n,
            n == orders@.len(),
            os == orders_seq_model(orders@),
            forall|k: int| 0 <= k < i ==> order_valid(#[trigger] os[k]),
        decreases n - i,
    {
        let o = &orders[i];
        proof {
            assert(os[i as int] == o@);
        }
        if !is_refund_order(o) {
            if parse_money_cents(o.current_subtotal_price.as_str()).is_none() {
                proof {
                    assert(!order_valid(os[i as int]));
                }
                return Err(ReportError::ParseError);
            }
            let m = o.line_items.len();
            let mut j: usize = 0;
            while j < m
                invariant
                    0 <= j <= m,
                    m == o.line_items@.len(),
                    0 <= i < n,
                    n == orders@.len(),
                    o@ == os[i as int],
                    !is_refund(o@),
                    os == orders_seq_model(orders@),
                    forall|k: int|
                        0 <= k < j && (#[trigger] o@.line_items[k]).name == "Tip"@ ==> valid_money(
                            o@.line_items[k].price,
                        ),
                decreases m - j,
            {
                let li = &o.line_items[j];
                proof {
                    assert(o@.line_items[j as int] == li@);
                }
                if str_eq(li.name.as_str(), "Tip") {
                    if parse_money_cents(li.price.as_str()).is_none() {
                        proof {
                            assert(!tips_valid(o@.line_items));
                            assert(!order_valid(os[i as int]));
                        }
                        return Err(ReportError::ParseError);
                    }
                }
                j += 1;
            }
            proof {
                assert(tips_valid(o@.line_items));
            }
        }
        proof {
            assert(order_valid(os[i as int]));
        }
        i += 1;
    }
    Ok(())
}

/// Classifies and folds every order into the five totals, in input order.
/// The whole behaviour is `summarize_post`: parse error exactly when a read
/// price is refused, overflow exactly when a monetary total leaves `u64`,
/// otherwise the exact totals of the fold.
pub fn summarize(orders: &Vec<Order>) -> (r: Result<DonationTotals, ReportError>)
    ensures
        summarize_post(orders_seq_model(orders@), r),
{
    let ghost os = orders_seq_model(orders@);
    match check_orders_valid(orders) {
        Ok(_) => {}
        Err(e) => {
            return Err(e);
        }
    }

    let n = orders.len();
    let mut typeractive: u64 = 0;
    let mut flat: u64 = 0;
    let mut percent: u64 = 0;
    let mut refunds: u64 = 0;
    let mut customer: u64 = 0;
    let mut i: usize = 0;
    while i < n
        invariant
            0 <= i <= n,
            n == orders@.len(),
            os == orders_seq_model(orders@),
            all_orders_valid(os),
            typeractive == totals_of(os.take(i as int)).typeractive_donations,
            flat == totals_of(os.take(i as int)).orders_flat,
            percent == totals_of(os.take(i as int)).orders_percent,
            refunds == totals_of(os.take(i as int)).replacements_refunds,
            customer == totals_of(os.take(i as int)).customer_donations,
            flat + percent + refunds == i,
        decreases n - i,
    {
        let o = &orders[i];
        proof {
            assert(os[i as int] == o@);
            assert(order_valid(os[i as int]));
            assert(os.take(i + 1).drop_last() =~= os.take(i as int));
            assert(os.take(i + 1).last() == os[i as int]);
        }
        if is_refund_order(o) {
            refunds = refunds + 1;
        } else {
            let sub_cents = match parse_money_cents(o.current_subtotal_price.as_str()) {
                Some(c) => c,
                None => {
                    proof {
                        assert(false);
                    }
                    return Err(ReportError::ParseError);
                }
            };
            let contribution: u64 = if sub_cents > PERCENT_THRESHOLD_CENTS {
                percent = percent + 1;
                sub_cents
            } else {
                flat = flat + 1;
                FLAT_DONATION
            };
            proof {
                assert(contribution == order_store_donation(o@));
            }
            typeractive = match typeractive.checked_add(contribution) {
                Some(v) => v,
                None => {
                    proof {
                        lemma_totals_take_le(os, i + 1);
                    }
                    return Err(ReportError::Overflow);
                }
            };

            let items = &o.line_items;
            let m = items.len();
            let mut j: usize = 0;
            while j < m
                invariant
                    0 <= j <= m,
                    m == items@.len(),
                    items@ == o.line_items@,
                    o@ == os[i as int],
                    !is_refund(o@),
                    0 <= i < n,
                    n == orders@.len(),
                    os == orders_seq_model(orders@),
                    all_orders_valid(os),
                    customer == totals_of(os.take(i as int)).customer_donations + tip_sum(
                        o@.line_items.take(j as int),
                    ),
                decreases m - j,
            {
                let li = &items[j];
                proof {
                    assert(o@.line_items[j as int] == li@);
                    assert(o@.line_items.take(j + 1).drop_last() =~= o@.line_items.take(j as int));
                    assert(o@.line_items.take(j + 1).last() == o@.line_items[j as int]);
                }
                if str_eq(li.name.as_str(), "Tip") {
                    let tip_cents = match parse_money_cents(li.price.as_str()) {
                        Some(c) => c,
                        None => {
                            proof {
                                assert(valid_money(o@.line_items[j as int].price));
                                assert(false);
                            }
                            return Err(ReportError::ParseError);
                        }
                    };
                    let tip_units: u64 = tip_cents * 100;
                    customer = match customer.checked_add(tip_units) {
                        Some(v) => v,
                        None => {
                            proof {
                                assert(order_valid(os[i as int]));
                                assert(tips_valid(o@.line_items));
                                lemma_tip_sum_take_le(o@.line_items, j + 1);
                                assert(os.take(i + 1).drop_last() =~= os.take(i as int));
                                assert(os.take(i + 1).last() == os[i as int]);
                                lemma_totals_take_le(os, i + 1);
                            }
                            return Err(ReportError::Overflow);
                        }
                    };
                } else {
                    proof {
                        assert(tip_sum(o@.line_items.take(j + 1)) == tip_sum(
                            o@.line_items.take(j as int),
                        ));
                    }
                }
                j += 1;
            }
            proof {
                assert(o@.line_items.take(m as int) =~= o@.line_items);
            }
        }
        i += 1;
    }
    proof {
        assert(os.take(n as int) =~= os);
    }
    Ok(
        DonationTotals {
            typeractive_donations: typeractive,
            orders_flat: flat,
            orders_percent: percent,
            replacements_refunds: refunds,
            customer_donations: customer,
        },
    )
}

} // verus!
