use donation_report::errors::ReportError;
use donation_report::order::{LineItem, Order};
use donation_report::summary::{summarize, DonationTotals};

fn order(status: &str, subtotal: &str, items: &[(&str, &str)]) -> Order {
    Order {
        line_items: items
            .iter()
            .map(|(name, price)| LineItem {
                name: name.to_string(),
                price: price.to_string(),
            })
            .collect(),
        financial_status: status.to_string(),
        current_subtotal_price: subtotal.to_string(),
    }
}

fn totals(orders: &Vec<Order>) -> DonationTotals {
    summarize(orders).expect("summarize should succeed")
}

#[test]
fn mixed_orders_example() {
    let orders = vec![
        order("paid", "50.00", &[("Tip", "5.00")]),
        order("refunded", "30.00", &[]),
        order("paid", "150.00", &[]),
    ];
    let t = totals(&orders);
    assert_eq!(t.replacements_refunds, 1);
    assert_eq!(t.orders_flat, 1);
    assert_eq!(t.orders_percent, 1);
    // 1.00 flat + 1% of 150.00, in ten-thousandths of a dollar
    assert_eq!(t.typeractive_donations, 25_000);
    // the 5.00 tip
    assert_eq!(t.customer_donations, 50_000);
    assert_eq!(t.total_orders(), 3);
}

#[test]
fn refunded_order_contributes_nothing() {
    let orders = vec![order("refunded", "30.00", &[("Tip", "5.00")])];
    let t = totals(&orders);
    assert_eq!(t.replacements_refunds, 1);
    assert_eq!(t.orders_flat, 0);
    assert_eq!(t.orders_percent, 0);
    assert_eq!(t.typeractive_donations, 0);
    assert_eq!(t.customer_donations, 0);
}

#[test]
fn small_order_donates_the_flat_dollar() {
    let t = totals(&vec![order("paid", "50.00", &[])]);
    assert_eq!(t.orders_flat, 1);
    assert_eq!(t.orders_percent, 0);
    assert_eq!(t.typeractive_donations, 10_000);
}

#[test]
fn large_order_donates_one_percent_exactly() {
    let t = totals(&vec![order("paid", "150.55", &[])]);
    assert_eq!(t.orders_percent, 1);
    assert_eq!(t.orders_flat, 0);
    // 1% of $150.55 is $1.5055: 15055 ten-thousandths of a dollar
    assert_eq!(t.typeractive_donations, 15_055);
}

#[test]
fn boundary_hundred_dollars_is_flat() {
    let t = totals(&vec![order("paid", "100.00", &[])]);
    assert_eq!(t.orders_flat, 1);
    assert_eq!(t.orders_percent, 0);
    assert_eq!(t.typeractive_donations, 10_000);
}

#[test]
fn boundary_zero_subtotal_is_a_refund() {
    let t = totals(&vec![order("paid", "0.00", &[("Tip", "1.00")])]);
    assert_eq!(t.replacements_refunds, 1);
    assert_eq!(t.orders_flat, 0);
    assert_eq!(t.orders_percent, 0);
    assert_eq!(t.typeractive_donations, 0);
    assert_eq!(t.customer_donations, 0);
}

#[test]
fn tips_aggregate_and_other_items_do_not() {
    let t = totals(&vec![order(
        "paid",
        "20.00",
        &[("Tip", "5.00"), ("Socks", "10.00"), ("Tip", "2.50")],
    )]);
    assert_eq!(t.customer_donations, 75_000);
}

#[test]
fn order_counts_add_up() {
    let orders = vec![
        order("paid", "10.00", &[]),
        order("paid", "500.00", &[]),
        order("refunded", "10.00", &[]),
        order("paid", "0.00", &[]),
        order("paid", "99.99", &[]),
    ];
    let t = totals(&orders);
    assert_eq!(
        t.orders_flat + t.orders_percent + t.replacements_refunds,
        orders.len() as u64
    );
    assert_eq!(t.total_orders(), orders.len() as u128);
}

#[test]
fn summarize_twice_gives_identical_totals() {
    let orders = vec![
        order("paid", "42.00", &[("Tip", "1.23")]),
        order("paid", "4200.00", &[]),
        order("refunded", "9.99", &[]),
    ];
    assert_eq!(summarize(&orders), summarize(&orders));
}

#[test]
fn bad_subtotal_is_a_parse_error() {
    let orders = vec![order("paid", "abc", &[])];
    assert_eq!(summarize(&orders), Err(ReportError::ParseError));
}

#[test]
fn bad_tip_price_is_a_parse_error() {
    let orders = vec![order("paid", "10.00", &[("Tip", "oops")])];
    assert_eq!(summarize(&orders), Err(ReportError::ParseError));
}

#[test]
fn refunded_orders_are_never_parsed() {
    // the refund classification comes first, so its prices may be anything
    let orders = vec![order("refunded", "not a number", &[("Tip", "also not")])];
    let t = totals(&orders);
    assert_eq!(t.replacements_refunds, 1);
}

#[test]
fn overflowing_totals_are_reported() {
    let tips: Vec<(&str, &str)> = (0..185).map(|_| ("Tip", "10000000000000.00")).collect();
    let orders = vec![order("paid", "50.00", &tips)];
    assert_eq!(summarize(&orders), Err(ReportError::Overflow));
}

#[test]
fn derived_report_values() {
    let orders = vec![
        order("paid", "50.00", &[("Tip", "5.00")]),
        order("refunded", "30.00", &[]),
        order("paid", "150.00", &[]),
    ];
    let t = totals(&orders);
    assert_eq!(t.total_orders(), 3);
    assert_eq!(t.donation_match(), 50_000);
    assert_eq!(t.typeractive_total(), 75_000);
    assert_eq!(t.grand_total(), 125_000);
}
