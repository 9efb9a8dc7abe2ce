use donation_report::window::{month_window, next_month, orders_url};

#[test]
fn next_month_rolls_december_over() {
    assert_eq!(next_month(12, 2023), (1, 2024));
    assert_eq!(next_month(1, 2024), (2, 2024));
    assert_eq!(next_month(11, 2024), (12, 2024));
}

#[test]
fn january_window_in_central_time() {
    let w = month_window(1, 2024).expect("valid month");
    assert_eq!(w.start, "2024-01-01T00:00:00-06:00");
    assert_eq!(w.end, "2024-02-01T00:00:00-06:00");
}

#[test]
fn december_window_crosses_the_year() {
    let w = month_window(12, 2023).expect("valid month");
    assert_eq!(w.start, "2023-12-01T00:00:00-06:00");
    assert_eq!(w.end, "2024-01-01T00:00:00-06:00");
}

#[test]
fn summer_window_uses_daylight_time() {
    let w = month_window(7, 2024).expect("valid month");
    assert_eq!(w.start, "2024-07-01T00:00:00-05:00");
    assert_eq!(w.end, "2024-08-01T00:00:00-05:00");
}

#[test]
fn url_embeds_the_window_bounds() {
    let w = month_window(1, 2024).expect("valid month");
    let url = orders_url(&w);
    assert_eq!(
        url,
        "https://typeractive.myshopify.com/admin/api/2021-07/orders.json\
         ?status=any&fields=line_items,financial_status,current_subtotal_price\
         &created_at_min=2024-01-01T00:00:00-06:00\
         &created_at_max=2024-02-01T00:00:00-06:00"
    );
}
