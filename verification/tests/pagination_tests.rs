use donation_report::errors::ReportError;
use donation_report::order::Order;
use donation_report::pagination::{apply_page, classify_status, FetchStep};

fn bare_order(status: &str) -> Order {
    Order {
        line_items: Vec::new(),
        financial_status: status.to_string(),
        current_subtotal_price: "10.00".to_string(),
    }
}

#[test]
fn page_with_next_link_continues() {
    let mut accum: Vec<Order> = Vec::new();
    let page = vec![bare_order("paid"), bare_order("refunded")];
    let header = "<https://shop.example/orders.json?page_info=abc>; rel=\"next\"";
    let step = apply_page(&mut accum, page, Some(header)).expect("should parse");
    assert_eq!(accum.len(), 2);
    match step {
        FetchStep::Continue(url) => {
            assert_eq!(url, "https://shop.example/orders.json?page_info=abc");
        }
        FetchStep::Done => panic!("expected a next link"),
    }
}

#[test]
fn page_without_next_relation_stops() {
    let mut accum: Vec<Order> = Vec::new();
    let header = "<https://shop.example/orders.json?page_info=xyz>; rel=\"previous\"";
    let step = apply_page(&mut accum, vec![bare_order("paid")], Some(header)).expect("should parse");
    assert!(matches!(step, FetchStep::Done));
    assert_eq!(accum.len(), 1);
}

#[test]
fn missing_link_header_is_a_protocol_error() {
    let mut accum: Vec<Order> = Vec::new();
    let r = apply_page(&mut accum, vec![bare_order("paid")], None);
    assert!(matches!(r, Err(ReportError::ProtocolError)));
    // the page's orders were still merged
    assert_eq!(accum.len(), 1);
}

#[test]
fn malformed_link_header_is_a_protocol_error() {
    let mut accum: Vec<Order> = Vec::new();
    let r = apply_page(&mut accum, Vec::new(), Some(""));
    assert!(matches!(r, Err(ReportError::ProtocolError)));
}

#[test]
fn pages_concatenate_in_order() {
    let mut accum: Vec<Order> = vec![bare_order("first")];
    let header = "<https://shop.example/p2>; rel=\"next\"";
    apply_page(
        &mut accum,
        vec![bare_order("second"), bare_order("third")],
        Some(header),
    )
    .expect("should parse");
    assert_eq!(accum.len(), 3);
    assert_eq!(accum[0].financial_status, "first");
    assert_eq!(accum[1].financial_status, "second");
    assert_eq!(accum[2].financial_status, "third");
}

#[test]
fn statuses_classify_by_error_kind() {
    assert_eq!(classify_status(200), None);
    assert_eq!(classify_status(204), None);
    assert_eq!(classify_status(401), Some(ReportError::AuthError));
    assert_eq!(classify_status(403), Some(ReportError::AuthError));
    assert_eq!(classify_status(404), Some(ReportError::NetworkError));
    assert_eq!(classify_status(500), Some(ReportError::NetworkError));
}
