use vstd::prelude::*;

verus! {

use crate::money::valid_money;
use crate::text::str_eq;

/// One purchasable entry within an order.
pub struct LineItem {
    pub name: String,
    pub price: String,
}

/// Mathematical image of a line item.
pub ghost struct LineItemModel {
    pub name: Seq<char>,
    pub price: Seq<char>,
}

impl View for LineItem {
    type V = LineItemModel;

    open spec fn view(&self) -> LineItemModel {
        LineItemModel { name: self.name@, price: self.price@ }
    }
}

/// One order as the remote store reports it: its line items in source order,
/// its financial status, and its subtotal as a decimal string.
pub struct Order {
    pub line_items: Vec<LineItem>,
    pub financial_status: String,
    pub current_subtotal_price: String,
}

/// Mathematical image of an order.
pub ghost struct OrderModel {
    pub line_items: Seq<LineItemModel>,
    pub financial_status: Seq<char>,
    pub current_subtotal_price: Seq<char>,
}

impl View for Order {
    type V = OrderModel;

    open spec fn view(&self) -> OrderModel {
        OrderModel {
            line_items: self.line_items@.map_values(|li: LineItem| li@),
            financial_status: self.financial_status@,
            current_subtotal_price: self.current_subtotal_price@,
        }
    }
}

/// A replacement or refund: financial status exactly "refunded", or subtotal
/// string exactly "0.00".
pub open spec fn is_refund(o: OrderModel) -> bool {
    o.financial_status == "refunded"@ || o.current_subtotal_price == "0.00"@
}

/// The tip clause of order validity: every line item named exactly "Tip"
/// carries a money string the library accepts.
pub open spec fn tips_valid(items: Seq<LineItemModel>) -> bool {
    forall|i: int|
        0 <= i < items.len() && (#[trigger] items[i]).name == "Tip"@ ==> valid_money(
            items[i].price,
        )
}

/// Every price the summarizer parses in this order is a money string the
/// library accepts.  Refund orders have nothing parsed, so nothing is asked
/// of them.
pub open spec fn order_valid(o: OrderModel) -> bool {
    !is_refund(o) ==> valid_money(o.current_subtotal_price) && tips_valid(o.line_items)
}

/// Decides `is_refund`.
pub fn is_refund_order(o: &Order) -> (r: bool)
    ensures
        r == is_refund(o@),
{
    str_eq(o.financial_status.as_str(), "refunded") || str_eq(
        o.current_subtotal_price.as_str(),
        "0.00",
    )
}

} // verus!
