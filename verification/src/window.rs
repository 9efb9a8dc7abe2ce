use vstd::prelude::*;

verus! {

use vstd::string::StringExecFns;

/// A calendar-month window: the RFC3339 first instants of the month and of
/// the following month in the US Central zone; half-open, start inclusive.
pub struct TimeWindow {
    pub start: String,
    pub end: String,
}

/// The month after the given one, rolling December over to January of the
/// following year.
pub open spec fn spec_next_month(month: u32, year: i32) -> (u32, i32) {
    if month == 12 {
        (1u32, (year + 1) as i32)
    } else {
        ((month + 1) as u32, year)
    }
}

/// Decides `spec_next_month`.
pub fn next_month(month: u32, year: i32) -> (r: (u32, i32))
    requires
        1 <= month <= 12,
        year < i32::MAX,
    ensures
        r == spec_next_month(month, year),
{
    if month == 12 {
        (1, year + 1)
    } else {
        (month + 1, year)
    }
}

/// The first instant of the given month in the US Central zone, written
/// RFC3339, as chrono and chrono-tz compute it: a function of year and month
/// alone; nothing where that local datetime cannot be built.
pub uninterp spec fn central_month_start(year: int, month: int) -> Option<Seq<char>>;

/// Relies on chrono's TimeZone::with_ymd_and_hms at chrono_tz::US::Central
/// and on chrono::DateTime::to_rfc3339: midnight on day one of the month,
/// deterministic in year and month; None where the local datetime is out of
/// range, absent or ambiguous in that zone.
#[verifier::external_body]
fn month_start_rfc3339(year: i32, month: u32) -> (r: Option<String>)
    ensures
        r matches Some(s) ==> central_month_start(year as int, month as int) == Some(s@),
        r is None ==> central_month_start(year as int, month as int) is None,
{
    match chrono::TimeZone::with_ymd_and_hms(&chrono_tz::US::Central, year, month, 1, 0, 0, 0) {
        chrono::LocalResult::Single(dt) => Some(dt.to_rfc3339()),
        _ => None,
    }
}

/// Builds the month window: start at the month's first instant, end at the
/// following month's first instant, both in the US Central zone; nothing
/// where the zone-aware datetimes cannot be built.
pub fn month_window(month: u32, year: i32) -> (r: Option<TimeWindow>)
    requires
        1 <= month <= 12,
        year < i32::MAX,
    ensures
        ({
            let (em, ey) = spec_next_month(month, year);
            match (
                central_month_start(year as int, month as int),
                central_month_start(ey as int, em as int),
            ) {
                (Some(s), Some(e)) => r matches Some(w) && w.start@ == s && w.end@ == e,
                _ => r is None,
            }
        }),
{
    let (end_month, end_year) = next_month(month, year);
    let start = month_start_rfc3339(year, month);
    let end = month_start_rfc3339(end_year, end_month);
    match (start, end) {
        (Some(s), Some(e)) => Some(TimeWindow { start: s, end: e }),
        _ => None,
    }
}

/// The initial query URL for a window: the fixed store endpoint, the fixed
/// field selection, any status, creation bounded by the window.
pub fn orders_url(window: &TimeWindow) -> (r: String)
    ensures
        r@ ==
        "https://typeractive.myshopify.com/admin/api/2021-07/orders.json?status=any&fields=line_items,financial_status,current_subtotal_price&created_at_min="@
            + window.start@ + "&created_at_max="@ + window.end@,
{
    let mut url = String::from_str(
        "https://typeractive.myshopify.com/admin/api/2021-07/orders.json?status=any&fields=line_items,financial_status,current_subtotal_price&created_at_min=",
    );
    url.append(window.start.as_str());
    url.append("&created_at_max=");
    url.append(window.end.as_str());
    url
}

} // verus!
