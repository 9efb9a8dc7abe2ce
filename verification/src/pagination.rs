use vstd::prelude::*;

verus! {

use crate::errors::ReportError;
use crate::order::{Order, OrderModel};
use crate::text::str_eq;

/// parse_link_header's error type, carried out of the trusted wrapper and
/// mapped to `ReportError::ProtocolError` by verified code.
#[verifier::external_type_specification]
#[verifier::external_body]
pub struct ExLinkError(parse_link_header::Error);

/// What parse_link_header makes of a `link` response header: nothing where
/// the parse fails, else the raw URI of each relation name.  Both the
/// verdict and the map are functions of the header text alone.
pub uninterp spec fn link_relations(header: Seq<char>) -> Option<Map<Seq<char>, Seq<char>>>;

/// Relies on parse_link_header::parse_with_rel: deterministic in the header
/// text, so it succeeds exactly where `link_relations` holds a map, and then
/// returns one entry per relation name, carrying the link's raw URI.  The
/// pairs come in no promised order; their keys are distinct and together
/// they are exactly that map.
#[verifier::external_body]
fn parse_link_relations(header: &str) -> (r: Result<
    Vec<(String, String)>,
    parse_link_header::Error,
>)
    ensures
        r is Ok <==> link_relations(header@) is Some,
        r matches Ok(v) ==> link_relations(header@) matches Some(rels) && {
            &&& forall|i: int|
                0 <= i < v@.len() ==> rels.contains_pair((#[trigger] v@[i]).0@, v@[i].1@)
            &&& forall|k: Seq<char>|
                rels.dom().contains(k) ==> exists|i: int|
                    0 <= i < v@.len() && (#[trigger] v@[i]).0@ == k
            &&& forall|i: int, j: int|
                0 <= i < v@.len() && 0 <= j < v@.len() && i != j ==> (#[trigger] v@[i]).0@ != (
                #[trigger] v@[j]).0@
        },
{
    match parse_link_header::parse_with_rel(header) {
        Ok(m) => Ok(m.into_iter().map(|(rel, link)| (rel, link.raw_uri)).collect()),
        Err(e) => Err(e),
    }
}

/// The URI paired with the relation "next", if any.
fn find_next(pairs: &Vec<(String, String)>) -> (r: Option<String>)
    ensures
        r matches Some(u) ==> exists|i: int|
            0 <= i < pairs@.len() && (#[trigger] pairs@[i]).0@ == "next"@ && pairs@[i].1@ == u@,
        r is None ==> forall|i: int| 0 <= i < pairs@.len() ==> (#[trigger] pairs@[i]).0@ != "next"@,
{
    let n = pairs.len();
    let mut i: usize = 0;
    while i < n
        invariant
            0 <= i <= n,
            n == pairs@.len(),
            forall|j: int| 0 <= j < i ==> (#[trigger] pairs@[j]).0@ != "next"@,
        decreases n - i,
    {
        if str_eq(pairs[i].0.as_str(), "next") {
            return Some(pairs[i].1.clone());
        }
        i += 1;
    }
    None
}

/// What the pagination walk does after one page: follow the next link
/// verbatim, or stop.
pub enum FetchStep {
    Continue(String),
    Done,
}

/// One step of the pagination walk: merge the page's orders into the
/// accumulator by stable concatenation, then decide from the page's link
/// header whether the walk continues.  A protocol error exactly when the
/// link header is absent or does not parse; otherwise the step is owed, and
/// it follows the "next" URI exactly when the parsed header carries one and
/// stops exactly when it does not.
pub fn apply_page(accum: &mut Vec<Order>, page: Vec<Order>, link_header: Option<&str>) -> (r:
    Result<FetchStep, ReportError>)
    ensures
        final(accum)@ == old(accum)@ + page@,
        match link_header {
            None => r == Err::<FetchStep, ReportError>(ReportError::ProtocolError),
            Some(h) => match link_relations(h@) {
                None => r == Err::<FetchStep, ReportError>(ReportError::ProtocolError),
                Some(rels) => match r {
                    Ok(FetchStep::Continue(u)) => rels.contains_pair("next"@, u@),
                    Ok(FetchStep::Done) => !rels.dom().contains("next"@),
                    Err(_) => false,
                },
            },
        },
{
    let mut p = page;
    accum.append(&mut p);
    match link_header {
        None => Err(ReportError::ProtocolError),
        Some(h) => match parse_link_relations(h) {
            Err(_) => Err(ReportError::ProtocolError),
            Ok(pairs) => match find_next(&pairs) {
                Some(u) => Ok(FetchStep::Continue(u)),
                None => Ok(FetchStep::Done),
            },
        },
    }
}

/// Error class of one HTTP response status: success passes, authentication
/// and authorization rejections are authentication failures, every other
/// non-success status a network failure.
pub open spec fn status_class(status: u16) -> Option<ReportError> {
    if 200 <= status < 300 {
        None
    } else if status == 401 || status == 403 {
        Some(ReportError::AuthError)
    } else {
        Some(ReportError::NetworkError)
    }
}

/// Decides `status_class`.
pub fn classify_status(status: u16) -> (r: Option<ReportError>)
    ensures
        r == status_class(status),
{
    if 200 <= status && status < 300 {
        None
    } else if status == 401 || status == 403 {
        Some(ReportError::AuthError)
    } else {
        Some(ReportError::NetworkError)
    }
}

/// The orders of several pages, concatenated in page order.
pub open spec fn concat_pages(pages: Seq<Seq<OrderModel>>) -> Seq<OrderModel>
    decreases pages.len(),
{
    if pages.len() == 0 {
        Seq::<OrderModel>::empty()
    } else {
        concat_pages(pages.drop_last()) + pages.last()
    }
}

/// Sum of the page sizes.
pub open spec fn page_sizes_sum(pages: Seq<Seq<OrderModel>>) -> int
    decreases pages.len(),
{
    if pages.len() == 0 {
        0
    } else {
        page_sizes_sum(pages.drop_last()) + pages.last().len()
    }
}

/// Law: merging pages by concatenation yields exactly as many orders as the
/// pages hold together.
pub proof fn lemma_pagination_merge(pages: Seq<Seq<OrderModel>>)
    ensures
        concat_pages(pages).len() == page_sizes_sum(pages),
    decreases pages.len(),
{
    if pages.len() > 0 {
        lemma_pagination_merge(pages.drop_last());
    }
}

} // verus!
