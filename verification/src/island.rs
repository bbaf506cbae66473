//! Locating the data island: the JSON text embedded in a listing page's
//! HTML inside the `script` element with id `__NEXT_DATA__`.

use vstd::prelude::*;

verus! {

/// The inner text of the first `script` element with id `__NEXT_DATA__`
/// in a document, if the document has one. HTML parsing is deterministic,
/// so this is a function of the document text alone.
pub uninterp spec fn island_of(body: Seq<char>) -> Option<Seq<char>>;

/// Relies on scraper's `Html::parse_document`, `Selector::parse`,
/// `Html::select` and `ElementRef::inner_html`: parses the document and
/// hands back the inner HTML of the first element matching
/// `script#__NEXT_DATA__`. The selector is a fixed valid CSS selector,
/// so `Selector::parse` cannot fail on it.
#[verifier::external_body]
pub(crate) fn find_data_island(body: &str) -> (r: Option<String>)
    ensures
        r is Some <==> island_of(body@) is Some,
        r matches Some(s) ==> island_of(body@) == Some(s@),
{
    let document = scraper::Html::parse_document(body);
    let selector = scraper::Selector::parse("script#__NEXT_DATA__").unwrap();
    document.select(&selector).next().map(|e| e.inner_html())
}

} // verus!
