//! The crawl and its sink, as verified logic: which pages a discovered
//! total schedules, how concurrency is clamped, and what the single
//! writer puts out — one header row, then every delivered batch's
//! records in delivery order. The concurrent runner outside the library
//! performs the fetches and hands the outcomes to these functions.

use vstd::prelude::*;
use crate::decode::PageTree;
use crate::errors::ScraperError;
use crate::extract::{extract_items, spec_find_listing, spec_flat_items, spec_module_context};
use crate::product::{spec_csv_record, Product};
use crate::text::{spec_u64_digits, u64_to_string};

verus! {

/// The URL of one listing page: the page number is appended to the base
/// URL as a query parameter.
pub fn make_page_url(base: &str, page: u64) -> (r: String)
    ensures
        r@ == base@ + "&page="@ + spec_u64_digits(page as nat),
{
    let mut r = String::from_str(base);
    r.append("&page=");
    let digits = u64_to_string(page);
    r.append(digits.as_str());
    proof {
        assert(r@ =~= base@ + "&page="@ + spec_u64_digits(page as nat));
    }
    r
}

/// The five column names of the output header.
pub open spec fn spec_header() -> Seq<Seq<char>> {
    seq!["Product Name"@, "Price"@, "Image URL"@, "Reviews Count"@, "Stock Status"@]
}

/// Renders the output header row.
pub fn header_record() -> (r: Vec<String>)
    ensures
        r.deep_view() == spec_header(),
{
    let mut r: Vec<String> = Vec::new();
    r.push(String::from_str("Product Name"));
    r.push(String::from_str("Price"));
    r.push(String::from_str("Image URL"));
    r.push(String::from_str("Reviews Count"));
    r.push(String::from_str("Stock Status"));
    proof {
        assert(r.deep_view() =~= spec_header());
    }
    r
}

/// The rows of one batch: each product's five columns, in batch order.
pub open spec fn spec_batch_rows(b: Seq<Product>) -> Seq<Seq<Seq<char>>> {
    b.map_values(|p: Product| spec_csv_record(p))
}

/// Renders one batch of products to rows.
#[verifier::loop_isolation(false)]
pub fn render_batch(b: &Vec<Product>) -> (rows: Vec<Vec<String>>)
    ensures
        rows.deep_view() == spec_batch_rows(b@),
{
    let mut rows: Vec<Vec<String>> = Vec::new();
    let mut i: usize = 0;
    while i < b.len()
        invariant
            i <= b@.len(),
            rows.deep_view() =~= spec_batch_rows(b@.take(i as int)),
        decreases b@.len() - i,
    {
        let ghost pre = rows.deep_view();
        rows.push(b[i].to_csv_record());
        proof {
            assert(rows.deep_view() =~= pre.push(spec_csv_record(b@[i as int])));
            assert(spec_batch_rows(b@.take(i as int + 1)) =~= spec_batch_rows(
                b@.take(i as int),
            ).push(spec_csv_record(b@[i as int])));
        }
        i = i + 1;
    }
    proof {
        assert(b@.take(b@.len() as int) =~= b@);
    }
    rows
}

/// The sequence view of a vector of batches.
pub open spec fn batches_view(batches: Seq<Vec<Product>>) -> Seq<Seq<Product>> {
    batches.map_values(|b: Vec<Product>| b@)
}

/// The data rows of the output: every batch's rows, in delivery order.
pub open spec fn spec_data_rows(batches: Seq<Seq<Product>>) -> Seq<Seq<Seq<char>>>
    decreases batches.len(),
{
    if batches.len() == 0 {
        Seq::empty()
    } else {
        spec_batch_rows(batches[0]) + spec_data_rows(batches.drop_first())
    }
}

/// The whole output: the header row first, then the data rows.
pub open spec fn spec_output_rows(batches: Seq<Seq<Product>>) -> Seq<Seq<Seq<char>>> {
    seq![spec_header()] + spec_data_rows(batches)
}

/// How many items the batches hold in all.
pub open spec fn spec_total_items(batches: Seq<Seq<Product>>) -> nat
    decreases batches.len(),
{
    if batches.len() == 0 {
        0
    } else {
        batches[0].len() + spec_total_items(batches.drop_first())
    }
}

/// Renders what the sink writes for the given batches: the header row,
/// then each batch's records in the order the batches arrived.
#[verifier::loop_isolation(false)]
pub fn sink_rows(batches: &Vec<Vec<Product>>) -> (rows: Vec<Vec<String>>)
    ensures
        rows.deep_view() == spec_output_rows(batches_view(batches@)),
{
    let mut rows: Vec<Vec<String>> = Vec::new();
    rows.push(header_record());
    proof {
        assert(batches_view(batches@).take(0) =~= Seq::<Seq<Product>>::empty());
        assert(rows.deep_view() =~= spec_output_rows(batches_view(batches@).take(0)));
    }
    let mut i: usize = 0;
    while i < batches.len()
        invariant
            i <= batches@.len(),
            rows.deep_view() =~= spec_output_rows(batches_view(batches@).take(i as int)),
        decreases batches@.len() - i,
    {
        let ghost pre = rows.deep_view();
        let mut batch_rows = render_batch(&batches[i]);
        rows.append(&mut batch_rows);
        proof {
            lemma_data_rows_push(
                batches_view(batches@).take(i as int),
                batches_view(batches@)[i as int],
            );
            assert(batches_view(batches@).take(i as int).push(batches_view(batches@)[i as int])
                =~= batches_view(batches@).take(i as int + 1));
            assert(rows.deep_view() =~= pre + spec_batch_rows(batches_view(batches@)[i as int]));
            assert(rows.deep_view() =~= spec_output_rows(
                batches_view(batches@).take(i as int + 1),
            ));
        }
        i = i + 1;
    }
    proof {
        assert(batches_view(batches@).take(batches@.len() as int) =~= batches_view(batches@));
    }
    rows
}

/// Appending a batch appends its rows.
proof fn lemma_data_rows_push(batches: Seq<Seq<Product>>, b: Seq<Product>)
    ensures
        spec_data_rows(batches.push(b)) == spec_data_rows(batches) + spec_batch_rows(b),
        spec_total_items(batches.push(b)) == spec_total_items(batches) + b.len(),
    decreases batches.len(),
{
    assert(batches.push(b)[0 as int] == if batches.len() == 0 {
        b
    } else {
        batches[0]
    });
    if batches.len() == 0 {
        assert(batches.push(b).drop_first() =~= Seq::<Seq<Product>>::empty());
        assert(spec_data_rows(Seq::<Seq<Product>>::empty()) =~= Seq::<Seq<Seq<char>>>::empty());
        assert(spec_data_rows(batches.push(b)) =~= spec_batch_rows(b));
        assert(spec_data_rows(batches) + spec_batch_rows(b) =~= spec_batch_rows(b));
        assert(spec_total_items(batches.push(b)) == b.len() + spec_total_items(
            Seq::<Seq<Product>>::empty(),
        ));
    } else {
        lemma_data_rows_push(batches.drop_first(), b);
        assert(batches.push(b).drop_first() =~= batches.drop_first().push(b));
        assert(spec_data_rows(batches.push(b)) =~= spec_data_rows(batches) + spec_batch_rows(b));
    }
}

/// The shape of a run's output: one header row plus one row per item,
/// the header first, and the first batch's records right after it, in
/// their extraction order. With the first page's batch delivered first,
/// its records are the first data rows.
pub proof fn lemma_output_shape(batches: Seq<Seq<Product>>)
    ensures
        spec_output_rows(batches).len() == 1 + spec_total_items(batches),
        spec_output_rows(batches)[0] == spec_header(),
        forall|i: int|
            batches.len() > 0 && 0 <= i < batches[0].len() ==> spec_output_rows(batches)[1 + i]
                == spec_csv_record(batches[0][i]),
    decreases batches.len(),
{
    lemma_data_rows_len(batches);
    if batches.len() > 0 {
        assert(forall|i: int|
            0 <= i < batches[0].len() ==> spec_data_rows(batches)[i] == spec_csv_record(
                batches[0][i],
            ));
    }
}

proof fn lemma_data_rows_len(batches: Seq<Seq<Product>>)
    ensures
        spec_data_rows(batches).len() == spec_total_items(batches),
    decreases batches.len(),
{
    if batches.len() > 0 {
        lemma_data_rows_len(batches.drop_first());
    }
}

/// What one later page contributes to the sink: nothing when its fetch
/// failed or its page has no item-listing module or an empty batch; its
/// flattened batch otherwise.
pub open spec fn spec_entry_batches(e: Option<PageTree>) -> Seq<Seq<Product>> {
    match e {
        None => Seq::empty(),
        Some(t) => match spec_find_listing(t.modules@) {
            None => Seq::empty(),
            Some(l) => if spec_flat_items(l.groups@).len() > 0 {
                seq![spec_flat_items(l.groups@)]
            } else {
                Seq::empty()
            },
        },
    }
}

/// How many items one later page contributes.
pub open spec fn spec_entry_item_count(e: Option<PageTree>) -> nat {
    match e {
        None => 0,
        Some(t) => match spec_find_listing(t.modules@) {
            None => 0,
            Some(l) => spec_flat_items(l.groups@).len(),
        },
    }
}

/// The batches the later pages deliver, in page order: a failed or
/// dataless page is skipped, a page with a non-empty batch forwards it.
pub open spec fn spec_later_batches(pages: Seq<Option<PageTree>>) -> Seq<Seq<Product>>
    decreases pages.len(),
{
    if pages.len() == 0 {
        Seq::empty()
    } else {
        spec_entry_batches(pages[0]) + spec_later_batches(pages.drop_first())
    }
}

proof fn lemma_later_batches_push(pages: Seq<Option<PageTree>>, e: Option<PageTree>)
    ensures
        spec_later_batches(pages.push(e)) == spec_later_batches(pages) + spec_entry_batches(e),
    decreases pages.len(),
{
    assert(pages.push(e)[0 as int] == if pages.len() == 0 {
        e
    } else {
        pages[0]
    });
    if pages.len() == 0 {
        assert(pages.push(e).drop_first() =~= Seq::<Option<PageTree>>::empty());
        assert(spec_later_batches(Seq::<Option<PageTree>>::empty()) =~= Seq::<
            Seq<Product>,
        >::empty());
        assert(spec_later_batches(pages.push(e)) =~= spec_entry_batches(e));
        assert(spec_later_batches(pages) + spec_entry_batches(e) =~= spec_entry_batches(e));
    } else {
        lemma_later_batches_push(pages.drop_first(), e);
        assert(pages.push(e).drop_first() =~= pages.drop_first().push(e));
        assert(spec_later_batches(pages.push(e)) =~= spec_later_batches(pages)
            + spec_entry_batches(e));
    }
}

/// How many of the given later-page outcomes a discovered total actually
/// schedules: one per page from 2 through the total.
pub open spec fn spec_used_count(pages: Seq<Option<PageTree>>, total: u64) -> int {
    let wanted: int = if total >= 2 {
        total - 1
    } else {
        0
    };
    if pages.len() <= wanted {
        pages.len() as int
    } else {
        wanted
    }
}

/// Replays a whole crawl on given page outcomes: the first page's
/// decoded tree, then one outcome per page from 2 through the discovered
/// total (`None` is a page whose fetch failed every attempt; outcomes
/// past the vector's end count as failed). A first page without an
/// item-listing module fails the run before any later page is looked at;
/// otherwise the run succeeds whatever the later outcomes, and its rows
/// are the header, the first page's records, then each delivered batch's
/// records in order.
#[verifier::loop_isolation(false)]
pub fn run_crawl_model(first: PageTree, later: Vec<Option<PageTree>>) -> (r: Result<
    (u64, Vec<Vec<String>>),
    ScraperError,
>)
    ensures
        match spec_find_listing(first.modules@) {
            None => r matches Err(e) && e matches ScraperError::DataNotFound(c) && c@
                == spec_module_context(1),
            Some(listing) => r matches Ok(out) && out.0 == listing.max_page && out.1.deep_view()
                == spec_output_rows(
                seq![spec_flat_items(listing.groups@)] + spec_later_batches(
                    later@.take(spec_used_count(later@, listing.max_page)),
                ),
            ),
        },
{
    let ghost later0 = later@;
    let (first_items, max_page_opt) = match extract_items(first, 1) {
        Err(e) => {
            return Err(e);
        },
        Ok(p) => p,
    };
    let total: u64 = max_page_opt.unwrap();
    let ghost used = later0.take(spec_used_count(later0, total));
    let mut batches: Vec<Vec<Product>> = Vec::new();
    batches.push(first_items);
    let wanted: u64 = if total >= 2 {
        total - 1
    } else {
        0
    };
    let count: usize = if (later.len() as u64) <= wanted {
        later.len()
    } else {
        wanted as usize
    };
    proof {
        assert(count == spec_used_count(later0, total));
        assert(used.take(0) =~= Seq::<Option<PageTree>>::empty());
        assert(spec_later_batches(Seq::<Option<PageTree>>::empty()) =~= Seq::<
            Seq<Product>,
        >::empty());
        assert(batches_view(batches@) =~= seq![spec_flat_items(
            spec_find_listing(first.modules@)->0.groups@,
        )] + spec_later_batches(used.take(0)));
    }
    let mut later = later;
    let mut k: usize = 0;
    while k < count
        invariant
            k <= count,
            later@ == later0.skip(k as int),
            batches_view(batches@) == seq![spec_flat_items(
                spec_find_listing(first.modules@)->0.groups@,
            )] + spec_later_batches(used.take(k as int)),
        decreases count - k,
    {
        let ghost pre_batches = batches_view(batches@);
        let ghost entry = later0[k as int];
        let page_no: u64 = (k as u64) + 2;
        let e = later.remove(0);
        proof {
            assert(later0.skip(k as int)[0] == later0[k as int]);
            assert(later0.skip(k as int).drop_first() =~= later0.skip(k as int + 1));
        }
        match e {
            None => {},
            Some(tree) => {
                match extract_items(tree, page_no) {
                    Err(_) => {},
                    Ok(p) => {
                        if p.0.len() > 0 {
                            batches.push(p.0);
                        }
                    },
                }
            },
        }
        proof {
            lemma_later_batches_push(used.take(k as int), entry);
            assert(used.take(k as int).push(entry) =~= used.take(k as int + 1));
            assert(batches_view(batches@) =~= pre_batches + spec_entry_batches(entry));
            assert(batches_view(batches@) =~= seq![spec_flat_items(
                spec_find_listing(first.modules@)->0.groups@,
            )] + spec_later_batches(used.take(k as int + 1)));
        }
        k = k + 1;
    }
    proof {
        assert(used.take(count as int) =~= used);
    }
    let rows = sink_rows(&batches);
    Ok((total, rows))
}

/// A page that is skipped takes exactly its own items out of the total:
/// against the same outcomes with that one page delivered, the item
/// total drops by that page's item count, and nothing else changes the
/// run's success.
pub proof fn lemma_skipped_page(pages: Seq<Option<PageTree>>, j: int)
    requires
        0 <= j < pages.len(),
    ensures
        spec_total_items(spec_later_batches(pages.update(j, None))) == spec_total_items(
            spec_later_batches(pages),
        ) - spec_entry_item_count(pages[j]),
    decreases pages.len(),
{
    lemma_total_items_concat(spec_entry_batches(pages[0]), spec_later_batches(pages.drop_first()));
    if j == 0 {
        assert(pages.update(0, None).drop_first() =~= pages.drop_first());
        assert(spec_entry_batches(pages.update(0, None)[0]) =~= Seq::<Seq<Product>>::empty());
        assert(spec_later_batches(pages.update(0, None)) =~= spec_later_batches(
            pages.drop_first(),
        ));
        lemma_entry_count(pages[0]);
    } else {
        lemma_skipped_page(pages.drop_first(), j - 1);
        assert(pages.update(j, None).drop_first() =~= pages.drop_first().update(j - 1, None));
        assert(pages.update(j, None)[0] == pages[0]);
        lemma_total_items_concat(
            spec_entry_batches(pages[0]),
            spec_later_batches(pages.drop_first().update(j - 1, None)),
        );
        assert(spec_later_batches(pages.update(j, None)) =~= spec_entry_batches(pages[0])
            + spec_later_batches(pages.drop_first().update(j - 1, None)));
    }
}

/// One entry's batch holds exactly its item count.
proof fn lemma_entry_count(e: Option<PageTree>)
    ensures
        spec_total_items(spec_entry_batches(e)) == spec_entry_item_count(e),
{
    assert(spec_total_items(Seq::<Seq<Product>>::empty()) == 0);
    match e {
        None => {},
        Some(t) => {
            match spec_find_listing(t.modules@) {
                None => {},
                Some(l) => {
                    if spec_flat_items(l.groups@).len() > 0 {
                        assert(seq![spec_flat_items(l.groups@)].drop_first() =~= Seq::<
                            Seq<Product>,
                        >::empty());
                        assert(spec_total_items(spec_entry_batches(e)) == spec_flat_items(
                            l.groups@,
                        ).len() + spec_total_items(Seq::<Seq<Product>>::empty()));
                    }
                },
            }
        },
    }
}

proof fn lemma_total_items_concat(a: Seq<Seq<Product>>, b: Seq<Seq<Product>>)
    ensures
        spec_total_items(a + b) == spec_total_items(a) + spec_total_items(b),
    decreases a.len(),
{
    if a.len() == 0 {
        assert(a + b =~= b);
    } else {
        lemma_total_items_concat(a.drop_first(), b);
        assert((a + b).drop_first() =~= a.drop_first() + b);
        assert((a + b)[0] == a[0]);
    }
}

/// The row count of a whole run: one header row, the first page's items,
/// and every later item once — and the first page's records are the
/// first data rows, in their extraction order.
pub proof fn lemma_run_row_count(first_items: Seq<Product>, pages: Seq<Option<PageTree>>)
    ensures
        spec_output_rows(seq![first_items] + spec_later_batches(pages)).len() == 1
            + first_items.len() + spec_total_items(spec_later_batches(pages)),
        forall|i: int|
            0 <= i < first_items.len() ==> spec_output_rows(
                seq![first_items] + spec_later_batches(pages),
            )[1 + i] == spec_csv_record(first_items[i]),
{
    let batches = seq![first_items] + spec_later_batches(pages);
    lemma_output_shape(batches);
    lemma_total_items_concat(seq![first_items], spec_later_batches(pages));
    assert(seq![first_items].drop_first() =~= Seq::<Seq<Product>>::empty());
    assert(spec_total_items(seq![first_items]) == first_items.len() + spec_total_items(
        Seq::<Seq<Product>>::empty(),
    ));
    assert(batches[0] == first_items);
}

/// A page whose fetch fails on every attempt is skipped, and only its
/// own items leave the output: against the same outcomes with that page
/// delivered, the run writes exactly that page's item count fewer rows.
pub proof fn lemma_skipped_page_rows(
    first_items: Seq<Product>,
    pages: Seq<Option<PageTree>>,
    j: int,
)
    requires
        0 <= j < pages.len(),
    ensures
        spec_output_rows(seq![first_items] + spec_later_batches(pages.update(j, None))).len()
            == spec_output_rows(seq![first_items] + spec_later_batches(pages)).len()
            - spec_entry_item_count(pages[j]),
{
    lemma_run_row_count(first_items, pages);
    lemma_run_row_count(first_items, pages.update(j, None));
    lemma_skipped_page(pages, j);
}

/// The pages a discovered total schedules after the first: 2 through the
/// total, in order.
#[verifier::loop_isolation(false)]
pub fn pages_to_schedule(total: u64) -> (v: Vec<u64>)
    ensures
        v@.len() == (if total >= 2 {
            total - 1
        } else {
            0
        }),
        forall|i: int| 0 <= i < v@.len() ==> v@[i] == i + 2,
{
    let mut v: Vec<u64> = Vec::new();
    if total < 2 {
        return v;
    }
    let count: u64 = total - 1;
    let mut i: u64 = 0;
    while i < count
        invariant
            i <= count,
            v@.len() == i,
            forall|j: int| 0 <= j < v@.len() ==> v@[j] == j + 2,
        decreases count - i,
    {
        v.push(i + 2);
        i = i + 1;
    }
    v
}

/// The concurrency the scheduler actually uses: the configured limit,
/// clamped to the page count.
pub fn concurrency_limit(total_pages: u64, configured: u64) -> (c: u64)
    ensures
        c == (if total_pages <= configured {
            total_pages
        } else {
            configured
        }),
{
    if total_pages <= configured {
        total_pages
    } else {
        configured
    }
}

} // verus!
