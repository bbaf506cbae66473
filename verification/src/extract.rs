//! Extraction: from a page's raw body to its product batch and, on the
//! first page, the declared total page count. The walk over the decoded
//! page — first item-listing module wins, its item groups are flattened
//! in order — is stated exactly; the two trusted steps before it (island
//! lookup, JSON parse) are pinned through their named results.

use vstd::prelude::*;
use crate::decode::{
    decode_page_tree, spec_decode_tree, ItemGroup, ItemListing, ListingModel, ModuleModel,
    PageModule, PageTree,
};
use crate::errors::ScraperError;
use crate::island::{find_data_island, island_of};
use crate::jsonio::{json_doc, json_parses, parse_json};
use crate::product::{Product, ProductModel};
use crate::text::{spec_u64_digits, str_eq, u64_to_string};

verus! {

/// The models of a sequence of products.
pub open spec fn products_model(ps: Seq<Product>) -> Seq<ProductModel> {
    ps.map_values(|p: Product| p@)
}

/// The models of a sequence of item groups.
pub open spec fn groups_model(gs: Seq<ItemGroup>) -> Seq<Seq<ProductModel>> {
    gs.map_values(|g: ItemGroup| g@)
}

/// The models of a sequence of page modules.
pub open spec fn modules_model(mods: Seq<PageModule>) -> Seq<ModuleModel> {
    mods.map_values(|m: PageModule| m@)
}

/// The first item-listing module of a decoded page's model.
pub open spec fn spec_find_listing_model(mods: Seq<ModuleModel>) -> Option<ListingModel>
    decreases mods.len(),
{
    if mods.len() == 0 {
        None
    } else if mods[0].module_type == "ItemStack"@ && mods[0].listing is Some {
        mods[0].listing
    } else {
        spec_find_listing_model(mods.drop_first())
    }
}

/// The items of a listing model's groups, flattened in order.
pub open spec fn spec_flat_model(groups: Seq<Seq<ProductModel>>) -> Seq<ProductModel>
    decreases groups.len(),
{
    if groups.len() == 0 {
        Seq::empty()
    } else {
        groups[0] + spec_flat_model(groups.drop_first())
    }
}

/// The walk and its model walk agree: the page has a listing module
/// exactly when its model has one, and then the found listings match.
proof fn lemma_find_listing_view(mods: Seq<PageModule>)
    ensures
        match spec_find_listing(mods) {
            None => spec_find_listing_model(modules_model(mods)) is None,
            Some(l) => spec_find_listing_model(modules_model(mods)) == Some(l@),
        },
    decreases mods.len(),
{
    if mods.len() > 0 {
        lemma_find_listing_view(mods.drop_first());
        assert(modules_model(mods)[0] == mods[0]@);
        assert(modules_model(mods).drop_first() =~= modules_model(mods.drop_first()));
    }
}

/// Flattening and taking models commute.
proof fn lemma_flat_items_view(groups: Seq<ItemGroup>)
    ensures
        products_model(spec_flat_items(groups)) == spec_flat_model(groups_model(groups)),
    decreases groups.len(),
{
    if groups.len() == 0 {
        assert(products_model(spec_flat_items(groups)) =~= Seq::<ProductModel>::empty());
        assert(spec_flat_model(groups_model(groups)) =~= Seq::<ProductModel>::empty());
    } else {
        lemma_flat_items_view(groups.drop_first());
        assert(groups_model(groups)[0] == groups[0]@);
        assert(groups_model(groups).drop_first() =~= groups_model(groups.drop_first()));
        assert(products_model(groups[0].items@ + spec_flat_items(groups.drop_first()))
            =~= products_model(groups[0].items@) + products_model(
            spec_flat_items(groups.drop_first()),
        ));
        assert(groups[0]@ =~= products_model(groups[0].items@));
    }
}

/// The configuration of the first module whose declared type is
/// `ItemStack` and which carries an item listing, if any.
pub open spec fn spec_find_listing(mods: Seq<crate::decode::PageModule>) -> Option<ItemListing>
    decreases mods.len(),
{
    if mods.len() == 0 {
        None
    } else if mods[0].module_type@ == "ItemStack"@ && mods[0].listing is Some {
        mods[0].listing
    } else {
        spec_find_listing(mods.drop_first())
    }
}

/// The items of all item groups, flattened in order.
pub open spec fn spec_flat_items(groups: Seq<ItemGroup>) -> Seq<Product>
    decreases groups.len(),
{
    if groups.len() == 0 {
        Seq::empty()
    } else {
        groups[0].items@ + spec_flat_items(groups.drop_first())
    }
}

/// The context naming the listing module missing from a page.
pub open spec fn spec_module_context(page: u64) -> Seq<char> {
    "ItemStack module on page "@ + spec_u64_digits(page as nat)
}

/// The context naming the data island missing from a page.
pub open spec fn spec_island_context(page: u64) -> Seq<char> {
    "__NEXT_DATA__ script tag on page "@ + spec_u64_digits(page as nat)
}

/// Walks a decoded page: the first item-listing module provides the
/// flattened item batch and — only on page 1 — the declared maximum page
/// number. A page without such a module has no data to offer.
#[verifier::loop_isolation(false)]
pub fn extract_items(tree: PageTree, page: u64) -> (r: Result<
    (Vec<Product>, Option<u64>),
    ScraperError,
>)
    ensures
        match spec_find_listing(tree.modules@) {
            None => r matches Err(e) && e matches ScraperError::DataNotFound(c) && c@
                == spec_module_context(page),
            Some(listing) => r matches Ok(p) && p.0@ == spec_flat_items(listing.groups@) && p.1 == (
            if page == 1 {
                Some(listing.max_page)
            } else {
                None::<u64>
            }),
        },
{
    let ghost mods = tree.modules@;
    let mut modules = tree.modules;
    proof {
        assert(mods.skip(0) =~= mods);
    }
    let mut i: usize = 0;
    while i < modules.len()
        invariant
            i <= mods.len(),
            modules@ == mods,
            spec_find_listing(mods) == spec_find_listing(mods.skip(i as int)),
        decreases mods.len() - i,
    {
        proof {
            assert(mods.skip(i as int)[0] == mods[i as int]);
            assert(mods.skip(i as int).drop_first() =~= mods.skip(i as int + 1));
        }
        let found = str_eq(modules[i].module_type.as_str(), "ItemStack") && modules[i].listing.is_some();
        if found {
            let m = modules.remove(i);
            let listing = m.listing.unwrap();
            let max_page: Option<u64> = if page == 1 {
                Some(listing.max_page)
            } else {
                None
            };
            let mut groups = listing.groups;
            let ghost gs = groups@;
            let mut items: Vec<Product> = Vec::new();
            while groups.len() > 0
                invariant
                    items@ + spec_flat_items(groups@) == spec_flat_items(gs),
                decreases groups.len(),
            {
                let ghost pre_groups = groups@;
                let ghost pre_items = items@;
                let mut g = groups.remove(0);
                items.append(&mut g.items);
                proof {
                    assert(pre_groups.drop_first() =~= groups@);
                    assert(items@ + spec_flat_items(groups@) =~= pre_items + spec_flat_items(
                        pre_groups,
                    ));
                }
            }
            proof {
                assert(items@ =~= items@ + spec_flat_items(groups@));
            }
            return Ok((items, max_page));
        }
        i = i + 1;
    }
    proof {
        assert(mods.skip(mods.len() as int) =~= Seq::<crate::decode::PageModule>::empty());
    }
    let mut context = String::from_str("ItemStack module on page ");
    let digits = u64_to_string(page);
    context.append(digits.as_str());
    Err(ScraperError::DataNotFound(context))
}

/// The compute half of scraping one page: locates the data island in the
/// body, parses it as JSON, decodes it tolerantly, and walks it for the
/// item batch. Failures name what is missing: no data island is
/// `DataNotFound`; text that is not well-formed JSON, or JSON that
/// violates the schema beyond its optional fields, is a JSON error.
pub fn extract_page(body: &str, page: u64) -> (r: Result<
    (Vec<Product>, Option<u64>),
    ScraperError,
>)
    ensures
        island_of(body@) is None ==> (r matches Err(e) && e matches ScraperError::DataNotFound(c)
            && c@ == spec_island_context(page)),
        (island_of(body@) matches Some(t) && !json_parses(t)) ==> (r matches Err(e)
            && e matches ScraperError::Json(m)),
        r matches Ok(p) ==> island_of(body@) is Some && json_parses(island_of(body@)->0) && (
        p.1 is Some <==> page == 1),
        island_of(body@) matches Some(t) ==> json_parses(t) ==> (match spec_decode_tree(
            json_doc(t)->0,
        ) {
            Err(c) => r matches Err(e) && (e matches ScraperError::Json(m) && m@ == c),
            Ok(mods) => match spec_find_listing_model(mods) {
                None => r matches Err(e) && (e matches ScraperError::DataNotFound(cc) && cc@
                    == spec_module_context(page)),
                Some(listing) => r matches Ok(p) && (p.0.deep_view() == spec_flat_model(
                    listing.groups,
                ) && p.1 == (if page == 1 {
                    Some(listing.max_page)
                } else {
                    None::<u64>
                })),
            },
        }),
{
    let island = match find_data_island(body) {
        None => {
            let mut context = String::from_str("__NEXT_DATA__ script tag on page ");
            let digits = u64_to_string(page);
            context.append(digits.as_str());
            return Err(ScraperError::DataNotFound(context));
        },
        Some(t) => t,
    };
    let value = match parse_json(island.as_str()) {
        Err(m) => {
            return Err(ScraperError::Json(m));
        },
        Ok(v) => v,
    };
    let tree = match decode_page_tree(&value) {
        Err(m) => {
            return Err(ScraperError::Json(m));
        },
        Ok(t) => t,
    };
    let ghost mods_exec = tree.modules@;
    let ghost tree_model = tree@;
    let ghost listing0: ItemListing = (match spec_find_listing(mods_exec) {
        Some(l) => l,
        None => arbitrary(),
    });
    proof {
        assert(modules_model(mods_exec) =~= tree_model);
        lemma_find_listing_view(mods_exec);
        if spec_find_listing(mods_exec) is Some {
            lemma_flat_items_view(listing0.groups@);
            assert(listing0@.groups =~= groups_model(listing0.groups@));
        }
    }
    match extract_items(tree, page) {
        Err(e) => Err(e),
        Ok(p) => {
            proof {
                assert(p.0.deep_view() =~= products_model(p.0@));
            }
            Ok(p)
        },
    }
}

/// The compute half of pagination discovery: page 1's body yields the
/// first page's items and the declared total page count, which gates
/// everything downstream. Any shortfall here — no data island, malformed
/// JSON, no item-listing module — is handed up unchanged, and the run
/// around this call treats it as fatal.
pub fn discover_total_pages(body: &str) -> (r: Result<(Vec<Product>, u64), ScraperError>)
    ensures
        island_of(body@) is None ==> (r matches Err(e) && e matches ScraperError::DataNotFound(c)
            && c@ == spec_island_context(1)),
        (island_of(body@) matches Some(t) && !json_parses(t)) ==> (r matches Err(e)
            && e matches ScraperError::Json(m)),
        r matches Ok(p) ==> island_of(body@) is Some && json_parses(island_of(body@)->0),
        island_of(body@) matches Some(t) ==> json_parses(t) ==> (match spec_decode_tree(
            json_doc(t)->0,
        ) {
            Err(c) => r matches Err(e) && (e matches ScraperError::Json(m) && m@ == c),
            Ok(mods) => match spec_find_listing_model(mods) {
                None => r matches Err(e) && (e matches ScraperError::DataNotFound(cc) && cc@
                    == spec_module_context(1)),
                Some(listing) => r matches Ok(p) && (p.0.deep_view() == spec_flat_model(
                    listing.groups,
                ) && p.1 == listing.max_page),
            },
        }),
{
    match extract_page(body, 1) {
        Err(e) => Err(e),
        Ok((items, max_page_opt)) => Ok((items, max_page_opt.unwrap())),
    }
}

} // verus!
