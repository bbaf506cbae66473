//! The tolerant decode of a page's data island against the listing
//! schema, stated as well as implemented: `spec_decode_tree` is the
//! schema — optional fields default (empty string, zero, empty
//! sequence), required fields that are absent or of the wrong shape fail
//! with the context that names them — and every decode function here
//! returns exactly what that specification says of its input's model.

use vstd::prelude::*;
use crate::jsonio::{
    json_get, json_as_str, json_as_u64, json_as_array, json_is_null, json_is_object, json_model,
    spec_get, JsonVal,
};
use crate::product::{BadgeGroup, BadgeMember, GroupModel, Product, ProductModel};

verus! {

/// One item group of the listing module.
pub struct ItemGroup {
    pub items: Vec<Product>,
}

/// The configuration of an item-listing module: the declared maximum
/// page number and the item groups.
pub struct ItemListing {
    pub max_page: u64,
    pub groups: Vec<ItemGroup>,
}

/// One module of the decoded page, by declared type; only item-listing
/// modules carry a listing.
pub struct PageModule {
    pub module_type: String,
    pub listing: Option<ItemListing>,
}

/// The decoded page: its modules, in document order.
pub struct PageTree {
    pub modules: Vec<PageModule>,
}

/// The mathematical shape of an item listing.
#[verifier::ext_equal]
pub struct ListingModel {
    pub max_page: u64,
    pub groups: Seq<Seq<ProductModel>>,
}

/// The mathematical shape of one page module.
#[verifier::ext_equal]
pub struct ModuleModel {
    pub module_type: Seq<char>,
    pub listing: Option<ListingModel>,
}

impl View for ItemGroup {
    type V = Seq<ProductModel>;

    open spec fn view(&self) -> Seq<ProductModel> {
        self.items.deep_view()
    }
}

impl DeepView for ItemGroup {
    type V = Seq<ProductModel>;

    open spec fn deep_view(&self) -> Seq<ProductModel> {
        self@
    }
}

impl View for ItemListing {
    type V = ListingModel;

    open spec fn view(&self) -> ListingModel {
        ListingModel { max_page: self.max_page, groups: self.groups.deep_view() }
    }
}

impl DeepView for ItemListing {
    type V = ListingModel;

    open spec fn deep_view(&self) -> ListingModel {
        self@
    }
}

impl View for PageModule {
    type V = ModuleModel;

    open spec fn view(&self) -> ModuleModel {
        ModuleModel {
            module_type: self.module_type@,
            listing: match self.listing {
                Some(l) => Some(l@),
                None => None,
            },
        }
    }
}

impl DeepView for PageModule {
    type V = ModuleModel;

    open spec fn deep_view(&self) -> ModuleModel {
        self@
    }
}

impl View for PageTree {
    type V = Seq<ModuleModel>;

    open spec fn view(&self) -> Seq<ModuleModel> {
        self.modules.deep_view()
    }
}

impl DeepView for PageTree {
    type V = Seq<ModuleModel>;

    open spec fn deep_view(&self) -> Seq<ModuleModel> {
        self@
    }
}

// ---------------------------------------------------------------------
// The schema, as a specification over JSON models. Each function mirrors
// one decode step below it; the context in an `Err` names the field that
// was missing or of the wrong shape, and an earlier field's failure wins
// over a later one's.
// ---------------------------------------------------------------------

/// A required string field: the object must have the key, and the entry
/// must be a string.
pub open spec fn spec_required_str(j: JsonVal, key: Seq<char>, ctx: Seq<char>) -> Result<
    Seq<char>,
    Seq<char>,
> {
    match spec_get(j, key) {
        None => Err(ctx),
        Some(x) => match x {
            JsonVal::Text(s) => Ok(s),
            _ => Err(ctx),
        },
    }
}

/// An optional string field: an absent key defaults to the empty string,
/// a present entry must be a string.
pub open spec fn spec_optional_str(j: JsonVal, key: Seq<char>, ctx: Seq<char>) -> Result<
    Seq<char>,
    Seq<char>,
> {
    match spec_get(j, key) {
        None => Ok(Seq::empty()),
        Some(x) => match x {
            JsonVal::Text(s) => Ok(s),
            _ => Err(ctx),
        },
    }
}

/// An optional object field holding an optional string: an absent outer
/// key defaults to the empty string; a present outer entry must be an
/// object, inside which the inner key is optional.
pub open spec fn spec_optional_obj_str(
    j: JsonVal,
    okey: Seq<char>,
    ikey: Seq<char>,
    octx: Seq<char>,
    ictx: Seq<char>,
) -> Result<Seq<char>, Seq<char>> {
    match spec_get(j, okey) {
        None => Ok(Seq::empty()),
        Some(o) => if !(o is Obj) {
            Err(octx)
        } else {
            spec_optional_str(o, ikey, ictx)
        },
    }
}

/// The review count: an absent or null field defaults to zero, a present
/// entry must be an unsigned integer.
pub open spec fn spec_decode_reviews(j: JsonVal) -> Result<u64, Seq<char>> {
    match spec_get(j, "numberOfReviews"@) {
        None => Ok(0),
        Some(x) => if x is Null {
            Ok(0)
        } else {
            match x {
                JsonVal::UInt(n) => Ok(n),
                _ => Err("numeric field `numberOfReviews`"@),
            }
        },
    }
}

/// A badge member: its required text.
pub open spec fn spec_decode_member(j: JsonVal) -> Result<Seq<char>, Seq<char>> {
    spec_required_str(j, "text"@, "string field `text` of a badge member"@)
}

pub open spec fn spec_decode_members(elems: Seq<JsonVal>) -> Result<Seq<Seq<char>>, Seq<char>>
    decreases elems.len(),
{
    if elems.len() == 0 {
        Ok(Seq::empty())
    } else {
        match spec_decode_member(elems[0]) {
            Err(c) => Err(c),
            Ok(t) => match spec_decode_members(elems.drop_first()) {
                Err(c) => Err(c),
                Ok(rest) => Ok(seq![t] + rest),
            },
        }
    }
}

/// A badge group: its required name and its members (absent defaults to
/// none, present must be an array).
pub open spec fn spec_decode_group(j: JsonVal) -> Result<GroupModel, Seq<char>> {
    match spec_required_str(j, "name"@, "string field `name` of a badge group"@) {
        Err(c) => Err(c),
        Ok(name) => match spec_get(j, "members"@) {
            None => Ok(GroupModel { name, members: Seq::empty() }),
            Some(m) => match m {
                JsonVal::Arr(elems) => match spec_decode_members(elems) {
                    Err(c) => Err(c),
                    Ok(members) => Ok(GroupModel { name, members }),
                },
                _ => Err("array field `members` of a badge group"@),
            },
        },
    }
}

pub open spec fn spec_decode_groups(elems: Seq<JsonVal>) -> Result<Seq<GroupModel>, Seq<char>>
    decreases elems.len(),
{
    if elems.len() == 0 {
        Ok(Seq::empty())
    } else {
        match spec_decode_group(elems[0]) {
            Err(c) => Err(c),
            Ok(g) => match spec_decode_groups(elems.drop_first()) {
                Err(c) => Err(c),
                Ok(rest) => Ok(seq![g] + rest),
            },
        }
    }
}

/// The badge groups of a product: an absent `badges` field or an absent
/// `groups` field defaults to none; a present `badges` must be an object
/// and a present `groups` an array.
pub open spec fn spec_decode_badges(j: JsonVal) -> Result<Seq<GroupModel>, Seq<char>> {
    match spec_get(j, "badges"@) {
        None => Ok(Seq::empty()),
        Some(b) => if !(b is Obj) {
            Err("object field `badges` of a product"@)
        } else {
            match spec_get(b, "groups"@) {
                None => Ok(Seq::empty()),
                Some(g) => match g {
                    JsonVal::Arr(elems) => spec_decode_groups(elems),
                    _ => Err("array field `groups` of the badges"@),
                },
            }
        },
    }
}

/// A product: a required name; price, thumbnail, review count,
/// availability and badges each default when absent and fail on the
/// wrong shape. An earlier field's failure wins.
pub open spec fn spec_decode_product(j: JsonVal) -> Result<ProductModel, Seq<char>> {
    match spec_required_str(j, "name"@, "string field `name` of a product"@) {
        Err(c) => Err(c),
        Ok(name) => match spec_optional_obj_str(
            j,
            "priceInfo"@,
            "linePriceDisplay"@,
            "object field `priceInfo` of a product"@,
            "string field `linePriceDisplay`"@,
        ) {
            Err(c) => Err(c),
            Ok(display_price) => match spec_optional_obj_str(
                j,
                "imageInfo"@,
                "thumbnailUrl"@,
                "object field `imageInfo` of a product"@,
                "string field `thumbnailUrl`"@,
            ) {
                Err(c) => Err(c),
                Ok(thumbnail_url) => match spec_decode_reviews(j) {
                    Err(c) => Err(c),
                    Ok(review_count) => match spec_optional_obj_str(
                        j,
                        "availabilityStatusV2"@,
                        "value"@,
                        "object field `availabilityStatusV2` of a product"@,
                        "string field `value` of the availability status"@,
                    ) {
                        Err(c) => Err(c),
                        Ok(availability) => match spec_decode_badges(j) {
                            Err(c) => Err(c),
                            Ok(badge_groups) => Ok(
                                ProductModel {
                                    name,
                                    display_price,
                                    thumbnail_url,
                                    review_count,
                                    availability,
                                    badge_groups,
                                },
                            ),
                        },
                    },
                },
            },
        },
    }
}

pub open spec fn spec_decode_products(elems: Seq<JsonVal>) -> Result<Seq<ProductModel>, Seq<char>>
    decreases elems.len(),
{
    if elems.len() == 0 {
        Ok(Seq::empty())
    } else {
        match spec_decode_product(elems[0]) {
            Err(c) => Err(c),
            Ok(p) => match spec_decode_products(elems.drop_first()) {
                Err(c) => Err(c),
                Ok(rest) => Ok(seq![p] + rest),
            },
        }
    }
}

/// One item group: its required `items` array of products.
pub open spec fn spec_decode_stack(j: JsonVal) -> Result<Seq<ProductModel>, Seq<char>> {
    match spec_get(j, "items"@) {
        None => Err("array field `items` of an item group"@),
        Some(x) => match x {
            JsonVal::Arr(elems) => spec_decode_products(elems),
            _ => Err("array field `items` of an item group"@),
        },
    }
}

pub open spec fn spec_decode_stacks(elems: Seq<JsonVal>) -> Result<
    Seq<Seq<ProductModel>>,
    Seq<char>,
>
    decreases elems.len(),
{
    if elems.len() == 0 {
        Ok(Seq::empty())
    } else {
        match spec_decode_stack(elems[0]) {
            Err(c) => Err(c),
            Ok(g) => match spec_decode_stacks(elems.drop_first()) {
                Err(c) => Err(c),
                Ok(rest) => Ok(seq![g] + rest),
            },
        }
    }
}

/// An item-listing configuration: its required pagination with the
/// required numeric `maxPage`, then its required `itemStacks` array.
pub open spec fn spec_decode_listing(j: JsonVal) -> Result<ListingModel, Seq<char>> {
    match spec_get(j, "paginationV2"@) {
        None => Err("field `paginationV2` of the item-listing module"@),
        Some(p) => match spec_get(p, "maxPage"@) {
            None => Err("numeric field `maxPage` of the pagination"@),
            Some(x) => match x {
                JsonVal::UInt(max_page) => match spec_get(j, "itemStacks"@) {
                    None => Err("array field `itemStacks` of the item-listing module"@),
                    Some(s) => match s {
                        JsonVal::Arr(elems) => match spec_decode_stacks(elems) {
                            Err(c) => Err(c),
                            Ok(groups) => Ok(ListingModel { max_page, groups }),
                        },
                        _ => Err("array field `itemStacks` of the item-listing module"@),
                    },
                },
                _ => Err("numeric field `maxPage` of the pagination"@),
            },
        },
    }
}

/// One module: its required type; its configuration and the listing
/// inside it are both optional (absent or null defaults to none), and a
/// present configuration must be an object.
pub open spec fn spec_decode_module(j: JsonVal) -> Result<ModuleModel, Seq<char>> {
    match spec_required_str(j, "type"@, "string field `type` of a module"@) {
        Err(c) => Err(c),
        Ok(module_type) => match spec_get(j, "configs"@) {
            None => Ok(ModuleModel { module_type, listing: None }),
            Some(c) => if c is Null {
                Ok(ModuleModel { module_type, listing: None })
            } else if !(c is Obj) {
                Err("object field `configs` of a module"@)
            } else {
                match spec_get(c, "itemStacks"@) {
                    None => Ok(ModuleModel { module_type, listing: None }),
                    Some(x) => if x is Null {
                        Ok(ModuleModel { module_type, listing: None })
                    } else {
                        match spec_decode_listing(x) {
                            Err(cc) => Err(cc),
                            Ok(l) => Ok(ModuleModel { module_type, listing: Some(l) }),
                        }
                    },
                }
            },
        },
    }
}

pub open spec fn spec_decode_modules(elems: Seq<JsonVal>) -> Result<Seq<ModuleModel>, Seq<char>>
    decreases elems.len(),
{
    if elems.len() == 0 {
        Ok(Seq::empty())
    } else {
        match spec_decode_module(elems[0]) {
            Err(c) => Err(c),
            Ok(m) => match spec_decode_modules(elems.drop_first()) {
                Err(c) => Err(c),
                Ok(rest) => Ok(seq![m] + rest),
            },
        }
    }
}

/// The whole data island: the nested path down to the required module
/// array, then each module in document order.
pub open spec fn spec_decode_tree(j: JsonVal) -> Result<Seq<ModuleModel>, Seq<char>> {
    match spec_get(j, "props"@) {
        None => Err("object field `props`"@),
        Some(p) => match spec_get(p, "pageProps"@) {
            None => Err("object field `pageProps`"@),
            Some(pp) => match spec_get(pp, "initialData"@) {
                None => Err("object field `initialData`"@),
                Some(id) => match spec_get(id, "contentLayout"@) {
                    None => Err("object field `contentLayout`"@),
                    Some(cl) => match spec_get(cl, "modules"@) {
                        None => Err("array field `modules`"@),
                        Some(m) => match m {
                            JsonVal::Arr(elems) => spec_decode_modules(elems),
                            _ => Err("array field `modules`"@),
                        },
                    },
                },
            },
        },
    }
}

// ---------------------------------------------------------------------
// The decode itself. Each function returns exactly what the schema above
// says of its input's model.
// ---------------------------------------------------------------------

/// A required string field of an object.
fn required_str(v: &serde_json::Value, key: &str, context: &str) -> (r: Result<String, String>)
    ensures
        match spec_required_str(json_model(*v), key@, context@) {
            Ok(s) => r matches Ok(t) && t@ == s,
            Err(c) => r matches Err(m) && m@ == c,
        },
{
    match json_get(v, key) {
        None => Err(String::from_str(context)),
        Some(x) => match json_as_str(x) {
            None => Err(String::from_str(context)),
            Some(s) => Ok(String::from_str(s)),
        },
    }
}

/// An optional string field: absent fields default to the empty string,
/// present fields must be strings.
fn optional_str(v: &serde_json::Value, key: &str, context: &str) -> (r: Result<String, String>)
    ensures
        match spec_optional_str(json_model(*v), key@, context@) {
            Ok(s) => r matches Ok(t) && t@ == s,
            Err(c) => r matches Err(m) && m@ == c,
        },
{
    match json_get(v, key) {
        None => Ok(String::new()),
        Some(x) => match json_as_str(x) {
            None => Err(String::from_str(context)),
            Some(s) => Ok(String::from_str(s)),
        },
    }
}

/// An optional object field holding an optional string.
fn optional_obj_str(
    v: &serde_json::Value,
    okey: &str,
    ikey: &str,
    octx: &str,
    ictx: &str,
) -> (r: Result<String, String>)
    ensures
        match spec_optional_obj_str(json_model(*v), okey@, ikey@, octx@, ictx@) {
            Ok(s) => r matches Ok(t) && t@ == s,
            Err(c) => r matches Err(m) && m@ == c,
        },
{
    match json_get(v, okey) {
        None => Ok(String::new()),
        Some(o) => {
            if !json_is_object(o) {
                return Err(String::from_str(octx));
            }
            optional_str(o, ikey, ictx)
        },
    }
}

/// The review count, with its absent-or-null default.
fn decode_reviews(v: &serde_json::Value) -> (r: Result<u64, String>)
    ensures
        match spec_decode_reviews(json_model(*v)) {
            Ok(n) => r matches Ok(x) && x == n,
            Err(c) => r matches Err(m) && m@ == c,
        },
{
    match json_get(v, "numberOfReviews") {
        None => Ok(0),
        Some(x) => {
            if json_is_null(x) {
                Ok(0)
            } else {
                match json_as_u64(x) {
                    Some(n) => Ok(n),
                    None => Err(String::from_str("numeric field `numberOfReviews`")),
                }
            }
        },
    }
}

fn decode_member(v: &serde_json::Value) -> (r: Result<BadgeMember, String>)
    ensures
        match spec_decode_member(json_model(*v)) {
            Ok(t) => r matches Ok(b) && b@ == t,
            Err(c) => r matches Err(m) && m@ == c,
        },
{
    match required_str(v, "text", "string field `text` of a badge member") {
        Ok(text) => Ok(BadgeMember { text }),
        Err(e) => Err(e),
    }
}

#[verifier::loop_isolation(false)]
fn decode_group(v: &serde_json::Value) -> (r: Result<BadgeGroup, String>)
    ensures
        match spec_decode_group(json_model(*v)) {
            Ok(g) => r matches Ok(x) && x@ == g,
            Err(c) => r matches Err(m) && m@ == c,
        },
{
    let name = match required_str(v, "name", "string field `name` of a badge group") {
        Ok(t) => t,
        Err(e) => {
            return Err(e);
        },
    };
    let mut members: Vec<BadgeMember> = Vec::new();
    match json_get(v, "members") {
        None => {},
        Some(m) => match json_as_array(m) {
            None => {
                return Err(String::from_str("array field `members` of a badge group"));
            },
            Some(arr) => {
                let ghost elems: Seq<JsonVal> = (match json_model(*m) {
                    JsonVal::Arr(e) => e,
                    _ => arbitrary(),
                });
                proof {
                    assert(elems.skip(0) =~= elems);
                    assert(members.deep_view() =~= Seq::<Seq<char>>::empty());
                    if let Ok(all) = spec_decode_members(elems) {
                        assert(members.deep_view() + all =~= all);
                    }
                }
                let mut i: usize = 0;
                while i < arr.len()
                    invariant
                        i <= arr@.len(),
                        elems.len() == arr@.len(),
                        forall|k: int|
                            0 <= k < elems.len() ==> json_model(#[trigger] arr@[k]) == elems[k],
                        match spec_decode_members(elems.skip(i as int)) {
                            Ok(rest) => spec_decode_members(elems) == Ok::<
                                Seq<Seq<char>>,
                                Seq<char>,
                            >(members.deep_view() + rest),
                            Err(c) => spec_decode_members(elems) == Err::<
                                Seq<Seq<char>>,
                                Seq<char>,
                            >(c),
                        },
                    decreases arr@.len() - i,
                {
                    proof {
                        assert(json_model(arr@[i as int]) == elems[i as int]);
                        assert(elems.skip(i as int)[0] == elems[i as int]);
                        assert(elems.skip(i as int).drop_first() =~= elems.skip(i as int + 1));
                    }
                    match decode_member(&arr[i]) {
                        Err(e) => {
                            return Err(e);
                        },
                        Ok(b) => {
                            let ghost pre = members.deep_view();
                            members.push(b);
                            proof {
                                assert(members.deep_view() =~= pre.push(b@));
                                if let Ok(rest) = spec_decode_members(elems.skip(i as int + 1)) {
                                    assert(pre.push(b@) + rest =~= pre + (seq![b@] + rest));
                                }
                            }
                        },
                    }
                    i = i + 1;
                }
                proof {
                    assert(elems.skip(arr@.len() as int) =~= Seq::<JsonVal>::empty());
                    assert(members.deep_view() + Seq::<Seq<char>>::empty() =~= members.deep_view());
                }
            },
        },
    }
    let g = BadgeGroup { name, members };
    proof {
        if let Ok(gm) = spec_decode_group(json_model(*v)) {
            assert(g@ =~= gm);
        }
    }
    Ok(g)
}

/// The badge groups of a product.
#[verifier::loop_isolation(false)]
fn decode_badges(v: &serde_json::Value) -> (r: Result<Vec<BadgeGroup>, String>)
    ensures
        match spec_decode_badges(json_model(*v)) {
            Ok(gs) => r matches Ok(x) && x.deep_view() == gs,
            Err(c) => r matches Err(m) && m@ == c,
        },
{
    let mut badge_groups: Vec<BadgeGroup> = Vec::new();
    match json_get(v, "badges") {
        None => {},
        Some(b) => {
            if !json_is_object(b) {
                return Err(String::from_str("object field `badges` of a product"));
            }
            match json_get(b, "groups") {
                None => {},
                Some(g) => match json_as_array(g) {
                    None => {
                        return Err(String::from_str("array field `groups` of the badges"));
                    },
                    Some(arr) => {
                        let ghost elems: Seq<JsonVal> = (match json_model(*g) {
                            JsonVal::Arr(e) => e,
                            _ => arbitrary(),
                        });
                        proof {
                            assert(elems.skip(0) =~= elems);
                            assert(badge_groups.deep_view() =~= Seq::<GroupModel>::empty());
                            if let Ok(all) = spec_decode_groups(elems) {
                                assert(badge_groups.deep_view() + all =~= all);
                            }
                        }
                        let mut i: usize = 0;
                        while i < arr.len()
                            invariant
                                i <= arr@.len(),
                                elems.len() == arr@.len(),
                                forall|k: int|
                                    0 <= k < elems.len() ==> json_model(#[trigger] arr@[k])
                                        == elems[k],
                                match spec_decode_groups(elems.skip(i as int)) {
                                    Ok(rest) => spec_decode_groups(elems) == Ok::<
                                        Seq<GroupModel>,
                                        Seq<char>,
                                    >(badge_groups.deep_view() + rest),
                                    Err(c) => spec_decode_groups(elems) == Err::<
                                        Seq<GroupModel>,
                                        Seq<char>,
                                    >(c),
                                },
                            decreases arr@.len() - i,
                        {
                            proof {
                                assert(json_model(arr@[i as int]) == elems[i as int]);
                                assert(elems.skip(i as int)[0] == elems[i as int]);
                                assert(elems.skip(i as int).drop_first() =~= elems.skip(
                                    i as int + 1,
                                ));
                            }
                            match decode_group(&arr[i]) {
                                Err(e) => {
                                    return Err(e);
                                },
                                Ok(gr) => {
                                    let ghost pre = badge_groups.deep_view();
                                    badge_groups.push(gr);
                                    proof {
                                        assert(badge_groups.deep_view() =~= pre.push(gr@));
                                        if let Ok(rest) = spec_decode_groups(
                                            elems.skip(i as int + 1),
                                        ) {
                                            assert(pre.push(gr@) + rest =~= pre + (seq![gr@]
                                                + rest));
                                        }
                                    }
                                },
                            }
                            i = i + 1;
                        }
                        proof {
                            assert(elems.skip(arr@.len() as int) =~= Seq::<JsonVal>::empty());
                            assert(badge_groups.deep_view() + Seq::<GroupModel>::empty()
                                =~= badge_groups.deep_view());
                        }
                    },
                },
            }
        },
    }
    Ok(badge_groups)
}

fn decode_product(v: &serde_json::Value) -> (r: Result<Product, String>)
    ensures
        match spec_decode_product(json_model(*v)) {
            Ok(p) => r matches Ok(x) && x@ == p,
            Err(c) => r matches Err(m) && m@ == c,
        },
{
    let name = match required_str(v, "name", "string field `name` of a product") {
        Ok(t) => t,
        Err(e) => {
            return Err(e);
        },
    };
    let display_price = match optional_obj_str(
        v,
        "priceInfo",
        "linePriceDisplay",
        "object field `priceInfo` of a product",
        "string field `linePriceDisplay`",
    ) {
        Ok(t) => t,
        Err(e) => {
            return Err(e);
        },
    };
    let thumbnail_url = match optional_obj_str(
        v,
        "imageInfo",
        "thumbnailUrl",
        "object field `imageInfo` of a product",
        "string field `thumbnailUrl`",
    ) {
        Ok(t) => t,
        Err(e) => {
            return Err(e);
        },
    };
    let review_count = match decode_reviews(v) {
        Ok(n) => n,
        Err(e) => {
            return Err(e);
        },
    };
    let availability = match optional_obj_str(
        v,
        "availabilityStatusV2",
        "value",
        "object field `availabilityStatusV2` of a product",
        "string field `value` of the availability status",
    ) {
        Ok(t) => t,
        Err(e) => {
            return Err(e);
        },
    };
    let badge_groups = match decode_badges(v) {
        Ok(g) => g,
        Err(e) => {
            return Err(e);
        },
    };
    let p = Product { name, display_price, thumbnail_url, review_count, availability, badge_groups };
    proof {
        if let Ok(pm) = spec_decode_product(json_model(*v)) {
            assert(p@ =~= pm);
        }
    }
    Ok(p)
}

/// One item group: its required `items` array of products.
#[verifier::loop_isolation(false)]
fn decode_stack(v: &serde_json::Value) -> (r: Result<Vec<Product>, String>)
    ensures
        match spec_decode_stack(json_model(*v)) {
            Ok(ps) => r matches Ok(x) && x.deep_view() == ps,
            Err(c) => r matches Err(m) && m@ == c,
        },
{
    match json_get(v, "items") {
        None => Err(String::from_str("array field `items` of an item group")),
        Some(x) => match json_as_array(x) {
            None => Err(String::from_str("array field `items` of an item group")),
            Some(arr) => {
                let ghost elems: Seq<JsonVal> = (match json_model(*x) {
                    JsonVal::Arr(e) => e,
                    _ => arbitrary(),
                });
                let mut items: Vec<Product> = Vec::new();
                proof {
                    assert(elems.skip(0) =~= elems);
                    assert(items.deep_view() =~= Seq::<ProductModel>::empty());
                    if let Ok(all) = spec_decode_products(elems) {
                        assert(items.deep_view() + all =~= all);
                    }
                }
                let mut i: usize = 0;
                while i < arr.len()
                    invariant
                        i <= arr@.len(),
                        elems.len() == arr@.len(),
                        forall|k: int|
                            0 <= k < elems.len() ==> json_model(#[trigger] arr@[k]) == elems[k],
                        match spec_decode_products(elems.skip(i as int)) {
                            Ok(rest) => spec_decode_products(elems) == Ok::<
                                Seq<ProductModel>,
                                Seq<char>,
                            >(items.deep_view() + rest),
                            Err(c) => spec_decode_products(elems) == Err::<
                                Seq<ProductModel>,
                                Seq<char>,
                            >(c),
                        },
                    decreases arr@.len() - i,
                {
                    proof {
                        assert(json_model(arr@[i as int]) == elems[i as int]);
                        assert(elems.skip(i as int)[0] == elems[i as int]);
                        assert(elems.skip(i as int).drop_first() =~= elems.skip(i as int + 1));
                    }
                    match decode_product(&arr[i]) {
                        Err(e) => {
                            return Err(e);
                        },
                        Ok(p) => {
                            let ghost pre = items.deep_view();
                            items.push(p);
                            proof {
                                assert(items.deep_view() =~= pre.push(p@));
                                if let Ok(rest) = spec_decode_products(elems.skip(i as int + 1)) {
                                    assert(pre.push(p@) + rest =~= pre + (seq![p@] + rest));
                                }
                            }
                        },
                    }
                    i = i + 1;
                }
                proof {
                    assert(elems.skip(arr@.len() as int) =~= Seq::<JsonVal>::empty());
                    assert(items.deep_view() + Seq::<ProductModel>::empty() =~= items.deep_view());
                }
                Ok(items)
            },
        },
    }
}

/// Decodes the configuration of an item-listing module: its pagination
/// (required) and its item groups (required, possibly empty).
#[verifier::loop_isolation(false)]
fn decode_listing(v: &serde_json::Value) -> (r: Result<ItemListing, String>)
    ensures
        match spec_decode_listing(json_model(*v)) {
            Ok(l) => r matches Ok(x) && x@ == l,
            Err(c) => r matches Err(m) && m@ == c,
        },
{
    let max_page: u64 = match json_get(v, "paginationV2") {
        None => {
            return Err(String::from_str("field `paginationV2` of the item-listing module"));
        },
        Some(p) => match json_get(p, "maxPage") {
            None => {
                return Err(String::from_str("numeric field `maxPage` of the pagination"));
            },
            Some(x) => match json_as_u64(x) {
                Some(n) => n,
                None => {
                    return Err(String::from_str("numeric field `maxPage` of the pagination"));
                },
            },
        },
    };
    match json_get(v, "itemStacks") {
        None => Err(String::from_str("array field `itemStacks` of the item-listing module")),
        Some(s) => match json_as_array(s) {
            None => Err(String::from_str("array field `itemStacks` of the item-listing module")),
            Some(arr) => {
                let ghost elems: Seq<JsonVal> = (match json_model(*s) {
                    JsonVal::Arr(e) => e,
                    _ => arbitrary(),
                });
                let mut groups: Vec<ItemGroup> = Vec::new();
                proof {
                    assert(elems.skip(0) =~= elems);
                    assert(groups.deep_view() =~= Seq::<Seq<ProductModel>>::empty());
                    if let Ok(all) = spec_decode_stacks(elems) {
                        assert(groups.deep_view() + all =~= all);
                    }
                }
                let mut i: usize = 0;
                while i < arr.len()
                    invariant
                        i <= arr@.len(),
                        elems.len() == arr@.len(),
                        forall|k: int|
                            0 <= k < elems.len() ==> json_model(#[trigger] arr@[k]) == elems[k],
                        match spec_decode_stacks(elems.skip(i as int)) {
                            Ok(rest) => spec_decode_stacks(elems) == Ok::<
                                Seq<Seq<ProductModel>>,
                                Seq<char>,
                            >(groups.deep_view() + rest),
                            Err(c) => spec_decode_stacks(elems) == Err::<
                                Seq<Seq<ProductModel>>,
                                Seq<char>,
                            >(c),
                        },
                    decreases arr@.len() - i,
                {
                    proof {
                        assert(json_model(arr@[i as int]) == elems[i as int]);
                        assert(elems.skip(i as int)[0] == elems[i as int]);
                        assert(elems.skip(i as int).drop_first() =~= elems.skip(i as int + 1));
                    }
                    match decode_stack(&arr[i]) {
                        Err(e) => {
                            return Err(e);
                        },
                        Ok(items) => {
                            let ghost pre = groups.deep_view();
                            let ghost items_model = items.deep_view();
                            groups.push(ItemGroup { items });
                            proof {
                                assert(groups.deep_view() =~= pre.push(items_model));
                                if let Ok(rest) = spec_decode_stacks(elems.skip(i as int + 1)) {
                                    assert(pre.push(items_model) + rest =~= pre + (seq![items_model]
                                        + rest));
                                }
                            }
                        },
                    }
                    i = i + 1;
                }
                proof {
                    assert(elems.skip(arr@.len() as int) =~= Seq::<JsonVal>::empty());
                    assert(groups.deep_view() + Seq::<Seq<ProductModel>>::empty()
                        =~= groups.deep_view());
                }
                let l = ItemListing { max_page, groups };
                proof {
                    if let Ok(lm) = spec_decode_listing(json_model(*v)) {
                        assert(l@ =~= lm);
                    }
                }
                Ok(l)
            },
        },
    }
}

fn decode_module(v: &serde_json::Value) -> (r: Result<PageModule, String>)
    ensures
        match spec_decode_module(json_model(*v)) {
            Ok(m) => r matches Ok(x) && x@ == m,
            Err(c) => r matches Err(s) && s@ == c,
        },
{
    let module_type = match required_str(v, "type", "string field `type` of a module") {
        Ok(t) => t,
        Err(e) => {
            return Err(e);
        },
    };
    let listing: Option<ItemListing> = match json_get(v, "configs") {
        None => None,
        Some(c) => {
            if json_is_null(c) {
                None
            } else {
                if !json_is_object(c) {
                    return Err(String::from_str("object field `configs` of a module"));
                }
                match json_get(c, "itemStacks") {
                    None => None,
                    Some(x) => {
                        if json_is_null(x) {
                            None
                        } else {
                            match decode_listing(x) {
                                Ok(l) => Some(l),
                                Err(e) => {
                                    return Err(e);
                                },
                            }
                        }
                    },
                }
            }
        },
    };
    let m = PageModule { module_type, listing };
    proof {
        if let Ok(mm) = spec_decode_module(json_model(*v)) {
            assert(m@ =~= mm);
        }
    }
    Ok(m)
}

/// Decodes the whole data island against the schema stated by
/// `spec_decode_tree`.
#[verifier::loop_isolation(false)]
pub(crate) fn decode_page_tree(v: &serde_json::Value) -> (r: Result<PageTree, String>)
    ensures
        match spec_decode_tree(json_model(*v)) {
            Ok(mods) => r matches Ok(t) && t@ == mods,
            Err(c) => r matches Err(m) && m@ == c,
        },
{
    let props = match json_get(v, "props") {
        None => {
            return Err(String::from_str("object field `props`"));
        },
        Some(x) => x,
    };
    let page_props = match json_get(props, "pageProps") {
        None => {
            return Err(String::from_str("object field `pageProps`"));
        },
        Some(x) => x,
    };
    let initial_data = match json_get(page_props, "initialData") {
        None => {
            return Err(String::from_str("object field `initialData`"));
        },
        Some(x) => x,
    };
    let content_layout = match json_get(initial_data, "contentLayout") {
        None => {
            return Err(String::from_str("object field `contentLayout`"));
        },
        Some(x) => x,
    };
    let modules_v = match json_get(content_layout, "modules") {
        None => {
            return Err(String::from_str("array field `modules`"));
        },
        Some(x) => x,
    };
    match json_as_array(modules_v) {
        None => Err(String::from_str("array field `modules`")),
        Some(arr) => {
            let ghost elems: Seq<JsonVal> = (match json_model(*modules_v) {
                JsonVal::Arr(e) => e,
                _ => arbitrary(),
            });
            let mut modules: Vec<PageModule> = Vec::new();
            proof {
                assert(elems.skip(0) =~= elems);
                assert(modules.deep_view() =~= Seq::<ModuleModel>::empty());
                if let Ok(all) = spec_decode_modules(elems) {
                    assert(modules.deep_view() + all =~= all);
                }
            }
            let mut i: usize = 0;
            while i < arr.len()
                invariant
                    i <= arr@.len(),
                    elems.len() == arr@.len(),
                    forall|k: int|
                        0 <= k < elems.len() ==> json_model(#[trigger] arr@[k]) == elems[k],
                    match spec_decode_modules(elems.skip(i as int)) {
                        Ok(rest) => spec_decode_modules(elems) == Ok::<
                            Seq<ModuleModel>,
                            Seq<char>,
                        >(modules.deep_view() + rest),
                        Err(c) => spec_decode_modules(elems) == Err::<
                            Seq<ModuleModel>,
                            Seq<char>,
                        >(c),
                    },
                decreases arr@.len() - i,
            {
                proof {
                    assert(json_model(arr@[i as int]) == elems[i as int]);
                    assert(elems.skip(i as int)[0] == elems[i as int]);
                    assert(elems.skip(i as int).drop_first() =~= elems.skip(i as int + 1));
                }
                match decode_module(&arr[i]) {
                    Err(e) => {
                        return Err(e);
                    },
                    Ok(m) => {
                        let ghost pre = modules.deep_view();
                        modules.push(m);
                        proof {
                            assert(modules.deep_view() =~= pre.push(m@));
                            if let Ok(rest) = spec_decode_modules(elems.skip(i as int + 1)) {
                                assert(pre.push(m@) + rest =~= pre + (seq![m@] + rest));
                            }
                        }
                    },
                }
                i = i + 1;
            }
            proof {
                assert(elems.skip(arr@.len() as int) =~= Seq::<JsonVal>::empty());
                assert(modules.deep_view() + Seq::<ModuleModel>::empty() =~= modules.deep_view());
            }
            Ok(PageTree { modules })
        },
    }
}

} // verus!
