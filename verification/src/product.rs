//! The product record and what is derived from it at render time: the
//! stock status and the five output columns.

use vstd::prelude::*;
use crate::text::{
    spec_tokens, spec_first_int_token, spec_int_string, spec_u64_digits, split_tokens,
    first_int_token, i32_to_string, u64_to_string, str_eq,
};

verus! {

/// One text label inside a badge group.
pub struct BadgeMember {
    pub text: String,
}

/// A named group of promotional labels attached to a product.
pub struct BadgeGroup {
    pub name: String,
    pub members: Vec<BadgeMember>,
}

/// One listing entry, as decoded from a page's data island.
pub struct Product {
    pub name: String,
    pub display_price: String,
    pub thumbnail_url: String,
    pub review_count: u64,
    pub availability: String,
    pub badge_groups: Vec<BadgeGroup>,
}

/// The mathematical shape of a badge group: its name and its members'
/// texts.
#[verifier::ext_equal]
pub struct GroupModel {
    pub name: Seq<char>,
    pub members: Seq<Seq<char>>,
}

/// The mathematical shape of a product record.
#[verifier::ext_equal]
pub struct ProductModel {
    pub name: Seq<char>,
    pub display_price: Seq<char>,
    pub thumbnail_url: Seq<char>,
    pub review_count: u64,
    pub availability: Seq<char>,
    pub badge_groups: Seq<GroupModel>,
}

impl View for BadgeMember {
    type V = Seq<char>;

    open spec fn view(&self) -> Seq<char> {
        self.text@
    }
}

impl DeepView for BadgeMember {
    type V = Seq<char>;

    open spec fn deep_view(&self) -> Seq<char> {
        self@
    }
}

impl View for BadgeGroup {
    type V = GroupModel;

    open spec fn view(&self) -> GroupModel {
        GroupModel { name: self.name@, members: self.members.deep_view() }
    }
}

impl DeepView for BadgeGroup {
    type V = GroupModel;

    open spec fn deep_view(&self) -> GroupModel {
        self@
    }
}

impl View for Product {
    type V = ProductModel;

    open spec fn view(&self) -> ProductModel {
        ProductModel {
            name: self.name@,
            display_price: self.display_price@,
            thumbnail_url: self.thumbnail_url@,
            review_count: self.review_count,
            availability: self.availability@,
            badge_groups: self.badge_groups.deep_view(),
        }
    }
}

impl DeepView for Product {
    type V = ProductModel;

    open spec fn deep_view(&self) -> ProductModel {
        self@
    }
}

/// The first badge group named `urgency`, if any.
pub open spec fn spec_first_urgency(groups: Seq<BadgeGroup>) -> Option<BadgeGroup>
    decreases groups.len(),
{
    if groups.len() == 0 {
        None
    } else if groups[0].name@ == "urgency"@ {
        Some(groups[0])
    } else {
        spec_first_urgency(groups.drop_first())
    }
}

/// The derived stock status of a product: `"0"` when the raw status is
/// `OUT_OF_STOCK`; otherwise the first integer token in the first
/// member of the first `urgency` badge group; otherwise a fixed
/// availability note.
pub open spec fn spec_stock_status(p: Product) -> Seq<char> {
    if p.availability@ == "OUT_OF_STOCK"@ {
        "0"@
    } else {
        match spec_first_urgency(p.badge_groups@) {
            None => "Available (quantity not specified)"@,
            Some(g) => if g.members@.len() == 0 {
                "Available (quantity not specified)"@
            } else {
                match spec_first_int_token(spec_tokens(g.members@[0].text@)) {
                    None => "Available (quantity not specified)"@,
                    Some(v) => spec_int_string(v),
                }
            },
        }
    }
}

/// The five output columns of a product: name, price, thumbnail URL,
/// review count and derived stock status.
pub open spec fn spec_csv_record(p: Product) -> Seq<Seq<char>> {
    seq![
        p.name@,
        p.display_price@,
        p.thumbnail_url@,
        spec_u64_digits(p.review_count as nat),
        spec_stock_status(p),
    ]
}

/// An out-of-stock product derives the status `"0"` whatever badge
/// groups it carries.
pub proof fn lemma_out_of_stock_status(p: Product)
    requires
        p.availability@ == "OUT_OF_STOCK"@,
    ensures
        spec_stock_status(p) == "0"@,
{
}

proof fn lemma_first_urgency_none(groups: Seq<BadgeGroup>)
    requires
        forall|i: int| 0 <= i < groups.len() ==> groups[i].name@ != "urgency"@,
    ensures
        spec_first_urgency(groups) is None,
    decreases groups.len(),
{
    if groups.len() > 0 {
        assert(forall|i: int|
            0 <= i < groups.drop_first().len() ==> groups.drop_first()[i].name@ != "urgency"@);
        lemma_first_urgency_none(groups.drop_first());
    }
}

/// A product that is not out of stock and has no badge group named
/// `urgency` derives the fixed availability note.
pub proof fn lemma_no_urgency_fallback(p: Product)
    requires
        p.availability@ != "OUT_OF_STOCK"@,
        forall|i: int| 0 <= i < p.badge_groups@.len() ==> p.badge_groups@[i].name@ != "urgency"@,
    ensures
        spec_stock_status(p) == "Available (quantity not specified)"@,
{
    lemma_first_urgency_none(p.badge_groups@);
}

impl Product {
    /// Derives the stock status at render time.
    #[verifier::loop_isolation(false)]
    pub fn get_stock_status(&self) -> (r: String)
        ensures
            r@ == spec_stock_status(*self),
    {
        if str_eq(self.availability.as_str(), "OUT_OF_STOCK") {
            return String::from_str("0");
        }
        let ghost gs = self.badge_groups@;
        proof {
            assert(gs.skip(0) =~= gs);
        }
        let mut i: usize = 0;
        while i < self.badge_groups.len()
            invariant
                i <= gs.len(),
                spec_first_urgency(gs) == spec_first_urgency(gs.skip(i as int)),
            decreases gs.len() - i,
        {
            proof {
                assert(gs.skip(i as int)[0] == gs[i as int]);
                assert(gs.skip(i as int).drop_first() =~= gs.skip(i as int + 1));
            }
            if str_eq(self.badge_groups[i].name.as_str(), "urgency") {
                let g = &self.badge_groups[i];
                if g.members.len() == 0 {
                    return String::from_str("Available (quantity not specified)");
                }
                let toks = split_tokens(g.members[0].text.as_str());
                match first_int_token(&toks) {
                    Some(x) => {
                        return i32_to_string(x);
                    },
                    None => {
                        return String::from_str("Available (quantity not specified)");
                    },
                }
            }
            i = i + 1;
        }
        proof {
            assert(gs.skip(gs.len() as int) =~= Seq::<BadgeGroup>::empty());
        }
        String::from_str("Available (quantity not specified)")
    }

    /// Renders the product to its five output columns.
    pub fn to_csv_record(&self) -> (r: Vec<String>)
        ensures
            r.deep_view() == spec_csv_record(*self),
    {
        let mut r: Vec<String> = Vec::new();
        r.push(self.name.clone());
        r.push(self.display_price.clone());
        r.push(self.thumbnail_url.clone());
        r.push(u64_to_string(self.review_count));
        r.push(self.get_stock_status());
        proof {
            assert(r.deep_view() =~= spec_csv_record(*self));
        }
        r
    }
}

} // verus!
