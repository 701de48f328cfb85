//! The catalog as a table: products found by identifier, and the stock
//! decrement that an order applies to it.

use crate::models::ProductView;
use vstd::prelude::*;

verus! {

/// Whether the catalog holds a product with this identifier.
pub open spec fn has_product(catalog: Seq<ProductView>, id: int) -> bool {
    exists|k: int| 0 <= k < catalog.len() && (#[trigger] catalog[k]).id == id
}

/// A place at which the catalog holds a product with this identifier, if
/// it holds one.
pub open spec fn place_of(catalog: Seq<ProductView>, id: int) -> int {
    choose|k: int| 0 <= k < catalog.len() && (#[trigger] catalog[k]).id == id
}

/// The product with this identifier, if the catalog holds one.
pub open spec fn lookup(catalog: Seq<ProductView>, id: int) -> Option<ProductView> {
    if has_product(catalog, id) {
        Some(catalog[place_of(catalog, id)])
    } else {
        None
    }
}

/// The product with this identifier, if the catalog holds one and it is
/// active.
pub open spec fn lookup_active(catalog: Seq<ProductView>, id: int) -> Option<ProductView> {
    match lookup(catalog, id) {
        Some(p) => if p.is_active {
            Some(p)
        } else {
            None
        },
        None => None,
    }
}

/// The stock of the product with this identifier; zero if there is none.
pub open spec fn stock_of(catalog: Seq<ProductView>, id: int) -> int {
    match lookup(catalog, id) {
        Some(p) => p.stock_quantity,
        None => 0,
    }
}

/// No two products share an identifier.
pub open spec fn distinct_ids(catalog: Seq<ProductView>) -> bool {
    forall|i: int, j: int|
        0 <= i < j < catalog.len() ==> (#[trigger] catalog[i]).id != (#[trigger] catalog[j]).id
}

/// No product has a negative stock, nor one beyond the largest count.
pub open spec fn stocked(catalog: Seq<ProductView>) -> bool {
    forall|k: int| 0 <= k < catalog.len() ==> 0 <= (#[trigger] catalog[k]).stock_quantity <= i32::MAX
}

/// The product after `quantity` units have been taken from the product
/// with identifier `id`: other products are left as they are.
pub open spec fn take_stock(p: ProductView, id: int, quantity: int) -> ProductView {
    if p.id == id {
        ProductView { stock_quantity: p.stock_quantity - quantity, ..p }
    } else {
        p
    }
}

/// The catalog after `quantity` units have been taken from the product
/// with identifier `id`.
pub open spec fn taken(catalog: Seq<ProductView>, id: int, quantity: int) -> Seq<ProductView> {
    catalog.map_values(|p: ProductView| take_stock(p, id, quantity))
}

/// The catalog with `new` in place of the product with identifier `id`.
pub open spec fn replaced(catalog: Seq<ProductView>, id: int, new: ProductView) -> Seq<ProductView> {
    catalog.map_values(
        |p: ProductView|
            if p.id == id {
                new
            } else {
                p
            },
    )
}

/// The catalog without the product with identifier `id`.
pub open spec fn without(catalog: Seq<ProductView>, id: int) -> Seq<ProductView> {
    if has_product(catalog, id) {
        catalog.remove(place_of(catalog, id))
    } else {
        catalog
    }
}

/// In a catalog without shared identifiers, a product found at any place
/// is the product found by its identifier.
pub proof fn lemma_lookup_at(catalog: Seq<ProductView>, k: int)
    requires
        distinct_ids(catalog),
        0 <= k < catalog.len(),
    ensures
        lookup(catalog, catalog[k].id) == Some(catalog[k]),
        place_of(catalog, catalog[k].id) == k,
{
    let id = catalog[k].id;
    assert(has_product(catalog, id));
    let c = place_of(catalog, id);
    if c < k {
        assert(catalog[c].id != catalog[k].id);
    } else if k < c {
        assert(catalog[k].id != catalog[c].id);
    }
}

/// A product found by identifier stands somewhere in the catalog and has
/// that identifier.
pub proof fn lemma_lookup_found(catalog: Seq<ProductView>, id: int) -> (k: int)
    requires
        lookup(catalog, id) is Some,
    ensures
        0 <= k < catalog.len(),
        catalog[k].id == id,
        lookup(catalog, id) == Some(catalog[k]),
        k == place_of(catalog, id),
{
    place_of(catalog, id)
}

/// Taking stock changes the stock of the one product and nothing else:
/// every other field, every other product, and the order of the products
/// stay as they are.
pub proof fn lemma_taken(catalog: Seq<ProductView>, id: int, quantity: int, other: int)
    requires
        distinct_ids(catalog),
    ensures
        taken(catalog, id, quantity).len() == catalog.len(),
        distinct_ids(taken(catalog, id, quantity)),
        has_product(taken(catalog, id, quantity), other) == has_product(catalog, other),
        other != id ==> lookup(taken(catalog, id, quantity), other) == lookup(catalog, other),
        lookup(catalog, id) matches Some(p) ==> lookup(taken(catalog, id, quantity), id) == Some(
            ProductView { stock_quantity: p.stock_quantity - quantity, ..p },
        ),
        lookup(catalog, id) is None ==> taken(catalog, id, quantity) == catalog,
        stock_of(taken(catalog, id, quantity), other) == if other == id && has_product(catalog, id) {
            stock_of(catalog, id) - quantity
        } else {
            stock_of(catalog, other)
        },
{
    let after = taken(catalog, id, quantity);
    assert forall|k: int| 0 <= k < catalog.len() implies (#[trigger] after[k]).id == catalog[k].id by {}
    assert(distinct_ids(after)) by {
        assert forall|i: int, j: int| 0 <= i < j < after.len() implies (#[trigger] after[i]).id != (
        #[trigger] after[j]).id by {
            assert(catalog[i].id != catalog[j].id);
        }
    }
    if has_product(catalog, other) {
        let k = lemma_lookup_found(catalog, other);
        lemma_lookup_at(catalog, k);
        assert(after[k].id == other);
        assert(has_product(after, other));
        lemma_lookup_at(after, k);
    } else {
        if has_product(after, other) {
            let k = lemma_lookup_found(after, other);
            assert(catalog[k].id == other);
            assert(false);
        }
    }
    if lookup(catalog, id) is None {
        assert forall|k: int| 0 <= k < catalog.len() implies after[k] == catalog[k] by {
            if catalog[k].id == id {
                assert(has_product(catalog, id));
            }
        }
        assert(after =~= catalog);
    }
}

/// Taking stock keeps every stock in range if the stock taken from stays
/// in range.
pub proof fn lemma_taken_stocked(catalog: Seq<ProductView>, id: int, quantity: int)
    requires
        distinct_ids(catalog),
        stocked(catalog),
        lookup(catalog, id) matches Some(p) ==> 0 <= p.stock_quantity - quantity <= i32::MAX,
    ensures
        stocked(taken(catalog, id, quantity)),
{
    let after = taken(catalog, id, quantity);
    assert forall|k: int| 0 <= k < after.len() implies 0 <= (#[trigger] after[k]).stock_quantity
        <= i32::MAX by {
        assert(0 <= catalog[k].stock_quantity <= i32::MAX);
        if catalog[k].id == id {
            lemma_lookup_at(catalog, k);
        }
    }
}

} // verus!
