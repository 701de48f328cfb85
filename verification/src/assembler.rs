//! The order assembler: validates requested lines against the catalog,
//! prices them, and takes the snapshot that an order line keeps.

use crate::catalog::{
    distinct_ids, lemma_lookup_found, lemma_taken, lemma_taken_stocked, lookup_active, stocked,
    taken,
};
use crate::error::{AppError, Failure};
use crate::models::{OrderItemRequest, Product, ProductView};
use crate::money::{add_decimal, amount_view, mul_decimal, product, sum, Decimal, Money};
use crate::text::{int_text, push_int};
use vstd::prelude::*;
use vstd::string::*;

verus! {

/// A validated and priced line: the product's name and price as they were
/// when the line was priced, the requested quantity, and the subtotal.
#[derive(Debug, Clone, PartialEq, Eq)]
pub struct PricedLine {
    pub product_id: i32,
    pub product_name: String,
    pub product_price: Money,
    pub quantity: i32,
    pub subtotal: Money,
}

/// Mathematical content of a [`PricedLine`].
pub struct Line {
    pub product_id: int,
    pub product_name: Seq<char>,
    pub product_price: Decimal,
    pub quantity: int,
    pub subtotal: Decimal,
}

impl View for PricedLine {
    type V = Line;

    open spec fn view(&self) -> Line {
        Line {
            product_id: self.product_id as int,
            product_name: self.product_name@,
            product_price: self.product_price@,
            quantity: self.quantity as int,
            subtotal: self.subtotal@,
        }
    }
}

/// The rejection of a line whose quantity is zero or negative.
pub open spec fn quantity_rejection() -> Failure {
    Failure::BadRequest("Quantity must be positive"@)
}

/// The rejection of a line whose product is unknown or inactive.
pub open spec fn not_found_rejection(product_id: int) -> Failure {
    Failure::NotFound("Product "@ + int_text(product_id) + " not found"@)
}

/// The rejection of a line that asks for more than is in stock.
pub open spec fn stock_rejection(name: Seq<char>, available: int, requested: int) -> Failure {
    Failure::BadRequest(
        "Insufficient stock for product '"@ + name + "'. Available: "@ + int_text(available)
            + ", Requested: "@ + int_text(requested),
    )
}

/// The failure of a line whose subtotal, or whose sum with the running
/// total, is beyond what a decimal amount can hold.
pub open spec fn amount_rejection() -> Failure {
    Failure::InternalServerError("Order amount out of range"@)
}

/// The snapshot of `product` for `quantity` units at `subtotal`.
pub open spec fn snapshot(product: ProductView, quantity: int, subtotal: Decimal) -> Line {
    Line {
        product_id: product.id,
        product_name: product.name,
        product_price: product.price,
        quantity,
        subtotal,
    }
}

/// What becomes of a line once its subtotal and the new running total have
/// been computed: the snapshot and the new total, or the failure for an
/// amount out of range.
pub open spec fn settled(
    product: ProductView,
    quantity: int,
    subtotal: Option<Decimal>,
    total: Option<Decimal>,
) -> Result<(Line, Decimal), Failure> {
    match (subtotal, total) {
        (Some(s), Some(t)) => Ok((snapshot(product, quantity, s), t)),
        _ => Err(amount_rejection()),
    }
}

/// The pricing of one requested line whose quantity is positive, given
/// the product that the catalog holds for it (if any) and the total of
/// the lines before it.
///
/// An absent product is rejected as not found; a stock below the
/// requested quantity is rejected with the product's name and both counts.
/// Otherwise the subtotal is price times quantity, and the new total is the
/// old total plus the subtotal.
pub open spec fn priced(found: Option<ProductView>, item: OrderItemRequest, running: Decimal) -> Result<
    (Line, Decimal),
    Failure,
> {
    match found {
        None => Err(not_found_rejection(item.product_id as int)),
        Some(p) => {
            if p.stock_quantity < item.quantity {
                Err(stock_rejection(p.name, p.stock_quantity, item.quantity as int))
            } else {
                let subtotal = product(p.price, Decimal::whole(item.quantity as int));
                let total = match subtotal {
                    Some(s) => sum(running, s),
                    None => None,
                };
                settled(p, item.quantity as int, subtotal, total)
            }
        },
    }
}

/// The outcome of assembling some requested lines: the priced lines in
/// request order, their total, and the catalog with the stock of every
/// line taken.
pub struct Assembly {
    pub lines: Seq<Line>,
    pub total: Decimal,
    pub catalog: Seq<ProductView>,
}

/// Adds one requested line to an assembly.
///
/// A quantity that is not positive is rejected first. Then the line is
/// priced against the active product with the requested identifier, as the
/// catalog stands after the lines before it. If that succeeds, the
/// snapshot joins the lines and the quantity is taken from the product's
/// stock.
pub open spec fn add_line(acc: Assembly, item: OrderItemRequest) -> Result<Assembly, Failure> {
    if item.quantity <= 0 {
        Err(quantity_rejection())
    } else {
        match priced(lookup_active(acc.catalog, item.product_id as int), item, acc.total) {
            Err(e) => Err(e),
            Ok((line, total)) => Ok(
                Assembly {
                    lines: acc.lines.push(line),
                    total,
                    catalog: taken(acc.catalog, item.product_id as int, item.quantity as int),
                },
            ),
        }
    }
}

/// Assembles the requested lines in request order, starting from no
/// lines, a total of zero and the given catalog. The first line that
/// fails decides the rejection.
pub open spec fn assemble(catalog: Seq<ProductView>, items: Seq<OrderItemRequest>) -> Result<
    Assembly,
    Failure,
>
    decreases items.len(),
{
    if items.len() == 0 {
        Ok(Assembly { lines: Seq::empty(), total: Decimal::zero(), catalog })
    } else {
        match assemble(catalog, items.drop_last()) {
            Err(e) => Err(e),
            Ok(acc) => add_line(acc, items.last()),
        }
    }
}

/// Assembling one line more is assembling the lines before it and then
/// adding that line.
pub proof fn lemma_assemble_next(catalog: Seq<ProductView>, items: Seq<OrderItemRequest>, i: int)
    requires
        0 <= i < items.len(),
    ensures
        assemble(catalog, items.take(i + 1)) == match assemble(catalog, items.take(i)) {
            Err(e) => Err(e),
            Ok(acc) => add_line(acc, items[i]),
        },
{
    assert(items.take(i + 1).drop_last() =~= items.take(i));
    assert(items.take(i + 1).last() == items[i]);
}

/// Once a line has failed, the lines after it do not matter: the
/// assembly fails as it did there.
pub proof fn lemma_assemble_fails(catalog: Seq<ProductView>, items: Seq<OrderItemRequest>, k: int)
    requires
        0 <= k <= items.len(),
        assemble(catalog, items.take(k)) is Err,
    ensures
        assemble(catalog, items) == assemble(catalog, items.take(k)),
    decreases items.len() - k,
{
    if k == items.len() {
        assert(items.take(k) =~= items);
    } else {
        lemma_assemble_next(catalog, items, k);
        lemma_assemble_fails(catalog, items, k + 1);
    }
}

/// A line that was priced carries the identifier of the product it was
/// priced against, the requested quantity, and the product's name and
/// price; its subtotal is the product of price and quantity, and the new
/// total is the sum of the old total and the subtotal.
pub proof fn lemma_priced_line(
    found: Option<ProductView>,
    item: OrderItemRequest,
    running: Decimal,
)
    requires
        priced(found, item, running) is Ok,
    ensures
        found is Some,
        found->0.stock_quantity >= item.quantity,
        priced(found, item, running)->Ok_0.0 == snapshot(
            found->0,
            item.quantity as int,
            priced(found, item, running)->Ok_0.0.subtotal,
        ),
        product(found->0.price, Decimal::whole(item.quantity as int)) == Some(
            priced(found, item, running)->Ok_0.0.subtotal,
        ),
        sum(running, priced(found, item, running)->Ok_0.0.subtotal) == Some(
            priced(found, item, running)->Ok_0.1,
        ),
{
}

/// What a successful assembly looks like: one line for each requested
/// line, in request order, with the requested identifier and quantity,
/// every quantity positive; and a catalog that still has the same
/// products at the same places, no shared identifiers and no negative
/// stock.
pub proof fn lemma_assemble_shape(catalog: Seq<ProductView>, items: Seq<OrderItemRequest>)
    requires
        distinct_ids(catalog),
        stocked(catalog),
        assemble(catalog, items) is Ok,
    ensures
        assemble(catalog, items)->Ok_0.lines.len() == items.len(),
        forall|j: int|
            0 <= j < items.len() ==> {
                let line = #[trigger] assemble(catalog, items)->Ok_0.lines[j];
                &&& line.quantity == items[j].quantity
                &&& line.quantity > 0
                &&& line.product_id == items[j].product_id
            },
        assemble(catalog, items)->Ok_0.catalog.len() == catalog.len(),
        forall|k: int|
            0 <= k < catalog.len() ==> (#[trigger] assemble(catalog, items)->Ok_0.catalog[k]).id
                == catalog[k].id,
        distinct_ids(assemble(catalog, items)->Ok_0.catalog),
        stocked(assemble(catalog, items)->Ok_0.catalog),
    decreases items.len(),
{
    if items.len() > 0 {
        let before = assemble(catalog, items.drop_last());
        assert(before is Ok);
        let acc = before->Ok_0;
        lemma_assemble_shape(catalog, items.drop_last());
        let item = items.last();
        let id = item.product_id as int;
        let found = lookup_active(acc.catalog, id);
        lemma_priced_line(found, item, acc.total);
        let k = lemma_lookup_found(acc.catalog, id);
        lemma_taken(acc.catalog, id, item.quantity as int, id);
        lemma_taken_stocked(acc.catalog, id, item.quantity as int);
        let after = assemble(catalog, items)->Ok_0;
        assert(after.catalog == taken(acc.catalog, id, item.quantity as int));
        assert forall|j: int| 0 <= j < items.len() implies {
            let line = #[trigger] after.lines[j];
            &&& line.quantity == items[j].quantity
            &&& line.quantity > 0
            &&& line.product_id == items[j].product_id
        } by {
            if j < items.len() - 1 {
                assert(after.lines[j] == acc.lines[j]);
                assert(items.drop_last()[j] == items[j]);
            }
        }
        assert forall|k: int| 0 <= k < catalog.len() implies (#[trigger] after.catalog[k]).id
            == catalog[k].id by {
            assert(acc.catalog[k].id == catalog[k].id);
        }
    }
}

/// The mathematical content of a pricing outcome.
pub open spec fn outcome_view(r: Result<(PricedLine, Money), AppError>) -> Result<
    (Line, Decimal),
    Failure,
> {
    match r {
        Ok((line, total)) => Ok((line@, total@)),
        Err(e) => Err(e@),
    }
}

/// Builds the rejection of a line whose quantity is zero or negative.
pub fn reject_quantity() -> (e: AppError)
    ensures
        e@ == quantity_rejection(),
{
    AppError::BadRequest("Quantity must be positive".to_owned())
}

/// Builds the rejection of a line whose product is unknown or inactive.
pub fn reject_not_found(product_id: i32) -> (e: AppError)
    ensures
        e@ == not_found_rejection(product_id as int),
{
    let mut message = "Product ".to_owned();
    push_int(&mut message, product_id);
    message.append(" not found");
    AppError::NotFound(message)
}

/// Builds the rejection of a line that asks for more than is in stock.
pub fn reject_stock(name: &str, available: i32, requested: i32) -> (e: AppError)
    ensures
        e@ == stock_rejection(name@, available as int, requested as int),
{
    let mut message = "Insufficient stock for product '".to_owned();
    message.append(name);
    message.append("'. Available: ");
    push_int(&mut message, available);
    message.append(", Requested: ");
    push_int(&mut message, requested);
    AppError::BadRequest(message)
}

/// Finishes a line from its computed amounts: takes the snapshot of the
/// product, or fails if either amount is out of range.
pub fn settle_line(product: Product, quantity: i32, subtotal: Option<Money>, total: Option<Money>) -> (r:
    Result<(PricedLine, Money), AppError>)
    ensures
        outcome_view(r) == settled(product@, quantity as int, amount_view(subtotal), amount_view(total)),
{
    match (subtotal, total) {
        (Some(s), Some(t)) => {
            let line = PricedLine {
                product_id: product.id,
                product_name: product.name,
                product_price: product.price,
                quantity,
                subtotal: s,
            };
            Ok((line, t))
        },
        _ => Err(AppError::InternalServerError("Order amount out of range".to_owned())),
    }
}

/// Prices one requested line whose quantity is positive against the
/// product found for it, and adds its subtotal to the running total.
pub fn price_line(found: Option<Product>, item: OrderItemRequest, running: Money) -> (r: Result<
    (PricedLine, Money),
    AppError,
>)
    ensures
        outcome_view(r) == priced(
            match found {
                Some(p) => Some(p@),
                None => None,
            },
            item,
            running@,
        ),
{
    match found {
        None => Err(reject_not_found(item.product_id)),
        Some(p) => {
            if p.stock_quantity < item.quantity {
                Err(reject_stock(p.name.as_str(), p.stock_quantity, item.quantity))
            } else {
                let subtotal = mul_decimal(p.price, Money::whole(item.quantity));
                let total = match subtotal {
                    Some(s) => add_decimal(running, s),
                    None => None,
                };
                settle_line(p, item.quantity, subtotal, total)
            }
        },
    }
}

} // verus!
