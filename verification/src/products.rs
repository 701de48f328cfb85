//! Catalog administration: the statement that changes a product, and the
//! rules for a product's image.

use crate::error::{AppError, Failure};
use crate::ids::{fresh_uuid, hyphenated, is_random_uuid, uuid_text};
use crate::models::{opt_text, ProductPatch, UpdateProductRequest};
use crate::text::{int_text, nat_text, push_int, push_nat, same_text};
use vstd::prelude::*;
use vstd::string::*;

verus! {

/// The columns that a patch assigns, in the order in which their values
/// are bound: name, description, price, stock, active flag.
pub open spec fn patched_columns(patch: ProductPatch) -> Seq<Seq<char>> {
    let name = if patch.name is Some {
        seq!["name"@]
    } else {
        Seq::empty()
    };
    let description = if patch.description is Some {
        seq!["description"@]
    } else {
        Seq::empty()
    };
    let price = if patch.price is Some {
        seq!["price"@]
    } else {
        Seq::empty()
    };
    let stock = if patch.stock_quantity is Some {
        seq!["stock_quantity"@]
    } else {
        Seq::empty()
    };
    let active = if patch.is_active is Some {
        seq!["is_active"@]
    } else {
        Seq::empty()
    };
    name + description + price + stock + active
}

/// The assignments of a statement: each column is set to the parameter
/// with its place in the list, counted from 1, and the assignments are
/// separated by a comma and a space.
pub open spec fn assignment_list(columns: Seq<Seq<char>>) -> Seq<char>
    decreases columns.len(),
{
    if columns.len() == 0 {
        Seq::empty()
    } else {
        let separator = if columns.len() == 1 {
            Seq::empty()
        } else {
            ", "@
        };
        assignment_list(columns.drop_last()) + separator + columns.last() + " = $"@ + nat_text(
            columns.len(),
        )
    }
}

/// The statement that assigns the columns of one product and returns the
/// changed row. The product's identifier is the parameter after the last
/// assigned value.
pub open spec fn statement_text(columns: Seq<Seq<char>>) -> Seq<char> {
    "UPDATE products SET "@ + assignment_list(columns) + " WHERE id = $"@ + nat_text(columns.len() + 1)
        + " RETURNING *"@
}

/// The statement for a patch; none for a patch that changes nothing.
pub open spec fn patch_statement(patch: ProductPatch) -> Option<Seq<char>> {
    if patch.is_empty() {
        None
    } else {
        Some(statement_text(patched_columns(patch)))
    }
}

/// The characters of some column names.
pub open spec fn column_views(columns: Seq<&'static str>) -> Seq<Seq<char>> {
    columns.map_values(|c: &'static str| c@)
}

/// The columns that a patch assigns, in binding order.
pub fn columns_of(patch: &UpdateProductRequest) -> (columns: Vec<&'static str>)
    ensures
        column_views(columns@) == patched_columns(patch@),
        columns.len() <= 5,
        columns.len() == 0 <==> patch@.is_empty(),
{
    let mut columns: Vec<&'static str> = Vec::new();
    if patch.name.is_some() {
        columns.push("name");
    }
    if patch.description.is_some() {
        columns.push("description");
    }
    if patch.price.is_some() {
        columns.push("price");
    }
    if patch.stock_quantity.is_some() {
        columns.push("stock_quantity");
    }
    if patch.is_active.is_some() {
        columns.push("is_active");
    }
    assert(column_views(columns@) =~= patched_columns(patch@));
    columns
}

/// Writes the statement that assigns the given columns.
fn statement_for(columns: &Vec<&'static str>) -> (statement: String)
    requires
        columns.len() < usize::MAX,
    ensures
        statement@ == statement_text(column_views(columns@)),
{
    let ghost names = column_views(columns@);
    let mut statement = "UPDATE products SET ".to_owned();
    let mut k: usize = 0;
    assert(names.take(0) =~= Seq::<Seq<char>>::empty());
    while k < columns.len()
        invariant
            k <= columns.len(),
            columns.len() < usize::MAX,
            names == column_views(columns@),
            statement@ == "UPDATE products SET "@ + assignment_list(names.take(k as int)),
        decreases columns.len() - k,
    {
        let ghost before = statement@;
        if k > 0 {
            statement.append(", ");
        }
        statement.append(columns[k]);
        statement.append(" = $");
        push_nat(&mut statement, (k + 1) as u64);
        proof {
            let longer = names.take(k + 1);
            assert(longer.drop_last() =~= names.take(k as int));
            assert(longer.last() == columns[k as int]@);
            let separator = if longer.len() == 1 {
                Seq::<char>::empty()
            } else {
                ", "@
            };
            assert(statement@ =~= "UPDATE products SET "@ + (assignment_list(names.take(k as int))
                + separator + longer.last() + " = $"@ + nat_text(longer.len())));
        }
        k += 1;
    }
    assert(names.take(k as int) =~= names);
    statement.append(" WHERE id = $");
    push_nat(&mut statement, (columns.len() + 1) as u64);
    statement.append(" RETURNING *");
    statement
}

/// Writes the statement for a patch; none for a patch that changes
/// nothing. The values are bound in the order name, description, price,
/// stock, active flag, leaving out the absent ones, and the product's
/// identifier is bound last.
pub fn update_statement(patch: &UpdateProductRequest) -> (statement: Option<String>)
    ensures
        statement is Some <==> patch_statement(patch@) is Some,
        statement matches Some(text) ==> patch_statement(patch@) == Some(text@),
{
    let columns = columns_of(patch);
    if columns.len() == 0 {
        None
    } else {
        Some(statement_for(&columns))
    }
}

/// Whether a part of an upload is the image: the part named `image`.
pub fn is_image_field(name: Option<&str>) -> (is_image: bool)
    ensures
        is_image == (name matches Some(n) && n@ == "image"@),
{
    match name {
        Some(n) => same_text(n, "image"),
        None => false,
    }
}

/// Trusted: `std::path::Path::extension`, on the path that the file name
/// is, with the result read as text. The contract claims only that an
/// extension holds no dot, as it is what follows the last one.
#[verifier::external_body]
fn path_extension(file_name: &str) -> (extension: Option<String>)
    ensures
        extension matches Some(e) ==> !e@.contains('.'),
{
    match std::path::Path::new(file_name).extension() {
        Some(e) => match e.to_str() {
            Some(text) => Some(text.to_owned()),
            None => None,
        },
        None => None,
    }
}

/// What `str::to_lowercase` makes of a text.
pub uninterp spec fn lowercase_of(text: Seq<char>) -> Seq<char>;

/// Trusted: `str::to_lowercase`. The contract gives its result a name.
#[verifier::external_body]
fn lowercase(text: &str) -> (lowered: String)
    ensures
        lowered@ == lowercase_of(text@),
{
    text.to_lowercase()
}

/// Whether an extension is one of an image that the shop takes.
pub open spec fn allowed_extension(extension: Seq<char>) -> bool {
    extension == "jpg"@ || extension == "jpeg"@ || extension == "png"@ || extension == "webp"@
}

/// The check of a file's extension, in lower case: a file without one is
/// rejected, and so is a file with one that is not allowed.
pub open spec fn extension_check(extension: Option<Seq<char>>) -> Result<Seq<char>, Failure> {
    match extension {
        None => Err(Failure::BadRequest("Invalid file extension"@)),
        Some(e) => if allowed_extension(e) {
            Ok(e)
        } else {
            Err(Failure::BadRequest("Only jpg, jpeg, png, and webp images are allowed"@))
        },
    }
}

/// The mathematical content of the outcome of an extension check.
pub open spec fn text_outcome(r: Result<String, AppError>) -> Result<Seq<char>, Failure> {
    match r {
        Ok(text) => Ok(text@),
        Err(e) => Err(e@),
    }
}

/// Checks a file's extension, given in lower case.
pub fn check_extension(extension: Option<String>) -> (r: Result<String, AppError>)
    ensures
        text_outcome(r) == extension_check(opt_text(extension)),
{
    match extension {
        None => Err(AppError::BadRequest("Invalid file extension".to_owned())),
        Some(e) => {
            if same_text(e.as_str(), "jpg") || same_text(e.as_str(), "jpeg") || same_text(e.as_str(), "png")
                || same_text(e.as_str(), "webp") {
                Ok(e)
            } else {
                Err(AppError::BadRequest("Only jpg, jpeg, png, and webp images are allowed".to_owned()))
            }
        },
    }
}

/// The lower-case form of an optional extension.
pub open spec fn lowered(extension: Option<Seq<char>>) -> Option<Seq<char>> {
    match extension {
        Some(e) => Some(lowercase_of(e)),
        None => None,
    }
}

/// Finds the extension under which an uploaded image is stored: the
/// extension of its file name, in lower case.
///
/// An upload without a file name is rejected. What the extension of a
/// file name is, is decided by the platform's rules for paths; whatever
/// they give is put in lower case and then checked as [`extension_check`]
/// says.
pub fn image_extension(file_name: Option<&str>) -> (r: Result<String, AppError>)
    ensures
        file_name is None ==> text_outcome(r) == Err::<Seq<char>, Failure>(
            Failure::BadRequest("Missing filename"@),
        ),
        file_name is Some ==> exists|extension: Option<Seq<char>>|
            (extension matches Some(e) ==> !e.contains('.')) && text_outcome(r)
                == #[trigger] extension_check(lowered(extension)),
{
    match file_name {
        None => Err(AppError::BadRequest("Missing filename".to_owned())),
        Some(name) => {
            let found = path_extension(name);
            let extension = match &found {
                Some(e) => Some(lowercase(e.as_str())),
                None => None,
            };
            let r = check_extension(extension);
            assert(text_outcome(r) == extension_check(lowered(opt_text(found))));
            r
        },
    }
}

/// The name under which the image of a product is stored: the product's
/// identifier, a unique identifier and the extension.
pub open spec fn image_name(product_id: int, unique: u128, extension: Seq<char>) -> Seq<char> {
    "product-"@ + int_text(product_id) + "-"@ + hyphenated(unique) + "."@ + extension
}

/// The address under which a stored image is served.
pub open spec fn image_address(file_name: Seq<char>) -> Seq<char> {
    "/uploads/"@ + file_name
}

/// Writes the name under which the image of a product is stored.
pub fn image_file_name(product_id: i32, unique: u128, extension: &str) -> (name: String)
    ensures
        name@ == image_name(product_id as int, unique, extension@),
{
    let mut name = "product-".to_owned();
    push_int(&mut name, product_id);
    name.append("-");
    name.append(uuid_text(unique).as_str());
    name.append(".");
    name.append(extension);
    name
}

/// Writes the name under which a new image of a product is stored, with
/// a freshly drawn random identifier in it.
pub fn new_image_file_name(product_id: i32, extension: &str) -> (name: String)
    ensures
        exists|unique: u128|
            is_random_uuid(unique) && name@ == #[trigger] image_name(product_id as int, unique, extension@),
{
    let unique = fresh_uuid();
    let name = image_file_name(product_id, unique, extension);
    assert(name@ == image_name(product_id as int, unique, extension@));
    name
}

/// Writes the address under which a stored image is served.
pub fn image_url(file_name: &str) -> (url: String)
    ensures
        url@ == image_address(file_name@),
{
    let mut url = "/uploads/".to_owned();
    url.append(file_name);
    url
}

} // verus!
