//! Names of the game's items.
//!
//! The game knows every item by a number. The `terra_items` crate, which
//! `terra_plr` hands on, holds the table from numbers to items.

use terra_plr::inventory::Item;
use vstd::prelude::*;

verus! {

/// An item number that the game does not know.
#[derive(Debug, Clone, Copy, PartialEq, Eq)]
pub struct LookupError {
    pub id: i32,
    pub version: i32,
}

/// The name under which the game knows the item with number `id` in save
/// files of the given version, if it knows one.
pub uninterp spec fn item_name(id: int, version: int) -> Option<Seq<char>>;

/// The numbers that stand for an item: those of the items themselves, from
/// 1 on, and the negative numbers that early versions of the game gave to a
/// few of them.
pub open spec fn is_item_id(id: int) -> bool {
    -48 <= id <= -1 || 1 <= id <= 5455
}

/// Calls `Item::from_id` and writes the item that comes back with its
/// `Debug` form, which is the name of its variant. The contract names that
/// result, and says for which numbers there is one: `from_id` maps each of
/// the numbers -48 to -1 to an item and returns `None` for every other
/// number outside 1 to 5455.
#[verifier::external_body]
fn item_debug_name(id: i32, version: i32) -> (name: Option<String>)
    ensures
        match name {
            Some(text) => item_name(id as int, version as int) == Some(text@),
            None => item_name(id as int, version as int) is None,
        },
        name is Some <==> is_item_id(id as int),
{
    Item::from_id(id, version).map(|item| format!("{item:?}"))
}

/// The name of the item with number `id`, or the error that says that
/// there is no such item.
pub fn resolve_name(id: i32, version: i32) -> (resolved: Result<String, LookupError>)
    ensures
        match resolved {
            Ok(name) => item_name(id as int, version as int) == Some(name@),
            Err(e) => item_name(id as int, version as int) is None && e == (LookupError {
                id,
                version,
            }),
        },
        resolved is Ok <==> is_item_id(id as int),
{
    match item_debug_name(id, version) {
        Some(name) => Ok(name),
        None => Err(LookupError { id, version }),
    }
}

} // verus!
