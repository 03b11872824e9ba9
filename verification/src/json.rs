//! Trusted boundary to serde_json: decoding the structured (JSON) form of
//! the Windows listing. serde_json's result is a function of the text
//! alone, so it is given a name, [`listing_entries_of`], and the one
//! wrapper below ties what it hands out to that name; everything after the
//! decode is verified code in [`crate::windows`].

use serde_json::Value;
use vstd::prelude::*;

use crate::windows::{EntryModel, ListingEntry};

verus! {

/// What the structured listing text decodes to: `None` where the text is
/// not a JSON array, otherwise the `Name` and `DriverName` strings of each
/// object of the array, in order, where an object without a string `Name`
/// contributes no entry and a missing or non-string `DriverName` is the
/// empty string. A function of the text alone: serde_json decodes
/// deterministically, so one malformed element never turns the whole
/// listing into `None`, and two decodes of equal text are equal.
pub uninterp spec fn listing_entries_of(s: Seq<char>) -> Option<Seq<EntryModel>>;

/// Relies on serde_json::from_str and serde_json::Value: decodes the
/// listing text into an array of objects and hands out each object's
/// `Name` and `DriverName` strings, exactly as [`listing_entries_of`]
/// describes.
#[verifier::external_body]
pub(crate) fn decode_listing(s: &str) -> (r: Option<Vec<ListingEntry>>)
    ensures
        r is Some <==> listing_entries_of(s@) is Some,
        r matches Some(v) ==> Some(v.deep_view()) == listing_entries_of(s@),
{
    let arr = match serde_json::from_str::<Value>(s) {
        Ok(Value::Array(a)) => a,
        _ => return None,
    };
    let mut entries: Vec<ListingEntry> = Vec::new();
    for v in arr {
        let (name, driver_name) = match (v.get("Name"), v.get("DriverName")) {
            (Some(Value::String(n)), Some(Value::String(d))) => (n.clone(), d.clone()),
            (Some(Value::String(n)), _) => (n.clone(), String::new()),
            _ => continue,
        };
        entries.push(ListingEntry { name, driver_name });
    }
    Some(entries)
}

} // verus!
