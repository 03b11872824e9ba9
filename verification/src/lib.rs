//! Cross-platform printer discovery and print-job submission.
//!
//! Discovery parses the textual output of the platform's printer-listing
//! command into normalized [`printer::Printer`] records; submission builds
//! the argument vectors and scripts for the platform's print command and
//! interprets their outcome. Running the commands and staging byte buffers
//! as temporary files is left to the embedding application.

use vstd::prelude::*;

pub mod commands;
pub mod json;
pub mod platform;
pub mod printer;
pub mod submit;
pub mod text;
pub mod unix;
pub mod windows;

use crate::json::listing_entries_of;
use crate::unix::unix_records;
use crate::windows::windows_text_records;

verus! {

/// Law: discovery parsing is deterministic. Two listings with identical
/// text parse to identical record sequences, in order and in content, for
/// the Unix form, the textual Windows form and the structured (JSON)
/// Windows form alike; a repeated listing call can differ only where the
/// spooler's own output differs.
pub proof fn lemma_listing_deterministic(first: Seq<char>, second: Seq<char>)
    requires
        first == second,
    ensures
        unix_records(first) == unix_records(second),
        windows_text_records(first) == windows_text_records(second),
        listing_entries_of(first) == listing_entries_of(second),
{
}

} // verus!
