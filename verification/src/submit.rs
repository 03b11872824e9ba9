//! Submission outcomes and the staging step of a buffer print: what a
//! finished print command means, and what a buffer print does once its
//! payload has (or has not) been staged as a file.

use vstd::prelude::*;

verus! {

/// Interpretation of a finished print command: zero exit is success; any
/// other exit is an error carrying the captured diagnostic stream verbatim.
/// Never reports success for a command that failed.
pub fn submission_result(exit_ok: bool, diagnostic: String) -> (r: Result<bool, String>)
    ensures
        exit_ok ==> r == Ok::<bool, String>(true),
        !exit_ok ==> r is Err && r->Err_0 == diagnostic,
{
    if exit_ok {
        Ok(true)
    } else {
        Err(diagnostic)
    }
}

/// What a buffer print does after trying to stage its payload as a file.
pub enum BufferStep {
    /// The payload was staged in full: submit the staged file.
    Submit {
        /// The staged file's path.
        path: String,
    },
    /// Staging failed: report the write error; submission is never
    /// attempted.
    Fail {
        /// The write error's description.
        message: String,
    },
}

/// The step a buffer print takes once the payload has been written to the
/// staged file (or the write has failed): on success it submits exactly the
/// staged file, on failure it stops with the write error unchanged.
pub fn buffer_print_step(write_result: Result<(), String>, staged_path: String) -> (r: BufferStep)
    ensures
        write_result is Ok ==> (r matches BufferStep::Submit { path } && path == staged_path),
        write_result matches Err(m) ==> (r matches BufferStep::Fail { message } && message == m),
{
    match write_result {
        Ok(()) => BufferStep::Submit { path: staged_path },
        Err(m) => BufferStep::Fail { message: m },
    }
}

/// A character that can appear in a hyphenated UUID: lowercase hex or `-`.
pub open spec fn is_uuid_char(c: char) -> bool {
    c == '-' || ('0' <= c && c <= '9') || ('a' <= c && c <= 'f')
}

/// Relies on uuid::Uuid::new_v4 and its Display form: a fresh random
/// version-4 UUID, printed as five hyphenated groups of lowercase hex, 36
/// characters in all. The value is random; nothing relates two calls. The
/// call aborts only if the OS randomness source itself fails — an
/// environmental failure of the same kind as allocation failure.
#[verifier::external_body]
fn fresh_uuid_name() -> (r: String)
    ensures
        r@.len() == 36,
        forall|i: int| 0 <= i < r@.len() ==> is_uuid_char(#[trigger] r@[i]),
{
    uuid::Uuid::new_v4().to_string()
}

/// A name for the staged file of one buffer print, drawn fresh for each
/// call from a random version-4 UUID, so that concurrent prints stage
/// distinct files (collisions are negligible, not handled). The name is 36
/// characters of lowercase hex and hyphens: safe in a file path, and none
/// of its characters is one the submission commands refuse.
pub fn unique_job_name() -> (r: String)
    ensures
        r@.len() == 36,
        forall|i: int| 0 <= i < r@.len() ==> is_uuid_char(#[trigger] r@[i]),
{
    fresh_uuid_name()
}

} // verus!
