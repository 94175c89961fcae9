//! Construction of the error strings that scan and cleanup results carry.

use vstd::prelude::*;
use vstd::string::StringExecFns;

verus! {

/// "Failed to hash <path>: <detail>"
pub open spec fn hash_failure_text(path: Seq<char>, detail: Seq<char>) -> Seq<char> {
    "Failed to hash "@ + path + ": "@ + detail
}

/// "Failed to scan <directory>: <detail>"
pub open spec fn scan_failure_text(dir: Seq<char>, detail: Seq<char>) -> Seq<char> {
    "Failed to scan "@ + dir + ": "@ + detail
}

/// "Failed to delete <path>: <detail>"
pub open spec fn delete_failure_text(path: Seq<char>, detail: Seq<char>) -> Seq<char> {
    "Failed to delete "@ + path + ": "@ + detail
}

/// "Failed to create backup: <detail>"
pub open spec fn backup_failure_text(detail: Seq<char>) -> Seq<char> {
    "Failed to create backup: "@ + detail
}

/// "Attempting to delete critical file: <path>"
pub open spec fn critical_file_text(path: Seq<char>) -> Seq<char> {
    "Attempting to delete critical file: "@ + path
}

/// `<prefix><subject>: <detail>`
fn join_detail(prefix: &str, subject: &str, detail: &str) -> (r: String)
    ensures
        r@ == prefix@ + subject@ + ": "@ + detail@,
{
    let mut out = String::new();
    out.append(prefix);
    out.append(subject);
    out.append(": ");
    out.append(detail);
    out
}

/// The per-file error recorded when hashing a file fails.
pub fn hash_failure_message(path: &str, detail: &str) -> (r: String)
    ensures
        r@ == hash_failure_text(path@, detail@),
{
    join_detail("Failed to hash ", path, detail)
}

/// The per-directory error recorded when a root cannot be walked.
pub fn scan_failure_message(dir: &str, detail: &str) -> (r: String)
    ensures
        r@ == scan_failure_text(dir@, detail@),
{
    join_detail("Failed to scan ", dir, detail)
}

/// The per-file error recorded when a deletion fails.
pub fn delete_failure_message(path: &str, detail: &str) -> (r: String)
    ensures
        r@ == delete_failure_text(path@, detail@),
{
    join_detail("Failed to delete ", path, detail)
}

/// The error recorded when the backup archive cannot be produced.
pub fn backup_failure_message(detail: &str) -> (r: String)
    ensures
        r@ == backup_failure_text(detail@),
{
    let mut out = String::new();
    out.append("Failed to create backup: ");
    out.append(detail);
    out
}

/// The guard rejection recorded when a critical file was slated for removal.
pub fn critical_file_message(path: &str) -> (r: String)
    ensures
        r@ == critical_file_text(path@),
{
    let mut out = String::new();
    out.append("Attempting to delete critical file: ");
    out.append(path);
    out
}

} // verus!
