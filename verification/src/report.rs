//! The texts that tell the user what a command did.

use crate::vault::AddOutcome;
use vstd::prelude::*;

verus! {

/// What `added_message` says.
pub open spec fn added_text(outcome: AddOutcome, id: Seq<char>) -> Seq<char> {
    match outcome {
        AddOutcome::Created => "Added password entry with id "@ + id,
        AddOutcome::Updated => "Password entry with id "@ + id + " updated successfully"@,
    }
}

/// What `removed_message` says.
pub open spec fn removed_text(id: Seq<char>) -> Seq<char> {
    "Password entry with id '"@ + id + "' deleted successfully"@
}

/// What `not_found_message` says.
pub open spec fn not_found_text(id: Seq<char>) -> Seq<char> {
    "Entry with id '"@ + id + "' not found"@
}

/// The report of an add: whether the entry is new or replaced an older
/// one.
pub fn added_message(outcome: AddOutcome, id: &str) -> (text: String)
    ensures
        text@ == added_text(outcome, id@),
{
    match outcome {
        AddOutcome::Created => {
            let mut text = String::from_str("Added password entry with id ");
            text.append(id);
            text
        },
        AddOutcome::Updated => {
            let mut text = String::from_str("Password entry with id ");
            text.append(id);
            text.append(" updated successfully");
            text
        },
    }
}

/// The report of a removal.
pub fn removed_message(id: &str) -> (text: String)
    ensures
        text@ == removed_text(id@),
{
    let mut text = String::from_str("Password entry with id '");
    text.append(id);
    text.append("' deleted successfully");
    text
}

/// The report of a lookup or removal that found no entry with this id.
pub fn not_found_message(id: &str) -> (text: String)
    ensures
        text@ == not_found_text(id@),
{
    let mut text = String::from_str("Entry with id '");
    text.append(id);
    text.append("' not found");
    text
}

} // verus!
