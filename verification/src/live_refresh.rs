//! Confirm-discard for a live re-import: re-reading a source regenerates the
//! row ids, so cell edits and row deletions cannot be replayed and are lost.
//! The prompt names exactly how many.

use vstd::prelude::*;
use crate::i18n::Catalog;
use crate::text::{decimal, decimal_string, replace_all, replaced};

verus! {

/// A stray click on the scrim resolves nothing: Cancel and Refresh are
/// different outcomes.
pub const SCRIM_DISMISSABLE: bool = false;

/// The header title above the prompt.
pub fn title(cat: &Catalog) -> (r: String)
    ensures
        r@ == cat.text("livedata.refresh.confirm.title"@),
{
    cat.t("livedata.refresh.confirm.title")
}

/// The prompt's text: the catalog's, with `{edits}` and `{deletes}` replaced
/// by the counts.
pub open spec fn body_text(cat: Catalog, edits: nat, deletes: nat) -> Seq<char> {
    replaced(
        replaced(cat.text("livedata.refresh.confirm.body"@), "{edits}"@, decimal(edits)),
        "{deletes}"@,
        decimal(deletes),
    )
}

/// The prompt's text, with the exact counts of what will be lost.
pub fn body(cat: &Catalog, dropped_edits: usize, dropped_deletes: usize) -> (r: String)
    ensures
        r@ == body_text(*cat, dropped_edits as nat, dropped_deletes as nat),
{
    let t = cat.t("livedata.refresh.confirm.body");
    proof {
        reveal_strlit("{edits}");
        reveal_strlit("{deletes}");
    }
    let a = replace_all(t.as_str(), "{edits}", decimal_string(dropped_edits as u64).as_str());
    replace_all(a.as_str(), "{deletes}", decimal_string(dropped_deletes as u64).as_str())
}

} // verus!
