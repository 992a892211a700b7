//! The About dialog's host rules.

use vstd::prelude::*;
use crate::i18n::Catalog;

verus! {

/// A click on the scrim closes About: it holds nothing to lose.
pub const SCRIM_DISMISSABLE: bool = true;

/// The dialog's title.
pub fn title(cat: &Catalog) -> (r: String)
    ensures
        r@ == cat.text("about.title"@),
{
    cat.t("about.title")
}

} // verus!
