//! The onboarding tour: its step through the panels, the pager's label, and
//! what the primary button does on the last panel.

use vstd::prelude::*;
use crate::i18n::Catalog;
use crate::text::{decimal, decimal_string, replace_all, replaced};

verus! {

/// A stray click on the scrim does not end the tour.
pub const SCRIM_DISMISSABLE: bool = false;

/// The tour's position among its panels.
pub struct Tour {
    pub step: usize,
    pub total: usize,
}

/// What the primary button did.
#[derive(Clone, Copy, PartialEq, Eq, Debug, Structural)]
pub enum TourMove {
    /// On to the next panel.
    Moved,
    /// The last panel's "get started": the tour is over.
    Finished,
}

impl Tour {
    /// The tour is on one of its panels.
    pub open spec fn wf(&self) -> bool {
        self.total > 0 && self.step < self.total
    }

    /// A tour of `total` panels opened at `initial`; a step past the end
    /// opens the last panel.
    pub fn new(initial: usize, total: usize) -> (t: Self)
        requires
            total > 0,
        ensures
            t.wf(),
            t.total == total,
            t.step == (if initial < total - 1 { initial as int } else { total - 1 }),
    {
        Tour { step: if initial < total - 1 { initial } else { total - 1 }, total }
    }

    /// Whether this is the last panel.
    pub fn is_last(&self) -> (r: bool)
        requires
            self.wf(),
        ensures
            r == (self.step == self.total - 1),
    {
        self.step == self.total - 1
    }

    /// Whether Back shows: not on the first panel.
    pub fn shows_back(&self) -> (r: bool)
        ensures
            r == (self.step > 0),
    {
        self.step > 0
    }

    /// Back: the previous panel, staying on the first.
    pub fn back(&mut self)
        requires
            old(self).wf(),
        ensures
            final(self).wf(),
            final(self).total == old(self).total,
            final(self).step == (if old(self).step > 0 { old(self).step - 1 } else { 0 }),
    {
        if self.step > 0 {
            self.step = self.step - 1;
        }
    }

    /// The primary button: the next panel, or the end of the tour on the
    /// last one.
    pub fn advance(&mut self) -> (m: TourMove)
        requires
            old(self).wf(),
        ensures
            final(self).wf(),
            final(self).total == old(self).total,
            old(self).step == old(self).total - 1 ==> m == TourMove::Finished && final(self).step == old(self).step,
            old(self).step < old(self).total - 1 ==> m == TourMove::Moved && final(self).step == old(self).step + 1,
    {
        if self.step == self.total - 1 {
            TourMove::Finished
        } else {
            self.step = self.step + 1;
            TourMove::Moved
        }
    }

    /// The primary button's id: the last panel's is "get started".
    pub fn next_id(&self) -> (r: &'static str)
        requires
            self.wf(),
        ensures
            r@ == (if self.step == self.total - 1 { "tour-get-started"@ } else { "tour-next"@ }),
    {
        if self.is_last() { "tour-get-started" } else { "tour-next" }
    }

    /// The primary button's label.
    pub fn next_label(&self, cat: &Catalog) -> (r: String)
        requires
            self.wf(),
        ensures
            r@ == cat.text(if self.step == self.total - 1 { "onboarding.tour.get_started"@ } else { "onboarding.tour.next"@ }),
    {
        if self.is_last() { cat.t("onboarding.tour.get_started") } else { cat.t("onboarding.tour.next") }
    }

    /// The pager's label: the catalog's, with `{n}` the panel's number from
    /// one and `{total}` the count.
    pub fn pager_label(&self, cat: &Catalog) -> (r: String)
        requires
            self.wf(),
        ensures
            r@ == replaced(
                replaced(cat.text("onboarding.tour.pager"@), "{n}"@, decimal(self.step as nat + 1)),
                "{total}"@,
                decimal(self.total as nat),
            ),
    {
        let t = cat.t("onboarding.tour.pager");
        proof {
            reveal_strlit("{n}");
            reveal_strlit("{total}");
        }
        let a = replace_all(t.as_str(), "{n}", decimal_string((self.step + 1) as u64).as_str());
        replace_all(a.as_str(), "{total}", decimal_string(self.total as u64).as_str())
    }
}

/// The asset path of panel `index`'s illustration: numbered from one.
pub fn illustration_path(index: usize) -> (r: String)
    requires
        index < usize::MAX,
    ensures
        r@ == "onboarding/p"@ + decimal(index as nat + 1) + ".png"@,
{
    let mut s = "onboarding/p".to_string();
    s.append(decimal_string((index + 1) as u64).as_str());
    s.append(".png");
    s
}

} // verus!
