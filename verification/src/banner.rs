//! The banner strip: each banner's severity decides whether a screen reader
//! is interrupted and how it is drawn.

use vstd::prelude::*;
use crate::a11y::AccessRole;
use crate::text::str_eq;

verus! {

/// How severe a banner is.
#[derive(Clone, Copy, PartialEq, Eq, Debug, Structural)]
pub enum BannerKind {
    Info,
    Warning,
    Error,
}

/// A button on a banner, and the action it runs.
#[derive(Clone, PartialEq, Eq, Debug)]
pub struct BannerAction {
    pub label: String,
    pub action_id: String,
}

/// One banner.
#[derive(Clone, PartialEq, Eq, Debug)]
pub struct Banner {
    pub kind: BannerKind,
    pub title: String,
    pub body: String,
    pub primary: Option<BannerAction>,
    pub secondary: Option<BannerAction>,
    pub dismissible: bool,
}

/// The role a banner takes: only an error interrupts.
pub fn role_of(kind: BannerKind) -> (r: AccessRole)
    ensures
        r == (if kind == BannerKind::Error { AccessRole::Alert } else { AccessRole::Label }),
{
    match kind {
        BannerKind::Error => AccessRole::Alert,
        BannerKind::Info | BannerKind::Warning => AccessRole::Label,
    }
}

/// The class a banner is drawn with: one per severity.
pub open spec fn class_text(kind: BannerKind) -> Seq<char> {
    match kind {
        BannerKind::Info => "d0-banner is-info"@,
        BannerKind::Warning => "d0-banner is-warning"@,
        BannerKind::Error => "d0-banner is-error"@,
    }
}

/// The class a banner is drawn with.
pub fn class_of(kind: BannerKind) -> (r: &'static str)
    ensures
        r@ == class_text(kind),
{
    match kind {
        BannerKind::Info => "d0-banner is-info",
        BannerKind::Warning => "d0-banner is-warning",
        BannerKind::Error => "d0-banner is-error",
    }
}

/// No two severities share a class.
pub proof fn lemma_classes_distinct(a: BannerKind, b: BannerKind)
    requires
        a != b,
    ensures
        class_text(a) != class_text(b),
{
    reveal_strlit("d0-banner is-info");
    reveal_strlit("d0-banner is-warning");
    reveal_strlit("d0-banner is-error");
    assert(class_text(a)[13] != class_text(b)[13] || class_text(a).len() != class_text(b).len());
}

impl Banner {
    /// Whether the body line shows: only when there is a body.
    pub fn shows_body(&self) -> (r: bool)
        ensures
            r == (self.body@.len() > 0),
    {
        self.body.as_str().unicode_len() > 0
    }

    /// Whether the action row shows: only when there is an action.
    pub fn shows_actions(&self) -> (r: bool)
        ensures
            r == (self.primary is Some || self.secondary is Some),
    {
        self.primary.is_some() || self.secondary.is_some()
    }
}

/// Whether no two banners of the strip share a title.
pub open spec fn titles_distinct(list: Seq<Banner>) -> bool {
    forall|i: int, j: int| 0 <= i < j < list.len() ==> list[i].title@ != list[j].title@
}

/// Whether a banner with `title` is already showing.
pub open spec fn showing_title(list: Seq<Banner>, title: Seq<char>) -> bool {
    exists|i: int| 0 <= i < list.len() && list[i].title@ == title
}

/// Show a banner, unless one with its title is already showing: the same
/// news twice is noise. Says whether it was added.
pub fn push_banner(list: &mut Vec<Banner>, b: Banner) -> (added: bool)
    ensures
        added == !showing_title(old(list)@, b.title@),
        added ==> final(list)@ == old(list)@.push(b),
        !added ==> final(list)@ == old(list)@,
{
    let mut i: usize = 0;
    while i < list.len()
        invariant
            i <= list@.len(),
            forall|k: int| 0 <= k < i ==> list@[k].title@ != b.title@,
        decreases list@.len() - i,
    {
        if str_eq(list[i].title.as_str(), b.title.as_str()) {
            return false;
        }
        i = i + 1;
    }
    list.push(b);
    true
}

/// Adding banners through [`push_banner`] keeps every title on the strip
/// once.
pub proof fn lemma_push_keeps_titles_distinct(list: Seq<Banner>, b: Banner)
    requires
        titles_distinct(list),
    ensures
        !showing_title(list, b.title@) ==> titles_distinct(list.push(b)),
{
    if !showing_title(list, b.title@) {
        assert forall|i: int, j: int| 0 <= i < j < list.push(b).len() implies list.push(b)[i].title@ != list.push(b)[j].title@ by {
            if j == list.len() {
                assert(list[i].title@ != b.title@);
            }
        }
    }
}

} // verus!
