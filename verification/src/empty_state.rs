//! The empty state: the first-run hero with its band and tour, the sample
//! cards, and the recents list with its keyboard cursor.

use vstd::prelude::*;

verus! {

/// Which hero the empty state shows.
#[derive(Clone, Copy, PartialEq, Eq, Debug, Structural)]
pub enum HeroMode {
    /// Before the first run: the band with the tour and the demo.
    Enriched,
    /// After it: the headline alone.
    Plain,
}

/// The hero for a user who has, or has not, finished a first run.
pub fn hero_mode(first_run_done: bool) -> (r: HeroMode)
    ensures
        r == (if first_run_done { HeroMode::Plain } else { HeroMode::Enriched }),
{
    if first_run_done { HeroMode::Plain } else { HeroMode::Enriched }
}

/// Whether the tour starts by itself: only before the first run is done.
pub fn should_auto_tour(first_run_done: bool) -> (r: bool)
    ensures
        r == !first_run_done,
{
    !first_run_done
}

/// Whether the band shows: only in the enriched hero.
pub fn band_visible(mode: HeroMode) -> (r: bool)
    ensures
        r == (mode == HeroMode::Enriched),
{
    match mode {
        HeroMode::Enriched => true,
        HeroMode::Plain => false,
    }
}

/// The bundled and remote samples the hero offers.
#[derive(Clone, Copy, PartialEq, Eq, Debug, Structural)]
pub enum SampleKind {
    BundledCsv,
    BundledSqlite,
    Remote,
}

/// The id of a sample's card.
pub open spec fn sample_id_text(kind: SampleKind) -> Seq<char> {
    match kind {
        SampleKind::BundledCsv => "hero-sample-iris"@,
        SampleKind::BundledSqlite => "hero-sample-chinook"@,
        SampleKind::Remote => "hero-sample-nyc-taxi"@,
    }
}

/// The id of a sample's card.
pub fn sample_static_id(kind: SampleKind) -> (r: &'static str)
    ensures
        r@ == sample_id_text(kind),
{
    match kind {
        SampleKind::BundledCsv => "hero-sample-iris",
        SampleKind::BundledSqlite => "hero-sample-chinook",
        SampleKind::Remote => "hero-sample-nyc-taxi",
    }
}

/// No two samples share a card id.
pub proof fn lemma_sample_ids_distinct(a: SampleKind, b: SampleKind)
    requires
        a != b,
    ensures
        sample_id_text(a) != sample_id_text(b),
{
    reveal_strlit("hero-sample-iris");
    reveal_strlit("hero-sample-chinook");
    reveal_strlit("hero-sample-nyc-taxi");
    assert(sample_id_text(a).len() != sample_id_text(b).len());
}

/// Something opened before.
#[derive(Clone, PartialEq, Eq, Debug)]
pub enum RecentEntry {
    Package { path: String },
    Workspace { path: String },
}

impl RecentEntry {
    /// Where it lives.
    pub fn path(&self) -> (r: &str)
        ensures
            r@ == (match *self {
                RecentEntry::Package { path } => path@,
                RecentEntry::Workspace { path } => path@,
            }),
    {
        match self {
            RecentEntry::Package { path } => path.as_str(),
            RecentEntry::Workspace { path } => path.as_str(),
        }
    }
}

impl RecentEntry {
    /// A copy of the entry.
    pub fn duplicate(&self) -> (r: Self)
        ensures
            r == *self,
    {
        match self {
            RecentEntry::Package { path } => RecentEntry::Package { path: path.clone() },
            RecentEntry::Workspace { path } => RecentEntry::Workspace { path: path.clone() },
        }
    }
}

/// The entry at `active`, when there is one.
pub fn active_recent(entries: &[RecentEntry], active: usize) -> (r: Option<RecentEntry>)
    ensures
        active < entries@.len() ==> r == Some(entries@[active as int]),
        active >= entries@.len() ==> r is None,
{
    if active < entries.len() {
        Some(entries[active].duplicate())
    } else {
        None
    }
}

/// The catalog keys of the hero's copy.
pub fn hero_copy_keys() -> (r: Vec<&'static str>)
    ensures
        r@.len() == 9,
        r@[0]@ == "hero.title"@,
        r@[1]@ == "hero.subtitle"@,
        r@[2]@ == "hero.lead"@,
        r@[3]@ == "hero.drop"@,
        r@[4]@ == "hero.privacy"@,
        r@[5]@ == "hero.demo.heading"@,
        r@[6]@ == "hero.demo.cta"@,
        r@[7]@ == "hero.samples.heading"@,
        r@[8]@ == "hero.take_tour"@,
{
    vec![
        "hero.title",
        "hero.subtitle",
        "hero.lead",
        "hero.drop",
        "hero.privacy",
        "hero.demo.heading",
        "hero.demo.cta",
        "hero.samples.heading",
        "hero.take_tour",
    ]
}

/// A key the recents list answers.
#[derive(Clone, Copy, PartialEq, Eq, Debug, Structural)]
pub enum ListKey {
    Down,
    Up,
    /// Enter or Space.
    Activate,
}

/// The row shown selected: the one asked for, never past the last.
pub open spec fn selected_of(active: int, len: int) -> int {
    if len == 0 { 0 } else if active < len - 1 { active } else { len - 1 }
}

/// The recents list's keyboard cursor after `key`, and the entry opened:
/// the arrows move and stop at the ends, Enter and Space open the selected
/// entry.
pub fn recents_key(entries: &[RecentEntry], active: usize, key: ListKey) -> (r: (usize, Option<RecentEntry>))
    ensures
        key == ListKey::Down ==> r.0 == selected_of(selected_of(active as int, entries@.len() as int) + 1, entries@.len() as int) && r.1 is None,
        key == ListKey::Up ==> r.0 == (if selected_of(active as int, entries@.len() as int) > 0 {
            selected_of(active as int, entries@.len() as int) - 1
        } else {
            0
        }) && r.1 is None,
        key == ListKey::Activate ==> r.0 == active && (entries@.len() > 0 ==> r.1 == Some(
            entries@[selected_of(active as int, entries@.len() as int)],
        )) && (entries@.len() == 0 ==> r.1 is None),
{
    let len = entries.len();
    let selected = if len == 0 { 0 } else if active < len - 1 { active } else { len - 1 };
    match key {
        ListKey::Down => {
            let n = if len == 0 { 0 } else if selected + 1 < len - 1 { selected + 1 } else { len - 1 };
            (n, None)
        },
        ListKey::Up => (if selected > 0 { selected - 1 } else { 0 }, None),
        ListKey::Activate => (active, active_recent(entries, selected)),
    }
}

} // verus!
