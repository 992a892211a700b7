//! The grid's context menu: its seven entries, which of them a selection and
//! a read-only workspace allow, and the arrow keys that skip the rest.

use vstd::prelude::*;
use crate::export_dialog::cycle_ix;
use crate::i18n::Catalog;

verus! {

/// An entry of the grid's context menu.
#[derive(Clone, Copy, PartialEq, Eq, Debug, Structural)]
pub enum MenuItem {
    Copy,
    Cut,
    Paste,
    FillDown,
    SetNull,
    DeleteRows,
    DeleteColumn,
}

/// One entry as the menu shows it.
#[derive(Clone, PartialEq, Eq, Debug)]
pub struct MenuEntry {
    pub item: MenuItem,
    pub label: String,
    pub enabled: bool,
    pub separator_before: bool,
}

/// The entries in menu order.
pub open spec fn item_at(i: int) -> MenuItem {
    if i == 0 { MenuItem::Copy }
    else if i == 1 { MenuItem::Cut }
    else if i == 2 { MenuItem::Paste }
    else if i == 3 { MenuItem::FillDown }
    else if i == 4 { MenuItem::SetNull }
    else if i == 5 { MenuItem::DeleteRows }
    else { MenuItem::DeleteColumn }
}

/// The catalog key of an entry's label.
pub open spec fn item_key(item: MenuItem) -> Seq<char> {
    match item {
        MenuItem::Copy => "menu.copy"@,
        MenuItem::Cut => "menu.cut"@,
        MenuItem::Paste => "menu.paste"@,
        MenuItem::FillDown => "menu.fill_down"@,
        MenuItem::SetNull => "menu.set_null"@,
        MenuItem::DeleteRows => "menu.delete_rows"@,
        MenuItem::DeleteColumn => "menu.delete_column"@,
    }
}

/// Whether an entry is offered: copy always; every other entry changes the
/// data and is refused read-only; cut, fill down, set null and delete rows
/// also need a selection.
pub open spec fn item_enabled(item: MenuItem, has_selection: bool, read_only: bool) -> bool {
    match item {
        MenuItem::Copy => true,
        MenuItem::Paste | MenuItem::DeleteColumn => !read_only,
        _ => !read_only && has_selection,
    }
}

/// Whether a separator stands above an entry: before fill down, delete rows
/// and delete column.
pub open spec fn item_separated(item: MenuItem) -> bool {
    item == MenuItem::FillDown || item == MenuItem::DeleteRows || item == MenuItem::DeleteColumn
}

fn entry(cat: &Catalog, item: MenuItem, key: &str, has_selection: bool, read_only: bool) -> (r: MenuEntry)
    requires
        key@ == item_key(item),
    ensures
        r.item == item,
        r.label@ == cat.text(item_key(item)),
        r.enabled == item_enabled(item, has_selection, read_only),
        r.separator_before == item_separated(item),
{
    let w = !read_only;
    let enabled = match item {
        MenuItem::Copy => true,
        MenuItem::Paste | MenuItem::DeleteColumn => w,
        _ => w && has_selection,
    };
    let sep = match item {
        MenuItem::FillDown | MenuItem::DeleteRows | MenuItem::DeleteColumn => true,
        _ => false,
    };
    MenuEntry { item, label: cat.t(key), enabled, separator_before: sep }
}

/// The menu: always all seven entries, in order.
pub fn entries(cat: &Catalog, has_selection: bool, read_only: bool) -> (r: Vec<MenuEntry>)
    ensures
        r@.len() == 7,
        forall|i: int| 0 <= i < 7 ==> {
            &&& (#[trigger] r@[i]).item == item_at(i)
            &&& r@[i].label@ == cat.text(item_key(item_at(i)))
            &&& r@[i].enabled == item_enabled(item_at(i), has_selection, read_only)
            &&& r@[i].separator_before == item_separated(item_at(i))
        },
{
    let mut v: Vec<MenuEntry> = Vec::new();
    v.push(entry(cat, MenuItem::Copy, "menu.copy", has_selection, read_only));
    v.push(entry(cat, MenuItem::Cut, "menu.cut", has_selection, read_only));
    v.push(entry(cat, MenuItem::Paste, "menu.paste", has_selection, read_only));
    v.push(entry(cat, MenuItem::FillDown, "menu.fill_down", has_selection, read_only));
    v.push(entry(cat, MenuItem::SetNull, "menu.set_null", has_selection, read_only));
    v.push(entry(cat, MenuItem::DeleteRows, "menu.delete_rows", has_selection, read_only));
    v.push(entry(cat, MenuItem::DeleteColumn, "menu.delete_column", has_selection, read_only));
    v
}

/// Cut, fill down, set null and delete rows act on the selected cells, so
/// each is offered exactly when there is a selection in a writable
/// workspace; paste and delete column act at the clicked cell and are
/// offered whenever the workspace is writable; copy always is. So with no
/// selection, cut is never offered, and gaining a selection never takes an
/// entry away.
pub proof fn lemma_selection_entries_need_a_selection(has_selection: bool, read_only: bool)
    ensures
        forall|item: MenuItem|
            (item == MenuItem::Cut || item == MenuItem::FillDown || item == MenuItem::SetNull
                || item == MenuItem::DeleteRows) ==> (#[trigger] item_enabled(item, has_selection, read_only)
                <==> (has_selection && !read_only)),
        item_enabled(MenuItem::Paste, has_selection, read_only) <==> !read_only,
        item_enabled(MenuItem::DeleteColumn, has_selection, read_only) <==> !read_only,
        item_enabled(MenuItem::Copy, has_selection, read_only),
        !item_enabled(MenuItem::Cut, false, read_only),
        forall|item: MenuItem| #[trigger] item_enabled(item, false, read_only) ==> item_enabled(item, true, read_only),
{
}

/// Read-only, nothing but copy is offered.
pub proof fn lemma_read_only_offers_only_copy(item: MenuItem, has_selection: bool)
    ensures
        item_enabled(item, has_selection, true) <==> item == MenuItem::Copy,
{
}

/// Where the cursor lands after moving `delta` at a time from `i`, looking
/// at most `fuel` steps for an enabled entry.
pub open spec fn landing(i: int, delta: int, enabled: Seq<bool>, fuel: nat) -> Option<int>
    decreases fuel,
{
    if fuel == 0 || enabled.len() == 0 {
        None
    } else {
        let j = (i + delta) % (enabled.len() as int);
        if enabled[j] { Some(j) } else { landing(j, delta, enabled, (fuel - 1) as nat) }
    }
}

/// Whether any entry is enabled.
pub open spec fn any_enabled(enabled: Seq<bool>) -> bool {
    exists|k: int| 0 <= k < enabled.len() && enabled[k]
}

/// The cursor after an arrow key: the next enabled entry `delta` at a time,
/// wrapping, tried once round the menu; it stays where it is when nothing is
/// enabled or nothing is reached.
pub open spec fn stepped(from: int, delta: int, enabled: Seq<bool>) -> int {
    if enabled.len() == 0 || !any_enabled(enabled) {
        from
    } else {
        match landing(from, delta, enabled, enabled.len()) {
            Some(j) => j,
            None => from,
        }
    }
}

proof fn lemma_landing_enabled(i: int, delta: int, enabled: Seq<bool>, fuel: nat)
    ensures
        landing(i, delta, enabled, fuel) matches Some(j) ==> 0 <= j < enabled.len() && enabled[j],
    decreases fuel,
{
    if fuel > 0 && enabled.len() > 0 {
        let j = (i + delta) % (enabled.len() as int);
        vstd::arithmetic::div_mod::lemma_mod_bound(i + delta, enabled.len() as int);
        lemma_landing_enabled(j, delta, enabled, (fuel - 1) as nat);
    }
}

/// An arrow key never puts the cursor on a disabled entry it moved to: it
/// either stays where it was or lands on an enabled one.
pub proof fn lemma_step_lands_on_enabled(from: int, delta: int, enabled: Seq<bool>)
    ensures
        stepped(from, delta, enabled) == from
            || (0 <= stepped(from, delta, enabled) < enabled.len() && enabled[stepped(from, delta, enabled)]),
{
    lemma_landing_enabled(from, delta, enabled, enabled.len());
}

/// The cursor after an arrow key.
pub fn step(from: usize, delta: isize, enabled: &[bool]) -> (r: usize)
    requires
        from as int + delta as int >= isize::MIN,
        from as int + delta as int <= isize::MAX,
        from <= isize::MAX,
        enabled@.len() + delta <= isize::MAX,
    ensures
        r == stepped(from as int, delta as int, enabled@),
{
    let n = enabled.len();
    if n == 0 {
        return from;
    }
    let mut any = false;
    let mut k: usize = 0;
    while k < n
        invariant
            n == enabled@.len(),
            k <= n,
            any == exists|m: int| 0 <= m < k && enabled@[m],
        decreases n - k,
    {
        if enabled[k] {
            any = true;
        }
        k = k + 1;
    }
    if !any {
        return from;
    }
    let mut i = from;
    let mut c: usize = 0;
    while c < n
        invariant
            n == enabled@.len(),
            n > 0,
            c <= n,
            c > 0 ==> i < n,
            c == 0 ==> i == from,
            landing(from as int, delta as int, enabled@, n as nat)
                == landing(i as int, delta as int, enabled@, (n - c) as nat),
        decreases n - c,
    {
        i = cycle_ix(i, n, delta);
        if enabled[i] {
            return i;
        }
        c = c + 1;
    }
    from
}

} // verus!
