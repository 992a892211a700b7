//! The filter popover's model: operator labels, the value each operator
//! takes, and the value list's chips (toggled on and off, added by typing).

use vstd::prelude::*;
use crate::i18n::Catalog;
use crate::text::{decimal, decimal_string, replace_all, replaced, str_eq, trim, trimmed, views};

verus! {

/// How many of a column's most common values the list offers.
pub const TOP_N: usize = 50;

/// A filter operator.
#[derive(Clone, Copy, PartialEq, Eq, Debug, Structural)]
pub enum FilterOp {
    Eq,
    Neq,
    Lt,
    Lte,
    Gt,
    Gte,
    Between,
    Contains,
    NotContains,
    StartsWith,
    EndsWith,
    In,
    Regex,
    IsEmpty,
    IsNotEmpty,
    IsTrue,
    IsFalse,
}

/// The catalog key of an operator's label.
pub open spec fn op_key_text(op: FilterOp) -> Seq<char> {
    match op {
        FilterOp::Eq => "filter.op.eq"@,
        FilterOp::Neq => "filter.op.neq"@,
        FilterOp::Lt => "filter.op.lt"@,
        FilterOp::Lte => "filter.op.lte"@,
        FilterOp::Gt => "filter.op.gt"@,
        FilterOp::Gte => "filter.op.gte"@,
        FilterOp::Between => "filter.op.between"@,
        FilterOp::Contains => "filter.op.contains"@,
        FilterOp::NotContains => "filter.op.not_contains"@,
        FilterOp::StartsWith => "filter.op.starts_with"@,
        FilterOp::EndsWith => "filter.op.ends_with"@,
        FilterOp::In => "filter.op.in"@,
        FilterOp::Regex => "filter.op.regex"@,
        FilterOp::IsEmpty => "filter.op.is_empty"@,
        FilterOp::IsNotEmpty => "filter.op.is_not_empty"@,
        FilterOp::IsTrue => "filter.op.is_true"@,
        FilterOp::IsFalse => "filter.op.is_false"@,
    }
}

/// The catalog key of an operator's label.
pub fn op_key(op: FilterOp) -> (r: &'static str)
    ensures
        r@ == op_key_text(op),
{
    match op {
        FilterOp::Eq => "filter.op.eq",
        FilterOp::Neq => "filter.op.neq",
        FilterOp::Lt => "filter.op.lt",
        FilterOp::Lte => "filter.op.lte",
        FilterOp::Gt => "filter.op.gt",
        FilterOp::Gte => "filter.op.gte",
        FilterOp::Between => "filter.op.between",
        FilterOp::Contains => "filter.op.contains",
        FilterOp::NotContains => "filter.op.not_contains",
        FilterOp::StartsWith => "filter.op.starts_with",
        FilterOp::EndsWith => "filter.op.ends_with",
        FilterOp::In => "filter.op.in",
        FilterOp::Regex => "filter.op.regex",
        FilterOp::IsEmpty => "filter.op.is_empty",
        FilterOp::IsNotEmpty => "filter.op.is_not_empty",
        FilterOp::IsTrue => "filter.op.is_true",
        FilterOp::IsFalse => "filter.op.is_false",
    }
}

/// An operator's label.
pub fn op_label(cat: &Catalog, op: FilterOp) -> (r: String)
    ensures
        r@ == cat.text(op_key_text(op)),
{
    cat.t(op_key(op))
}

/// What an operator needs typed.
#[derive(Clone, Copy, PartialEq, Eq, Debug, Structural)]
pub enum ValueShape {
    /// Nothing: the operator is a test on its own.
    NoValue,
    /// One value.
    Single,
    /// A low and a high bound.
    Range,
    /// A set of values.
    List,
}

/// What an operator needs typed.
pub fn value_shape(op: FilterOp) -> (r: ValueShape)
    ensures
        r == (match op {
            FilterOp::IsEmpty | FilterOp::IsNotEmpty | FilterOp::IsTrue | FilterOp::IsFalse => ValueShape::NoValue,
            FilterOp::Between => ValueShape::Range,
            FilterOp::In => ValueShape::List,
            _ => ValueShape::Single,
        }),
{
    match op {
        FilterOp::IsEmpty | FilterOp::IsNotEmpty | FilterOp::IsTrue | FilterOp::IsFalse => ValueShape::NoValue,
        FilterOp::Between => ValueShape::Range,
        FilterOp::In => ValueShape::List,
        _ => ValueShape::Single,
    }
}

/// Whether the list says it is cut short: only when the column has more
/// distinct values than it offers.
pub fn banner_needed(total: u64) -> (r: bool)
    ensures
        r == (total > TOP_N),
{
    total > TOP_N as u64
}

/// The notice under a cut-short list: the catalog's text with `{shown}` and
/// `{total}` replaced by the counts.
pub open spec fn notice_text(cat: Catalog, total: nat) -> Seq<char> {
    replaced(replaced(cat.text("filter.list.truncated"@), "{shown}"@, decimal(TOP_N as nat)), "{total}"@, decimal(total))
}

/// The notice under a cut-short list, naming both counts.
pub fn truncation_notice(cat: &Catalog, total: u64) -> (r: String)
    ensures
        r@ == notice_text(*cat, total as nat),
{
    let t = cat.t("filter.list.truncated");
    proof {
        reveal_strlit("{shown}");
        reveal_strlit("{total}");
    }
    let a = replace_all(t.as_str(), "{shown}", decimal_string(TOP_N as u64).as_str());
    replace_all(a.as_str(), "{total}", decimal_string(total).as_str())
}

/// Whether the list holds `v`.
pub open spec fn holds(list: Seq<Seq<char>>, v: Seq<char>) -> bool {
    exists|i: int| 0 <= i < list.len() && list[i] == v
}

/// The first position of `v` in `list`, if any.
fn position(list: &Vec<String>, v: &str) -> (r: Option<usize>)
    ensures
        r matches Some(i) ==> i < list@.len() && list@[i as int]@ == v@
            && forall|k: int| 0 <= k < i ==> list@[k]@ != v@,
        r is None ==> forall|k: int| 0 <= k < list@.len() ==> list@[k]@ != v@,
{
    let mut i: usize = 0;
    while i < list.len()
        invariant
            i <= list@.len(),
            forall|k: int| 0 <= k < i ==> list@[k]@ != v@,
        decreases list@.len() - i,
    {
        if str_eq(list[i].as_str(), v) {
            return Some(i);
        }
        i = i + 1;
    }
    None
}

/// A chip clicked: a value selected is deselected (its first occurrence
/// removed); one not selected is added at the end.
pub fn toggle_value(list: &mut Vec<String>, v: &str)
    ensures
        !holds(views(old(list)@), v@) ==> views(final(list)@) == views(old(list)@).push(v@),
        holds(views(old(list)@), v@) ==> exists|i: int| 0 <= i < old(list)@.len()
            && views(old(list)@)[i] == v@
            && (forall|k: int| 0 <= k < i ==> views(old(list)@)[k] != v@)
            && views(final(list)@) == views(old(list)@).remove(i),
{
    let ghost before = views(list@);
    match position(list, v) {
        Some(at) => {
            list.remove(at);
            assert(views(list@) =~= before.remove(at as int));
            assert(before[at as int] == v@);
        },
        None => {
            assert(!holds(before, v@)) by {
                if holds(before, v@) {
                    let j = choose|j: int| 0 <= j < before.len() && before[j] == v@;
                    assert(list@[j]@ == v@);
                }
            }
            list.push(v.to_string());
            assert(views(list@) =~= before.push(v@));
        },
    }
}

/// Enter in the list's entry field: the trimmed text is added unless it is
/// empty or already selected. Says whether it was.
pub fn add_entry(list: &mut Vec<String>, entry: &str) -> (added: bool)
    ensures
        added == (trim(entry@).len() > 0 && !holds(views(old(list)@), trim(entry@))),
        added ==> views(final(list)@) == views(old(list)@).push(trim(entry@)),
        !added ==> final(list)@ == old(list)@,
{
    let t = trimmed(entry);
    if t.as_str().unicode_len() == 0 {
        return false;
    }
    let ghost before = views(list@);
    match position(list, t.as_str()) {
        Some(at) => {
            assert(before[at as int] == t@);
            false
        },
        None => {
            assert(!holds(before, t@)) by {
                if holds(before, t@) {
                    let j = choose|j: int| 0 <= j < before.len() && before[j] == t@;
                    assert(list@[j]@ == t@);
                }
            }
            list.push(t);
            assert(views(list@) =~= before.push(trim(entry@)));
            true
        },
    }
}

/// The chips the list shows: the offered values, then any selected value not
/// among them, in selection order; each with whether it is selected.
pub open spec fn chip_texts(candidates: Seq<Seq<char>>, selected: Seq<Seq<char>>) -> Seq<(Seq<char>, bool)> {
    candidates.map_values(|c: Seq<char>| (c, holds(selected, c)))
        + selected.filter(|s: Seq<char>| !holds(candidates, s)).map_values(|s: Seq<char>| (s, true))
}

/// Pairs of a string and a flag as pairs of a text and the flag.
pub open spec fn chip_views(v: Seq<(String, bool)>) -> Seq<(Seq<char>, bool)> {
    v.map_values(|p: (String, bool)| (p.0@, p.1))
}

proof fn lemma_position_holds(list: Seq<String>, v: Seq<char>, found: bool, i: int)
    requires
        found ==> 0 <= i < list.len() && list[i]@ == v,
        !found ==> forall|k: int| 0 <= k < list.len() ==> list[k]@ != v,
    ensures
        found == holds(views(list), v),
{
    if found {
        assert(views(list)[i] == v);
    } else if holds(views(list), v) {
        let j = choose|j: int| 0 <= j < views(list).len() && views(list)[j] == v;
        assert(list[j]@ == v);
    }
}

/// The chips the list shows, each with whether it is selected.
pub fn chips(candidates: &Vec<String>, selected: &Vec<String>) -> (r: Vec<(String, bool)>)
    ensures
        chip_views(r@) == chip_texts(views(candidates@), views(selected@)),
{
    let ghost cv = views(candidates@);
    let ghost sv = views(selected@);
    let mut out: Vec<(String, bool)> = Vec::new();
    let mut i: usize = 0;
    while i < candidates.len()
        invariant
            i <= candidates@.len(),
            cv == views(candidates@),
            sv == views(selected@),
            chip_views(out@) == cv.take(i as int).map_values(|c: Seq<char>| (c, holds(sv, c))),
        decreases candidates@.len() - i,
    {
        let p = position(selected, candidates[i].as_str());
        proof {
            match p {
                Some(j) => lemma_position_holds(selected@, candidates@[i as int]@, true, j as int),
                None => lemma_position_holds(selected@, candidates@[i as int]@, false, 0),
            }
        }
        let ghost before = chip_views(out@);
        out.push((candidates[i].clone(), p.is_some()));
        assert(chip_views(out@) =~= before.push((cv[i as int], holds(sv, cv[i as int]))));
        assert(cv.take(i + 1) =~= cv.take(i as int).push(cv[i as int]));
        assert(cv.take(i + 1).map_values(|c: Seq<char>| (c, holds(sv, c)))
            =~= cv.take(i as int).map_values(|c: Seq<char>| (c, holds(sv, c))).push((cv[i as int], holds(sv, cv[i as int]))));
        i = i + 1;
    }
    assert(cv.take(candidates@.len() as int) =~= cv);
    let ghost head = chip_views(out@);
    let mut j: usize = 0;
    assert(sv.take(0).filter(|s: Seq<char>| !holds(cv, s)) =~= Seq::<Seq<char>>::empty());
    while j < selected.len()
        invariant
            j <= selected@.len(),
            cv == views(candidates@),
            sv == views(selected@),
            head == cv.map_values(|c: Seq<char>| (c, holds(sv, c))),
            chip_views(out@) == head + sv.take(j as int).filter(|s: Seq<char>| !holds(cv, s)).map_values(
                |s: Seq<char>| (s, true),
            ),
        decreases selected@.len() - j,
    {
        let p = position(candidates, selected[j].as_str());
        proof {
            match p {
                Some(k) => lemma_position_holds(candidates@, selected@[j as int]@, true, k as int),
                None => lemma_position_holds(candidates@, selected@[j as int]@, false, 0),
            }
        }
        let ghost prev = sv.take(j as int).filter(|s: Seq<char>| !holds(cv, s));
        assert(sv.take(j + 1).drop_last() =~= sv.take(j as int));
        assert(sv.take(j + 1).last() == sv[j as int]);
        assert(sv.take(j + 1).filter(|s: Seq<char>| !holds(cv, s)) == (if !holds(cv, sv[j as int]) {
            prev.push(sv[j as int])
        } else {
            prev
        })) by {
            reveal(Seq::filter);
        }
        if p.is_none() {
            let ghost before = chip_views(out@);
            out.push((selected[j].clone(), true));
            assert(chip_views(out@) =~= before.push((sv[j as int], true)));
            assert(prev.push(sv[j as int]).map_values(|s: Seq<char>| (s, true))
                =~= prev.map_values(|s: Seq<char>| (s, true)).push((sv[j as int], true)));
        }
        j = j + 1;
    }
    assert(sv.take(selected@.len() as int) =~= sv);
    out
}

} // verus!
