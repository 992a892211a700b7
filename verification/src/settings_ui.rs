//! The settings window's model: its sections in order, the theme and
//! log-level cycles, and the memory-budget field that only persists a number.

use vstd::prelude::*;
use crate::i18n::Catalog;
use crate::text::{chars_of, str_eq, trim, trimmed};

verus! {

/// The connections surface's name for the shell's router.
pub const CONNECTIONS_OPEN: &'static str = "connections.open";

/// One sidebar entry: a stable id and the catalog key of its label.
#[derive(Clone, Copy, PartialEq, Eq, Debug)]
pub struct Section {
    pub id: &'static str,
    pub name_key: &'static str,
}

/// The ids of the sections, in display order.
pub open spec fn section_ids() -> Seq<Seq<char>> {
    seq!["profile"@, "theme"@, "memory_budget"@, "motherduck"@, "ai"@, "telemetry"@, "workspace"@, "updates"@, "advanced"@]
}

/// Every section, in display order; each label's key is `settings.` and its
/// id.
pub fn sections() -> (r: Vec<Section>)
    ensures
        r@.len() == 9,
        forall|i: int| 0 <= i < 9 ==> (#[trigger] r@[i]).id@ == section_ids()[i]
            && r@[i].name_key@ == "settings."@ + section_ids()[i],
{
    proof {
        reveal_strlit("profile");
        reveal_strlit("theme");
        reveal_strlit("memory_budget");
        reveal_strlit("motherduck");
        reveal_strlit("ai");
        reveal_strlit("telemetry");
        reveal_strlit("workspace");
        reveal_strlit("updates");
        reveal_strlit("advanced");
        reveal_strlit("settings.");
        reveal_strlit("settings.profile");
        reveal_strlit("settings.theme");
        reveal_strlit("settings.memory_budget");
        reveal_strlit("settings.motherduck");
        reveal_strlit("settings.ai");
        reveal_strlit("settings.telemetry");
        reveal_strlit("settings.workspace");
        reveal_strlit("settings.updates");
        reveal_strlit("settings.advanced");
    }
    let v = vec![
        Section { id: "profile", name_key: "settings.profile" },
        Section { id: "theme", name_key: "settings.theme" },
        Section { id: "memory_budget", name_key: "settings.memory_budget" },
        Section { id: "motherduck", name_key: "settings.motherduck" },
        Section { id: "ai", name_key: "settings.ai" },
        Section { id: "telemetry", name_key: "settings.telemetry" },
        Section { id: "workspace", name_key: "settings.workspace" },
        Section { id: "updates", name_key: "settings.updates" },
        Section { id: "advanced", name_key: "settings.advanced" },
    ];
    assert("settings.profile"@ =~= "settings."@ + "profile"@);
    assert("settings.theme"@ =~= "settings."@ + "theme"@);
    assert("settings.memory_budget"@ =~= "settings."@ + "memory_budget"@);
    assert("settings.motherduck"@ =~= "settings."@ + "motherduck"@);
    assert("settings.ai"@ =~= "settings."@ + "ai"@);
    assert("settings.telemetry"@ =~= "settings."@ + "telemetry"@);
    assert("settings.workspace"@ =~= "settings."@ + "workspace"@);
    assert("settings.updates"@ =~= "settings."@ + "updates"@);
    assert("settings.advanced"@ =~= "settings."@ + "advanced"@);
    v
}

/// A section's label.
pub fn section_label(cat: &Catalog, s: &Section) -> (r: String)
    ensures
        r@ == cat.text(s.name_key@),
{
    cat.t(s.name_key)
}

/// The log-level directives the Advanced cycle steps through.
pub open spec fn log_levels() -> Seq<Seq<char>> {
    seq!["error"@, "warn"@, "info,dat0=debug"@, "debug"@]
}

/// The first position of `x` in `xs`, if it is there.
pub open spec fn index_in(xs: Seq<Seq<char>>, x: Seq<char>) -> Option<int>
    decreases xs.len(),
{
    if xs.len() == 0 {
        None
    } else {
        match index_in(xs.drop_last(), x) {
            Some(i) => Some(i),
            None => if xs.last() == x { Some(xs.len() - 1) } else { None },
        }
    }
}

proof fn lemma_index_in(xs: Seq<Seq<char>>, x: Seq<char>)
    ensures
        index_in(xs, x) matches Some(i) ==> 0 <= i < xs.len() && xs[i] == x
            && forall|k: int| 0 <= k < i ==> xs[k] != x,
        index_in(xs, x) is None ==> forall|k: int| 0 <= k < xs.len() ==> xs[k] != x,
    decreases xs.len(),
{
    if xs.len() > 0 {
        lemma_index_in(xs.drop_last(), x);
        assert forall|k: int| 0 <= k < xs.len() - 1 implies xs.drop_last()[k] == xs[k] by {}
    }
}

/// The next entry of a cycle after `current`, wrapping; an entry not in the
/// cycle counts as the one at `fallback`.
pub open spec fn next_in(xs: Seq<Seq<char>>, current: Seq<char>, fallback: int) -> Seq<char> {
    let i = match index_in(xs, current) {
        Some(i) => i,
        None => fallback,
    };
    xs[(i + 1) % (xs.len() as int)]
}

fn position_in(xs: &[&'static str], x: &str) -> (r: Option<usize>)
    ensures
        r matches Some(i) ==> i < xs@.len() && index_in(xs@.map_values(|s: &'static str| s@), x@) == Some(i as int),
        r is None ==> index_in(xs@.map_values(|s: &'static str| s@), x@) is None,
{
    let ghost v = xs@.map_values(|s: &'static str| s@);
    let mut i: usize = 0;
    while i < xs.len()
        invariant
            i <= xs@.len(),
            v == xs@.map_values(|s: &'static str| s@),
            forall|k: int| 0 <= k < i ==> v[k] != x@,
        decreases xs@.len() - i,
    {
        if str_eq(xs[i], x) {
            proof {
                lemma_index_in(v, x@);
                if let Some(j) = index_in(v, x@) {
                    if j > i {
                        assert(v[i as int] == x@);
                    }
                } else {
                    assert(v[i as int] == x@);
                }
            }
            return Some(i);
        }
        i = i + 1;
    }
    proof {
        lemma_index_in(v, x@);
        if let Some(j) = index_in(v, x@) {
            assert(v[j] == x@);
        }
    }
    None
}

/// The next log level after `current`, wrapping; an unrecognised one resumes
/// from the shipped default, `info,dat0=debug`.
pub fn next_log_level(current: &str) -> (r: &'static str)
    ensures
        r@ == next_in(log_levels(), current@, 2),
{
    let levels: [&'static str; 4] = ["error", "warn", "info,dat0=debug", "debug"];
    assert(levels@.map_values(|s: &'static str| s@) =~= log_levels());
    let i = match position_in(&levels, current) {
        Some(i) => i,
        None => 2,
    };
    levels[(i + 1) % 4]
}

/// The next theme after `current` among `ids`, wrapping; one not among them
/// counts as the first, so the button never strands.
pub fn next_theme(ids: &[&'static str], current: &str) -> (r: &'static str)
    requires
        ids@.len() > 0,
    ensures
        r@ == next_in(ids@.map_values(|s: &'static str| s@), current@, 0),
{
    let i = match position_in(ids, current) {
        Some(i) => i,
        None => 0,
    };
    let n = ids.len();
    ids[(i + 1) % n]
}

/// Whether a field differs from the value last persisted this session: the
/// guard against a write per keystroke.
pub fn changed(prev: &str, next: &str) -> (r: bool)
    ensures
        r == (prev@ != next@),
{
    !str_eq(prev, next)
}

/// The value of a decimal digit.
pub open spec fn digit_value(c: char) -> nat {
    (c as u32 - '0' as u32) as nat
}

/// Whether `c` is an ASCII digit.
pub open spec fn is_digit(c: char) -> bool {
    '0' <= c <= '9'
}

/// The number the digits `s` write.
pub open spec fn digits_value(s: Seq<char>) -> nat
    decreases s.len(),
{
    if s.len() == 0 { 0 } else { digits_value(s.drop_last()) * 10 + digit_value(s.last()) }
}

/// A number's text without its leading `+`, if it has one.
pub open spec fn unsigned_part(s: Seq<char>) -> Seq<char> {
    if s.len() > 0 && s[0] == '+' { s.drop_first() } else { s }
}

/// What `str::parse::<u32>` gives: an optional `+`, then one or more digits
/// whose value fits.
pub open spec fn parsed_u32(s: Seq<char>) -> Option<u32> {
    let d = unsigned_part(s);
    if d.len() > 0 && (forall|i: int| 0 <= i < d.len() ==> is_digit(#[trigger] d[i])) && digits_value(d) <= u32::MAX {
        Some(digits_value(d) as u32)
    } else {
        None
    }
}

proof fn lemma_digits_grow(s: Seq<char>, k: int)
    requires
        0 <= k <= s.len(),
        forall|i: int| 0 <= i < s.len() ==> is_digit(#[trigger] s[i]),
    ensures
        digits_value(s.take(k)) <= digits_value(s),
    decreases s.len() - k,
{
    if k < s.len() {
        lemma_digits_grow(s, k + 1);
        assert(s.take(k + 1).drop_last() =~= s.take(k));
    } else {
        assert(s.take(k) =~= s);
    }
}

/// `str::parse::<u32>`, written out: an optional `+`, then digits, refused
/// when empty, when anything else is in it, or when the value overflows.
pub fn parse_u32(s: &str) -> (r: Option<u32>)
    ensures
        r == parsed_u32(s@),
{
    let v = chars_of(s);
    let start: usize = if v.len() > 0 && v[0] == '+' { 1 } else { 0 };
    let ghost d = unsigned_part(s@);
    assert(d =~= v@.skip(start as int));
    if start >= v.len() {
        return None;
    }
    let mut acc: u64 = 0;
    let mut i: usize = start;
    while i < v.len()
        invariant
            start <= i <= v@.len(),
            v@ == s@,
            d == unsigned_part(s@),
            d == v@.skip(start as int),
            forall|k: int| 0 <= k < i - start ==> is_digit(#[trigger] d[k]),
            acc == digits_value(d.take(i - start)),
            acc <= u32::MAX,
        decreases v@.len() - i,
    {
        let c = v[i];
        if !('0' <= c && c <= '9') {
            assert(!is_digit(d[i - start]));
            return None;
        }
        assert(d.take(i - start + 1).drop_last() =~= d.take(i - start));
        assert(d.take(i - start + 1).last() == c);
        let next: u64 = acc * 10 + ((c as u32) - ('0' as u32)) as u64;
        assert(next == digits_value(d.take(i - start + 1)));
        if next > u32::MAX as u64 {
            proof {
                if forall|k: int| 0 <= k < d.len() ==> is_digit(#[trigger] d[k]) {
                    lemma_digits_grow(d, i - start + 1);
                }
            }
            return None;
        }
        acc = next;
        i = i + 1;
    }
    assert(d.take(d.len() as int) =~= d);
    Some(acc as u32)
}

/// What typing in the memory-budget field does: the field shows the trimmed
/// text; when it differs from what was last seen it becomes the last seen,
/// and is persisted if it reads as a number.
pub struct BudgetEdit {
    pub shown: String,
    pub changed: bool,
    pub persist: Option<u32>,
}

/// What typing `typed` into the memory-budget field does, `last` being the
/// value last seen: a half-typed or cleared field persists nothing.
pub fn budget_edit(last: &str, typed: &str) -> (r: BudgetEdit)
    ensures
        r.shown@ == trim(typed@),
        r.changed == (last@ != trim(typed@)),
        r.persist == (if r.changed { parsed_u32(trim(typed@)) } else { None }),
{
    let v = trimmed(typed);
    let ch = changed(last, v.as_str());
    let persist = if ch { parse_u32(v.as_str()) } else { None };
    BudgetEdit { shown: v, changed: ch, persist }
}

} // verus!
