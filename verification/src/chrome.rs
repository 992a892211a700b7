//! What the shell's chrome says about the process: the bytes dat0 has sent off
//! this machine, how many windows and tabs are open.
//!
//! The egress figure is always shown, zero included: "no bytes left this
//! machine" is a claim, and a hidden counter cannot make it.

use vstd::prelude::*;
use crate::i18n::Catalog;
use crate::text::{decimal, decimal_string, replaced, replace_all, push_char};

verus! {

/// What the status bar shows of the process.
#[derive(Debug, Clone, Copy, PartialEq, Eq, Structural)]
pub struct Status {
    /// Bytes dat0 has sent off this machine since it started.
    pub egress: u64,
    /// Whether a channel dat0 cannot meter is open, which makes the egress
    /// figure a floor.
    pub egress_floor: bool,
    /// The process's resident set, in MiB.
    pub mem_mb: u64,
}

impl Status {
    /// Nothing sent, nothing measured.
    pub fn new() -> (s: Self)
        ensures
            s.egress == 0,
            !s.egress_floor,
            s.mem_mb == 0,
    {
        Status { egress: 0, egress_floor: false, mem_mb: 0 }
    }
}

// ---------------------------------------------------------------------------
// Byte counts.

/// `1024^k`.
pub open spec fn kib_pow(k: nat) -> nat
    decreases k,
{
    if k == 0 { 1 } else { 1024 * kib_pow((k - 1) as nat) }
}

/// The unit a count of `n` bytes is shown in, from `u` up: the largest, up to
/// TB, that leaves at least one of it.
pub open spec fn unit_from(n: nat, u: nat) -> nat
    decreases 4 - u,
{
    if u < 4 && n >= kib_pow(u + 1) { unit_from(n, u + 1) } else { u }
}

/// `a / b` rounded to the nearest whole number, a tie to the even one.
pub open spec fn round_half_even(a: nat, b: nat) -> nat {
    let q = a / b;
    let r = a % b;
    if 2 * r > b || (2 * r == b && q % 2 == 1) { q + 1 } else { q }
}

/// The name of unit `u`.
pub open spec fn unit_name(u: nat) -> Seq<char> {
    if u == 0 { "B"@ } else if u == 1 { "KB"@ } else if u == 2 { "MB"@ } else if u == 3 { "GB"@ } else { "TB"@ }
}

/// `n` bytes at one decimal place in binary units, `1.5 KB`; under a KiB,
/// the whole count, `512 B`.
pub open spec fn bytes_text(n: nat) -> Seq<char> {
    if n < 1024 {
        decimal(n) + " B"@
    } else {
        let u = unit_from(n, 0);
        let tenths = round_half_even(n * 10, kib_pow(u));
        decimal(tenths / 10) + "."@ + decimal(tenths % 10) + " "@ + unit_name(u)
    }
}

proof fn lemma_kib_pow_values()
    ensures
        kib_pow(0) == 1,
        kib_pow(1) == 1024,
        kib_pow(2) == 1048576,
        kib_pow(3) == 1073741824,
        kib_pow(4) == 1099511627776,
{
    reveal_with_fuel(kib_pow, 5);
}

proof fn lemma_kib_pow_positive(k: nat)
    ensures
        kib_pow(k) >= 1,
    decreases k,
{
    if k > 0 {
        lemma_kib_pow_positive((k - 1) as nat);
    }
}

proof fn lemma_unit_bounds(n: nat, u: nat)
    requires
        u <= 4,
    ensures
        u <= unit_from(n, u) <= 4,
    decreases 4 - u,
{
    if u < 4 && n >= kib_pow(u + 1) {
        lemma_unit_bounds(n, u + 1);
    }
}

fn unit_label(u: u64) -> (r: &'static str)
    requires
        u <= 4,
    ensures
        r@ == unit_name(u as nat),
{
    if u == 0 { "B" } else if u == 1 { "KB" } else if u == 2 { "MB" } else if u == 3 { "GB" } else { "TB" }
}

/// Bytes at one decimal place, binary units.
pub fn human_bytes(n: u64) -> (r: String)
    ensures
        r@ == bytes_text(n as nat),
{
    if n < 1024 {
        let mut s = decimal_string(n);
        s.append(" B");
        return s;
    }
    let mut u: u64 = 0;
    let mut q: u128 = 1;
    proof {
        assert(kib_pow(0) == 1);
    }
    while u < 4 && (n as u128) >= q * 1024
        invariant
            u <= 4,
            q == kib_pow(u as nat),
            q <= 0x100_0000_0000,
            unit_from(n as nat, 0) == unit_from(n as nat, u as nat),
        decreases 4 - u,
    {
        assert(kib_pow((u + 1) as nat) == 1024 * kib_pow(u as nat));
        q = q * 1024;
        u = u + 1;
        proof { lemma_kib_pow_values(); }
    }
    proof {
        assert(kib_pow((u + 1) as nat) == 1024 * kib_pow(u as nat));
        assert(unit_from(n as nat, u as nat) == u);
        lemma_kib_pow_positive(u as nat);
    }
    let a: u128 = (n as u128) * 10;
    let quot = a / q;
    let rem = a % q;
    let tenths: u128 = if 2 * rem > q || (2 * rem == q && quot % 2 == 1) { quot + 1 } else { quot };
    assert(tenths == round_half_even((n as nat) * 10, kib_pow(u as nat)));
    let whole = (tenths / 10) as u64;
    let frac = (tenths % 10) as u64;
    let mut s = decimal_string(whole);
    s.append(".");
    s.append(decimal_string(frac).as_str());
    s.append(" ");
    s.append(unit_label(u));
    s
}

// ---------------------------------------------------------------------------
// Egress.

/// Whether nothing has left this machine: no bytes sent, and no channel open
/// that dat0 cannot meter. The chrome shows its egress in green only then.
pub fn nothing_sent(sent: u64, floor: bool) -> (r: bool)
    ensures
        r == (sent == 0 && !floor),
{
    sent == 0 && !floor
}

/// What has left this machine, `1.2 KB`, with a `+` once it is a floor.
pub open spec fn sent_text(sent: nat, floor: bool) -> Seq<char> {
    bytes_text(sent) + (if floor { "+"@ } else { Seq::empty() })
}

/// What has left this machine, `1.2 KB`, with a `+` once it is a floor.
pub fn sent_figure(sent: u64, floor: bool) -> (r: String)
    ensures
        r@ == sent_text(sent as nat, floor),
{
    let mut s = human_bytes(sent);
    if floor {
        s.append("+");
    } else {
        assert(s@ + Seq::<char>::empty() == s@);
    }
    s
}

/// The egress figure, `egress 1.2 KB`, with a `+` once a channel dat0 cannot
/// meter is open, since the figure is then a floor.
pub fn egress_line(status: &Status) -> (r: String)
    ensures
        r@ == "egress "@ + sent_text(status.egress as nat, status.egress_floor),
{
    let mut s = String::from_str("egress ");
    s.append(sent_figure(status.egress, status.egress_floor).as_str());
    s
}

/// The hero's privacy line: "0 bytes left this machine" while that is so, and
/// the figure once anything has left.
pub open spec fn privacy_text(cat: Catalog, sent: nat, floor: bool) -> Seq<char> {
    if sent == 0 && !floor {
        cat.text("hero.privacy"@)
    } else {
        replaced(cat.text("hero.privacy_sent"@), "{sent}"@, sent_text(sent, floor))
    }
}

/// The hero's privacy line.
pub fn hero_privacy(cat: &Catalog, sent: u64, floor: bool) -> (r: String)
    ensures
        r@ == privacy_text(*cat, sent as nat, floor),
{
    if nothing_sent(sent, floor) {
        cat.t("hero.privacy")
    } else {
        let template = cat.t("hero.privacy_sent");
        let figure = sent_figure(sent, floor);
        proof { reveal_strlit("{sent}"); }
        replace_all(template.as_str(), "{sent}", figure.as_str())
    }
}

/// The singular or the plural noun, by count.
pub open spec fn plural_text(cat: Catalog, n: nat, one: Seq<char>, many: Seq<char>) -> Seq<char> {
    cat.text(if n == 1 { one } else { many })
}

fn plural(cat: &Catalog, n: usize, one: &str, many: &str) -> (r: String)
    ensures
        r@ == plural_text(*cat, n as nat, one@, many@),
{
    cat.t(if n == 1 { one } else { many })
}

/// The sidebar footer's first line: `session · 2 windows · 1 tab`.
pub open spec fn session_text(cat: Catalog, windows: nat, tabs: nat) -> Seq<char> {
    "session · "@ + decimal(windows) + " "@
        + plural_text(cat, windows, "sidebar.window"@, "sidebar.windows"@)
        + " · "@ + decimal(tabs) + " "@
        + plural_text(cat, tabs, "sidebar.tab"@, "sidebar.tabs"@)
}

/// The sidebar footer's first line: `session · 2 windows · 1 tab`.
pub fn session_line(cat: &Catalog, windows: usize, tabs: usize) -> (r: String)
    ensures
        r@ == session_text(*cat, windows as nat, tabs as nat),
{
    let mut s = String::from_str("session · ");
    s.append(decimal_string(windows as u64).as_str());
    s.append(" ");
    s.append(plural(cat, windows, "sidebar.window", "sidebar.windows").as_str());
    s.append(" · ");
    s.append(decimal_string(tabs as u64).as_str());
    s.append(" ");
    s.append(plural(cat, tabs, "sidebar.tab", "sidebar.tabs").as_str());
    s
}

/// A chord hint as the chrome shows it: the keymap's chord written the
/// platform's way (`mac` for macOS), or nothing when the keymap has none.
pub open spec fn hint_text(chord: Option<Seq<char>>, mac: bool) -> Seq<char> {
    match chord {
        Some(c) => crate::command_palette::chord_text(
            crate::command_palette::parse_chord(c),
            crate::command_palette::key_symbol_text(crate::command_palette::parse_chord(c).key),
            mac,
        ),
        None => Seq::empty(),
    }
}

/// The hint for the chord that opens the palette, `chord` being the
/// keymap's.
pub fn palette_chord(chord: Option<&str>, mac: bool) -> (r: String)
    ensures
        r@ == hint_text(match chord { Some(c) => Some(c@), None => None }, mac),
{
    match chord {
        Some(c) => crate::command_palette::pretty_chord(c, mac),
        None => String::new(),
    }
}

/// The hint for the chord that runs the console's statement, `chord` being
/// the keymap's.
pub fn run_chord(chord: Option<&str>, mac: bool) -> (r: String)
    ensures
        r@ == hint_text(match chord { Some(c) => Some(c@), None => None }, mac),
{
    match chord {
        Some(c) => crate::command_palette::pretty_chord(c, mac),
        None => String::new(),
    }
}

} // verus!
