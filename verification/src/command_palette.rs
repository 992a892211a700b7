//! The command palette's text: a chord written the way the platform writes
//! it, each action group's glyph and name, and the list's arrow keys.

use vstd::prelude::*;
use crate::i18n::Catalog;
use crate::text::{all_ascii, ascii_upper, chars_of, joined, str_eq};
use crate::tsv::{lemma_split_ascii, lemma_split_joined, split_chars, split_on, strings_of};

verus! {

/// What `str::to_uppercase` gives: Unicode upper case, character by
/// character (a character may become several).
pub uninterp spec fn uppercase(s: Seq<char>) -> Seq<char>;

/// `str::to_uppercase`. The result is named by `uppercase`; for text all in
/// ASCII it is each letter raised, which the documentation states. Nothing
/// more of Unicode's case tables is claimed.
#[verifier::external_body]
fn to_upper(s: &str) -> (r: String)
    ensures
        r@ == uppercase(s@),
        all_ascii(s@) ==> r@ == ascii_upper(s@),
{
    s.to_uppercase()
}

/// The groups actions are listed under.
#[derive(Clone, Copy, PartialEq, Eq, Debug, Structural)]
pub enum ActionGroup {
    Navigation,
    Theme,
    File,
    Settings,
    Recovery,
    Import,
    Edit,
}

/// The glyph beside a group's actions.
pub open spec fn glyph_text(group: ActionGroup) -> Seq<char> {
    match group {
        ActionGroup::Navigation => "→"@,
        ActionGroup::Theme => "◐"@,
        ActionGroup::File => "▤"@,
        ActionGroup::Settings => "⚙"@,
        ActionGroup::Recovery => "↺"@,
        ActionGroup::Import => "⤓"@,
        ActionGroup::Edit => "✎"@,
    }
}

/// The glyph beside a group's actions.
pub fn glyph(group: ActionGroup) -> (r: &'static str)
    ensures
        r@ == glyph_text(group),
{
    match group {
        ActionGroup::Navigation => "→",
        ActionGroup::Theme => "◐",
        ActionGroup::File => "▤",
        ActionGroup::Settings => "⚙",
        ActionGroup::Recovery => "↺",
        ActionGroup::Import => "⤓",
        ActionGroup::Edit => "✎",
    }
}

/// The catalog key of a group's name.
pub open spec fn group_key(group: ActionGroup) -> Seq<char> {
    match group {
        ActionGroup::Navigation => "palette.group.navigation"@,
        ActionGroup::Theme => "palette.group.theme"@,
        ActionGroup::File => "palette.group.file"@,
        ActionGroup::Settings => "palette.group.settings"@,
        ActionGroup::Recovery => "palette.group.recovery"@,
        ActionGroup::Import => "palette.group.import"@,
        ActionGroup::Edit => "palette.group.edit"@,
    }
}

/// A group's name.
pub fn group_label(cat: &Catalog, group: ActionGroup) -> (r: String)
    ensures
        r@ == cat.text(group_key(group)),
{
    cat.t(match group {
        ActionGroup::Navigation => "palette.group.navigation",
        ActionGroup::Theme => "palette.group.theme",
        ActionGroup::File => "palette.group.file",
        ActionGroup::Settings => "palette.group.settings",
        ActionGroup::Recovery => "palette.group.recovery",
        ActionGroup::Import => "palette.group.import",
        ActionGroup::Edit => "palette.group.edit",
    })
}

/// A chord's modifiers and key.
pub struct ChordText {
    pub ctrl: bool,
    pub alt: bool,
    pub shift: bool,
    pub meta: bool,
    pub key: Seq<char>,
}

/// The chord a list of `-`-separated parts names: each modifier word sets
/// its flag (`alt` or `option`; `cmd`, `super` or `win`), and the last other
/// part is the key.
pub open spec fn parse_parts(parts: Seq<Seq<char>>) -> ChordText
    decreases parts.len(),
{
    if parts.len() == 0 {
        ChordText { ctrl: false, alt: false, shift: false, meta: false, key: Seq::empty() }
    } else {
        let c = parse_parts(parts.drop_last());
        let p = parts.last();
        if p == "ctrl"@ {
            ChordText { ctrl: true, ..c }
        } else if p == "alt"@ || p == "option"@ {
            ChordText { alt: true, ..c }
        } else if p == "shift"@ {
            ChordText { shift: true, ..c }
        } else if p == "cmd"@ || p == "super"@ || p == "win"@ {
            ChordText { meta: true, ..c }
        } else {
            ChordText { key: p, ..c }
        }
    }
}

/// The chord `chord` names.
pub open spec fn parse_chord(chord: Seq<char>) -> ChordText {
    parse_parts(split_on(chord, '-'))
}

/// The symbol of a named key, `None` for any other.
pub open spec fn named_key(key: Seq<char>) -> Option<Seq<char>> {
    if key == "enter"@ { Some("⏎"@) }
    else if key == "escape"@ { Some("⎋"@) }
    else if key == "backspace"@ { Some("⌫"@) }
    else if key == "delete"@ { Some("⌦"@) }
    else if key == "tab"@ { Some("⇥"@) }
    else if key == "space"@ { Some("␣"@) }
    else if key == "up"@ { Some("↑"@) }
    else if key == "down"@ { Some("↓"@) }
    else if key == "left"@ { Some("←"@) }
    else if key == "right"@ { Some("→"@) }
    else { None }
}

/// Each named key shows as the symbol for that key: Enter as ⏎, Escape as
/// ⎋, Backspace as ⌫, Delete as ⌦, Tab as ⇥, Space as ␣, and each arrow key
/// as the arrow pointing its way (up ↑, down ↓, left ←, right →); a key
/// named nothing else shows as its upper-cased text.
pub proof fn lemma_named_key_symbols(key: Seq<char>)
    ensures
        key_symbol_text("enter"@) == "⏎"@,
        key_symbol_text("escape"@) == "⎋"@,
        key_symbol_text("backspace"@) == "⌫"@,
        key_symbol_text("delete"@) == "⌦"@,
        key_symbol_text("tab"@) == "⇥"@,
        key_symbol_text("space"@) == "␣"@,
        key_symbol_text("up"@) == "↑"@,
        key_symbol_text("down"@) == "↓"@,
        key_symbol_text("left"@) == "←"@,
        key_symbol_text("right"@) == "→"@,
        key != "enter"@ && key != "escape"@ && key != "backspace"@ && key != "delete"@ && key != "tab"@
            && key != "space"@ && key != "up"@ && key != "down"@ && key != "left"@ && key != "right"@
            ==> key_symbol_text(key) == uppercase(key),
{
    lemma_key_names_distinct();
}

/// The named keys' names are all different.
proof fn lemma_key_names_distinct()
    ensures
        forall|i: int, j: int| 0 <= i < j < 10 ==> #[trigger] key_names()[i] != #[trigger] key_names()[j],
        key_names() == seq!["enter"@, "escape"@, "backspace"@, "delete"@, "tab"@, "space"@, "up"@, "down"@, "left"@, "right"@],
{
    reveal_strlit("enter");
    reveal_strlit("escape");
    reveal_strlit("backspace");
    reveal_strlit("delete");
    reveal_strlit("tab");
    reveal_strlit("space");
    reveal_strlit("up");
    reveal_strlit("down");
    reveal_strlit("left");
    reveal_strlit("right");
    let k = key_names();
    assert(k[0].len() == 5 && k[1].len() == 6 && k[2].len() == 9 && k[3].len() == 6 && k[4].len() == 3);
    assert(k[5].len() == 5 && k[6].len() == 2 && k[7].len() == 4 && k[8].len() == 4 && k[9].len() == 5);
    assert(k[0][0] == 'e' && k[1][0] == 'e' && k[3][0] == 'd' && k[5][0] == 's' && k[9][0] == 'r');
    assert(k[7][0] == 'd' && k[8][0] == 'l' && k[1][1] == 's' && k[3][1] == 'e');
}

/// The names of the named keys.
pub open spec fn key_names() -> Seq<Seq<char>> {
    seq!["enter"@, "escape"@, "backspace"@, "delete"@, "tab"@, "space"@, "up"@, "down"@, "left"@, "right"@]
}

/// How a key is shown: named keys by their symbol, any other upper-cased.
pub open spec fn key_symbol_text(key: Seq<char>) -> Seq<char> {
    match named_key(key) {
        Some(sym) => sym,
        None => uppercase(key),
    }
}

/// How a key written in ASCII is shown: named keys by their symbol, any
/// other with its small letters raised.
pub open spec fn ascii_key_symbol_text(key: Seq<char>) -> Seq<char> {
    match named_key(key) {
        Some(sym) => sym,
        None => ascii_upper(key),
    }
}

/// How a key is shown.
pub fn key_symbol(key: &str) -> (r: String)
    ensures
        r@ == key_symbol_text(key@),
        all_ascii(key@) ==> r@ == ascii_key_symbol_text(key@),
{
    if str_eq(key, "enter") { "⏎".to_string() }
    else if str_eq(key, "escape") { "⎋".to_string() }
    else if str_eq(key, "backspace") { "⌫".to_string() }
    else if str_eq(key, "delete") { "⌦".to_string() }
    else if str_eq(key, "tab") { "⇥".to_string() }
    else if str_eq(key, "space") { "␣".to_string() }
    else if str_eq(key, "up") { "↑".to_string() }
    else if str_eq(key, "down") { "↓".to_string() }
    else if str_eq(key, "left") { "←".to_string() }
    else if str_eq(key, "right") { "→".to_string() }
    else { to_upper(key) }
}

/// A chord written out: on macOS the modifier symbols ⌃⌥⇧⌘ in that order
/// before the key; elsewhere the words Ctrl, Alt, Shift, Super, each with a
/// `+`, before it.
pub open spec fn chord_text(c: ChordText, key_sym: Seq<char>, mac: bool) -> Seq<char> {
    if mac {
        (if c.ctrl { "⌃"@ } else { Seq::empty() }) + (if c.alt { "⌥"@ } else { Seq::empty() })
            + (if c.shift { "⇧"@ } else { Seq::empty() }) + (if c.meta { "⌘"@ } else { Seq::empty() }) + key_sym
    } else {
        (if c.ctrl { "Ctrl+"@ } else { Seq::empty() }) + (if c.alt { "Alt+"@ } else { Seq::empty() })
            + (if c.shift { "Shift+"@ } else { Seq::empty() }) + (if c.meta { "Super+"@ } else { Seq::empty() }) + key_sym
    }
}

/// A chord's modifiers and key, as parsed.
pub struct Chord {
    pub ctrl: bool,
    pub alt: bool,
    pub shift: bool,
    pub meta: bool,
    pub key: String,
}

impl Chord {
    /// The chord as text.
    pub open spec fn text(&self) -> ChordText {
        ChordText { ctrl: self.ctrl, alt: self.alt, shift: self.shift, meta: self.meta, key: self.key@ }
    }
}

/// Parse a chord such as `cmd-shift-p`.
pub fn parse(chord: &str) -> (r: Chord)
    ensures
        r.text() == parse_chord(chord@),
{
    let v = chars_of(chord);
    let pieces = split_chars(&v, '-');
    let parts = strings_of(&pieces);
    let ghost ps = split_on(chord@, '-');
    assert(crate::text::views(parts@) == ps);
    let mut c = Chord { ctrl: false, alt: false, shift: false, meta: false, key: String::new() };
    let mut i: usize = 0;
    while i < parts.len()
        invariant
            i <= parts@.len(),
            crate::text::views(parts@) == ps,
            c.text() == parse_parts(ps.take(i as int)),
        decreases parts@.len() - i,
    {
        let p = parts[i].as_str();
        assert(ps.take(i + 1).drop_last() =~= ps.take(i as int));
        assert(ps.take(i + 1).last() == p@);
        if str_eq(p, "ctrl") {
            c.ctrl = true;
        } else if str_eq(p, "alt") || str_eq(p, "option") {
            c.alt = true;
        } else if str_eq(p, "shift") {
            c.shift = true;
        } else if str_eq(p, "cmd") || str_eq(p, "super") || str_eq(p, "win") {
            c.meta = true;
        } else {
            c.key = p.to_string();
        }
        i = i + 1;
    }
    assert(ps.take(parts@.len() as int) =~= ps);
    c
}

/// A parsed chord written out, around the key's shown form `key_sym`.
pub fn render_chord(c: &Chord, key_sym: &str, mac: bool) -> (r: String)
    ensures
        r@ == chord_text(c.text(), key_sym@, mac),
{
    let mut out = String::new();
    proof {
        reveal_strlit("⌃");
        reveal_strlit("⌥");
        reveal_strlit("⇧");
        reveal_strlit("⌘");
        reveal_strlit("Ctrl+");
        reveal_strlit("Alt+");
        reveal_strlit("Shift+");
        reveal_strlit("Super+");
    }
    let ghost e = Seq::<char>::empty();
    if mac {
        if c.ctrl { out.append("⌃"); }
        assert(out@ =~= (if c.ctrl { "⌃"@ } else { e }));
        if c.alt { out.append("⌥"); }
        assert(out@ =~= (if c.ctrl { "⌃"@ } else { e }) + (if c.alt { "⌥"@ } else { e }));
        if c.shift { out.append("⇧"); }
        assert(out@ =~= (if c.ctrl { "⌃"@ } else { e }) + (if c.alt { "⌥"@ } else { e })
            + (if c.shift { "⇧"@ } else { e }));
        if c.meta { out.append("⌘"); }
        assert(out@ =~= (if c.ctrl { "⌃"@ } else { e }) + (if c.alt { "⌥"@ } else { e })
            + (if c.shift { "⇧"@ } else { e }) + (if c.meta { "⌘"@ } else { e }));
    } else {
        if c.ctrl { out.append("Ctrl+"); }
        assert(out@ =~= (if c.ctrl { "Ctrl+"@ } else { e }));
        if c.alt { out.append("Alt+"); }
        assert(out@ =~= (if c.ctrl { "Ctrl+"@ } else { e }) + (if c.alt { "Alt+"@ } else { e }));
        if c.shift { out.append("Shift+"); }
        assert(out@ =~= (if c.ctrl { "Ctrl+"@ } else { e }) + (if c.alt { "Alt+"@ } else { e })
            + (if c.shift { "Shift+"@ } else { e }));
        if c.meta { out.append("Super+"); }
        assert(out@ =~= (if c.ctrl { "Ctrl+"@ } else { e }) + (if c.alt { "Alt+"@ } else { e })
            + (if c.shift { "Shift+"@ } else { e }) + (if c.meta { "Super+"@ } else { e }));
    }
    out.append(key_sym);
    out
}

/// Whether `p` is one of the words a chord spells a modifier with.
pub open spec fn modifier_word(p: Seq<char>) -> bool {
    p == "ctrl"@ || p == "alt"@ || p == "option"@ || p == "shift"@ || p == "cmd"@ || p == "super"@
        || p == "win"@
}

/// The modifier words are all different.
proof fn lemma_modifier_words_distinct()
    ensures
        "ctrl"@ != "alt"@,
        "ctrl"@ != "option"@,
        "ctrl"@ != "shift"@,
        "ctrl"@ != "cmd"@,
        "ctrl"@ != "super"@,
        "ctrl"@ != "win"@,
        "alt"@ != "option"@,
        "alt"@ != "shift"@,
        "alt"@ != "cmd"@,
        "alt"@ != "super"@,
        "alt"@ != "win"@,
        "option"@ != "shift"@,
        "option"@ != "cmd"@,
        "option"@ != "super"@,
        "option"@ != "win"@,
        "shift"@ != "cmd"@,
        "shift"@ != "super"@,
        "shift"@ != "win"@,
        "cmd"@ != "super"@,
        "cmd"@ != "win"@,
        "super"@ != "win"@,
{
    reveal_strlit("ctrl");
    reveal_strlit("alt");
    reveal_strlit("option");
    reveal_strlit("shift");
    reveal_strlit("cmd");
    reveal_strlit("super");
    reveal_strlit("win");
    assert("ctrl"@.len() == 4 && "ctrl"@[0] == 'c');
    assert("alt"@.len() == 3 && "alt"@[0] == 'a');
    assert("option"@.len() == 6 && "option"@[0] == 'o');
    assert("shift"@.len() == 5 && "shift"@[0] == 's');
    assert("cmd"@.len() == 3 && "cmd"@[0] == 'c');
    assert("super"@.len() == 5 && "super"@[0] == 's' && "super"@[1] == 'u');
    assert("shift"@[1] == 'h');
    assert("win"@.len() == 3 && "win"@[0] == 'w');
}

/// The chord that modifier words alone spell: each flag set by whether one
/// of its words occurs, and no key.
proof fn lemma_modifiers_parse(mods: Seq<Seq<char>>)
    requires
        forall|i: int| 0 <= i < mods.len() ==> modifier_word(#[trigger] mods[i]),
    ensures
        parse_parts(mods) == (ChordText {
            ctrl: mods.contains("ctrl"@),
            alt: mods.contains("alt"@) || mods.contains("option"@),
            shift: mods.contains("shift"@),
            meta: mods.contains("cmd"@) || mods.contains("super"@) || mods.contains("win"@),
            key: Seq::empty(),
        }),
    decreases mods.len(),
{
    reveal_strlit("ctrl");
    reveal_strlit("alt");
    reveal_strlit("option");
    reveal_strlit("shift");
    reveal_strlit("cmd");
    reveal_strlit("super");
    reveal_strlit("win");
    if mods.len() > 0 {
        let d = mods.drop_last();
        let p = mods.last();
        assert forall|i: int| 0 <= i < d.len() implies modifier_word(#[trigger] d[i]) by {
            assert(d[i] == mods[i]);
        }
        lemma_modifiers_parse(d);
        assert(modifier_word(mods[mods.len() - 1]));
        assert forall|w: Seq<char>| mods.contains(w) <==> (d.contains(w) || p == w) by {
            if mods.contains(w) {
                let k = choose|k: int| 0 <= k < mods.len() && mods[k] == w;
                if k < d.len() {
                    assert(d[k] == w);
                }
            }
            if d.contains(w) {
                let k = choose|k: int| 0 <= k < d.len() && d[k] == w;
                assert(mods[k] == w);
            }
            if p == w {
                assert(mods[mods.len() - 1] == w);
            }
        }
        lemma_modifier_words_distinct();
        let c = parse_parts(d);
        let r = parse_parts(mods);
        assert(r.ctrl == (c.ctrl || p == "ctrl"@));
        assert(r.alt == (c.alt || p == "alt"@ || p == "option"@));
        assert(r.shift == (c.shift || p == "shift"@));
        assert(r.meta == (c.meta || p == "cmd"@ || p == "super"@ || p == "win"@));
        assert(r.key == c.key);
    }
}

/// No modifier word holds a `-`.
proof fn lemma_modifier_plain(p: Seq<char>)
    requires
        modifier_word(p),
    ensures
        !p.contains('-'),
{
    reveal_strlit("ctrl");
    reveal_strlit("alt");
    reveal_strlit("option");
    reveal_strlit("shift");
    reveal_strlit("cmd");
    reveal_strlit("super");
    reveal_strlit("win");
    if p.contains('-') {
        let k = choose|k: int| 0 <= k < p.len() && p[k] == '-';
        assert(p[k] == '-');
    }
}

/// The chord that modifier words and then a key spell.
proof fn lemma_chord_of_words(mods: Seq<Seq<char>>, key: Seq<char>)
    requires
        forall|i: int| 0 <= i < mods.len() ==> modifier_word(#[trigger] mods[i]),
        !modifier_word(key),
        !key.contains('-'),
    ensures
        parse_chord(joined(mods.push(key), seq!['-'])) == (ChordText { key, ..parse_parts(mods) }),
{
    let parts = mods.push(key);
    assert forall|i: int| 0 <= i < parts.len() implies !(#[trigger] parts[i]).contains('-') by {
        if i < mods.len() {
            assert(parts[i] == mods[i]);
            lemma_modifier_plain(mods[i]);
        }
    }
    lemma_split_joined(parts, '-');
    assert(parts.drop_last() =~= mods);
}

/// The order in which a chord spells its modifiers, and whether it spells
/// one twice, does not change how it is written out: two chords of the same
/// modifier words and the same key read the same.
pub proof fn lemma_modifier_order(mods1: Seq<Seq<char>>, mods2: Seq<Seq<char>>, key: Seq<char>, mac: bool)
    requires
        forall|i: int| 0 <= i < mods1.len() ==> modifier_word(#[trigger] mods1[i]),
        forall|i: int| 0 <= i < mods2.len() ==> modifier_word(#[trigger] mods2[i]),
        forall|w: Seq<char>| mods1.contains(w) <==> mods2.contains(w),
        !modifier_word(key),
        !key.contains('-'),
    ensures
        parse_chord(joined(mods1.push(key), seq!['-'])) == parse_chord(joined(mods2.push(key), seq!['-'])),
        chord_text(
            parse_chord(joined(mods1.push(key), seq!['-'])),
            key_symbol_text(parse_chord(joined(mods1.push(key), seq!['-'])).key),
            mac,
        ) == chord_text(
            parse_chord(joined(mods2.push(key), seq!['-'])),
            key_symbol_text(parse_chord(joined(mods2.push(key), seq!['-'])).key),
            mac,
        ),
{
    lemma_modifiers_parse(mods1);
    lemma_modifiers_parse(mods2);
    lemma_chord_of_words(mods1, key);
    lemma_chord_of_words(mods2, key);
    assert(mods1.contains("ctrl"@) == mods2.contains("ctrl"@));
    assert(mods1.contains("alt"@) == mods2.contains("alt"@));
    assert(mods1.contains("option"@) == mods2.contains("option"@));
    assert(mods1.contains("shift"@) == mods2.contains("shift"@));
    assert(mods1.contains("cmd"@) == mods2.contains("cmd"@));
    assert(mods1.contains("super"@) == mods2.contains("super"@));
    assert(mods1.contains("win"@) == mods2.contains("win"@));
}

/// The key of a chord whose parts are all in ASCII is in ASCII.
proof fn lemma_parsed_key_ascii(parts: Seq<Seq<char>>)
    requires
        forall|i: int| 0 <= i < parts.len() ==> all_ascii(#[trigger] parts[i]),
    ensures
        all_ascii(parse_parts(parts).key),
    decreases parts.len(),
{
    if parts.len() > 0 {
        let d = parts.drop_last();
        assert forall|i: int| 0 <= i < d.len() implies all_ascii(#[trigger] d[i]) by {
            assert(d[i] == parts[i]);
        }
        lemma_parsed_key_ascii(d);
        assert(all_ascii(parts[parts.len() - 1]));
    }
}

/// A chord such as `cmd-shift-p` written the way the platform writes it
/// (`mac` for macOS).
pub fn pretty_chord(chord: &str, mac: bool) -> (r: String)
    ensures
        r@ == chord_text(parse_chord(chord@), key_symbol_text(parse_chord(chord@).key), mac),
        all_ascii(chord@) ==> r@ == chord_text(parse_chord(chord@), ascii_key_symbol_text(parse_chord(chord@).key), mac),
{
    proof {
        if all_ascii(chord@) {
            lemma_split_ascii(chord@, '-');
            lemma_parsed_key_ascii(split_on(chord@, '-'));
        }
    }
    let c = parse(chord);
    let k = key_symbol(c.key.as_str());
    render_chord(&c, k.as_str(), mac)
}

/// The palette's arrow keys: the active row moves by `delta`, held between
/// the first and the last; with no rows nothing moves.
pub fn palette_step(active: usize, n: usize, delta: isize) -> (r: usize)
    requires
        n > 0 ==> active as int + delta as int >= isize::MIN && active as int + delta as int <= isize::MAX,
        active <= isize::MAX,
    ensures
        n == 0 ==> r == active,
        n > 0 ==> r == (if active as int + delta as int <= 0 {
            0
        } else if active as int + delta as int >= n - 1 {
            n - 1
        } else {
            active as int + delta as int
        }),
{
    if n == 0 {
        return active;
    }
    let last = n - 1;
    if delta < 0 {
        let back: usize = if delta == isize::MIN { (isize::MAX as usize) + 1 } else { (-delta) as usize };
        let next = if active > back { active - back } else { 0 };
        if next < last { next } else { last }
    } else {
        let fwd = delta as usize;
        if active >= last || fwd >= last - active { last } else { active + fwd }
    }
}

/// A key pressed while the palette is open.
#[derive(Clone, Copy, PartialEq, Eq, Debug, Structural)]
pub enum PaletteKeyPress {
    Escape,
    Enter,
    Tab,
    /// Any other key, with the palette action the keymap binds it to.
    Other(Option<PaletteBinding>),
}

/// A palette action the keymap can bind a key to.
#[derive(Clone, Copy, PartialEq, Eq, Debug, Structural)]
pub enum PaletteBinding {
    Up,
    Down,
}

/// What a key does to the open palette.
#[derive(Clone, Copy, PartialEq, Eq, Debug, Structural)]
pub enum PaletteKey {
    /// Dismiss without running anything.
    Close,
    /// Run the row the ring is on.
    Run,
    /// Move the ring by this many rows.
    Step(isize),
    /// Consume it and change nothing: the palette is modal, so Tab stays in
    /// it.
    Trap,
    /// Not the palette's key.
    Fallthrough,
}

/// What a key does to the open palette.
pub fn palette_key(key: PaletteKeyPress) -> (r: PaletteKey)
    ensures
        r == (match key {
            PaletteKeyPress::Escape => PaletteKey::Close,
            PaletteKeyPress::Enter => PaletteKey::Run,
            PaletteKeyPress::Tab => PaletteKey::Trap,
            PaletteKeyPress::Other(Some(PaletteBinding::Up)) => PaletteKey::Step(-1isize),
            PaletteKeyPress::Other(Some(PaletteBinding::Down)) => PaletteKey::Step(1isize),
            PaletteKeyPress::Other(None) => PaletteKey::Fallthrough,
        }),
{
    match key {
        PaletteKeyPress::Escape => PaletteKey::Close,
        PaletteKeyPress::Enter => PaletteKey::Run,
        PaletteKeyPress::Tab => PaletteKey::Trap,
        PaletteKeyPress::Other(Some(PaletteBinding::Up)) => PaletteKey::Step(-1),
        PaletteKeyPress::Other(Some(PaletteBinding::Down)) => PaletteKey::Step(1),
        PaletteKeyPress::Other(None) => PaletteKey::Fallthrough,
    }
}

} // verus!
