use dat0_ui::command_palette::{palette_key, PaletteBinding, PaletteKey, PaletteKeyPress, 
    glyph, group_label, key_symbol, palette_step, parse, pretty_chord, render_chord, ActionGroup,
};
use dat0_ui::i18n::Catalog;

#[test]
fn chords_render_in_platform_modifier_order() {
    assert_eq!(pretty_chord("cmd-shift-p", true), "⇧⌘P");
    assert_eq!(pretty_chord("cmd-shift-p", false), "Shift+Super+P");
}

#[test]
fn named_keys_get_their_symbol() {
    assert!(pretty_chord("cmd-enter", true).ends_with('⏎'));
    assert!(pretty_chord("ctrl-enter", false).ends_with('⏎'));
    assert_eq!(pretty_chord("ctrl-enter", false), "Ctrl+⏎");
}

#[test]
fn every_group_has_its_own_glyph() {
    let all = [
        ActionGroup::Navigation,
        ActionGroup::Theme,
        ActionGroup::File,
        ActionGroup::Settings,
        ActionGroup::Recovery,
        ActionGroup::Import,
        ActionGroup::Edit,
    ];
    let mut seen: Vec<&str> = all.iter().map(|g| glyph(*g)).collect();
    seen.sort_unstable();
    seen.dedup();
    assert_eq!(seen.len(), all.len(), "two groups share a glyph");
}

#[test]
fn other_keys_are_upper_cased() {
    assert_eq!(key_symbol("p"), "P");
    assert_eq!(key_symbol("f5"), "F5");
    assert_eq!(key_symbol("ß"), "SS");
    assert_eq!(key_symbol("escape"), "⎋");
}

#[test]
fn modifiers_have_aliases_and_the_last_other_part_is_the_key() {
    let c = parse("option-win-a-b");
    assert!(c.alt && c.meta && !c.ctrl && !c.shift);
    assert_eq!(c.key, "b");
    assert_eq!(pretty_chord("ctrl-alt-shift-super-x", true), "⌃⌥⇧⌘X");
    assert_eq!(pretty_chord("ctrl-alt-shift-super-x", false), "Ctrl+Alt+Shift+Super+X");
    assert_eq!(render_chord(&parse("ctrl-k"), "K", false), "Ctrl+K");
}

#[test]
fn the_palette_arrows_stop_at_both_ends() {
    assert_eq!(palette_step(0, 5, -1), 0);
    assert_eq!(palette_step(4, 5, 1), 4);
    assert_eq!(palette_step(2, 5, 1), 3);
    assert_eq!(palette_step(3, 0, 1), 3);
}

#[test]
fn group_names_come_from_the_catalog() {
    let mut cat = Catalog::new();
    cat.insert("palette.group.file", "File");
    assert_eq!(group_label(&cat, ActionGroup::File), "File");
}

#[test]
fn the_open_palette_answers_its_own_keys() {
    assert_eq!(palette_key(PaletteKeyPress::Escape), PaletteKey::Close);
    assert_eq!(palette_key(PaletteKeyPress::Enter), PaletteKey::Run);
    assert_eq!(palette_key(PaletteKeyPress::Tab), PaletteKey::Trap);
    assert_eq!(palette_key(PaletteKeyPress::Other(Some(PaletteBinding::Up))), PaletteKey::Step(-1));
    assert_eq!(palette_key(PaletteKeyPress::Other(Some(PaletteBinding::Down))), PaletteKey::Step(1));
    assert_eq!(palette_key(PaletteKeyPress::Other(None)), PaletteKey::Fallthrough);
}

#[test]
fn reordered_or_repeated_modifiers_read_the_same() {
    for mac in [true, false] {
        assert_eq!(pretty_chord("shift-cmd-p", mac), pretty_chord("cmd-shift-p", mac));
        assert_eq!(pretty_chord("alt-ctrl-alt-k", mac), pretty_chord("ctrl-option-k", mac));
        assert_eq!(pretty_chord("win-shift-super-enter", mac), pretty_chord("shift-cmd-enter", mac));
    }
}
