//! The column inspector's text: the lineage rows (their indent, glyph and
//! edge), the pane header's `{column} · {type}`, the card headers, and the
//! escaping that keeps data out of the markup.

use vstd::prelude::*;
use crate::i18n::Catalog;
use crate::text::{chars_of, decimal, decimal_string, push_char, str_eq};

verus! {

/// The deepest indent a lineage row draws, in steps.
pub const LINEAGE_MAX_DEPTH: u32 = 6;
/// Pixels of indent per step.
pub const LINEAGE_INDENT_PX: u32 = 12;

/// How a lineage step came from its parent.
#[derive(Clone, Copy, PartialEq, Eq, Debug, Structural)]
pub enum EdgeKind {
    FileImport,
    SqlRef,
    Chart,
    /// A chain of `n` transforms.
    Transform(u64),
}

/// What a lineage node is.
#[derive(Clone, Copy, PartialEq, Eq, Debug, Structural)]
pub enum NodeKind {
    File,
    External,
    Table,
    Chart,
}

/// A lineage row's indent: 12 px a step, growing no further past depth six,
/// so a deep chain stays on the panel.
pub fn lineage_indent(depth: u32) -> (r: u32)
    ensures
        r == (if depth < LINEAGE_MAX_DEPTH { depth } else { LINEAGE_MAX_DEPTH }) * LINEAGE_INDENT_PX,
        r <= 72,
{
    let d = if depth < LINEAGE_MAX_DEPTH { depth } else { LINEAGE_MAX_DEPTH };
    d * LINEAGE_INDENT_PX
}

/// The glyph a lineage row shows for its node.
pub fn node_glyph(kind: NodeKind) -> (r: &'static str)
    ensures
        r@ == (match kind {
            NodeKind::File => "📄"@,
            NodeKind::External => "☁"@,
            NodeKind::Table => "▦"@,
            NodeKind::Chart => "📊"@,
        }),
{
    match kind {
        NodeKind::File => "📄",
        NodeKind::External => "☁",
        NodeKind::Table => "▦",
        NodeKind::Chart => "📊",
    }
}

/// What a lineage row names its edge.
pub open spec fn edge_text(cat: Catalog, edge: EdgeKind) -> Seq<char> {
    match edge {
        EdgeKind::FileImport => cat.text("inspector.edge.file"@),
        EdgeKind::SqlRef => cat.text("inspector.edge.sql"@),
        EdgeKind::Chart => cat.text("inspector.edge.chart"@),
        EdgeKind::Transform(n) => cat.text("inspector.edge.transform"@) + " ("@ + decimal(n as nat) + " ops)"@,
    }
}

/// What a lineage row names its edge.
pub fn edge_label(cat: &Catalog, edge: EdgeKind) -> (r: String)
    ensures
        r@ == edge_text(*cat, edge),
{
    match edge {
        EdgeKind::FileImport => cat.t("inspector.edge.file"),
        EdgeKind::SqlRef => cat.t("inspector.edge.sql"),
        EdgeKind::Chart => cat.t("inspector.edge.chart"),
        EdgeKind::Transform(n) => {
            let mut s = cat.t("inspector.edge.transform");
            s.append(" (");
            s.append(decimal_string(n).as_str());
            s.append(" ops)");
            s
        },
    }
}

/// What clicking a lineage row opens.
#[derive(Clone, Copy, PartialEq, Eq, Debug, Structural)]
pub enum OpenTarget {
    /// A saved chart comes back as it was saved.
    SavedChart,
    /// A table comes up in its tab.
    Tab,
    /// A file has nothing to open.
    Nothing,
}

/// What clicking a lineage row of `kind` opens.
pub fn open_target(kind: NodeKind) -> (r: OpenTarget)
    ensures
        r == (match kind {
            NodeKind::Chart => OpenTarget::SavedChart,
            NodeKind::Table | NodeKind::External => OpenTarget::Tab,
            NodeKind::File => OpenTarget::Nothing,
        }),
{
    match kind {
        NodeKind::Chart => OpenTarget::SavedChart,
        NodeKind::Table | NodeKind::External => OpenTarget::Tab,
        NodeKind::File => OpenTarget::Nothing,
    }
}

/// A character as markup text: the five XML specials as entities.
pub open spec fn escaped_char(c: char) -> Seq<char> {
    if c == '&' {
        "&amp;"@
    } else if c == '<' {
        "&lt;"@
    } else if c == '>' {
        "&gt;"@
    } else if c == '"' {
        "&quot;"@
    } else if c == '\'' {
        "&apos;"@
    } else {
        seq![c]
    }
}

/// Text as markup text: each character escaped in turn.
pub open spec fn escaped(s: Seq<char>) -> Seq<char>
    decreases s.len(),
{
    if s.len() == 0 { Seq::empty() } else { escaped(s.drop_last()) + escaped_char(s.last()) }
}

/// Text as markup text, so data drawn into an SVG stays data.
pub fn escape_xml(s: &str) -> (r: String)
    ensures
        r@ == escaped(s@),
{
    let v = chars_of(s);
    let mut out = String::new();
    let mut i: usize = 0;
    proof {
        reveal_strlit("&amp;");
        reveal_strlit("&lt;");
        reveal_strlit("&gt;");
        reveal_strlit("&quot;");
        reveal_strlit("&apos;");
    }
    while i < v.len()
        invariant
            i <= v@.len(),
            v@ == s@,
            out@ == escaped(v@.take(i as int)),
        decreases v@.len() - i,
    {
        let c = v[i];
        assert(v@.take(i + 1).drop_last() =~= v@.take(i as int));
        if c == '&' {
            out.append("&amp;");
        } else if c == '<' {
            out.append("&lt;");
        } else if c == '>' {
            out.append("&gt;");
        } else if c == '"' {
            out.append("&quot;");
        } else if c == '\'' {
            out.append("&apos;");
        } else {
            push_char(&mut out, c);
            assert(out@ =~= escaped(v@.take(i as int)) + seq![c]);
        }
        i = i + 1;
    }
    assert(v@.take(v@.len() as int) =~= v@);
    out
}

/// The first card, in order, whose source or label is `focus`.
pub open spec fn card_index(cards: Seq<(Seq<char>, Seq<char>)>, focus: Seq<char>) -> Option<int>
    decreases cards.len(),
{
    if cards.len() == 0 {
        None
    } else {
        match card_index(cards.drop_last(), focus) {
            Some(i) => Some(i),
            None => if cards.last().0 == focus || cards.last().1 == focus { Some(cards.len() - 1) } else { None },
        }
    }
}

/// The first column, in order, named `name`.
pub open spec fn column_index(columns: Seq<(Seq<char>, Seq<char>)>, name: Seq<char>) -> Option<int>
    decreases columns.len(),
{
    if columns.len() == 0 {
        None
    } else {
        match column_index(columns.drop_last(), name) {
            Some(i) => Some(i),
            None => if columns.last().0 == name { Some(columns.len() - 1) } else { None },
        }
    }
}

/// Pairs of strings as pairs of texts.
pub open spec fn pair_texts(v: Seq<(String, String)>) -> Seq<(Seq<char>, Seq<char>)> {
    v.map_values(|p: (String, String)| (p.0@, p.1@))
}

/// The pane header's `{column} · {type}` for the focused column: addressed
/// by its source or its label, announced by its label, typed by its base
/// column; empty without a profile, a focus, or a column of that name.
pub open spec fn meta_text(
    columns: Option<Seq<(Seq<char>, Seq<char>)>>,
    cards: Seq<(Seq<char>, Seq<char>)>,
    focus: Option<Seq<char>>,
) -> Seq<char> {
    match (columns, focus) {
        (Some(cols), Some(f)) => {
            let (source, label) = match card_index(cards, f) {
                Some(i) => cards[i],
                None => (f, f),
            };
            match column_index(cols, source) {
                Some(j) => label + " · "@ + cols[j].1,
                None => Seq::empty(),
            }
        },
        _ => Seq::empty(),
    }
}

proof fn lemma_card_index(cards: Seq<(Seq<char>, Seq<char>)>, focus: Seq<char>)
    ensures
        card_index(cards, focus) matches Some(i) ==> 0 <= i < cards.len()
            && (cards[i].0 == focus || cards[i].1 == focus)
            && forall|k: int| 0 <= k < i ==> cards[k].0 != focus && cards[k].1 != focus,
        card_index(cards, focus) is None ==> forall|k: int| 0 <= k < cards.len() ==> cards[k].0 != focus && cards[k].1 != focus,
    decreases cards.len(),
{
    if cards.len() > 0 {
        lemma_card_index(cards.drop_last(), focus);
        assert forall|k: int| 0 <= k < cards.len() - 1 implies cards.drop_last()[k] == cards[k] by {}
    }
}

proof fn lemma_column_index(columns: Seq<(Seq<char>, Seq<char>)>, name: Seq<char>)
    ensures
        column_index(columns, name) matches Some(i) ==> 0 <= i < columns.len() && columns[i].0 == name
            && forall|k: int| 0 <= k < i ==> columns[k].0 != name,
        column_index(columns, name) is None ==> forall|k: int| 0 <= k < columns.len() ==> columns[k].0 != name,
    decreases columns.len(),
{
    if columns.len() > 0 {
        lemma_column_index(columns.drop_last(), name);
        assert forall|k: int| 0 <= k < columns.len() - 1 implies columns.drop_last()[k] == columns[k] by {}
    }
}

/// The first card whose source or label is `focus`.
fn find_card(cards: &Vec<(String, String)>, focus: &str) -> (r: Option<usize>)
    ensures
        r matches Some(i) ==> i < cards@.len() && card_index(pair_texts(cards@), focus@) == Some(i as int),
        r is None ==> card_index(pair_texts(cards@), focus@) is None,
{
    let ghost cv = pair_texts(cards@);
    let mut i: usize = 0;
    while i < cards.len()
        invariant
            i <= cards@.len(),
            cv == pair_texts(cards@),
            forall|k: int| 0 <= k < i ==> cv[k].0 != focus@ && cv[k].1 != focus@,
        decreases cards@.len() - i,
    {
        if str_eq(cards[i].0.as_str(), focus) || str_eq(cards[i].1.as_str(), focus) {
            proof {
                lemma_card_index(cv, focus@);
                if let Some(j) = card_index(cv, focus@) {
                    if j < i {
                    } else if j > i {
                        assert(cv[i as int].0 == focus@ || cv[i as int].1 == focus@);
                    }
                } else {
                    assert(cv[i as int].0 == focus@ || cv[i as int].1 == focus@);
                }
            }
            return Some(i);
        }
        i = i + 1;
    }
    proof {
        lemma_card_index(cv, focus@);
        if let Some(j) = card_index(cv, focus@) {
            assert(cv[j].0 == focus@ || cv[j].1 == focus@);
        }
    }
    None
}

/// The first column named `name`.
fn find_column(columns: &Vec<(String, String)>, name: &str) -> (r: Option<usize>)
    ensures
        r matches Some(i) ==> i < columns@.len() && column_index(pair_texts(columns@), name@) == Some(i as int),
        r is None ==> column_index(pair_texts(columns@), name@) is None,
{
    let ghost cv = pair_texts(columns@);
    let mut i: usize = 0;
    while i < columns.len()
        invariant
            i <= columns@.len(),
            cv == pair_texts(columns@),
            forall|k: int| 0 <= k < i ==> cv[k].0 != name@,
        decreases columns@.len() - i,
    {
        if str_eq(columns[i].0.as_str(), name) {
            proof {
                lemma_column_index(cv, name@);
                if let Some(j) = column_index(cv, name@) {
                    if j > i {
                        assert(cv[i as int].0 == name@);
                    }
                } else {
                    assert(cv[i as int].0 == name@);
                }
            }
            return Some(i);
        }
        i = i + 1;
    }
    proof {
        lemma_column_index(cv, name@);
        if let Some(j) = column_index(cv, name@) {
            assert(cv[j].0 == name@);
        }
    }
    None
}

/// The pane header's `{column} · {type}`. `columns` are the profile's
/// `(name, type)`, if there is a profile; `cards` the projection's
/// `(source, label)`, visible ones first.
pub fn header_meta(columns: Option<&Vec<(String, String)>>, cards: &Vec<(String, String)>, focus: Option<&str>) -> (r: String)
    ensures
        r@ == meta_text(
            match columns { Some(c) => Some(pair_texts(c@)), None => None },
            pair_texts(cards@),
            match focus { Some(f) => Some(f@), None => None },
        ),
{
    let (cols, f) = match (columns, focus) {
        (Some(c), Some(f)) => (c, f),
        _ => return String::new(),
    };
    let (source, label): (&str, &str) = match find_card(cards, f) {
        Some(i) => (cards[i].0.as_str(), cards[i].1.as_str()),
        None => (f, f),
    };
    match find_column(cols, source) {
        Some(j) => {
            let mut s = label.to_string();
            s.append(" · ");
            s.append(cols[j].1.as_str());
            s
        },
        None => String::new(),
    }
}

/// A column card's header: its label and type, and, for a renamed column,
/// what it was.
pub open spec fn card_header_text(cat: Catalog, label: Seq<char>, ty: Seq<char>, original: Option<Seq<char>>) -> Seq<char> {
    match original {
        Some(o) => label + " · "@ + ty + "  ·  "@ + cat.text("inspector.col.was"@) + " "@ + o,
        None => label + " · "@ + ty,
    }
}

/// A column card's header.
pub fn card_header(cat: &Catalog, label: &str, ty: &str, original: Option<&str>) -> (r: String)
    ensures
        r@ == card_header_text(*cat, label@, ty@, match original { Some(o) => Some(o@), None => None }),
{
    let mut s = label.to_string();
    s.append(" · ");
    s.append(ty);
    match original {
        Some(o) => {
            s.append("  ·  ");
            s.append(cat.t("inspector.col.was").as_str());
            s.append(" ");
            s.append(o);
        },
        None => {},
    }
    s
}

/// A source as the name it quotes: inside a pair of double quotes, each
/// doubled quote read as one; anything else as it is.
pub open spec fn unquoted(source: Seq<char>) -> Seq<char> {
    if source.len() >= 2 && source[0] == '"' && source.last() == '"' {
        crate::text::replaced(source.subrange(1, source.len() - 1), seq!['"', '"'], seq!['"'])
    } else {
        source
    }
}

/// A name quoted as an SQL identifier reads back as that name: unquoting
/// undoes quoting, for every name.
pub proof fn lemma_unquote_quoted(name: Seq<char>)
    ensures
        unquoted(crate::import_wizard::quoted_ident(name)) == name,
{
    reveal_strlit("\"");
    reveal_strlit("\"\"");
    assert("\""@ =~= seq!['"']);
    assert("\"\""@ =~= seq!['"', '"']);
    let inner = crate::text::replaced(name, seq!['"'], seq!['"', '"']);
    let q = crate::import_wizard::quoted_ident(name);
    assert(q =~= seq!['"'] + inner + seq!['"']);
    assert(q.subrange(1, q.len() - 1) =~= inner);
    crate::text::lemma_undouble_doubled(name, '"');
}

/// The overview line: `name — N rows · M cols` once the target is profiled,
/// `name — ` and the loading text while its profile loads, and the empty
/// text with no target at all. `profile` is the row and column counts.
pub open spec fn overview_text(cat: Catalog, target: Option<Seq<char>>, profile: Option<(u64, usize)>) -> Seq<char> {
    match target {
        Some(name) => match profile {
            Some((rows, cols)) => name + " — "@ + decimal(rows as nat) + " rows · "@ + decimal(cols as nat)
                + " cols"@,
            None => name + " — "@ + cat.text("inspector.loading"@),
        },
        None => cat.text("inspector.empty"@),
    }
}

/// The overview line.
pub fn overview_line(cat: &Catalog, target: Option<&str>, profile: Option<(u64, usize)>) -> (r: String)
    ensures
        r@ == overview_text(*cat, match target { Some(t) => Some(t@), None => None }, profile),
{
    match target {
        Some(name) => {
            let mut s = name.to_string();
            s.append(" — ");
            match profile {
                Some((rows, cols)) => {
                    s.append(decimal_string(rows).as_str());
                    s.append(" rows · ");
                    s.append(decimal_string(cols as u64).as_str());
                    s.append(" cols");
                },
                None => {
                    s.append(cat.t("inspector.loading").as_str());
                },
            }
            s
        },
        None => cat.t("inspector.empty"),
    }
}

/// A quoted identifier as the name it quotes; anything else as it is.
pub fn unquote(source: &str) -> (r: String)
    ensures
        r@ == unquoted(source@),
{
    let v = chars_of(source);
    let n = v.len();
    if n >= 2 && v[0] == '"' && v[n - 1] == '"' {
        let inner = crate::text::string_of_range(&v, 1, n - 1);
        proof {
            reveal_strlit("\"\"");
            reveal_strlit("\"");
            assert("\"\""@ =~= seq!['"', '"']);
            assert("\""@ =~= seq!['"']);
        }
        crate::text::replace_all(inner.as_str(), "\"\"", "\"")
    } else {
        source.to_string()
    }
}

/// What the inspector profiles: the stored table, or what the tab's view
/// reads.
#[derive(Clone, Copy, PartialEq, Eq, Debug, Structural)]
pub enum ProfileMode {
    WholeTable,
    CurrentView,
}

/// The inspector's loads: the newest load id handed out, the profile and the
/// per-column extras that landed for it, the mode, and whether the hidden
/// columns are shown. Only the newest load may write, so a slow profile of
/// one table never lands under another's name.
pub struct InspectorState<P, X> {
    latest: u64,
    profile: Option<P>,
    extras: Vec<(String, X)>,
    mode: ProfileMode,
    hidden_expanded: bool,
}

impl<P, X> InspectorState<P, X> {
    /// The newest load id.
    pub closed spec fn latest(&self) -> u64 {
        self.latest
    }

    /// The profile shown, if one landed.
    pub closed spec fn profile(&self) -> Option<P> {
        self.profile
    }

    /// The extras that landed, by source column, in the order they came.
    pub closed spec fn extras(&self) -> Seq<(Seq<char>, X)> {
        self.extras@.map_values(|e: (String, X)| (e.0@, e.1))
    }

    /// What the inspector profiles.
    pub closed spec fn profile_mode(&self) -> ProfileMode {
        self.mode
    }

    /// Whether the hidden columns are shown.
    pub closed spec fn hidden_shown(&self) -> bool {
        self.hidden_expanded
    }

    /// What the inspector profiles.
    pub fn mode(&self) -> (r: ProfileMode)
        ensures
            r == self.profile_mode(),
    {
        self.mode
    }

    /// Whether the hidden columns are shown.
    pub fn hidden_expanded(&self) -> (r: bool)
        ensures
            r == self.hidden_shown(),
    {
        self.hidden_expanded
    }

    /// The profile shown, if one landed.
    pub fn shown_profile(&self) -> (r: Option<&P>)
        ensures
            r matches Some(p) ==> self.profile() == Some(*p),
            r is None ==> self.profile() is None,
    {
        match &self.profile {
            Some(p) => Some(p),
            None => None,
        }
    }

    /// How many extras landed.
    pub fn extra_count(&self) -> (r: usize)
        ensures
            r == self.extras().len(),
    {
        self.extras.len()
    }

    /// Nothing loaded, the whole table profiled, the hidden columns folded.
    pub fn new() -> (s: Self)
        ensures
            s.latest() == 0,
            s.profile() is None,
            s.extras().len() == 0,
            s.profile_mode() == ProfileMode::WholeTable,
            !s.hidden_shown(),
    {
        InspectorState { latest: 0, profile: None, extras: Vec::new(), mode: ProfileMode::WholeTable, hidden_expanded: false }
    }

    /// Claim the next load id: every earlier load is stale from now on.
    pub fn begin_load(&mut self) -> (id: u64)
        ensures
            id == old(self).latest().wrapping_add(1),
            final(self).latest() == id,
            final(self).profile() == old(self).profile(),
            final(self).extras() == old(self).extras(),
            final(self).profile_mode() == old(self).profile_mode(),
            final(self).hidden_shown() == old(self).hidden_shown(),
    {
        self.latest = self.latest.wrapping_add(1);
        self.latest
    }

    /// Store a profile if `load_id` is the newest load; says whether it
    /// landed. A stale one changes nothing.
    pub fn put_profile(&mut self, load_id: u64, profile: P) -> (landed: bool)
        ensures
            landed == (load_id == old(self).latest()),
            landed ==> final(self).profile() == Some(profile),
            !landed ==> final(self).profile() == old(self).profile(),
            final(self).latest() == old(self).latest(),
            final(self).extras() == old(self).extras(),
            final(self).profile_mode() == old(self).profile_mode(),
            final(self).hidden_shown() == old(self).hidden_shown(),
    {
        if load_id != self.latest {
            return false;
        }
        self.profile = Some(profile);
        true
    }

    /// Store a column's extra under the same guard.
    pub fn put_extra(&mut self, load_id: u64, col: &str, extra: X) -> (landed: bool)
        ensures
            landed == (load_id == old(self).latest()),
            landed ==> final(self).extras() == old(self).extras().push((col@, extra)),
            !landed ==> final(self).extras() == old(self).extras(),
            final(self).latest() == old(self).latest(),
            final(self).profile() == old(self).profile(),
            final(self).profile_mode() == old(self).profile_mode(),
            final(self).hidden_shown() == old(self).hidden_shown(),
    {
        if load_id != self.latest {
            return false;
        }
        let ghost before = self.extras();
        self.extras.push((col.to_string(), extra));
        assert(self.extras() =~= before.push((col@, extra)));
        true
    }

    /// Flip the mode and drop the extras, which were read for the other one.
    pub fn toggle_mode(&mut self)
        ensures
            final(self).profile_mode() == (if old(self).profile_mode() == ProfileMode::WholeTable {
                ProfileMode::CurrentView
            } else {
                ProfileMode::WholeTable
            }),
            final(self).extras().len() == 0,
            final(self).latest() == old(self).latest(),
            final(self).profile() == old(self).profile(),
            final(self).hidden_shown() == old(self).hidden_shown(),
    {
        self.mode = match self.mode {
            ProfileMode::WholeTable => ProfileMode::CurrentView,
            ProfileMode::CurrentView => ProfileMode::WholeTable,
        };
        self.extras = Vec::new();
        assert(self.extras() =~= Seq::<(Seq<char>, X)>::empty());
    }

    /// Fold or unfold the hidden columns.
    pub fn toggle_hidden(&mut self)
        ensures
            final(self).hidden_shown() == !old(self).hidden_shown(),
            final(self).profile_mode() == old(self).profile_mode(),
            final(self).latest() == old(self).latest(),
            final(self).profile() == old(self).profile(),
            final(self).extras() == old(self).extras(),
    {
        self.hidden_expanded = !self.hidden_expanded;
    }
}

/// A load begun after another makes the earlier one stale: its id is never
/// the newest once another load has begun, so its profile and extras are
/// refused.
pub proof fn lemma_newer_load_outdates_older(earlier: u64)
    ensures
        earlier.wrapping_add(1) != earlier,
{
}

} // verus!
