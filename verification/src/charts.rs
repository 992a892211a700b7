//! The charts panel's model: which columns a chart reads, how its axis
//! buttons cycle, and the load that a newer one must not be overwritten by.

use vstd::prelude::*;
use crate::import_wizard::{quote_ident, quoted_ident};
use crate::text::{chars_of, replaced, replace_all, str_eq, string_of};

verus! {

/// The kinds of chart.
#[derive(Clone, Copy, PartialEq, Eq, Debug, Structural)]
pub enum ChartType {
    Bar,
    Line,
    Scatter,
    Heatmap,
    BoxPlot,
}

/// What a chart draws, and from which columns.
#[derive(PartialEq, Eq, Debug)]
pub struct ChartSpec {
    pub chart_type: ChartType,
    /// The quoted relation the chart reads.
    pub source: String,
    pub x: Option<String>,
    pub y: Option<String>,
    pub group: Option<String>,
    pub color: Option<String>,
    pub title: String,
}

/// The text of an optional string.
pub open spec fn opt_view(o: Option<String>) -> Option<Seq<char>> {
    match o {
        Some(s) => Some(s@),
        None => None,
    }
}

/// A copy of an optional string.
pub fn opt_clone(o: &Option<String>) -> (r: Option<String>)
    ensures
        r == *o,
{
    match o {
        Some(s) => Some(s.clone()),
        None => None,
    }
}

/// An axis a chart reads a column for.
#[derive(Clone, Copy, PartialEq, Eq, Debug, Structural)]
pub enum AxisRole {
    X,
    Y,
    Group,
    Color,
    /// The measured value: the colour of a heatmap, the y of anything else.
    Value,
}

/// The field of `spec` an axis reads.
pub open spec fn axis_value(spec: ChartSpec, role: AxisRole) -> Option<String> {
    match role {
        AxisRole::X => spec.x,
        AxisRole::Y => spec.y,
        AxisRole::Group => spec.group,
        AxisRole::Color => spec.color,
        AxisRole::Value => if spec.chart_type == ChartType::Heatmap { spec.color } else { spec.y },
    }
}

/// The column an axis of `spec` reads.
pub fn axis_field(spec: &ChartSpec, role: AxisRole) -> (r: Option<&str>)
    ensures
        r matches Some(s) ==> axis_value(*spec, role) matches Some(t) && s@ == t@,
        r is None ==> axis_value(*spec, role) is None,
{
    let f = match role {
        AxisRole::X => &spec.x,
        AxisRole::Y => &spec.y,
        AxisRole::Group => &spec.group,
        AxisRole::Color => &spec.color,
        AxisRole::Value => if spec.chart_type == ChartType::Heatmap { &spec.color } else { &spec.y },
    };
    match f {
        Some(s) => Some(s.as_str()),
        None => None,
    }
}

/// Point an axis of `spec` at `val`; the value axis writes the field its
/// chart type reads, and nothing else changes.
pub fn set_axis_field(spec: &mut ChartSpec, role: AxisRole, val: Option<String>)
    ensures
        axis_value(*final(spec), role) == val,
        final(spec).chart_type == old(spec).chart_type,
        final(spec).source == old(spec).source,
        final(spec).title == old(spec).title,
        final(spec).x == (if role == AxisRole::X { val } else { old(spec).x }),
        final(spec).y == (if role == AxisRole::Y || (role == AxisRole::Value && old(spec).chart_type != ChartType::Heatmap) { val } else { old(spec).y }),
        final(spec).group == (if role == AxisRole::Group { val } else { old(spec).group }),
        final(spec).color == (if role == AxisRole::Color || (role == AxisRole::Value && old(spec).chart_type == ChartType::Heatmap) { val } else { old(spec).color }),
{
    match role {
        AxisRole::X => spec.x = val,
        AxisRole::Y => spec.y = val,
        AxisRole::Group => spec.group = val,
        AxisRole::Color => spec.color = val,
        AxisRole::Value => {
            if spec.chart_type == ChartType::Heatmap {
                spec.color = val;
            } else {
                spec.y = val;
            }
        },
    }
}

/// The catalog key of an axis's name.
pub fn axis_role_key(role: AxisRole) -> (r: &'static str)
    ensures
        r@ == (match role {
            AxisRole::X => "chart.axis.x"@,
            AxisRole::Y => "chart.axis.y"@,
            AxisRole::Group => "chart.axis.group"@,
            AxisRole::Color => "chart.axis.color"@,
            AxisRole::Value => "chart.axis.value"@,
        }),
{
    match role {
        AxisRole::X => "chart.axis.x",
        AxisRole::Y => "chart.axis.y",
        AxisRole::Group => "chart.axis.group",
        AxisRole::Color => "chart.axis.color",
        AxisRole::Value => "chart.axis.value",
    }
}

/// The axis's slug in its button's id.
pub fn axis_slug(role: AxisRole) -> (r: &'static str)
    ensures
        r@ == (match role {
            AxisRole::X => "x"@,
            AxisRole::Y => "y"@,
            AxisRole::Group => "group"@,
            AxisRole::Color => "color"@,
            AxisRole::Value => "value"@,
        }),
{
    match role {
        AxisRole::X => "x",
        AxisRole::Y => "y",
        AxisRole::Group => "group",
        AxisRole::Color => "color",
        AxisRole::Value => "value",
    }
}

/// Whether a chart needs the axis: x, y and value do; group and colour are
/// optional.
pub fn axis_required(role: AxisRole) -> (r: bool)
    ensures
        r == (role == AxisRole::X || role == AxisRole::Y || role == AxisRole::Value),
{
    match role {
        AxisRole::X | AxisRole::Y | AxisRole::Value => true,
        _ => false,
    }
}

/// The first position of `c` in `opts`, if it is there.
pub open spec fn position_of(opts: Seq<Seq<char>>, c: Seq<char>) -> Option<int>
    decreases opts.len(),
{
    if opts.len() == 0 {
        None
    } else {
        match position_of(opts.drop_last(), c) {
            Some(i) => Some(i),
            None => if opts.last() == c { Some(opts.len() - 1) } else { None },
        }
    }
}

/// The column an axis button moves to: a required axis cycles through the
/// options, wrapping, and starts at the first; an optional one steps through
/// them and then back to none. With no options there is nothing to pick.
pub open spec fn cycled(current: Option<Seq<char>>, opts: Seq<Seq<char>>, required: bool) -> Option<Seq<char>> {
    if opts.len() == 0 {
        None
    } else {
        let pos = match current {
            Some(c) => position_of(opts, c),
            None => None,
        };
        match pos {
            None => Some(opts[0]),
            Some(i) => if required {
                Some(opts[(i + 1) % (opts.len() as int)])
            } else if i + 1 < opts.len() {
                Some(opts[i + 1])
            } else {
                None
            },
        }
    }
}

/// Cycling an axis steps forward through the options from where the current
/// pick first appears: a required axis moves to the next option and wraps
/// from the last back to the first; an optional one moves to the next
/// option and from the last to no pick at all. A pick that is not among the
/// options, or no pick, starts over at the first option.
pub proof fn lemma_axis_steps_forward(current: Option<Seq<char>>, opts: Seq<Seq<char>>, i: int)
    requires
        opts.len() > 0,
        current matches Some(c) ==> 0 <= i < opts.len() && opts[i] == c
            && forall|k: int| 0 <= k < i ==> opts[k] != c,
    ensures
        current is Some && i + 1 < opts.len() ==> cycled(current, opts, true) == Some(opts[i + 1])
            && cycled(current, opts, false) == Some(opts[i + 1]),
        current is Some && i == opts.len() - 1 ==> cycled(current, opts, true) == Some(opts[0])
            && cycled(current, opts, false) is None,
        current is None ==> cycled(current, opts, true) == Some(opts[0]) && cycled(current, opts, false) == Some(opts[0]),
{
    match current {
        Some(c) => {
            lemma_position_bounds(opts, c);
            match position_of(opts, c) {
                Some(p) => {
                    if p < i {
                        assert(opts[p] == c);
                    } else if i < p {
                        assert(opts[i] == c);
                    }
                    if i + 1 < opts.len() {
                        vstd::arithmetic::div_mod::lemma_small_mod((i + 1) as nat, opts.len());
                    } else {
                        vstd::arithmetic::div_mod::lemma_mod_self_0(opts.len() as int);
                    }
                },
                None => {
                    assert(opts[i] == c);
                },
            }
        },
        None => {},
    }
}

/// A pick that is none of the options starts the cycle over at the first.
pub proof fn lemma_axis_restarts_from_unknown(c: Seq<char>, opts: Seq<Seq<char>>, required: bool)
    requires
        opts.len() > 0,
        !opts.contains(c),
    ensures
        cycled(Some(c), opts, required) == Some(opts[0]),
{
    lemma_position_bounds(opts, c);
    match position_of(opts, c) {
        Some(p) => {
            assert(opts[p] == c);
        },
        None => {},
    }
}

proof fn lemma_position_bounds(opts: Seq<Seq<char>>, c: Seq<char>)
    ensures
        position_of(opts, c) matches Some(i) ==> 0 <= i < opts.len() && opts[i] == c
            && forall|k: int| 0 <= k < i ==> opts[k] != c,
        position_of(opts, c) is None ==> forall|k: int| 0 <= k < opts.len() ==> opts[k] != c,
    decreases opts.len(),
{
    if opts.len() > 0 {
        lemma_position_bounds(opts.drop_last(), c);
        assert forall|k: int| 0 <= k < opts.len() - 1 implies opts.drop_last()[k] == opts[k] by {}
    }
}

/// The column an axis button moves to.
pub fn cycle_axis(current: Option<&str>, opts: &[String], required: bool) -> (r: Option<String>)
    ensures
        opt_view(r) == cycled(
            match current { Some(c) => Some(c@), None => None },
            crate::text::views(opts@),
            required,
        ),
{
    let ghost ov = crate::text::views(opts@);
    if opts.len() == 0 {
        return None;
    }
    let mut pos: Option<usize> = None;
    match current {
        Some(c) => {
            let mut i: usize = 0;
            while i < opts.len()
                invariant
                    i <= opts@.len(),
                    ov == crate::text::views(opts@),
                    pos matches Some(p) ==> p < i && ov[p as int] == c@
                        && forall|k: int| 0 <= k < p ==> ov[k] != c@,
                    pos is None ==> forall|k: int| 0 <= k < i ==> ov[k] != c@,
                decreases opts@.len() - i,
            {
                assert(ov[i as int] == opts@[i as int]@);
                if pos.is_none() && str_eq(opts[i].as_str(), c) {
                    pos = Some(i);
                }
                i = i + 1;
            }
            proof {
                lemma_position_bounds(ov, c@);
                match position_of(ov, c@) {
                    Some(j) => {
                        match pos {
                            Some(p) => {
                                if (p as int) < j {
                                    assert(ov[p as int] == c@);
                                } else if j < (p as int) {
                                    assert(ov[j] == c@);
                                }
                            },
                            None => { assert(ov[j] == c@); },
                        }
                    },
                    None => {
                        match pos {
                            Some(p) => { assert(ov[p as int] == c@); },
                            None => {},
                        }
                    },
                }
            }
        },
        None => {},
    }
    let n = opts.len();
    match pos {
        None => Some(opts[0].clone()),
        Some(i) => {
            if required {
                Some(opts[(i + 1) % n].clone())
            } else if i + 1 < n {
                Some(opts[i + 1].clone())
            } else {
                None
            }
        },
    }
}

/// The chart type after `cur` in the cycle `all`, wrapping; a type not in
/// the cycle moves to the second.
pub fn next_type(all: &[ChartType], cur: ChartType) -> (r: ChartType)
    requires
        all@.len() > 0,
    ensures
        exists|i: int| 0 <= i < all@.len() && r == all@[i],
        forall|i: int| 0 <= i < all@.len() && #[trigger] all@[i] == cur && (forall|k: int| 0 <= k < i ==> all@[k] != cur)
            ==> r == all@[(i + 1) % (all@.len() as int)],
        (forall|k: int| 0 <= k < all@.len() ==> all@[k] != cur) ==> r == all@[1int % (all@.len() as int)],
{
    let mut i: usize = 0;
    while i < all.len()
        invariant
            i <= all@.len(),
            forall|k: int| 0 <= k < i ==> all@[k] != cur,
        decreases all@.len() - i,
    {
        if all[i] == cur {
            return all[(i + 1) % all.len()];
        }
        i = i + 1;
    }
    all[1 % all.len()]
}

/// A relation's quoted name as a header shows it: without the quotes.
pub open spec fn label_of_source(source: Seq<char>) -> Seq<char> {
    replaced(source, seq!['"'], Seq::empty())
}

/// A relation's quoted name as a header shows it: without the quotes.
pub fn source_label(source: &str) -> (r: String)
    ensures
        r@ == label_of_source(source@),
{
    proof {
        reveal_strlit("\"");
        reveal_strlit("");
        assert("\""@ =~= seq!['"']);
        assert(""@ =~= Seq::<char>::empty());
    }
    replace_all(source, "\"", "")
}

/// What the chart panel shows.
#[derive(PartialEq, Eq, Debug)]
pub enum ChartRender {
    Empty,
    Svg(String),
    Error(String),
}

/// What saving the chart does.
#[derive(Clone, Copy, PartialEq, Eq, Debug, Structural)]
pub enum SaveStep {
    /// No table is charted: nothing to save.
    Nothing,
    /// The chart reads a query's rows, which go with the window: it could
    /// not be drawn again, so it is not saved, and the user is told.
    Transient,
    /// Ask for a name.
    Prompt,
}

/// Whether a relation is one of the engine's own, named `__dat0…`.
pub open spec fn is_engine_relation(table: Seq<char>) -> bool {
    table.len() >= 6 && table.take(6) == "__dat0"@
}

/// What saving the chart bound to `table` does.
pub fn save_step(table: Option<&str>) -> (r: SaveStep)
    ensures
        table is None ==> r == SaveStep::Nothing,
        table matches Some(t) ==> r == (if is_engine_relation(t@) { SaveStep::Transient } else { SaveStep::Prompt }),
{
    match table {
        None => SaveStep::Nothing,
        Some(t) => {
            let v = chars_of(t);
            proof { reveal_strlit("__dat0"); }
            if v.len() >= 6 && v[0] == '_' && v[1] == '_' && v[2] == 'd' && v[3] == 'a' && v[4] == 't' && v[5] == '0' {
                assert(v@.take(6) =~= "__dat0"@);
                SaveStep::Transient
            } else {
                proof {
                    if v@.len() >= 6 {
                        assert(v@.take(6) != "__dat0"@) by {
                            if v@.take(6) == "__dat0"@ {
                                assert(v@.take(6)[0] == '_');
                                assert(v@.take(6)[1] == '_');
                                assert(v@.take(6)[2] == 'd');
                                assert(v@.take(6)[3] == 'a');
                                assert(v@.take(6)[4] == 't');
                                assert(v@.take(6)[5] == '0');
                            }
                        }
                    }
                }
                SaveStep::Prompt
            }
        },
    }
}

/// The name a saved chart is kept under: the prompt's answer trimmed, and
/// none when that is empty.
pub fn saved_name(answer: &str) -> (r: Option<String>)
    ensures
        crate::text::trim(answer@).len() == 0 ==> r is None,
        crate::text::trim(answer@).len() > 0 ==> (r matches Some(n) && n@ == crate::text::trim(answer@)),
{
    let t = crate::text::trimmed(answer);
    if t.as_str().unicode_len() == 0 { None } else { Some(t) }
}

/// What the chart body shows for the last plot: nothing before there is one,
/// its drawing when it came back (`Ok` holds the drawn SVG), or why it failed.
pub fn render_of(plotted: Option<Result<String, String>>) -> (r: ChartRender)
    ensures
        plotted is None ==> r == ChartRender::Empty,
        plotted matches Some(Ok(svg)) ==> r == ChartRender::Svg(svg),
        plotted matches Some(Err(why)) ==> r == ChartRender::Error(why),
{
    match plotted {
        None => ChartRender::Empty,
        Some(Ok(svg)) => ChartRender::Svg(svg),
        Some(Err(why)) => ChartRender::Error(why),
    }
}

/// The chart panel's current render, and the id of the latest request.
#[derive(PartialEq, Eq, Debug)]
pub struct ChartLoad {
    render: ChartRender,
    id: u64,
}

impl ChartLoad {
    /// The render shown.
    pub closed spec fn shown(&self) -> ChartRender {
        self.render
    }

    /// The latest request's id.
    pub closed spec fn latest(&self) -> u64 {
        self.id
    }

    /// Nothing drawn, nothing asked.
    pub fn new() -> (l: Self)
        ensures
            l.shown() == ChartRender::Empty,
            l.latest() == 0,
    {
        ChartLoad { render: ChartRender::Empty, id: 0 }
    }

    /// A load showing `render`, with nothing asked since.
    pub fn ready(render: ChartRender) -> (l: Self)
        ensures
            l.shown() == render,
            l.latest() == 0,
    {
        ChartLoad { render, id: 0 }
    }

    /// The render shown.
    pub fn render(&self) -> (r: &ChartRender)
        ensures
            *r == self.shown(),
    {
        &self.render
    }

    /// The latest request's id.
    pub fn id(&self) -> (r: u64)
        ensures
            r == self.latest(),
    {
        self.id
    }

    /// A new request: every earlier one is stale. Returns its id.
    pub fn begin(&mut self) -> (id: u64)
        ensures
            id == old(self).latest().wrapping_add(1),
            final(self).latest() == id,
            final(self).shown() == old(self).shown(),
    {
        self.id = self.id.wrapping_add(1);
        self.id
    }

    /// Show `render` when it answers the latest request; a stale one is
    /// dropped. Says whether it was shown.
    pub fn apply(&mut self, id: u64, render: ChartRender) -> (shown: bool)
        ensures
            shown == (id == old(self).latest()),
            shown ==> final(self).shown() == render,
            !shown ==> final(self).shown() == old(self).shown(),
            final(self).latest() == old(self).latest(),
    {
        if id != self.id {
            return false;
        }
        self.render = render;
        true
    }
}

/// The spec of a window with no table: a bar chart of nothing.
pub open spec fn is_unbound(s: ChartSpec) -> bool {
    &&& s.chart_type == ChartType::Bar
    &&& s.source@.len() == 0
    &&& s.x is None && s.y is None && s.group is None && s.color is None
    &&& s.title@.len() == 0
}

/// The spec of a window with no table.
pub fn unbound() -> (s: ChartSpec)
    ensures
        is_unbound(s),
{
    ChartSpec {
        chart_type: ChartType::Bar,
        source: String::new(),
        x: None,
        y: None,
        group: None,
        color: None,
        title: String::new(),
    }
}

/// Whether any axis has a column: only then is there anything to plot.
pub fn picked(spec: &ChartSpec) -> (r: bool)
    ensures
        r == (spec.x is Some || spec.y is Some || spec.group is Some || spec.color is Some),
{
    spec.x.is_some() || spec.y.is_some() || spec.group.is_some() || spec.color.is_some()
}

/// Whether a column list names `p`.
pub open spec fn names_column(columns: Seq<(String, String)>, p: Seq<char>) -> bool {
    exists|i: int| 0 <= i < columns.len() && (#[trigger] columns[i]).0@ == p
}

/// A pick kept only while its column is still there.
pub open spec fn kept_pick(pick: Option<String>, columns: Seq<(String, String)>) -> Option<Seq<char>> {
    match pick {
        Some(p) => if names_column(columns, p@) { Some(p@) } else { None },
        None => None,
    }
}

fn keep(pick: &Option<String>, columns: &[(String, String)]) -> (r: Option<String>)
    ensures
        opt_view(r) == kept_pick(*pick, columns@),
{
    match pick {
        None => None,
        Some(p) => {
            let mut i: usize = 0;
            while i < columns.len()
                invariant
                    i <= columns@.len(),
                    *pick == Some(*p),
                    forall|k: int| 0 <= k < i ==> columns@[k].0@ != p@,
                decreases columns@.len() - i,
            {
                if str_eq(columns[i].0.as_str(), p.as_str()) {
                    assert(columns@[i as int].0@ == p@);
                    return Some(p.clone());
                }
                i = i + 1;
            }
            None
        },
    }
}

/// The chart a table gets when it is shown. A table seen before keeps its
/// chart, less the picks whose columns went; a new one gets the `suggested`
/// type for its columns and no picks. Either way it reads the table.
pub fn chart_for(table: &str, columns: &[(String, String)], had: Option<&ChartSpec>, suggested: ChartType) -> (s: ChartSpec)
    ensures
        s.source@ == quoted_ident(table@),
        had is None ==> s.chart_type == suggested && s.x is None && s.y is None
            && s.group is None && s.color is None && s.title@.len() == 0,
        had matches Some(h) ==> s.chart_type == h.chart_type && s.title == h.title
            && opt_view(s.x) == kept_pick(h.x, columns@)
            && opt_view(s.y) == kept_pick(h.y, columns@)
            && opt_view(s.group) == kept_pick(h.group, columns@)
            && opt_view(s.color) == kept_pick(h.color, columns@),
{
    let source = quote_ident(table);
    match had {
        None => ChartSpec {
            chart_type: suggested,
            source,
            x: None,
            y: None,
            group: None,
            color: None,
            title: String::new(),
        },
        Some(h) => ChartSpec {
            chart_type: h.chart_type,
            source,
            x: keep(&h.x, columns),
            y: keep(&h.y, columns),
            group: keep(&h.group, columns),
            color: keep(&h.color, columns),
            title: h.title.clone(),
        },
    }
}

/// The columns a chart may read: all but the engine's row id, in order.
pub open spec fn chartable_columns(columns: Seq<(Seq<char>, Seq<char>)>) -> Seq<(Seq<char>, Seq<char>)>
    decreases columns.len(),
{
    if columns.len() == 0 {
        columns
    } else {
        let rest = chartable_columns(columns.drop_last());
        if columns.last().0 == crate::import_wizard::rowid_name() { rest } else { rest.push(columns.last()) }
    }
}

/// The names and types of a column list.
pub open spec fn pair_views(v: Seq<(String, String)>) -> Seq<(Seq<char>, Seq<char>)> {
    v.map_values(|p: (String, String)| (p.0@, p.1@))
}

/// The columns a chart may read: all but the engine's row id, in order.
pub fn chartable(columns: Vec<(String, String)>) -> (r: Vec<(String, String)>)
    ensures
        pair_views(r@) == chartable_columns(pair_views(columns@)),
{
    let ghost all = pair_views(columns@);
    let mut out: Vec<(String, String)> = Vec::new();
    let mut i: usize = 0;
    while i < columns.len()
        invariant
            i <= columns@.len(),
            all == pair_views(columns@),
            pair_views(out@) == chartable_columns(all.take(i as int)),
        decreases columns@.len() - i,
    {
        assert(all.take(i + 1).drop_last() == all.take(i as int));
        assert(all.take(i + 1).last() == (columns@[i as int].0@, columns@[i as int].1@));
        if !str_eq(columns[i].0.as_str(), "__dat0_rowid") {
            let ghost before = pair_views(out@);
            out.push((columns[i].0.clone(), columns[i].1.clone()));
            assert(pair_views(out@) =~= before.push((columns@[i as int].0@, columns@[i as int].1@)));
        }
        i = i + 1;
    }
    assert(all.take(columns@.len() as int) == all);
    out
}

/// A request begun after another makes the earlier one stale: the id the
/// earlier answer quotes is never the latest after another `begin`, so
/// `apply` refuses it and the newer chart stays.
pub proof fn lemma_newer_request_outdates_older(earlier: u64)
    ensures
        earlier.wrapping_add(1) != earlier,
{
}

/// A required axis with columns to offer always has one picked after its
/// button: it never cycles to nothing. An optional one steps to nothing from
/// its last option.
pub proof fn lemma_required_axis_never_empties(current: Option<Seq<char>>, opts: Seq<Seq<char>>)
    requires
        opts.len() > 0,
    ensures
        cycled(current, opts, true) is Some,
        cycled(Some(opts.last()), opts, false) is None
            <== (forall|i: int, j: int| 0 <= i < j < opts.len() ==> opts[i] != opts[j]),
{
    if forall|i: int, j: int| 0 <= i < j < opts.len() ==> opts[i] != opts[j] {
        lemma_position_bounds(opts, opts.last());
        match position_of(opts, opts.last()) {
            Some(k) => {
                if k < opts.len() - 1 {
                    assert(opts[k] != opts[opts.len() - 1]);
                }
            },
            None => {
                assert(opts[opts.len() - 1] == opts.last());
            },
        }
    }
}

} // verus!
