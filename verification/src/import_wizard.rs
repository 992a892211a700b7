//! The CSV import wizard's model: three steps, what is wrong at each, and the
//! `read_csv` statement a valid form imports with.
//!
//! A step can be left only once it has nothing wrong, and the statement
//! exists only for a form with nothing wrong anywhere.

use vstd::prelude::*;
use crate::i18n::Catalog;
use crate::text::{
    ascii_lower, ascii_upper, chars_of, decimal, joined, lowered, push_chars, raised,
    replaced, replace_all, string_of, trim, trim_bounds, vec_eq, views, join,
    string_of_range,
};

verus! {

/// The types a column can be imported as.
pub open spec fn type_names() -> Seq<Seq<char>> {
    seq![
        "VARCHAR"@, "BIGINT"@, "INTEGER"@, "DOUBLE"@, "BOOLEAN"@, "DATE"@, "TIMESTAMP"@,
        "TIME"@, "BLOB"@,
    ]
}

/// Whether `ty` is one of the importable types, as written.
pub open spec fn is_type(ty: Seq<char>) -> bool {
    type_names().contains(ty)
}

/// The name of the engine's row-id column, which no imported column may take.
pub open spec fn rowid_name() -> Seq<char> {
    "__dat0_rowid"@
}

/// Whether `v` is one of the importable types.
fn is_type_name(v: &Vec<char>) -> (r: bool)
    ensures
        r == is_type(v@),
{
    let names = [
        "VARCHAR", "BIGINT", "INTEGER", "DOUBLE", "BOOLEAN", "DATE", "TIMESTAMP", "TIME", "BLOB",
    ];
    let mut i: usize = 0;
    while i < 9
        invariant
            i <= 9,
            names@.len() == 9,
            names@.map_values(|s: &str| s@) == type_names(),
            forall|k: int| 0 <= k < i ==> type_names()[k] != v@,
        decreases 9 - i,
    {
        assert(names@.map_values(|s: &str| s@)[i as int] == names@[i as int]@);
        if vec_eq(v, &chars_of(names[i])) {
            assert(type_names()[i as int] == v@);
            return true;
        }
        i = i + 1;
    }
    assert(!type_names().contains(v@)) by {
        if type_names().contains(v@) {
            let k = choose|k: int| 0 <= k < type_names().len() && type_names()[k] == v@;
        }
    }
    false
}

/// The wizard's steps, in order.
#[derive(Clone, Copy, PartialEq, Eq, Debug, Structural)]
pub enum Step {
    Dialect,
    Columns,
    Confirm,
}

/// The position of a step.
pub open spec fn step_index(s: Step) -> nat {
    match s {
        Step::Dialect => 0,
        Step::Columns => 1,
        Step::Confirm => 2,
    }
}

/// The step after `s`, if any.
pub open spec fn step_next(s: Step) -> Option<Step> {
    match s {
        Step::Dialect => Some(Step::Columns),
        Step::Columns => Some(Step::Confirm),
        Step::Confirm => None,
    }
}

/// The step before `s`, if any.
pub open spec fn step_prev(s: Step) -> Option<Step> {
    match s {
        Step::Dialect => None,
        Step::Columns => Some(Step::Dialect),
        Step::Confirm => Some(Step::Columns),
    }
}

impl Step {
    /// The position of this step: 0, 1, 2.
    pub fn index(self) -> (r: usize)
        ensures
            r == step_index(self),
    {
        match self {
            Step::Dialect => 0,
            Step::Columns => 1,
            Step::Confirm => 2,
        }
    }

    /// A stable id for the step's element.
    pub fn id(self) -> (r: &'static str)
        ensures
            r@ == (match self {
                Step::Dialect => "dialect"@,
                Step::Columns => "columns"@,
                Step::Confirm => "confirm"@,
            }),
    {
        match self {
            Step::Dialect => "dialect",
            Step::Columns => "columns",
            Step::Confirm => "confirm",
        }
    }

    /// The catalog key of the step's title.
    pub fn title_key(self) -> (r: &'static str)
        ensures
            r@ == (match self {
                Step::Dialect => "wizard.step.dialect"@,
                Step::Columns => "wizard.step.columns"@,
                Step::Confirm => "wizard.step.confirm"@,
            }),
    {
        match self {
            Step::Dialect => "wizard.step.dialect",
            Step::Columns => "wizard.step.columns",
            Step::Confirm => "wizard.step.confirm",
        }
    }

    /// The step after this one.
    pub fn next(self) -> (r: Option<Step>)
        ensures
            r == step_next(self),
    {
        match self {
            Step::Dialect => Some(Step::Columns),
            Step::Columns => Some(Step::Confirm),
            Step::Confirm => None,
        }
    }

    /// The step before this one.
    pub fn prev(self) -> (r: Option<Step>)
        ensures
            r == step_prev(self),
    {
        match self {
            Step::Dialect => None,
            Step::Columns => Some(Step::Dialect),
            Step::Confirm => Some(Step::Columns),
        }
    }
}

/// A column as the wizard's form holds it.
#[derive(PartialEq, Eq, Debug)]
pub struct ColumnDraft {
    /// The column's name in the file.
    pub source: String,
    /// The name it is imported under.
    pub name: String,
    /// The type it is imported as.
    pub ty: String,
    /// Whether it is imported at all.
    pub imported: bool,
}

/// What a column draft holds.
pub struct ColumnDraftView {
    pub source: Seq<char>,
    pub name: Seq<char>,
    pub ty: Seq<char>,
    pub imported: bool,
}

impl View for ColumnDraft {
    type V = ColumnDraftView;

    open spec fn view(&self) -> ColumnDraftView {
        ColumnDraftView { source: self.source@, name: self.name@, ty: self.ty@, imported: self.imported }
    }
}

/// The type a sniffed type becomes: itself upper-cased when that is an
/// importable type, `VARCHAR` otherwise.
pub open spec fn draft_type(ty: Seq<char>) -> Seq<char> {
    if is_type(ascii_upper(ty)) { ascii_upper(ty) } else { "VARCHAR"@ }
}

impl ColumnDraft {
    /// A draft of the file's column `source`, sniffed as `ty`, imported under
    /// its own name.
    pub fn new(source: &str, ty: &str) -> (r: Self)
        ensures
            r.source@ == source@,
            r.name@ == source@,
            r.ty@ == draft_type(ty@),
            r.imported,
    {
        let up = raised(&chars_of(ty));
        let ty = if is_type_name(&up) { string_of(&up) } else { string_of(&chars_of("VARCHAR")) };
        ColumnDraft {
            source: string_of(&chars_of(source)),
            name: string_of(&chars_of(source)),
            ty,
            imported: true,
        }
    }

    /// A copy of this draft.
    pub fn duplicate(&self) -> (r: Self)
        ensures
            r@ == self@,
    {
        ColumnDraft {
            source: self.source.clone(),
            name: self.name.clone(),
            ty: self.ty.clone(),
            imported: self.imported,
        }
    }
}

/// Something wrong with the form.
#[derive(Clone, PartialEq, Eq, Debug)]
pub enum Issue {
    DelimiterEmpty,
    DelimiterNotSingleChar,
    QuoteNotSingleChar,
    DelimiterEqualsQuote,
    EncodingUnsupported,
    NoColumnsIncluded,
    EmptyColumnName { row: usize },
    DuplicateColumnName { row: usize, name: String },
    ReservedColumnName { row: usize },
    UnknownType { row: usize, ty: String },
}

/// What an issue holds.
pub enum IssueView {
    DelimiterEmpty,
    DelimiterNotSingleChar,
    QuoteNotSingleChar,
    DelimiterEqualsQuote,
    EncodingUnsupported,
    NoColumnsIncluded,
    EmptyColumnName { row: nat },
    DuplicateColumnName { row: nat, name: Seq<char> },
    ReservedColumnName { row: nat },
    UnknownType { row: nat, ty: Seq<char> },
}

impl View for Issue {
    type V = IssueView;

    open spec fn view(&self) -> IssueView {
        match self {
            Issue::DelimiterEmpty => IssueView::DelimiterEmpty,
            Issue::DelimiterNotSingleChar => IssueView::DelimiterNotSingleChar,
            Issue::QuoteNotSingleChar => IssueView::QuoteNotSingleChar,
            Issue::DelimiterEqualsQuote => IssueView::DelimiterEqualsQuote,
            Issue::EncodingUnsupported => IssueView::EncodingUnsupported,
            Issue::NoColumnsIncluded => IssueView::NoColumnsIncluded,
            Issue::EmptyColumnName { row } => IssueView::EmptyColumnName { row: *row as nat },
            Issue::DuplicateColumnName { row, name } =>
                IssueView::DuplicateColumnName { row: *row as nat, name: name@ },
            Issue::ReservedColumnName { row } => IssueView::ReservedColumnName { row: *row as nat },
            Issue::UnknownType { row, ty } => IssueView::UnknownType { row: *row as nat, ty: ty@ },
        }
    }
}

/// The views of a list of issues.
pub open spec fn issue_views(v: Seq<Issue>) -> Seq<IssueView> {
    v.map_values(|i: Issue| i@)
}

/// The step an issue is fixed on.
pub open spec fn issue_step(i: IssueView) -> Step {
    match i {
        IssueView::DelimiterEmpty | IssueView::DelimiterNotSingleChar
        | IssueView::QuoteNotSingleChar | IssueView::DelimiterEqualsQuote
        | IssueView::EncodingUnsupported => Step::Dialect,
        _ => Step::Columns,
    }
}

/// The catalog key of an issue's text.
pub open spec fn issue_key(i: IssueView) -> Seq<char> {
    match i {
        IssueView::DelimiterEmpty => "wizard.issue.delimiter_empty"@,
        IssueView::DelimiterNotSingleChar => "wizard.issue.delimiter_not_single"@,
        IssueView::QuoteNotSingleChar => "wizard.issue.quote_not_single"@,
        IssueView::DelimiterEqualsQuote => "wizard.issue.delimiter_equals_quote"@,
        IssueView::EncodingUnsupported => "wizard.issue.encoding_unsupported"@,
        IssueView::NoColumnsIncluded => "wizard.issue.no_columns"@,
        IssueView::EmptyColumnName { .. } => "wizard.issue.empty_name"@,
        IssueView::DuplicateColumnName { .. } => "wizard.issue.duplicate_name"@,
        IssueView::ReservedColumnName { .. } => "wizard.issue.reserved_name"@,
        IssueView::UnknownType { .. } => "wizard.issue.unknown_type"@,
    }
}

/// The column row an issue is about, if it is about one.
pub open spec fn issue_row(i: IssueView) -> Option<nat> {
    match i {
        IssueView::EmptyColumnName { row } => Some(row),
        IssueView::DuplicateColumnName { row, .. } => Some(row),
        IssueView::ReservedColumnName { row } => Some(row),
        IssueView::UnknownType { row, .. } => Some(row),
        _ => None,
    }
}

/// What an issue says: its text, the offending value when there is one, and
/// the column, counted from one, when it is about a column.
pub open spec fn issue_text(cat: Catalog, i: IssueView) -> Seq<char> {
    let text = cat.text(issue_key(i));
    let body = match i {
        IssueView::DuplicateColumnName { name, .. } => text + ": "@ + name,
        IssueView::UnknownType { ty, .. } => text + ": "@ + ty,
        IssueView::ReservedColumnName { .. } => text + ": "@ + rowid_name(),
        _ => text,
    };
    match issue_row(i) {
        Some(r) => cat.text("wizard.column"@) + " "@ + decimal(r + 1) + " — "@ + body,
        None => body,
    }
}

impl Issue {
    /// The step this issue is fixed on.
    pub fn step(&self) -> (r: Step)
        ensures
            r == issue_step(self@),
    {
        match self {
            Issue::DelimiterEmpty
            | Issue::DelimiterNotSingleChar
            | Issue::QuoteNotSingleChar
            | Issue::DelimiterEqualsQuote
            | Issue::EncodingUnsupported => Step::Dialect,
            _ => Step::Columns,
        }
    }

    /// The catalog key of this issue's text.
    pub fn key(&self) -> (r: &'static str)
        ensures
            r@ == issue_key(self@),
    {
        match self {
            Issue::DelimiterEmpty => "wizard.issue.delimiter_empty",
            Issue::DelimiterNotSingleChar => "wizard.issue.delimiter_not_single",
            Issue::QuoteNotSingleChar => "wizard.issue.quote_not_single",
            Issue::DelimiterEqualsQuote => "wizard.issue.delimiter_equals_quote",
            Issue::EncodingUnsupported => "wizard.issue.encoding_unsupported",
            Issue::NoColumnsIncluded => "wizard.issue.no_columns",
            Issue::EmptyColumnName { .. } => "wizard.issue.empty_name",
            Issue::DuplicateColumnName { .. } => "wizard.issue.duplicate_name",
            Issue::ReservedColumnName { .. } => "wizard.issue.reserved_name",
            Issue::UnknownType { .. } => "wizard.issue.unknown_type",
        }
    }

    /// The column row this issue is about, if it is about one.
    pub fn row(&self) -> (r: Option<usize>)
        ensures
            r matches Some(x) ==> issue_row(self@) == Some(x as nat),
            r is None ==> issue_row(self@) is None,
    {
        match self {
            Issue::EmptyColumnName { row }
            | Issue::DuplicateColumnName { row, .. }
            | Issue::ReservedColumnName { row }
            | Issue::UnknownType { row, .. } => Some(*row),
            _ => None,
        }
    }

    /// What this issue says, in the catalog's language.
    pub fn message(&self, cat: &Catalog) -> (r: String)
        requires
            issue_row(self@) matches Some(x) ==> x < usize::MAX,
        ensures
            r@ == issue_text(*cat, self@),
    {
        let text = cat.t(self.key());
        let body = match self {
            Issue::DuplicateColumnName { name, .. } => {
                let mut b = text;
                b.append(": ");
                b.append(name.as_str());
                b
            },
            Issue::UnknownType { ty, .. } => {
                let mut b = text;
                b.append(": ");
                b.append(ty.as_str());
                b
            },
            Issue::ReservedColumnName { .. } => {
                let mut b = text;
                b.append(": ");
                b.append("__dat0_rowid");
                b
            },
            _ => text,
        };
        match self.row() {
            Some(r) => {
                let mut s = cat.t("wizard.column");
                s.append(" ");
                s.append(crate::text::decimal_string((r + 1) as u64).as_str());
                s.append(" — ");
                s.append(body.as_str());
                s
            },
            None => body,
        }
    }
}

/// What the file's sniff found that the wizard starts from.
#[derive(Clone, Copy, PartialEq, Eq, Debug)]
pub struct SniffSummary {
    /// The delimiter that scored best.
    pub top_delimiter: char,
    /// Whether the file's encoding can be read.
    pub encoding_supported: bool,
}

/// The wizard's form.
#[derive(PartialEq, Eq, Debug)]
pub struct WizardModel {
    /// The file being imported.
    pub path: String,
    pub delimiter: String,
    pub quote: String,
    pub has_header: bool,
    pub encoding_supported: bool,
    pub columns: Vec<ColumnDraft>,
    pub step: Step,
}

/// The views of a list of column drafts.
pub open spec fn draft_views(v: Seq<ColumnDraft>) -> Seq<ColumnDraftView> {
    v.map_values(|c: ColumnDraft| c@)
}

/// What is wrong with the delimiter, quote and encoding.
pub open spec fn dialect_issues_of(delim: Seq<char>, quote: Seq<char>, encoding_supported: bool) -> Seq<IssueView> {
    let d = if delim.len() == 0 {
        seq![IssueView::DelimiterEmpty]
    } else if delim.len() >= 2 {
        seq![IssueView::DelimiterNotSingleChar]
    } else {
        Seq::empty()
    };
    let q = if quote.len() != 1 { seq![IssueView::QuoteNotSingleChar] } else { Seq::empty() };
    let e = if delim.len() != 0 && delim == quote { seq![IssueView::DelimiterEqualsQuote] } else { Seq::empty() };
    let n = if !encoding_supported { seq![IssueView::EncodingUnsupported] } else { Seq::empty() };
    d + q + e + n
}

/// Whether any column is included.
pub open spec fn any_included(cols: Seq<ColumnDraftView>) -> bool {
    exists|i: int| 0 <= i < cols.len() && (#[trigger] cols[i]).imported
}

/// What is wrong with the included columns from row `i` on, given the
/// lowered names already taken by rows before it: an empty name; a name that
/// is the row id's; a name taken already, regardless of ASCII case; a type
/// that is not importable.
pub open spec fn column_issues_from(cols: Seq<ColumnDraftView>, i: int, seen: Seq<Seq<char>>) -> Seq<IssueView>
    decreases cols.len() - i,
{
    if i < 0 || i >= cols.len() {
        Seq::empty()
    } else if !cols[i].imported {
        column_issues_from(cols, i + 1, seen)
    } else {
        let name = trim(cols[i].name);
        if name.len() == 0 {
            seq![IssueView::EmptyColumnName { row: i as nat }] + column_issues_from(cols, i + 1, seen)
        } else {
            let folded = ascii_lower(name);
            let reserved = if folded == ascii_lower(rowid_name()) {
                seq![IssueView::ReservedColumnName { row: i as nat }]
            } else {
                Seq::empty()
            };
            let dup = if seen.contains(folded) {
                seq![IssueView::DuplicateColumnName { row: i as nat, name: name }]
            } else {
                Seq::empty()
            };
            let next_seen = if seen.contains(folded) { seen } else { seen.push(folded) };
            let unknown = if !is_type(cols[i].ty) {
                seq![IssueView::UnknownType { row: i as nat, ty: cols[i].ty }]
            } else {
                Seq::empty()
            };
            reserved + dup + unknown + column_issues_from(cols, i + 1, next_seen)
        }
    }
}

/// What is wrong with the columns.
pub open spec fn column_issues_of(cols: Seq<ColumnDraftView>) -> Seq<IssueView> {
    if !any_included(cols) {
        seq![IssueView::NoColumnsIncluded]
    } else {
        column_issues_from(cols, 0, Seq::empty())
    }
}

/// Whether an issue is about no row, or about row `i` or later.
pub open spec fn row_from(x: IssueView, i: int) -> bool {
    match issue_row(x) {
        Some(r) => r >= i,
        None => true,
    }
}

/// Whether `iss` reports a duplicate name at row `j`.
pub open spec fn dup_at(iss: Seq<IssueView>, j: int) -> bool {
    exists|k: int| 0 <= k < iss.len() && (#[trigger] iss[k]) is DuplicateColumnName
        && iss[k]->DuplicateColumnName_row == j
}

/// Whether every duplicate `iss` reports at row `j` names `name`.
pub open spec fn dup_named(iss: Seq<IssueView>, j: int, name: Seq<char>) -> bool {
    forall|k: int| 0 <= k < iss.len() && (#[trigger] iss[k]) is DuplicateColumnName
        && iss[k]->DuplicateColumnName_row == j ==> iss[k]->DuplicateColumnName_name == name
}

/// Whether an included column before row `j` has row `j`'s trimmed name,
/// regardless of ASCII case.
pub open spec fn named_earlier(cols: Seq<ColumnDraftView>, j: int) -> bool {
    exists|i: int| 0 <= i < j && (#[trigger] cols[i]).imported
        && ascii_lower(trim(cols[i].name)) == ascii_lower(trim(cols[j].name))
}

/// Whether `seen` holds exactly the lowered names of the included columns
/// before row `i` whose names are not empty.
pub open spec fn seen_before(cols: Seq<ColumnDraftView>, i: int, seen: Seq<Seq<char>>) -> bool {
    forall|w: Seq<char>| seen.contains(w) <==> exists|k: int| 0 <= k < i && (#[trigger] cols[k]).imported
        && trim(cols[k].name).len() > 0 && ascii_lower(trim(cols[k].name)) == w
}

proof fn lemma_dup_concat(a: Seq<IssueView>, b: Seq<IssueView>, j: int, name: Seq<char>)
    ensures
        dup_at(a + b, j) == (dup_at(a, j) || dup_at(b, j)),
        dup_named(a + b, j, name) == (dup_named(a, j, name) && dup_named(b, j, name)),
{
    let s = a + b;
    if dup_at(s, j) {
        let k = choose|k: int| 0 <= k < s.len() && (#[trigger] s[k]) is DuplicateColumnName
            && s[k]->DuplicateColumnName_row == j;
        if k < a.len() {
            assert(a[k] == s[k]);
        } else {
            assert(b[k - a.len()] == s[k]);
        }
    }
    if dup_at(a, j) {
        let k = choose|k: int| 0 <= k < a.len() && (#[trigger] a[k]) is DuplicateColumnName
            && a[k]->DuplicateColumnName_row == j;
        assert(s[k] == a[k]);
    }
    if dup_at(b, j) {
        let k = choose|k: int| 0 <= k < b.len() && (#[trigger] b[k]) is DuplicateColumnName
            && b[k]->DuplicateColumnName_row == j;
        assert(s[a.len() + k] == b[k]);
    }
    if dup_named(s, j, name) {
        assert forall|k: int| 0 <= k < a.len() && (#[trigger] a[k]) is DuplicateColumnName
            && a[k]->DuplicateColumnName_row == j implies a[k]->DuplicateColumnName_name == name by {
            assert(s[k] == a[k]);
        }
        assert forall|k: int| 0 <= k < b.len() && (#[trigger] b[k]) is DuplicateColumnName
            && b[k]->DuplicateColumnName_row == j implies b[k]->DuplicateColumnName_name == name by {
            assert(s[a.len() + k] == b[k]);
        }
    }
    if dup_named(a, j, name) && dup_named(b, j, name) {
        assert forall|k: int| 0 <= k < s.len() && (#[trigger] s[k]) is DuplicateColumnName
            && s[k]->DuplicateColumnName_row == j implies s[k]->DuplicateColumnName_name == name by {
            if k < a.len() {
                assert(a[k] == s[k]);
            } else {
                assert(b[k - a.len()] == s[k]);
            }
        }
    }
}

/// The issues from row `i` on are about rows `i` and later; and for an
/// included row `j` from `i` on with a name, a duplicate is reported at `j`,
/// under its trimmed name, exactly when an included row before it has the
/// same name up to case.
proof fn lemma_dups_from(cols: Seq<ColumnDraftView>, i: int, seen: Seq<Seq<char>>, j: int)
    requires
        0 <= i,
        seen_before(cols, i, seen),
    ensures
        forall|k: int| 0 <= k < column_issues_from(cols, i, seen).len()
            ==> row_from(#[trigger] column_issues_from(cols, i, seen)[k], i),
        0 <= j < i ==> !dup_at(column_issues_from(cols, i, seen), j),
        i <= j < cols.len() && cols[j].imported && trim(cols[j].name).len() > 0 ==> {
            &&& dup_at(column_issues_from(cols, i, seen), j) == named_earlier(cols, j)
            &&& dup_named(column_issues_from(cols, i, seen), j, trim(cols[j].name))
        },
    decreases cols.len() - i,
{
    let iss = column_issues_from(cols, i, seen);
    if i >= cols.len() {
        if i <= j < cols.len() {
        }
        return;
    }
    let c = cols[i];
    let name = trim(c.name);
    let folded = ascii_lower(name);
    let next_seen = if !c.imported || name.len() == 0 {
        seen
    } else if seen.contains(folded) {
        seen
    } else {
        seen.push(folded)
    };
    assert(seen_before(cols, i + 1, next_seen)) by {
        assert forall|w: Seq<char>| next_seen.contains(w) <==> exists|k: int| 0 <= k < i + 1
            && (#[trigger] cols[k]).imported && trim(cols[k].name).len() > 0 && ascii_lower(trim(cols[k].name)) == w by {
            if next_seen.contains(w) {
                if seen.contains(w) {
                    let k = choose|k: int| 0 <= k < i && (#[trigger] cols[k]).imported
                        && trim(cols[k].name).len() > 0 && ascii_lower(trim(cols[k].name)) == w;
                } else {
                    let m = choose|m: int| 0 <= m < next_seen.len() && next_seen[m] == w;
                    assert(w == folded);
                }
            }
            if exists|k: int| 0 <= k < i + 1 && (#[trigger] cols[k]).imported && trim(cols[k].name).len() > 0
                && ascii_lower(trim(cols[k].name)) == w {
                let k = choose|k: int| 0 <= k < i + 1 && (#[trigger] cols[k]).imported
                    && trim(cols[k].name).len() > 0 && ascii_lower(trim(cols[k].name)) == w;
                if k < i {
                    assert(seen.contains(w));
                    if next_seen != seen {
                        assert(next_seen[seen.len() as int] == folded);
                        let m = choose|m: int| 0 <= m < seen.len() && seen[m] == w;
                        assert(next_seen[m] == w);
                    }
                } else {
                    if next_seen == seen {
                    } else {
                        assert(next_seen[seen.len() as int] == w);
                    }
                }
            }
        }
    }
    lemma_dups_from(cols, i + 1, next_seen, j);
    let rest = column_issues_from(cols, i + 1, next_seen);
    if !c.imported {
        assert(iss == rest);
    } else if name.len() == 0 {
        let head = seq![IssueView::EmptyColumnName { row: i as nat }];
        assert(iss == head + rest);
        lemma_dup_concat(head, rest, j, trim(cols[j].name));
        assert(!dup_at(head, j)) by {
            if dup_at(head, j) {
                let k = choose|k: int| 0 <= k < head.len() && (#[trigger] head[k]) is DuplicateColumnName
                    && head[k]->DuplicateColumnName_row == j;
                assert(head[k] == head[0]);
            }
        }
        assert(dup_named(head, j, trim(cols[j].name))) by {
            assert forall|k: int| 0 <= k < head.len() && (#[trigger] head[k]) is DuplicateColumnName
                && head[k]->DuplicateColumnName_row == j implies head[k]->DuplicateColumnName_name == trim(cols[j].name) by {
                assert(head[k] == head[0]);
            }
        }
        assert forall|k: int| 0 <= k < iss.len() implies row_from(#[trigger] iss[k], i) by {
            if k == 0 {
            } else {
                assert(iss[k] == rest[k - 1]);
                assert(row_from(rest[k - 1], i + 1));
            }
        }
    } else {
        let reserved = if folded == ascii_lower(rowid_name()) {
            seq![IssueView::ReservedColumnName { row: i as nat }]
        } else {
            Seq::empty()
        };
        let dup = if seen.contains(folded) {
            seq![IssueView::DuplicateColumnName { row: i as nat, name: name }]
        } else {
            Seq::empty()
        };
        let unknown = if !is_type(c.ty) {
            seq![IssueView::UnknownType { row: i as nat, ty: c.ty }]
        } else {
            Seq::empty()
        };
        let head = reserved + dup + unknown;
        assert(iss == head + rest);
        assert(forall|k: int| 0 <= k < head.len() ==> issue_row(#[trigger] head[k]) == Some(i as nat)) by {
            assert forall|k: int| 0 <= k < head.len() implies issue_row(#[trigger] head[k]) == Some(i as nat) by {
                if k < reserved.len() {
                    assert(head[k] == reserved[k]);
                } else if k < reserved.len() + dup.len() {
                    assert(head[k] == dup[k - reserved.len()]);
                } else {
                    assert(head[k] == unknown[k - reserved.len() - dup.len()]);
                }
            }
        }
        assert forall|k: int| 0 <= k < iss.len() implies row_from(#[trigger] iss[k], i) by {
            if k < head.len() {
                assert(iss[k] == head[k]);
            } else {
                assert(iss[k] == rest[k - head.len()]);
                assert(row_from(rest[k - head.len()], i + 1));
            }
        }
        let nj = trim(cols[j].name);
        lemma_dup_concat(head, rest, j, nj);
        lemma_dup_concat(reserved + dup, unknown, j, nj);
        lemma_dup_concat(reserved, dup, j, nj);
        assert(!dup_at(reserved, j) && dup_named(reserved, j, nj)) by {
            if dup_at(reserved, j) {
                let k = choose|k: int| 0 <= k < reserved.len() && (#[trigger] reserved[k]) is DuplicateColumnName
                    && reserved[k]->DuplicateColumnName_row == j;
                assert(reserved[k] == reserved[0]);
            }
            assert forall|k: int| 0 <= k < reserved.len() && (#[trigger] reserved[k]) is DuplicateColumnName
                && reserved[k]->DuplicateColumnName_row == j implies reserved[k]->DuplicateColumnName_name == nj by {
                assert(reserved[k] == reserved[0]);
            }
        }
        assert(!dup_at(unknown, j) && dup_named(unknown, j, nj)) by {
            if dup_at(unknown, j) {
                let k = choose|k: int| 0 <= k < unknown.len() && (#[trigger] unknown[k]) is DuplicateColumnName
                    && unknown[k]->DuplicateColumnName_row == j;
                assert(unknown[k] == unknown[0]);
            }
            assert forall|k: int| 0 <= k < unknown.len() && (#[trigger] unknown[k]) is DuplicateColumnName
                && unknown[k]->DuplicateColumnName_row == j implies unknown[k]->DuplicateColumnName_name == nj by {
                assert(unknown[k] == unknown[0]);
            }
        }
        assert(dup_at(dup, j) == (j == i && seen.contains(folded))) by {
            if dup_at(dup, j) {
                let k = choose|k: int| 0 <= k < dup.len() && (#[trigger] dup[k]) is DuplicateColumnName
                    && dup[k]->DuplicateColumnName_row == j;
                assert(dup[k] == dup[0]);
            }
            if j == i && seen.contains(folded) {
                assert(dup[0] is DuplicateColumnName && dup[0]->DuplicateColumnName_row == j);
            }
        }
        assert(j == i ==> dup_named(dup, j, nj)) by {
            if j == i {
                assert forall|k: int| 0 <= k < dup.len() && (#[trigger] dup[k]) is DuplicateColumnName
                    && dup[k]->DuplicateColumnName_row == j implies dup[k]->DuplicateColumnName_name == nj by {
                    assert(dup[k] == dup[0]);
                }
            }
        }
        assert(j != i ==> dup_named(dup, j, nj)) by {
            if j != i {
                assert forall|k: int| 0 <= k < dup.len() && (#[trigger] dup[k]) is DuplicateColumnName
                    && dup[k]->DuplicateColumnName_row == j implies dup[k]->DuplicateColumnName_name == nj by {
                    assert(dup[k] == dup[0]);
                }
            }
        }
        if j == i {
            assert(!dup_at(rest, j)) by {
                if dup_at(rest, j) {
                    let k = choose|k: int| 0 <= k < rest.len() && (#[trigger] rest[k]) is DuplicateColumnName
                        && rest[k]->DuplicateColumnName_row == j;
                    assert(row_from(rest[k], i + 1));
                }
            }
            assert(dup_named(rest, j, nj)) by {
                assert forall|k: int| 0 <= k < rest.len() && (#[trigger] rest[k]) is DuplicateColumnName
                    && rest[k]->DuplicateColumnName_row == j implies rest[k]->DuplicateColumnName_name == nj by {
                    assert(row_from(rest[k], i + 1));
                }
            }
            assert(seen.contains(folded) == named_earlier(cols, j)) by {
                if seen.contains(folded) {
                    let k = choose|k: int| 0 <= k < i && (#[trigger] cols[k]).imported
                        && trim(cols[k].name).len() > 0 && ascii_lower(trim(cols[k].name)) == folded;
                }
                if named_earlier(cols, j) {
                    let k = choose|k: int| 0 <= k < j && (#[trigger] cols[k]).imported
                        && ascii_lower(trim(cols[k].name)) == ascii_lower(trim(cols[j].name));
                    assert(ascii_lower(trim(cols[k].name)).len() == trim(cols[k].name).len());
                }
            }
        }
    }
}

proof fn lemma_contains_concat(a: Seq<IssueView>, b: Seq<IssueView>, x: IssueView)
    ensures
        (a + b).contains(x) == (a.contains(x) || b.contains(x)),
{
    let s = a + b;
    if s.contains(x) {
        let k = choose|k: int| 0 <= k < s.len() && s[k] == x;
        if k < a.len() {
            assert(a[k] == x);
        } else {
            assert(b[k - a.len()] == x);
        }
    }
    if a.contains(x) {
        let k = choose|k: int| 0 <= k < a.len() && a[k] == x;
        assert(s[k] == x);
    }
    if b.contains(x) {
        let k = choose|k: int| 0 <= k < b.len() && b[k] == x;
        assert(s[a.len() + k] == x);
    }
}

/// The issues from row `i` on are about rows `i` and later, whatever names
/// are taken already.
proof fn lemma_rows_after(cols: Seq<ColumnDraftView>, i: int, seen: Seq<Seq<char>>)
    requires
        0 <= i,
    ensures
        forall|k: int| 0 <= k < column_issues_from(cols, i, seen).len()
            ==> row_from(#[trigger] column_issues_from(cols, i, seen)[k], i),
    decreases cols.len() - i,
{
    if i < cols.len() {
        let c = cols[i];
        let name = trim(c.name);
        let folded = ascii_lower(name);
        let next_seen = if !c.imported || name.len() == 0 {
            seen
        } else if seen.contains(folded) {
            seen
        } else {
            seen.push(folded)
        };
        lemma_rows_after(cols, i + 1, next_seen);
        let rest = column_issues_from(cols, i + 1, next_seen);
        let iss = column_issues_from(cols, i, seen);
        if c.imported {
            let head = if name.len() == 0 {
                seq![IssueView::EmptyColumnName { row: i as nat }]
            } else {
                (if folded == ascii_lower(rowid_name()) {
                    seq![IssueView::ReservedColumnName { row: i as nat }]
                } else {
                    Seq::empty()
                }) + (if seen.contains(folded) {
                    seq![IssueView::DuplicateColumnName { row: i as nat, name: name }]
                } else {
                    Seq::empty()
                }) + (if !is_type(c.ty) {
                    seq![IssueView::UnknownType { row: i as nat, ty: c.ty }]
                } else {
                    Seq::empty()
                })
            };
            assert(iss == head + rest);
            assert forall|k: int| 0 <= k < iss.len() implies row_from(#[trigger] iss[k], i) by {
                if k < head.len() {
                    assert(iss[k] == head[k]);
                    assert(issue_row(head[k]) == Some(i as nat));
                } else {
                    assert(iss[k] == rest[k - head.len()]);
                    assert(row_from(rest[k - head.len()], i + 1));
                }
            }
        }
    }
}

/// For row `j` from row `i` on: an empty name is reported exactly for an
/// included row whose name trims to nothing; the row id's name exactly for an
/// included row whose name is it up to case; an unknown type exactly for an
/// included row with a name and a type outside the vocabulary.
proof fn lemma_row_issues_from(cols: Seq<ColumnDraftView>, i: int, seen: Seq<Seq<char>>, j: int)
    requires
        0 <= i <= j < cols.len(),
    ensures
        column_issues_from(cols, i, seen).contains(IssueView::EmptyColumnName { row: j as nat })
            == (cols[j].imported && trim(cols[j].name).len() == 0),
        column_issues_from(cols, i, seen).contains(IssueView::ReservedColumnName { row: j as nat })
            == (cols[j].imported && trim(cols[j].name).len() > 0
                && ascii_lower(trim(cols[j].name)) == ascii_lower(rowid_name())),
        column_issues_from(cols, i, seen).contains(IssueView::UnknownType { row: j as nat, ty: cols[j].ty })
            == (cols[j].imported && trim(cols[j].name).len() > 0 && !is_type(cols[j].ty)),
    decreases j - i,
{
    let c = cols[i];
    let name = trim(c.name);
    let folded = ascii_lower(name);
    let next_seen = if !c.imported || name.len() == 0 {
        seen
    } else if seen.contains(folded) {
        seen
    } else {
        seen.push(folded)
    };
    let rest = column_issues_from(cols, i + 1, next_seen);
    let iss = column_issues_from(cols, i, seen);
    let e = IssueView::EmptyColumnName { row: j as nat };
    let r = IssueView::ReservedColumnName { row: j as nat };
    let u = IssueView::UnknownType { row: j as nat, ty: cols[j].ty };
    let reserved = if folded == ascii_lower(rowid_name()) {
        seq![IssueView::ReservedColumnName { row: i as nat }]
    } else {
        Seq::empty()
    };
    let dup = if seen.contains(folded) {
        seq![IssueView::DuplicateColumnName { row: i as nat, name: name }]
    } else {
        Seq::empty()
    };
    let unknown = if !is_type(c.ty) {
        seq![IssueView::UnknownType { row: i as nat, ty: c.ty }]
    } else {
        Seq::empty()
    };
    let head = if !c.imported {
        Seq::empty()
    } else if name.len() == 0 {
        seq![IssueView::EmptyColumnName { row: i as nat }]
    } else {
        reserved + dup + unknown
    };
    assert(iss == head + rest);
    lemma_contains_concat(head, rest, e);
    lemma_contains_concat(head, rest, r);
    lemma_contains_concat(head, rest, u);
    lemma_contains_concat(reserved + dup, unknown, e);
    lemma_contains_concat(reserved + dup, unknown, r);
    lemma_contains_concat(reserved + dup, unknown, u);
    lemma_contains_concat(reserved, dup, e);
    lemma_contains_concat(reserved, dup, r);
    lemma_contains_concat(reserved, dup, u);
    if i < j {
        lemma_row_issues_from(cols, i + 1, next_seen, j);
        assert forall|k: int| 0 <= k < head.len() implies issue_row(#[trigger] head[k]) == Some(i as nat) by {
            if c.imported && name.len() > 0 {
                if k < reserved.len() {
                    assert(head[k] == reserved[k]);
                } else if k < reserved.len() + dup.len() {
                    assert(head[k] == dup[k - reserved.len()]);
                } else {
                    assert(head[k] == unknown[k - reserved.len() - dup.len()]);
                }
            }
        }
        assert(!head.contains(e) && !head.contains(r) && !head.contains(u)) by {
            if head.contains(e) {
                let k = choose|k: int| 0 <= k < head.len() && head[k] == e;
                assert(issue_row(head[k]) == Some(i as nat));
            }
            if head.contains(r) {
                let k = choose|k: int| 0 <= k < head.len() && head[k] == r;
                assert(issue_row(head[k]) == Some(i as nat));
            }
            if head.contains(u) {
                let k = choose|k: int| 0 <= k < head.len() && head[k] == u;
                assert(issue_row(head[k]) == Some(i as nat));
            }
        }
    } else {
        lemma_rows_after(cols, i + 1, next_seen);
        assert(!rest.contains(e) && !rest.contains(r) && !rest.contains(u)) by {
            if rest.contains(e) {
                let k = choose|k: int| 0 <= k < rest.len() && rest[k] == e;
                assert(row_from(rest[k], i + 1));
            }
            if rest.contains(r) {
                let k = choose|k: int| 0 <= k < rest.len() && rest[k] == r;
                assert(row_from(rest[k], i + 1));
            }
            if rest.contains(u) {
                let k = choose|k: int| 0 <= k < rest.len() && rest[k] == u;
                assert(row_from(rest[k], i + 1));
            }
        }
        if c.imported && name.len() == 0 {
            assert(head[0] == e);
        }
        if c.imported && name.len() > 0 {
            assert(!dup.contains(e) && !dup.contains(r) && !dup.contains(u)) by {
                if dup.len() > 0 {
                    assert(dup.contains(e) ==> dup[0] == e);
                    assert(dup.contains(r) ==> dup[0] == r);
                    assert(dup.contains(u) ==> dup[0] == u);
                }
            }
            assert(reserved.contains(r) == (folded == ascii_lower(rowid_name()))) by {
                if folded == ascii_lower(rowid_name()) {
                    assert(reserved[0] == r);
                }
            }
            assert(!reserved.contains(e) && !reserved.contains(u)) by {
                if reserved.len() > 0 {
                    assert(reserved.contains(e) ==> reserved[0] == e);
                    assert(reserved.contains(u) ==> reserved[0] == u);
                }
            }
            assert(unknown.contains(u) == !is_type(c.ty)) by {
                if !is_type(c.ty) {
                    assert(unknown[0] == u);
                }
            }
            assert(!unknown.contains(e) && !unknown.contains(r)) by {
                if unknown.len() > 0 {
                    assert(unknown.contains(e) ==> unknown[0] == e);
                    assert(unknown.contains(r) ==> unknown[0] == r);
                }
            }
        }
        if c.imported && name.len() == 0 {
            assert(!head.contains(r) && !head.contains(u)) by {
                assert(head.contains(r) ==> head[0] == r);
                assert(head.contains(u) ==> head[0] == u);
            }
        }
    }
}

/// Every included row's own faults are reported, and only those: an empty
/// name exactly when its name trims to nothing; the row id's name exactly
/// when its name is that, up to case; an unknown type exactly when it has a
/// name and its type is none the import takes. An excluded row draws no
/// issue at all.
pub proof fn lemma_row_issues_reported(cols: Seq<ColumnDraftView>, j: int)
    requires
        0 <= j < cols.len(),
        any_included(cols),
    ensures
        column_issues_of(cols).contains(IssueView::EmptyColumnName { row: j as nat })
            == (cols[j].imported && trim(cols[j].name).len() == 0),
        column_issues_of(cols).contains(IssueView::ReservedColumnName { row: j as nat })
            == (cols[j].imported && trim(cols[j].name).len() > 0
                && ascii_lower(trim(cols[j].name)) == ascii_lower(rowid_name())),
        column_issues_of(cols).contains(IssueView::UnknownType { row: j as nat, ty: cols[j].ty })
            == (cols[j].imported && trim(cols[j].name).len() > 0 && !is_type(cols[j].ty)),
        !cols[j].imported ==> forall|k: int| 0 <= k < column_issues_of(cols).len()
            ==> issue_row(#[trigger] column_issues_of(cols)[k]) != Some(j as nat),
{
    lemma_row_issues_from(cols, 0, Seq::empty(), j);
    if !cols[j].imported {
        lemma_rows_not_excluded(cols, 0, Seq::empty(), j);
    }
}

/// No issue from row `i` on is about an excluded row.
proof fn lemma_rows_not_excluded(cols: Seq<ColumnDraftView>, i: int, seen: Seq<Seq<char>>, j: int)
    requires
        0 <= i,
        0 <= j < cols.len(),
        !cols[j].imported,
    ensures
        forall|k: int| 0 <= k < column_issues_from(cols, i, seen).len()
            ==> issue_row(#[trigger] column_issues_from(cols, i, seen)[k]) != Some(j as nat),
    decreases cols.len() - i,
{
    if i < cols.len() {
        let c = cols[i];
        let name = trim(c.name);
        let folded = ascii_lower(name);
        let next_seen = if !c.imported || name.len() == 0 {
            seen
        } else if seen.contains(folded) {
            seen
        } else {
            seen.push(folded)
        };
        lemma_rows_not_excluded(cols, i + 1, next_seen, j);
        let rest = column_issues_from(cols, i + 1, next_seen);
        let iss = column_issues_from(cols, i, seen);
        if c.imported {
            assert(i != j);
            let head = if name.len() == 0 {
                seq![IssueView::EmptyColumnName { row: i as nat }]
            } else {
                (if folded == ascii_lower(rowid_name()) {
                    seq![IssueView::ReservedColumnName { row: i as nat }]
                } else {
                    Seq::empty()
                }) + (if seen.contains(folded) {
                    seq![IssueView::DuplicateColumnName { row: i as nat, name: name }]
                } else {
                    Seq::empty()
                }) + (if !is_type(c.ty) {
                    seq![IssueView::UnknownType { row: i as nat, ty: c.ty }]
                } else {
                    Seq::empty()
                })
            };
            assert(iss == head + rest);
            assert forall|k: int| 0 <= k < iss.len() implies issue_row(#[trigger] iss[k]) != Some(j as nat) by {
                if k < head.len() {
                    assert(iss[k] == head[k]);
                    assert(issue_row(head[k]) == Some(i as nat));
                } else {
                    assert(iss[k] == rest[k - head.len()]);
                }
            }
        }
    }
}

/// A column's name repeats an earlier one exactly when the import reports
/// it: for every included column with a name, a duplicate is reported at its
/// row, under its trimmed name, exactly when an included column before it
/// has the same trimmed name up to ASCII case.
pub proof fn lemma_duplicate_names_reported(cols: Seq<ColumnDraftView>, j: int)
    requires
        0 <= j < cols.len(),
        cols[j].imported,
        trim(cols[j].name).len() > 0,
    ensures
        dup_at(column_issues_of(cols), j) == named_earlier(cols, j),
        dup_named(column_issues_of(cols), j, trim(cols[j].name)),
{
    assert(any_included(cols));
    assert(seen_before(cols, 0, Seq::empty()));
    lemma_dups_from(cols, 0, Seq::empty(), j);
}

/// The SQL string literal of `s`.
pub open spec fn quoted_str(s: Seq<char>) -> Seq<char> {
    "'"@ + replaced(s, "'"@, "''"@) + "'"@
}

/// The SQL identifier `s`, quoted.
pub open spec fn quoted_ident(s: Seq<char>) -> Seq<char> {
    "\""@ + replaced(s, "\""@, "\"\""@) + "\""@
}

/// `s` as an SQL string literal, quotes doubled.
pub fn quote_str(s: &str) -> (r: String)
    ensures
        r@ == quoted_str(s@),
{
    proof { reveal_strlit("'"); }
    let mut out = String::from_str("'");
    out.append(replace_all(s, "'", "''").as_str());
    out.append("'");
    out
}

/// `s` as a quoted SQL identifier, quotes doubled.
pub fn quote_ident(s: &str) -> (r: String)
    ensures
        r@ == quoted_ident(s@),
{
    proof { reveal_strlit("\""); }
    let mut out = String::from_str("\"");
    out.append(replace_all(s, "\"", "\"\"").as_str());
    out.append("\"");
    out
}

/// The projection of the included columns, each imported under its trimmed
/// name.
pub open spec fn projections(cols: Seq<ColumnDraftView>) -> Seq<Seq<char>>
    decreases cols.len(),
{
    if cols.len() == 0 {
        Seq::empty()
    } else {
        let c = cols.last();
        let rest = projections(cols.drop_last());
        if c.imported {
            rest.push(quoted_ident(c.source) + " AS "@ + quoted_ident(trim(c.name)))
        } else {
            rest
        }
    }
}

/// The file's schema as `read_csv` takes it: every column, included or not,
/// so that no later column shifts.
pub open spec fn schema_entries(cols: Seq<ColumnDraftView>) -> Seq<Seq<char>> {
    cols.map_values(|c: ColumnDraftView| quoted_str(c.source) + ": "@ + quoted_str(c.ty))
}

/// The projections of two runs of columns, one after the other, are those
/// of each, one after the other.
proof fn lemma_projections_append(a: Seq<ColumnDraftView>, b: Seq<ColumnDraftView>)
    ensures
        projections(a + b) == projections(a) + projections(b),
    decreases b.len(),
{
    if b.len() == 0 {
        assert(a + b =~= a);
        assert(projections(a) + projections(b) =~= projections(a));
    } else {
        lemma_projections_append(a, b.drop_last());
        assert((a + b).drop_last() =~= a + b.drop_last());
        assert((a + b).last() == b.last());
        let rest = projections(a) + projections(b.drop_last());
        if b.last().imported {
            let line = quoted_ident(b.last().source) + " AS "@ + quoted_ident(trim(b.last().name));
            assert(rest.push(line) =~= projections(a) + projections(b.drop_last()).push(line));
        }
    }
}

/// Excluding a column keeps it in the file's schema, so no later column
/// shifts, and takes exactly its own line out of the projection.
pub proof fn lemma_excluding_keeps_schema(cols: Seq<ColumnDraftView>, i: int)
    requires
        0 <= i < cols.len(),
        cols[i].imported,
    ensures
        schema_entries(cols.update(i, ColumnDraftView { imported: false, ..cols[i] })) == schema_entries(cols),
        projections(cols) == projections(cols.take(i)).push(
            quoted_ident(cols[i].source) + " AS "@ + quoted_ident(trim(cols[i].name)),
        ) + projections(cols.skip(i + 1)),
        projections(cols.update(i, ColumnDraftView { imported: false, ..cols[i] }))
            == projections(cols.take(i)) + projections(cols.skip(i + 1)),
{
    let c = cols[i];
    let off = ColumnDraftView { imported: false, ..c };
    let u = cols.update(i, off);
    assert(schema_entries(u) =~= schema_entries(cols));
    let a = cols.take(i);
    let b = cols.skip(i + 1);
    assert(cols =~= a.push(c) + b);
    assert(u =~= a.push(off) + b);
    lemma_projections_append(a.push(c), b);
    lemma_projections_append(a.push(off), b);
    assert(a.push(c).drop_last() =~= a);
    assert(a.push(off).drop_last() =~= a);
}

/// `true` or `false`.
pub open spec fn bool_text(b: bool) -> Seq<char> {
    if b { "true"@ } else { "false"@ }
}

/// The import statement of a form.
pub open spec fn read_csv_text(path: Seq<char>, delim: Seq<char>, quote: Seq<char>, header: bool, cols: Seq<ColumnDraftView>) -> Seq<char> {
    "SELECT "@ + joined(projections(cols), ", "@) + " FROM read_csv("@ + quoted_str(path)
        + ", delim = "@ + quoted_str(delim) + ", quote = "@ + quoted_str(quote)
        + ", header = "@ + bool_text(header) + ", columns = {"@
        + joined(schema_entries(cols), ", "@) + "})"@
}

impl WizardModel {
    /// What the form's delimiter, quote and encoding have wrong.
    pub open spec fn spec_dialect_issues(&self) -> Seq<IssueView> {
        dialect_issues_of(self.delimiter@, self.quote@, self.encoding_supported)
    }

    /// What the form's columns have wrong.
    pub open spec fn spec_column_issues(&self) -> Seq<IssueView> {
        column_issues_of(draft_views(self.columns@))
    }

    /// What is wrong at `step`.
    pub open spec fn spec_issues(&self, step: Step) -> Seq<IssueView> {
        match step {
            Step::Dialect => self.spec_dialect_issues(),
            Step::Columns => self.spec_column_issues(),
            Step::Confirm => Seq::empty(),
        }
    }

    /// What is wrong anywhere.
    pub open spec fn spec_all_issues(&self) -> Seq<IssueView> {
        self.spec_dialect_issues() + self.spec_column_issues()
    }

    /// Whether the form may move past its step.
    pub open spec fn spec_can_advance(&self) -> bool {
        step_next(self.step) is Some && self.spec_issues(self.step).len() == 0
    }

    /// Whether the form may import.
    pub open spec fn spec_can_import(&self) -> bool {
        self.step == Step::Confirm && self.spec_all_issues().len() == 0
    }

    /// The import statement of this form, whatever is wrong with it.
    pub open spec fn spec_sql(&self) -> Seq<char> {
        read_csv_text(self.path@, self.delimiter@, self.quote@, self.has_header, draft_views(self.columns@))
    }

    /// The form a sniff of `path` starts: its best delimiter, a double quote,
    /// a header row, every column included under its own name.
    pub fn from_sniff(path: &str, sniff: &SniffSummary, columns: &Vec<(String, String)>) -> (r: Self)
        ensures
            r.path@ == path@,
            r.delimiter@ == seq![sniff.top_delimiter],
            r.quote@ == "\""@,
            r.has_header,
            r.encoding_supported == sniff.encoding_supported,
            r.columns@.len() == columns@.len(),
            forall|i: int| 0 <= i < columns@.len() ==> {
                let c = #[trigger] r.columns@[i];
                &&& c.source@ == columns@[i].0@
                &&& c.name@ == columns@[i].0@
                &&& c.ty@ == draft_type(columns@[i].1@)
                &&& c.imported
            },
            r.step == Step::Dialect,
    {
        let mut drafts: Vec<ColumnDraft> = Vec::new();
        let mut i: usize = 0;
        while i < columns.len()
            invariant
                i <= columns@.len(),
                drafts@.len() == i,
                forall|k: int| 0 <= k < i ==> {
                    let c = #[trigger] drafts@[k];
                    &&& c.source@ == columns@[k].0@
                    &&& c.name@ == columns@[k].0@
                    &&& c.ty@ == draft_type(columns@[k].1@)
                    &&& c.imported
                },
            decreases columns@.len() - i,
        {
            drafts.push(ColumnDraft::new(columns[i].0.as_str(), columns[i].1.as_str()));
            i = i + 1;
        }
        let mut delimiter = String::new();
        crate::text::push_char(&mut delimiter, sniff.top_delimiter);
        assert(delimiter@ =~= seq![sniff.top_delimiter]);
        WizardModel {
            path: string_of(&chars_of(path)),
            delimiter,
            quote: string_of(&chars_of("\"")),
            has_header: true,
            encoding_supported: sniff.encoding_supported,
            columns: drafts,
            step: Step::Dialect,
        }
    }

    /// What the delimiter, quote and encoding have wrong.
    pub fn dialect_issues(&self) -> (r: Vec<Issue>)
        ensures
            issue_views(r@) == self.spec_dialect_issues(),
    {
        let mut out: Vec<Issue> = Vec::new();
        let d = chars_of(self.delimiter.as_str());
        let q = chars_of(self.quote.as_str());
        if d.len() == 0 {
            out.push(Issue::DelimiterEmpty);
        } else if d.len() >= 2 {
            out.push(Issue::DelimiterNotSingleChar);
        }
        let ghost after_d = issue_views(out@);
        if q.len() != 1 {
            out.push(Issue::QuoteNotSingleChar);
        }
        let ghost after_q = issue_views(out@);
        if d.len() != 0 && vec_eq(&d, &q) {
            out.push(Issue::DelimiterEqualsQuote);
        }
        let ghost after_e = issue_views(out@);
        if !self.encoding_supported {
            out.push(Issue::EncodingUnsupported);
        }
        proof {
            let dv = self.delimiter@;
            let qv = self.quote@;
            let ds = if dv.len() == 0 {
                seq![IssueView::DelimiterEmpty]
            } else if dv.len() >= 2 {
                seq![IssueView::DelimiterNotSingleChar]
            } else {
                Seq::empty()
            };
            let qs = if qv.len() != 1 { seq![IssueView::QuoteNotSingleChar] } else { Seq::<IssueView>::empty() };
            let es = if dv.len() != 0 && dv == qv { seq![IssueView::DelimiterEqualsQuote] } else { Seq::<IssueView>::empty() };
            let ns = if !self.encoding_supported { seq![IssueView::EncodingUnsupported] } else { Seq::<IssueView>::empty() };
            assert(after_d =~= ds);
            assert(after_q =~= ds + qs);
            assert(after_e =~= ds + qs + es);
            assert(issue_views(out@) =~= ds + qs + es + ns);
        }
        out
    }

    /// What the columns have wrong.
    pub fn column_issues(&self) -> (r: Vec<Issue>)
        ensures
            issue_views(r@) == self.spec_column_issues(),
    {
        let ghost cols = draft_views(self.columns@);
        let mut out: Vec<Issue> = Vec::new();
        // Any column included?
        let mut any = false;
        let mut j: usize = 0;
        while j < self.columns.len()
            invariant
                j <= self.columns@.len(),
                cols == draft_views(self.columns@),
                any == exists|k: int| 0 <= k < j && (#[trigger] cols[k]).imported,
            decreases self.columns@.len() - j,
        {
            assert(cols[j as int] == self.columns@[j as int]@);
            if self.columns[j].imported {
                any = true;
            }
            j = j + 1;
        }
        if !any {
            out.push(Issue::NoColumnsIncluded);
            assert(issue_views(out@) =~= seq![IssueView::NoColumnsIncluded]);
            return out;
        }
        let rowid = lowered(&chars_of("__dat0_rowid"));
        let mut seen: Vec<Vec<char>> = Vec::new();
        let mut i: usize = 0;
        assert(issue_views(out@) =~= Seq::<IssueView>::empty());
        assert(seen@.map_values(|s: Vec<char>| s@) =~= Seq::<Seq<char>>::empty());
        while i < self.columns.len()
            invariant
                i <= self.columns@.len(),
                cols == draft_views(self.columns@),
                any_included(cols),
                rowid@ == ascii_lower(rowid_name()),
                column_issues_from(cols, 0, Seq::empty())
                    == issue_views(out@) + column_issues_from(cols, i as int, seen@.map_values(|s: Vec<char>| s@)),
            decreases self.columns@.len() - i,
        {
            let ghost seen_v = seen@.map_values(|s: Vec<char>| s@);
            let ghost before = issue_views(out@);
            let c = &self.columns[i];
            assert(cols[i as int] == c@);
            if !c.imported {
                i = i + 1;
                continue;
            }
            let nv = chars_of(c.name.as_str());
            let (a, b) = trim_bounds(&nv);
            if a == b {
                assert(trim(c.name@).len() == 0);
                out.push(Issue::EmptyColumnName { row: i });
                assert(issue_views(out@) =~= before + seq![IssueView::EmptyColumnName { row: i as nat }]);
                i = i + 1;
                continue;
            }
            let name = string_of_range(&nv, a, b);
            let folded = lowered(&chars_of(name.as_str()));
            let reserved = vec_eq(&folded, &rowid);
            if reserved {
                out.push(Issue::ReservedColumnName { row: i });
            }
            let ghost after_r = issue_views(out@);
            // Is the folded name taken already?
            let mut taken = false;
            let mut k: usize = 0;
            while k < seen.len()
                invariant
                    k <= seen@.len(),
                    seen_v == seen@.map_values(|s: Vec<char>| s@),
                    taken == exists|m: int| 0 <= m < k && seen_v[m] == folded@,
                decreases seen@.len() - k,
            {
                assert(seen_v[k as int] == seen@[k as int]@);
                if vec_eq(&seen[k], &folded) {
                    taken = true;
                }
                k = k + 1;
            }
            assert(taken == seen_v.contains(folded@));
            if taken {
                out.push(Issue::DuplicateColumnName { row: i, name: string_of(&chars_of(name.as_str())) });
            } else {
                let fv = string_of(&folded);
                seen.push(chars_of(fv.as_str()));
                assert(seen@.map_values(|s: Vec<char>| s@) =~= seen_v.push(folded@));
            }
            let ghost after_d = issue_views(out@);
            let tv = chars_of(c.ty.as_str());
            let known = is_type_name(&tv);
            if !known {
                out.push(Issue::UnknownType { row: i, ty: c.ty.clone() });
            }
            proof {
                let n = trim(cols[i as int].name);
                let fl = ascii_lower(n);
                assert(n == name@);
                assert(fl == folded@);
                let rs = if fl == ascii_lower(rowid_name()) {
                    seq![IssueView::ReservedColumnName { row: i as nat }]
                } else {
                    Seq::<IssueView>::empty()
                };
                let ds = if seen_v.contains(fl) {
                    seq![IssueView::DuplicateColumnName { row: i as nat, name: n }]
                } else {
                    Seq::<IssueView>::empty()
                };
                let us = if !is_type(cols[i as int].ty) {
                    seq![IssueView::UnknownType { row: i as nat, ty: cols[i as int].ty }]
                } else {
                    Seq::<IssueView>::empty()
                };
                assert(after_r =~= before + rs);
                assert(after_d =~= before + rs + ds);
                assert(issue_views(out@) =~= before + rs + ds + us);
                assert(column_issues_from(cols, i as int, seen_v)
                    == rs + ds + us + column_issues_from(cols, i + 1, seen@.map_values(|s: Vec<char>| s@)));
                assert(issue_views(out@) + column_issues_from(cols, i + 1, seen@.map_values(|s: Vec<char>| s@))
                    =~= before + (rs + ds + us + column_issues_from(cols, i + 1, seen@.map_values(|s: Vec<char>| s@))));
            }
            i = i + 1;
        }
        assert(issue_views(out@) + Seq::<IssueView>::empty() =~= issue_views(out@));
        out
    }

    /// What is wrong at `step`.
    pub fn issues(&self, step: Step) -> (r: Vec<Issue>)
        ensures
            issue_views(r@) == self.spec_issues(step),
    {
        match step {
            Step::Dialect => self.dialect_issues(),
            Step::Columns => self.column_issues(),
            Step::Confirm => {
                let v: Vec<Issue> = Vec::new();
                assert(issue_views(v@) =~= Seq::<IssueView>::empty());
                v
            },
        }
    }

    /// What is wrong anywhere: the dialect's issues, then the columns'.
    pub fn all_issues(&self) -> (r: Vec<Issue>)
        ensures
            issue_views(r@) == self.spec_all_issues(),
    {
        let mut v = self.dialect_issues();
        let mut w = self.column_issues();
        let ghost a = issue_views(v@);
        let ghost b = issue_views(w@);
        v.append(&mut w);
        assert(issue_views(v@) =~= a + b);
        v
    }

    /// Whether the form may move past its step: there is a next one, and
    /// nothing is wrong at this one.
    pub fn can_advance(&self) -> (r: bool)
        ensures
            r == self.spec_can_advance(),
    {
        self.step.next().is_some() && self.issues(self.step).len() == 0
    }

    /// Whether there is a step to go back to.
    pub fn can_go_back(&self) -> (r: bool)
        ensures
            r == (step_prev(self.step) is Some),
    {
        self.step.prev().is_some()
    }

    /// Whether the form may import: on the last step, nothing wrong anywhere.
    pub fn can_import(&self) -> (r: bool)
        ensures
            r == self.spec_can_import(),
    {
        self.step == Step::Confirm && self.all_issues().len() == 0
    }

    /// Move to the next step when the form may; say whether it moved.
    pub fn advance(&mut self) -> (moved: bool)
        ensures
            moved == old(self).spec_can_advance(),
            moved ==> Some(final(self).step) == step_next(old(self).step),
            !moved ==> final(self).step == old(self).step,
            final(self).path == old(self).path,
            final(self).delimiter == old(self).delimiter,
            final(self).quote == old(self).quote,
            final(self).has_header == old(self).has_header,
            final(self).encoding_supported == old(self).encoding_supported,
            final(self).columns == old(self).columns,
    {
        if !self.can_advance() {
            return false;
        }
        match self.step.next() {
            Some(s) => {
                self.step = s;
                true
            },
            None => false,
        }
    }

    /// Move to the previous step when there is one; say whether it moved.
    pub fn go_back(&mut self) -> (moved: bool)
        ensures
            moved == (step_prev(old(self).step) is Some),
            moved ==> Some(final(self).step) == step_prev(old(self).step),
            !moved ==> final(self).step == old(self).step,
            final(self).path == old(self).path,
            final(self).delimiter == old(self).delimiter,
            final(self).quote == old(self).quote,
            final(self).has_header == old(self).has_header,
            final(self).encoding_supported == old(self).encoding_supported,
            final(self).columns == old(self).columns,
    {
        match self.step.prev() {
            Some(s) => {
                self.step = s;
                true
            },
            None => false,
        }
    }

    /// The rows of the columns that are imported, in order.
    pub fn included(&self) -> (r: Vec<usize>)
        ensures
            forall|k: int| 0 <= k < r@.len() ==> (#[trigger] r@[k]) < self.columns@.len() && self.columns@[r@[k] as int].imported,
            forall|i: int| 0 <= i < self.columns@.len() && self.columns@[i].imported ==> r@.contains(i as usize),
            forall|a: int, b: int| 0 <= a < b < r@.len() ==> r@[a] < r@[b],
    {
        let mut out: Vec<usize> = Vec::new();
        let mut i: usize = 0;
        while i < self.columns.len()
            invariant
                i <= self.columns@.len(),
                forall|k: int| 0 <= k < out@.len() ==> (#[trigger] out@[k]) < i && self.columns@[out@[k] as int].imported,
                forall|j: int| 0 <= j < i && self.columns@[j].imported ==> out@.contains(j as usize),
                forall|a: int, b: int| 0 <= a < b < out@.len() ==> out@[a] < out@[b],
            decreases self.columns@.len() - i,
        {
            let ghost old_out = out@;
            if self.columns[i].imported {
                out.push(i);
                assert(out@[out@.len() - 1] == i);
            }
            assert forall|j: int| 0 <= j < i + 1 && self.columns@[j].imported implies out@.contains(j as usize) by {
                if j < i {
                    let k = choose|k: int| 0 <= k < old_out.len() && old_out[k] == j as usize;
                    assert(out@[k] == j as usize);
                } else {
                    assert(out@[out@.len() - 1] == i);
                }
            }
            i = i + 1;
        }
        out
    }

    /// The `read_csv` statement that imports the form, or `None` while
    /// anything is wrong with it.
    pub fn read_csv_sql(&self) -> (r: Option<String>)
        ensures
            r is Some <==> self.spec_all_issues().len() == 0,
            r matches Some(s) ==> s@ == self.spec_sql(),
    {
        if self.all_issues().len() != 0 {
            return None;
        }
        let ghost cols = draft_views(self.columns@);
        let mut proj: Vec<String> = Vec::new();
        let mut schema: Vec<String> = Vec::new();
        let mut i: usize = 0;
        while i < self.columns.len()
            invariant
                i <= self.columns@.len(),
                cols == draft_views(self.columns@),
                views(proj@) == projections(cols.take(i as int)),
                views(schema@) == schema_entries(cols.take(i as int)),
            decreases self.columns@.len() - i,
        {
            let c = &self.columns[i];
            assert(cols[i as int] == c@);
            assert(cols.take(i + 1).drop_last() == cols.take(i as int));
            assert(cols.take(i + 1).last() == c@);
            if c.imported {
                let mut p = quote_ident(c.source.as_str());
                p.append(" AS ");
                let t = crate::text::trimmed(c.name.as_str());
                p.append(quote_ident(t.as_str()).as_str());
                let ghost pv = p@;
                proj.push(p);
                assert(views(proj@) =~= projections(cols.take(i as int)).push(pv));
            } else {
                assert(projections(cols.take(i + 1)) == projections(cols.take(i as int)));
            }
            let mut e = quote_str(c.source.as_str());
            e.append(": ");
            e.append(quote_str(c.ty.as_str()).as_str());
            let ghost ev = e@;
            schema.push(e);
            assert(schema_entries(cols.take(i + 1)) =~= schema_entries(cols.take(i as int)).push(ev));
            assert(views(schema@) =~= schema_entries(cols.take(i as int)).push(ev));
            i = i + 1;
        }
        assert(cols.take(self.columns@.len() as int) == cols);
        let mut s = String::from_str("SELECT ");
        s.append(join(&proj, ", ").as_str());
        s.append(" FROM read_csv(");
        s.append(quote_str(self.path.as_str()).as_str());
        s.append(", delim = ");
        s.append(quote_str(self.delimiter.as_str()).as_str());
        s.append(", quote = ");
        s.append(quote_str(self.quote.as_str()).as_str());
        s.append(", header = ");
        s.append(if self.has_header { "true" } else { "false" });
        s.append(", columns = {");
        s.append(join(&schema, ", ").as_str());
        s.append("})");
        Some(s)
    }
}

/// A form that can import has an import statement: `read_csv_sql` answers
/// `Some` whenever `can_import` says yes.
pub proof fn lemma_importable_form_has_sql(m: WizardModel)
    ensures
        m.spec_can_import() ==> m.spec_all_issues().len() == 0,
{
}

/// Back undoes Next: the step before the step after any step is that step.
pub proof fn lemma_back_undoes_next(s: Step)
    ensures
        step_next(s) matches Some(n) ==> step_prev(n) == Some(s),
{
}

} // verus!
