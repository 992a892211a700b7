//! The File → Export… dialog's model: the format and scope radio groups, the
//! file stem and its rules, and the request it hands its caller. The engine's
//! `COPY` and the directory picker stay with the caller.

use vstd::prelude::*;
use crate::i18n::Catalog;
use crate::text::{
    chars_of, concat3, contains_char, any_control, has_char, has_control, trim, trim_bounds,
    string_of_range,
};

verus! {

/// The formats an export writes.
#[derive(Clone, Copy, PartialEq, Eq, Debug, Structural)]
pub enum ExportFormat {
    Csv,
    Json,
    Parquet,
}

/// How much an export writes: the rows in view, or the whole table.
#[derive(Clone, Copy, PartialEq, Eq, Debug, Structural)]
pub enum ExportScope {
    CurrentView,
    FullTable,
}

/// The formats in radio order; the first is the default.
pub open spec fn format_at(ix: int) -> ExportFormat {
    if ix == 0 { ExportFormat::Csv } else if ix == 1 { ExportFormat::Json } else { ExportFormat::Parquet }
}

/// The scopes in radio order; the first is the default.
pub open spec fn scope_at(ix: int) -> ExportScope {
    if ix == 0 { ExportScope::CurrentView } else { ExportScope::FullTable }
}

/// How many formats the radio group offers.
pub const FORMAT_COUNT: usize = 3;
/// How many scopes the radio group offers.
pub const SCOPE_COUNT: usize = 2;

/// The format at `ix` in radio order.
pub fn format_of(ix: usize) -> (f: ExportFormat)
    requires
        ix < FORMAT_COUNT,
    ensures
        f == format_at(ix as int),
{
    if ix == 0 { ExportFormat::Csv } else if ix == 1 { ExportFormat::Json } else { ExportFormat::Parquet }
}

/// The scope at `ix` in radio order.
pub fn scope_of(ix: usize) -> (s: ExportScope)
    requires
        ix < SCOPE_COUNT,
    ensures
        s == scope_at(ix as int),
{
    if ix == 0 { ExportScope::CurrentView } else { ExportScope::FullTable }
}

/// Move an index `delta` steps within `len`, wrapping both ways; an empty
/// group stays at 0.
pub fn cycle_ix(cur: usize, len: usize, delta: isize) -> (r: usize)
    ensures
        len == 0 ==> r == 0,
        len > 0 ==> r == (cur as int + delta as int) % (len as int),
        len > 0 ==> r < len,
{
    if len == 0 {
        return 0;
    }
    let c = cur % len;
    let ghost m = len as int;
    proof {
        vstd::arithmetic::div_mod::lemma_mod_bound(cur as int, m);
    }
    if delta >= 0 {
        let d = (delta as usize) % len;
        proof {
            vstd::arithmetic::div_mod::lemma_mod_bound(delta as int, m);
            vstd::arithmetic::div_mod::lemma_add_mod_noop(cur as int, delta as int, m);
        }
        if c >= len - d {
            proof {
                vstd::arithmetic::div_mod::lemma_mod_sub_multiples_vanish(c + d, m);
                vstd::arithmetic::div_mod::lemma_small_mod((c + d - len) as nat, len as nat);
                assert(-m + (c + d) == c + d - len);
            }
            c - (len - d)
        } else {
            proof {
                vstd::arithmetic::div_mod::lemma_small_mod((c + d) as nat, len as nat);
            }
            c + d
        }
    } else {
        let a: usize = if delta == isize::MIN {
            ((isize::MAX as usize) + 1) % len
        } else {
            ((-delta) as usize) % len
        };
        proof {
            vstd::arithmetic::div_mod::lemma_mod_bound(-(delta as int), m);
            vstd::arithmetic::div_mod::lemma_sub_mod_noop(cur as int, -(delta as int), m);
            assert(a == (-(delta as int)) % m);
        }
        if c >= a {
            proof {
                vstd::arithmetic::div_mod::lemma_small_mod((c - a) as nat, len as nat);
            }
            c - a
        } else {
            proof {
                vstd::arithmetic::div_mod::lemma_mod_add_multiples_vanish(c - a, m);
                vstd::arithmetic::div_mod::lemma_small_mod((c + len - a) as nat, len as nat);
                assert(m + (c - a) == c + len - a);
            }
            c + (len - a)
        }
    }
}

/// The extension a format's files carry.
pub open spec fn extension_text(format: ExportFormat) -> Seq<char> {
    match format {
        ExportFormat::Csv => "csv"@,
        ExportFormat::Json => "json"@,
        ExportFormat::Parquet => "parquet"@,
    }
}

/// The extension a format's files carry.
pub fn extension(format: ExportFormat) -> (r: &'static str)
    ensures
        r@ == extension_text(format),
{
    match format {
        ExportFormat::Csv => "csv",
        ExportFormat::Json => "json",
        ExportFormat::Parquet => "parquet",
    }
}

/// The catalog key naming a format in the radio group.
pub fn format_key(format: ExportFormat) -> (r: &'static str)
    ensures
        r@ == (match format {
            ExportFormat::Csv => "export.format.csv"@,
            ExportFormat::Json => "export.format.json"@,
            ExportFormat::Parquet => "export.format.parquet"@,
        }),
{
    match format {
        ExportFormat::Csv => "export.format.csv",
        ExportFormat::Json => "export.format.json",
        ExportFormat::Parquet => "export.format.parquet",
    }
}

/// The catalog key naming a scope in the radio group.
pub fn scope_key(scope: ExportScope) -> (r: &'static str)
    ensures
        r@ == (match scope {
            ExportScope::CurrentView => "export.scope.current"@,
            ExportScope::FullTable => "export.scope.full"@,
        }),
{
    match scope {
        ExportScope::CurrentView => "export.scope.current",
        ExportScope::FullTable => "export.scope.full",
    }
}

/// The stem the name field starts with.
pub const DEFAULT_STEM: &'static str = "export";

/// Why a file stem was refused.
#[derive(Clone, Copy, PartialEq, Eq, Debug, Structural)]
pub enum NameError {
    /// Nothing but white space.
    Empty,
    /// A `/` or `\`: a file name is a leaf, not a path.
    Separator,
    /// A control character, such as a pasted newline.
    Control,
}

impl NameError {
    /// The catalog key of the message shown under the field.
    pub open spec fn key(self) -> Seq<char> {
        match self {
            NameError::Empty => "export.name.empty"@,
            NameError::Separator => "export.name.separator"@,
            NameError::Control => "export.name.control"@,
        }
    }

    /// The message shown under the field.
    pub fn message(self, cat: &Catalog) -> (r: String)
        ensures
            r@ == cat.text(self.key()),
    {
        match self {
            NameError::Empty => cat.t("export.name.empty"),
            NameError::Separator => cat.t("export.name.separator"),
            NameError::Control => cat.t("export.name.control"),
        }
    }
}

/// What a stem is refused for, checked on its trimmed form: emptiness first,
/// then a separator, then a control character.
pub open spec fn stem_error(stem: Seq<char>) -> Option<NameError> {
    let t = trim(stem);
    if t.len() == 0 {
        Some(NameError::Empty)
    } else if has_char(t, '/') || has_char(t, '\\') {
        Some(NameError::Separator)
    } else if has_control(t) {
        Some(NameError::Control)
    } else {
        None
    }
}

/// Check a file stem; trimmed, because the trimmed form is what
/// [`file_name`] builds with.
pub fn validate_stem(stem: &str) -> (r: Result<(), NameError>)
    ensures
        r is Ok <==> stem_error(stem@) is None,
        r matches Err(e) ==> stem_error(stem@) == Some(e),
{
    let v = chars_of(stem);
    let (a, b) = trim_bounds(&v);
    let t = string_of_range(&v, a, b);
    let tv = chars_of(t.as_str());
    if tv.len() == 0 {
        return Err(NameError::Empty);
    }
    if contains_char(&tv, '/') || contains_char(&tv, '\\') {
        return Err(NameError::Separator);
    }
    if any_control(&tv) {
        return Err(NameError::Control);
    }
    Ok(())
}

/// The file name a stem and a format give: the trimmed stem, a dot, the
/// format's extension.
pub open spec fn file_name_text(stem: Seq<char>, format: ExportFormat) -> Seq<char> {
    trim(stem) + "."@ + extension_text(format)
}

/// The file name a stem and a format give.
pub fn file_name(stem: &str, format: ExportFormat) -> (r: String)
    ensures
        r@ == file_name_text(stem@, format),
{
    let v = chars_of(stem);
    let (a, b) = trim_bounds(&v);
    let t = string_of_range(&v, a, b);
    concat3(t.as_str(), ".", extension(format))
}

/// A file in a directory: the directory, a `/` unless it ends with one, and
/// the name; an empty directory is the current one.
pub open spec fn joined_path(dir: Seq<char>, name: Seq<char>) -> Seq<char> {
    if dir.len() == 0 {
        name
    } else if dir.last() == '/' {
        dir + name
    } else {
        dir + "/"@ + name
    }
}

/// A file in a directory.
pub fn join_path(dir: &str, name: &str) -> (r: String)
    ensures
        r@ == joined_path(dir@, name@),
{
    let d = chars_of(dir);
    if d.len() == 0 {
        return name.to_string();
    }
    proof { reveal_strlit(""); }
    if d[d.len() - 1] == '/' {
        concat3(dir, name, "")
    } else {
        concat3(dir, "/", name)
    }
}

/// What the dialog asks its caller to write.
#[derive(PartialEq, Eq, Debug)]
pub struct ExportRequest {
    pub scope: ExportScope,
    pub format: ExportFormat,
    /// The destination directory joined with the file name.
    pub path: String,
}

/// The dialog's state: the selected format and scope, the stem typed, and
/// the directory the caller's picker chose, if any yet.
pub struct ExportForm {
    format_ix: usize,
    scope_ix: usize,
    stem: String,
    destination: Option<String>,
}

impl ExportForm {
    /// Both selections are always in their groups.
    #[verifier::type_invariant]
    spec fn in_range(&self) -> bool {
        self.format_ix < FORMAT_COUNT && self.scope_ix < SCOPE_COUNT
    }

    /// The position of the selected format in the format group.
    pub closed spec fn format_index(&self) -> int {
        self.format_ix as int
    }

    /// The position of the selected scope in the scope group.
    pub closed spec fn scope_index(&self) -> int {
        self.scope_ix as int
    }

    /// The stem as typed.
    pub closed spec fn stem_text(&self) -> Seq<char> {
        self.stem@
    }

    /// The directory chosen, if any yet.
    pub closed spec fn destination_text(&self) -> Option<Seq<char>> {
        match self.destination {
            Some(d) => Some(d@),
            None => None,
        }
    }

    /// A new dialog: CSV, the rows in view, the default stem, no directory.
    pub fn new() -> (f: Self)
        ensures
            f.format_index() == 0,
            f.scope_index() == 0,
            f.stem_text() == DEFAULT_STEM@,
            f.destination_text() is None,
    {
        ExportForm { format_ix: 0, scope_ix: 0, stem: DEFAULT_STEM.to_string(), destination: None }
    }

    /// The stem as typed.
    pub fn stem(&self) -> (r: &str)
        ensures
            r@ == self.stem_text(),
    {
        self.stem.as_str()
    }

    /// The user typed a new stem.
    pub fn set_stem(&mut self, stem: &str)
        ensures
            final(self).stem_text() == stem@,
            final(self).format_index() == old(self).format_index(),
            final(self).scope_index() == old(self).scope_index(),
            final(self).destination_text() == old(self).destination_text(),
    {
        proof { use_type_invariant(&*self); }
        self.stem = stem.to_string();
    }

    /// The caller's picker chose a directory.
    pub fn set_destination(&mut self, dir: &str)
        ensures
            final(self).destination_text() == Some(dir@),
            final(self).format_index() == old(self).format_index(),
            final(self).scope_index() == old(self).scope_index(),
            final(self).stem_text() == old(self).stem_text(),
    {
        proof { use_type_invariant(&*self); }
        self.destination = Some(dir.to_string());
    }

    /// The selected format.
    pub fn format(&self) -> (f: ExportFormat)
        ensures
            f == format_at(self.format_index()),
    {
        proof { use_type_invariant(self); }
        format_of(self.format_ix)
    }

    /// The selected scope.
    pub fn scope(&self) -> (s: ExportScope)
        ensures
            s == scope_at(self.scope_index()),
    {
        proof { use_type_invariant(self); }
        scope_of(self.scope_ix)
    }

    /// An arrow key on the format group: the selection moves, wrapping.
    pub fn step_format(&mut self, delta: isize)
        ensures
            final(self).format_index() == (old(self).format_index() + delta as int) % (FORMAT_COUNT as int),
            final(self).scope_index() == old(self).scope_index(),
            final(self).stem_text() == old(self).stem_text(),
            final(self).destination_text() == old(self).destination_text(),
    {
        proof { use_type_invariant(&*self); }
        self.format_ix = cycle_ix(self.format_ix, FORMAT_COUNT, delta);
    }

    /// An arrow key on the scope group: the selection moves, wrapping.
    pub fn step_scope(&mut self, delta: isize)
        ensures
            final(self).scope_index() == (old(self).scope_index() + delta as int) % (SCOPE_COUNT as int),
            final(self).format_index() == old(self).format_index(),
            final(self).stem_text() == old(self).stem_text(),
            final(self).destination_text() == old(self).destination_text(),
    {
        proof { use_type_invariant(&*self); }
        self.scope_ix = cycle_ix(self.scope_ix, SCOPE_COUNT, delta);
    }

    /// Whether Export is enabled: a directory is chosen and the stem passes.
    pub fn ready(&self) -> (r: bool)
        ensures
            r == (self.destination_text() is Some && stem_error(self.stem_text()) is None),
    {
        self.destination.is_some() && validate_stem(self.stem.as_str()).is_ok()
    }

    /// The request Export hands the caller: `None` while there is no
    /// directory or the stem is refused.
    pub fn submit(&self) -> (r: Option<ExportRequest>)
        ensures
            r is Some <==> (self.destination_text() is Some && stem_error(self.stem_text()) is None),
            r matches Some(req) ==> (req.format == format_at(self.format_index())
                && req.scope == scope_at(self.scope_index())
                && (self.destination_text() matches Some(d)
                && req.path@ == joined_path(d, file_name_text(self.stem_text(), req.format)))),
    {
        match &self.destination {
            None => None,
            Some(dir) => {
                if validate_stem(self.stem.as_str()).is_err() {
                    return None;
                }
                let format = self.format();
                let name = file_name(self.stem.as_str(), format);
                Some(ExportRequest { scope: self.scope(), format, path: join_path(dir.as_str(), name.as_str()) })
            },
        }
    }
}

/// The name a request writes always carries its format's extension, for
/// every stem the dialog accepts.
pub proof fn lemma_name_carries_format(stem: Seq<char>, format: ExportFormat)
    ensures
        file_name_text(stem, format).subrange(
            file_name_text(stem, format).len() - extension_text(format).len(),
            file_name_text(stem, format).len() as int,
        ) == extension_text(format),
{
    let n = file_name_text(stem, format);
    assert(n.subrange(n.len() - extension_text(format).len(), n.len() as int) =~= extension_text(format));
}

/// A step back undoes a step forward in a radio group, and the other way
/// round: the selection comes back to where it was.
pub proof fn lemma_step_back_undoes_step(c: int, n: int)
    requires
        0 <= c < n,
    ensures
        (((c + 1) % n) - 1) % n == c,
        (((c - 1) % n) + 1) % n == c,
{
    vstd::arithmetic::div_mod::lemma_small_mod(c as nat, n as nat);
    if n == 1 {
        vstd::arithmetic::div_mod::lemma_mod_bound(((c + 1) % n) - 1, n);
        vstd::arithmetic::div_mod::lemma_mod_bound(((c - 1) % n) + 1, n);
    } else {
        vstd::arithmetic::div_mod::lemma_small_mod(1nat, n as nat);
        vstd::arithmetic::div_mod::lemma_sub_mod_noop(c + 1, 1, n);
        vstd::arithmetic::div_mod::lemma_add_mod_noop(c - 1, 1, n);
    }
}

} // verus!
