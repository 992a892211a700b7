//! The clipboard: the system's when there is one, else a spare slot inside
//! this process, so a copy can still be pasted back within dat0.
//!
//! On X11 and Wayland the copying process serves the data on request, so the
//! system handle must live as long as the copy should: a [`Board`] is
//! made once and kept.

use vstd::prelude::*;
use crate::tsv::{carried, grid_views, lemma_tsv_round_trip, tsv_cells, tsv_parse, tsv_serialize, tsv_text};

verus! {

#[verifier::external_type_specification]
#[verifier::external_body]
pub struct ExSystemClipboard(arboard::Clipboard);

/// The text last handed to `set_text` through this handle, `None` while none
/// has been.
pub uninterp spec fn handed(cb: arboard::Clipboard) -> Option<Seq<char>>;

/// `arboard::Clipboard::new`, its error dropped: `None` where the desktop
/// offers no clipboard, and which it is, is not stated. A new handle has been
/// handed no text.
#[verifier::external_body]
fn open_system() -> (r: Option<arboard::Clipboard>)
    ensures
        r matches Some(cb) ==> handed(cb) is None,
{
    arboard::Clipboard::new().ok()
}

/// `arboard::Clipboard::set_text`: hands `text` to the desktop and returns
/// whether the desktop took it. The handle then records `text` as the last
/// text handed to it; the answer is the desktop's and is not stated.
#[verifier::external_body]
fn system_set_text(cb: &mut arboard::Clipboard, text: &str) -> (ok: bool)
    ensures
        handed(*final(cb)) == Some(text@),
{
    cb.set_text(text.to_string()).is_ok()
}

/// `arboard::Clipboard::get_text`, its error dropped: `None` when the
/// clipboard is empty or holds no text. What it holds is the desktop's and is
/// not stated; reading hands nothing to the handle.
#[verifier::external_body]
fn system_get_text(cb: &mut arboard::Clipboard) -> (r: Option<String>)
    ensures
        handed(*final(cb)) == handed(*old(cb)),
{
    cb.get_text().ok()
}

/// What a clipboard is to its users: whether a system clipboard backs it,
/// the text last handed to that system clipboard, and, without one, the text
/// the spare slot holds.
pub struct BoardView {
    pub system: bool,
    pub handed: Option<Seq<char>>,
    pub held: Option<Seq<char>>,
}

/// The clipboard after a copy of `t`: with a system clipboard, `t` is the
/// text last handed to it; without one, the spare slot holds `t`.
pub open spec fn stored(v: BoardView, t: Seq<char>) -> BoardView {
    if v.system {
        BoardView { system: true, handed: Some(t), held: v.held }
    } else {
        BoardView { system: false, handed: v.handed, held: Some(t) }
    }
}

/// The clipboard: the system's, or a spare slot when there is none.
pub struct Board {
    system: Option<arboard::Clipboard>,
    spare: Option<String>,
}

impl View for Board {
    type V = BoardView;

    closed spec fn view(&self) -> BoardView {
        BoardView {
            system: self.system is Some,
            handed: match self.system {
                Some(cb) => handed(cb),
                None => None,
            },
            held: match self.spare {
                Some(s) => Some(s@),
                None => None,
            },
        }
    }
}

impl Board {
    /// The system clipboard, or the spare slot where the desktop has none;
    /// either way empty of anything copied here.
    pub fn open() -> (c: Self)
        ensures
            c@.handed is None,
            c@.held is None,
    {
        Board { system: open_system(), spare: None }
    }

    /// A clipboard with no system behind it: copies stay in this process.
    pub fn in_process() -> (c: Self)
        ensures
            !c@.system,
            c@.handed is None,
            c@.held is None,
    {
        Board { system: None, spare: None }
    }

    /// Whether a system clipboard backs this one.
    pub fn has_system(&self) -> (r: bool)
        ensures
            r == self@.system,
    {
        self.system.is_some()
    }
}

/// Put text on the clipboard. Returns whether it landed: without a system
/// clipboard it always does, in the spare slot; with one, the desktop says.
pub fn set_text(board: &mut Board, text: &str) -> (landed: bool)
    ensures
        final(board)@ == stored(old(board)@, text@),
        !old(board)@.system ==> landed,
{
    match board.system.take() {
        Some(mut cb) => {
            let ok = system_set_text(&mut cb, text);
            board.system = Some(cb);
            ok
        },
        None => {
            board.spare = Some(text.to_string());
            true
        },
    }
}

/// Read text from the clipboard: `None` when it is empty or holds no text.
/// Without a system clipboard, what the spare slot holds.
pub fn text(board: &mut Board) -> (r: Option<String>)
    ensures
        final(board)@ == old(board)@,
        !old(board)@.system ==> match r {
            Some(s) => old(board)@.held == Some(s@),
            None => old(board)@.held is None,
        },
{
    match board.system.take() {
        Some(mut cb) => {
            let r = system_get_text(&mut cb);
            board.system = Some(cb);
            r
        },
        None => match &board.spare {
            Some(s) => Some(s.clone()),
            None => None,
        },
    }
}

/// Without a system clipboard, a copy reads back as what was copied, and the
/// board stays without one.
pub proof fn lemma_copy_reads_back(v: BoardView, t: Seq<char>)
    requires
        !v.system,
    ensures
        !stored(v, t).system,
        stored(v, t).held == Some(t),
{
}

/// With a system clipboard, a copy hands the desktop exactly the text copied
/// and leaves the spare slot as it was.
pub proof fn lemma_copy_hands_text(v: BoardView, t: Seq<char>)
    requires
        v.system,
    ensures
        stored(v, t).system,
        stored(v, t).handed == Some(t),
        stored(v, t).held == v.held,
{
}

/// Without a system clipboard, a block of cells copied is pasted back as
/// the same block, for every block its text carries unchanged and whose text
/// is not empty (a lone empty cell pastes as nothing).
pub proof fn lemma_cells_read_back(v: BoardView, g: Seq<Seq<Seq<char>>>)
    requires
        !v.system,
        carried(g),
    ensures
        stored(v, tsv_text(g)).held == Some(tsv_text(g)),
        tsv_cells(tsv_text(g)) == g,
        tsv_text(g).len() > 0 ==> pasted(stored(v, tsv_text(g)).held) == Some(g),
{
    lemma_tsv_round_trip(g);
}

/// Copy a block of cells as tab-separated text, the form every spreadsheet
/// pastes. Returns whether it landed.
pub fn copy_cells(board: &mut Board, grid: &Vec<Vec<String>>) -> (landed: bool)
    ensures
        final(board)@ == stored(old(board)@, tsv_text(grid_views(grid@))),
        !old(board)@.system ==> landed,
{
    let t = tsv_serialize(grid);
    set_text(board, t.as_str())
}

/// The text of an optional string, as its view.
pub open spec fn text_view(t: Option<String>) -> Option<Seq<char>> {
    match t {
        Some(s) => Some(s@),
        None => None,
    }
}

/// The cells of an optional block, as their views.
pub open spec fn block_view(r: Option<Vec<Vec<String>>>) -> Option<Seq<Seq<Seq<char>>>> {
    match r {
        Some(g) => Some(grid_views(g@)),
        None => None,
    }
}

/// The block a clipboard text pastes as: none for no text or an empty one,
/// else its tab-separated cells.
pub open spec fn pasted(t: Option<Seq<char>>) -> Option<Seq<Seq<Seq<char>>>> {
    match t {
        Some(s) => if s.len() == 0 { None } else { Some(tsv_cells(s)) },
        None => None,
    }
}

/// The block that a text read from the clipboard pastes as: `None` for no
/// text or an empty one, else its tab-separated cells.
pub fn cells_of(text: Option<String>) -> (r: Option<Vec<Vec<String>>>)
    ensures
        block_view(r) == pasted(text_view(text)),
{
    match text {
        None => None,
        Some(t) => {
            if t.as_str().unicode_len() == 0 {
                None
            } else {
                Some(tsv_parse(t.as_str()))
            }
        },
    }
}

/// Read the clipboard as a block of cells: the block that the text read
/// pastes as. Without a system clipboard that text is the spare slot's;
/// with one, it is whatever the desktop gave.
pub fn paste_cells(board: &mut Board) -> (r: Option<Vec<Vec<String>>>)
    ensures
        final(board)@ == old(board)@,
        exists|t: Option<Seq<char>>|
            #![trigger pasted(t)]
            block_view(r) == pasted(t) && (!old(board)@.system ==> t == old(board)@.held),
{
    let t = text(board);
    let ghost tv = text_view(t);
    let r = cells_of(t);
    assert(block_view(r) == pasted(tv));
    r
}

} // verus!
