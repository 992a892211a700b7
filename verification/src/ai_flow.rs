//! How the AI panel and the console hand work to each other: the answer a
//! prompt modal brings back, and the statement inside an answer.

use vstd::prelude::*;
use crate::ai::{AiEntry, AiPanelEvent, StreamKind};
use crate::text::{chars_of, find, first_index_of, string_of_range, trim, trimmed};

verus! {

/// The fence that opens and closes a block in an answer.
pub open spec fn fence() -> Seq<char> {
    seq!['`', '`', '`']
}

/// The statement in an answer: the first fenced block's body (after the
/// fence's line, up to the closing fence or the end) when there is one, the
/// whole answer otherwise; trimmed.
pub open spec fn unfenced(a: Seq<char>) -> Seq<char> {
    match first_index_of(a, fence()) {
        None => trim(a),
        Some(o) => {
            let body = a.skip(o + 3);
            let body = match first_index_of(body, seq!['\n']) {
                Some(n) => body.skip(n + 1),
                None => Seq::empty(),
            };
            let body = match first_index_of(body, fence()) {
                Some(c) => body.take(c),
                None => body,
            };
            trim(body)
        },
    }
}

/// The statement in an answer.
pub fn unfence(answer: &str) -> (r: String)
    ensures
        r@ == unfenced(answer@),
{
    let v = chars_of(answer);
    let mut f: Vec<char> = Vec::new();
    f.push('`');
    f.push('`');
    f.push('`');
    assert(f@ =~= fence());
    let start = match find(&v, &f) {
        None => return trimmed(answer),
        Some(o) => o,
    };
    let n = v.len();
    assert(start + 3 <= n);
    let after = string_of_range(&v, start + 3, n);
    let av = chars_of(after.as_str());
    assert(av@ =~= v@.skip(start + 3));
    let mut nl: Vec<char> = Vec::new();
    nl.push('\n');
    assert(nl@ =~= seq!['\n']);
    let body = match find(&av, &nl) {
        Some(n) => string_of_range(&av, n + 1, av.len()),
        None => String::new(),
    };
    let bv = chars_of(body.as_str());
    proof {
        if let Some(n) = first_index_of(av@, seq!['\n']) {
            assert(bv@ =~= av@.skip(n + 1));
        }
    }
    let inner = match find(&bv, &f) {
        Some(c) => string_of_range(&bv, 0, c),
        None => body,
    };
    proof {
        if let Some(c) = first_index_of(bv@, fence()) {
            assert(inner@ =~= bv@.take(c));
        }
    }
    trimmed(inner.as_str())
}

/// What a prompt for a key or a model answers the panel with: the value
/// trimmed, and nothing when that leaves it empty.
pub fn entry_answer(entry: AiEntry, value: &str) -> (r: Option<AiPanelEvent>)
    ensures
        trim(value@).len() == 0 ==> r is None,
        trim(value@).len() > 0 ==> (match entry {
            AiEntry::Key => r matches Some(AiPanelEvent::SetKey(k)) && k@ == trim(value@),
            AiEntry::Model => r matches Some(AiPanelEvent::SetModel(m)) && m@ == trim(value@),
        }),
{
    let v = trimmed(value);
    if v.as_str().unicode_len() == 0 {
        return None;
    }
    match entry {
        AiEntry::Key => Some(AiPanelEvent::SetKey(v)),
        AiEntry::Model => Some(AiPanelEvent::SetModel(v)),
    }
}

/// Whether storing a key warns that it will not outlive the session: only a
/// key, only stored, and only where the keychain is not available.
pub fn warns_volatile(entry: AiEntry, volatile: bool, key_set: bool) -> (r: bool)
    ensures
        r == (entry == AiEntry::Key && volatile && key_set),
{
    match entry {
        AiEntry::Key => volatile && key_set,
        AiEntry::Model => false,
    }
}

/// What the console asked of the AI.
#[derive(Clone, PartialEq, Eq, Debug)]
pub enum ConsoleAsk {
    AskAi,
    Explain { sql: String },
    StopStream,
    InsertGenerated { sql: String },
    DiscardStream,
    CloseExplain,
}

/// What the shell does for it.
#[derive(Clone, PartialEq, Eq, Debug)]
pub enum ConsoleStep {
    /// Prompt for a question, to stream SQL for it.
    PromptQuestion,
    /// Stream an answer of this kind to this prompt.
    Stream { kind: StreamKind, prompt: String },
    /// Stop the stream, keeping what came.
    Stop,
    /// Open a console tab holding this statement, and close the strip.
    OpenTab { sql: String },
    /// Close the strip.
    Clear,
    /// Nothing: an explanation of blank SQL.
    Nothing,
}

/// What the shell does for what the console asked.
pub fn console_step(ask: ConsoleAsk) -> (r: ConsoleStep)
    ensures
        ask == ConsoleAsk::AskAi ==> r == ConsoleStep::PromptQuestion,
        ask matches ConsoleAsk::Explain { sql } ==> (if trim(sql@).len() == 0 {
            r == ConsoleStep::Nothing
        } else {
            r == (ConsoleStep::Stream { kind: StreamKind::Explain, prompt: sql })
        }),
        ask == ConsoleAsk::StopStream ==> r == ConsoleStep::Stop,
        ask matches ConsoleAsk::InsertGenerated { sql } ==> (r matches ConsoleStep::OpenTab { sql: t } && t@ == unfenced(sql@)),
        (ask == ConsoleAsk::DiscardStream || ask == ConsoleAsk::CloseExplain) ==> r == ConsoleStep::Clear,
{
    match ask {
        ConsoleAsk::AskAi => ConsoleStep::PromptQuestion,
        ConsoleAsk::Explain { sql } => {
            let t = trimmed(sql.as_str());
            if t.as_str().unicode_len() == 0 {
                ConsoleStep::Nothing
            } else {
                ConsoleStep::Stream { kind: StreamKind::Explain, prompt: sql }
            }
        },
        ConsoleAsk::StopStream => ConsoleStep::Stop,
        ConsoleAsk::InsertGenerated { sql } => ConsoleStep::OpenTab { sql: unfence(sql.as_str()) },
        ConsoleAsk::DiscardStream | ConsoleAsk::CloseExplain => ConsoleStep::Clear,
    }
}

/// What a question prompt's answer starts: a stream of SQL for a question
/// that is not blank.
pub fn question_step(question: String) -> (r: ConsoleStep)
    ensures
        trim(question@).len() == 0 ==> r == ConsoleStep::Nothing,
        trim(question@).len() > 0 ==> r == (ConsoleStep::Stream { kind: StreamKind::NlToSql, prompt: question }),
{
    let t = trimmed(question.as_str());
    if t.as_str().unicode_len() == 0 {
        ConsoleStep::Nothing
    } else {
        ConsoleStep::Stream { kind: StreamKind::NlToSql, prompt: question }
    }
}

} // verus!
