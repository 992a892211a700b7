use dat0_ui::ai::{AiEntry, AiPanelEvent, StreamKind};
use dat0_ui::ai_flow::{
    console_step, entry_answer, question_step, unfence, warns_volatile, ConsoleAsk, ConsoleStep,
};

#[test]
fn a_fenced_answer_gives_its_block_and_a_bare_one_itself() {
    assert_eq!(unfence("  SELECT 1  "), "SELECT 1");
    assert_eq!(
        unfence("Here it is:\n```sql\nSELECT 42 AS answer\n```\nEnjoy."),
        "SELECT 42 AS answer"
    );
    assert_eq!(unfence("```\nSELECT 1\n```"), "SELECT 1");
    assert_eq!(unfence("```sql\nSELECT 2"), "SELECT 2", "a stopped answer");
}

#[test]
fn a_fence_with_no_line_after_it_holds_nothing() {
    assert_eq!(unfence("```sql"), "");
    assert_eq!(unfence("a ``` b"), "");
}

#[test]
fn a_prompt_answer_is_trimmed_and_a_blank_one_dropped() {
    assert_eq!(entry_answer(AiEntry::Key, "  sk-1  "), Some(AiPanelEvent::SetKey("sk-1".into())));
    assert_eq!(entry_answer(AiEntry::Model, "gpt"), Some(AiPanelEvent::SetModel("gpt".into())));
    assert_eq!(entry_answer(AiEntry::Key, "   "), None);
}

#[test]
fn only_a_stored_key_without_a_keychain_warns() {
    assert!(warns_volatile(AiEntry::Key, true, true));
    assert!(!warns_volatile(AiEntry::Key, false, true));
    assert!(!warns_volatile(AiEntry::Key, true, false));
    assert!(!warns_volatile(AiEntry::Model, true, true));
}

#[test]
fn the_console_hands_each_ask_on() {
    assert_eq!(console_step(ConsoleAsk::AskAi), ConsoleStep::PromptQuestion);
    assert_eq!(console_step(ConsoleAsk::Explain { sql: "  ".into() }), ConsoleStep::Nothing);
    assert_eq!(
        console_step(ConsoleAsk::Explain { sql: "select 1".into() }),
        ConsoleStep::Stream { kind: StreamKind::Explain, prompt: "select 1".into() }
    );
    assert_eq!(
        console_step(ConsoleAsk::InsertGenerated { sql: "```sql\nselect 2\n```".into() }),
        ConsoleStep::OpenTab { sql: "select 2".into() }
    );
    assert_eq!(console_step(ConsoleAsk::CloseExplain), ConsoleStep::Clear);
    assert_eq!(console_step(ConsoleAsk::StopStream), ConsoleStep::Stop);
    assert_eq!(question_step("".into()), ConsoleStep::Nothing);
    assert_eq!(
        question_step("top customers".into()),
        ConsoleStep::Stream { kind: StreamKind::NlToSql, prompt: "top customers".into() }
    );
}
