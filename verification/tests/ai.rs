use dat0_ui::ai::{
    egress_line, model_line, next_provider, provider_label, test_result_message, AiEffect, AiEntry, AiPanelEvent,
    AiState, Provider, StreamKind, StreamPhase,
};
use dat0_ui::i18n::Catalog;

fn en() -> Catalog {
    let mut c = Catalog::new();
    c.insert("ai.provider", "Provider");
    c.insert("ai.provider.unset", "Provider: not set");
    c.insert("ai.provider.openrouter", "OpenRouter");
    c.insert("ai.test.no_provider", "Choose a provider first");
    c.insert("ai.test.no_key", "No key stored");
    c.insert("ai.egress", "Sent:");
    c
}

#[test]
fn test_result_message_formats() {
    assert_eq!(test_result_message(true, "Connected"), "✓ Connected");
    assert_eq!(test_result_message(false, "401 unauthorized"), "✗ 401 unauthorized");
}

#[test]
fn the_provider_cycle_wraps_and_starts_from_unset() {
    assert_eq!(next_provider(None), Provider::Anthropic);
    assert_eq!(next_provider(Some(Provider::Anthropic)), Provider::OpenAI);
    assert_eq!(next_provider(Some(Provider::OpenAI)), Provider::OpenRouter);
    assert_eq!(next_provider(Some(Provider::OpenRouter)), Provider::Custom);
    assert_eq!(next_provider(Some(Provider::Custom)), Provider::Anthropic);
}

#[test]
fn the_provider_label_falls_back_rather_than_echoing_a_key() {
    let cat = en();
    assert_eq!(provider_label(&cat, None), cat.t("ai.provider.unset"));
    assert!(provider_label(&cat, Some(Provider::OpenRouter)).contains("OpenRouter"));
    assert_eq!(provider_label(&cat, Some(Provider::OpenRouter)), "Provider: OpenRouter");
}

#[test]
fn a_stale_test_result_is_discarded() {
    let cat = en();
    let mut s = AiState::new();
    s.handle(&cat, AiPanelEvent::SelectProvider(Provider::Anthropic));
    s.key_checked(Provider::Anthropic, true);
    let first = s.begin_test(&cat, true).unwrap();
    let second = s.begin_test(&cat, true).unwrap();
    assert!(!s.apply_test_result(first, true, "old"));
    assert_eq!(s.draft.test_result, None);
    assert!(s.apply_test_result(second, true, "Connected"));
    assert_eq!(s.draft.test_result.as_deref(), Some("✓ Connected"));
}

#[test]
fn a_test_without_a_provider_or_key_says_so() {
    let cat = en();
    let mut s = AiState::new();
    assert_eq!(s.handle(&cat, AiPanelEvent::TestConnection), AiEffect::Test(None));
    assert_eq!(s.draft.test_result.as_deref(), Some("✗ Choose a provider first"));
    s.handle(&cat, AiPanelEvent::SelectProvider(Provider::OpenAI));
    assert_eq!(s.handle(&cat, AiPanelEvent::TestConnection), AiEffect::Test(Some(Provider::OpenAI)));
    assert_eq!(s.begin_test(&cat, false), None);
    assert_eq!(s.draft.test_result.as_deref(), Some("✗ No key stored"));
}

#[test]
fn an_empty_key_or_model_asks_for_a_prompt() {
    let cat = en();
    let mut s = AiState::new();
    assert_eq!(s.handle(&cat, AiPanelEvent::SetKey(String::new())), AiEffect::Nothing);
    assert_eq!(s.take_entry(), Some(AiEntry::Key));
    assert_eq!(s.take_entry(), None);
    assert_eq!(s.handle(&cat, AiPanelEvent::SetModel(String::new())), AiEffect::Nothing);
    assert_eq!(s.take_entry(), Some(AiEntry::Model));
}

#[test]
fn a_key_is_stored_for_the_chosen_provider_only() {
    let cat = en();
    let mut s = AiState::new();
    assert_eq!(s.handle(&cat, AiPanelEvent::SetKey("k".into())), AiEffect::Nothing);
    s.handle(&cat, AiPanelEvent::SelectProvider(Provider::Custom));
    assert_eq!(
        s.handle(&cat, AiPanelEvent::SetKey("k".into())),
        AiEffect::StoreKey(Provider::Custom, "k".into())
    );
    s.key_stored(Err("keychain locked".into()));
    assert!(!s.draft.key_set);
    assert_eq!(s.draft.test_result.as_deref(), Some("✗ keychain locked"));
    s.key_stored(Ok(()));
    assert!(s.draft.key_set);
    assert_eq!(s.handle(&cat, AiPanelEvent::ForgetKey), AiEffect::ForgetKey(Provider::Custom));
    assert!(!s.draft.key_set);
}

#[test]
fn ai_is_ready_once_enabled_keyed_and_modelled() {
    let cat = en();
    let mut s = AiState::new();
    s.handle(&cat, AiPanelEvent::SelectProvider(Provider::Anthropic));
    s.key_checked(Provider::Anthropic, true);
    assert!(!s.ready());
    assert_eq!(s.handle(&cat, AiPanelEvent::ToggleEnabled), AiEffect::Enabled(true));
    assert!(!s.ready());
    assert_eq!(s.handle(&cat, AiPanelEvent::SetModel("m".into())), AiEffect::Model("m".into()));
    assert!(s.ready());
    assert_eq!(s.handle(&cat, AiPanelEvent::ToggleAdvancedOverride), AiEffect::AdvancedOverride(true));
    assert_eq!(s.handle(&cat, AiPanelEvent::ToggleIncludeSampleRows), AiEffect::IncludeSampleRows(true));
    s.key_checked(Provider::OpenAI, false);
    assert!(s.ready(), "an answer about another provider changes nothing");
}

#[test]
fn a_stale_stream_never_writes_into_the_strip() {
    let mut s = AiState::new();
    let a = s.begin_stream(StreamKind::Explain, "q".into());
    s.push_stream_delta(a, "SEL");
    let b = s.begin_stream(StreamKind::NlToSql, "p".into());
    s.push_stream_delta(a, "late");
    s.finish_stream(a, Some("boom".into()));
    assert_eq!(s.stream.text, "");
    assert_eq!(s.stream.phase, StreamPhase::Streaming);
    s.push_stream_delta(b, "SELECT");
    s.push_stream_delta(b, " 1");
    s.finish_stream(b, None);
    assert_eq!(s.stream.text, "SELECT 1");
    assert_eq!(s.stream.phase, StreamPhase::Done);
    assert_eq!(s.stream.kind, Some(StreamKind::NlToSql));
}

#[test]
fn stopping_keeps_what_came_and_drops_what_follows() {
    let mut s = AiState::new();
    let a = s.begin_stream(StreamKind::NlToSql, "p".into());
    s.push_stream_delta(a, "SELECT");
    s.stop_stream();
    s.push_stream_delta(a, " more");
    assert_eq!(s.stream.text, "SELECT");
    assert_eq!(s.stream.phase, StreamPhase::Done);
    s.clear_stream();
    assert_eq!(s.stream.phase, StreamPhase::Idle);
    assert_eq!(StreamPhase::Failed.id(), "failed");
    assert_eq!(StreamKind::NlToSql.id(), "nl2sql");
    assert_eq!(StreamKind::Explain.label_key(), "ai.stream.explain");
}

#[test]
fn the_panel_egress_line_names_the_figure() {
    let cat = en();
    assert_eq!(egress_line(&cat, 0, false), "Sent: 0 B");
    assert_eq!(egress_line(&cat, 2048, true), "Sent: 2.0 KB+");
}

#[test]
fn the_model_line_falls_back_to_the_providers_suggestion() {
    let mut cat = Catalog::new();
    cat.insert("ai.model", "Model");
    assert_eq!(model_line(&cat, "duck-7b", Some("duck-13b")), "Model: duck-7b");
    assert_eq!(model_line(&cat, "", Some("duck-13b")), "Model: duck-13b");
    assert_eq!(model_line(&cat, "", None), "Model");
}
