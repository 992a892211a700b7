//! The AI panel's state: the draft of its settings, the test of the link,
//! and the answer that streams into the console's strip.
//!
//! A test and a stream each carry a load id. Starting another makes the
//! earlier one stale, and whatever a stale one sends back is dropped, so a
//! slow answer never lands over a newer one.

use vstd::prelude::*;
use crate::i18n::Catalog;
use crate::text::{chars_of, string_of};

verus! {

/// `✓ msg` or `✗ msg`.
pub open spec fn result_text(ok: bool, msg: Seq<char>) -> Seq<char> {
    (if ok { "✓ "@ } else { "✗ "@ }) + msg
}

/// A test's outcome as the panel shows it: `✓ msg` or `✗ msg`.
pub fn test_result_message(ok: bool, msg: &str) -> (r: String)
    ensures
        r@ == result_text(ok, msg@),
{
    let mut s = if ok { String::from_str("✓ ") } else { String::from_str("✗ ") };
    s.append(msg);
    s
}

/// The AI providers dat0 can talk to.
#[derive(Clone, Copy, PartialEq, Eq, Debug, Structural)]
pub enum Provider {
    Anthropic,
    OpenAI,
    OpenRouter,
    Custom,
}

/// A provider's id, as the settings file and the catalog keys write it.
pub open spec fn provider_id(p: Provider) -> Seq<char> {
    match p {
        Provider::Anthropic => "anthropic"@,
        Provider::OpenAI => "openai"@,
        Provider::OpenRouter => "openrouter"@,
        Provider::Custom => "custom"@,
    }
}

impl Provider {
    /// The provider's id.
    pub fn id(self) -> (r: &'static str)
        ensures
            r@ == provider_id(self),
    {
        match self {
            Provider::Anthropic => "anthropic",
            Provider::OpenAI => "openai",
            Provider::OpenRouter => "openrouter",
            Provider::Custom => "custom",
        }
    }
}

/// The provider the cycle button moves to: unset and the last one both move
/// to the first.
pub open spec fn provider_after(current: Option<Provider>) -> Provider {
    match current {
        None => Provider::Anthropic,
        Some(Provider::Custom) => Provider::Anthropic,
        Some(Provider::Anthropic) => Provider::OpenAI,
        Some(Provider::OpenAI) => Provider::OpenRouter,
        Some(Provider::OpenRouter) => Provider::Custom,
    }
}

/// The provider the cycle button moves to.
pub fn next_provider(current: Option<Provider>) -> (r: Provider)
    ensures
        r == provider_after(current),
{
    match current {
        None | Some(Provider::Custom) => Provider::Anthropic,
        Some(Provider::Anthropic) => Provider::OpenAI,
        Some(Provider::OpenAI) => Provider::OpenRouter,
        Some(Provider::OpenRouter) => Provider::Custom,
    }
}

/// The provider button's label: `Provider: Anthropic`, or the unset text.
/// Never the key the provider's name is stored under.
pub open spec fn provider_label_text(cat: Catalog, provider: Option<Provider>) -> Seq<char> {
    match provider {
        Some(p) => cat.text("ai.provider"@) + ": "@ + cat.text("ai.provider."@ + provider_id(p)),
        None => cat.text("ai.provider.unset"@),
    }
}

/// The provider button's label.
pub fn provider_label(cat: &Catalog, provider: Option<Provider>) -> (r: String)
    ensures
        r@ == provider_label_text(*cat, provider),
{
    match provider {
        Some(p) => {
            let mut key = String::from_str("ai.provider.");
            key.append(p.id());
            let mut s = cat.t("ai.provider");
            s.append(": ");
            s.append(cat.t(key.as_str()).as_str());
            s
        },
        None => cat.t("ai.provider.unset"),
    }
}

/// The model line: `Model: ` and the chosen model; with none chosen, the
/// chosen provider's suggested model (`hint`) in its place, or the bare
/// label when no provider is chosen either.
pub open spec fn model_line_text(cat: Catalog, model: Seq<char>, hint: Option<Seq<char>>) -> Seq<char> {
    if model.len() == 0 {
        match hint {
            Some(h) => cat.text("ai.model"@) + ": "@ + h,
            None => cat.text("ai.model"@),
        }
    } else {
        cat.text("ai.model"@) + ": "@ + model
    }
}

/// The model line.
pub fn model_line(cat: &Catalog, model: &str, hint: Option<&str>) -> (r: String)
    ensures
        r@ == model_line_text(*cat, model@, match hint { Some(h) => Some(h@), None => None }),
{
    let mut s = cat.t("ai.model");
    if model.unicode_len() == 0 {
        match hint {
            Some(h) => {
                s.append(": ");
                s.append(h);
            },
            None => {},
        }
    } else {
        s.append(": ");
        s.append(model);
    }
    s
}

/// The AI panel's settings as edited: what is shown before anything persists.
#[derive(PartialEq, Eq, Debug)]
pub struct AiDraft {
    pub provider: Option<Provider>,
    /// Whether the keychain holds a key for the provider.
    pub key_set: bool,
    pub model: String,
    pub enabled: bool,
    pub advanced_override: bool,
    pub include_sample_rows: bool,
    /// The last test's outcome, until the next change.
    pub test_result: Option<String>,
}

impl AiDraft {
    /// Nothing chosen, nothing enabled.
    pub fn new() -> (d: Self)
        ensures
            d.provider is None,
            !d.key_set,
            d.model@.len() == 0,
            !d.enabled,
            !d.advanced_override,
            !d.include_sample_rows,
            d.test_result is None,
    {
        AiDraft {
            provider: None,
            key_set: false,
            model: String::new(),
            enabled: false,
            advanced_override: false,
            include_sample_rows: false,
            test_result: None,
        }
    }
}

/// Which value the panel asks the host to prompt for.
#[derive(Clone, Copy, PartialEq, Eq, Debug, Structural)]
pub enum AiEntry {
    Key,
    Model,
}

/// What the user did in the panel.
#[derive(Clone, PartialEq, Eq, Debug)]
pub enum AiPanelEvent {
    SelectProvider(Provider),
    /// A key to store; empty asks the host to prompt for one.
    SetKey(String),
    /// A model to use; empty asks the host to prompt for one.
    SetModel(String),
    ToggleEnabled,
    ToggleAdvancedOverride,
    ToggleIncludeSampleRows,
    TestConnection,
    ForgetKey,
}

/// Which answer streams.
#[derive(Clone, Copy, PartialEq, Eq, Debug, Structural)]
pub enum StreamKind {
    NlToSql,
    Explain,
}

impl StreamKind {
    /// A stable id for the stream's element.
    pub fn id(self) -> (r: &'static str)
        ensures
            r@ == (match self {
                StreamKind::NlToSql => "nl2sql"@,
                StreamKind::Explain => "explain"@,
            }),
    {
        match self {
            StreamKind::NlToSql => "nl2sql",
            StreamKind::Explain => "explain",
        }
    }

    /// The catalog key of the stream's heading.
    pub fn label_key(self) -> (r: &'static str)
        ensures
            r@ == (match self {
                StreamKind::NlToSql => "ai.stream.nl2sql"@,
                StreamKind::Explain => "ai.stream.explain"@,
            }),
    {
        match self {
            StreamKind::NlToSql => "ai.stream.nl2sql",
            StreamKind::Explain => "ai.stream.explain",
        }
    }
}

/// Where a stream is.
#[derive(Clone, Copy, PartialEq, Eq, Debug, Structural)]
pub enum StreamPhase {
    Idle,
    Streaming,
    Done,
    Failed,
}

impl StreamPhase {
    /// A stable id for the phase, as the strip's attribute writes it.
    pub fn id(self) -> (r: &'static str)
        ensures
            r@ == (match self {
                StreamPhase::Idle => "idle"@,
                StreamPhase::Streaming => "streaming"@,
                StreamPhase::Done => "done"@,
                StreamPhase::Failed => "failed"@,
            }),
    {
        match self {
            StreamPhase::Idle => "idle",
            StreamPhase::Streaming => "streaming",
            StreamPhase::Done => "done",
            StreamPhase::Failed => "failed",
        }
    }
}

/// The strip a stream writes into.
#[derive(PartialEq, Eq, Debug)]
pub struct StreamView {
    pub kind: Option<StreamKind>,
    pub prompt: String,
    pub text: String,
    pub phase: StreamPhase,
    pub error: Option<String>,
}

impl StreamView {
    /// An empty, idle strip.
    pub fn new() -> (v: Self)
        ensures
            v.kind is None,
            v.prompt@.len() == 0,
            v.text@.len() == 0,
            v.phase == StreamPhase::Idle,
            v.error is None,
    {
        StreamView { kind: None, prompt: String::new(), text: String::new(), phase: StreamPhase::Idle, error: None }
    }
}

/// A setting the host must persist, or work only it can do.
#[derive(Clone, PartialEq, Eq, Debug)]
pub enum AiEffect {
    /// Nothing outside the panel changes.
    Nothing,
    /// Persist the provider's id, then say through
    /// [`AiState::key_checked`] whether the keychain holds its key.
    Provider(Provider),
    /// Store `key` for the provider, then report through
    /// [`AiState::key_stored`].
    StoreKey(Provider, String),
    /// Forget the provider's stored key.
    ForgetKey(Provider),
    /// Persist the model.
    Model(String),
    /// Persist whether AI is enabled; turned on, the host shows the privacy
    /// notice when it has not been acknowledged.
    Enabled(bool),
    /// Persist the advanced override.
    AdvancedOverride(bool),
    /// Persist whether sample rows may be sent.
    IncludeSampleRows(bool),
    /// Show the privacy notice when it has not been acknowledged; then, for
    /// a provider, read its key and start the test through
    /// [`AiState::begin_test`].
    Test(Option<Provider>),
}

/// The AI panel's state.
#[derive(PartialEq, Eq, Debug)]
pub struct AiState {
    pub draft: AiDraft,
    pub stream: StreamView,
    /// The latest test's id.
    pub test_load_id: u64,
    /// The latest stream's id.
    pub stream_load_id: u64,
    /// The prompt the panel asks the host to open.
    pub entry: Option<AiEntry>,
}

/// Whether the draft allows AI: enabled, a key stored, a model chosen.
pub open spec fn draft_ready(d: AiDraft) -> bool {
    d.enabled && d.key_set && d.model@.len() > 0
}

impl AiState {
    /// A fresh panel.
    pub fn new() -> (s: Self)
        ensures
            s.draft.provider is None,
            !s.draft.key_set,
            !s.draft.enabled,
            s.stream.phase == StreamPhase::Idle,
            s.test_load_id == 0,
            s.stream_load_id == 0,
            s.entry is None,
    {
        AiState { draft: AiDraft::new(), stream: StreamView::new(), test_load_id: 0, stream_load_id: 0, entry: None }
    }

    /// Whether AI can be used: enabled, a key stored, a model chosen.
    pub fn ready(&self) -> (r: bool)
        ensures
            r == draft_ready(self.draft),
    {
        self.draft.enabled && self.draft.key_set && !self.draft.model.as_str().is_empty()
    }

    /// Make any running test stale.
    pub fn invalidate_test(&mut self)
        ensures
            final(self).test_load_id == old(self).test_load_id.wrapping_add(1),
            final(self).draft == old(self).draft,
            final(self).stream == old(self).stream,
            final(self).stream_load_id == old(self).stream_load_id,
            final(self).entry == old(self).entry,
    {
        self.test_load_id = self.test_load_id.wrapping_add(1);
    }

    /// Apply one panel event to the draft, and say what the host must do.
    /// Every event clears the last test's message; every one but a test makes
    /// a running test stale. An empty key or model asks for a prompt instead.
    pub fn handle(&mut self, cat: &Catalog, ev: AiPanelEvent) -> (effect: AiEffect)
        ensures
            final(self).stream == old(self).stream,
            final(self).stream_load_id == old(self).stream_load_id,
            (ev is TestConnection) ==> final(self).test_load_id == old(self).test_load_id,
            !(ev is TestConnection) ==> final(self).test_load_id == old(self).test_load_id.wrapping_add(1),
            match ev {
                AiPanelEvent::SelectProvider(p) => effect == AiEffect::Provider(p)
                    && final(self).draft.provider == Some(p)
                    && final(self).draft.test_result is None
                    && final(self).entry == old(self).entry,
                AiPanelEvent::SetKey(v) => if v@.len() == 0 {
                    effect == AiEffect::Nothing && final(self).entry == Some(AiEntry::Key)
                        && final(self).draft.test_result is None
                } else {
                    final(self).entry == old(self).entry
                        && final(self).draft.test_result is None
                        && (match old(self).draft.provider {
                            Some(p) => match effect {
                                AiEffect::StoreKey(q, k) => q == p && k@ == v@,
                                _ => false,
                            },
                            None => effect == AiEffect::Nothing,
                        })
                },
                AiPanelEvent::SetModel(v) => if v@.len() == 0 {
                    effect == AiEffect::Nothing && final(self).entry == Some(AiEntry::Model)
                        && final(self).draft.model == old(self).draft.model
                } else {
                    (match effect {
                        AiEffect::Model(m) => m@ == v@,
                        _ => false,
                    }) && final(self).draft.model@ == v@ && final(self).entry == old(self).entry
                },
                AiPanelEvent::ToggleEnabled => effect == AiEffect::Enabled(!old(self).draft.enabled)
                    && final(self).draft.enabled == !old(self).draft.enabled,
                AiPanelEvent::ToggleAdvancedOverride => effect == AiEffect::AdvancedOverride(!old(self).draft.advanced_override)
                    && final(self).draft.advanced_override == !old(self).draft.advanced_override,
                AiPanelEvent::ToggleIncludeSampleRows => effect == AiEffect::IncludeSampleRows(!old(self).draft.include_sample_rows)
                    && final(self).draft.include_sample_rows == !old(self).draft.include_sample_rows,
                AiPanelEvent::ForgetKey => !final(self).draft.key_set
                    && (match old(self).draft.provider {
                        Some(p) => effect == AiEffect::ForgetKey(p),
                        None => effect == AiEffect::Nothing,
                    }),
                AiPanelEvent::TestConnection => effect == AiEffect::Test(old(self).draft.provider)
                    && (match old(self).draft.provider {
                        Some(_) => final(self).draft.test_result is None,
                        None => (final(self).draft.test_result matches Some(m)
                            && m@ == result_text(false, cat.text("ai.test.no_provider"@))),
                    }),
            },
            !(ev is SelectProvider) ==> final(self).draft.provider == old(self).draft.provider,
            (ev is SelectProvider || ev is SetKey || ev is ForgetKey)
                || final(self).draft.key_set == old(self).draft.key_set,
            (ev is SetKey) ==> final(self).draft.key_set == old(self).draft.key_set,
            !(ev is SetModel) ==> final(self).draft.model == old(self).draft.model,
            !(ev is ToggleEnabled) ==> final(self).draft.enabled == old(self).draft.enabled,
            !(ev is ToggleAdvancedOverride) ==> final(self).draft.advanced_override == old(self).draft.advanced_override,
            !(ev is ToggleIncludeSampleRows) ==> final(self).draft.include_sample_rows == old(self).draft.include_sample_rows,
            !(ev is TestConnection) ==> final(self).draft.test_result is None,
            !(ev is SetKey || ev is SetModel) ==> final(self).entry == old(self).entry,
    {
        self.draft.test_result = None;
        match ev {
            AiPanelEvent::SelectProvider(p) => {
                self.invalidate_test();
                self.draft.provider = Some(p);
                AiEffect::Provider(p)
            },
            AiPanelEvent::SetKey(value) => {
                self.invalidate_test();
                if value.as_str().is_empty() {
                    self.entry = Some(AiEntry::Key);
                    return AiEffect::Nothing;
                }
                match self.draft.provider {
                    Some(p) => AiEffect::StoreKey(p, value),
                    None => AiEffect::Nothing,
                }
            },
            AiPanelEvent::SetModel(value) => {
                self.invalidate_test();
                if value.as_str().is_empty() {
                    self.entry = Some(AiEntry::Model);
                    return AiEffect::Nothing;
                }
                self.draft.model = value.clone();
                AiEffect::Model(value)
            },
            AiPanelEvent::ToggleEnabled => {
                self.invalidate_test();
                let v = !self.draft.enabled;
                self.draft.enabled = v;
                AiEffect::Enabled(v)
            },
            AiPanelEvent::ToggleAdvancedOverride => {
                self.invalidate_test();
                let v = !self.draft.advanced_override;
                self.draft.advanced_override = v;
                AiEffect::AdvancedOverride(v)
            },
            AiPanelEvent::ToggleIncludeSampleRows => {
                self.invalidate_test();
                let v = !self.draft.include_sample_rows;
                self.draft.include_sample_rows = v;
                AiEffect::IncludeSampleRows(v)
            },
            AiPanelEvent::ForgetKey => {
                self.invalidate_test();
                self.draft.key_set = false;
                match self.draft.provider {
                    Some(p) => AiEffect::ForgetKey(p),
                    None => AiEffect::Nothing,
                }
            },
            AiPanelEvent::TestConnection => {
                match self.draft.provider {
                    Some(p) => AiEffect::Test(Some(p)),
                    None => {
                        let why = cat.t("ai.test.no_provider");
                        self.draft.test_result = Some(test_result_message(false, why.as_str()));
                        AiEffect::Test(None)
                    },
                }
            },
        }
    }

    /// The keychain answered whether it holds a key for `p`: recorded when
    /// `p` is still the chosen provider.
    pub fn key_checked(&mut self, p: Provider, present: bool)
        ensures
            final(self).draft.key_set == (if old(self).draft.provider == Some(p) { present } else { old(self).draft.key_set }),
            final(self).draft.provider == old(self).draft.provider,
            final(self).draft.model == old(self).draft.model,
            final(self).draft.test_result == old(self).draft.test_result,
            final(self).stream == old(self).stream,
            final(self).test_load_id == old(self).test_load_id,
            final(self).stream_load_id == old(self).stream_load_id,
            final(self).entry == old(self).entry,
    {
        if self.draft.provider == Some(p) {
            self.draft.key_set = present;
        }
    }

    /// The keychain stored the key, or said why not.
    pub fn key_stored(&mut self, outcome: Result<(), String>)
        ensures
            outcome is Ok ==> final(self).draft.key_set && final(self).draft.test_result == old(self).draft.test_result,
            outcome matches Err(e) ==> (final(self).draft.key_set == old(self).draft.key_set
                && (final(self).draft.test_result matches Some(m) && m@ == result_text(false, e@))),
            final(self).draft.provider == old(self).draft.provider,
            final(self).draft.model == old(self).draft.model,
            final(self).stream == old(self).stream,
            final(self).test_load_id == old(self).test_load_id,
            final(self).stream_load_id == old(self).stream_load_id,
            final(self).entry == old(self).entry,
    {
        match outcome {
            Ok(()) => self.draft.key_set = true,
            Err(e) => self.draft.test_result = Some(test_result_message(false, e.as_str())),
        }
    }

    /// Start a test, given whether the keychain holds the provider's key:
    /// without one the panel says so; with one, every earlier test is stale
    /// and the new one's id is returned.
    pub fn begin_test(&mut self, cat: &Catalog, key_found: bool) -> (id: Option<u64>)
        ensures
            key_found ==> id == Some(final(self).test_load_id)
                && final(self).test_load_id == old(self).test_load_id.wrapping_add(1)
                && final(self).draft.test_result == old(self).draft.test_result,
            !key_found ==> (id is None
                && final(self).test_load_id == old(self).test_load_id
                && (final(self).draft.test_result matches Some(m)
                && m@ == result_text(false, cat.text("ai.test.no_key"@)))),
            final(self).draft.provider == old(self).draft.provider,
            final(self).draft.key_set == old(self).draft.key_set,
            final(self).stream == old(self).stream,
            final(self).stream_load_id == old(self).stream_load_id,
            final(self).entry == old(self).entry,
    {
        if !key_found {
            let why = cat.t("ai.test.no_key");
            self.draft.test_result = Some(test_result_message(false, why.as_str()));
            return None;
        }
        self.invalidate_test();
        Some(self.test_load_id)
    }

    /// Hand the host the prompt the panel asks for, once.
    pub fn take_entry(&mut self) -> (e: Option<AiEntry>)
        ensures
            e == old(self).entry,
            final(self).entry is None,
            final(self).draft == old(self).draft,
            final(self).stream == old(self).stream,
            final(self).test_load_id == old(self).test_load_id,
            final(self).stream_load_id == old(self).stream_load_id,
    {
        let e = self.entry;
        if e.is_some() {
            self.entry = None;
        }
        e
    }

    /// A test finished: shown only when it is the latest test. Says whether
    /// it was shown.
    pub fn apply_test_result(&mut self, load_id: u64, ok: bool, message: &str) -> (applied: bool)
        ensures
            applied == (load_id == old(self).test_load_id),
            !applied ==> *final(self) == *old(self),
            applied ==> (final(self).draft.test_result matches Some(m) && m@ == result_text(ok, message@)),
            applied ==> final(self).draft.provider == old(self).draft.provider
                && final(self).draft.key_set == old(self).draft.key_set
                && final(self).draft.model == old(self).draft.model
                && final(self).draft.enabled == old(self).draft.enabled,
            final(self).stream == old(self).stream,
            final(self).test_load_id == old(self).test_load_id,
            final(self).stream_load_id == old(self).stream_load_id,
            final(self).entry == old(self).entry,
    {
        if self.test_load_id != load_id {
            return false;
        }
        self.draft.test_result = Some(test_result_message(ok, message));
        true
    }

    /// Start a stream of `kind` for `prompt`: the strip empties and every
    /// earlier stream is stale. Returns the new stream's id.
    pub fn begin_stream(&mut self, kind: StreamKind, prompt: String) -> (id: u64)
        ensures
            id == old(self).stream_load_id.wrapping_add(1),
            final(self).stream_load_id == id,
            final(self).stream.kind == Some(kind),
            final(self).stream.prompt@ == prompt@,
            final(self).stream.text@.len() == 0,
            final(self).stream.phase == StreamPhase::Streaming,
            final(self).stream.error is None,
            final(self).draft == old(self).draft,
            final(self).test_load_id == old(self).test_load_id,
            final(self).entry == old(self).entry,
    {
        let next = self.stream_load_id.wrapping_add(1);
        self.stream_load_id = next;
        self.stream = StreamView {
            kind: Some(kind),
            prompt,
            text: String::new(),
            phase: StreamPhase::Streaming,
            error: None,
        };
        next
    }

    /// A piece of the stream `load_id` arrived: appended when that is the
    /// latest stream, dropped otherwise.
    pub fn push_stream_delta(&mut self, load_id: u64, text: &str)
        ensures
            load_id == old(self).stream_load_id ==> final(self).stream.text@ == old(self).stream.text@ + text@
                && final(self).stream.phase == old(self).stream.phase
                && final(self).stream.kind == old(self).stream.kind
                && final(self).stream.prompt == old(self).stream.prompt
                && final(self).stream.error == old(self).stream.error,
            load_id != old(self).stream_load_id ==> *final(self) == *old(self),
            final(self).draft == old(self).draft,
            final(self).stream_load_id == old(self).stream_load_id,
            final(self).test_load_id == old(self).test_load_id,
            final(self).entry == old(self).entry,
    {
        if self.stream_load_id != load_id {
            return;
        }
        self.stream.text.append(text);
    }

    /// The stream `load_id` ended, failed when `err` says why: recorded when
    /// it is the latest stream.
    pub fn finish_stream(&mut self, load_id: u64, err: Option<String>)
        ensures
            load_id == old(self).stream_load_id ==> final(self).stream.phase == (if err is Some { StreamPhase::Failed } else { StreamPhase::Done })
                && final(self).stream.error == err
                && final(self).stream.text == old(self).stream.text
                && final(self).stream.kind == old(self).stream.kind,
            load_id != old(self).stream_load_id ==> *final(self) == *old(self),
            final(self).draft == old(self).draft,
            final(self).stream_load_id == old(self).stream_load_id,
            final(self).test_load_id == old(self).test_load_id,
            final(self).entry == old(self).entry,
    {
        if self.stream_load_id != load_id {
            return;
        }
        self.stream.phase = if err.is_some() { StreamPhase::Failed } else { StreamPhase::Done };
        self.stream.error = err;
    }

    /// Stop the answer arriving and keep what came: the stream is done, and
    /// pieces still in flight quote a stale id.
    pub fn stop_stream(&mut self)
        ensures
            final(self).stream_load_id == old(self).stream_load_id.wrapping_add(1),
            final(self).stream.phase == StreamPhase::Done,
            final(self).stream.text == old(self).stream.text,
            final(self).stream.kind == old(self).stream.kind,
            final(self).stream.error == old(self).stream.error,
            final(self).draft == old(self).draft,
            final(self).test_load_id == old(self).test_load_id,
            final(self).entry == old(self).entry,
    {
        self.stream_load_id = self.stream_load_id.wrapping_add(1);
        self.stream.phase = StreamPhase::Done;
    }

    /// Close the strip.
    pub fn clear_stream(&mut self)
        ensures
            final(self).stream.phase == StreamPhase::Idle,
            final(self).stream.text@.len() == 0,
            final(self).stream.kind is None,
            final(self).stream_load_id == old(self).stream_load_id,
            final(self).draft == old(self).draft,
            final(self).test_load_id == old(self).test_load_id,
            final(self).entry == old(self).entry,
    {
        self.stream = StreamView::new();
    }
}

/// The AI panel's egress line: `Sent: 1.2 KB`, with a `+` once a channel
/// dat0 cannot meter is open.
pub fn egress_line(cat: &Catalog, total: u64, unmetered: bool) -> (r: String)
    ensures
        r@ == cat.text("ai.egress"@) + " "@ + crate::chrome::sent_text(total as nat, unmetered),
{
    let mut s = cat.t("ai.egress");
    s.append(" ");
    s.append(crate::chrome::sent_figure(total, unmetered).as_str());
    s
}

/// Stopping a stream, or beginning another, makes its id stale: deltas and
/// endings still in flight for it quote an id that is no longer the
/// stream's, and change nothing.
pub proof fn lemma_stopped_stream_ignores_late_deltas(earlier: u64)
    ensures
        earlier.wrapping_add(1) != earlier,
{
}

} // verus!
