//! The connections panel's state: the MotherDuck link, and the SQLite files
//! attached beside it.
//!
//! Every connect or test carries a [`ProbeId`]. Anything that changes what a
//! probe was answering — another probe, a disconnect, a failure — takes a new
//! id, so a reply to an older probe is discarded rather than shown over the
//! state the user has since moved to.

use vstd::prelude::*;
use crate::i18n::Catalog;
use crate::text::{chars_of, string_of, str_eq};

verus! {

/// The MotherDuck link's state.
#[derive(Debug, Clone, PartialEq, Eq)]
pub enum ConnectionStatus {
    Disconnected,
    Connecting,
    Connected,
    Error(String),
}

/// What a link state holds.
pub enum StatusView {
    Disconnected,
    Connecting,
    Connected,
    Error(Seq<char>),
}

impl View for ConnectionStatus {
    type V = StatusView;

    open spec fn view(&self) -> StatusView {
        match self {
            ConnectionStatus::Disconnected => StatusView::Disconnected,
            ConnectionStatus::Connecting => StatusView::Connecting,
            ConnectionStatus::Connected => StatusView::Connected,
            ConnectionStatus::Error(m) => StatusView::Error(m@),
        }
    }
}

impl ConnectionStatus {
    /// A copy of this state.
    pub fn duplicate(&self) -> (r: Self)
        ensures
            r@ == self@,
    {
        match self {
            ConnectionStatus::Disconnected => ConnectionStatus::Disconnected,
            ConnectionStatus::Connecting => ConnectionStatus::Connecting,
            ConnectionStatus::Connected => ConnectionStatus::Connected,
            ConnectionStatus::Error(m) => ConnectionStatus::Error(m.clone()),
        }
    }
}

/// How an attachment reaches its data.
#[derive(Debug, Clone, PartialEq, Eq)]
pub enum AttachmentKind {
    Sqlite { path: String },
    MotherDuck,
}

/// A database attached to the session.
#[derive(Debug, Clone, PartialEq, Eq)]
pub struct Attachment {
    pub alias: String,
    pub kind: AttachmentKind,
}

/// A SQLite file attached to the session.
#[derive(Debug, PartialEq, Eq)]
pub struct SqliteAttachment {
    pub alias: String,
    pub path: String,
}

impl SqliteAttachment {
    /// The SQLite file an attachment reaches, or `None` for MotherDuck.
    pub fn from_core(att: &Attachment) -> (r: Option<Self>)
        ensures
            (att.kind is Sqlite) <==> r is Some,
            r matches Some(s) ==> s.alias@ == att.alias@ && s.path@ == att.kind->path@,
    {
        match &att.kind {
            AttachmentKind::Sqlite { path } => Some(SqliteAttachment {
                alias: att.alias.clone(),
                path: path.clone(),
            }),
            AttachmentKind::MotherDuck => None,
        }
    }
}

/// Names one connect or test.
#[derive(Debug, Clone, Copy, PartialEq, Eq, Structural)]
pub struct ProbeId(pub u64);

/// The panel's state.
#[derive(Debug, PartialEq)]
pub struct Connections {
    md: ConnectionStatus,
    md_databases: Vec<String>,
    md_test_result: Option<String>,
    sqlite: Vec<SqliteAttachment>,
    probe: u64,
}

/// The aliases and paths of a list of attachments.
pub open spec fn attachment_views(v: Seq<SqliteAttachment>) -> Seq<(Seq<char>, Seq<char>)> {
    v.map_values(|a: SqliteAttachment| (a.alias@, a.path@))
}

/// `v` without the entries named `alias`, the rest in order.
pub open spec fn without_alias(v: Seq<(Seq<char>, Seq<char>)>, alias: Seq<char>) -> Seq<(Seq<char>, Seq<char>)>
    decreases v.len(),
{
    if v.len() == 0 {
        v
    } else if v.last().0 == alias {
        without_alias(v.drop_last(), alias)
    } else {
        without_alias(v.drop_last(), alias).push(v.last())
    }
}

impl Connections {
    /// The link state.
    pub closed spec fn status(&self) -> StatusView {
        self.md@
    }

    /// The databases the link lists.
    pub closed spec fn databases(&self) -> Seq<Seq<char>> {
        crate::text::views(self.md_databases@)
    }

    /// The last test's message, until anything changes.
    pub closed spec fn test_result(&self) -> Option<Seq<char>> {
        match self.md_test_result {
            Some(m) => Some(m@),
            None => None,
        }
    }

    /// The attached SQLite files, as (alias, path).
    pub closed spec fn files(&self) -> Seq<(Seq<char>, Seq<char>)> {
        attachment_views(self.sqlite@)
    }

    /// The current probe's number.
    pub closed spec fn current(&self) -> u64 {
        self.probe
    }

    /// Databases are listed only while connected.
    #[verifier::type_invariant]
    spec fn lists_only_when_connected(&self) -> bool {
        self.md_databases@.len() > 0 ==> self.md is Connected
    }

    /// Disconnected, nothing listed, nothing attached.
    pub fn new() -> (c: Self)
        ensures
            c.status() is Disconnected,
            c.databases().len() == 0,
            c.test_result() is None,
            c.files().len() == 0,
            c.current() == 0,
    {
        Connections {
            md: ConnectionStatus::Disconnected,
            md_databases: Vec::new(),
            md_test_result: None,
            sqlite: Vec::new(),
            probe: 0,
        }
    }

    /// The link state.
    pub fn md_status(&self) -> (r: &ConnectionStatus)
        ensures
            r@ == self.status(),
    {
        &self.md
    }

    /// Set the link state; a link that is not connected lists no databases.
    pub fn set_md_status(&mut self, s: ConnectionStatus)
        ensures
            final(self).status() == s@,
            final(self).databases() == (if s@ is Connected { old(self).databases() } else { Seq::empty() }),
            final(self).test_result() == old(self).test_result(),
            final(self).files() == old(self).files(),
            final(self).current() == old(self).current(),
    {
        let connected = match s {
            ConnectionStatus::Connected => true,
            _ => false,
        };
        if !connected {
            self.md_databases = Vec::new();
            assert(crate::text::views(self.md_databases@) =~= Seq::<Seq<char>>::empty());
        }
        self.md = s;
    }

    /// The databases the link lists: some only while connected.
    pub fn md_databases(&self) -> (r: &[String])
        ensures
            crate::text::views(r@) == self.databases(),
            self.databases().len() > 0 ==> self.status() is Connected,
    {
        proof { use_type_invariant(self); }
        self.md_databases.as_slice()
    }

    /// The last test's message.
    pub fn md_test_result(&self) -> (r: Option<&str>)
        ensures
            r matches Some(m) ==> self.test_result() == Some(m@),
            r is None ==> self.test_result() is None,
    {
        match &self.md_test_result {
            Some(m) => Some(m.as_str()),
            None => None,
        }
    }

    /// The attached SQLite files.
    pub fn sqlite(&self) -> (r: &[SqliteAttachment])
        ensures
            attachment_views(r@) == self.files(),
    {
        self.sqlite.as_slice()
    }

    /// Attach a SQLite file under `alias`.
    pub fn add_sqlite(&mut self, alias: &str, path: &str)
        ensures
            final(self).files() == old(self).files().push((alias@, path@)),
            final(self).status() == old(self).status(),
            final(self).databases() == old(self).databases(),
            final(self).test_result() == old(self).test_result(),
            final(self).current() == old(self).current(),
    {
        proof { use_type_invariant(&*self); }
        let mut list: Vec<SqliteAttachment> = Vec::new();
        std::mem::swap(&mut list, &mut self.sqlite);
        list.push(SqliteAttachment {
            alias: string_of(&chars_of(alias)),
            path: string_of(&chars_of(path)),
        });
        self.sqlite = list;
        assert(attachment_views(self.sqlite@) =~= attachment_views(old(self).sqlite@).push((alias@, path@)));
    }

    /// Detach every file attached under `alias`.
    pub fn remove_attachment(&mut self, alias: &str)
        ensures
            final(self).files() == without_alias(old(self).files(), alias@),
            final(self).status() == old(self).status(),
            final(self).databases() == old(self).databases(),
            final(self).test_result() == old(self).test_result(),
            final(self).current() == old(self).current(),
    {
        proof { use_type_invariant(&*self); }
        let mut kept: Vec<SqliteAttachment> = Vec::new();
        let ghost all = attachment_views(self.sqlite@);
        let mut old_list: Vec<SqliteAttachment> = Vec::new();
        std::mem::swap(&mut old_list, &mut self.sqlite);
        assert(attachment_views(old_list@) == all);
        let mut i: usize = 0;
        while i < old_list.len()
            invariant
                i <= old_list@.len(),
                all == attachment_views(old_list@),
                attachment_views(kept@) == without_alias(all.take(i as int), alias@),
            decreases old_list@.len() - i,
        {
            let a = &old_list[i];
            assert(all.take(i + 1).drop_last() == all.take(i as int));
            assert(all.take(i + 1).last() == (a.alias@, a.path@));
            if !str_eq(a.alias.as_str(), alias) {
                let ghost before = attachment_views(kept@);
                kept.push(SqliteAttachment { alias: a.alias.clone(), path: a.path.clone() });
                assert(attachment_views(kept@) =~= before.push((a.alias@, a.path@)));
            }
            i = i + 1;
        }
        assert(all.take(old_list@.len() as int) == all);
        self.sqlite = kept;
    }

    /// The link failed: whatever probe was running is stale, and the state
    /// says why.
    pub fn fail(&mut self, message: &str)
        ensures
            final(self).status() == StatusView::Error(message@),
            final(self).databases().len() == 0,
            final(self).test_result() is None,
            final(self).files() == old(self).files(),
            final(self).current() == old(self).current().wrapping_add(1),
    {
        self.invalidate();
        self.set_md_status(ConnectionStatus::Error(string_of(&chars_of(message))));
    }

    fn invalidate(&mut self) -> (id: ProbeId)
        ensures
            final(self).current() == old(self).current().wrapping_add(1),
            id.0 == final(self).current(),
            final(self).test_result() is None,
            final(self).status() == old(self).status(),
            final(self).databases() == old(self).databases(),
            final(self).files() == old(self).files(),
    {
        proof { use_type_invariant(&*self); }
        self.md_test_result = None;
        self.probe = self.probe.wrapping_add(1);
        ProbeId(self.probe)
    }

    /// Start a probe: every earlier one is stale from now on.
    pub fn begin_probe(&mut self) -> (id: ProbeId)
        ensures
            final(self).current() == old(self).current().wrapping_add(1),
            id.0 == final(self).current(),
            final(self).test_result() is None,
            final(self).status() == old(self).status(),
            final(self).databases() == old(self).databases(),
            final(self).files() == old(self).files(),
    {
        self.invalidate()
    }

    /// Whether `id` names the latest probe.
    pub fn is_current(&self, id: ProbeId) -> (r: bool)
        ensures
            r == (id.0 == self.current()),
    {
        id.0 == self.probe
    }

    /// A connect finished. Applied only when `id` is the latest probe: the
    /// link takes `status`, and lists `databases` when that is connected.
    /// Says whether it was applied.
    pub fn finish_connect(&mut self, id: ProbeId, status: ConnectionStatus, databases: Vec<String>) -> (applied: bool)
        ensures
            applied == (id.0 == old(self).current()),
            !applied ==> *final(self) == *old(self),
            applied ==> final(self).status() == status@,
            applied ==> final(self).databases() == (if status@ is Connected { crate::text::views(databases@) } else { Seq::empty() }),
            final(self).test_result() == old(self).test_result(),
            final(self).files() == old(self).files(),
            final(self).current() == old(self).current(),
    {
        if !self.is_current(id) {
            return false;
        }
        let connected = match status {
            ConnectionStatus::Connected => true,
            _ => false,
        };
        self.set_md_status(status);
        if connected {
            self.md_databases = databases;
        }
        true
    }

    /// A test finished: as [`Connections::finish_connect`], and the test's
    /// message is kept when it was applied.
    pub fn finish_probe(
        &mut self,
        id: ProbeId,
        status: ConnectionStatus,
        databases: Vec<String>,
        message: String,
    ) -> (applied: bool)
        ensures
            applied == (id.0 == old(self).current()),
            !applied ==> *final(self) == *old(self),
            applied ==> final(self).status() == status@,
            applied ==> final(self).databases() == (if status@ is Connected { crate::text::views(databases@) } else { Seq::empty() }),
            applied ==> final(self).test_result() == Some(message@),
            final(self).files() == old(self).files(),
            final(self).current() == old(self).current(),
    {
        if !self.finish_connect(id, status, databases) {
            return false;
        }
        proof { use_type_invariant(&*self); }
        self.md_test_result = Some(message);
        true
    }
}

/// What the user asked the panel to do.
#[derive(Clone, Debug, PartialEq, Eq)]
pub enum ConnectionsEvent {
    ConnectMd,
    DisconnectMd,
    ForgetMd,
    TestMd,
    AttachSqlite,
    Detach(String),
}

/// What the token store's precheck found before a connect or a test.
#[derive(Clone, Debug, PartialEq, Eq)]
pub enum Precheck {
    /// No token is stored: the user must give one.
    NeedToken,
    /// A token is stored.
    Ready(String),
    /// The store could not be read; why.
    Failed(String),
}

/// What the host must do after an event.
#[derive(Debug, Clone, PartialEq, Eq)]
pub enum Outcome {
    Done,
    NeedToken,
    Connect { token: String, probe: ProbeId },
    Test { token: String, probe: ProbeId },
    Disconnected,
    /// Disconnected, and the host must also forget the stored token; a store
    /// that refuses to forget leaves the panel disconnected all the same.
    Forgotten,
    Detach { alias: String },
    Browse,
}

/// Decide one event. Every event makes the running probe stale. A connect or
/// a test goes by what the token store's precheck found (`pre`, read only
/// for those two): without a token, ask for one; with one, connect or test
/// under the new probe; when the store failed, the link shows why. A
/// disconnect or a forget disconnects, and a forget also tells the host to
/// forget the stored token; a detach drops the alias; attaching asks for a
/// file.
pub fn route(state: &mut Connections, ev: ConnectionsEvent, pre: Precheck) -> (out: Outcome)
    ensures
        final(state).current() == old(state).current().wrapping_add(1),
        match ev {
            ConnectionsEvent::ConnectMd | ConnectionsEvent::TestMd => match pre {
                Precheck::NeedToken => out == Outcome::NeedToken
                    && final(state).status() == old(state).status(),
                Precheck::Ready(token) => final(state).status() is Connecting
                    && final(state).databases().len() == 0
                    && (match out {
                        Outcome::Connect { token: t, probe } => ev is ConnectMd && t@ == token@
                            && probe.0 == final(state).current(),
                        Outcome::Test { token: t, probe } => ev is TestMd && t@ == token@
                            && probe.0 == final(state).current(),
                        _ => false,
                    }),
                Precheck::Failed(why) => out == Outcome::Done
                    && final(state).status() == StatusView::Error(why@),
            },
            ConnectionsEvent::DisconnectMd | ConnectionsEvent::ForgetMd => out == (if ev is ForgetMd {
                Outcome::Forgotten
            } else {
                Outcome::Disconnected
            }) && final(state).status() is Disconnected
                && final(state).databases().len() == 0,
            ConnectionsEvent::AttachSqlite => out == Outcome::Browse
                && final(state).status() == old(state).status(),
            ConnectionsEvent::Detach(alias) => (match out {
                Outcome::Detach { alias: a } => a@ == alias@,
                _ => false,
            }) && final(state).files() == without_alias(old(state).files(), alias@)
                && final(state).status() == old(state).status(),
        },
        !(ev is Detach) ==> final(state).files() == old(state).files(),
        final(state).test_result() is None,
{
    let probe = state.invalidate();
    match ev {
        ConnectionsEvent::ConnectMd | ConnectionsEvent::TestMd => {
            let testing = match ev {
                ConnectionsEvent::TestMd => true,
                _ => false,
            };
            match pre {
                Precheck::NeedToken => Outcome::NeedToken,
                Precheck::Ready(token) => {
                    state.set_md_status(ConnectionStatus::Connecting);
                    if testing {
                        Outcome::Test { token, probe }
                    } else {
                        Outcome::Connect { token, probe }
                    }
                },
                Precheck::Failed(why) => {
                    state.set_md_status(ConnectionStatus::Error(why));
                    Outcome::Done
                },
            }
        },
        ConnectionsEvent::DisconnectMd => {
            state.set_md_status(ConnectionStatus::Disconnected);
            Outcome::Disconnected
        },
        ConnectionsEvent::ForgetMd => {
            state.set_md_status(ConnectionStatus::Disconnected);
            Outcome::Forgotten
        },
        ConnectionsEvent::AttachSqlite => Outcome::Browse,
        ConnectionsEvent::Detach(alias) => {
            state.remove_attachment(alias.as_str());
            Outcome::Detach { alias }
        },
    }
}

/// The catalog key of each link state's label.
pub open spec fn status_key(s: StatusView) -> Seq<char> {
    match s {
        StatusView::Disconnected => "connections.md.status.disconnected"@,
        StatusView::Connecting => "connections.md.status.connecting"@,
        StatusView::Connected => "connections.md.status.connected"@,
        StatusView::Error(_) => "connections.md.status.error"@,
    }
}

/// The link state's label.
pub fn status_label(cat: &Catalog, s: &ConnectionStatus) -> (r: String)
    ensures
        r@ == cat.text(status_key(s@)),
{
    match s {
        ConnectionStatus::Disconnected => cat.t("connections.md.status.disconnected"),
        ConnectionStatus::Connecting => cat.t("connections.md.status.connecting"),
        ConnectionStatus::Connected => cat.t("connections.md.status.connected"),
        ConnectionStatus::Error(_) => cat.t("connections.md.status.error"),
    }
}

/// The class of the link state's dot.
pub fn status_dot_class(s: &ConnectionStatus) -> (r: &'static str)
    ensures
        r@ == (match s@ {
            StatusView::Connected => "d0-dot is-live"@,
            StatusView::Connecting => "d0-dot is-busy"@,
            StatusView::Error(_) => "d0-dot is-error"@,
            StatusView::Disconnected => "d0-dot"@,
        }),
{
    match s {
        ConnectionStatus::Connected => "d0-dot is-live",
        ConnectionStatus::Connecting => "d0-dot is-busy",
        ConnectionStatus::Error(_) => "d0-dot is-error",
        ConnectionStatus::Disconnected => "d0-dot",
    }
}

/// A probe begun after another makes the earlier one's answer stale: its id
/// is never the latest once another probe has begun, so `finish_connect`
/// and `finish_probe` leave the state as it was.
pub proof fn lemma_newer_probe_outdates_older(earlier: u64)
    ensures
        earlier.wrapping_add(1) != earlier,
{
}

/// One of the MotherDuck section's buttons: its element id, the catalog key
/// of its label, whether it is the primary one, and what pressing it asks.
pub struct MdButton {
    pub id: &'static str,
    pub label_key: &'static str,
    pub primary: bool,
    pub event: ConnectionsEvent,
}

impl View for MdButton {
    type V = (Seq<char>, Seq<char>, bool, ConnectionsEvent);

    open spec fn view(&self) -> (Seq<char>, Seq<char>, bool, ConnectionsEvent) {
        (self.id@, self.label_key@, self.primary, self.event)
    }
}

/// The buttons each link state offers, in order. Disconnected: connect
/// (primary) and test the stored token. Connecting: none, since any action
/// would race the attach in flight. Connected: disconnect, forget and test.
/// Failed: retry (primary), which connects again.
pub open spec fn md_buttons(s: StatusView) -> Seq<(Seq<char>, Seq<char>, bool, ConnectionsEvent)> {
    match s {
        StatusView::Disconnected => seq![
            ("connections-md-connect"@, "connections.md.connect"@, true, ConnectionsEvent::ConnectMd),
            ("connections-md-test"@, "connections.md.test"@, false, ConnectionsEvent::TestMd),
        ],
        StatusView::Connecting => Seq::empty(),
        StatusView::Connected => seq![
            ("connections-md-disconnect"@, "connections.md.disconnect"@, false, ConnectionsEvent::DisconnectMd),
            ("connections-md-forget"@, "connections.md.forget"@, false, ConnectionsEvent::ForgetMd),
            ("connections-md-test"@, "connections.md.test"@, false, ConnectionsEvent::TestMd),
        ],
        StatusView::Error(_) => seq![
            ("connections-md-retry"@, "connections.md.retry"@, true, ConnectionsEvent::ConnectMd),
        ],
    }
}

fn md_button(id: &'static str, label_key: &'static str, primary: bool, event: ConnectionsEvent) -> (b: MdButton)
    ensures
        b@ == (id@, label_key@, primary, event),
{
    MdButton { id, label_key, primary, event }
}

/// The buttons a link state offers, in order.
pub fn md_actions(s: &ConnectionStatus) -> (r: Vec<MdButton>)
    ensures
        r@.map_values(|b: MdButton| b@) == md_buttons(s@),
{
    let mut v: Vec<MdButton> = Vec::new();
    match s {
        ConnectionStatus::Disconnected => {
            v.push(md_button("connections-md-connect", "connections.md.connect", true, ConnectionsEvent::ConnectMd));
            v.push(md_button("connections-md-test", "connections.md.test", false, ConnectionsEvent::TestMd));
        },
        ConnectionStatus::Connecting => {},
        ConnectionStatus::Connected => {
            v.push(md_button("connections-md-disconnect", "connections.md.disconnect", false, ConnectionsEvent::DisconnectMd));
            v.push(md_button("connections-md-forget", "connections.md.forget", false, ConnectionsEvent::ForgetMd));
            v.push(md_button("connections-md-test", "connections.md.test", false, ConnectionsEvent::TestMd));
        },
        ConnectionStatus::Error(_) => {
            v.push(md_button("connections-md-retry", "connections.md.retry", true, ConnectionsEvent::ConnectMd));
        },
    }
    assert(v@.map_values(|b: MdButton| b@) =~= md_buttons(s@));
    v
}

} // verus!
