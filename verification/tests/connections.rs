use dat0_ui::connections::{
    md_actions, route, status_dot_class, status_label, Attachment, AttachmentKind, ConnectionStatus,
    Connections, ConnectionsEvent, Outcome, Precheck, ProbeId, SqliteAttachment,
};
use dat0_ui::i18n::Catalog;

#[test]
fn a_stale_connect_result_is_discarded() {
    let mut c = Connections::new();
    let first = c.begin_probe();
    let second = c.begin_probe();
    assert!(!c.finish_connect(first, ConnectionStatus::Connected, vec!["db".into()]));
    assert_eq!(c.md_status(), &ConnectionStatus::Disconnected);
    assert!(c.md_databases().is_empty());
    assert!(c.finish_connect(second, ConnectionStatus::Connected, vec!["db".into()]));
    assert_eq!(c.md_status(), &ConnectionStatus::Connected);
    assert_eq!(c.md_databases(), &["db".to_string()]);
}

#[test]
fn databases_go_when_the_link_does() {
    let mut c = Connections::new();
    let p = c.begin_probe();
    assert!(c.finish_connect(p, ConnectionStatus::Connected, vec!["a".into(), "b".into()]));
    c.set_md_status(ConnectionStatus::Connecting);
    assert!(c.md_databases().is_empty());
}

#[test]
fn a_failed_connect_lists_nothing() {
    let mut c = Connections::new();
    let p = c.begin_probe();
    assert!(c.finish_connect(p, ConnectionStatus::Error("no".into()), vec!["a".into()]));
    assert!(c.md_databases().is_empty());
    c.fail("offline");
    assert_eq!(c.md_status(), &ConnectionStatus::Error("offline".into()));
    assert!(!c.is_current(p));
}

#[test]
fn a_probe_keeps_its_message_until_anything_changes() {
    let mut c = Connections::new();
    let p = c.begin_probe();
    assert!(c.finish_probe(p, ConnectionStatus::Connected, vec![], "ok".into()));
    assert_eq!(c.md_test_result(), Some("ok"));
    let _ = c.begin_probe();
    assert_eq!(c.md_test_result(), None);
    assert!(!c.finish_probe(p, ConnectionStatus::Connected, vec![], "late".into()));
    assert_eq!(c.md_test_result(), None);
}

#[test]
fn routing_a_connect_follows_the_precheck() {
    let mut c = Connections::new();
    assert_eq!(route(&mut c, ConnectionsEvent::ConnectMd, Precheck::NeedToken), Outcome::NeedToken);
    assert_eq!(c.md_status(), &ConnectionStatus::Disconnected);
    let out = route(&mut c, ConnectionsEvent::TestMd, Precheck::Ready("tok".into()));
    assert_eq!(c.md_status(), &ConnectionStatus::Connecting);
    match out {
        Outcome::Test { token, probe } => {
            assert_eq!(token, "tok");
            assert!(c.is_current(probe));
        }
        other => panic!("{other:?}"),
    }
    let out = route(&mut c, ConnectionsEvent::ConnectMd, Precheck::Ready("tok".into()));
    assert!(matches!(out, Outcome::Connect { .. }));
    assert_eq!(
        route(&mut c, ConnectionsEvent::ConnectMd, Precheck::Failed("locked".into())),
        Outcome::Done
    );
    assert_eq!(c.md_status(), &ConnectionStatus::Error("locked".into()));
}

#[test]
fn routing_disconnect_forget_attach_and_detach() {
    let mut c = Connections::new();
    c.add_sqlite("a", "/x/a.sqlite");
    c.add_sqlite("b", "/x/b.sqlite");
    c.add_sqlite("a", "/y/a.sqlite");
    assert_eq!(route(&mut c, ConnectionsEvent::AttachSqlite, Precheck::NeedToken), Outcome::Browse);
    assert_eq!(
        route(&mut c, ConnectionsEvent::Detach("a".into()), Precheck::NeedToken),
        Outcome::Detach { alias: "a".into() }
    );
    assert_eq!(
        c.sqlite(),
        &[SqliteAttachment { alias: "b".into(), path: "/x/b.sqlite".into() }]
    );
    assert_eq!(route(&mut c, ConnectionsEvent::DisconnectMd, Precheck::NeedToken), Outcome::Disconnected);
    assert_eq!(route(&mut c, ConnectionsEvent::ForgetMd, Precheck::NeedToken), Outcome::Forgotten);
    assert_eq!(c.md_status(), &ConnectionStatus::Disconnected);
}

#[test]
fn every_event_makes_the_running_probe_stale() {
    let mut c = Connections::new();
    let p = c.begin_probe();
    route(&mut c, ConnectionsEvent::AttachSqlite, Precheck::NeedToken);
    assert!(!c.is_current(p));
    assert_ne!(p, ProbeId(0));
}

#[test]
fn only_sqlite_attachments_are_files() {
    let sq = Attachment { alias: "s".into(), kind: AttachmentKind::Sqlite { path: "/s.db".into() } };
    let md = Attachment { alias: "m".into(), kind: AttachmentKind::MotherDuck };
    assert_eq!(
        SqliteAttachment::from_core(&sq),
        Some(SqliteAttachment { alias: "s".into(), path: "/s.db".into() })
    );
    assert_eq!(SqliteAttachment::from_core(&md), None);
}

#[test]
fn each_link_state_has_its_label_and_dot() {
    let mut cat = Catalog::new();
    cat.insert("connections.md.status.connected", "Connected");
    assert_eq!(status_label(&cat, &ConnectionStatus::Connected), "Connected");
    assert_eq!(
        status_label(&cat, &ConnectionStatus::Connecting),
        "connections.md.status.connecting"
    );
    assert_eq!(status_dot_class(&ConnectionStatus::Connected), "d0-dot is-live");
    assert_eq!(status_dot_class(&ConnectionStatus::Connecting), "d0-dot is-busy");
    assert_eq!(status_dot_class(&ConnectionStatus::Error("x".into())), "d0-dot is-error");
    assert_eq!(status_dot_class(&ConnectionStatus::Disconnected), "d0-dot");
}

#[test]
fn each_link_state_offers_its_own_buttons() {
    let ids = |s: &ConnectionStatus| -> Vec<(&'static str, bool, ConnectionsEvent)> {
        md_actions(s).into_iter().map(|b| (b.id, b.primary, b.event)).collect()
    };
    assert_eq!(
        ids(&ConnectionStatus::Disconnected),
        vec![
            ("connections-md-connect", true, ConnectionsEvent::ConnectMd),
            ("connections-md-test", false, ConnectionsEvent::TestMd),
        ]
    );
    assert!(md_actions(&ConnectionStatus::Connecting).is_empty());
    assert_eq!(
        ids(&ConnectionStatus::Connected),
        vec![
            ("connections-md-disconnect", false, ConnectionsEvent::DisconnectMd),
            ("connections-md-forget", false, ConnectionsEvent::ForgetMd),
            ("connections-md-test", false, ConnectionsEvent::TestMd),
        ]
    );
    let failed = md_actions(&ConnectionStatus::Error("no network".into()));
    assert_eq!(failed.len(), 1);
    assert_eq!(failed[0].id, "connections-md-retry");
    assert_eq!(failed[0].label_key, "connections.md.retry");
    assert!(failed[0].primary);
    assert_eq!(failed[0].event, ConnectionsEvent::ConnectMd);
}
