use delta_core::application::catalog::{
    read_catalog, CatalogRejection, ConnectorCatalogManifest, CONNECTOR_CATALOG_VERSION,
};
use delta_core::application::{
    ApplicationAuthority, ApplicationStore, ConnectorSpec, ConnectorState,
};
use delta_core::json::Json;
use delta_core::strmap::StrMap;

fn fields(pairs: &[(&str, &str)]) -> StrMap<String> {
    let mut map = StrMap::new();
    for (k, v) in pairs {
        map.insert(k.to_string(), v.to_string());
    }
    map
}

fn store() -> ApplicationStore {
    ApplicationStore::new(ApplicationAuthority::empty())
}

fn foundation() -> Vec<ConnectorSpec> {
    read_catalog(Vec::new()).0
}

fn get<'a>(row: &'a Json, key: &str) -> Option<&'a Json> {
    row.get(key)
}

fn text(row: &Json, key: &str) -> Option<String> {
    row.get(key).and_then(|v| v.as_str()).map(str::to_string)
}

/// Whether any string inside `value` (keys included) contains `needle`.
fn mentions(value: &Json, needle: &str) -> bool {
    match value {
        Json::String(s) => s.contains(needle),
        Json::Array(items) => items.iter().any(|item| mentions(item, needle)),
        Json::Object(members) => members
            .iter()
            .any(|(k, v)| k.contains(needle) || mentions(v, needle)),
        _ => false,
    }
}

fn spec(name: &str, title: &str, detail: &str) -> ConnectorSpec {
    let mut spec = ConnectorSpec::named(name.to_string(), title.to_string());
    spec.ui.detail = detail.to_string();
    spec
}

fn manifest(source: &str, connectors: Vec<ConnectorSpec>) -> ConnectorCatalogManifest {
    ConnectorCatalogManifest {
        version: CONNECTOR_CATALOG_VERSION,
        source: source.to_string(),
        connectors,
    }
}

fn names(rows: &[Json]) -> Vec<String> {
    rows.iter().filter_map(|row| text(row, "name")).collect()
}

#[test]
fn connector_secrets_never_cross_the_product_boundary() {
    let catalog = foundation();
    let mut store = store();
    store.connect(&catalog, "email", fields(&[("token", "secret-value")]));
    let rows = store.connectors(&catalog);
    assert!(!rows.iter().any(|row| mentions(row, "secret-value")));
    assert!(store.connected_names().contains(&"email".to_string()));
}

#[test]
fn capability_secret_keys_require_canonical_dot_syntax() {
    let catalog = foundation();
    let mut store = store();
    store.connect(&catalog, "email", fields(&[("token", "secret-value")]));
    let resolved = store.resolve_capability_secrets(&vec![
        "email.token".to_string(),
        "email:token".to_string(),
    ]);
    assert_eq!(
        resolved.get("email.token").map(String::as_str),
        Some("secret-value")
    );
    assert!(!resolved.contains_key("email:token"));
}

#[test]
fn subscriptions_are_idempotent_and_removable() {
    let mut store = store();
    store.subscribe("s1", "slack:C1");
    store.subscribe("s1", "slack:C1");
    assert_eq!(store.authority.state.subscriptions.len(), 1);
    assert_eq!(
        store
            .unsubscribe("s1", "slack:C1")
            .get("removed")
            .and_then(Json::as_bool),
        Some(true)
    );
}

#[test]
fn connect_and_disconnect_commit_state_and_secrets_together() {
    let catalog = foundation();
    let mut store = store();
    store.connect(&catalog, "email", fields(&[("token", "secret-value")]));
    assert!(store.authority.state.connectors.get("email").unwrap().connected);
    assert_eq!(
        store
            .authority
            .secrets
            .get("email")
            .unwrap()
            .get("token")
            .map(String::as_str),
        Some("secret-value")
    );

    store.disconnect("email");
    assert!(!store.authority.state.connectors.contains_key("email"));
    assert!(!store.authority.secrets.contains_key("email"));
}

#[test]
fn foundation_catalog_contains_only_generic_email_by_default() {
    let catalog = foundation();
    let rows = store().connectors(&catalog);
    assert_eq!(rows.len(), 1);
    assert_eq!(text(&rows[0], "name").as_deref(), Some("email"));
    assert_eq!(text(&rows[0], "auth").as_deref(), Some("app_password"));
    match get(&rows[0], "fields") {
        Some(Json::Array(items)) => assert!(!items.is_empty()),
        other => panic!("fields must be an array, got {:?}", other),
    }
}

#[test]
fn extension_catalog_is_loaded_without_exposing_secrets() {
    let mut suite_chat = spec("suite_chat", "Suite Chat", "accounts");
    suite_chat.logo = "suite-chat".to_string();
    suite_chat.blurb = "Extension-owned connector".to_string();
    suite_chat.auth = "token".to_string();
    suite_chat.brand_color = "#123456".to_string();
    suite_chat.two_way = true;
    suite_chat.channels = true;
    suite_chat.fields = vec![Json::Object(vec![
        ("key".to_string(), Json::String("token".to_string())),
        ("label".to_string(), Json::String("Token".to_string())),
        ("required".to_string(), Json::Bool(true)),
        ("secret".to_string(), Json::Bool(true)),
    ])];
    let (catalog, rejected) = read_catalog(vec![(
        "test-extension".to_string(),
        manifest("test-extension", vec![suite_chat]),
    )]);
    assert!(rejected.is_empty());
    let mut store = store();
    store.connect(&catalog, "suite_chat", fields(&[("token", "top-secret")]));
    let rows = store.connectors(&catalog);
    let row = rows
        .iter()
        .find(|row| text(row, "name").as_deref() == Some("suite_chat"))
        .expect("extension connector in catalog");
    assert_eq!(text(row, "brand_color").as_deref(), Some("#123456"));
    assert_eq!(get(row, "two_way").and_then(Json::as_bool), Some(true));
    assert_eq!(
        get(row, "ui").and_then(|ui| ui.get("detail")).and_then(Json::as_str),
        Some("accounts")
    );
    assert!(!mentions(row, "top-secret"));
}

#[test]
fn multiple_extension_catalogs_coexist() {
    let (catalog, _) = read_catalog(vec![
        (
            "alpha".to_string(),
            manifest("alpha", vec![spec("alpha_connector", "Alpha", "generic")]),
        ),
        (
            "beta".to_string(),
            manifest("beta", vec![spec("beta_connector", "Beta", "accounts")]),
        ),
    ]);
    let rows = store().connectors(&catalog);
    let names = names(&rows);
    assert!(names.contains(&"email".to_string()));
    assert!(names.contains(&"alpha_connector".to_string()));
    assert!(names.contains(&"beta_connector".to_string()));
}

#[test]
fn invalid_extension_catalog_is_isolated() {
    let (catalog, rejected) = read_catalog(vec![
        (
            "bad".to_string(),
            manifest("bad", vec![spec("unsafe_ui", "Unsafe UI", "arbitrary_component")]),
        ),
        (
            "good".to_string(),
            manifest("good", vec![spec("good_connector", "Good", "generic")]),
        ),
    ]);
    let rows = store().connectors(&catalog);
    let names = names(&rows);
    assert!(names.contains(&"email".to_string()));
    assert!(names.contains(&"good_connector".to_string()));
    assert!(!names.contains(&"unsafe_ui".to_string()));
    assert_eq!(rejected.len(), 1);
    assert_eq!(rejected[0].0, "bad");
    assert!(matches!(
        &rejected[0].1,
        CatalogRejection::UnsupportedDetailView(view) if view == "arbitrary_component"
    ));
}

#[test]
fn extension_catalog_cannot_replace_foundation_baseline() {
    let (catalog, rejected) = read_catalog(vec![(
        "replacement".to_string(),
        manifest("replacement", vec![spec("email", "Replacement", "")]),
    )]);
    let rows = store().connectors(&catalog);
    assert_eq!(rows.len(), 1);
    assert_eq!(text(&rows[0], "name").as_deref(), Some("email"));
    assert_eq!(text(&rows[0], "title").as_deref(), Some("Email (IMAP)"));
    assert!(matches!(
        &rejected[0].1,
        CatalogRejection::ReplacesConnector(name) if name == "email"
    ));
}

#[test]
fn catalog_from_another_directory_or_version_is_ignored() {
    let mut old = manifest("alpha", vec![spec("alpha_connector", "Alpha", "")]);
    old.version = 7;
    let (catalog, rejected) = read_catalog(vec![
        ("alpha".to_string(), old),
        (
            "beta".to_string(),
            manifest(" gamma ", vec![spec("beta_connector", "Beta", "")]),
        ),
    ]);
    assert_eq!(catalog.len(), 1);
    assert!(matches!(rejected[0].1, CatalogRejection::UnsupportedVersion(7)));
    assert!(matches!(
        &rejected[1].1,
        CatalogRejection::SourceMismatch { source, directory } if source == "gamma" && directory == "beta"
    ));
}

#[test]
fn catalog_entries_are_trimmed_and_get_default_logo_and_icon() {
    let (catalog, rejected) = read_catalog(vec![(
        "alpha".to_string(),
        manifest("alpha", vec![spec("  alpha_connector ", " Alpha ", " generic ")]),
    )]);
    assert!(rejected.is_empty());
    assert_eq!(catalog[1].name, "alpha_connector");
    assert_eq!(catalog[1].title, "Alpha");
    assert_eq!(catalog[1].ui.detail, "generic");
    assert_eq!(catalog[1].logo, "alpha_connector");
    assert_eq!(catalog[1].icon, "alpha_connector");
}

#[test]
fn connect_requires_known_connector_and_credentials() {
    let catalog = foundation();
    let mut store = store();
    let unknown = store.connect(&catalog, "nope", fields(&[("token", "x")]));
    assert_eq!(text(&unknown, "error").as_deref(), Some("unknown connector"));
    let empty = store.connect(&catalog, "email", StrMap::new());
    assert_eq!(
        text(&empty, "error").as_deref(),
        Some("connector credentials are required")
    );
    let ok = store.connect(&catalog, "email", fields(&[("email", "me@example.com")]));
    assert_eq!(text(&ok, "account").as_deref(), Some("me@example.com"));
    let other = store.connect(&catalog, "email", fields(&[("token", "t")]));
    assert_eq!(text(&other, "account").as_deref(), Some("Connected"));
}

#[test]
fn tool_availability_follows_connection_session_and_switches() {
    let catalog = foundation();
    let mut store = store();
    assert!(!store.tool_available("email", "send", None));
    store.connect(&catalog, "email", fields(&[("token", "t")]));
    assert!(store.tool_available("email", "send", None));
    assert!(store.tool_available("email", "send", Some("s1")));
    store.set_session_connection("s1", "email", false, false);
    assert!(!store.tool_available("email", "send", Some("s1")));
    assert!(store.tool_available("email", "send", Some("s2")));
    store.set_session_connection("s1", "email", false, true);
    assert!(store.tool_available("email", "send", Some("s1")));
    let mut switches = StrMap::new();
    switches.insert("send".to_string(), false);
    store.update_tools("email", &switches);
    assert!(!store.tool_available("email", "send", None));
    assert!(store.tool_available("email", "read", None));
}

#[test]
fn dm_route_is_set_and_cleared() {
    let mut store = store();
    assert_eq!(store.dm_route(), None);
    store.set_dm_route("s9");
    assert_eq!(store.dm_route().as_deref(), Some("s9"));
    store.set_dm_route("");
    assert_eq!(store.dm_route(), None);
}

#[test]
fn subscribe_requires_session_and_channel() {
    let mut store = store();
    let refused = store.subscribe("", "slack:C1");
    assert_eq!(
        text(&refused, "error").as_deref(),
        Some("session and channel are required")
    );
    let refused = store.subscribe("s1", "   ");
    assert_eq!(get(&refused, "ok").and_then(Json::as_bool), Some(false));
    assert!(store.authority.state.subscriptions.is_empty());
}

#[test]
fn connector_actions_edit_details_and_refuse_unknown_actions() {
    let mut store = store();
    let payload = Json::Object(vec![("user_id".to_string(), Json::String("U1".to_string()))]);
    store.action("slack", "allow_user", &payload);
    store.action("slack", "allow_user", &payload);
    let details = &store.authority.state.connectors.get("slack").unwrap().details;
    match details.get("allowed_users") {
        Some(Json::Array(items)) => assert_eq!(items.len(), 1),
        other => panic!("allowed_users must be a list, got {:?}", other),
    }
    store.action("slack", "disallow_user", &payload);
    let details = &store.authority.state.connectors.get("slack").unwrap().details;
    match details.get("allowed_users") {
        Some(Json::Array(items)) => assert!(items.is_empty()),
        other => panic!("allowed_users must be a list, got {:?}", other),
    }
    let refused = store.action("slack", "explode", &Json::Null);
    assert_eq!(
        text(&refused, "error").as_deref(),
        Some("unsupported connector action: explode")
    );
    assert!(!store.authority.state.connectors.get("slack").unwrap().connected);
}

#[test]
fn inbox_bindings_replace_by_name() {
    let mut store = store();
    store.set_inbox_binding("ops", Some("slack:C1"), "session-1");
    let reply = store.set_inbox_binding("ops", None, "session-2");
    assert_eq!(store.authority.state.inbox_bindings.len(), 1);
    match get(&reply, "bindings") {
        Some(Json::Array(items)) => {
            assert_eq!(items.len(), 1);
            assert_eq!(text(&items[0], "target").as_deref(), Some("session-2"));
            assert!(matches!(items[0].get("channel"), Some(Json::Null)));
        }
        other => panic!("bindings must be a list, got {:?}", other),
    }
}

#[test]
fn session_connections_show_connected_connectors() {
    let catalog = foundation();
    let mut store = store();
    store.connect(&catalog, "email", fields(&[("email", "me@example.com")]));
    store.set_session_connection("s1", "email", false, false);
    let view = store.session_connections("s1");
    match get(&view, "connected") {
        Some(Json::Array(items)) => {
            assert_eq!(items.len(), 1);
            assert_eq!(text(&items[0], "detail").as_deref(), Some("me@example.com"));
            assert_eq!(get(&items[0], "enabled").and_then(Json::as_bool), Some(false));
        }
        other => panic!("connected must be a list, got {:?}", other),
    }
    let _ = ConnectorState::unset();
}
