//! The authority for connector configuration, connector credentials and
//! product routing state.
//!
//! Product state and connector credentials live together in one private
//! authority. Secrets never leave it except as the exact grant-scoped values a
//! capability job is given; the rows shown to the product never carry them.
//! Reading and writing the authority file is the host's business: this module
//! is the authority's logic over its in-memory value.

pub mod catalog;

use vstd::prelude::*;

use crate::json::{Json, JsonView};
use crate::strmap::{find, StrMap};
use crate::text::{concat2, names, owned, seq_split_once, split_once, str_eq};

verus! {

/// What the authority records of one connector.
#[derive(Debug)]
pub struct ConnectorState {
    pub connected: bool,
    pub enabled: bool,
    pub account: Option<String>,
    pub tools: StrMap<bool>,
    pub details: StrMap<Json>,
}

impl ConnectorState {
    /// A connector the authority knows nothing about yet.
    pub fn unset() -> (r: Self)
        ensures
            !r.connected,
            !r.enabled,
            r.account is None,
            r.tools@.len() == 0,
            r.details@.len() == 0,
    {
        ConnectorState {
            connected: false,
            enabled: false,
            account: None,
            tools: StrMap::new(),
            details: StrMap::new(),
        }
    }
}

/// Product routing state: connectors, per-session connector overrides,
/// channel subscriptions, inbox bindings and the direct-message route.
#[derive(Debug)]
pub struct ApplicationState {
    pub connectors: StrMap<ConnectorState>,
    pub session_connections: StrMap<StrMap<bool>>,
    pub subscriptions: Vec<Json>,
    pub inbox_bindings: Vec<Json>,
    pub unrouted: Vec<Json>,
    pub recent_channels: Vec<Json>,
    pub dm_session: Option<String>,
}

impl ApplicationState {
    pub fn empty() -> (r: Self)
        ensures
            r.connectors@.len() == 0,
            r.session_connections@.len() == 0,
            r.subscriptions@.len() == 0,
            r.inbox_bindings@.len() == 0,
            r.unrouted@.len() == 0,
            r.recent_channels@.len() == 0,
            r.dm_session is None,
    {
        ApplicationState {
            connectors: StrMap::new(),
            session_connections: StrMap::new(),
            subscriptions: Vec::new(),
            inbox_bindings: Vec::new(),
            unrouted: Vec::new(),
            recent_channels: Vec::new(),
            dm_session: None,
        }
    }
}

/// The whole authority: routing state and, per connector, its credential
/// fields.
#[derive(Debug)]
pub struct ApplicationAuthority {
    pub state: ApplicationState,
    pub secrets: StrMap<StrMap<String>>,
}

impl ApplicationAuthority {
    pub fn empty() -> (r: Self)
        ensures
            r.state.connectors@.len() == 0,
            r.state.session_connections@.len() == 0,
            r.state.subscriptions@.len() == 0,
            r.state.inbox_bindings@.len() == 0,
            r.state.unrouted@.len() == 0,
            r.state.recent_channels@.len() == 0,
            r.state.dm_session is None,
            r.secrets@.len() == 0,
    {
        ApplicationAuthority { state: ApplicationState::empty(), secrets: StrMap::new() }
    }
}

/// The value of secret `key`, written `connector.field`; `None` when the key
/// has no dot or names a connector or field the authority does not hold.
pub open spec fn secret_for(secrets: Seq<(Seq<char>, StrMap<String>)>, key: Seq<char>) -> Option<String> {
    match seq_split_once(key, '.') {
        Some((connector, field)) => match find(secrets, connector) {
            Some(profile) => find(profile@, field),
            None => None,
        },
        None => None,
    }
}

/// The names of the connectors that are connected and enabled, in order.
pub open spec fn live_connectors(s: Seq<(Seq<char>, ConnectorState)>) -> Seq<Seq<char>>
    decreases s.len(),
{
    if s.len() == 0 {
        Seq::empty()
    } else {
        let rest = live_connectors(s.drop_last());
        if s.last().1.connected && s.last().1.enabled {
            rest.push(s.last().0)
        } else {
            rest
        }
    }
}

/// The override a session sets for a connector, if any.
pub open spec fn session_override(
    sessions: Seq<(Seq<char>, StrMap<bool>)>,
    session: Seq<char>,
    connector: Seq<char>,
) -> Option<bool> {
    match find(sessions, session) {
        Some(overrides) => find(overrides@, connector),
        None => None,
    }
}

/// Whether a connector's tool may be offered, in a session when one is given:
/// the connector must be connected and enabled, the session must not have
/// switched it off, and the tool must not be switched off.
pub open spec fn tool_is_available(
    state: ApplicationState,
    connector: Seq<char>,
    tool: Seq<char>,
    session: Option<Seq<char>>,
) -> bool {
    match find(state.connectors@, connector) {
        None => false,
        Some(c) => {
            &&& c.connected
            &&& c.enabled
            &&& match session {
                Some(sid) => session_override(state.session_connections@, sid, connector) != Some(false),
                None => true,
            }
            &&& find(c.tools@, tool) != Some(false)
        },
    }
}

/// How a connector's detail view is drawn.
#[derive(Debug)]
pub struct ConnectorUiSpec {
    pub detail: String,
}

/// One connector of the catalog: its product metadata.
#[derive(Debug)]
pub struct ConnectorSpec {
    pub name: String,
    pub title: String,
    pub icon: String,
    pub logo: String,
    pub blurb: String,
    pub about: String,
    pub access: Vec<String>,
    pub auth: String,
    pub two_way: bool,
    pub channels: bool,
    pub available: bool,
    pub fields: Vec<Json>,
    pub instructions: Vec<String>,
    pub tools: Vec<String>,
    pub brand_color: String,
    pub managed: bool,
    pub managed_profile: bool,
    pub risk_notice: String,
    pub ui: ConnectorUiSpec,
}

impl ConnectorSpec {
    /// An entry with only a name and a title; every other field takes its
    /// catalog default (empty, off, available, the neutral brand color).
    pub fn named(name: String, title: String) -> (r: Self)
        ensures
            r.name == name,
            r.title == title,
            r.icon@.len() == 0 && r.logo@.len() == 0 && r.blurb@.len() == 0 && r.about@.len() == 0,
            r.access@.len() == 0 && r.fields@.len() == 0 && r.instructions@.len() == 0 && r.tools@.len() == 0,
            r.auth@.len() == 0 && r.risk_notice@.len() == 0 && r.ui.detail@.len() == 0,
            !r.two_way && !r.channels && !r.managed && !r.managed_profile,
            r.available,
            r.brand_color@ == catalog::neutral_brand_color(),
    {
        ConnectorSpec {
            name,
            title,
            icon: String::new(),
            logo: String::new(),
            blurb: String::new(),
            about: String::new(),
            access: Vec::new(),
            auth: String::new(),
            two_way: false,
            channels: false,
            available: catalog::default_true(),
            fields: Vec::new(),
            instructions: Vec::new(),
            tools: Vec::new(),
            brand_color: catalog::default_brand_color(),
            managed: false,
            managed_profile: false,
            risk_notice: String::new(),
            ui: ConnectorUiSpec { detail: String::new() },
        }
    }
}

/// The first catalog entry named `name`.
pub open spec fn catalog_entry(catalog: Seq<ConnectorSpec>, name: Seq<char>) -> Option<ConnectorSpec>
    decreases catalog.len(),
{
    if catalog.len() == 0 {
        None
    } else if catalog[0].name@ == name {
        Some(catalog[0])
    } else {
        catalog_entry(catalog.drop_first(), name)
    }
}

/// The account a connection is shown under: the `email`, `account` or
/// `workspace` field, in that order of preference, else `Connected`.
pub open spec fn account_for(fields: Seq<(Seq<char>, String)>) -> Seq<char> {
    match find(fields, "email"@) {
        Some(v) => v@,
        None => match find(fields, "account"@) {
            Some(v) => v@,
            None => match find(fields, "workspace"@) {
                Some(v) => v@,
                None => "Connected"@,
            },
        },
    }
}

/// `{"error": error, "ok": false}`.
pub open spec fn refusal(error: Seq<char>) -> JsonView {
    JsonView::Object(seq![("error"@, JsonView::Str(error)), ("ok"@, JsonView::Bool(false))])
}

/// The authority after `name` was connected with credential `fields`: the
/// credentials are stored, the connector is connected and enabled under the
/// account the fields name, its tool switches and details survive, and
/// nothing else changes.
pub open spec fn connected_with(
    before: ApplicationAuthority,
    after: ApplicationAuthority,
    name: Seq<char>,
    fields: StrMap<String>,
) -> bool {
    &&& find(after.secrets@, name) == Some(fields)
    &&& forall|k: Seq<char>| #![trigger find(after.secrets@, k)]
        k != name ==> find(after.secrets@, k) == find(before.secrets@, k)
    &&& match find(after.state.connectors@, name) {
        Some(c) => {
            &&& c.connected
            &&& c.enabled
            &&& c.account matches Some(a) && a@ == account_for(fields@)
            &&& match find(before.state.connectors@, name) {
                Some(p) => c.tools@ == p.tools@ && c.details@ == p.details@,
                None => c.tools@.len() == 0 && c.details@.len() == 0,
            }
        },
        None => false,
    }
    &&& forall|k: Seq<char>| #![trigger find(after.state.connectors@, k)]
        k != name ==> find(after.state.connectors@, k) == find(before.state.connectors@, k)
    &&& after.state.session_connections == before.state.session_connections
    &&& after.state.subscriptions == before.state.subscriptions
    &&& after.state.inbox_bindings == before.state.inbox_bindings
    &&& after.state.unrouted == before.state.unrouted
    &&& after.state.recent_channels == before.state.recent_channels
    &&& after.state.dm_session == before.state.dm_session
}

/// The authority after `name` was disconnected: its state and its
/// credentials are both gone, and nothing else changes.
pub open spec fn disconnected(before: ApplicationAuthority, after: ApplicationAuthority, name: Seq<char>) -> bool {
    &&& find(after.secrets@, name) is None
    &&& find(after.state.connectors@, name) is None
    &&& forall|k: Seq<char>| #![trigger find(after.secrets@, k)]
        k != name ==> find(after.secrets@, k) == find(before.secrets@, k)
    &&& forall|k: Seq<char>| #![trigger find(after.state.connectors@, k)]
        k != name ==> find(after.state.connectors@, k) == find(before.state.connectors@, k)
    &&& after.state.session_connections == before.state.session_connections
    &&& after.state.subscriptions == before.state.subscriptions
    &&& after.state.inbox_bindings == before.state.inbox_bindings
    &&& after.state.unrouted == before.state.unrouted
    &&& after.state.recent_channels == before.state.recent_channels
    &&& after.state.dm_session == before.state.dm_session
}

/// Position of the first catalog entry named `name`.
pub fn catalog_position(catalog: &Vec<ConnectorSpec>, name: &str) -> (r: Option<usize>)
    ensures
        r is None <==> catalog_entry(catalog@, name@) is None,
        r matches Some(i) ==> i < catalog.len() && catalog_entry(catalog@, name@) == Some(catalog@[i as int]),
{
    let mut i: usize = 0;
    proof {
        assert(catalog@.subrange(0, catalog@.len() as int) =~= catalog@);
    }
    while i < catalog.len()
        invariant
            i <= catalog.len(),
            catalog_entry(catalog@, name@) == catalog_entry(catalog@.subrange(i as int, catalog@.len() as int), name@),
        decreases catalog.len() - i,
    {
        proof {
            let rest = catalog@.subrange(i as int, catalog@.len() as int);
            assert(rest.drop_first() =~= catalog@.subrange(i + 1, catalog@.len() as int));
            assert(rest[0] == catalog@[i as int]);
        }
        if str_eq(catalog[i].name.as_str(), name) {
            return Some(i);
        }
        i = i + 1;
    }
    proof {
        assert(catalog@.subrange(i as int, catalog@.len() as int).len() == 0);
    }
    None
}

/// Whether `item` is the subscription of `session` to `channel`.
pub open spec fn same_subscription(item: JsonView, session: Seq<char>, channel: Seq<char>) -> bool {
    item.str_field("session_id"@) == Some(session) && item.str_field("channel"@) == Some(channel)
}

/// `items` without the subscriptions of `session` to `channel`, in order.
pub open spec fn drop_subscription(items: Seq<JsonView>, session: Seq<char>, channel: Seq<char>) -> Seq<
    JsonView,
>
    decreases items.len(),
{
    if items.len() == 0 {
        Seq::empty()
    } else {
        let rest = drop_subscription(items.drop_last(), session, channel);
        if same_subscription(items.last(), session, channel) {
            rest
        } else {
            rest.push(items.last())
        }
    }
}

/// The record a new subscription is stored as.
pub open spec fn subscription_record(session: Seq<char>, channel: Seq<char>) -> JsonView {
    JsonView::Object(
        seq![
            ("agent"@, JsonView::Str("delta"@)),
            ("channel"@, JsonView::Str(channel)),
            ("channel_name"@, JsonView::Null),
            ("collision"@, JsonView::Bool(false)),
            ("routing_target"@, JsonView::Null),
            ("session_id"@, JsonView::Str(session)),
            ("session_title"@, JsonView::Str(Seq::empty())),
        ],
    )
}

/// `items` without the inbox bindings named `name`, in order.
pub open spec fn drop_binding(items: Seq<JsonView>, name: Seq<char>) -> Seq<JsonView>
    decreases items.len(),
{
    if items.len() == 0 {
        Seq::empty()
    } else {
        let rest = drop_binding(items.drop_last(), name);
        if items.last().str_field("name"@) == Some(name) {
            rest
        } else {
            rest.push(items.last())
        }
    }
}

/// The record an inbox binding is stored as.
pub open spec fn binding_record(name: Seq<char>, channel: Option<Seq<char>>, target: Seq<char>) -> JsonView {
    JsonView::Object(
        seq![
            ("channel"@, match channel {
                Some(c) => JsonView::Str(c),
                None => JsonView::Null,
            }),
            ("name"@, JsonView::Str(name)),
            ("target"@, JsonView::Str(target)),
        ],
    )
}

/// `{"ok": true}`.
pub open spec fn accepted() -> JsonView {
    JsonView::Object(seq![("ok"@, JsonView::Bool(true))])
}

/// A switch map as a JSON object of booleans, in key order.
pub open spec fn flags_object(flags: Seq<(Seq<char>, bool)>) -> Seq<(Seq<char>, JsonView)> {
    flags.map_values(|p: (Seq<char>, bool)| (p.0, JsonView::Bool(p.1)))
}

/// The per-session rows of the connected connectors: each shows the account
/// and whether the session has it enabled (its override, else the
/// connector's own switch).
pub open spec fn session_rows(
    connectors: Seq<(Seq<char>, ConnectorState)>,
    overrides: Option<StrMap<bool>>,
) -> Seq<JsonView>
    decreases connectors.len(),
{
    if connectors.len() == 0 {
        Seq::empty()
    } else {
        let rest = session_rows(connectors.drop_last(), overrides);
        let (name, c) = connectors.last();
        if c.connected {
            let enabled = match overrides {
                Some(m) => match find(m@, name) {
                    Some(v) => v,
                    None => c.enabled,
                },
                None => c.enabled,
            };
            let detail = match c.account {
                Some(a) => a@,
                None => Seq::empty(),
            };
            rest.push(
                JsonView::Object(
                    seq![
                        ("connector"@, JsonView::Str(name)),
                        ("detail"@, JsonView::Str(detail)),
                        ("enabled"@, JsonView::Bool(enabled)),
                    ],
                ),
            )
        } else {
            rest
        }
    }
}

/// `{"ok": true}` as a value.
fn ok_object() -> (r: Json)
    ensures
        r@ == accepted(),
{
    let members = vec![("ok".to_string(), Json::Bool(true))];
    proof {
        reveal_strlit("ok");
        crate::json::lemma_members_view(members@);
        assert(crate::json::members_view(members@) =~= seq![("ok"@, JsonView::Bool(true))]);
    }
    Json::Object(members)
}

/// `{"error": error, "ok": false}` as a value.
fn refusal_json(error: &str) -> (r: Json)
    ensures
        r@ == refusal(error@),
{
    let members = vec![
        ("error".to_string(), Json::String(owned(error))),
        ("ok".to_string(), Json::Bool(false)),
    ];
    proof {
        reveal_strlit("ok");
        reveal_strlit("error");
        crate::json::lemma_members_view(members@);
        assert(crate::json::members_view(members@) =~= seq![
            ("error"@, JsonView::Str(error@)),
            ("ok"@, JsonView::Bool(false)),
        ]);
    }
    Json::Object(members)
}

/// A switch map as a JSON object.
fn flags_json(flags: &StrMap<bool>) -> (r: Json)
    ensures
        r@ == JsonView::Object(flags_object(flags@)),
{
    let n = flags.len();
    let mut members: Vec<(String, Json)> = Vec::new();
    let mut i: usize = 0;
    while i < n
        invariant
            i <= n == flags@.len(),
            crate::json::members_view(members@) == flags_object(flags@.subrange(0, i as int)),
        decreases n - i,
    {
        let (k, v) = flags.entry(i);
        let m = (k.clone(), Json::Bool(*v));
        proof {
            crate::json::lemma_members_view_push(members@, m);
            assert(flags_object(flags@.subrange(0, i + 1)) =~= flags_object(flags@.subrange(0, i as int)).push(
                (k@, JsonView::Bool(*v)),
            ));
        }
        members.push(m);
        i = i + 1;
    }
    assert(flags@.subrange(0, i as int) =~= flags@);
    Json::Object(members)
}

/// The record a subscription is stored as.
fn subscription_json(session_id: &str, channel: &str) -> (r: Json)
    ensures
        r@ == subscription_record(session_id@, channel@),
{
    let members = vec![
        ("agent".to_string(), Json::String("delta".to_string())),
        ("channel".to_string(), Json::String(owned(channel))),
        ("channel_name".to_string(), Json::Null),
        ("collision".to_string(), Json::Bool(false)),
        ("routing_target".to_string(), Json::Null),
        ("session_id".to_string(), Json::String(owned(session_id))),
        ("session_title".to_string(), Json::String(String::new())),
    ];
    proof {
        crate::json::lemma_members_view(members@);
        assert(crate::json::members_view(members@) =~= seq![
            ("agent"@, JsonView::Str("delta"@)),
            ("channel"@, JsonView::Str(channel@)),
            ("channel_name"@, JsonView::Null),
            ("collision"@, JsonView::Bool(false)),
            ("routing_target"@, JsonView::Null),
            ("session_id"@, JsonView::Str(session_id@)),
            ("session_title"@, JsonView::Str(Seq::empty())),
        ]);
    }
    Json::Object(members)
}

/// Copies of the items that are not the subscription of `session_id` to
/// `channel`.
fn without_subscription(items: &Vec<Json>, session_id: &str, channel: &str) -> (r: Vec<Json>)
    ensures
        crate::json::items_view(r@) == drop_subscription(crate::json::items_view(items@), session_id@, channel@),
{
    let mut out: Vec<Json> = Vec::new();
    let mut i: usize = 0;
    while i < items.len()
        invariant
            i <= items.len(),
            crate::json::items_view(out@) == drop_subscription(
                crate::json::items_view(items@.subrange(0, i as int)),
                session_id@,
                channel@,
            ),
        decreases items.len() - i,
    {
        let item = &items[i];
        proof {
            assert(items@.subrange(0, i + 1) =~= items@.subrange(0, i as int).push(items@[i as int]));
            crate::json::lemma_items_view_push(items@.subrange(0, i as int), items@[i as int]);
            let v = crate::json::items_view(items@.subrange(0, i + 1));
            assert(v.drop_last() =~= crate::json::items_view(items@.subrange(0, i as int)));
        }
        let same_session = match item.str_field("session_id") {
            Some(s) => str_eq(s, session_id),
            None => false,
        };
        let same_channel = match item.str_field("channel") {
            Some(c) => str_eq(c, channel),
            None => false,
        };
        if !(same_session && same_channel) {
            let c = item.deep_clone();
            proof {
                crate::json::lemma_items_view_push(out@, c);
            }
            out.push(c);
        }
        i = i + 1;
    }
    assert(items@.subrange(0, i as int) =~= items@);
    out
}

/// Copies of the items that are not the inbox binding named `name`.
fn without_binding(items: &Vec<Json>, name: &str) -> (r: Vec<Json>)
    ensures
        crate::json::items_view(r@) == drop_binding(crate::json::items_view(items@), name@),
{
    let mut out: Vec<Json> = Vec::new();
    let mut i: usize = 0;
    while i < items.len()
        invariant
            i <= items.len(),
            crate::json::items_view(out@) == drop_binding(
                crate::json::items_view(items@.subrange(0, i as int)),
                name@,
            ),
        decreases items.len() - i,
    {
        let item = &items[i];
        proof {
            assert(items@.subrange(0, i + 1) =~= items@.subrange(0, i as int).push(items@[i as int]));
            crate::json::lemma_items_view_push(items@.subrange(0, i as int), items@[i as int]);
            let v = crate::json::items_view(items@.subrange(0, i + 1));
            assert(v.drop_last() =~= crate::json::items_view(items@.subrange(0, i as int)));
        }
        let same = match item.str_field("name") {
            Some(s) => str_eq(s, name),
            None => false,
        };
        if !same {
            let c = item.deep_clone();
            proof {
                crate::json::lemma_items_view_push(out@, c);
            }
            out.push(c);
        }
        i = i + 1;
    }
    assert(items@.subrange(0, i as int) =~= items@);
    out
}

/// Looking up a key in a prefix one entry longer.
pub proof fn lemma_find_extend<V>(s: Seq<(Seq<char>, V)>, i: int, t: Seq<char>)
    requires
        crate::strmap::ascending(s),
        0 <= i < s.len(),
    ensures
        find(s.subrange(0, i + 1), t) == if t == s[i].0 {
            Some(s[i].1)
        } else {
            find(s.subrange(0, i), t)
        },
{
    let a = s.subrange(0, i);
    let b = s.subrange(0, i + 1);
    assert(crate::strmap::ascending(b));
    assert(crate::strmap::ascending(a));
    if t == s[i].0 {
        crate::strmap::lemma_find_at(b, i);
    } else if find(a, t) is Some {
        crate::strmap::lemma_find_some(a, t);
        let j = choose|j: int| 0 <= j < a.len() && a[j].0 == t && find(a, t) == Some(a[j].1);
        crate::strmap::lemma_find_at(a, j);
        assert(b[j] == a[j]);
        crate::strmap::lemma_find_at(b, j);
    } else {
        assert forall|j: int| 0 <= j < a.len() implies a[j].0 != t by {
            if a[j].0 == t {
                crate::strmap::lemma_find_present(a, t, j);
            }
        }
        assert forall|j: int| 0 <= j < b.len() implies b[j].0 != t by {
            if j < i {
                assert(b[j] == a[j]);
            }
        }
        crate::strmap::lemma_find_none(b, t);
    }
}

/// Strings as JSON strings.
pub open spec fn strings_view(v: Seq<String>) -> Seq<JsonView> {
    v.map_values(|s: String| JsonView::Str(s@))
}

/// How a connector's tool is listed to the product.
pub open spec fn tool_row(tool: Seq<char>, enabled: bool) -> JsonView {
    JsonView::Object(
        seq![
            ("description"@, JsonView::Str("Connector worker capability"@)),
            ("enabled"@, JsonView::Bool(enabled)),
            ("kind"@, JsonView::Str("write"@)),
            ("label"@, JsonView::Str(tool)),
            ("name"@, JsonView::Str(tool)),
            ("requires_approval"@, JsonView::Bool(true)),
        ],
    )
}

/// The tool rows of a connector: a tool is enabled unless switched off.
pub open spec fn tool_rows(tools: Seq<String>, switches: Seq<(Seq<char>, bool)>) -> Seq<JsonView> {
    tools.map_values(
        |t: String|
            tool_row(
                t@,
                match find(switches, t@) {
                    Some(b) => b,
                    None => true,
                },
            ),
    )
}

/// The value a connector row shows under `key` before the connector's own
/// details are laid over it: the catalog metadata and the connection state
/// (a connector the authority does not know is shown unconnected).
pub open spec fn row_value(spec: ConnectorSpec, current: Option<ConnectorState>, key: Seq<char>) -> Option<
    JsonView,
> {
    let (connected, enabled, account, switches) = match current {
        Some(c) => (c.connected, c.enabled, c.account, c.tools@),
        None => (false, false, None, Seq::empty()),
    };
    if key == "ui"@ {
        Some(JsonView::Object(seq![("detail"@, JsonView::Str(spec.ui.detail@))]))
    } else if key == "risk_notice"@ {
        Some(JsonView::Str(spec.risk_notice@))
    } else if key == "managed_profile"@ {
        Some(JsonView::Bool(spec.managed_profile))
    } else if key == "managed"@ {
        Some(JsonView::Bool(spec.managed))
    } else if key == "tools"@ {
        Some(JsonView::Array(tool_rows(spec.tools@, switches)))
    } else if key == "allowed_users"@ {
        Some(JsonView::Array(Seq::empty()))
    } else if key == "brand_color"@ {
        Some(JsonView::Str(spec.brand_color@))
    } else if key == "enabled"@ {
        Some(JsonView::Bool(enabled))
    } else if key == "account"@ {
        Some(match account {
            Some(a) => JsonView::Str(a@),
            None => JsonView::Null,
        })
    } else if key == "connected"@ {
        Some(JsonView::Bool(connected))
    } else if key == "instructions"@ {
        Some(JsonView::Array(strings_view(spec.instructions@)))
    } else if key == "fields"@ {
        Some(JsonView::Array(crate::json::items_view(spec.fields@)))
    } else if key == "available"@ {
        Some(JsonView::Bool(spec.available))
    } else if key == "channels"@ {
        Some(JsonView::Bool(spec.channels))
    } else if key == "two_way"@ {
        Some(JsonView::Bool(spec.two_way))
    } else if key == "auth"@ {
        Some(JsonView::Str(spec.auth@))
    } else if key == "access"@ {
        Some(JsonView::Array(strings_view(spec.access@)))
    } else if key == "about"@ {
        Some(JsonView::Str(spec.about@))
    } else if key == "blurb"@ {
        Some(JsonView::Str(spec.blurb@))
    } else if key == "logo"@ {
        Some(JsonView::Str(spec.logo@))
    } else if key == "icon"@ {
        Some(JsonView::Str(spec.icon@))
    } else if key == "title"@ {
        Some(JsonView::Str(spec.title@))
    } else if key == "name"@ {
        Some(JsonView::Str(spec.name@))
    } else {
        None
    }
}

/// `row` is the product row of catalog entry `spec` in `state`: an object
/// with keys in order whose every member is the connector's own detail of
/// that name, else the row value. Credentials take no part in it.
pub open spec fn is_connector_row(row: JsonView, spec: ConnectorSpec, state: ApplicationState) -> bool {
    let current = find(state.connectors@, spec.name@);
    match row {
        JsonView::Object(m) => {
            &&& crate::strmap::ascending(m)
            &&& forall|k: Seq<char>|
                #![trigger crate::json::lookup(m, k)]
                crate::json::lookup(m, k) == match current {
                    Some(c) => match find(c.details@, k) {
                        Some(v) => Some(v@),
                        None => row_value(spec, current, k),
                    },
                    None => row_value(spec, current, k),
                }
        },
        _ => false,
    }
}

/// Strings as a JSON array of strings.
fn strings_json(v: &Vec<String>) -> (r: Json)
    ensures
        r@ == JsonView::Array(strings_view(v@)),
{
    let mut items: Vec<Json> = Vec::new();
    let mut i: usize = 0;
    while i < v.len()
        invariant
            i <= v.len(),
            crate::json::items_view(items@) == strings_view(v@.subrange(0, i as int)),
        decreases v.len() - i,
    {
        let item = Json::String(v[i].clone());
        proof {
            crate::json::lemma_items_view_push(items@, item);
            assert(strings_view(v@.subrange(0, i + 1)) =~= strings_view(v@.subrange(0, i as int)).push(
                JsonView::Str(v@[i as int]@),
            ));
        }
        items.push(item);
        i = i + 1;
    }
    assert(v@.subrange(0, i as int) =~= v@);
    Json::Array(items)
}

/// The tool rows of a connector.
fn tool_rows_json(tools: &Vec<String>, switches: &StrMap<bool>) -> (r: Json)
    ensures
        r@ == JsonView::Array(tool_rows(tools@, switches@)),
{
    let mut items: Vec<Json> = Vec::new();
    let mut i: usize = 0;
    while i < tools.len()
        invariant
            i <= tools.len(),
            crate::json::items_view(items@) == tool_rows(tools@.subrange(0, i as int), switches@),
        decreases tools.len() - i,
    {
        let tool = &tools[i];
        let enabled = match switches.get(tool.as_str()) {
            Some(b) => *b,
            None => true,
        };
        let members = vec![
            ("description".to_string(), Json::String("Connector worker capability".to_string())),
            ("enabled".to_string(), Json::Bool(enabled)),
            ("kind".to_string(), Json::String("write".to_string())),
            ("label".to_string(), Json::String(tool.clone())),
            ("name".to_string(), Json::String(tool.clone())),
            ("requires_approval".to_string(), Json::Bool(true)),
        ];
        let item = Json::Object(members);
        proof {
            crate::json::lemma_members_view(members@);
            assert(crate::json::members_view(members@) =~= seq![
                ("description"@, JsonView::Str("Connector worker capability"@)),
                ("enabled"@, JsonView::Bool(enabled)),
                ("kind"@, JsonView::Str("write"@)),
                ("label"@, JsonView::Str(tool@)),
                ("name"@, JsonView::Str(tool@)),
                ("requires_approval"@, JsonView::Bool(true)),
            ]);
            crate::json::lemma_items_view_push(items@, item);
            assert(tool_rows(tools@.subrange(0, i + 1), switches@) =~= tool_rows(
                tools@.subrange(0, i as int),
                switches@,
            ).push(tool_row(tool@, enabled)));
        }
        items.push(item);
        i = i + 1;
    }
    assert(tools@.subrange(0, i as int) =~= tools@);
    Json::Array(items)
}

/// The product row of one catalog entry.
#[verifier::rlimit(60)]
fn connector_row(spec: &ConnectorSpec, state: &ApplicationState) -> (r: Json)
    ensures
        is_connector_row(r@, *spec, *state),
{
    let current = state.connectors.get(spec.name.as_str());
    let ghost cur = find(state.connectors@, spec.name@);
    let empty_switches: StrMap<bool> = StrMap::new();
    proof {
        assert(empty_switches@ =~= Seq::<(Seq<char>, bool)>::empty());
    }
    let (connected, enabled, account, switches) = match current {
        Some(c) => (c.connected, c.enabled, &c.account, &c.tools),
        None => (false, false, &None, &empty_switches),
    };
    proof {
        assert(switches@ == match cur {
            Some(c) => c.tools@,
            None => Seq::<(Seq<char>, bool)>::empty(),
        });
        assert(connected == match cur { Some(c) => c.connected, None => false });
        assert(enabled == match cur { Some(c) => c.enabled, None => false });
        assert(*account == match cur { Some(c) => c.account, None => None });
    }
    let mut row: StrMap<Json> = StrMap::new();
    row.insert("name".to_string(), Json::String(spec.name.clone()));
    row.insert("title".to_string(), Json::String(spec.title.clone()));
    row.insert("icon".to_string(), Json::String(spec.icon.clone()));
    row.insert("logo".to_string(), Json::String(spec.logo.clone()));
    row.insert("blurb".to_string(), Json::String(spec.blurb.clone()));
    row.insert("about".to_string(), Json::String(spec.about.clone()));
    row.insert("access".to_string(), strings_json(&spec.access));
    row.insert("auth".to_string(), Json::String(spec.auth.clone()));
    row.insert("two_way".to_string(), Json::Bool(spec.two_way));
    row.insert("channels".to_string(), Json::Bool(spec.channels));
    row.insert("available".to_string(), Json::Bool(spec.available));
    row.insert("fields".to_string(), Json::Array(crate::json::clone_items(&spec.fields)));
    row.insert("instructions".to_string(), strings_json(&spec.instructions));
    row.insert("connected".to_string(), Json::Bool(connected));
    let account_json = match account {
        Some(a) => Json::String(a.clone()),
        None => Json::Null,
    };
    row.insert("account".to_string(), account_json);
    row.insert("enabled".to_string(), Json::Bool(enabled));
    row.insert("brand_color".to_string(), Json::String(spec.brand_color.clone()));
    row.insert("allowed_users".to_string(), Json::Array(Vec::new()));
    row.insert("tools".to_string(), tool_rows_json(&spec.tools, switches));
    row.insert("managed".to_string(), Json::Bool(spec.managed));
    row.insert("managed_profile".to_string(), Json::Bool(spec.managed_profile));
    row.insert("risk_notice".to_string(), Json::String(spec.risk_notice.clone()));
    let ui_members = vec![("detail".to_string(), Json::String(spec.ui.detail.clone()))];
    proof {
        crate::json::lemma_members_view(ui_members@);
        assert(crate::json::members_view(ui_members@) =~= seq![("detail"@, JsonView::Str(spec.ui.detail@))]);
    }
    row.insert("ui".to_string(), Json::Object(ui_members));
    proof {
        assert(crate::json::items_view(Seq::<Json>::empty()) =~= Seq::<JsonView>::empty());
        assert forall|k: Seq<char>| #![trigger find(row@, k)]
            (match find(row@, k) {
                Some(v) => Some(v@),
                None => None,
            }) == row_value(*spec, cur, k) by {}
    }
    let ghost base = row@;
    match current {
        Some(c) => {
            let n = c.details.len();
            let mut i: usize = 0;
            while i < n
                invariant
                    i <= n == c.details@.len(),
                    crate::strmap::ascending(c.details@),
                    forall|k: Seq<char>| #![trigger find(row@, k)]
                        (match find(row@, k) {
                            Some(v) => Some(v@),
                            None => None,
                        }) == match find(c.details@.subrange(0, i as int), k) {
                            Some(v) => Some(v@),
                            None => row_value(*spec, cur, k),
                        },
                decreases n - i,
            {
                let (k, v) = c.details.entry(i);
                proof {
                    assert forall|t: Seq<char>| #![trigger find(c.details@.subrange(0, i + 1), t)]
                        find(c.details@.subrange(0, i + 1), t) == if t == k@ {
                            Some(*v)
                        } else {
                            find(c.details@.subrange(0, i as int), t)
                        } by {
                        lemma_find_extend(c.details@, i as int, t);
                    }
                }
                row.insert(k.clone(), v.deep_clone());
                i = i + 1;
            }
            proof {
                assert(c.details@.subrange(0, i as int) =~= c.details@);
            }
        },
        None => {},
    }
    let ghost rv = row@;
    let r = crate::json::object_from_map(row);
    proof {
        assert forall|k: Seq<char>| #![trigger crate::json::lookup(crate::json::map_members(rv), k)]
            crate::json::lookup(crate::json::map_members(rv), k) == match cur {
                Some(c) => match find(c.details@, k) {
                    Some(v) => Some(v@),
                    None => row_value(*spec, cur, k),
                },
                None => row_value(*spec, cur, k),
            } by {
            crate::json::lemma_map_members_lookup(rv, k);
            assert(find(rv, k) == find(rv, k));
        }
    }
    r
}

/// The view of the value stored under `k`, if any.
pub open spec fn value_view(m: Seq<(Seq<char>, Json)>, k: Seq<char>) -> Option<JsonView> {
    match find(m, k) {
        Some(v) => Some(v@),
        None => None,
    }
}

/// Whether a list holds the string `v`.
pub open spec fn holds_string(items: Seq<JsonView>, v: Seq<char>) -> bool {
    exists|i: int| 0 <= i < items.len() && #[trigger] items[i].as_str() == Some(v)
}

/// `items` without the strings equal to `v`.
pub open spec fn drop_string(items: Seq<JsonView>, v: Seq<char>) -> Seq<JsonView>
    decreases items.len(),
{
    if items.len() == 0 {
        Seq::empty()
    } else {
        let rest = drop_string(items.drop_last(), v);
        if items.last().as_str() == Some(v) {
            rest
        } else {
            rest.push(items.last())
        }
    }
}

/// A detail list after `v` was added to it: a missing list is created, a
/// list that holds `v` is kept, a value that is not a list is left alone.
pub open spec fn with_string(current: Option<JsonView>, v: Seq<char>) -> Option<JsonView> {
    match current {
        None => Some(JsonView::Array(seq![JsonView::Str(v)])),
        Some(JsonView::Array(a)) => Some(JsonView::Array(if holds_string(a, v) { a } else { a.push(JsonView::Str(v)) })),
        Some(x) => Some(x),
    }
}

/// A detail list after `v` was taken out of it.
pub open spec fn without_string(current: Option<JsonView>, v: Seq<char>) -> Option<JsonView> {
    match current {
        Some(JsonView::Array(a)) => Some(JsonView::Array(drop_string(a, v))),
        other => other,
    }
}

/// The user an action names (`payload.user_id`, else empty).
pub open spec fn action_user(payload: JsonView) -> Seq<char> {
    match payload.str_field("user_id"@) {
        Some(u) => u,
        None => Seq::empty(),
    }
}

/// The hidden fields an action sets (`payload.fields`, else `[]`).
pub open spec fn action_fields(payload: JsonView) -> JsonView {
    match payload.get("fields"@) {
        Some(f) => f,
        None => JsonView::Array(Seq::empty()),
    }
}

/// A connector detail after a product action.
pub open spec fn detail_after(action: Seq<char>, payload: JsonView, old: Option<JsonView>, k: Seq<char>) -> Option<JsonView> {
    if action == "allow_user"@ && k == "allowed_users"@ {
        with_string(old, action_user(payload))
    } else if action == "disallow_user"@ && k == "allowed_users"@ {
        without_string(old, action_user(payload))
    } else if action == "add_approval_owner"@ && k == "approval_owner_ids"@ {
        with_string(old, action_user(payload))
    } else if action == "remove_approval_owner"@ && k == "approval_owner_ids"@ {
        without_string(old, action_user(payload))
    } else if action == "set_filters"@ && k == "filters"@ {
        Some(payload)
    } else if action == "set_hidden_fields"@ && k == "hidden_fields"@ {
        Some(action_fields(payload))
    } else {
        old
    }
}

/// A relay that is not connected, as a status reports it.
pub open spec fn offline_relay() -> JsonView {
    JsonView::Object(
        seq![
            ("last_error"@, JsonView::Str(Seq::empty())),
            ("last_event_at"@, JsonView::Null),
            ("reconnects"@, JsonView::Number(crate::json::NumberView::PosInt(0))),
            ("state"@, JsonView::Str("offline"@)),
        ],
    )
}

/// What a product action answers.
pub open spec fn action_reply(action: Seq<char>, payload: JsonView) -> JsonView {
    let ok = ("ok"@, JsonView::Bool(true));
    if action == "allow_user"@ || action == "disallow_user"@ || action == "add_approval_owner"@
        || action == "remove_approval_owner"@ || action == "resolve_unauthorized"@ {
        JsonView::Object(seq![ok])
    } else if action == "set_filters"@ {
        JsonView::Object(seq![("filters"@, payload), ok])
    } else if action == "set_hidden_fields"@ {
        JsonView::Object(seq![("hidden_fields"@, action_fields(payload)), ok])
    } else if action == "directory"@ {
        JsonView::Object(seq![("members"@, JsonView::Array(Seq::empty())), ok])
    } else if action == "channels"@ {
        JsonView::Object(seq![("channels"@, JsonView::Array(Seq::empty())), ok])
    } else if action == "github_status"@ {
        JsonView::Object(
            seq![
                ("installs"@, JsonView::Object(Seq::empty())),
                ("missed"@, JsonView::Object(Seq::empty())),
                ("mode"@, JsonView::Str(Seq::empty())),
                ok,
                ("relay"@, offline_relay()),
            ],
        )
    } else if action == "slack_status"@ {
        JsonView::Object(
            seq![
                ("mode"@, JsonView::Str(Seq::empty())),
                ("relay"@, offline_relay()),
                ("teams"@, JsonView::Object(Seq::empty())),
            ],
        )
    } else {
        refusal("unsupported connector action: "@ + action)
    }
}

/// Add `v` to the detail list under `key`.
fn add_string(details: &mut StrMap<Json>, key: &str, v: &str)
    ensures
        forall|k: Seq<char>| #![trigger value_view(final(details)@, k)]
            value_view(final(details)@, k) == if k == key@ {
                with_string(value_view(old(details)@, k), v@)
            } else {
                value_view(old(details)@, k)
            },
{
    let current = details.remove(key);
    let updated = match current {
        None => {
            let item = Json::String(owned(v));
            let items = vec![item];
            proof {
                crate::json::lemma_items_view(items@);
                assert(crate::json::items_view(items@) =~= seq![JsonView::Str(v@)]);
            }
            Json::Array(items)
        },
        Some(Json::Array(items)) => {
            let mut items = items;
            let mut found = false;
            let mut i: usize = 0;
            proof {
                crate::json::lemma_items_view(items@);
            }
            while i < items.len()
                invariant
                    i <= items.len(),
                    crate::json::items_view(items@).len() == items@.len(),
                    forall|j: int| 0 <= j < items@.len() ==> #[trigger] crate::json::items_view(items@)[j] == items@[j]@,
                    found <==> exists|j: int| 0 <= j < i && #[trigger] crate::json::items_view(items@)[j].as_str() == Some(v@),
                decreases items.len() - i,
            {
                match items[i].as_str() {
                    Some(s) => {
                        if str_eq(s, v) {
                            found = true;
                        }
                    },
                    None => {},
                }
                proof {
                    assert(crate::json::items_view(items@)[i as int] == items@[i as int]@);
                }
                i = i + 1;
            }
            if !found {
                let item = Json::String(owned(v));
                proof {
                    crate::json::lemma_items_view_push(items@, item);
                }
                items.push(item);
            }
            Json::Array(items)
        },
        Some(other) => other,
    };
    details.insert(owned(key), updated);
}

/// Strings other than `v`, kept in order.
fn drop_string_items(items: &Vec<Json>, v: &str) -> (r: Vec<Json>)
    ensures
        crate::json::items_view(r@) == drop_string(crate::json::items_view(items@), v@),
{
    let mut out: Vec<Json> = Vec::new();
    let mut i: usize = 0;
    while i < items.len()
        invariant
            i <= items.len(),
            crate::json::items_view(out@) == drop_string(crate::json::items_view(items@.subrange(0, i as int)), v@),
        decreases items.len() - i,
    {
        proof {
            assert(items@.subrange(0, i + 1) =~= items@.subrange(0, i as int).push(items@[i as int]));
            crate::json::lemma_items_view_push(items@.subrange(0, i as int), items@[i as int]);
            let w = crate::json::items_view(items@.subrange(0, i + 1));
            assert(w.drop_last() =~= crate::json::items_view(items@.subrange(0, i as int)));
        }
        let same = match items[i].as_str() {
            Some(s) => str_eq(s, v),
            None => false,
        };
        if !same {
            let c = items[i].deep_clone();
            proof {
                crate::json::lemma_items_view_push(out@, c);
            }
            out.push(c);
        }
        i = i + 1;
    }
    assert(items@.subrange(0, i as int) =~= items@);
    out
}

/// Take `v` out of the detail list under `key`.
fn remove_string(details: &mut StrMap<Json>, key: &str, v: &str)
    ensures
        forall|k: Seq<char>| #![trigger value_view(final(details)@, k)]
            value_view(final(details)@, k) == if k == key@ {
                without_string(value_view(old(details)@, k), v@)
            } else {
                value_view(old(details)@, k)
            },
{
    let current = details.remove(key);
    match current {
        None => {},
        Some(Json::Array(items)) => {
            let kept = drop_string_items(&items, v);
            details.insert(owned(key), Json::Array(kept));
        },
        Some(other) => {
            details.insert(owned(key), other);
        },
    }
}

/// `{"ok": true}` with one more member before it.
fn ok_with(key: &str, value: Json) -> (r: Json)
    ensures
        r@ == JsonView::Object(seq![(key@, value@), ("ok"@, JsonView::Bool(true))]),
{
    let members = vec![(owned(key), value), ("ok".to_string(), Json::Bool(true))];
    proof {
        reveal_strlit("ok");
        crate::json::lemma_members_view(members@);
        assert(crate::json::members_view(members@) =~= seq![(key@, value@), ("ok"@, JsonView::Bool(true))]);
    }
    Json::Object(members)
}

/// The status of a relay that is not connected.
fn offline_relay_json() -> (r: Json)
    ensures
        r@ == offline_relay(),
{
    let members = vec![
        ("last_error".to_string(), Json::String(String::new())),
        ("last_event_at".to_string(), Json::Null),
        ("reconnects".to_string(), Json::Number(crate::json::JsonNumber::PosInt(0))),
        ("state".to_string(), Json::String("offline".to_string())),
    ];
    proof {
        crate::json::lemma_members_view(members@);
        assert(crate::json::members_view(members@) =~= seq![
            ("last_error"@, JsonView::Str(Seq::empty())),
            ("last_event_at"@, JsonView::Null),
            ("reconnects"@, JsonView::Number(crate::json::NumberView::PosInt(0))),
            ("state"@, JsonView::Str("offline"@)),
        ]);
    }
    Json::Object(members)
}

/// The answer to a status or lookup action, or the refusal of an action the
/// authority does not know; such actions change no detail.
fn action_status(action: &str, payload: &Json) -> (r: Json)
    requires
        action@ != "allow_user"@,
        action@ != "disallow_user"@,
        action@ != "add_approval_owner"@,
        action@ != "remove_approval_owner"@,
        action@ != "set_filters"@,
        action@ != "set_hidden_fields"@,
    ensures
        r@ == action_reply(action@, payload@),
{
    proof {
        reveal_strlit("ok");
        reveal_strlit("members");
        reveal_strlit("channels");
        reveal_strlit("installs");
        reveal_strlit("missed");
        reveal_strlit("mode");
        reveal_strlit("relay");
        reveal_strlit("teams");
        assert(crate::json::items_view(Seq::<Json>::empty()) =~= Seq::<JsonView>::empty());
        assert(crate::json::members_view(Seq::<(String, Json)>::empty()) =~= Seq::<(Seq<char>, JsonView)>::empty());
    }
    if str_eq(action, "resolve_unauthorized") {
        ok_object()
    } else if str_eq(action, "directory") {
        ok_with("members", Json::Array(Vec::new()))
    } else if str_eq(action, "channels") {
        ok_with("channels", Json::Array(Vec::new()))
    } else if str_eq(action, "github_status") {
        let members = vec![
            ("installs".to_string(), Json::Object(Vec::new())),
            ("missed".to_string(), Json::Object(Vec::new())),
            ("mode".to_string(), Json::String(String::new())),
            ("ok".to_string(), Json::Bool(true)),
            ("relay".to_string(), offline_relay_json()),
        ];
        proof {
            crate::json::lemma_members_view(members@);
            assert(crate::json::members_view(members@) =~= seq![
                ("installs"@, JsonView::Object(Seq::empty())),
                ("missed"@, JsonView::Object(Seq::empty())),
                ("mode"@, JsonView::Str(Seq::empty())),
                ("ok"@, JsonView::Bool(true)),
                ("relay"@, offline_relay()),
            ]);
        }
        Json::Object(members)
    } else if str_eq(action, "slack_status") {
        let members = vec![
            ("mode".to_string(), Json::String(String::new())),
            ("relay".to_string(), offline_relay_json()),
            ("teams".to_string(), Json::Object(Vec::new())),
        ];
        proof {
            crate::json::lemma_members_view(members@);
            assert(crate::json::members_view(members@) =~= seq![
                ("mode"@, JsonView::Str(Seq::empty())),
                ("relay"@, offline_relay()),
                ("teams"@, JsonView::Object(Seq::empty())),
            ]);
        }
        Json::Object(members)
    } else {
        let message = concat2("unsupported connector action: ", action);
        refusal_json(message.as_str())
    }
}

/// The authority after a product action on connector `name`: the
/// connector's details change as `detail_after` says (it gets a state entry
/// if it had none) and nothing else changes.
pub open spec fn action_effect(
    before: ApplicationAuthority,
    after: ApplicationAuthority,
    name: Seq<char>,
    action: Seq<char>,
    payload: JsonView,
) -> bool {
    &&& find(after.state.connectors@, name) matches Some(c) && {
        &&& forall|k: Seq<char>| #![trigger value_view(c.details@, k)]
            value_view(c.details@, k) == detail_after(
                action,
                payload,
                match find(before.state.connectors@, name) {
                    Some(p) => value_view(p.details@, k),
                    None => None,
                },
                k,
            )
        &&& match find(before.state.connectors@, name) {
            Some(p) => c.connected == p.connected && c.enabled == p.enabled && c.account == p.account && c.tools
                == p.tools,
            None => !c.connected && !c.enabled && c.account is None && c.tools@.len() == 0,
        }
    }
    &&& forall|k: Seq<char>|
        #![trigger find(after.state.connectors@, k)]
        k != name ==> find(after.state.connectors@, k) == find(before.state.connectors@, k)
    &&& after.secrets == before.secrets
    &&& after.state.session_connections == before.state.session_connections
    &&& after.state.subscriptions == before.state.subscriptions
    &&& after.state.inbox_bindings == before.state.inbox_bindings
    &&& after.state.unrouted == before.state.unrouted
    &&& after.state.recent_channels == before.state.recent_channels
    &&& after.state.dm_session == before.state.dm_session
}

/// Connector configuration and routing authority.
#[derive(Debug)]
pub struct ApplicationStore {
    pub authority: ApplicationAuthority,
}

impl ApplicationStore {
    pub fn new(authority: ApplicationAuthority) -> (r: Self)
        ensures
            r.authority == authority,
    {
        ApplicationStore { authority }
    }

    /// Resolve the exact secret keys granted to one capability job.
    ///
    /// Keys use the canonical `connector.field` form. Missing connectors and
    /// fields are omitted rather than widened; nothing but the requested keys
    /// is returned.
    pub fn resolve_capability_secrets(&self, keys: &Vec<String>) -> (r: StrMap<String>)
        ensures
            forall|k: Seq<char>|
                #![trigger find(r@, k)]
                find(r@, k) == if names(keys@).contains(k) {
                    secret_for(self.authority.secrets@, k)
                } else {
                    None
                },
    {
        let mut resolved: StrMap<String> = StrMap::new();
        let mut i: usize = 0;
        while i < keys.len()
            invariant
                i <= keys.len(),
                forall|k: Seq<char>|
                    #![trigger find(resolved@, k)]
                    find(resolved@, k) == if names(keys@).subrange(0, i as int).contains(k) {
                        secret_for(self.authority.secrets@, k)
                    } else {
                        None
                    },
            decreases keys.len() - i,
        {
            let requested = &keys[i];
            let ghost before = names(keys@).subrange(0, i as int);
            proof {
                assert(names(keys@).subrange(0, i + 1) =~= before.push(requested@));
            }
            match split_once(requested.as_str(), '.') {
                None => {},
                Some((connector, field)) => {
                    match self.authority.secrets.get(connector.as_str()) {
                        None => {},
                        Some(profile) => {
                            match profile.get(field.as_str()) {
                                None => {},
                                Some(value) => {
                                    resolved.insert(owned(requested.as_str()), value.clone());
                                },
                            }
                        },
                    }
                },
            }
            proof {
                let after = names(keys@).subrange(0, i + 1);
                assert forall|k: Seq<char>|
                    #![trigger find(resolved@, k)]
                    find(resolved@, k) == if after.contains(k) {
                        secret_for(self.authority.secrets@, k)
                    } else {
                        None
                    } by {
                    if k == requested@ {
                        assert(after[i as int] == k);
                    } else if after.contains(k) {
                        let j = choose|j: int| 0 <= j < after.len() && after[j] == k;
                        assert(before[j] == k);
                    } else {
                        assert forall|j: int| 0 <= j < before.len() implies before[j] != k by {
                            assert(after[j] == before[j]);
                        }
                    }
                }
            }
            i = i + 1;
        }
        proof {
            assert(names(keys@).subrange(0, i as int) =~= names(keys@));
        }
        resolved
    }

    /// Connect `name` with credential `fields`. An unknown connector, or
    /// empty credentials for a connector that needs them, is refused and
    /// changes nothing.
    pub fn connect(&mut self, catalog: &Vec<ConnectorSpec>, name: &str, fields: StrMap<String>) -> (r: Json)
        ensures
            catalog_entry(catalog@, name@) is None ==> {
                &&& r@ == refusal("unknown connector"@)
                &&& final(self).authority == old(self).authority
            },
            catalog_entry(catalog@, name@) matches Some(d) && fields@.len() == 0 && d.auth@ != "none"@
                ==> {
                &&& r@ == refusal("connector credentials are required"@)
                &&& final(self).authority == old(self).authority
            },
            catalog_entry(catalog@, name@) matches Some(d) && (fields@.len() != 0 || d.auth@ == "none"@)
                ==> {
                &&& connected_with(old(self).authority, final(self).authority, name@, fields)
                &&& r@ == JsonView::Object(seq![
                    ("account"@, JsonView::Str(account_for(fields@))),
                    ("ok"@, JsonView::Bool(true)),
                ])
            },
    {
        proof {
            reveal_strlit("error");
            reveal_strlit("ok");
            reveal_strlit("account");
        }
        let index = match catalog_position(catalog, name) {
            None => {
                let members = vec![
                    ("error".to_string(), Json::String("unknown connector".to_string())),
                    ("ok".to_string(), Json::Bool(false)),
                ];
                proof {
                    crate::json::lemma_members_view(members@);
                    assert(crate::json::members_view(members@) =~= seq![
                        ("error"@, JsonView::Str("unknown connector"@)),
                        ("ok"@, JsonView::Bool(false)),
                    ]);
                }
                return Json::Object(members);
            },
            Some(index) => index,
        };
        let descriptor = &catalog[index];
        if fields.len() == 0 && !str_eq(descriptor.auth.as_str(), "none") {
            let members = vec![
                ("error".to_string(), Json::String("connector credentials are required".to_string())),
                ("ok".to_string(), Json::Bool(false)),
            ];
            proof {
                crate::json::lemma_members_view(members@);
                assert(crate::json::members_view(members@) =~= seq![
                    ("error"@, JsonView::Str("connector credentials are required"@)),
                    ("ok"@, JsonView::Bool(false)),
                ]);
            }
            return Json::Object(members);
        }
        let account = match fields.get("email") {
            Some(v) => v.clone(),
            None => match fields.get("account") {
                Some(v) => v.clone(),
                None => match fields.get("workspace") {
                    Some(v) => v.clone(),
                    None => "Connected".to_string(),
                },
            },
        };
        let previous = match self.authority.state.connectors.remove(name) {
            Some(p) => p,
            None => ConnectorState::unset(),
        };
        self.authority.secrets.insert(owned(name), fields);
        self.authority.state.connectors.insert(
            owned(name),
            ConnectorState {
                connected: true,
                enabled: true,
                account: Some(account.clone()),
                tools: previous.tools,
                details: previous.details,
            },
        );
        let members = vec![
            ("account".to_string(), Json::String(account)),
            ("ok".to_string(), Json::Bool(true)),
        ];
        proof {
            crate::json::lemma_members_view(members@);
            assert(crate::json::members_view(members@) =~= seq![
                ("account"@, JsonView::Str(account_for(fields@))),
                ("ok"@, JsonView::Bool(true)),
            ]);
        }
        Json::Object(members)
    }

    /// Forget `name`: its state and its credentials go together. Answers
    /// `{"ok": removed}`, whether the connector had state.
    pub fn disconnect(&mut self, name: &str) -> (r: Json)
        ensures
            disconnected(old(self).authority, final(self).authority, name@),
            r@ == JsonView::Object(seq![
                ("ok"@, JsonView::Bool(find(old(self).authority.state.connectors@, name@) is Some)),
            ]),
    {
        proof {
            reveal_strlit("ok");
        }
        let removed = self.authority.state.connectors.remove(name).is_some();
        self.authority.secrets.remove(name);
        let members = vec![("ok".to_string(), Json::Bool(removed))];
        proof {
            crate::json::lemma_members_view(members@);
            assert(crate::json::members_view(members@) =~= seq![("ok"@, JsonView::Bool(removed))]);
        }
        Json::Object(members)
    }

    /// The connectors of a session: every connected connector with its
    /// account and whether the session has it enabled.
    pub fn session_connections(&self, session_id: &str) -> (r: Json)
        ensures
            r@ == JsonView::Object(seq![
                ("attention"@, JsonView::Number(crate::json::NumberView::PosInt(0))),
                ("connected"@, JsonView::Array(session_rows(
                    self.authority.state.connectors@,
                    find(self.authority.state.session_connections@, session_id@),
                ))),
                ("recommended"@, JsonView::Array(Seq::empty())),
            ]),
    {
        proof {
            reveal_strlit("attention");
            reveal_strlit("connected");
            reveal_strlit("recommended");
            reveal_strlit("connector");
            reveal_strlit("detail");
            reveal_strlit("enabled");
        }
        let state = &self.authority.state;
        let overrides = state.session_connections.get(session_id);
        let ghost ov = find(state.session_connections@, session_id@);
        let n = state.connectors.len();
        let mut rows: Vec<Json> = Vec::new();
        let mut i: usize = 0;
        while i < n
            invariant
                i <= n == state.connectors@.len(),
                overrides is Some <==> ov is Some,
                overrides matches Some(m) ==> ov == Some(*m),
                crate::json::items_view(rows@) == session_rows(state.connectors@.subrange(0, i as int), ov),
            decreases n - i,
        {
            let (name, c) = state.connectors.entry(i);
            proof {
                assert(state.connectors@.subrange(0, i + 1).drop_last() =~= state.connectors@.subrange(0, i as int));
            }
            if c.connected {
                let enabled = match overrides {
                    Some(m) => match m.get(name.as_str()) {
                        Some(v) => *v,
                        None => c.enabled,
                    },
                    None => c.enabled,
                };
                let detail = match &c.account {
                    Some(a) => a.clone(),
                    None => String::new(),
                };
                let members = vec![
                    ("connector".to_string(), Json::String(name.clone())),
                    ("detail".to_string(), Json::String(detail)),
                    ("enabled".to_string(), Json::Bool(enabled)),
                ];
                let row = Json::Object(members);
                proof {
                    crate::json::lemma_members_view(members@);
                    assert(crate::json::members_view(members@) =~= seq![
                        ("connector"@, JsonView::Str(name@)),
                        ("detail"@, JsonView::Str(detail@)),
                        ("enabled"@, JsonView::Bool(enabled)),
                    ]);
                    crate::json::lemma_items_view_push(rows@, row);
                }
                rows.push(row);
            }
            i = i + 1;
        }
        proof {
            assert(state.connectors@.subrange(0, i as int) =~= state.connectors@);
        }
        let members = vec![
            ("attention".to_string(), Json::Number(crate::json::JsonNumber::PosInt(0))),
            ("connected".to_string(), Json::Array(rows)),
            ("recommended".to_string(), Json::Array(Vec::new())),
        ];
        proof {
            crate::json::lemma_members_view(members@);
            assert(crate::json::items_view(Seq::<Json>::empty()) =~= Seq::<JsonView>::empty());
            assert(crate::json::members_view(members@) =~= seq![
                ("attention"@, JsonView::Number(crate::json::NumberView::PosInt(0))),
                ("connected"@, JsonView::Array(session_rows(state.connectors@, ov))),
                ("recommended"@, JsonView::Array(Seq::empty())),
            ]);
        }
        Json::Object(members)
    }

    /// Set (or, with `should_clear`, clear) a session's override for one
    /// connector.
    pub fn set_session_connection(
        &mut self,
        session_id: &str,
        connector: &str,
        is_enabled: bool,
        should_clear: bool,
    ) -> (r: Json)
        ensures
            r@ == accepted(),
            find(final(self).authority.state.session_connections@, session_id@) matches Some(m) && (
            forall|k: Seq<char>|
                #![trigger find(m@, k)]
                find(m@, k) == if k == connector@ {
                    if should_clear {
                        None
                    } else {
                        Some(is_enabled)
                    }
                } else {
                    session_override(old(self).authority.state.session_connections@, session_id@, k)
                }),
            forall|k: Seq<char>|
                #![trigger find(final(self).authority.state.session_connections@, k)]
                k != session_id@ ==> find(final(self).authority.state.session_connections@, k)
                    == find(old(self).authority.state.session_connections@, k),
            final(self).authority.state.connectors == old(self).authority.state.connectors,
            final(self).authority.secrets == old(self).authority.secrets,
            final(self).authority.state.subscriptions == old(self).authority.state.subscriptions,
    {
        proof {
            reveal_strlit("ok");
        }
        let mut overrides = match self.authority.state.session_connections.remove(session_id) {
            Some(m) => m,
            None => StrMap::new(),
        };
        if should_clear {
            overrides.remove(connector);
        } else {
            overrides.insert(owned(connector), is_enabled);
        }
        self.authority.state.session_connections.insert(owned(session_id), overrides);
        ok_object()
    }

    /// Switch individual tools of a connector on or off; answers with the
    /// connector's resulting switches.
    pub fn update_tools(&mut self, name: &str, enabled: &StrMap<bool>) -> (r: Json)
        ensures
            find(final(self).authority.state.connectors@, name@) matches Some(c) && {
                &&& forall|t: Seq<char>|
                    #![trigger find(c.tools@, t)]
                    find(c.tools@, t) == match find(enabled@, t) {
                        Some(v) => Some(v),
                        None => match find(old(self).authority.state.connectors@, name@) {
                            Some(p) => find(p.tools@, t),
                            None => None,
                        },
                    }
                &&& match find(old(self).authority.state.connectors@, name@) {
                    Some(p) => c.connected == p.connected && c.enabled == p.enabled
                        && c.account == p.account && c.details == p.details,
                    None => !c.connected && !c.enabled && c.account is None && c.details@.len() == 0,
                }
                &&& r@ == JsonView::Object(seq![
                    ("ok"@, JsonView::Bool(true)),
                    ("tools"@, JsonView::Object(flags_object(c.tools@))),
                ])
            },
            forall|k: Seq<char>|
                #![trigger find(final(self).authority.state.connectors@, k)]
                k != name@ ==> find(final(self).authority.state.connectors@, k) == find(
                    old(self).authority.state.connectors@,
                    k,
                ),
            final(self).authority.secrets == old(self).authority.secrets,
            final(self).authority.state.session_connections == old(self).authority.state.session_connections,
            final(self).authority.state.subscriptions == old(self).authority.state.subscriptions,
            final(self).authority.state.inbox_bindings == old(self).authority.state.inbox_bindings,
            final(self).authority.state.unrouted == old(self).authority.state.unrouted,
            final(self).authority.state.recent_channels == old(self).authority.state.recent_channels,
            final(self).authority.state.dm_session == old(self).authority.state.dm_session,
    {
        proof {
            reveal_strlit("ok");
            reveal_strlit("tools");
        }
        let mut connector = match self.authority.state.connectors.remove(name) {
            Some(c) => c,
            None => ConnectorState::unset(),
        };
        let ghost initial = connector.tools@;
        let ghost start = connector;
        let n = enabled.len();
        let mut i: usize = 0;
        while i < n
            invariant
                i <= n == enabled@.len(),
                connector.connected == start.connected,
                connector.enabled == start.enabled,
                connector.account == start.account,
                connector.details == start.details,
                crate::strmap::ascending(enabled@),
                forall|t: Seq<char>|
                    #![trigger find(connector.tools@, t)]
                    find(connector.tools@, t) == match find(enabled@.subrange(0, i as int), t) {
                        Some(v) => Some(v),
                        None => find(initial, t),
                    },
            decreases n - i,
        {
            let (tool, value) = enabled.entry(i);
            proof {
                let before = enabled@.subrange(0, i as int);
                let after = enabled@.subrange(0, i + 1);
                assert forall|t: Seq<char>| #![trigger find(after, t)]
                    find(after, t) == if t == tool@ { Some(*value) } else { find(before, t) } by {
                    lemma_find_extend(enabled@, i as int, t);
                }
            }
            connector.tools.insert(tool.clone(), *value);
            i = i + 1;
        }
        proof {
            assert(enabled@.subrange(0, i as int) =~= enabled@);
        }
        let tools = flags_json(&connector.tools);
        self.authority.state.connectors.insert(owned(name), connector);
        let members = vec![("ok".to_string(), Json::Bool(true)), ("tools".to_string(), tools)];
        proof {
            crate::json::lemma_members_view(members@);
            let c = find(self.authority.state.connectors@, name@)->Some_0;
            assert(crate::json::members_view(members@) =~= seq![
                ("ok"@, JsonView::Bool(true)),
                ("tools"@, JsonView::Object(flags_object(c.tools@))),
            ]);
        }
        Json::Object(members)
    }

    /// Subscribe a session to a channel. A subscription is stored once:
    /// an earlier one for the same pair is replaced.
    pub fn subscribe(&mut self, session_id: &str, channel: &str) -> (r: Json)
        ensures
            session_id@.len() == 0 || crate::text::seq_trim(channel@).len() == 0 ==> {
                &&& r@ == refusal("session and channel are required"@)
                &&& final(self).authority == old(self).authority
            },
            session_id@.len() != 0 && crate::text::seq_trim(channel@).len() != 0 ==> {
                &&& crate::json::items_view(final(self).authority.state.subscriptions@) == drop_subscription(
                    crate::json::items_view(old(self).authority.state.subscriptions@),
                    session_id@,
                    channel@,
                ).push(subscription_record(session_id@, channel@))
                &&& r@ == JsonView::Object(seq![
                    ("channel"@, JsonView::Str(channel@)),
                    ("ok"@, JsonView::Bool(true)),
                ])
                &&& final(self).authority.state.connectors == old(self).authority.state.connectors
                &&& final(self).authority.state.session_connections == old(self).authority.state.session_connections
                &&& final(self).authority.secrets == old(self).authority.secrets
                &&& final(self).authority.state.inbox_bindings == old(self).authority.state.inbox_bindings
                &&& final(self).authority.state.unrouted == old(self).authority.state.unrouted
                &&& final(self).authority.state.recent_channels == old(self).authority.state.recent_channels
                &&& final(self).authority.state.dm_session == old(self).authority.state.dm_session
            },
    {
        proof {
            reveal_strlit("ok");
            reveal_strlit("error");
            reveal_strlit("channel");
        }
        let trimmed = crate::text::trim(channel);
        if session_id.is_empty() || trimmed.as_str().is_empty() {
            return refusal_json("session and channel are required");
        }
        let mut kept = without_subscription(&self.authority.state.subscriptions, session_id, channel);
        let record = subscription_json(session_id, channel);
        proof {
            crate::json::lemma_items_view_push(kept@, record);
        }
        kept.push(record);
        self.authority.state.subscriptions = kept;
        let members = vec![
            ("channel".to_string(), Json::String(owned(channel))),
            ("ok".to_string(), Json::Bool(true)),
        ];
        proof {
            crate::json::lemma_members_view(members@);
            assert(crate::json::members_view(members@) =~= seq![
                ("channel"@, JsonView::Str(channel@)),
                ("ok"@, JsonView::Bool(true)),
            ]);
        }
        Json::Object(members)
    }

    /// Remove a session's subscription to a channel; answers whether one was
    /// there.
    pub fn unsubscribe(&mut self, session_id: &str, channel: &str) -> (r: Json)
        ensures
            crate::json::items_view(final(self).authority.state.subscriptions@) == drop_subscription(
                crate::json::items_view(old(self).authority.state.subscriptions@),
                session_id@,
                channel@,
            ),
            r@ == JsonView::Object(seq![
                ("ok"@, JsonView::Bool(true)),
                ("removed"@, JsonView::Bool(
                    final(self).authority.state.subscriptions@.len() != old(self).authority.state.subscriptions@.len(),
                )),
            ]),
            final(self).authority.state.connectors == old(self).authority.state.connectors,
            final(self).authority.secrets == old(self).authority.secrets,
            final(self).authority.state.session_connections == old(self).authority.state.session_connections,
            final(self).authority.state.inbox_bindings == old(self).authority.state.inbox_bindings,
            final(self).authority.state.unrouted == old(self).authority.state.unrouted,
            final(self).authority.state.recent_channels == old(self).authority.state.recent_channels,
            final(self).authority.state.dm_session == old(self).authority.state.dm_session,
    {
        proof {
            reveal_strlit("ok");
            reveal_strlit("removed");
        }
        let before = self.authority.state.subscriptions.len();
        let kept = without_subscription(&self.authority.state.subscriptions, session_id, channel);
        let removed = kept.len() != before;
        self.authority.state.subscriptions = kept;
        let members = vec![
            ("ok".to_string(), Json::Bool(true)),
            ("removed".to_string(), Json::Bool(removed)),
        ];
        proof {
            crate::json::lemma_members_view(members@);
            crate::json::lemma_items_view(self.authority.state.subscriptions@);
            crate::json::lemma_items_view(old(self).authority.state.subscriptions@);
            assert(crate::json::members_view(members@) =~= seq![
                ("ok"@, JsonView::Bool(true)),
                ("removed"@, JsonView::Bool(removed)),
            ]);
        }
        Json::Object(members)
    }

    /// Bind an inbox name to a channel and a target, replacing an earlier
    /// binding of that name; answers with all bindings.
    pub fn set_inbox_binding(&mut self, name: &str, channel: Option<&str>, target: &str) -> (r: Json)
        ensures
            crate::json::items_view(final(self).authority.state.inbox_bindings@) == drop_binding(
                crate::json::items_view(old(self).authority.state.inbox_bindings@),
                name@,
            ).push(binding_record(name@, match channel {
                Some(c) => Some(c@),
                None => None,
            }, target@)),
            r@ == JsonView::Object(seq![
                ("bindings"@, JsonView::Array(crate::json::items_view(final(self).authority.state.inbox_bindings@))),
                ("ok"@, JsonView::Bool(true)),
            ]),
            final(self).authority.state.connectors == old(self).authority.state.connectors,
            final(self).authority.secrets == old(self).authority.secrets,
            final(self).authority.state.subscriptions == old(self).authority.state.subscriptions,
            final(self).authority.state.session_connections == old(self).authority.state.session_connections,
            final(self).authority.state.unrouted == old(self).authority.state.unrouted,
            final(self).authority.state.recent_channels == old(self).authority.state.recent_channels,
            final(self).authority.state.dm_session == old(self).authority.state.dm_session,
    {
        proof {
            reveal_strlit("ok");
            reveal_strlit("bindings");
            reveal_strlit("channel");
            reveal_strlit("name");
            reveal_strlit("target");
        }
        let mut kept = without_binding(&self.authority.state.inbox_bindings, name);
        let channel_json = match channel {
            Some(c) => Json::String(owned(c)),
            None => Json::Null,
        };
        let record_members = vec![
            ("channel".to_string(), channel_json),
            ("name".to_string(), Json::String(owned(name))),
            ("target".to_string(), Json::String(owned(target))),
        ];
        let record = Json::Object(record_members);
        let ghost channel_view: Option<Seq<char>> = match channel {
            Some(c) => Some(c@),
            None => None,
        };
        proof {
            crate::json::lemma_members_view(record_members@);
            assert(crate::json::members_view(record_members@) =~= seq![
                ("channel"@, match channel_view {
                    Some(c) => JsonView::Str(c),
                    None => JsonView::Null,
                }),
                ("name"@, JsonView::Str(name@)),
                ("target"@, JsonView::Str(target@)),
            ]);
            assert(record@ == binding_record(name@, channel_view, target@));
            crate::json::lemma_items_view_push(kept@, record);
        }
        kept.push(record);
        self.authority.state.inbox_bindings = kept;
        let bindings = crate::json::clone_items(&self.authority.state.inbox_bindings);
        let members = vec![
            ("bindings".to_string(), Json::Array(bindings)),
            ("ok".to_string(), Json::Bool(true)),
        ];
        proof {
            crate::json::lemma_members_view(members@);
            assert(crate::json::members_view(members@) =~= seq![
                ("bindings"@, JsonView::Array(crate::json::items_view(self.authority.state.inbox_bindings@))),
                ("ok"@, JsonView::Bool(true)),
            ]);
        }
        Json::Object(members)
    }

    /// Route direct messages to `session_id`; an empty id clears the route.
    pub fn set_dm_route(&mut self, session_id: &str) -> (r: Json)
        ensures
            final(self).authority.state.dm_session is None <==> session_id@.len() == 0,
            final(self).authority.state.dm_session matches Some(s) ==> s@ == session_id@,
            r@ == JsonView::Object(seq![
                ("dm_session"@, if session_id@.len() == 0 {
                    JsonView::Null
                } else {
                    JsonView::Str(session_id@)
                }),
                ("ok"@, JsonView::Bool(true)),
            ]),
            final(self).authority.state.connectors == old(self).authority.state.connectors,
            final(self).authority.secrets == old(self).authority.secrets,
            final(self).authority.state.subscriptions == old(self).authority.state.subscriptions,
            final(self).authority.state.session_connections == old(self).authority.state.session_connections,
            final(self).authority.state.inbox_bindings == old(self).authority.state.inbox_bindings,
            final(self).authority.state.unrouted == old(self).authority.state.unrouted,
            final(self).authority.state.recent_channels == old(self).authority.state.recent_channels,
    {
        proof {
            reveal_strlit("ok");
            reveal_strlit("dm_session");
        }
        let route = if session_id.is_empty() {
            None
        } else {
            Some(owned(session_id))
        };
        let shown = match &route {
            Some(s) => Json::String(s.clone()),
            None => Json::Null,
        };
        self.authority.state.dm_session = route;
        let members = vec![("dm_session".to_string(), shown), ("ok".to_string(), Json::Bool(true))];
        proof {
            crate::json::lemma_members_view(members@);
            assert(crate::json::members_view(members@) =~= seq![
                ("dm_session"@, if session_id@.len() == 0 {
                    JsonView::Null
                } else {
                    JsonView::Str(session_id@)
                }),
                ("ok"@, JsonView::Bool(true)),
            ]);
        }
        Json::Object(members)
    }

    /// The catalog as the product shows it: one row per catalog entry with
    /// its connection state. Credentials never appear in a row.
    pub fn connectors(&self, catalog: &Vec<ConnectorSpec>) -> (r: Vec<Json>)
        ensures
            r@.len() == catalog@.len(),
            forall|i: int|
                0 <= i < r@.len() ==> #[trigger] is_connector_row(r@[i]@, catalog@[i], self.authority.state),
    {
        let mut rows: Vec<Json> = Vec::new();
        let mut i: usize = 0;
        while i < catalog.len()
            invariant
                i <= catalog.len(),
                rows@.len() == i,
                forall|j: int| 0 <= j < i ==> #[trigger] is_connector_row(rows@[j]@, catalog@[j], self.authority.state),
            decreases catalog.len() - i,
        {
            rows.push(connector_row(&catalog[i], &self.authority.state));
            i = i + 1;
        }
        rows
    }

    /// Perform a product action on a connector's details (allowed users,
    /// approval owners, filters, hidden fields) or report a status. The
    /// connector gets a state entry if it had none.
    #[verifier::rlimit(60)]
    #[verifier::spinoff_prover]
    pub fn action(&mut self, name: &str, action: &str, payload: &Json) -> (r: Json)
        ensures
            r@ == action_reply(action@, payload@),
            find(final(self).authority.state.connectors@, name@) matches Some(c) && {
                &&& forall|k: Seq<char>| #![trigger value_view(c.details@, k)]
                    value_view(c.details@, k) == detail_after(
                        action@,
                        payload@,
                        match find(old(self).authority.state.connectors@, name@) {
                            Some(p) => value_view(p.details@, k),
                            None => None,
                        },
                        k,
                    )
                &&& match find(old(self).authority.state.connectors@, name@) {
                    Some(p) => c.connected == p.connected && c.enabled == p.enabled && c.account == p.account
                        && c.tools == p.tools,
                    None => !c.connected && !c.enabled && c.account is None && c.tools@.len() == 0,
                }
            },
            forall|k: Seq<char>|
                #![trigger find(final(self).authority.state.connectors@, k)]
                k != name@ ==> find(final(self).authority.state.connectors@, k) == find(
                    old(self).authority.state.connectors@,
                    k,
                ),
            final(self).authority.secrets == old(self).authority.secrets,
            final(self).authority.state.session_connections == old(self).authority.state.session_connections,
            final(self).authority.state.subscriptions == old(self).authority.state.subscriptions,
            final(self).authority.state.inbox_bindings == old(self).authority.state.inbox_bindings,
            final(self).authority.state.unrouted == old(self).authority.state.unrouted,
            final(self).authority.state.recent_channels == old(self).authority.state.recent_channels,
            final(self).authority.state.dm_session == old(self).authority.state.dm_session,
            action_effect(old(self).authority, final(self).authority, name@, action@, payload@),
    {
        proof {
            reveal_strlit("allow_user");
            reveal_strlit("disallow_user");
            reveal_strlit("add_approval_owner");
            reveal_strlit("remove_approval_owner");
            reveal_strlit("set_filters");
            reveal_strlit("set_hidden_fields");
            reveal_strlit("allowed_users");
            reveal_strlit("approval_owner_ids");
            reveal_strlit("filters");
            reveal_strlit("hidden_fields");
            reveal_strlit("user_id");
            reveal_strlit("fields");
            reveal_strlit("resolve_unauthorized");
            reveal_strlit("directory");
            reveal_strlit("channels");
            reveal_strlit("github_status");
            reveal_strlit("slack_status");
        }
        let mut connector = match self.authority.state.connectors.remove(name) {
            Some(c) => c,
            None => ConnectorState::unset(),
        };
        let ghost before = connector.details@;
        let user = match payload.str_field("user_id") {
            Some(u) => owned(u),
            None => String::new(),
        };
        proof {
            assert(("allowed_users"@)[0] == 'a' && ("hidden_fields"@)[0] == 'h');
            assert(("allowed_users"@) != ("hidden_fields"@));
        }
        let response = if str_eq(action, "allow_user") {
            proof {
                assert(user@ == action_user(payload@));
                assert(action@ == "allow_user"@);
            }
            add_string(&mut connector.details, "allowed_users", user.as_str());
            proof {
                assert forall|k: Seq<char>| #![trigger value_view(connector.details@, k)]
                    value_view(connector.details@, k) == detail_after(action@, payload@, value_view(before, k), k) by {
                    if k == "allowed_users"@ {
                        assert(detail_after(action@, payload@, value_view(before, k), k) == with_string(
                            value_view(before, k),
                            user@,
                        ));
                    } else {
                        assert(detail_after(action@, payload@, value_view(before, k), k) == value_view(before, k));
                    }
                }
            }
            let resp = ok_object();
            proof {
                assert(resp@ == action_reply(action@, payload@));
            }
            resp
        } else if str_eq(action, "disallow_user") {
            remove_string(&mut connector.details, "allowed_users", user.as_str());
            proof {
                assert forall|k: Seq<char>| #![trigger value_view(connector.details@, k)]
                    value_view(connector.details@, k) == detail_after(action@, payload@, value_view(before, k), k) by {}
            }
            let resp = ok_object();
            proof {
                assert(resp@ == action_reply(action@, payload@));
            }
            resp
        } else if str_eq(action, "add_approval_owner") {
            add_string(&mut connector.details, "approval_owner_ids", user.as_str());
            proof {
                assert forall|k: Seq<char>| #![trigger value_view(connector.details@, k)]
                    value_view(connector.details@, k) == detail_after(action@, payload@, value_view(before, k), k) by {}
            }
            let resp = ok_object();
            proof {
                assert(resp@ == action_reply(action@, payload@));
            }
            resp
        } else if str_eq(action, "remove_approval_owner") {
            remove_string(&mut connector.details, "approval_owner_ids", user.as_str());
            proof {
                assert forall|k: Seq<char>| #![trigger value_view(connector.details@, k)]
                    value_view(connector.details@, k) == detail_after(action@, payload@, value_view(before, k), k) by {}
            }
            let resp = ok_object();
            proof {
                assert(resp@ == action_reply(action@, payload@));
            }
            resp
        } else if str_eq(action, "set_filters") {
            connector.details.insert("filters".to_string(), payload.deep_clone());
            proof {
                assert forall|k: Seq<char>| #![trigger value_view(connector.details@, k)]
                    value_view(connector.details@, k) == detail_after(action@, payload@, value_view(before, k), k) by {}
            }
            let resp = ok_with("filters", payload.deep_clone());
            proof {
                assert(resp@ == action_reply(action@, payload@));
            }
            resp
        } else if str_eq(action, "set_hidden_fields") {
            let fields = match payload.get("fields") {
                Some(f) => f.deep_clone(),
                None => Json::Array(Vec::new()),
            };
            proof {
                assert(crate::json::items_view(Seq::<Json>::empty()) =~= Seq::<JsonView>::empty());
            }
            let shown = fields.deep_clone();
            connector.details.insert("hidden_fields".to_string(), fields);
            proof {
                assert forall|k: Seq<char>| #![trigger value_view(connector.details@, k)]
                    value_view(connector.details@, k) == detail_after(action@, payload@, value_view(before, k), k) by {}
            }
            let resp = ok_with("hidden_fields", shown);
            proof {
                assert(resp@ == action_reply(action@, payload@));
            }
            resp
        } else {
            proof {
                assert forall|k: Seq<char>| #![trigger value_view(connector.details@, k)]
                    value_view(connector.details@, k) == detail_after(action@, payload@, value_view(before, k), k) by {}
            }
            let resp = action_status(action, payload);
            proof {
                assert(resp@ == action_reply(action@, payload@));
            }
            resp
        };
        self.authority.state.connectors.insert(owned(name), connector);
        response
    }

    /// The session that receives direct messages, if one is set.
    pub fn dm_route(&self) -> (r: Option<String>)
        ensures
            r == self.authority.state.dm_session,
    {
        match &self.authority.state.dm_session {
            Some(session) => Some(session.clone()),
            None => None,
        }
    }

    /// The connectors that are connected and enabled, in name order.
    pub fn connected_names(&self) -> (r: Vec<String>)
        ensures
            names(r@) == live_connectors(self.authority.state.connectors@),
    {
        let connectors = &self.authority.state.connectors;
        let n = connectors.len();
        let mut out: Vec<String> = Vec::new();
        let mut i: usize = 0;
        while i < n
            invariant
                i <= n == connectors@.len(),
                names(out@) == live_connectors(connectors@.subrange(0, i as int)),
            decreases n - i,
        {
            let (name, state) = connectors.entry(i);
            proof {
                assert(connectors@.subrange(0, i + 1).drop_last() =~= connectors@.subrange(0, i as int));
            }
            if state.connected && state.enabled {
                let ghost prev = out@;
                out.push(owned(name.as_str()));
                proof {
                    assert(names(out@) =~= names(prev).push(name@));
                }
            }
            i = i + 1;
        }
        proof {
            assert(connectors@.subrange(0, i as int) =~= connectors@);
        }
        out
    }

    /// Whether a connector's tool may be offered (in `session_id`, when
    /// given).
    pub fn tool_available(
        &self,
        connector_name: &str,
        tool_name: &str,
        session_id: Option<&str>,
    ) -> (r: bool)
        ensures
            r == tool_is_available(
                self.authority.state,
                connector_name@,
                tool_name@,
                match session_id {
                    Some(s) => Some(s@),
                    None => None,
                },
            ),
    {
        let state = &self.authority.state;
        let connector = match state.connectors.get(connector_name) {
            None => {
                return false;
            },
            Some(c) => c,
        };
        if !connector.connected || !connector.enabled {
            return false;
        }
        match session_id {
            Some(session) => {
                match state.session_connections.get(session) {
                    Some(overrides) => {
                        match overrides.get(connector_name) {
                            Some(value) => {
                                if !*value {
                                    return false;
                                }
                            },
                            None => {},
                        }
                    },
                    None => {},
                }
            },
            None => {},
        }
        match connector.tools.get(tool_name) {
            Some(value) => *value,
            None => true,
        }
    }
}

/// Connecting and then disconnecting a connector commits its state and its
/// credentials together: after the connect both are present, after the
/// disconnect neither is.
pub proof fn law_connect_and_disconnect_commit_together(
    a0: ApplicationAuthority,
    a1: ApplicationAuthority,
    a2: ApplicationAuthority,
    name: Seq<char>,
    fields: StrMap<String>,
)
    requires
        connected_with(a0, a1, name, fields),
        disconnected(a1, a2, name),
    ensures
        find(a1.secrets@, name) == Some(fields),
        find(a1.state.connectors@, name) matches Some(c) && c.connected,
        find(a2.secrets@, name) is None,
        find(a2.state.connectors@, name) is None,
{
}

/// The stored subscription record is the subscription it records.
proof fn lemma_record_is_its_subscription(session: Seq<char>, channel: Seq<char>)
    ensures
        same_subscription(subscription_record(session, channel), session, channel),
{
    reveal_strlit("agent");
    reveal_strlit("channel");
    reveal_strlit("channel_name");
    reveal_strlit("collision");
    reveal_strlit("routing_target");
    reveal_strlit("session_id");
    reveal_strlit("session_title");
    let m = seq![
        ("agent"@, JsonView::Str("delta"@)),
        ("channel"@, JsonView::Str(channel)),
        ("channel_name"@, JsonView::Null),
        ("collision"@, JsonView::Bool(false)),
        ("routing_target"@, JsonView::Null),
        ("session_id"@, JsonView::Str(session)),
        ("session_title"@, JsonView::Str(Seq::empty())),
    ];
    assert(("agent"@).len() == 5 && ("channel"@).len() == 7 && ("session_id"@).len() == 10);
    assert(m[0].0 == "agent"@);
    assert(m[0].0 != "channel"@);
    assert(m[0].0 != "session_id"@);
    assert(m[1].0 != "session_id"@);
    assert(m[2].0 != "session_id"@);
    assert(m[3].0 != "session_id"@);
    assert(m[4].0 != "session_id"@);
    reveal_with_fuel(crate::json::lookup, 7);
    assert(m.drop_first()[0] == m[1]);
    assert(crate::json::lookup(m, "channel"@) == Some(JsonView::Str(channel)));
    assert(m.drop_first().drop_first().drop_first().drop_first().drop_first() =~= m.subrange(5, 7));
    assert(crate::json::lookup(m, "session_id"@) == Some(JsonView::Str(session)));
}

/// Dropping a subscription twice drops nothing more.
proof fn lemma_drop_subscription_twice(items: Seq<JsonView>, session: Seq<char>, channel: Seq<char>)
    ensures
        drop_subscription(drop_subscription(items, session, channel), session, channel)
            == drop_subscription(items, session, channel),
        forall|i: int|
            0 <= i < drop_subscription(items, session, channel).len() ==> !same_subscription(
                #[trigger] drop_subscription(items, session, channel)[i],
                session,
                channel,
            ),
    decreases items.len(),
{
    if items.len() > 0 {
        lemma_drop_subscription_twice(items.drop_last(), session, channel);
        let rest = drop_subscription(items.drop_last(), session, channel);
        if !same_subscription(items.last(), session, channel) {
            assert(rest.push(items.last()).drop_last() =~= rest);
        }
    }
}

/// Subscribing is idempotent: subscribing a session to a channel a second
/// time leaves the subscriptions exactly as the first time did.
pub proof fn law_subscribe_is_idempotent(items: Seq<JsonView>, session: Seq<char>, channel: Seq<char>)
    ensures
        ({
            let once = drop_subscription(items, session, channel).push(subscription_record(session, channel));
            drop_subscription(once, session, channel).push(subscription_record(session, channel)) == once
        }),
{
    lemma_record_is_its_subscription(session, channel);
    lemma_drop_subscription_twice(items, session, channel);
    let dropped = drop_subscription(items, session, channel);
    let once = dropped.push(subscription_record(session, channel));
    assert(once.drop_last() =~= dropped);
}

/// After a subscription is removed no subscription of that session to that
/// channel remains, and removing what was just added restores the rest.
pub proof fn law_unsubscribe_removes_the_subscription(items: Seq<JsonView>, session: Seq<char>, channel: Seq<char>)
    ensures
        forall|i: int|
            0 <= i < drop_subscription(items, session, channel).len() ==> !same_subscription(
                #[trigger] drop_subscription(items, session, channel)[i],
                session,
                channel,
            ),
        drop_subscription(
            drop_subscription(items, session, channel).push(subscription_record(session, channel)),
            session,
            channel,
        ) == drop_subscription(items, session, channel),
{
    lemma_record_is_its_subscription(session, channel);
    lemma_drop_subscription_twice(items, session, channel);
    let dropped = drop_subscription(items, session, channel);
    assert(dropped.push(subscription_record(session, channel)).drop_last() =~= dropped);
}

/// The tool switch law: a tool is never offered through a connector that is
/// not connected, not enabled, or switched off for the session.
pub proof fn law_no_tool_through_an_unavailable_connector(
    state: ApplicationState,
    connector: Seq<char>,
    tool: Seq<char>,
    session: Option<Seq<char>>,
)
    ensures
        find(state.connectors@, connector) matches Some(c) && (!c.connected || !c.enabled)
            ==> !tool_is_available(state, connector, tool, session),
        find(state.connectors@, connector) is None ==> !tool_is_available(state, connector, tool, session),
        session matches Some(sid) && session_override(state.session_connections@, sid, connector) == Some(false)
            ==> !tool_is_available(state, connector, tool, session),
{
}

/// Secrets never cross the product boundary: a connector's product row is
/// determined by its catalog entry and the routing state alone, so two
/// authorities that differ only in their credentials show the same rows.
pub proof fn law_rows_never_show_credentials(
    spec: ConnectorSpec,
    a1: ApplicationAuthority,
    a2: ApplicationAuthority,
    row1: JsonView,
    row2: JsonView,
)
    requires
        a1.state == a2.state,
        is_connector_row(row1, spec, a1.state),
        is_connector_row(row2, spec, a2.state),
    ensures
        row1 == row2,
{
    let m1 = row1->Object_0;
    let m2 = row2->Object_0;
    assert forall|k: Seq<char>| #![trigger crate::json::lookup(m1, k), crate::json::lookup(m2, k)]
        crate::json::lookup(m1, k) == crate::json::lookup(m2, k) by {}
    crate::json::lemma_ascending_members_equal(m1, m2);
}

/// The connector listing ignores credentials: two stores whose routing
/// state is the same list the same rows for a catalog, whatever their
/// secrets.
pub proof fn law_listing_ignores_secrets(
    catalog: Seq<ConnectorSpec>,
    s1: ApplicationStore,
    s2: ApplicationStore,
    rows1: Seq<JsonView>,
    rows2: Seq<JsonView>,
)
    requires
        s1.authority.state == s2.authority.state,
        rows1.len() == catalog.len(),
        rows2.len() == catalog.len(),
        forall|i: int| 0 <= i < rows1.len() ==> #[trigger] is_connector_row(rows1[i], catalog[i], s1.authority.state),
        forall|i: int| 0 <= i < rows2.len() ==> #[trigger] is_connector_row(rows2[i], catalog[i], s2.authority.state),
    ensures
        rows1 == rows2,
{
    assert forall|i: int| 0 <= i < rows1.len() implies rows1[i] == rows2[i] by {
        law_rows_never_show_credentials(catalog[i], s1.authority, s2.authority, rows1[i], rows2[i]);
    }
    assert(rows1 =~= rows2);
}

/// Allowing a user twice is allowing it once: the second `allow_user`
/// leaves every detail as the first left it, and the user is then listed.
pub proof fn law_allow_user_is_idempotent(payload: JsonView, old: Option<JsonView>, k: Seq<char>)
    ensures
        detail_after("allow_user"@, payload, detail_after("allow_user"@, payload, old, k), k) == detail_after(
            "allow_user"@,
            payload,
            old,
            k,
        ),
        (old is None || old matches Some(JsonView::Array(_))) ==> (detail_after(
            "allow_user"@,
            payload,
            old,
            "allowed_users"@,
        ) matches Some(JsonView::Array(a)) && holds_string(a, action_user(payload))),
{
    reveal_strlit("allow_user");
    reveal_strlit("disallow_user");
    reveal_strlit("add_approval_owner");
    reveal_strlit("remove_approval_owner");
    reveal_strlit("set_filters");
    reveal_strlit("set_hidden_fields");
    assert("allow_user"@.len() == 10 && "disallow_user"@.len() == 13 && "add_approval_owner"@.len() == 18);
    assert("remove_approval_owner"@.len() == 21 && "set_filters"@.len() == 11 && "set_hidden_fields"@.len() == 17);
    let u = action_user(payload);
    if k != "allowed_users"@ {
        assert(detail_after("allow_user"@, payload, old, k) == old);
        assert(detail_after("allow_user"@, payload, detail_after("allow_user"@, payload, old, k), k) == old);
    }
    match old {
        None => {
            assert(seq![JsonView::Str(u)][0].as_str() == Some(u));
        },
        Some(JsonView::Array(a)) => {
            if !holds_string(a, u) {
                assert(a.push(JsonView::Str(u))[a.len() as int].as_str() == Some(u));
            }
        },
        Some(_) => {},
    }
}

/// `drop_string` leaves no copy of the string.
proof fn lemma_drop_string_drops_all(items: Seq<JsonView>, v: Seq<char>)
    ensures
        !holds_string(drop_string(items, v), v),
    decreases items.len(),
{
    if items.len() > 0 {
        lemma_drop_string_drops_all(items.drop_last(), v);
        let rest = drop_string(items.drop_last(), v);
        if items.last().as_str() != Some(v) {
            assert forall|i: int| 0 <= i < rest.push(items.last()).len() implies #[trigger] rest.push(
                items.last(),
            )[i].as_str() != Some(v) by {
                if i < rest.len() {
                    assert(rest.push(items.last())[i] == rest[i]);
                }
            }
        }
    }
}

/// `disallow_user` takes every occurrence of the user out of the allowed
/// users.
pub proof fn law_disallow_user_removes_every_occurrence(payload: JsonView, old: Option<JsonView>)
    ensures
        detail_after("disallow_user"@, payload, old, "allowed_users"@) matches Some(JsonView::Array(a)) ==> !holds_string(
            a,
            action_user(payload),
        ),
{
    reveal_strlit("allow_user");
    reveal_strlit("disallow_user");
    reveal_strlit("add_approval_owner");
    reveal_strlit("remove_approval_owner");
    reveal_strlit("set_filters");
    reveal_strlit("set_hidden_fields");
    assert("allow_user"@.len() == 10 && "disallow_user"@.len() == 13 && "add_approval_owner"@.len() == 18);
    assert("remove_approval_owner"@.len() == 21 && "set_filters"@.len() == 11 && "set_hidden_fields"@.len() == 17);
    assert(detail_after("disallow_user"@, payload, old, "allowed_users"@) == without_string(old, action_user(payload)));
    if let Some(JsonView::Array(a)) = old {
        lemma_drop_string_drops_all(a, action_user(payload));
    }
}

/// Repeating `allow_user` changes nothing: after a second `allow_user` for
/// the same user, every connector, its flags, account, tools and details,
/// the credentials and the routing state are as the first left them.
pub proof fn law_repeated_allow_user_changes_nothing(
    a0: ApplicationAuthority,
    a1: ApplicationAuthority,
    a2: ApplicationAuthority,
    name: Seq<char>,
    payload: JsonView,
)
    requires
        action_effect(a0, a1, name, "allow_user"@, payload),
        action_effect(a1, a2, name, "allow_user"@, payload),
    ensures
        forall|k: Seq<char>|
            #![trigger find(a2.state.connectors@, k)]
            k != name ==> find(a2.state.connectors@, k) == find(a1.state.connectors@, k),
        find(a2.state.connectors@, name) matches Some(c2) && find(a1.state.connectors@, name) matches Some(c1) && {
            &&& c2.connected == c1.connected && c2.enabled == c1.enabled && c2.account == c1.account && c2.tools
                == c1.tools
            &&& forall|k: Seq<char>| #![trigger value_view(c2.details@, k)]
                value_view(c2.details@, k) == value_view(c1.details@, k)
        },
        a2.secrets == a1.secrets,
        a2.state.session_connections == a1.state.session_connections,
        a2.state.subscriptions == a1.state.subscriptions,
        a2.state.inbox_bindings == a1.state.inbox_bindings,
        a2.state.unrouted == a1.state.unrouted,
        a2.state.recent_channels == a1.state.recent_channels,
        a2.state.dm_session == a1.state.dm_session,
{
    let c1 = find(a1.state.connectors@, name)->0;
    let c2 = find(a2.state.connectors@, name)->0;
    assert forall|k: Seq<char>| #![trigger value_view(c2.details@, k)]
        value_view(c2.details@, k) == value_view(c1.details@, k) by {
        let before = match find(a0.state.connectors@, name) {
            Some(p) => value_view(p.details@, k),
            None => None,
        };
        assert(value_view(c1.details@, k) == detail_after("allow_user"@, payload, before, k));
        law_allow_user_is_idempotent(payload, before, k);
    }
}

} // verus!
