//! The connector catalog: the foundation baseline and the catalogs that
//! installed extensions add to it.
//!
//! An extension catalog is taken whole or not at all. It must declare the
//! current catalog version and the name of the directory it was installed
//! in, and every entry must have a name and a title, must not replace a
//! connector already in the catalog, and must ask for a detail view the
//! product knows.

use vstd::prelude::*;

use crate::application::{ConnectorSpec, ConnectorUiSpec};
use crate::json::{Json, JsonView};
use crate::text::{lemma_names_push, names, owned, seq_trim, str_eq, trim};

verus! {

/// The catalog format version this authority reads.
pub const CONNECTOR_CATALOG_VERSION: u32 = 1;

/// The default of every boolean catalog switch that defaults to on.
pub fn default_true() -> (r: bool)
    ensures
        r,
{
    true
}

/// The neutral brand color of a connector that declares none.
pub open spec fn neutral_brand_color() -> Seq<char> {
    "#6b7280"@
}

pub fn default_brand_color() -> (r: String)
    ensures
        r@ == neutral_brand_color(),
{
    "#6b7280".to_string()
}

/// The detail views the product can draw.
pub open spec fn is_detail_view(v: Seq<char>) -> bool {
    ||| v == ""@
    ||| v == "generic"@
    ||| v == "accounts"@
    ||| v == "mail_accounts_privacy"@
    ||| v == "calendar_accounts"@
    ||| v == "crm_portals_privacy"@
    ||| v == "workspace_chat"@
    ||| v == "code_host_installations"@
}

pub fn supported_detail_view(value: &str) -> (r: bool)
    ensures
        r == is_detail_view(value@),
{
    str_eq(value, "") || str_eq(value, "generic") || str_eq(value, "accounts") || str_eq(
        value,
        "mail_accounts_privacy",
    ) || str_eq(value, "calendar_accounts") || str_eq(value, "crm_portals_privacy") || str_eq(
        value,
        "workspace_chat",
    ) || str_eq(value, "code_host_installations")
}

/// A catalog as an extension ships it.
#[derive(Debug)]
pub struct ConnectorCatalogManifest {
    pub version: u32,
    pub source: String,
    pub connectors: Vec<ConnectorSpec>,
}

/// Why an extension catalog was ignored.
#[derive(Debug)]
pub enum CatalogRejection {
    UnsupportedVersion(u32),
    /// The declared source (trimmed) is empty or is not the directory name.
    SourceMismatch { source: String, directory: String },
    MissingNameOrTitle,
    /// An entry would replace a connector already in the catalog.
    ReplacesConnector(String),
    UnsupportedDetailView(String),
}

pub enum RejectionView {
    UnsupportedVersion(u32),
    SourceMismatch(Seq<char>, Seq<char>),
    MissingNameOrTitle,
    ReplacesConnector(Seq<char>),
    UnsupportedDetailView(Seq<char>),
}

impl View for CatalogRejection {
    type V = RejectionView;

    open spec fn view(&self) -> RejectionView {
        match self {
            CatalogRejection::UnsupportedVersion(v) => RejectionView::UnsupportedVersion(*v),
            CatalogRejection::SourceMismatch { source, directory } => RejectionView::SourceMismatch(
                source@,
                directory@,
            ),
            CatalogRejection::MissingNameOrTitle => RejectionView::MissingNameOrTitle,
            CatalogRejection::ReplacesConnector(n) => RejectionView::ReplacesConnector(n@),
            CatalogRejection::UnsupportedDetailView(d) => RejectionView::UnsupportedDetailView(d@),
        }
    }
}

/// What is wrong with one entry, given the names already in the catalog.
pub open spec fn entry_problem(seen: Seq<Seq<char>>, spec: ConnectorSpec) -> Option<RejectionView> {
    let name = seq_trim(spec.name@);
    if name.len() == 0 || seq_trim(spec.title@).len() == 0 {
        Some(RejectionView::MissingNameOrTitle)
    } else if seen.contains(name) {
        Some(RejectionView::ReplacesConnector(name))
    } else if !is_detail_view(seq_trim(spec.ui.detail@)) {
        Some(RejectionView::UnsupportedDetailView(seq_trim(spec.ui.detail@)))
    } else {
        None
    }
}

/// The first problem among `specs`, each entry checked against the names
/// before it.
pub open spec fn first_problem(seen: Seq<Seq<char>>, specs: Seq<ConnectorSpec>) -> Option<RejectionView>
    decreases specs.len(),
{
    if specs.len() == 0 {
        None
    } else {
        match entry_problem(seen, specs[0]) {
            Some(p) => Some(p),
            None => first_problem(seen.push(seq_trim(specs[0].name@)), specs.drop_first()),
        }
    }
}

/// Why a whole manifest is refused, or `None` when it is admitted.
pub open spec fn manifest_problem(
    seen: Seq<Seq<char>>,
    version: u32,
    source: Seq<char>,
    directory: Seq<char>,
    specs: Seq<ConnectorSpec>,
) -> Option<RejectionView> {
    if version != CONNECTOR_CATALOG_VERSION {
        Some(RejectionView::UnsupportedVersion(version))
    } else if seq_trim(source).len() == 0 || seq_trim(source) != directory {
        Some(RejectionView::SourceMismatch(seq_trim(source), directory))
    } else {
        first_problem(seen, specs)
    }
}

/// `out` is `spec` as the catalog keeps it: name, title and detail view
/// trimmed, the logo defaulting to the name and the icon to the logo.
pub open spec fn normalized(spec: ConnectorSpec, out: ConnectorSpec) -> bool {
    let name = seq_trim(spec.name@);
    let logo = if spec.logo@.len() == 0 {
        name
    } else {
        spec.logo@
    };
    &&& out.name@ == name
    &&& out.title@ == seq_trim(spec.title@)
    &&& out.ui.detail@ == seq_trim(spec.ui.detail@)
    &&& out.logo@ == logo
    &&& out.icon@ == if spec.icon@.len() == 0 {
        logo
    } else {
        spec.icon@
    }
    &&& out.blurb == spec.blurb
    &&& out.about == spec.about
    &&& out.access == spec.access
    &&& out.auth == spec.auth
    &&& out.two_way == spec.two_way
    &&& out.channels == spec.channels
    &&& out.available == spec.available
    &&& out.fields == spec.fields
    &&& out.instructions == spec.instructions
    &&& out.tools == spec.tools
    &&& out.brand_color == spec.brand_color
    &&& out.managed == spec.managed
    &&& out.managed_profile == spec.managed_profile
    &&& out.risk_notice == spec.risk_notice
}

/// Whether `v` holds `s`.
fn contains_name(v: &Vec<String>, s: &str) -> (r: bool)
    ensures
        r == names(v@).contains(s@),
{
    let mut i: usize = 0;
    while i < v.len()
        invariant
            i <= v.len(),
            forall|j: int| 0 <= j < i ==> names(v@)[j] != s@,
        decreases v.len() - i,
    {
        if str_eq(v[i].as_str(), s) {
            assert(names(v@)[i as int] == s@);
            return true;
        }
        i = i + 1;
    }
    false
}

/// Admit a catalog that an extension installed in `directory`, given the
/// names already in the catalog: the normalized entries, or why the whole
/// catalog is ignored.
#[verifier::loop_isolation(false)]
pub fn admit_catalog(seen: &Vec<String>, manifest: ConnectorCatalogManifest, directory: &str) -> (r: Result<
    Vec<ConnectorSpec>,
    CatalogRejection,
>)
    ensures
        match manifest_problem(
            names(seen@),
            manifest.version,
            manifest.source@,
            directory@,
            manifest.connectors@,
        ) {
            Some(p) => r matches Err(e) && e@ == p,
            None => r matches Ok(staged) && staged@.len() == manifest.connectors@.len() && forall|i: int|
                0 <= i < staged@.len() ==> #[trigger] normalized(manifest.connectors@[i], staged@[i]),
        },
{
    if manifest.version != CONNECTOR_CATALOG_VERSION {
        return Err(CatalogRejection::UnsupportedVersion(manifest.version));
    }
    let source = trim(manifest.source.as_str());
    if source.as_str().is_empty() || !str_eq(source.as_str(), directory) {
        return Err(CatalogRejection::SourceMismatch { source, directory: owned(directory) });
    }
    let ghost specs = manifest.connectors@;
    let n = manifest.connectors.len();
    let mut remaining = manifest.connectors;
    let mut staged_seen: Vec<String> = Vec::new();
    let mut k: usize = 0;
    while k < seen.len()
        invariant
            k <= seen.len(),
            names(staged_seen@) == names(seen@).subrange(0, k as int),
        decreases seen.len() - k,
    {
        proof {
            lemma_names_push(staged_seen@, seen@[k as int]);
            assert(names(seen@).subrange(0, k + 1) =~= names(seen@).subrange(0, k as int).push(seen@[k as int]@));
        }
        staged_seen.push(seen[k].clone());
        k = k + 1;
    }
    proof {
        assert(names(seen@).subrange(0, k as int) =~= names(seen@));
        assert(specs.subrange(0, n as int) =~= specs);
    }
    let mut staged: Vec<ConnectorSpec> = Vec::new();
    let mut i: usize = 0;
    while i < n
        invariant
            i <= n == specs.len(),
            remaining@ == specs.subrange(i as int, n as int),
            staged@.len() == i,
            forall|j: int| 0 <= j < i ==> #[trigger] normalized(specs[j], staged@[j]),
            first_problem(names(seen@), specs) == first_problem(
                names(staged_seen@),
                specs.subrange(i as int, n as int),
            ),
        decreases n - i,
    {
        let mut spec = remaining.remove(0);
        let ghost original = spec;
        proof {
            assert(original == specs[i as int]);
            let rest = specs.subrange(i as int, n as int);
            assert(rest.drop_first() =~= specs.subrange(i + 1, n as int));
        }
        spec.name = trim(spec.name.as_str());
        spec.title = trim(spec.title.as_str());
        let ghost rest = specs.subrange(i as int, n as int);
        proof {
            assert(rest[0] == original);
            assert(first_problem(names(staged_seen@), rest) == match entry_problem(names(staged_seen@), original) {
                Some(p) => Some(p),
                None => first_problem(names(staged_seen@).push(seq_trim(original.name@)), rest.drop_first()),
            });
        }
        if spec.name.as_str().is_empty() || spec.title.as_str().is_empty() {
            proof {
                assert(entry_problem(names(staged_seen@), original) == Some(RejectionView::MissingNameOrTitle));
            }
            return Err(CatalogRejection::MissingNameOrTitle);
        }
        if contains_name(&staged_seen, spec.name.as_str()) {
            proof {
                assert(entry_problem(names(staged_seen@), original) == Some(
                    RejectionView::ReplacesConnector(spec.name@),
                ));
            }
            return Err(CatalogRejection::ReplacesConnector(spec.name));
        }
        let ghost seen_before = names(staged_seen@);
        proof {
            lemma_names_push(staged_seen@, spec.name);
        }
        staged_seen.push(spec.name.clone());
        spec.ui.detail = trim(spec.ui.detail.as_str());
        if !supported_detail_view(spec.ui.detail.as_str()) {
            proof {
                assert(entry_problem(seen_before, original) == Some(
                    RejectionView::UnsupportedDetailView(spec.ui.detail@),
                ));
            }
            return Err(CatalogRejection::UnsupportedDetailView(spec.ui.detail));
        }
        if spec.logo.as_str().is_empty() {
            spec.logo = spec.name.clone();
        }
        if spec.icon.as_str().is_empty() {
            spec.icon = spec.logo.clone();
        }
        proof {
            assert(normalized(original, spec));
            assert(entry_problem(seen_before, original) is None);
        }
        staged.push(spec);
        i = i + 1;
    }
    proof {
        assert(specs.subrange(n as int, n as int).len() == 0);
    }
    Ok(staged)
}

/// A credential or setting field of a connector form.
pub open spec fn form_field(key: Seq<char>, label: Seq<char>, secret: bool, required: bool) -> JsonView {
    JsonView::Object(
        seq![
            ("help"@, JsonView::Str(Seq::empty())),
            ("key"@, JsonView::Str(key)),
            ("label"@, JsonView::Str(label)),
            ("placeholder"@, JsonView::Str(Seq::empty())),
            ("required"@, JsonView::Bool(required)),
            ("secret"@, JsonView::Bool(secret)),
        ],
    )
}

fn form_field_json(key: &str, label: &str, secret: bool, required: bool) -> (r: Json)
    ensures
        r@ == form_field(key@, label@, secret, required),
{
    let members = vec![
        ("help".to_string(), Json::String(String::new())),
        ("key".to_string(), Json::String(owned(key))),
        ("label".to_string(), Json::String(owned(label))),
        ("placeholder".to_string(), Json::String(String::new())),
        ("required".to_string(), Json::Bool(required)),
        ("secret".to_string(), Json::Bool(secret)),
    ];
    proof {
        crate::json::lemma_members_view(members@);
        assert(crate::json::members_view(members@) =~= seq![
            ("help"@, JsonView::Str(Seq::empty())),
            ("key"@, JsonView::Str(key@)),
            ("label"@, JsonView::Str(label@)),
            ("placeholder"@, JsonView::Str(Seq::empty())),
            ("required"@, JsonView::Bool(required)),
            ("secret"@, JsonView::Bool(secret)),
        ]);
    }
    Json::Object(members)
}

/// The foundation's own connector: generic IMAP/SMTP mail.
pub open spec fn is_foundation_email(s: ConnectorSpec) -> bool {
    &&& s.name@ == "email"@
    &&& s.title@ == "Email (IMAP)"@
    &&& s.logo@ == "email"@
    &&& s.auth@ == "app_password"@
    &&& s.available
    &&& !s.two_way
    &&& !s.channels
    &&& !s.managed
    &&& !s.managed_profile
    &&& s.tools@.len() == 0
    &&& s.brand_color@ == neutral_brand_color()
    &&& s.ui.detail@ == "generic"@
    &&& crate::json::items_view(s.fields@) == seq![
        form_field("address"@, "Email address"@, false, true),
        form_field("app_password"@, "App password"@, true, true),
        form_field("display_name"@, "Display name"@, false, false),
        form_field("imap_host"@, "IMAP host (advanced)"@, false, false),
        form_field("imap_port"@, "IMAP port (advanced)"@, false, false),
        form_field("smtp_host"@, "SMTP host (advanced)"@, false, false),
        form_field("smtp_port"@, "SMTP port (advanced)"@, false, false),
    ]
}

/// The connectors every catalog starts from.
pub fn foundation_connectors() -> (r: Vec<ConnectorSpec>)
    ensures
        r@.len() == 1,
        is_foundation_email(r@[0]),
{
    let fields = vec![
        form_field_json("address", "Email address", false, true),
        form_field_json("app_password", "App password", true, true),
        form_field_json("display_name", "Display name", false, false),
        form_field_json("imap_host", "IMAP host (advanced)", false, false),
        form_field_json("imap_port", "IMAP port (advanced)", false, false),
        form_field_json("smtp_host", "SMTP host (advanced)", false, false),
        form_field_json("smtp_port", "SMTP port (advanced)", false, false),
    ];
    proof {
        crate::json::lemma_items_view(fields@);
        assert(crate::json::items_view(fields@) =~= seq![
            form_field("address"@, "Email address"@, false, true),
            form_field("app_password"@, "App password"@, true, true),
            form_field("display_name"@, "Display name"@, false, false),
            form_field("imap_host"@, "IMAP host (advanced)"@, false, false),
            form_field("imap_port"@, "IMAP port (advanced)"@, false, false),
            form_field("smtp_host"@, "SMTP host (advanced)"@, false, false),
            form_field("smtp_port"@, "SMTP port (advanced)"@, false, false),
        ]);
    }
    let email = ConnectorSpec {
        name: "email".to_string(),
        title: "Email (IMAP)".to_string(),
        icon: "\u{2709}".to_string(),
        logo: "email".to_string(),
        blurb: "Read, search, and send mail from any IMAP account.".to_string(),
        about: "Generic IMAP/SMTP mail access using provider-supported app credentials.".to_string(),
        access: vec![
            "Reads and searches mail over IMAP.".to_string(),
            "Sends mail through SMTP and can save approved attachments locally.".to_string(),
        ],
        auth: "app_password".to_string(),
        two_way: false,
        channels: false,
        available: true,
        fields,
        instructions: vec![
            "Enter the address and app password; use host fields only when auto-detection is unavailable.".to_string(),
        ],
        tools: Vec::new(),
        brand_color: default_brand_color(),
        managed: false,
        managed_profile: false,
        risk_notice: String::new(),
        ui: ConnectorUiSpec { detail: "generic".to_string() },
    };
    vec![email]
}

/// The names in `specs`, in order.
pub open spec fn spec_names(specs: Seq<ConnectorSpec>) -> Seq<Seq<char>> {
    specs.map_values(|s: ConnectorSpec| s.name@)
}

/// `entry` is the normalized form of an entry of one of `catalogs`.
pub open spec fn from_some_catalog(catalogs: Seq<(String, ConnectorCatalogManifest)>, entry: ConnectorSpec) -> bool {
    exists|k: int, j: int|
        0 <= k < catalogs.len() && 0 <= j < catalogs[k].1.connectors@.len() && #[trigger] normalized(
            catalogs[k].1.connectors@[j],
            entry,
        )
}

/// No name occurs twice.
pub open spec fn distinct_names(specs: Seq<ConnectorSpec>) -> bool {
    forall|i: int, j: int| 0 <= i < j < specs.len() ==> #[trigger] specs[i].name@ != #[trigger] specs[j].name@
}

/// Entries that pass admission have fresh, pairwise distinct names.
proof fn lemma_admitted_names(seen: Seq<Seq<char>>, specs: Seq<ConnectorSpec>)
    requires
        first_problem(seen, specs) is None,
    ensures
        forall|i: int| 0 <= i < specs.len() ==> !seen.contains(#[trigger] seq_trim(specs[i].name@)),
        forall|i: int, j: int|
            0 <= i < j < specs.len() ==> #[trigger] seq_trim(specs[i].name@) != #[trigger] seq_trim(
                specs[j].name@,
            ),
    decreases specs.len(),
{
    if specs.len() > 0 {
        let n0 = seq_trim(specs[0].name@);
        let rest = specs.drop_first();
        lemma_admitted_names(seen.push(n0), rest);
        assert forall|i: int| 0 <= i < specs.len() implies !seen.contains(#[trigger] seq_trim(specs[i].name@)) by {
            if i > 0 {
                assert(specs[i] == rest[i - 1]);
                if seen.contains(seq_trim(specs[i].name@)) {
                    let k = choose|k: int| 0 <= k < seen.len() && seen[k] == seq_trim(specs[i].name@);
                    assert(seen.push(n0)[k] == seen[k]);
                }
            }
        }
        assert forall|i: int, j: int|
            0 <= i < j < specs.len() implies #[trigger] seq_trim(specs[i].name@) != #[trigger] seq_trim(
                specs[j].name@,
            ) by {
            assert(specs[j] == rest[j - 1]);
            if i == 0 {
                assert(seen.push(n0)[seen.len() as int] == n0);
            } else {
                assert(specs[i] == rest[i - 1]);
            }
        }
    }
}

/// The names the catalog starts from.
pub open spec fn foundation_names() -> Seq<Seq<char>> {
    seq!["email"@]
}

/// The trimmed names of a manifest's entries.
pub open spec fn trimmed_names(specs: Seq<ConnectorSpec>) -> Seq<Seq<char>> {
    specs.map_values(|s: ConnectorSpec| seq_trim(s.name@))
}

/// Why catalog `c` (its directory and manifest) is refused when the catalog
/// already holds `seen`, or `None` when it is admitted.
pub open spec fn verdict_of(seen: Seq<Seq<char>>, c: (String, ConnectorCatalogManifest)) -> Option<RejectionView> {
    manifest_problem(seen, c.1.version, c.1.source@, c.0@, c.1.connectors@)
}

/// The names in the catalog after reading `catalogs` in order, starting
/// from `seen`: an admitted catalog adds its trimmed names, a refused one
/// nothing.
pub open spec fn names_after(seen: Seq<Seq<char>>, catalogs: Seq<(String, ConnectorCatalogManifest)>) -> Seq<
    Seq<char>,
>
    decreases catalogs.len(),
{
    if catalogs.len() == 0 {
        seen
    } else {
        let prev = names_after(seen, catalogs.drop_last());
        if verdict_of(prev, catalogs.last()) is None {
            prev + trimmed_names(catalogs.last().1.connectors@)
        } else {
            prev
        }
    }
}

/// The verdict on the `k`-th catalog, given those before it.
pub open spec fn verdict_at(seen: Seq<Seq<char>>, catalogs: Seq<(String, ConnectorCatalogManifest)>, k: int) -> Option<
    RejectionView,
> {
    verdict_of(names_after(seen, catalogs.take(k)), catalogs[k])
}

/// How many entries the admitted catalogs among `catalogs` add.
pub open spec fn added_count(seen: Seq<Seq<char>>, catalogs: Seq<(String, ConnectorCatalogManifest)>) -> nat
    decreases catalogs.len(),
{
    if catalogs.len() == 0 {
        0
    } else {
        added_count(seen, catalogs.drop_last()) + if verdict_of(names_after(seen, catalogs.drop_last()), catalogs.last())
            is None {
            catalogs.last().1.connectors@.len()
        } else {
            0
        }
    }
}

/// The refused catalogs among `catalogs`, in order, each with its directory
/// and the reason.
pub open spec fn refusals(seen: Seq<Seq<char>>, catalogs: Seq<(String, ConnectorCatalogManifest)>) -> Seq<
    (Seq<char>, RejectionView),
>
    decreases catalogs.len(),
{
    if catalogs.len() == 0 {
        Seq::empty()
    } else {
        let prev = refusals(seen, catalogs.drop_last());
        match verdict_of(names_after(seen, catalogs.drop_last()), catalogs.last()) {
            Some(p) => prev.push((catalogs.last().0@, p)),
            None => prev,
        }
    }
}

/// A list of refusals by its texts.
pub open spec fn rejection_views(v: Seq<(String, CatalogRejection)>) -> Seq<(Seq<char>, RejectionView)> {
    v.map_values(|x: (String, CatalogRejection)| (x.0@, x.1@))
}

/// Reading more catalogs never takes entries away.
proof fn lemma_added_count_grows(seen: Seq<Seq<char>>, catalogs: Seq<(String, ConnectorCatalogManifest)>, a: int, b: int)
    requires
        0 <= a <= b <= catalogs.len(),
    ensures
        added_count(seen, catalogs.take(a)) <= added_count(seen, catalogs.take(b)),
    decreases b - a,
{
    if a < b {
        lemma_added_count_grows(seen, catalogs, a, b - 1);
        assert(catalogs.take(b).drop_last() =~= catalogs.take(b - 1));
    }
}

/// The catalog: the foundation connectors, then the entries of every
/// admitted extension catalog in the order given (the host lists them by
/// installation path). A refused catalog adds nothing; it is reported with
/// its directory and the reason.
#[verifier::loop_isolation(false)]
pub fn read_catalog(catalogs: Vec<(String, ConnectorCatalogManifest)>) -> (r: (
    Vec<ConnectorSpec>,
    Vec<(String, CatalogRejection)>,
))
    ensures
        r.0@.len() >= 1,
        is_foundation_email(r.0@[0]),
        distinct_names(r.0@),
        forall|i: int| 1 <= i < r.0@.len() ==> #[trigger] from_some_catalog(catalogs@, r.0@[i]),
        r.1@.len() <= catalogs@.len(),
        r.0@.len() == 1 + added_count(foundation_names(), catalogs@),
        spec_names(r.0@) == names_after(foundation_names(), catalogs@),
        forall|k: int, j: int|
            #![trigger verdict_at(foundation_names(), catalogs@, k), catalogs@[k].1.connectors@[j]]
            0 <= k < catalogs@.len() && verdict_at(foundation_names(), catalogs@, k) is None && 0 <= j
                < catalogs@[k].1.connectors@.len() ==> normalized(
                catalogs@[k].1.connectors@[j],
                r.0@[1 + added_count(foundation_names(), catalogs@.take(k)) + j],
            ),
        rejection_views(r.1@) == refusals(foundation_names(), catalogs@),
{
    let mut connectors = foundation_connectors();
    let mut seen: Vec<String> = Vec::new();
    seen.push(connectors[0].name.clone());
    let mut rejected: Vec<(String, CatalogRejection)> = Vec::new();
    let ghost all = catalogs@;
    let mut remaining = catalogs;
    let n = remaining.len();
    let mut c: usize = 0;
    proof {
        assert(all.subrange(0, n as int) =~= all);
        assert(all.take(0) =~= Seq::<(String, ConnectorCatalogManifest)>::empty());
        assert(names(seen@) =~= foundation_names());
        assert(rejection_views(rejected@) =~= Seq::<(Seq<char>, RejectionView)>::empty());
    }
    while c < n
        invariant
            c <= n == all.len(),
            remaining@ == all.subrange(c as int, n as int),
            connectors@.len() >= 1,
            is_foundation_email(connectors@[0]),
            distinct_names(connectors@),
            names(seen@) == spec_names(connectors@),
            forall|i: int| 1 <= i < connectors@.len() ==> #[trigger] from_some_catalog(all, connectors@[i]),
            rejected@.len() <= c,
            names(seen@) == names_after(foundation_names(), all.take(c as int)),
            connectors@.len() == 1 + added_count(foundation_names(), all.take(c as int)),
            rejection_views(rejected@) == refusals(foundation_names(), all.take(c as int)),
            forall|k: int, j: int|
                #![trigger verdict_at(foundation_names(), all, k), all[k].1.connectors@[j]]
                0 <= k < c && verdict_at(foundation_names(), all, k) is None && 0 <= j < all[k].1.connectors@.len()
                    ==> normalized(
                    all[k].1.connectors@[j],
                    connectors@[1 + added_count(foundation_names(), all.take(k)) + j],
                ),
        decreases n - c,
    {
        let (directory, manifest) = remaining.remove(0);
        let ghost m = manifest;
        proof {
            assert(all.subrange(c as int, n as int)[0] == all[c as int]);
            assert(all.subrange(c as int, n as int).drop_first() =~= all.subrange(c + 1, n as int));
            assert(all.take(c + 1).drop_last() =~= all.take(c as int));
            assert(all.take(c + 1).last() == all[c as int]);
            assert(verdict_at(foundation_names(), all, c as int) == verdict_of(
                names_after(foundation_names(), all.take(c as int)),
                all[c as int],
            ));
        }
        let ghost before_c = connectors@;
        let ghost rejected_before = rejected@;
        match admit_catalog(&seen, manifest, directory.as_str()) {
            Err(reason) => {
                rejected.push((directory, reason));
                proof {
                    assert(rejection_views(rejected@) =~= rejection_views(rejected_before).push(
                        (all[c as int].0@, verdict_at(foundation_names(), all, c as int)->0),
                    ));
                }
            },
            Ok(staged) => {
                proof {
                    lemma_admitted_names(names(seen@), m.connectors@);
                }
                let ghost before = connectors@;
                let ghost added = staged@;
                proof {
                    assert(names(seen@).len() == seen@.len());
                    assert(spec_names(before).len() == before.len());
                }
                let mut staged = staged;
                connectors.append(&mut staged);
                proof {
                    assert(connectors@ == before + added);
                    assert forall|x: int, y: int| 0 <= x < y < connectors@.len() implies #[trigger] connectors@[x].name@
                        != #[trigger] connectors@[y].name@ by {
                        if y >= before.len() {
                            let yj = y - before.len();
                            assert(connectors@[y] == added[yj]);
                            assert(normalized(m.connectors@[yj], added[yj]));
                            assert(!names(seen@).contains(seq_trim(m.connectors@[yj].name@)));
                            if x >= before.len() {
                                let xj = x - before.len();
                                assert(connectors@[x] == added[xj]);
                                assert(normalized(m.connectors@[xj], added[xj]));
                                assert(seq_trim(m.connectors@[xj].name@) != seq_trim(m.connectors@[yj].name@));
                            } else {
                                assert(connectors@[x] == before[x]);
                                assert(spec_names(before)[x] == before[x].name@);
                                assert(names(seen@)[x] == before[x].name@);
                            }
                        } else {
                            assert(connectors@[x] == before[x]);
                            assert(connectors@[y] == before[y]);
                        }
                    }
                    assert forall|i: int| 1 <= i < connectors@.len() implies #[trigger] from_some_catalog(
                        all,
                        connectors@[i],
                    ) by {
                        if i >= before.len() {
                            let j = i - before.len();
                            assert(connectors@[i] == added[j]);
                            assert(normalized(all[c as int].1.connectors@[j], connectors@[i]));
                        } else {
                            assert(connectors@[i] == before[i]);
                        }
                    }
                }
                let mut t: usize = seen.len();
                while t < connectors.len()
                    invariant
                        seen@.len() <= t <= connectors@.len(),
                        names(seen@) == spec_names(connectors@.subrange(0, t as int)),
                    decreases connectors.len() - t,
                {
                    proof {
                        lemma_names_push(seen@, connectors@[t as int].name);
                        assert(spec_names(connectors@.subrange(0, t + 1)) =~= spec_names(
                            connectors@.subrange(0, t as int),
                        ).push(connectors@[t as int].name@));
                    }
                    seen.push(connectors[t].name.clone());
                    t = t + 1;
                }
                proof {
                    assert(connectors@.subrange(0, t as int) =~= connectors@);
                    assert(spec_names(connectors@) =~= spec_names(before) + trimmed_names(m.connectors@)) by {
                        assert forall|x: int| 0 <= x < connectors@.len() implies spec_names(connectors@)[x] == (
                            spec_names(before) + trimmed_names(m.connectors@))[x] by {
                            if x >= before.len() {
                                assert(connectors@[x] == added[x - before.len()]);
                                assert(normalized(m.connectors@[x - before.len()], added[x - before.len()]));
                            } else {
                                assert(connectors@[x] == before[x]);
                            }
                        }
                    }
                    assert forall|k: int, j: int|
                        #![trigger verdict_at(foundation_names(), all, k), all[k].1.connectors@[j]]
                        0 <= k < c + 1 && verdict_at(foundation_names(), all, k) is None && 0 <= j
                            < all[k].1.connectors@.len() implies normalized(
                        all[k].1.connectors@[j],
                        connectors@[1 + added_count(foundation_names(), all.take(k)) + j],
                    ) by {
                        if k == c {
                            assert(connectors@[before.len() + j] == added[j]);
                        } else {
                            lemma_added_count_grows(foundation_names(), all, k + 1, c as int);
                            assert(all.take(k + 1).drop_last() =~= all.take(k));
                            assert(all.take(k + 1).last() == all[k]);
                            assert(connectors@[1 + added_count(foundation_names(), all.take(k)) + j]
                                == before[1 + added_count(foundation_names(), all.take(k)) + j]);
                        }
                    }
                }

            },
        }
        c = c + 1;
    }
    (connectors, rejected)
}

} // verus!
