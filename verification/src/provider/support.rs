//! Provider metadata: what a model can do, which provider serves it, and
//! how an access or quota failure is explained to the user.

use vstd::prelude::*;

use crate::json::{members_view, Json, JsonView};
use crate::text::{lowercase_of, owned, seq_contains, seq_split_once, seq_starts_with, str_eq};

verus! {

/// What a model supports.
#[derive(Debug, Clone, Copy, PartialEq, Eq, Structural)]
pub struct ModelCaps {
    pub tools: bool,
    pub vision: bool,
    pub pdf: bool,
    pub parallel_tool_calls: bool,
    pub streaming: bool,
}

pub open spec fn caps(tools: bool, vision: bool, pdf: bool, parallel: bool, streaming: bool) -> ModelCaps {
    ModelCaps { tools, vision, pdf, parallel_tool_calls: parallel, streaming }
}

/// Agentic models with vision and PDF input.
pub open spec fn full_caps() -> ModelCaps {
    caps(true, true, true, true, true)
}

/// Agentic text models.
pub open spec fn agentic_caps() -> ModelCaps {
    caps(true, false, false, true, true)
}

/// Agentic models with vision but no PDF input.
pub open spec fn vision_caps() -> ModelCaps {
    caps(true, true, false, true, true)
}

/// The models whose capabilities are known exactly.
pub open spec fn capability_matrix() -> Seq<(Seq<char>, ModelCaps)> {
    seq![
        ("gpt-5.6-sol"@, full_caps()),
        ("gpt-5.6-terra"@, full_caps()),
        ("gpt-5.6-luna"@, full_caps()),
        ("gpt-5.5"@, full_caps()),
        ("meta:muse-spark-1.1"@, vision_caps()),
        ("zai:glm-5.2"@, agentic_caps()),
        ("deepseek:deepseek-v4-flash"@, agentic_caps()),
        ("deepseek:deepseek-v4-pro"@, agentic_caps()),
        ("kimi:kimi-k2.6"@, agentic_caps()),
        ("minimax:MiniMax-M2.5"@, agentic_caps()),
        ("qwen:qwen3-max"@, agentic_caps()),
        ("xai:grok-4.3"@, agentic_caps()),
        ("mistral:mistral-large-latest"@, agentic_caps()),
        ("together:thinkingmachines/Inkling"@, agentic_caps()),
        ("together:zai-org/GLM-5.2"@, agentic_caps()),
        ("together:moonshotai/Kimi-K3"@, vision_caps()),
        ("together:moonshotai/Kimi-K2.7-Code"@, agentic_caps()),
        ("together:moonshotai/Kimi-K2.6"@, agentic_caps()),
        ("together:deepseek-ai/DeepSeek-V4-Pro"@, agentic_caps()),
        ("together:meta-llama/Llama-4-Maverick-17B-128E-Instruct-FP8"@, agentic_caps()),
        ("fireworks:accounts/fireworks/models/glm-5p2"@, agentic_caps()),
        ("fireworks:accounts/fireworks/models/kimi-k2p6"@, agentic_caps()),
        ("fireworks:accounts/fireworks/models/deepseek-v4-pro"@, agentic_caps()),
        ("fireworks:accounts/fireworks/models/llama4-maverick-instruct-basic"@, agentic_caps()),
        ("openrouter:z-ai/glm-5.2"@, agentic_caps()),
        ("openrouter:moonshotai/kimi-k2.6"@, agentic_caps()),
        ("openrouter:deepseek/deepseek-v4-pro"@, agentic_caps()),
        ("openrouter:meta-llama/llama-4-maverick"@, agentic_caps()),
    ]
}

/// The first entry of the matrix naming `model`.
pub open spec fn matrix_entry(table: Seq<(Seq<char>, ModelCaps)>, model: Seq<char>) -> Option<ModelCaps>
    decreases table.len(),
{
    if table.len() == 0 {
        None
    } else if table[0].0 == model {
        Some(table[0].1)
    } else {
        matrix_entry(table.drop_first(), model)
    }
}

/// The capabilities of a model outside the matrix, guessed from its
/// (lower-cased) provider and name: Anthropic and GPT-4/5 models do
/// everything; o-series models no vision, PDF or parallel calls; the known
/// agentic families no vision or PDF; anything else tools and streaming.
pub open spec fn guessed_caps(model: Seq<char>) -> ModelCaps {
    let (provider, name) = match seq_split_once(model, ':') {
        Some((p, n)) => (lowercase_of(p), lowercase_of(n)),
        None => (Seq::empty(), lowercase_of(model)),
    };
    if provider == "anthropic"@ {
        full_caps()
    } else if seq_starts_with(name, "gpt-5"@) || seq_starts_with(name, "gpt-4"@) {
        full_caps()
    } else if seq_starts_with(name, "o1"@) || seq_starts_with(name, "o3"@) || seq_starts_with(name, "o4"@) {
        caps(true, false, false, false, true)
    } else if seq_starts_with(name, "deepseek"@) || seq_starts_with(name, "glm"@) || seq_starts_with(name, "kimi"@)
        || seq_starts_with(name, "minimax"@) || seq_starts_with(name, "qwen"@) || seq_starts_with(name, "grok"@)
        || seq_starts_with(name, "mistral"@) || seq_starts_with(name, "magistral"@) {
        agentic_caps()
    } else {
        caps(true, false, false, false, true)
    }
}

pub open spec fn model_caps(model: Seq<char>) -> ModelCaps {
    match matrix_entry(capability_matrix(), model) {
        Some(c) => c,
        None => guessed_caps(model),
    }
}

pub open spec fn caps_view(c: ModelCaps) -> JsonView {
    JsonView::Object(
        seq![
            ("parallel_tool_calls"@, JsonView::Bool(c.parallel_tool_calls)),
            ("pdf"@, JsonView::Bool(c.pdf)),
            ("streaming"@, JsonView::Bool(c.streaming)),
            ("tools"@, JsonView::Bool(c.tools)),
            ("vision"@, JsonView::Bool(c.vision)),
        ],
    )
}

fn full() -> (c: ModelCaps)
    ensures
        c == full_caps(),
{
    ModelCaps { tools: true, vision: true, pdf: true, parallel_tool_calls: true, streaming: true }
}

fn agentic() -> (c: ModelCaps)
    ensures
        c == agentic_caps(),
{
    ModelCaps { tools: true, vision: false, pdf: false, parallel_tool_calls: true, streaming: true }
}

fn vision() -> (c: ModelCaps)
    ensures
        c == vision_caps(),
{
    ModelCaps { tools: true, vision: true, pdf: false, parallel_tool_calls: true, streaming: true }
}

fn matrix_table() -> (t: Vec<(&'static str, ModelCaps)>)
    ensures
        t@.map_values(|p: (&'static str, ModelCaps)| (p.0@, p.1)) == capability_matrix(),
{
    let t = vec![
        ("gpt-5.6-sol", full()),
        ("gpt-5.6-terra", full()),
        ("gpt-5.6-luna", full()),
        ("gpt-5.5", full()),
        ("meta:muse-spark-1.1", vision()),
        ("zai:glm-5.2", agentic()),
        ("deepseek:deepseek-v4-flash", agentic()),
        ("deepseek:deepseek-v4-pro", agentic()),
        ("kimi:kimi-k2.6", agentic()),
        ("minimax:MiniMax-M2.5", agentic()),
        ("qwen:qwen3-max", agentic()),
        ("xai:grok-4.3", agentic()),
        ("mistral:mistral-large-latest", agentic()),
        ("together:thinkingmachines/Inkling", agentic()),
        ("together:zai-org/GLM-5.2", agentic()),
        ("together:moonshotai/Kimi-K3", vision()),
        ("together:moonshotai/Kimi-K2.7-Code", agentic()),
        ("together:moonshotai/Kimi-K2.6", agentic()),
        ("together:deepseek-ai/DeepSeek-V4-Pro", agentic()),
        ("together:meta-llama/Llama-4-Maverick-17B-128E-Instruct-FP8", agentic()),
        ("fireworks:accounts/fireworks/models/glm-5p2", agentic()),
        ("fireworks:accounts/fireworks/models/kimi-k2p6", agentic()),
        ("fireworks:accounts/fireworks/models/deepseek-v4-pro", agentic()),
        ("fireworks:accounts/fireworks/models/llama4-maverick-instruct-basic", agentic()),
        ("openrouter:z-ai/glm-5.2", agentic()),
        ("openrouter:moonshotai/kimi-k2.6", agentic()),
        ("openrouter:deepseek/deepseek-v4-pro", agentic()),
        ("openrouter:meta-llama/llama-4-maverick", agentic()),
    ];
    assert(t@.map_values(|p: (&'static str, ModelCaps)| (p.0@, p.1)) =~= capability_matrix());
    t
}

fn guessed(model: &str) -> (c: ModelCaps)
    ensures
        c == guessed_caps(model@),
{
    let (provider, name) = match crate::text::split_once(model, ':') {
        Some((p, n)) => (crate::text::to_lowercase(p.as_str()), crate::text::to_lowercase(n.as_str())),
        None => (String::new(), crate::text::to_lowercase(model)),
    };
    let n = name.as_str();
    if str_eq(provider.as_str(), "anthropic") {
        full()
    } else if crate::text::starts_with(n, "gpt-5") || crate::text::starts_with(n, "gpt-4") {
        full()
    } else if crate::text::starts_with(n, "o1") || crate::text::starts_with(n, "o3") || crate::text::starts_with(n, "o4") {
        ModelCaps { tools: true, vision: false, pdf: false, parallel_tool_calls: false, streaming: true }
    } else if crate::text::starts_with(n, "deepseek") || crate::text::starts_with(n, "glm") || crate::text::starts_with(
        n,
        "kimi",
    ) || crate::text::starts_with(n, "minimax") || crate::text::starts_with(n, "qwen") || crate::text::starts_with(
        n,
        "grok",
    ) || crate::text::starts_with(n, "mistral") || crate::text::starts_with(n, "magistral") {
        agentic()
    } else {
        ModelCaps { tools: true, vision: false, pdf: false, parallel_tool_calls: false, streaming: true }
    }
}

fn matrix_lookup(model: &str) -> (r: Option<ModelCaps>)
    ensures
        r == matrix_entry(capability_matrix(), model@),
{
    let table = matrix_table();
    let ghost tv = table@.map_values(|p: (&'static str, ModelCaps)| (p.0@, p.1));
    let mut i: usize = 0;
    proof {
        assert(tv.subrange(0, tv.len() as int) =~= tv);
    }
    while i < table.len()
        invariant
            i <= table.len(),
            tv == table@.map_values(|p: (&'static str, ModelCaps)| (p.0@, p.1)),
            tv == capability_matrix(),
            matrix_entry(tv, model@) == matrix_entry(tv.subrange(i as int, tv.len() as int), model@),
        decreases table.len() - i,
    {
        proof {
            assert(tv.subrange(i as int, tv.len() as int).drop_first() =~= tv.subrange(i + 1, tv.len() as int));
            assert(tv[i as int] == (table@[i as int].0@, table@[i as int].1));
        }
        if str_eq(table[i].0, model) {
            return Some(table[i].1);
        }
        i = i + 1;
    }
    None
}

/// What a model can do: its matrix entry, or a guess from its name.
pub fn capabilities_for(model: &str) -> (r: Json)
    ensures
        r@ == caps_view(model_caps(model@)),
{
    let c = match matrix_lookup(model) {
        Some(c) => c,
        None => guessed(model),
    };
    let members = vec![
        (owned("parallel_tool_calls"), Json::Bool(c.parallel_tool_calls)),
        (owned("pdf"), Json::Bool(c.pdf)),
        (owned("streaming"), Json::Bool(c.streaming)),
        (owned("tools"), Json::Bool(c.tools)),
        (owned("vision"), Json::Bool(c.vision)),
    ];
    proof {
        crate::json::lemma_members_view(members@);
        assert(members_view(members@) =~= caps_view(c)->Object_0);
    }
    Json::Object(members)
}

/// The provider serving `model`: the `provider:` prefix when it names a
/// configured provider, else `default`; and the model's bare name.
pub open spec fn route_of(model: Seq<char>, providers: Seq<Seq<char>>, default: Seq<char>) -> (Seq<char>, Seq<char>) {
    match seq_split_once(model, ':') {
        Some((prefix, rest)) => if providers.contains(prefix) {
            (prefix, rest)
        } else {
            (default, model)
        },
        None => (default, model),
    }
}

pub fn route(model: &str, providers: &Vec<String>, default: &str) -> (r: Json)
    ensures
        r@ == JsonView::Object(
            seq![
                ("bare"@, JsonView::Str(route_of(model@, crate::text::names(providers@), default@).1)),
                ("provider"@, JsonView::Str(route_of(model@, crate::text::names(providers@), default@).0)),
            ],
        ),
{
    let (provider, bare) = match crate::text::split_once(model, ':') {
        Some((prefix, rest)) => {
            let mut known = false;
            let mut i: usize = 0;
            while i < providers.len()
                invariant
                    i <= providers.len(),
                    known <==> exists|x: int| 0 <= x < i && crate::text::names(providers@)[x] == prefix@,
                decreases providers.len() - i,
            {
                if str_eq(providers[i].as_str(), prefix.as_str()) {
                    known = true;
                }
                proof {
                    assert(crate::text::names(providers@)[i as int] == providers@[i as int]@);
                }
                i = i + 1;
            }
            proof {
                if known {
                    let x = choose|x: int| 0 <= x < i && crate::text::names(providers@)[x] == prefix@;
                    assert(crate::text::names(providers@).contains(prefix@));
                }
            }
            if known {
                (prefix, rest)
            } else {
                (owned(default), owned(model))
            }
        },
        None => (owned(default), owned(model)),
    };
    let ghost bv = bare@;
    let ghost pv = provider@;
    let members = vec![(owned("bare"), Json::String(bare)), (owned("provider"), Json::String(provider))];
    proof {
        crate::json::lemma_members_view(members@);
        assert(members_view(members@) =~= seq![("bare"@, JsonView::Str(bv)), ("provider"@, JsonView::Str(pv))]);
    }
    Json::Object(members)
}

/// The part of `s` after its last `c` (all of `s` when there is none).
pub open spec fn after_last(s: Seq<char>, c: char) -> Seq<char>
    decreases s.len(),
{
    if s.len() == 0 {
        s
    } else if s.last() == c {
        Seq::empty()
    } else {
        after_last(s.drop_last(), c).push(s.last())
    }
}

pub open spec fn no_access_message(model: Seq<char>) -> Seq<char> {
    "Your account doesn't have access to "@ + model
        + " - new models can roll out gradually or require a plan upgrade. Pick a different model, or check the provider's console for availability."@
}

pub open spec fn no_quota_message(model: Seq<char>) -> Seq<char> {
    "Your account is out of quota for "@ + model
        + " - add credits or raise the limit in the provider's billing console, or pick a different model."@
}

/// The explanation of a provider error about `model`: quota markers first,
/// then access markers, then a not-found error naming the model; `None`
/// when the error is neither.
pub open spec fn friendly_error_of(model: Seq<char>, message: Seq<char>) -> Option<Seq<char>> {
    let text = lowercase_of(message);
    if seq_contains(text, "insufficient_quota"@) || seq_contains(text, "exceeded your current quota"@) || seq_contains(
        text,
        "credit balance is too low"@,
    ) || seq_contains(text, "billing hard limit"@) {
        Some(no_quota_message(model))
    } else if seq_contains(text, "model_not_found"@) || seq_contains(text, "does not exist or you do not have access"@)
        || seq_contains(text, "does not have access to model"@) || seq_contains(text, "permission_error"@)
        || seq_contains(text, "permission denied"@) {
        Some(no_access_message(model))
    } else if seq_contains(text, "not_found_error"@) && seq_contains(
        text,
        "model: "@ + lowercase_of(after_last(model, ':')),
    ) {
        Some(no_access_message(model))
    } else {
        None
    }
}

fn after_last_colon(s: &str) -> (r: String)
    ensures
        r@ == after_last(s@, ':'),
{
    let v = crate::text::chars_of(s);
    let mut start: usize = 0;
    let mut i: usize = 0;
    while i < v.len()
        invariant
            i <= v.len(),
            v@ == s@,
            start <= i,
            after_last(s@.subrange(0, i as int), ':') == s@.subrange(start as int, i as int),
        decreases v.len() - i,
    {
        proof {
            assert(s@.subrange(0, i + 1).drop_last() =~= s@.subrange(0, i as int));
        }
        if v[i] == ':' {
            start = i + 1;
            proof {
                assert(s@.subrange(start as int, i + 1) =~= Seq::<char>::empty());
            }
        } else {
            proof {
                assert(s@.subrange(start as int, i + 1) =~= s@.subrange(start as int, i as int).push(v@[i as int]));
            }
        }
        i = i + 1;
    }
    proof {
        assert(s@.subrange(0, v@.len() as int) =~= s@);
    }
    crate::text::string_from(&v, start, v.len())
}

/// The user-facing explanation of an access or quota failure for `model`,
/// or `null` when the failure is neither.
pub fn friendly_model_error(model: &str, message: &str) -> (r: Json)
    ensures
        r@ == JsonView::Object(
            seq![
                ("message"@, match friendly_error_of(model@, message@) {
                    Some(m) => JsonView::Str(m),
                    None => JsonView::Null,
                }),
            ],
        ),
{
    let lowered = crate::text::to_lowercase(message);
    let text = lowered.as_str();
    let contains = |needle: &str| -> (b: bool)
        ensures
            b == seq_contains(text@, needle@),
        { crate::text::contains(text, needle) };
    let outcome = if contains("insufficient_quota") || contains("exceeded your current quota") || contains(
        "credit balance is too low",
    ) || contains("billing hard limit") {
        let mut m = owned("Your account is out of quota for ");
        m.append(model);
        m.append(" - add credits or raise the limit in the provider's billing console, or pick a different model.");
        Json::String(m)
    } else if contains("model_not_found") || contains("does not exist or you do not have access") || contains(
        "does not have access to model",
    ) || contains("permission_error") || contains("permission denied") || (contains("not_found_error") && {
        let bare = crate::text::to_lowercase(after_last_colon(model).as_str());
        let needle = crate::text::concat2("model: ", bare.as_str());
        crate::text::contains(text, needle.as_str())
    }) {
        let mut m = owned("Your account doesn't have access to ");
        m.append(model);
        m.append(
            " - new models can roll out gradually or require a plan upgrade. Pick a different model, or check the provider's console for availability.",
        );
        Json::String(m)
    } else {
        Json::Null
    };
    let ghost ov = outcome@;
    let members = vec![(owned("message"), outcome)];
    proof {
        crate::json::lemma_members_view(members@);
        assert(members_view(members@) =~= seq![("message"@, ov)]);
    }
    Json::Object(members)
}

// -- Model suggestions ------------------------------------------------------------------

/// The catalog's models, in catalog order.
pub open spec fn catalog_models() -> Seq<Seq<char>> {
    capability_matrix().map_values(|p: (Seq<char>, ModelCaps)| p.0)
}

/// A catalog model as offered under `provider`: OpenAI's models carry no
/// provider prefix; other providers' models are listed without theirs.
pub open spec fn offered_as(provider: Seq<char>, model: Seq<char>) -> Option<Seq<char>> {
    if provider == "openai"@ && !seq_contains(model, ":"@) {
        Some(model)
    } else if seq_starts_with(model, provider + ":"@) {
        Some(model.subrange((provider + ":"@).len() as int, model.len() as int))
    } else {
        None
    }
}

pub open spec fn offered_models(provider: Seq<char>, models: Seq<Seq<char>>) -> Seq<Seq<char>>
    decreases models.len(),
{
    if models.len() == 0 {
        Seq::empty()
    } else {
        let rest = offered_models(provider, models.drop_last());
        match offered_as(provider, models.last()) {
            Some(m) => rest.push(m),
            None => rest,
        }
    }
}

/// Models a provider serves beyond the catalog's.
pub open spec fn extra_models(provider: Seq<char>) -> Seq<Seq<char>> {
    if provider == "zai"@ {
        seq!["glm-4.6"@]
    } else if provider == "deepseek"@ {
        seq!["deepseek-v4-pro"@]
    } else if provider == "kimi"@ {
        seq!["kimi-k2.5"@]
    } else if provider == "minimax"@ {
        seq!["MiniMax-M2.5-highspeed"@, "MiniMax-M3"@]
    } else if provider == "qwen"@ {
        seq!["qwen3-coder-plus"@, "qwen-plus"@]
    } else if provider == "xai"@ {
        seq!["grok-4"@]
    } else if provider == "mistral"@ {
        seq!["mistral-small-latest"@]
    } else {
        Seq::empty()
    }
}

/// `list` with each of `extra` appended unless already listed.
pub open spec fn with_extras(list: Seq<Seq<char>>, extra: Seq<Seq<char>>) -> Seq<Seq<char>>
    decreases extra.len(),
{
    if extra.len() == 0 {
        list
    } else {
        let before = with_extras(list, extra.drop_last());
        if before.contains(extra.last()) {
            before
        } else {
            before.push(extra.last())
        }
    }
}

pub open spec fn suggestions_for(provider: Seq<char>) -> Seq<Seq<char>> {
    with_extras(offered_models(provider, catalog_models()), extra_models(provider))
}

fn extras_of(provider: &str) -> (r: Vec<&'static str>)
    ensures
        r@.map_values(|s: &'static str| s@) == extra_models(provider@),
{
    let r: Vec<&'static str> = if str_eq(provider, "zai") {
        vec!["glm-4.6"]
    } else if str_eq(provider, "deepseek") {
        vec!["deepseek-v4-pro"]
    } else if str_eq(provider, "kimi") {
        vec!["kimi-k2.5"]
    } else if str_eq(provider, "minimax") {
        vec!["MiniMax-M2.5-highspeed", "MiniMax-M3"]
    } else if str_eq(provider, "qwen") {
        vec!["qwen3-coder-plus", "qwen-plus"]
    } else if str_eq(provider, "xai") {
        vec!["grok-4"]
    } else if str_eq(provider, "mistral") {
        vec!["mistral-small-latest"]
    } else {
        Vec::new()
    };
    assert(r@.map_values(|s: &'static str| s@) =~= extra_models(provider@));
    r
}

/// The models to suggest for `provider`: its catalog models, then its
/// extra models not listed yet.
pub fn suggested_models(provider: &str) -> (r: Vec<String>)
    ensures
        crate::text::names(r@) == suggestions_for(provider@),
{
    let table = matrix_table();
    let ghost ids = catalog_models();
    proof {
        assert(table@.map_values(|p: (&'static str, ModelCaps)| p.0@) =~= ids);
    }
    let openai = str_eq(provider, "openai");
    let prefix = crate::text::concat2(provider, ":");
    let mut out: Vec<String> = Vec::new();
    let mut i: usize = 0;
    proof {
        assert(crate::text::names(out@) =~= Seq::<Seq<char>>::empty());
    }
    while i < table.len()
        invariant
            i <= table.len(),
            ids == catalog_models(),
            table@.map_values(|p: (&'static str, ModelCaps)| p.0@) == ids,
            openai == (provider@ == "openai"@),
            prefix@ == provider@ + ":"@,
            crate::text::names(out@) == offered_models(provider@, ids.subrange(0, i as int)),
        decreases table.len() - i,
    {
        let model = table[i].0;
        proof {
            assert(ids[i as int] == model@);
            assert(ids.subrange(0, i + 1).drop_last() =~= ids.subrange(0, i as int));
        }
        let offered = if openai && !crate::text::contains(model, ":") {
            Some(owned(model))
        } else {
            match crate::text::strip_prefix(model, prefix.as_str()) {
                Some(rest) => Some(rest),
                None => None,
            }
        };
        match offered {
            Some(m) => {
                let ghost before = out@;
                out.push(m);
                proof {
                    crate::text::lemma_names_push(before, out@.last());
                    assert(before.push(out@.last()) =~= out@);
                }
            },
            None => {},
        }
        i = i + 1;
    }
    proof {
        assert(ids.subrange(0, table@.len() as int) =~= ids);
    }
    let ghost listed = crate::text::names(out@);
    let extra = extras_of(provider);
    let ghost ev = extra@.map_values(|s: &'static str| s@);
    let mut j: usize = 0;
    while j < extra.len()
        invariant
            j <= extra.len(),
            ev == extra@.map_values(|s: &'static str| s@),
            crate::text::names(out@) == with_extras(listed, ev.subrange(0, j as int)),
        decreases extra.len() - j,
    {
        proof {
            assert(ev.subrange(0, j + 1).drop_last() =~= ev.subrange(0, j as int));
            assert(ev[j as int] == extra@[j as int]@);
        }
        let candidate = extra[j];
        let mut present = false;
        let mut k: usize = 0;
        while k < out.len()
            invariant
                k <= out.len(),
                present <==> exists|x: int| 0 <= x < k && crate::text::names(out@)[x] == candidate@,
            decreases out.len() - k,
        {
            if str_eq(out[k].as_str(), candidate) {
                present = true;
            }
            proof {
                assert(crate::text::names(out@)[k as int] == out@[k as int]@);
            }
            k = k + 1;
        }
        proof {
            if present {
                let x = choose|x: int| 0 <= x < out@.len() && crate::text::names(out@)[x] == candidate@;
                assert(crate::text::names(out@).contains(candidate@));
            }
        }
        if !present {
            let ghost before = out@;
            out.push(owned(candidate));
            proof {
                crate::text::lemma_names_push(before, out@.last());
                assert(before.push(out@.last()) =~= out@);
            }
        }
        j = j + 1;
    }
    proof {
        assert(ev.subrange(0, extra@.len() as int) =~= ev);
    }
    out
}

} // verus!
