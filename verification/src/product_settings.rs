//! The product's own preferences, apart from models and providers: their
//! defaults and the bounds each one keeps.
//!
//! Preferences are a string-keyed map of JSON values. The compaction
//! threshold is a floating-point fraction; the host reads a stored or
//! patched number as a binary64 value and hands it in, and this module
//! decides with it by comparison alone.

use vstd::prelude::*;

use crate::binary64::Binary64;
use crate::json::{Json, JsonNumber, JsonView, NumberView};
use crate::provider::bodies::field_of;
use crate::provider::replies::{int_json, int_view, or_empty};
use crate::strmap::{find, StrMap};
use crate::text::{owned, seq_trim, str_eq, trim};

verus! {

/// `0.1`, `0.95` and `0.8` as binary64 bit patterns.
pub const THRESHOLD_MIN_BITS: u64 = 0x3FB9_9999_9999_999A;

pub const THRESHOLD_MAX_BITS: u64 = 0x3FEE_6666_6666_6666;

pub const THRESHOLD_DEFAULT_BITS: u64 = 0x3FE9_9999_9999_999A;

/// `value`, raised to `lo` and lowered to `hi`.
pub open spec fn clamp(value: int, lo: int, hi: int) -> int {
    if value < lo {
        lo
    } else if value > hi {
        hi
    } else {
        value
    }
}

pub open spec fn i64_of(v: Option<JsonView>) -> Option<i64> {
    match v {
        Some(j) => j.as_i64(),
        None => None,
    }
}

/// A stored integer, or `default`, kept within `lo..=hi`.
pub open spec fn bounded(v: Option<JsonView>, default: int, lo: int, hi: int) -> int {
    clamp(
        match i64_of(v) {
            Some(x) => x as int,
            None => default,
        },
        lo,
        hi,
    )
}

pub open spec fn bool_of(v: Option<JsonView>) -> bool {
    match v {
        Some(JsonView::Bool(b)) => b,
        _ => false,
    }
}

pub open spec fn str_of(v: Option<JsonView>) -> Option<Seq<char>> {
    match v {
        Some(j) => j.as_str(),
        None => None,
    }
}

pub open spec fn float_view(text: Seq<char>) -> JsonView {
    JsonView::Number(NumberView::Float(text))
}

/// The compaction threshold a stored number gives: `0.8` when there is
/// none, else the number kept within `0.1..=0.95`.
pub open spec fn threshold_of(stored: Option<JsonView>, value: Option<Binary64>) -> JsonView {
    match value {
        None => float_view("0.8"@),
        Some(v) => if v.less(Binary64 { bits: THRESHOLD_MIN_BITS }) {
            float_view("0.1"@)
        } else if (Binary64 { bits: THRESHOLD_MAX_BITS }).less(v) {
            float_view("0.95"@)
        } else {
            stored.unwrap()
        },
    }
}

/// `prev`, unless `k` is `key`.
pub open spec fn put(prev: Option<JsonView>, k: Seq<char>, key: Seq<char>, v: JsonView) -> Option<JsonView> {
    if k == key {
        Some(v)
    } else {
        prev
    }
}

/// `prev`, unless `k` is `key` and there is a value to put.
pub open spec fn put_some(prev: Option<JsonView>, k: Seq<char>, key: Seq<char>, v: Option<JsonView>) -> Option<
    JsonView,
> {
    if k == key && v is Some {
        v
    } else {
        prev
    }
}

pub open spec fn int_json_view(i: int) -> JsonView {
    int_view(i as i64)
}

/// The settings the product shows, key by key.
pub open spec fn snapshot_field(prefs: Seq<(Seq<char>, Json)>, value: Option<Binary64>, k: Seq<char>) -> Option<
    JsonView,
> {
    let f = |key: Seq<char>| field_of(prefs, key);
    let s0 = put(None, k, "onboarded"@, JsonView::Bool(bool_of(f("onboarded"@))));
    let s1 = put(s0, k, "language"@, crate::provider::bodies::or_null(f("language"@)));
    let s2 = put(s1, k, "sessions_peek"@, int_json_view(bounded(f("sessions_peek"@), 5, 1, 50)));
    let s3 = put(s2, k, "context_bar"@, JsonView::Bool(bool_of(f("context_bar"@))));
    let s4 = put(
        s3,
        k,
        "scratch_base"@,
        JsonView::Str(
            match str_of(f("scratch_base"@)) {
                Some(p) => p,
                None => "~/Delta"@,
            },
        ),
    );
    let s5 = put(
        s4,
        k,
        "pdf_fallback"@,
        JsonView::Str(
            if str_of(f("pdf_fallback"@)) == Some("images"@) {
                "images"@
            } else {
                "text"@
            },
        ),
    );
    let s6 = put(s5, k, "pdf_max_pages"@, int_json_view(bounded(f("pdf_max_pages"@), 20, 1, 100)));
    let s7 = put(s6, k, "pdf_max_mb"@, int_json_view(bounded(f("pdf_max_mb"@), 10, 1, 10)));
    let s8 = put(s7, k, "compaction_threshold_pct"@, threshold_of(f("compaction_threshold_pct"@), value));
    let s9 = put(
        s8,
        k,
        "compaction_cap_tokens"@,
        int_json_view(bounded(f("compaction_cap_tokens"@), 250000, 10000, 2000000)),
    );
    put(s9, k, "compaction_model"@, JsonView::Str(or_empty(str_of(f("compaction_model"@)))))
}

pub open spec fn is_number(v: Option<JsonView>) -> bool {
    v matches Some(JsonView::Number(_))
}

fn bool_member(m: &StrMap<Json>, key: &str) -> (r: bool)
    ensures
        r == bool_of(field_of(m@, key@)),
{
    match m.get(key) {
        Some(Json::Bool(b)) => *b,
        _ => false,
    }
}

fn i64_member(m: &StrMap<Json>, key: &str) -> (r: Option<i64>)
    ensures
        r == i64_of(field_of(m@, key@)),
{
    match m.get(key) {
        Some(v) => v.as_i64(),
        None => None,
    }
}

fn str_member<'a>(m: &'a StrMap<Json>, key: &str) -> (r: Option<&'a str>)
    ensures
        match r {
            Some(s) => str_of(field_of(m@, key@)) == Some(s@),
            None => str_of(field_of(m@, key@)) is None,
        },
{
    match m.get(key) {
        Some(v) => v.as_str(),
        None => None,
    }
}

fn clamp_i64(value: i64, lo: i64, hi: i64) -> (r: i64)
    requires
        lo <= hi,
    ensures
        r == clamp(value as int, lo as int, hi as int),
{
    if value < lo {
        lo
    } else if value > hi {
        hi
    } else {
        value
    }
}

fn bounded_i64(m: &StrMap<Json>, key: &str, default: i64, lo: i64, hi: i64) -> (r: i64)
    requires
        lo <= hi,
    ensures
        r == bounded(field_of(m@, key@), default as int, lo as int, hi as int),
{
    let v = match i64_member(m, key) {
        Some(x) => x,
        None => default,
    };
    clamp_i64(v, lo, hi)
}

fn float_json(text: &str) -> (r: Json)
    ensures
        r@ == float_view(text@),
{
    Json::Number(JsonNumber::Float(owned(text)))
}

fn threshold_json(stored: Option<&Json>, value: Option<Binary64>) -> (r: Json)
    requires
        value is Some ==> stored is Some,
    ensures
        r@ == threshold_of(
            match stored {
                Some(j) => Some(j@),
                None => None,
            },
            value,
        ),
{
    match value {
        None => float_json("0.8"),
        Some(v) => if v.lt(Binary64::from_bits(THRESHOLD_MIN_BITS)) {
            float_json("0.1")
        } else if Binary64::from_bits(THRESHOLD_MAX_BITS).lt(v) {
            float_json("0.95")
        } else {
            match stored {
                Some(j) => j.deep_clone(),
                None => Json::Null,
            }
        },
    }
}

/// The compaction threshold of the settings when none is stored.
pub fn default_threshold() -> (b: Binary64)
    ensures
        b.bits == THRESHOLD_DEFAULT_BITS,
{
    Binary64::from_bits(THRESHOLD_DEFAULT_BITS)
}

pub struct ProductSettings;

impl ProductSettings {
    /// The settings the product shows. `threshold` is the stored compaction
    /// threshold as a binary64 value, present exactly when a number is
    /// stored.
    pub fn snapshot(prefs: &StrMap<Json>, threshold: Option<Binary64>) -> (r: StrMap<Json>)
        requires
            threshold is Some <==> is_number(field_of(prefs@, "compaction_threshold_pct"@)),
        ensures
            forall|k: Seq<char>| #![trigger field_of(r@, k)] field_of(r@, k) == snapshot_field(prefs@, threshold, k),
    {
        let mut out: StrMap<Json> = StrMap::new();
        proof {
            assert forall|k: Seq<char>| #![trigger find(out@, k)] find(out@, k) is None by {
                crate::strmap::lemma_find_none(out@, k);
            }
        }
        out.insert(owned("onboarded"), Json::Bool(bool_member(prefs, "onboarded")));
        let language = match prefs.get("language") {
            Some(v) => v.deep_clone(),
            None => Json::Null,
        };
        out.insert(owned("language"), language);
        out.insert(owned("sessions_peek"), int_json(bounded_i64(prefs, "sessions_peek", 5, 1, 50)));
        out.insert(owned("context_bar"), Json::Bool(bool_member(prefs, "context_bar")));
        let scratch = match str_member(prefs, "scratch_base") {
            Some(p) => owned(p),
            None => owned("~/Delta"),
        };
        out.insert(owned("scratch_base"), Json::String(scratch));
        let images = match str_member(prefs, "pdf_fallback") {
            Some(mode) => str_eq(mode, "images"),
            None => false,
        };
        out.insert(owned("pdf_fallback"), Json::String(owned(if images { "images" } else { "text" })));
        out.insert(owned("pdf_max_pages"), int_json(bounded_i64(prefs, "pdf_max_pages", 20, 1, 100)));
        out.insert(owned("pdf_max_mb"), int_json(bounded_i64(prefs, "pdf_max_mb", 10, 1, 10)));
        out.insert(owned("compaction_threshold_pct"), threshold_json(prefs.get("compaction_threshold_pct"), threshold));
        out.insert(
            owned("compaction_cap_tokens"),
            int_json(bounded_i64(prefs, "compaction_cap_tokens", 250000, 10000, 2000000)),
        );
        let model = match str_member(prefs, "compaction_model") {
            Some(m) => owned(m),
            None => String::new(),
        };
        out.insert(owned("compaction_model"), Json::String(model));
        out
    }
}


/// The value `patch` gives a PDF setting: the fallback mode as given, the
/// page and size limits clamped.
pub open spec fn pdf_patch_field(old: Seq<(Seq<char>, Json)>, patch: JsonView, k: Seq<char>) -> Option<JsonView> {
    let s0 = put_some(
        field_of(old, k),
        k,
        "pdf_fallback"@,
        match patch.str_field("pdf_fallback"@) {
            Some(m) => Some(JsonView::Str(m)),
            None => None,
        },
    );
    let s1 = put_some(
        s0,
        k,
        "pdf_max_pages"@,
        match i64_of(patch.get("pdf_max_pages"@)) {
            Some(n) => Some(int_json_view(clamp(n as int, 1, 100))),
            None => None,
        },
    );
    put_some(
        s1,
        k,
        "pdf_max_mb"@,
        match i64_of(patch.get("pdf_max_mb"@)) {
            Some(n) => Some(int_json_view(clamp(n as int, 1, 10))),
            None => None,
        },
    )
}

/// A patch's fallback mode is one the product knows.
pub open spec fn pdf_mode_ok(patch: JsonView) -> bool {
    match patch.str_field("pdf_fallback"@) {
        Some(m) => m == "text"@ || m == "images"@,
        None => true,
    }
}

/// A threshold within `0.1..=0.95`.
pub open spec fn threshold_ok(v: Binary64) -> bool {
    (Binary64 { bits: THRESHOLD_MIN_BITS }).less_eq(v) && v.less_eq(Binary64 { bits: THRESHOLD_MAX_BITS })
}

/// The value `patch` gives a compaction setting: the threshold as given,
/// the token cap clamped, the model as given.
pub open spec fn compaction_patch_field(old: Seq<(Seq<char>, Json)>, patch: JsonView, k: Seq<char>) -> Option<
    JsonView,
> {
    let s0 = put_some(
        field_of(old, k),
        k,
        "compaction_threshold_pct"@,
        match patch.get("compaction_threshold_pct"@) {
            Some(JsonView::Number(n)) => Some(JsonView::Number(n)),
            _ => None,
        },
    );
    let s1 = put_some(
        s0,
        k,
        "compaction_cap_tokens"@,
        match i64_of(patch.get("compaction_cap_tokens"@)) {
            Some(n) => Some(int_json_view(clamp(n as int, 10000, 2000000))),
            None => None,
        },
    );
    put_some(
        s1,
        k,
        "compaction_model"@,
        match patch.str_field("compaction_model"@) {
            Some(m) => Some(JsonView::Str(m)),
            None => None,
        },
    )
}

impl ProductSettings {
    pub fn set_onboarded(prefs: &mut StrMap<Json>, value: bool)
        ensures
            forall|k: Seq<char>| #![trigger field_of(final(prefs)@, k)]
                field_of(final(prefs)@, k) == put(field_of(old(prefs)@, k), k, "onboarded"@, JsonView::Bool(value)),
    {
        prefs.insert(owned("onboarded"), Json::Bool(value));
    }

    /// Keep the interface language, trimmed; an empty one clears it.
    pub fn set_language(prefs: &mut StrMap<Json>, language: &str)
        ensures
            forall|k: Seq<char>| #![trigger field_of(final(prefs)@, k)]
                field_of(final(prefs)@, k) == if k == "language"@ {
                    if seq_trim(language@).len() == 0 {
                        None
                    } else {
                        Some(JsonView::Str(seq_trim(language@)))
                    }
                } else {
                    field_of(old(prefs)@, k)
                },
    {
        let value = trim(language);
        if value.as_str().is_empty() {
            prefs.remove("language");
        } else {
            prefs.insert(owned("language"), Json::String(value));
        }
    }

    pub fn set_context_bar(prefs: &mut StrMap<Json>, shown: bool)
        ensures
            forall|k: Seq<char>| #![trigger field_of(final(prefs)@, k)]
                field_of(final(prefs)@, k) == put(field_of(old(prefs)@, k), k, "context_bar"@, JsonView::Bool(shown)),
    {
        prefs.insert(owned("context_bar"), Json::Bool(shown));
    }

    /// Keep how many sessions the sidebar peeks at, within `1..=50`.
    pub fn set_sessions_peek(prefs: &mut StrMap<Json>, count: i64) -> (r: i64)
        ensures
            r == clamp(count as int, 1, 50),
            forall|k: Seq<char>| #![trigger field_of(final(prefs)@, k)]
                field_of(final(prefs)@, k) == put(field_of(old(prefs)@, k), k, "sessions_peek"@, int_json_view(r as int)),
    {
        let value = clamp_i64(count, 1, 50);
        prefs.insert(owned("sessions_peek"), int_json(value));
        value
    }

    /// Keep the scratch directory, trimmed; returns what was kept.
    pub fn set_scratch_base(prefs: &mut StrMap<Json>, path: &str) -> (r: String)
        ensures
            r@ == seq_trim(path@),
            forall|k: Seq<char>| #![trigger field_of(final(prefs)@, k)]
                field_of(final(prefs)@, k) == put(field_of(old(prefs)@, k), k, "scratch_base"@, JsonView::Str(r@)),
    {
        let value = trim(path);
        prefs.insert(owned("scratch_base"), Json::String(value.clone()));
        value
    }

    /// Apply the PDF settings of `patch`; an unknown fallback mode is
    /// refused and changes nothing.
    pub fn set_pdf_settings(prefs: &mut StrMap<Json>, patch: &Json) -> (r: Result<(), String>)
        ensures
            pdf_mode_ok(patch@) <==> r is Ok,
            r matches Err(e) ==> e@ == "pdf_fallback must be 'text' or 'images'"@ && final(prefs)@ == old(prefs)@,
            r is Ok ==> forall|k: Seq<char>| #![trigger field_of(final(prefs)@, k)]
                field_of(final(prefs)@, k) == pdf_patch_field(old(prefs)@, patch@, k),
    {
        match patch.str_field("pdf_fallback") {
            Some(mode) => {
                if !(str_eq(mode, "text") || str_eq(mode, "images")) {
                    return Err("pdf_fallback must be 'text' or 'images'".to_string());
                }
                prefs.insert(owned("pdf_fallback"), Json::String(owned(mode)));
            },
            None => {},
        }
        match patch.get("pdf_max_pages") {
            Some(v) => match v.as_i64() {
                Some(n) => {
                    prefs.insert(owned("pdf_max_pages"), int_json(clamp_i64(n, 1, 100)));
                },
                None => {},
            },
            None => {},
        }
        match patch.get("pdf_max_mb") {
            Some(v) => match v.as_i64() {
                Some(n) => {
                    prefs.insert(owned("pdf_max_mb"), int_json(clamp_i64(n, 1, 10)));
                },
                None => {},
            },
            None => {},
        }
        Ok(())
    }

    /// Apply the compaction settings of `patch`. `threshold` is the patch's
    /// threshold as a binary64 value, present exactly when the patch has a
    /// number there; one outside `0.1..=0.95` is refused and changes nothing.
    pub fn set_compaction_settings(prefs: &mut StrMap<Json>, patch: &Json, threshold: Option<Binary64>) -> (r: Result<
        (),
        String,
    >)
        requires
            threshold is Some <==> is_number(patch@.get("compaction_threshold_pct"@)),
        ensures
            (match threshold {
                Some(v) => threshold_ok(v),
                None => true,
            }) <==> r is Ok,
            r matches Err(e) ==> e@ == "compaction_threshold_pct must be between 0.10 and 0.95"@ && final(prefs)@ == old(
                prefs,
            )@,
            r is Ok ==> forall|k: Seq<char>| #![trigger field_of(final(prefs)@, k)]
                field_of(final(prefs)@, k) == compaction_patch_field(old(prefs)@, patch@, k),
    {
        match threshold {
            Some(v) => {
                if !(Binary64::from_bits(THRESHOLD_MIN_BITS).le(v) && v.le(Binary64::from_bits(THRESHOLD_MAX_BITS))) {
                    return Err("compaction_threshold_pct must be between 0.10 and 0.95".to_string());
                }
                match patch.get("compaction_threshold_pct") {
                    Some(n) => {
                        prefs.insert(owned("compaction_threshold_pct"), n.deep_clone());
                    },
                    None => {},
                }
            },
            None => {},
        }
        match patch.get("compaction_cap_tokens") {
            Some(v) => match v.as_i64() {
                Some(n) => {
                    prefs.insert(owned("compaction_cap_tokens"), int_json(clamp_i64(n, 10000, 2000000)));
                },
                None => {},
            },
            None => {},
        }
        match patch.str_field("compaction_model") {
            Some(m) => {
                prefs.insert(owned("compaction_model"), Json::String(owned(m)));
            },
            None => {},
        }
        Ok(())
    }
}


/// Whatever is stored, the settings the product shows keep their integer
/// bounds: the sessions peeked at within `1..=50`, the PDF page limit
/// within `1..=100`, the PDF size limit within `1..=10` and the compaction
/// token cap within `10000..=2000000`.
pub proof fn law_snapshot_keeps_bounds(prefs: Seq<(Seq<char>, Json)>, value: Option<Binary64>)
    ensures
        snapshot_field(prefs, value, "sessions_peek"@) == Some(
            int_json_view(bounded(field_of(prefs, "sessions_peek"@), 5, 1, 50)),
        ),
        1 <= bounded(field_of(prefs, "sessions_peek"@), 5, 1, 50) <= 50,
        snapshot_field(prefs, value, "pdf_max_pages"@) == Some(
            int_json_view(bounded(field_of(prefs, "pdf_max_pages"@), 20, 1, 100)),
        ),
        1 <= bounded(field_of(prefs, "pdf_max_pages"@), 20, 1, 100) <= 100,
        snapshot_field(prefs, value, "pdf_max_mb"@) == Some(
            int_json_view(bounded(field_of(prefs, "pdf_max_mb"@), 10, 1, 10)),
        ),
        1 <= bounded(field_of(prefs, "pdf_max_mb"@), 10, 1, 10) <= 10,
        snapshot_field(prefs, value, "compaction_cap_tokens"@) == Some(
            int_json_view(bounded(field_of(prefs, "compaction_cap_tokens"@), 250000, 10000, 2000000)),
        ),
        10000 <= bounded(field_of(prefs, "compaction_cap_tokens"@), 250000, 10000, 2000000) <= 2000000,
{
    reveal_strlit("sessions_peek");
    reveal_strlit("context_bar");
    reveal_strlit("scratch_base");
    reveal_strlit("pdf_fallback");
    reveal_strlit("pdf_max_pages");
    reveal_strlit("pdf_max_mb");
    reveal_strlit("compaction_threshold_pct");
    reveal_strlit("compaction_cap_tokens");
    reveal_strlit("compaction_model");
    assert("sessions_peek"@.len() == 13);
    assert("context_bar"@.len() == 11);
    assert("scratch_base"@.len() == 12);
    assert("pdf_fallback"@.len() == 12);
    assert("pdf_max_pages"@.len() == 13);
    assert("pdf_max_mb"@.len() == 10);
    assert("compaction_threshold_pct"@.len() == 24);
    assert("compaction_cap_tokens"@.len() == 21);
    assert("compaction_model"@.len() == 16);
    assert("sessions_peek"@[0] != "pdf_max_pages"@[0]);
}

} // verus!
