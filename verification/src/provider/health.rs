//! Per-endpoint records of how provider requests went, and the capability
//! flags an endpoint has been found to refuse. The host keeps both as JSON
//! files; these functions compute the new contents from the old.
//!
//! Timestamps and latencies are binary64 values that the host reads from
//! its clock and timers and hands in as JSON numbers; deciding which
//! records have aged out takes floating-point subtraction, which the host
//! does, naming the models whose records are older than a day.

use vstd::prelude::*;

use crate::json::{items_view, lookup, members_view, Json, JsonNumber, JsonView, NumberView};
use crate::runtime::host::{members_of, put_member, put_member_exec};
use crate::text::{names, owned, str_eq};

verus! {

/// The samples a record keeps of each latency.
pub const HEALTH_MAX_SAMPLES: usize = 200;

pub open spec fn empty_object() -> JsonView {
    JsonView::Object(Seq::empty())
}

/// The record of a model before its first request.
pub open spec fn fresh_row() -> Seq<(Seq<char>, JsonView)> {
    seq![
        ("duration_ms"@, JsonView::Array(Seq::empty())),
        ("errors"@, JsonView::Number(NumberView::PosInt(0))),
        ("last_error_class"@, JsonView::Null),
        ("last_ts"@, JsonView::Number(NumberView::Float("0.0"@))),
        ("samples"@, JsonView::Number(NumberView::PosInt(0))),
        ("ttft_ms"@, JsonView::Array(Seq::empty())),
    ]
}

/// The members of `v` when it is an object, `fallback` otherwise.
pub open spec fn object_or(v: Option<JsonView>, fallback: Seq<(Seq<char>, JsonView)>) -> Seq<(Seq<char>, JsonView)> {
    match v {
        Some(JsonView::Object(m)) => m,
        _ => fallback,
    }
}

pub open spec fn count_of(v: Option<JsonView>) -> int {
    match v {
        Some(j) => match j.as_i64() {
            Some(n) => n as int,
            None => 0,
        },
        None => 0,
    }
}

pub open spec fn int_json_view(n: int) -> JsonView {
    crate::provider::replies::int_view(n as i64)
}

/// The last `HEALTH_MAX_SAMPLES` of a buffer after `x` joins it.
pub open spec fn capped_push(buffer: Seq<JsonView>, x: JsonView) -> Seq<JsonView> {
    let all = buffer.push(x);
    if all.len() > HEALTH_MAX_SAMPLES {
        all.subrange(all.len() - HEALTH_MAX_SAMPLES, all.len() as int)
    } else {
        all
    }
}

pub open spec fn buffer_of(v: Option<JsonView>) -> Seq<JsonView> {
    match v {
        Some(JsonView::Array(a)) => a,
        _ => Seq::empty(),
    }
}

/// A latency sample joins its buffer, when there is one.
pub open spec fn with_sample(row: Seq<(Seq<char>, JsonView)>, key: Seq<char>, sample: Option<NumberView>) -> Seq<
    (Seq<char>, JsonView),
> {
    match sample {
        Some(s) => put_member(row, key, JsonView::Array(capped_push(buffer_of(lookup(row, key)), JsonView::Number(s)))),
        None => row,
    }
}

/// A model's record after one more request.
pub open spec fn updated_row(
    row: Seq<(Seq<char>, JsonView)>,
    ok: bool,
    error_class: Option<Seq<char>>,
    ttft: Option<NumberView>,
    duration: Option<NumberView>,
    now: NumberView,
) -> Seq<(Seq<char>, JsonView)> {
    let r1 = put_member(row, "samples"@, int_json_view(count_of(lookup(row, "samples"@)) + 1));
    let r2 = if ok {
        r1
    } else {
        let e = put_member(r1, "errors"@, int_json_view(count_of(lookup(row, "errors"@)) + 1));
        put_member(
            e,
            "last_error_class"@,
            match error_class {
                Some(c) => JsonView::Str(c),
                None => JsonView::Null,
            },
        )
    };
    let r3 = with_sample(r2, "ttft_ms"@, ttft);
    let r4 = with_sample(r3, "duration_ms"@, duration);
    put_member(r4, "last_ts"@, JsonView::Number(now))
}

/// The members other than the stale models' (the current model stays).
pub open spec fn without_stale(ms: Seq<(Seq<char>, JsonView)>, model: Seq<char>, stale: Seq<Seq<char>>) -> Seq<
    (Seq<char>, JsonView),
>
    decreases ms.len(),
{
    if ms.len() == 0 {
        Seq::empty()
    } else {
        let rest = without_stale(ms.drop_last(), model, stale);
        let k = ms.last().0;
        if k != model && stale.contains(k) {
            rest
        } else {
            rest.push(ms.last())
        }
    }
}

/// The health store after a request to `model` at `endpoint`.
pub open spec fn health_store(
    store: JsonView,
    endpoint: Seq<char>,
    model: Seq<char>,
    ok: bool,
    error_class: Option<Seq<char>>,
    ttft: Option<NumberView>,
    duration: Option<NumberView>,
    now: NumberView,
    stale: Seq<Seq<char>>,
) -> JsonView {
    let top = members_of(store);
    let bucket = object_or(lookup(top, endpoint), Seq::empty());
    let row = object_or(lookup(bucket, model), fresh_row());
    let new_row = updated_row(row, ok, error_class, ttft, duration, now);
    let new_bucket = without_stale(put_member(bucket, model, JsonView::Object(new_row)), model, stale);
    JsonView::Object(put_member(top, endpoint, JsonView::Object(new_bucket)))
}

fn object_members(v: Option<&Json>) -> (r: Option<Vec<(String, Json)>>)
    ensures
        match v {
            Some(j) => match j@ {
                JsonView::Object(m) => r matches Some(x) && members_view(x@) == m,
                _ => r is None,
            },
            None => r is None,
        },
{
    match v {
        Some(j) => match j.deep_clone() {
            Json::Object(x) => Some(x),
            _ => None,
        },
        None => None,
    }
}


/// The record of `model` at `endpoint` before the request.
pub open spec fn health_row(store: JsonView, endpoint: Seq<char>, model: Seq<char>) -> Seq<(Seq<char>, JsonView)> {
    object_or(lookup(object_or(lookup(members_of(store), endpoint), Seq::empty()), model), fresh_row())
}

fn fresh_row_exec() -> (r: Vec<(String, Json)>)
    ensures
        members_view(r@) == fresh_row(),
{
    let empty_durations: Vec<Json> = Vec::new();
    let empty_ttfts: Vec<Json> = Vec::new();
    proof {
        crate::json::lemma_items_view(empty_durations@);
        crate::json::lemma_items_view(empty_ttfts@);
        assert(items_view(empty_durations@) =~= Seq::<JsonView>::empty());
        assert(items_view(empty_ttfts@) =~= Seq::<JsonView>::empty());
    }
    let r = vec![
        (owned("duration_ms"), Json::Array(empty_durations)),
        (owned("errors"), Json::Number(JsonNumber::PosInt(0))),
        (owned("last_error_class"), Json::Null),
        (owned("last_ts"), Json::Number(JsonNumber::Float(owned("0.0")))),
        (owned("samples"), Json::Number(JsonNumber::PosInt(0))),
        (owned("ttft_ms"), Json::Array(empty_ttfts)),
    ];
    proof {
        crate::json::lemma_members_view(r@);
        assert(members_view(r@) =~= fresh_row());
    }
    r
}

fn count_exec(ms: &Vec<(String, Json)>, key: &str) -> (r: i64)
    ensures
        r == count_of(lookup(members_view(ms@), key@)),
{
    match crate::json::member(ms, key) {
        Some(v) => match v.as_i64() {
            Some(n) => n,
            None => 0,
        },
        None => 0,
    }
}

fn buffer_exec(ms: &Vec<(String, Json)>, key: &str) -> (r: Vec<Json>)
    ensures
        items_view(r@) == buffer_of(lookup(members_view(ms@), key@)),
{
    match crate::json::member(ms, key) {
        Some(Json::Array(a)) => crate::json::clone_items(a),
        _ => {
            let r: Vec<Json> = Vec::new();
            proof {
                crate::json::lemma_items_view(r@);
                assert(items_view(r@) =~= Seq::<JsonView>::empty());
            }
            r
        },
    }
}

fn with_sample_exec(row: Vec<(String, Json)>, key: &str, sample: Option<&JsonNumber>) -> (r: Vec<(String, Json)>)
    ensures
        members_view(r@) == with_sample(
            members_view(row@),
            key@,
            match sample {
                Some(s) => Some(s@),
                None => None,
            },
        ),
{
    match sample {
        Some(s) => {
            let mut buffer = buffer_exec(&row, key);
            let ghost all = items_view(buffer@).push(JsonView::Number(s@));
            let x = Json::Number(s.duplicate());
            proof {
                crate::json::lemma_items_view_push(buffer@, x);
            }
            buffer.push(x);
            let filled: usize = buffer.len();
            let mut dropped: usize = 0;
            proof {
                crate::json::lemma_items_view(buffer@);
                assert(items_view(buffer@) == all);
                assert(all.len() == filled);
                assert(all.subrange(0, all.len() as int) =~= all);
            }
            while buffer.len() > HEALTH_MAX_SAMPLES
                invariant
                    items_view(buffer@) == all.subrange(dropped as int, all.len() as int),
                    dropped <= all.len() <= usize::MAX,
                    buffer@.len() == all.len() - dropped,
                    dropped > 0 ==> buffer@.len() >= HEALTH_MAX_SAMPLES,
                decreases buffer.len(),
            {
                let ghost before = buffer@;
                buffer.remove(0);
                proof {
                    crate::json::lemma_items_view(before);
                    crate::json::lemma_items_view(buffer@);
                    assert(buffer@ =~= before.subrange(1, before.len() as int));
                    assert forall|x: int| 0 <= x < buffer@.len() implies #[trigger] items_view(buffer@)[x] == all.subrange(
                        dropped + 1,
                        all.len() as int,
                    )[x] by {
                        assert(buffer@[x] == before[x + 1]);
                        assert(items_view(before)[x + 1] == all.subrange(dropped as int, all.len() as int)[x + 1]);
                    }
                    assert(items_view(buffer@) =~= all.subrange(dropped + 1, all.len() as int));
                }
                dropped = dropped + 1;
            }
            proof {
                if all.len() > HEALTH_MAX_SAMPLES {
                    assert(dropped == all.len() - HEALTH_MAX_SAMPLES);
                } else {
                    assert(dropped == 0);
                }
            }
            put_member_exec(row, key, Json::Array(buffer))
        },
        None => row,
    }
}

fn without_stale_exec(ms: Vec<(String, Json)>, model: &str, stale: &Vec<String>) -> (r: Vec<(String, Json)>)
    ensures
        members_view(r@) == without_stale(members_view(ms@), model@, names(stale@)),
{
    let ghost mv = members_view(ms@);
    proof {
        crate::json::lemma_members_view(ms@);
    }
    let mut out: Vec<(String, Json)> = Vec::new();
    let mut i: usize = 0;
    while i < ms.len()
        invariant
            i <= ms.len(),
            mv == members_view(ms@),
            mv.len() == ms@.len(),
            forall|x: int| 0 <= x < ms@.len() ==> #[trigger] mv[x] == (ms@[x].0@, ms@[x].1@),
            members_view(out@) == without_stale(mv.subrange(0, i as int), model@, names(stale@)),
        decreases ms.len() - i,
    {
        proof {
            assert(mv.subrange(0, i + 1).drop_last() =~= mv.subrange(0, i as int));
            assert(mv.subrange(0, i + 1).last() == mv[i as int]);
        }
        let k = ms[i].0.as_str();
        let mut listed = false;
        let mut j: usize = 0;
        while j < stale.len()
            invariant
                j <= stale.len(),
                listed <==> exists|y: int| 0 <= y < j && names(stale@)[y] == k@,
            decreases stale.len() - j,
        {
            proof {
                assert(names(stale@)[j as int] == stale@[j as int]@);
            }
            if str_eq(stale[j].as_str(), k) {
                listed = true;
            }
            j = j + 1;
        }
        proof {
            if listed {
                let y = choose|y: int| 0 <= y < j && names(stale@)[y] == k@;
                assert(names(stale@).contains(k@));
            } else {
                assert(!names(stale@).contains(k@));
            }
        }
        if str_eq(k, model) || !listed {
            let key = ms[i].0.clone();
            let value = ms[i].1.deep_clone();
            proof {
                crate::json::lemma_members_view_push(out@, (key, value));
            }
            out.push((key, value));
        }
        i = i + 1;
    }
    proof {
        assert(mv.subrange(0, i as int) =~= mv);
    }
    out
}

/// The health store after one request to `model` at `endpoint`: the
/// record's sample count goes up, a failure's count and class are kept,
/// the latencies join their buffers of the last 200, and the request time
/// is noted; the models in `stale` (other than this one) are dropped from
/// the endpoint. A store that is not an object starts empty.
pub fn health_update(
    store: &Json,
    endpoint: &str,
    model: &str,
    ok: bool,
    error_class: Option<&str>,
    ttft: Option<&JsonNumber>,
    duration: Option<&JsonNumber>,
    now: &JsonNumber,
    stale: &Vec<String>,
) -> (r: Json)
    requires
        count_of(lookup(health_row(store@, endpoint@, model@), "samples"@)) < i64::MAX,
        !ok ==> count_of(lookup(health_row(store@, endpoint@, model@), "errors"@)) < i64::MAX,
    ensures
        r@ == health_store(
            store@,
            endpoint@,
            model@,
            ok,
            match error_class {
                Some(c) => Some(c@),
                None => None,
            },
            match ttft {
                Some(t) => Some(t@),
                None => None,
            },
            match duration {
                Some(d) => Some(d@),
                None => None,
            },
            now@,
            names(stale@),
        ),
{
    let top: Vec<(String, Json)> = match store.deep_clone() {
        Json::Object(m) => m,
        _ => {
            let e: Vec<(String, Json)> = Vec::new();
            proof {
                crate::json::lemma_members_view(e@);
                assert(members_view(e@) =~= Seq::<(Seq<char>, JsonView)>::empty());
            }
            e
        },
    };
    let bucket: Vec<(String, Json)> = match object_members(crate::json::member(&top, endpoint)) {
        Some(b) => b,
        None => {
            let e: Vec<(String, Json)> = Vec::new();
            proof {
                crate::json::lemma_members_view(e@);
                assert(members_view(e@) =~= Seq::<(Seq<char>, JsonView)>::empty());
            }
            e
        },
    };
    let row: Vec<(String, Json)> = match object_members(crate::json::member(&bucket, model)) {
        Some(r) => r,
        None => fresh_row_exec(),
    };
    let samples = count_exec(&row, "samples");
    let errors = count_exec(&row, "errors");
    let mut row = put_member_exec(row, "samples", crate::provider::replies::int_json(samples + 1));
    if !ok {
        row = put_member_exec(row, "errors", crate::provider::replies::int_json(errors + 1));
        let class = match error_class {
            Some(c) => Json::String(owned(c)),
            None => Json::Null,
        };
        row = put_member_exec(row, "last_error_class", class);
    }
    let row = with_sample_exec(row, "ttft_ms", ttft);
    let row = with_sample_exec(row, "duration_ms", duration);
    let row = put_member_exec(row, "last_ts", Json::Number(now.duplicate()));
    let bucket = put_member_exec(bucket, model, Json::Object(row));
    let bucket = without_stale_exec(bucket, model, stale);
    Json::Object(put_member_exec(top, endpoint, Json::Object(bucket)))
}

/// The capability flags recorded for an endpoint: its entry, or `{}`.
pub fn endpoint_caps_entry(store: &Json, key: &str) -> (r: Json)
    ensures
        r@ == match store@.get(key@) {
            Some(v) => v,
            None => empty_object(),
        },
{
    match store.get(key) {
        Some(v) => v.deep_clone(),
        None => {
            let e: Vec<(String, Json)> = Vec::new();
            proof {
                crate::json::lemma_members_view(e@);
                assert(members_view(e@) =~= Seq::<(Seq<char>, JsonView)>::empty());
            }
            Json::Object(e)
        },
    }
}

/// The endpoint store after `field` was found refused at `key`: the
/// entry's flag is `false` and its time of update is `now`. An entry that
/// is not an object stays as it is.
pub open spec fn rejected_store(store: JsonView, key: Seq<char>, field: Seq<char>, now: NumberView) -> JsonView {
    let top = members_of(store);
    let entry = match lookup(top, key) {
        Some(v) => v,
        None => empty_object(),
    };
    let new_entry = match entry {
        JsonView::Object(m) => JsonView::Object(
            put_member(put_member(m, field, JsonView::Bool(false)), "updated_at"@, JsonView::Number(now)),
        ),
        other => other,
    };
    JsonView::Object(put_member(top, key, new_entry))
}

pub fn endpoint_rejected(store: &Json, key: &str, field: &str, now: &JsonNumber) -> (r: Json)
    ensures
        r@ == rejected_store(store@, key@, field@, now@),
{
    let top: Vec<(String, Json)> = match store.deep_clone() {
        Json::Object(m) => m,
        _ => {
            let e: Vec<(String, Json)> = Vec::new();
            proof {
                crate::json::lemma_members_view(e@);
                assert(members_view(e@) =~= Seq::<(Seq<char>, JsonView)>::empty());
            }
            e
        },
    };
    let entry = match crate::json::member(&top, key) {
        Some(v) => v.deep_clone(),
        None => {
            let e: Vec<(String, Json)> = Vec::new();
            proof {
                crate::json::lemma_members_view(e@);
                assert(members_view(e@) =~= Seq::<(Seq<char>, JsonView)>::empty());
            }
            Json::Object(e)
        },
    };
    let new_entry = match entry {
        Json::Object(m) => {
            let m = put_member_exec(m, field, Json::Bool(false));
            Json::Object(put_member_exec(m, "updated_at", Json::Number(now.duplicate())))
        },
        other => other,
    };
    Json::Object(put_member_exec(top, key, new_entry))
}

} // verus!
