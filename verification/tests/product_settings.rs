use delta_core::binary64::Binary64;
use delta_core::json::{Json, JsonNumber};
use delta_core::product_settings::ProductSettings;
use delta_core::strmap::StrMap;

fn b(value: f64) -> Binary64 {
    Binary64::from_bits(value.to_bits())
}

fn s(text: &str) -> Json {
    Json::String(text.to_string())
}

fn posint(n: u64) -> Json {
    Json::Number(JsonNumber::PosInt(n))
}

fn float(text: &str) -> Json {
    Json::Number(JsonNumber::Float(text.to_string()))
}

fn object(members: Vec<(&str, Json)>) -> Json {
    Json::Object(members.into_iter().map(|(k, v)| (k.to_string(), v)).collect())
}

fn text(j: Option<&Json>) -> Option<String> {
    match j {
        Some(Json::String(t)) => Some(t.clone()),
        Some(Json::Number(JsonNumber::Float(t))) => Some(t.clone()),
        _ => None,
    }
}

fn number(j: Option<&Json>) -> Option<u64> {
    match j {
        Some(Json::Number(JsonNumber::PosInt(n))) => Some(*n),
        _ => None,
    }
}

#[test]
fn empty_preferences_show_the_defaults() {
    let prefs: StrMap<Json> = StrMap::new();
    let shown = ProductSettings::snapshot(&prefs, None);
    assert_eq!(shown.len(), 11);
    assert!(matches!(shown.get("onboarded"), Some(Json::Bool(false))));
    assert!(matches!(shown.get("language"), Some(Json::Null)));
    assert_eq!(number(shown.get("sessions_peek")), Some(5));
    assert_eq!(text(shown.get("scratch_base")).as_deref(), Some("~/Delta"));
    assert_eq!(text(shown.get("pdf_fallback")).as_deref(), Some("text"));
    assert_eq!(number(shown.get("pdf_max_pages")), Some(20));
    assert_eq!(number(shown.get("pdf_max_mb")), Some(10));
    assert_eq!(text(shown.get("compaction_threshold_pct")).as_deref(), Some("0.8"));
    assert_eq!(number(shown.get("compaction_cap_tokens")), Some(250000));
    assert_eq!(text(shown.get("compaction_model")).as_deref(), Some(""));
}

#[test]
fn stored_preferences_are_bounded() {
    let mut prefs: StrMap<Json> = StrMap::new();
    prefs.insert("sessions_peek".to_string(), posint(500));
    prefs.insert("pdf_max_mb".to_string(), posint(0));
    prefs.insert("pdf_fallback".to_string(), s("images"));
    prefs.insert("compaction_threshold_pct".to_string(), float("0.99"));
    let shown = ProductSettings::snapshot(&prefs, Some(b(0.99)));
    assert_eq!(number(shown.get("sessions_peek")), Some(50));
    assert_eq!(number(shown.get("pdf_max_mb")), Some(1));
    assert_eq!(text(shown.get("pdf_fallback")).as_deref(), Some("images"));
    assert_eq!(text(shown.get("compaction_threshold_pct")).as_deref(), Some("0.95"));

    prefs.insert("compaction_threshold_pct".to_string(), float("0.5"));
    let shown = ProductSettings::snapshot(&prefs, Some(b(0.5)));
    assert_eq!(text(shown.get("compaction_threshold_pct")).as_deref(), Some("0.5"));
    prefs.insert("compaction_threshold_pct".to_string(), float("0.01"));
    let shown = ProductSettings::snapshot(&prefs, Some(b(0.01)));
    assert_eq!(text(shown.get("compaction_threshold_pct")).as_deref(), Some("0.1"));
}

#[test]
fn setters_trim_clamp_and_clear() {
    let mut prefs: StrMap<Json> = StrMap::new();
    ProductSettings::set_language(&mut prefs, "  fr ");
    assert_eq!(text(prefs.get("language")).as_deref(), Some("fr"));
    ProductSettings::set_language(&mut prefs, "   ");
    assert!(prefs.get("language").is_none());
    assert_eq!(ProductSettings::set_sessions_peek(&mut prefs, 0), 1);
    assert_eq!(ProductSettings::set_sessions_peek(&mut prefs, 99), 50);
    assert_eq!(number(prefs.get("sessions_peek")), Some(50));
    assert_eq!(ProductSettings::set_scratch_base(&mut prefs, " ~/work "), "~/work");
    ProductSettings::set_onboarded(&mut prefs, true);
    ProductSettings::set_context_bar(&mut prefs, true);
    assert!(matches!(prefs.get("onboarded"), Some(Json::Bool(true))));
    assert!(matches!(prefs.get("context_bar"), Some(Json::Bool(true))));
}

#[test]
fn pdf_patches_are_checked_and_clamped() {
    let mut prefs: StrMap<Json> = StrMap::new();
    let refused = ProductSettings::set_pdf_settings(&mut prefs, &object(vec![("pdf_fallback", s("ocr")), ("pdf_max_pages", posint(3))]));
    assert_eq!(refused.unwrap_err(), "pdf_fallback must be 'text' or 'images'");
    assert_eq!(prefs.len(), 0);
    let patch = object(vec![("pdf_fallback", s("images")), ("pdf_max_pages", posint(300)), ("pdf_max_mb", posint(4))]);
    assert!(ProductSettings::set_pdf_settings(&mut prefs, &patch).is_ok());
    assert_eq!(text(prefs.get("pdf_fallback")).as_deref(), Some("images"));
    assert_eq!(number(prefs.get("pdf_max_pages")), Some(100));
    assert_eq!(number(prefs.get("pdf_max_mb")), Some(4));
}

#[test]
fn compaction_patches_are_checked_and_clamped() {
    let mut prefs: StrMap<Json> = StrMap::new();
    let patch = object(vec![("compaction_threshold_pct", float("0.99"))]);
    let refused = ProductSettings::set_compaction_settings(&mut prefs, &patch, Some(b(0.99)));
    assert_eq!(refused.unwrap_err(), "compaction_threshold_pct must be between 0.10 and 0.95");
    assert_eq!(prefs.len(), 0);
    let patch = object(vec![
        ("compaction_cap_tokens", posint(5)),
        ("compaction_model", s("gpt-5.5")),
        ("compaction_threshold_pct", float("0.1")),
    ]);
    assert!(ProductSettings::set_compaction_settings(&mut prefs, &patch, Some(b(0.1))).is_ok());
    assert_eq!(text(prefs.get("compaction_threshold_pct")).as_deref(), Some("0.1"));
    assert_eq!(number(prefs.get("compaction_cap_tokens")), Some(10000));
    assert_eq!(text(prefs.get("compaction_model")).as_deref(), Some("gpt-5.5"));
}
