use locaryn_plugin_freetoken::ctl::{
    answer_to_demand, answer_to_question, base_url, rebuild_request, CacheRebuild, Exchange,
    Question,
};

fn answered(success: bool, body: &str) -> Exchange {
    Exchange::Answered { success, status: "503 Service Unavailable".to_string(), body: body.to_string() }
}

#[test]
fn l_url_de_base_perd_sa_barre_finale() {
    assert_eq!(base_url(Some("http://127.0.0.1:1919/")), "http://127.0.0.1:1919");
    assert_eq!(base_url(None), "http://127.0.0.1:1919");
}

#[test]
fn un_redimensionnement_vide_est_refuse() {
    assert!(CacheRebuild::default().is_empty());
}

#[test]
fn seuls_les_reservoirs_demandes_partent() {
    let json = CacheRebuild { moe: Some(4096), kv: None }.body();
    assert_eq!(json, r#"{"moe":4096}"#);
}

#[test]
fn the_base_url_falls_back() {
    assert_eq!(base_url(Some("http://h:1//")), "http://h:1");
    assert_eq!(base_url(Some("///")), "http://127.0.0.1:1919");
    assert_eq!(base_url(Some("")), "http://127.0.0.1:1919");
}

#[test]
fn questions_have_their_urls() {
    assert_eq!(Question::Health.url("b"), "b/health");
    assert_eq!(Question::Stats.url("b"), "b/v1/stats");
    assert_eq!(Question::CacheStatus.url("b"), "b/v1/cache/status");
    assert_eq!(Question::Models.url("b"), "b/v1/models");
    assert_eq!(Question::Requests { limit: None }.url("b"), "b/v1/requests");
    assert_eq!(Question::Requests { limit: Some(20) }.url("b"), "b/v1/requests?limit=20");
}

#[test]
fn answers_are_read() {
    let value = answer_to_question("u", &answered(true, r#"{"a":[1,null]}"#)).unwrap();
    assert_eq!(value["a"][0].as_u64(), Some(1));
    assert!(value["a"][1].is_null());
    let raw = answer_to_demand("u", &answered(true, "pong {")).unwrap();
    assert_eq!(raw["raw"].as_str(), Some("pong {"));
    assert_eq!(raw.as_object().unwrap().len(), 1);
}

#[test]
fn failures_are_said() {
    assert_eq!(
        answer_to_question("u", &answered(false, "loading")),
        Err("u a répondu 503 Service Unavailable : loading".to_string())
    );
    let silent = Exchange::Unanswered { error: "refused".to_string() };
    assert_eq!(
        answer_to_question("u", &silent),
        Err("le serveur ne répond pas sur u (refused) — il n'est probablement pas démarré. \
             Choisissez un modèle dans Réglages → Moteur pour le lancer."
            .to_string())
    );
    assert_eq!(
        answer_to_demand("u", &silent),
        Err("le serveur ne répond pas sur u (refused)".to_string())
    );
    let unprepared = Exchange::Unprepared { error: "no tls".to_string() };
    assert_eq!(answer_to_question("u", &unprepared), Err("no tls".to_string()));
    assert_eq!(answer_to_demand("u", &unprepared), Err("no tls".to_string()));
}

#[test]
fn a_demand_holds_what_it_asks_for() {
    assert_eq!(CacheRebuild { moe: Some(1), kv: Some(u64::MAX) }.body(), r#"{"moe":1,"kv":18446744073709551615}"#);
    assert_eq!(CacheRebuild { moe: None, kv: Some(0) }.body(), r#"{"kv":0}"#);
    let request = rebuild_request(&CacheRebuild { moe: None, kv: Some(7) }, "b").unwrap();
    assert_eq!(request.url, "b/v1/cache/rebuild");
    assert_eq!(request.body, r#"{"kv":7}"#);
    assert_eq!(
        rebuild_request(&CacheRebuild::default(), "b").unwrap_err(),
        "indiquez au moins « moe » ou « kv »"
    );
}
