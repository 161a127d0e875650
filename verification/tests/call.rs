use locaryn_plugin_freetoken::call::{
    begin_call, continue_call, Context, ToolAction, ToolEvent, ToolState, ToolStep,
};
use locaryn_plugin_freetoken::ctl::Exchange;
use locaryn_plugin_freetoken::models::Candidate;
use locaryn_plugin_freetoken::outcome::Outcome;
use locaryn_plugin_freetoken::runtime::{Host, Runtime};
use serde_json::Value;

fn json(text: &str) -> Value {
    serde_json::from_str(text).unwrap()
}

fn context() -> Context {
    Context {
        host: Host { windows: false, data_dir: "/d".to_string(), cli_present: false },
        runtime: Runtime::Native,
        endpoint: Some("http://h:2000/".to_string()),
        library: None,
    }
}

fn ran(success: bool, stdout: &str) -> ToolEvent {
    ToolEvent::Ran {
        result: Ok(Outcome {
            command: "the command".to_string(),
            success,
            code: if success { Some(0) } else { None },
            stdout: stdout.to_string(),
            stderr: " err ".to_string(),
        }),
    }
}

fn not_run() -> ToolEvent {
    ToolEvent::Ran { result: Err("cannot run".to_string()) }
}

fn answered(success: bool, body: &str) -> ToolEvent {
    ToolEvent::Exchanged {
        exchange: Exchange::Answered {
            success,
            status: "500".to_string(),
            body: body.to_string(),
        },
    }
}

fn begin(name: &str, args: &str) -> ToolStep {
    begin_call(name, &json(args), &context())
}

fn next(state: ToolState, event: ToolEvent) -> ToolStep {
    assert!(state.awaits(&event));
    continue_call(state, event, &context())
}

fn result(step: ToolStep) -> Result<Value, String> {
    assert!(matches!(step.state, ToolState::Done));
    match step.action {
        ToolAction::Finish { result } => result,
        other => panic!("{:?}", other),
    }
}

fn run(step: &ToolStep) -> (String, u64) {
    match &step.action {
        ToolAction::Run { invocation, seconds } => {
            (invocation.args.last().unwrap().clone(), *seconds)
        }
        other => panic!("{:?}", other),
    }
}

fn got(step: &ToolStep) -> String {
    match &step.action {
        ToolAction::Get { url } => url.clone(),
        other => panic!("{:?}", other),
    }
}

#[test]
fn the_status_is_reported_with_or_without_a_server() {
    for (answer, server) in [(answered(true, r#"{"ok":1}"#), r#"{"ok":1}"#), (answered(false, "x"), "null")] {
        let step = begin("freetoken_status", "{}");
        assert_eq!(run(&step).1, 180);
        let step = next(step.state, ran(false, "os=Linux x86_64\nft_path=ft 1\ngpu=0\nram_kb=1048576\n"));
        match &step.action {
            ToolAction::Measure { kibibytes } => assert_eq!(kibibytes.as_deref(), Some("1048576")),
            other => panic!("{:?}", other),
        }
        let step = next(step.state, ToolEvent::Measured { memory: json("1.0") });
        assert_eq!(got(&step), "http://h:2000/health");
        let report = result(next(step.state, answer)).unwrap();
        let missing = report["manquants"].as_array().unwrap().len();
        assert_eq!(missing, 3);
        let expected = format!(
            r#"{{"runtime":"linux-natif","pret":false,"systeme":"Linux x86_64","pilote":null,
                "cartes":["0"],"memoire_systeme_gio":1.0,"python":null,"uv":null,"nvcc":null,
                "version_moteur":"ft 1","version_epinglee":"0.1.2","serveur":{server},
                "endpoint":"http://h:2000"}}"#
        );
        let mut report = report;
        report.as_object_mut().unwrap().remove("manquants");
        assert_eq!(report, json(&expected));
    }
    let step = begin("freetoken_status", "{}");
    assert_eq!(result(next(step.state, not_run())), Err("cannot run".to_string()));
}

#[test]
fn the_status_names_the_runtime() {
    let context = Context { runtime: Runtime::Wsl { distro: None }, endpoint: None, ..context() };
    let step = begin_call("freetoken_status", &json("{}"), &context);
    let step = continue_call(step.state, ran(true, ""), &context);
    let step = continue_call(step.state, ToolEvent::Measured { memory: Value::Null }, &context);
    let silent = Exchange::Unanswered { error: "no".to_string() };
    let step = continue_call(step.state, ToolEvent::Exchanged { exchange: silent }, &context);
    let report = result(step).unwrap();
    assert_eq!(report["runtime"].as_str(), Some("wsl2"));
    assert_eq!(report["endpoint"].as_str(), Some("http://127.0.0.1:1919"));
}

#[test]
fn the_engine_is_installed() {
    for (args, version) in [
        (r#"{"version":" 9.9 "}"#, "9.9"),
        (r#"{"version":"  "}"#, "0.1.2"),
        (r#"{"version":9}"#, "0.1.2"),
        ("{}", "0.1.2"),
        ("null", "0.1.2"),
    ] {
        let step = begin("freetoken_install", args);
        let (line, seconds) = run(&step);
        assert_eq!(seconds, 3 * 3600);
        assert!(line.contains(&format!("'freetoken[accel]=={version}'")));
        let report = result(next(step.state, ran(true, "a\n ft 9.9 \n"))).unwrap();
        let expected = format!(
            r#"{{"installe":true,"version_demandee":"{version}","version_rapportee":"ft 9.9",
                "environnement":"/d/venv"}}"#
        );
        assert_eq!(report, json(&expected));
    }
    let step = begin("freetoken_install", "{}");
    let report = result(next(step.state, ran(true, ""))).unwrap();
    assert_eq!(report["version_rapportee"].as_str(), Some(""));
    let step = begin("freetoken_install", "{}");
    assert_eq!(
        result(next(step.state, ran(false, " out\n"))),
        Err("installation échouée (code None).\nout\nerr".to_string())
    );
    let step = begin("freetoken_install", "{}");
    assert_eq!(result(next(step.state, not_run())), Err("cannot run".to_string()));
}

fn candidate(name: &str, has_config: bool, size_bytes: u64) -> Candidate {
    Candidate {
        name: Some(name.to_string()),
        path: format!("/lib/{name}"),
        is_dir: true,
        has_weights: false,
        has_config,
        size_bytes,
    }
}

#[test]
fn the_checkpoints_are_reported() {
    for (library, shown) in [(Some("/lib".to_string()), "\"/lib\""), (None, "null")] {
        let context = Context { library, ..context() };
        let step = begin_call("freetoken_list_models", &json("{}"), &context);
        assert!(matches!(step.action, ToolAction::List));
        let candidates =
            vec![candidate("b", true, 7), candidate("none", false, 1), candidate("A", true, 5)];
        let step = continue_call(step.state, ToolEvent::Listed { candidates }, &context);
        match &step.action {
            ToolAction::Weigh { sizes } => assert_eq!(*sizes, vec![5, 7]),
            other => panic!("{:?}", other),
        }
        assert!(!step.state.awaits(&ToolEvent::Weighed { sizes: vec![json("0.5")] }));
        let sizes = ToolEvent::Weighed { sizes: vec![json("0.5"), json("1.5")] };
        assert!(step.state.awaits(&sizes));
        let report = result(continue_call(step.state, sizes, &context)).unwrap();
        let expected = format!(
            r#"{{"modeles":[
                {{"name":"A","path":"/lib/A","converted":false,"size_gb":0.5}},
                {{"name":"b","path":"/lib/b","converted":false,"size_gb":1.5}}],
                "bibliotheque":{shown},"dossier_extension":"/d/models",
                "note":"Un identifiant de dépôt Hugging Face fonctionne aussi comme modèle : le moteur télécharge lui-même."}}"#
        );
        assert_eq!(report, json(&expected));
    }
}

#[test]
fn the_health_comes_with_the_models() {
    for (answer, models) in [(answered(true, "[1]"), "[1]"), (answered(false, ""), "null")] {
        let step = begin("freetoken_server_health", "{}");
        assert_eq!(got(&step), "http://h:2000/health");
        let step = next(step.state, answered(true, "plain"));
        assert_eq!(got(&step), "http://h:2000/v1/models");
        let expected = format!(r#"{{"sante":{{"raw":"plain"}},"modeles_servis":{models}}}"#);
        assert_eq!(result(next(step.state, answer)).unwrap(), json(&expected));
    }
    let step = begin("freetoken_server_health", "{}");
    assert_eq!(
        result(next(step.state, answered(false, "down"))),
        Err("http://h:2000/health a répondu 500 : down".to_string())
    );
}

#[test]
fn questions_are_relayed() {
    for (tool, url) in [
        ("freetoken_server_stats", "http://h:2000/v1/stats"),
        ("freetoken_cache_status", "http://h:2000/v1/cache/status"),
    ] {
        let step = begin(tool, "{}");
        assert_eq!(got(&step), url);
        assert_eq!(result(next(step.state, answered(true, "2"))), Ok(json("2")));
        let step = begin(tool, "{}");
        assert_eq!(
            result(next(step.state, answered(false, "b"))),
            Err(format!("{url} a répondu 500 : b"))
        );
    }
}

#[test]
fn the_caches_are_resized() {
    let step = begin("freetoken_cache_resize", r#"{"moe":12,"kv":"34"}"#);
    match &step.action {
        ToolAction::Post { request } => {
            assert_eq!(request.url, "http://h:2000/v1/cache/rebuild");
            assert_eq!(request.body, r#"{"moe":12}"#);
        }
        other => panic!("{:?}", other),
    }
    let silent = ToolEvent::Exchanged { exchange: Exchange::Unanswered { error: "no".to_string() } };
    assert_eq!(
        result(next(step.state, silent)),
        Err("le serveur ne répond pas sur http://h:2000/v1/cache/rebuild (no)".to_string())
    );
    let step = begin("freetoken_cache_resize", r#"{"kv":18446744073709551615}"#);
    match &step.action {
        ToolAction::Post { request } => assert_eq!(request.body, r#"{"kv":18446744073709551615}"#),
        other => panic!("{:?}", other),
    }
    assert_eq!(result(next(step.state, answered(true, "{}"))), Ok(json("{}")));
    for args in ["{}", r#"{"moe":-1}"#, r#"{"kv":1.5}"#, r#"{"moe":null}"#] {
        assert_eq!(
            result(begin("freetoken_cache_resize", args)),
            Err("indiquez au moins « moe » ou « kv »".to_string())
        );
    }
}

#[test]
fn the_bandwidth_is_measured() {
    let step = begin("freetoken_bench_bandwidth", r#"{"dtype":"bf16"}"#);
    assert_eq!(run(&step), ("ft bench bw --dtype 'bf16'".to_string(), 3600));
    let expected = r#"{"mesure":true,"sortie":"10 GB/s","note":"Le profil est relu au prochain démarrage : avec « Répartition des experts » sur « auto », le moteur suit cette mesure."}"#;
    assert_eq!(result(next(step.state, ran(true, " 10 GB/s\n"))).unwrap(), json(expected));
    let step = begin("freetoken_bench_bandwidth", "{}");
    assert_eq!(run(&step).0, "ft bench bw");
    assert_eq!(
        result(next(step.state, ran(false, ""))),
        Err("mesure échouée (code None).\n\nerr".to_string())
    );
}

#[test]
fn a_checkpoint_is_converted() {
    for (args, source, folder) in [
        (r#"{"model":" o/m "}"#, "o/m", "/d/models/m-ftw"),
        (r#"{"model":"a/b\\c"}"#, r"a/b\c", "/d/models/c-ftw"),
        (r#"{"model":"a\\b/c"}"#, r"a\b/c", "/d/models/c-ftw"),
        (r#"{"model":"m/"}"#, "m/", "/d/models/-ftw"),
        (r#"{"model":"m","name":" x.y "}"#, "m", "/d/models/x.y"),
        (r#"{"model":"m","name":""}"#, "m", "/d/models/m-ftw"),
    ] {
        let step = begin("freetoken_convert_checkpoint", args);
        match &step.action {
            ToolAction::CreateFolder { path } => assert_eq!(path, folder),
            other => panic!("{:?}", other),
        }
        let step = next(step.state, ToolEvent::Created { result: Ok(()) });
        let expected = format!("ft checkpoint --model '{source}' --out '{folder}'");
        assert_eq!(run(&step), (expected, 6 * 3600));
        let report = result(next(step.state, ran(true, ""))).unwrap();
        assert_eq!(report["converti"].as_bool(), Some(true));
        assert_eq!(report["source"].as_str(), Some(source));
        assert_eq!(report["dossier"].as_str(), Some(folder));
        assert_eq!(
            report["note"].as_str(),
            Some("Ce dossier apparaît maintenant comme modèle sélectionnable dans Réglages → Moteur.")
        );
        assert_eq!(report.as_object().unwrap().len(), 4);
    }
}

#[test]
fn a_conversion_can_fail() {
    let begun = || begin("freetoken_convert_checkpoint", r#"{"model":"m"}"#).state;
    let refused = ToolEvent::Created { result: Err("disk full".to_string()) };
    assert_eq!(result(next(begun(), refused)), Err("disk full".to_string()));
    let step = next(begun(), ToolEvent::Created { result: Ok(()) });
    assert_eq!(
        result(next(step.state, ran(false, "o"))),
        Err("conversion échouée (code None).\no\nerr".to_string())
    );
    for args in ["{}", r#"{"model":" "}"#, r#"{"model":1}"#, "[]"] {
        assert_eq!(
            result(begin("freetoken_convert_checkpoint", args)),
            Err("« model » est requis".to_string())
        );
    }
    for name in ["a/b", "a\\\\b", "..", "a..b", "../.."] {
        let args = format!(r#"{{"model":"m","name":"{name}"}}"#);
        assert_eq!(
            result(begin("freetoken_convert_checkpoint", &args)),
            Err("« name » doit être un simple nom de dossier".to_string())
        );
    }
    assert!(result(begin("freetoken_convert_checkpoint", r#"{"model":".."}"#)).is_err());
}

#[test]
fn the_server_is_stopped_on_its_port() {
    for (endpoint, port) in [
        (Some("http://h:2000/"), 2000),
        (Some("http://h:2000//"), 2000),
        (Some("2001"), 2001),
        (Some("http://h"), 1919),
        (Some("http://h:70000"), 1919),
        (Some("http://h:80/v1"), 1919),
        (None, 1919),
    ] {
        let context = Context { endpoint: endpoint.map(str::to_string), ..context() };
        let step = begin_call("freetoken_stop_server", &json("{}"), &context);
        let (line, seconds) = run(&step);
        assert_eq!(seconds, 60);
        assert!(line.contains(&format!("--port {port}( |$)'")), "{line}");
        let expected = format!(r#"{{"arrete":true,"port":{port},"commande":"the command"}}"#);
        let step = continue_call(step.state, ran(false, ""), &context);
        assert_eq!(result(step).unwrap(), json(&expected));
    }
    let step = begin("freetoken_stop_server", "{}");
    assert_eq!(result(next(step.state, not_run())), Err("cannot run".to_string()));
}

#[test]
fn an_unknown_tool_is_refused() {
    assert_eq!(result(begin("freetoken", "{}")), Err("outil inconnu : freetoken".to_string()));
    assert_eq!(result(begin("", "{}")), Err("outil inconnu : ".to_string()));
}

#[test]
fn a_tool_awaits_what_its_action_gives() {
    let created = ToolEvent::Created { result: Ok(()) };
    assert!(!ToolState::Done.awaits(&created));
    assert!(!ToolState::Probing.awaits(&created));
    assert!(!ToolState::Listing.awaits(&not_run()));
    assert!(!ToolState::Checking.awaits(&not_run()));
}

fn converted(context: &Context, args: &str, found: (bool, bool, bool)) -> (String, String, Value) {
    let step = begin_call("freetoken_convert_checkpoint", &json(args), context);
    let looked = match &step.action {
        ToolAction::Look { path } => path.clone(),
        other => panic!("{:?}", other),
    };
    let (is_dir, has_weights, has_config) = found;
    let event = ToolEvent::Looked { is_dir, has_weights, has_config };
    assert!(step.state.awaits(&event));
    let step = continue_call(step.state, event, context);
    assert!(matches!(step.action, ToolAction::CreateFolder { .. }));
    let step = continue_call(step.state, ToolEvent::Created { result: Ok(()) }, context);
    let line = run(&step).0;
    let report = result(continue_call(step.state, ran(true, ""), context)).unwrap();
    (looked, line, report)
}

#[test]
fn a_name_in_the_library_is_converted() {
    let linux = Context { library: Some("/lib".to_string()), ..context() };
    let args = r#"{"model":"glm"}"#;
    for found in [(true, false, true), (true, true, false)] {
        let (looked, line, report) = converted(&linux, args, found);
        assert_eq!(looked, "/lib/glm");
        assert_eq!(line, "ft checkpoint --model '/lib/glm' --out '/d/models/glm-ftw'");
        assert_eq!(report["source"].as_str(), Some("glm"));
        assert_eq!(report["dossier"].as_str(), Some("/d/models/glm-ftw"));
    }
    for found in [(false, true, true), (true, false, false)] {
        let (_, line, _) = converted(&linux, args, found);
        assert_eq!(line, "ft checkpoint --model 'glm' --out '/d/models/glm-ftw'");
    }
    let windows = Context {
        host: Host { windows: true, data_dir: r"C:\d".to_string(), cli_present: false },
        runtime: Runtime::Wsl { distro: None },
        endpoint: None,
        library: Some(r"D:\poids".to_string()),
    };
    let (looked, line, _) = converted(&windows, args, (true, false, true));
    assert_eq!(looked, r"D:\poids\glm");
    assert!(line.ends_with("ft checkpoint --model '/mnt/d/poids/glm' --out '/mnt/c/d/models/glm-ftw'"));
}

#[test]
fn what_is_no_name_is_not_looked_for() {
    let linux = Context { library: Some("/lib".to_string()), ..context() };
    for model in ["o/m", "/abs/m", ".", "..", "a/"] {
        let args = format!(r#"{{"model":"{model}","name":"x"}}"#);
        let step = begin_call("freetoken_convert_checkpoint", &json(&args), &linux);
        assert!(matches!(step.action, ToolAction::CreateFolder { .. }), "{model}");
    }
}

#[test]
fn a_folder_is_given_no_drive_under_windows() {
    let args = r#"{"model":"m","name":"C:x"}"#;
    let step = begin("freetoken_convert_checkpoint", args);
    match &step.action {
        ToolAction::CreateFolder { path } => assert_eq!(path, "/d/models/C:x"),
        other => panic!("{:?}", other),
    }
    let windows = Context {
        host: Host { windows: true, data_dir: r"C:\d".to_string(), cli_present: false },
        ..context()
    };
    assert_eq!(
        result(begin_call("freetoken_convert_checkpoint", &json(args), &windows)),
        Err("« name » doit être un simple nom de dossier".to_string())
    );
}

#[test]
fn any_single_component_is_looked_for() {
    let linux = Context { library: Some("/lib".to_string()), ..context() };
    for (model, path) in [("a..b", "/lib/a..b"), ("...", "/lib/..."), ("C:x", "/lib/C:x"), ("a\\\\b", r"/lib/a\b")] {
        let args = format!(r#"{{"model":"{model}","name":"x"}}"#);
        let (looked, line, _) = converted(&linux, &args, (true, false, true));
        assert_eq!(looked, path);
        assert_eq!(line, format!("ft checkpoint --model '{path}' --out '/d/models/x'"));
    }
    let windows = Context {
        host: Host { windows: true, data_dir: r"C:\d".to_string(), cli_present: false },
        library: Some(r"D:\poids".to_string()),
        ..context()
    };
    for model in ["C:x", "a\\\\b", "a/b", ".", ".."] {
        let args = format!(r#"{{"model":"{model}","name":"x"}}"#);
        let step = begin_call("freetoken_convert_checkpoint", &json(&args), &windows);
        assert!(matches!(step.action, ToolAction::CreateFolder { .. }), "{model}");
    }
    let refused = begin_call("freetoken_convert_checkpoint", &json(r#"{"model":"a..b"}"#), &linux);
    assert_eq!(
        result(refused),
        Err("« name » doit être un simple nom de dossier".to_string())
    );
}

#[test]
fn memory_that_was_not_reported_is_null() {
    for (output, memory) in [("os=Linux x86_64\nram_kb=1048576", "1.0"), ("os=Linux x86_64", "null")] {
        let step = begin("freetoken_status", "{}");
        let step = next(step.state, ran(true, output));
        let step = next(step.state, ToolEvent::Measured { memory: json("1.0") });
        let report = result(next(step.state, answered(true, "{}"))).unwrap();
        assert_eq!(report["memoire_systeme_gio"], json(memory));
    }
}
