use locaryn_plugin_freetoken::command::{
    bench_invocation, convert_invocation, install_invocation, kill_stale_invocation,
    probe_invocation, serve_invocation, serve_line, wrap, Invocation, PACKAGE, PINNED_VERSION,
};
use locaryn_plugin_freetoken::outcome::{failure_text, not_started, timed_out, Outcome};
use locaryn_plugin_freetoken::runtime::{Host, Runtime, CLI};
use locaryn_plugin_freetoken::settings::{MemoryRatio, Settings};
use locaryn_plugin_freetoken::shell::shell_quote;

fn ratio(value: f32) -> Option<MemoryRatio> {
    Some(MemoryRatio { bits: value.to_bits(), text: value.to_string() })
}

fn linux(cli_present: bool) -> Host {
    Host { windows: false, data_dir: "/data/ext".to_string(), cli_present }
}

fn windows() -> Host {
    Host { windows: true, data_dir: r"D:\ext data".to_string(), cli_present: false }
}

fn wsl() -> Runtime {
    Runtime::Wsl { distro: None }
}

fn line(invocation: &Invocation) -> String {
    invocation.args.last().unwrap().clone()
}

#[test]
fn les_reglages_arrivent_dans_la_ligne_de_commande() {
    let settings = Settings {
        moe_backend: Some("hybrid".into()),
        memory_ratio: ratio(0.8),
        max_output_tokens: Some(4096),
        gpu: Some("1".into()),
        wsl_distro: None,
        extra_args: vec!["--enable-cache-report".into()],
    };
    let ligne = serve_line(&settings, &linux(false), &Runtime::Native, 1919, "Qwen/Qwen3.6-35B-A3B");
    assert!(ligne.contains("--moe-backend 'hybrid'"));
    assert!(ligne.contains("--memory-ratio 0.8"));
    assert!(ligne.contains("--max-output-tokens 4096"));
    assert!(ligne.contains("--gpu '1'"));
    assert!(ligne.contains("--port 1919"));
    assert!(ligne.contains("'--enable-cache-report'"));
    assert_eq!(
        ligne,
        "ft serve --model 'Qwen/Qwen3.6-35B-A3B' --host 127.0.0.1 --port 1919 \
         --moe-backend 'hybrid' --memory-ratio 0.8 --max-output-tokens 4096 --gpu '1' \
         '--enable-cache-report'"
    );
}

#[test]
fn le_choix_automatique_ne_pose_aucun_drapeau() {
    let settings = Settings { moe_backend: None, ..Default::default() };
    let ligne = serve_line(&settings, &linux(false), &Runtime::Native, 1919, "un/modele");
    assert!(!ligne.contains("--moe-backend"));
}

#[test]
fn une_part_de_vram_hors_bornes_est_ignoree() {
    let settings = Settings { memory_ratio: ratio(1.8), ..Default::default() };
    let ligne = serve_line(&settings, &linux(false), &Runtime::Native, 1919, "un/modele");
    assert!(!ligne.contains("--memory-ratio"));
}

#[test]
fn sous_windows_la_commande_passe_par_wsl() {
    let inv = wrap(&Runtime::Wsl { distro: Some("Ubuntu".into()) }, "echo bonjour");
    assert_eq!(inv.program, "wsl.exe");
    assert_eq!(inv.args[0], "-d");
    assert_eq!(inv.args[1], "Ubuntu");
    assert_eq!(inv.args[2], "--");
    assert_eq!(inv.args[3], "bash");
}

#[test]
fn une_apostrophe_ne_casse_pas_la_ligne_de_commande() {
    assert_eq!(shell_quote("d'accord"), "'d'\\''accord'");
}

#[test]
fn l_installation_epingle_la_version() {
    let inv = install_invocation(&linux(false), &Runtime::Native, "0.1.2");
    assert!(inv.args.last().unwrap().contains("freetoken[accel]==0.1.2"));
}

#[test]
fn le_nettoyage_cible_le_port_et_ne_signale_pas_d_erreur() {
    let inv = kill_stale_invocation(&Runtime::Native, 1919);
    let ligne = inv.args.last().unwrap();
    assert!(ligne.contains("--port 1919"));
    assert!(ligne.contains("exit 0"));
}

#[test]
fn the_bounds_of_the_ratio_are_kept() {
    for (value, kept) in [
        (0.1f32, true),
        (0.95, true),
        (0.5, true),
        (0.099_999, false),
        (0.950_1, false),
        (0.0, false),
        (-0.5, false),
        (f32::NAN, false),
        (f32::INFINITY, false),
        (f32::NEG_INFINITY, false),
    ] {
        assert_eq!((0.1..=0.95).contains(&value), kept);
        let settings = Settings { memory_ratio: ratio(value), ..Default::default() };
        let text = serve_line(&settings, &linux(false), &Runtime::Native, 1, "a/b");
        assert_eq!(text.contains("--memory-ratio"), kept, "{value}");
    }
}

#[test]
fn no_tokens_set_no_flag() {
    let settings = Settings { max_output_tokens: Some(0), ..Default::default() };
    let text = serve_line(&settings, &linux(false), &Runtime::Native, 65535, "a/b");
    assert_eq!(text, "ft serve --model 'a/b' --host 127.0.0.1 --port 65535");
}

#[test]
fn a_blank_distribution_is_the_default_one() {
    let inv = wrap(&Runtime::Wsl { distro: Some(" \t".into()) }, "x");
    assert_eq!(inv.args, vec!["--", "bash", "-lc", "x"]);
    let inv = wrap(&Runtime::Native, "x");
    assert_eq!(inv.program, "/bin/sh");
    assert_eq!(inv.args, vec!["-lc", "x"]);
}

#[test]
fn the_environment_is_activated_where_it_is_there() {
    let settings = Settings::default();
    let there = serve_line(&settings, &linux(true), &Runtime::Native, 1919, "a/b");
    assert_eq!(
        there,
        ". '/data/ext/venv'/bin/activate 2>/dev/null || true; \
         ft serve --model 'a/b' --host 127.0.0.1 --port 1919"
    );
    let looked_for = serve_line(&settings, &windows(), &wsl(), 1919, "a/b");
    let v = "'/mnt/d/ext data/venv'";
    assert_eq!(
        looked_for,
        format!(
            "if [ -f {v}/bin/activate ]; then . {v}/bin/activate; fi; \
             ft serve --model 'a/b' --host 127.0.0.1 --port 1919"
        )
    );
}

#[test]
fn the_shell_becomes_the_server_once_the_environment_is_active() {
    let settings = Settings::default();
    let bare = serve_invocation(&settings, &linux(false), &Runtime::Native, 1919, "a/b");
    assert_eq!(line(&bare), "exec ft serve --model 'a/b' --host 127.0.0.1 --port 1919");
    let managed = serve_invocation(&settings, &linux(true), &Runtime::Native, 1919, "a/b");
    assert_eq!(
        line(&managed),
        ". '/data/ext/venv'/bin/activate 2>/dev/null || true; \
         exec ft serve --model 'a/b' --host 127.0.0.1 --port 1919"
    );
    let v = "'/mnt/d/ext data/venv'";
    let in_wsl = serve_invocation(&settings, &windows(), &wsl(), 1919, "a/b");
    assert_eq!(
        line(&in_wsl),
        format!(
            "if [ -f {v}/bin/activate ]; then . {v}/bin/activate; fi; \
             exec ft serve --model 'a/b' --host 127.0.0.1 --port 1919"
        )
    );
}

#[test]
fn the_installation_line_is_exact() {
    let venv = "'/data/ext/venv'";
    let cible = shell_quote(&format!("{PACKAGE}[accel]==1.2.3"));
    let expected = format!(
        "set -e; \
         if command -v uv >/dev/null 2>&1; then \
           uv venv {venv} >/dev/null; \
           VIRTUAL_ENV={venv} uv pip install --python {venv}/bin/python {cible}; \
         else \
           python3 -m venv {venv}; \
           {venv}/bin/python -m pip install --upgrade pip >/dev/null; \
           {venv}/bin/python -m pip install {cible}; \
         fi; \
         {venv}/bin/{CLI} --version"
    );
    assert_eq!(line(&install_invocation(&linux(true), &Runtime::Native, "1.2.3")), expected);
    assert_eq!(PINNED_VERSION, "0.1.2");
}

#[test]
fn the_probe_line_is_exact() {
    let venv = "'/mnt/d/ext data/venv'";
    let expected = format!(
        "echo \"os=$(uname -s) $(uname -m)\"; \
         echo \"python=$(command -v python3 || echo -)\"; \
         echo \"uv=$(command -v uv || echo -)\"; \
         echo \"nvcc=$(command -v nvcc || echo -)\"; \
         echo \"venv={venv}\"; \
         if [ -x {venv}/bin/{CLI} ]; then echo \"ft_venv=$({venv}/bin/{CLI} --version 2>&1 | head -n1)\"; else echo 'ft_venv=-'; fi; \
         if command -v {CLI} >/dev/null 2>&1; then echo \"ft_path=$({CLI} --version 2>&1 | head -n1)\"; else echo 'ft_path=-'; fi; \
         if command -v nvidia-smi >/dev/null 2>&1; then \
           echo \"driver=$(nvidia-smi --query-gpu=driver_version --format=csv,noheader | head -n1)\"; \
           nvidia-smi --query-gpu=index,name,memory.total --format=csv,noheader | while IFS= read -r l; do echo \"gpu=$l\"; done; \
         else echo 'driver=-'; fi; \
         echo \"ram_kb=$(awk '/MemTotal/ {{print $2}}' /proc/meminfo 2>/dev/null || echo 0)\""
    );
    assert_eq!(line(&probe_invocation(&windows(), &wsl())), expected);
}

#[test]
fn the_stopping_line_is_exact() {
    let motif = shell_quote("ft serve .*--port 42( |$)");
    assert_eq!(motif, "'ft serve .*--port 42( |$)'");
    assert_eq!(
        line(&kill_stale_invocation(&wsl(), 42)),
        format!("pkill -f {motif} 2>/dev/null; pkill -f {motif} 2>/dev/null; exit 0")
    );
}

#[test]
fn the_measuring_line_is_exact() {
    let host = linux(false);
    assert_eq!(line(&bench_invocation(&host, &Runtime::Native, None)), "ft bench bw");
    assert_eq!(line(&bench_invocation(&host, &Runtime::Native, Some("  "))), "ft bench bw");
    assert_eq!(
        line(&bench_invocation(&host, &Runtime::Native, Some("nvfp4,bf16"))),
        "ft bench bw --dtype 'nvfp4,bf16'"
    );
}

#[test]
fn the_converting_line_is_exact() {
    assert_eq!(
        line(&convert_invocation(&linux(false), &Runtime::Native, r"D:\m", "/out dir")),
        r"ft checkpoint --model 'D:\m' --out '/out dir'"
    );
    let v = "'/mnt/d/ext data/venv'";
    assert_eq!(
        line(&convert_invocation(&windows(), &wsl(), r"D:\m", r"D:\out")),
        format!(
            "if [ -f {v}/bin/activate ]; then . {v}/bin/activate; fi; \
             ft checkpoint --model '/mnt/d/m' --out '/mnt/d/out'"
        )
    );
}

#[test]
fn a_command_is_displayed_with_quotation_marks_where_it_needs_them() {
    let inv = Invocation {
        program: "wsl.exe".to_string(),
        args: vec!["--".to_string(), "a b".to_string(), String::new()],
    };
    assert_eq!(inv.display(), "wsl.exe -- \"a b\" ");
}

#[test]
fn what_went_wrong_is_said() {
    let inv = Invocation { program: "p".to_string(), args: vec!["a".to_string()] };
    assert_eq!(not_started(&inv, "absent"), "p : absent");
    assert_eq!(timed_out(&inv, 120), "délai dépassé (120 s) : p a");
    let outcome = Outcome::of(&inv, false, Some(-1), " out \n".to_string(), "\terr".to_string());
    assert_eq!(outcome.command, "p a");
    for code in [Some(-1), Some(0), Some(i32::MIN), Some(i32::MAX), None] {
        let outcome = Outcome { code, ..outcome.clone() };
        assert_eq!(
            failure_text("mesure", &outcome),
            format!("mesure échouée (code {:?}).\n{}\n{}", code, "out", "err")
        );
    }
}

/// Whether the text holds a part that the pattern of a stopping line matches, read by hand:
/// `.*` is any text and `( |$)` a space or the end.
fn is_stopped(text: &str, port: u16) -> bool {
    let Some(at) = text.find("ft serve ") else {
        return false;
    };
    let flag = format!("--port {port}");
    let rest = &text[at + "ft serve ".len()..];
    rest.match_indices(&flag).any(|(i, _)| {
        let after = &rest[i + flag.len()..];
        after.is_empty() || after.starts_with(' ')
    })
}

#[test]
fn stopping_a_port_spares_the_others_and_itself() {
    let settings = Settings { gpu: Some("0".into()), ..Default::default() };
    for last in [Settings::default(), settings] {
        let server = serve_line(&last, &linux(false), &Runtime::Native, 1919, "un/modele");
        assert!(is_stopped(&server, 1919));
        for other in [1, 19, 191, 1918, 19190] {
            assert!(!is_stopped(&server, other), "{other}");
        }
    }
    for port in [1, 1919] {
        let stopping = kill_stale_invocation(&Runtime::Native, port);
        let shell = format!("{} {}", stopping.program, stopping.args.join(" "));
        assert!(shell.contains("ft serve "));
        assert!(!is_stopped(&shell, port));
    }
}
