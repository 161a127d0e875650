use locaryn_plugin_freetoken::launch::{
    begin_serve, continue_serve, flag, launch_command, port_argument, probe_ended, stop_ended,
    unknown_command, LaunchAction, LaunchCommand, LaunchEvent, LaunchState, LaunchStep, USAGE,
};
use locaryn_plugin_freetoken::outcome::Outcome;
use locaryn_plugin_freetoken::runtime::{Host, Runtime};
use locaryn_plugin_freetoken::settings::Settings;

const READY: &str = "os=Linux x86_64\npython=p\nnvcc=n\nft_path=ft 0.1.2\ndriver=580\ngpu=0\ngpu=1\n";

fn args(texts: &[&str]) -> Vec<String> {
    texts.iter().map(|t| t.to_string()).collect()
}

fn linux() -> Host {
    Host { windows: false, data_dir: "/d".to_string(), cli_present: false }
}

fn windows() -> Host {
    Host { windows: true, data_dir: r"C:\d".to_string(), cli_present: false }
}

fn wsl() -> Runtime {
    Runtime::Wsl { distro: None }
}

fn gave(stdout: &str, stderr: &str) -> LaunchEvent {
    LaunchEvent::Ran {
        result: Ok(Outcome {
            command: "c".to_string(),
            success: true,
            code: Some(0),
            stdout: stdout.to_string(),
            stderr: stderr.to_string(),
        }),
    }
}

fn next(state: LaunchState, event: LaunchEvent, host: &Host, runtime: &Runtime) -> LaunchStep {
    assert!(state.awaits(&event));
    continue_serve(state, event, &Settings::default(), host, runtime)
}

fn ending(step: &LaunchStep) -> (i32, Option<String>) {
    assert!(matches!(step.state, LaunchState::Done));
    match &step.action {
        LaunchAction::Exit { ending } => (ending.code, ending.notice.clone()),
        other => panic!("{:?}", other),
    }
}

#[test]
fn commands_are_told_apart() {
    assert!(matches!(launch_command(Some("serve")), LaunchCommand::Serve));
    assert!(matches!(launch_command(Some("stop")), LaunchCommand::Stop));
    assert!(matches!(launch_command(Some("probe")), LaunchCommand::Probe));
    assert!(matches!(launch_command(Some("--help")), LaunchCommand::Help));
    assert!(matches!(launch_command(Some("-h")), LaunchCommand::Help));
    assert!(matches!(launch_command(None), LaunchCommand::Help));
    match launch_command(Some("start")) {
        LaunchCommand::Unknown { name } => {
            assert_eq!(unknown_command(&name), "[freetoken] commande inconnue : start");
        }
        other => panic!("{:?}", other),
    }
    assert_eq!(
        USAGE,
        "locaryn-freetoken-launch — lance le serveur FreeToken pour Locaryn\n\
         \n\
           serve --port <n> --model <chemin|depot>   démarre le serveur\n\
           stop  --port <n>                          arrête un serveur resté en place\n\
           probe                                     dit ce qui manque sur cette machine\n"
    );
}

#[test]
fn flags_are_read() {
    assert_eq!(flag(&args(&["--a", "1", "--b", "2"]), "--b").as_deref(), Some("2"));
    assert_eq!(flag(&args(&["--a=1", "--a", "2"]), "--a").as_deref(), Some("1"));
    assert_eq!(flag(&args(&["--a="]), "--a").as_deref(), Some(""));
    assert_eq!(flag(&args(&["--a", "--a=3"]), "--a").as_deref(), Some("--a=3"));
    assert_eq!(flag(&args(&["--ab=1", "--a"]), "--a"), None);
    assert_eq!(flag(&args(&[]), "--a"), None);
}

#[test]
fn the_port_falls_back() {
    assert_eq!(port_argument(&args(&["--port", "8080"])), 8080);
    assert_eq!(port_argument(&args(&["--port=+80"])), 80);
    for text in ["65536", "", "-1", "80a", " 80"] {
        assert_eq!(port_argument(&args(&["--port", text])), 1919, "{text}");
    }
    assert_eq!(port_argument(&args(&[])), 1919);
}

#[test]
fn no_model_no_server() {
    for arguments in [args(&[]), args(&["--model", " \t"]), args(&["--model"])] {
        let step = begin_serve(&arguments, &linux(), &Runtime::Native);
        assert_eq!(
            ending(&step),
            (
                1,
                Some(
                    "[freetoken] aucun modèle : le moteur ne démarre pas sans poids.\n\
                     Choisissez un checkpoint dans Réglages → Moteur, ou dans le catalogue de modèles \
                     (filtre « Mixture-of-Experts »)."
                        .to_string()
                )
            )
        );
    }
}

#[test]
fn under_linux_the_launcher_becomes_the_server() {
    let arguments = args(&["--port", "2000", "--model", "a/b"]);
    let step = begin_serve(&arguments, &linux(), &Runtime::Native);
    match &step.action {
        LaunchAction::Run { notice, invocation, seconds } => {
            assert_eq!(*notice, None);
            assert_eq!(*seconds, 120);
            assert!(invocation.args[1].starts_with("echo \"os="));
        }
        other => panic!("{:?}", other),
    }
    let step = next(step.state, gave(READY, "warning"), &linux(), &Runtime::Native);
    match &step.action {
        LaunchAction::Run { notice, invocation, seconds } => {
            assert_eq!(
                notice.as_deref(),
                Some("[freetoken] Linux x86_64 · pilote 580 · 2 GPU · moteur ft 0.1.2")
            );
            assert_eq!(*seconds, 30);
            assert!(invocation.args[1].contains("--port 2000"));
        }
        other => panic!("{:?}", other),
    }
    let failed = LaunchEvent::Ran { result: Err("no pkill".to_string()) };
    let step = next(step.state, failed, &linux(), &Runtime::Native);
    match &step.action {
        LaunchAction::Become { notice, invocation } => {
            let line = "exec ft serve --model 'a/b' --host 127.0.0.1 --port 2000";
            assert_eq!(invocation.args, vec!["-lc", line]);
            assert_eq!(*notice, format!("[freetoken] /bin/sh -lc \"{line}\""));
        }
        other => panic!("{:?}", other),
    }
    let event = LaunchEvent::NotStarted { error: "absent".to_string() };
    let step = next(step.state, event, &linux(), &Runtime::Native);
    assert_eq!(ending(&step), (1, Some("[freetoken] /bin/sh : absent".to_string())));
}

fn watching() -> LaunchState {
    let step = begin_serve(&args(&["--model=a/b"]), &windows(), &wsl());
    let step = next(step.state, gave(READY, ""), &windows(), &wsl());
    let step = next(step.state, gave("", ""), &windows(), &wsl());
    assert!(matches!(step.action, LaunchAction::Watch { .. }));
    step.state
}

fn cleaned(event: LaunchEvent) -> (i32, Option<String>) {
    let step = next(watching(), event, &windows(), &wsl());
    match &step.action {
        LaunchAction::Run { notice, invocation, seconds } => {
            assert_eq!(*notice, None);
            assert_eq!(*seconds, 30);
            assert!(invocation.args.last().unwrap().starts_with("pkill -f 'ft serve .*--port 1919( |$)'"));
        }
        other => panic!("{:?}", other),
    }
    ending(&next(step.state, gave("", ""), &windows(), &wsl()))
}

#[test]
fn under_windows_the_launcher_watches_the_server() {
    let ended = |success: bool, code: Option<i32>| LaunchEvent::Ended {
        success,
        code,
        status: "exit code: 3".to_string(),
    };
    assert_eq!(cleaned(ended(true, Some(0))), (0, None));
    let said = Some("[freetoken] le serveur s'est arrêté (exit code: 3)".to_string());
    assert_eq!(cleaned(ended(false, Some(3))), (3, said.clone()));
    assert_eq!(cleaned(ended(false, Some(-1073741510))), (-1073741510, said.clone()));
    assert_eq!(cleaned(ended(false, None)), (1, said.clone()));
    assert_eq!(cleaned(ended(false, Some(0))), (1, said));
    assert_eq!(
        cleaned(LaunchEvent::NotAwaited { error: "lost".to_string() }),
        (1, Some("[freetoken] attente du serveur impossible : lost".to_string()))
    );
    let event = LaunchEvent::NotStarted { error: "absent".to_string() };
    assert_eq!(
        ending(&next(watching(), event, &windows(), &wsl())),
        (
            1,
            Some(
                "[freetoken] wsl.exe : absent\n\
                 WSL2 semble absent. Installez-le avec « wsl --install » depuis un terminal \
                 administrateur, puis redémarrez."
                    .to_string()
            )
        )
    );
}

#[test]
fn a_machine_that_lacks_something_starts_nothing() {
    let begun = || begin_serve(&args(&["--model", "a/b"]), &linux(), &Runtime::Native).state;
    let lacking = "os=Linux x86_64\npython=p\ndriver=580\ngpu=0\nft_venv=f";
    let nvcc = "Le compilateur CUDA « nvcc » est absent : le moteur compile ses noyaux au premier \
                usage et en a besoin. Installez le toolkit CUDA 13.";
    let step = next(begun(), gave(lacking, " \n"), &linux(), &Runtime::Native);
    let said = format!("[freetoken] le moteur ne peut pas démarrer sur cette machine :\n  - {nvcc}");
    assert_eq!(ending(&step), (1, Some(said.clone())));
    let step = next(begun(), gave(lacking, "\nboom\n"), &linux(), &Runtime::Native);
    assert_eq!(
        ending(&step),
        (1, Some(format!("{said}\n[freetoken] sortie d'erreur de la sonde :\nboom")))
    );
    let failed = LaunchEvent::Ran { result: Err("no shell".to_string()) };
    let step = next(begun(), failed, &linux(), &Runtime::Native);
    assert_eq!(
        ending(&step),
        (
            1,
            Some(
                "[freetoken] impossible de sonder la machine : no shell\n\
                 Sous Windows, vérifiez que WSL2 est installé (« wsl --install ») et qu'une \
                 distribution démarre."
                    .to_string()
            )
        )
    );
}

#[test]
fn events_that_cannot_come_are_not_awaited() {
    let event = LaunchEvent::NotStarted { error: String::new() };
    assert!(!LaunchState::Done.awaits(&event));
    let probing = LaunchState::Probing { port: 1, model: String::new() };
    assert!(!probing.awaits(&event));
    assert!(!watching().awaits(&gave("", "")));
}

#[test]
fn stopping_and_probing_end() {
    let outcome = match gave("os=Linux x86_64\n", "") {
        LaunchEvent::Ran { result } => result.unwrap(),
        _ => unreachable!(),
    };
    let ok = stop_ended(1919, &Ok(outcome.clone()));
    assert_eq!(ok.code, 0);
    assert_eq!(
        ok.notice.as_deref(),
        Some("[freetoken] serveur du port 1919 arrêté (s'il tournait)")
    );
    let failed = stop_ended(1, &Err("x".to_string()));
    assert_eq!(failed.code, 1);
    assert_eq!(failed.notice.as_deref(), Some("[freetoken] arrêt impossible : x"));
    let probe = probe_ended(Ok(outcome)).unwrap();
    assert_eq!(probe.os.as_deref(), Some("Linux x86_64"));
    assert_eq!(probe.missing.len(), 4);
    assert_eq!(probe_ended(Err("x".to_string())).unwrap_err(), "[freetoken] sonde impossible : x");
}
