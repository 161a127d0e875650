use locaryn_plugin_freetoken::probe::{parse_probe, Probe};

fn gibibytes(p: &Probe) -> Option<f32> {
    p.ram_kb
        .as_ref()
        .and_then(|v| v.parse::<f64>().ok())
        .filter(|kb| *kb > 0.0)
        .map(|kb| (kb / 1024.0 / 1024.0) as f32)
}

#[test]
fn la_sonde_se_lit_en_cles_valeurs() {
    let p = parse_probe(
        "os=Linux x86_64\n\
         python=/usr/bin/python3\n\
         uv=-\n\
         nvcc=/usr/local/cuda/bin/nvcc\n\
         ft_venv=ft 0.1.2\n\
         ft_path=-\n\
         driver=580.65.06\n\
         gpu=0, NVIDIA GeForce RTX 4050 Laptop GPU, 6141 MiB\n\
         ram_kb=32000000\n",
    );
    assert_eq!(p.os.as_deref(), Some("Linux x86_64"));
    assert_eq!(p.engine_version.as_deref(), Some("ft 0.1.2"));
    assert_eq!(p.engine_on_path, None);
    assert_eq!(p.gpus.len(), 1);
    assert!(gibibytes(&p).is_some_and(|r| r > 29.0 && r < 32.0));
    assert!(p.ready(), "rien ne manque : {:?}", p.missing);
}

#[test]
fn ce_qui_manque_est_nomme() {
    let p = parse_probe("os=Linux x86_64\npython=/usr/bin/python3\nram_kb=16000000\n");
    assert!(!p.ready());
    assert!(p.missing.iter().any(|m| m.contains("nvidia-smi")));
    assert!(p.missing.iter().any(|m| m.contains("nvcc")));
    assert!(p.missing.iter().any(|m| m.contains("freetoken_install")));
}

#[test]
fn sans_systeme_la_sonde_dit_d_installer_wsl() {
    let p = parse_probe("");
    assert_eq!(p.missing.len(), 1);
    assert!(p.missing[0].contains("WSL2"));
}

#[test]
fn each_sentence_is_exact() {
    assert_eq!(
        parse_probe("python=p").missing,
        vec![
            "Aucun système Linux joignable. Sous Windows, installez WSL2 (« wsl --install ») \
             puis une distribution."
        ]
    );
    assert_eq!(
        parse_probe("os=Darwin arm64").missing,
        vec![
            "Le moteur exige Linux x86_64 ; la distribution rapporte « Darwin arm64 ».",
            "Python 3 absent de la distribution (« apt install python3-venv »).",
            "Aucun GPU NVIDIA visible (« nvidia-smi » ne répond pas). Sous WSL2, le pilote \
             s'installe côté Windows, pas dans la distribution.",
            "Le compilateur CUDA « nvcc » est absent : le moteur compile ses noyaux au premier \
             usage et en a besoin. Installez le toolkit CUDA 13.",
            "Le moteur n'est pas installé. Lancez l'outil « freetoken_install » (il pose \
             freetoken[accel]==0.1.2 dans un environnement dédié à l'extension).",
        ]
    );
}

#[test]
fn the_last_value_of_a_key_counts_and_all_cards_do() {
    let p = parse_probe(
        "noise\r\n os = Linux a\r\nos=Linux b=c\nos=-\nos=  \ngpu=0\ngpu=-\n gpu =1\nft_path=ft 9",
    );
    assert_eq!(p.os.as_deref(), Some("Linux b=c"));
    assert_eq!(p.gpus, vec!["0", "1"]);
    assert_eq!(p.version().as_deref(), Some("ft 9"));
    let both = parse_probe("ft_venv=a\nft_path=b");
    assert_eq!(both.version().as_deref(), Some("a"));
    assert_eq!(parse_probe("").version(), None);
}

#[test]
fn a_card_without_a_driver_is_not_visible() {
    let base = "os=Linux x86_64\npython=p\nnvcc=n\nft_path=f\n";
    let card = parse_probe(&format!("{base}gpu=0"));
    assert_eq!(card.missing.len(), 1);
    let driver = parse_probe(&format!("{base}driver=580"));
    assert_eq!(driver.missing.len(), 1);
    assert!(parse_probe(&format!("{base}driver=580\ngpu=0")).ready());
}

#[test]
fn another_architecture_is_not_served() {
    let rest = "python=/usr/bin/python3\nnvcc=/usr/bin/nvcc\nft_venv=ft 0.1.2\ndriver=580.65.06\ngpu=0, GPU, 6141 MiB\n";
    for (os, ready) in [
        ("Linux x86_64", true),
        ("Linux aarch64", false),
        ("Linux", false),
        ("x86_64", false),
        ("Darwin x86_64", false),
    ] {
        let p = parse_probe(&format!("os={os}\n{rest}"));
        assert_eq!(p.ready(), ready, "{os}");
        if !ready {
            assert_eq!(
                p.missing,
                vec![format!("Le moteur exige Linux x86_64 ; la distribution rapporte « {os} ».")]
            );
        }
    }
}

#[test]
fn an_old_driver_is_not_enough() {
    let rest = "os=Linux x86_64\npython=p\nnvcc=n\nft_venv=f\ngpu=0\n";
    for (driver, old) in [
        ("580.65.06", false),
        ("580", false),
        ("600.1", false),
        ("579.99", true),
        ("470.82.01", true),
        ("0", true),
        ("r580", false),
        (".1", false),
    ] {
        let p = parse_probe(&format!("{rest}driver={driver}"));
        assert_eq!(!p.ready(), old, "{driver}");
        if old {
            assert_eq!(
                p.missing,
                vec![format!(
                    "Le pilote NVIDIA « {driver} » est trop ancien : le moteur exige r580 ou plus \
                     récent. Sous WSL2, le pilote s'installe côté Windows, pas dans la distribution."
                )]
            );
        }
    }
}
