use locaryn_plugin_freetoken::paths::{looks_like_hf_repo_id, model_for_engine, to_wsl_path};
use locaryn_plugin_freetoken::runtime::Runtime;

#[test]
fn un_chemin_windows_devient_un_chemin_wsl() {
    assert_eq!(
        to_wsl_path(r"D:\Documents\modeles"),
        "/mnt/d/Documents/modeles"
    );
    assert_eq!(to_wsl_path(r"C:\a b\c"), "/mnt/c/a b/c");
    // A POSIX path stays as it is: the weights may live in the distribution.
    assert_eq!(to_wsl_path("/home/moi/modeles"), "/home/moi/modeles");
}

#[test]
fn un_depot_hugging_face_traverse_intact() {
    let wsl = Runtime::Wsl { distro: None };
    assert_eq!(
        model_for_engine("Qwen/Qwen3.6-35B-A3B", &wsl),
        "Qwen/Qwen3.6-35B-A3B"
    );
    assert_eq!(
        model_for_engine(r"D:\modeles\Qwen__Qwen3.6-35B-A3B", &wsl),
        "/mnt/d/modeles/Qwen__Qwen3.6-35B-A3B"
    );
}

#[test]
fn ce_qui_ressemble_a_un_depot_et_ce_qui_n_y_ressemble_pas() {
    assert!(looks_like_hf_repo_id("nvidia/GLM-5.2-NVFP4"));
    assert!(!looks_like_hf_repo_id("/mnt/d/modeles/glm"));
    assert!(!looks_like_hf_repo_id(r"D:\modeles\glm"));
    assert!(!looks_like_hf_repo_id(
        "https://huggingface.co/nvidia/GLM-5.2-NVFP4"
    ));
    assert!(!looks_like_hf_repo_id("glm"));
    assert!(!looks_like_hf_repo_id("a/b/c"));
}

#[test]
fn white_space_around_a_path_is_dropped() {
    assert_eq!(to_wsl_path("  C:\\x \n"), "/mnt/c/x");
    assert_eq!(to_wsl_path("\u{a0}/srv/x\u{3000}"), "/srv/x");
    assert_eq!(to_wsl_path(""), "");
    assert_eq!(to_wsl_path("   "), "");
}

#[test]
fn a_drive_is_mounted_in_lower_case() {
    assert_eq!(to_wsl_path("Z:"), "/mnt/z/");
    assert_eq!(to_wsl_path("z:\\\\a\\\\b"), "/mnt/z/a//b");
    assert_eq!(to_wsl_path("C:relative"), "/mnt/c/relative");
    assert_eq!(to_wsl_path("C:/a\\b"), "/mnt/c/a/b");
}

#[test]
fn other_paths_keep_all_but_their_separators() {
    assert_eq!(to_wsl_path(r"a\b\c"), "a/b/c");
    assert_eq!(to_wsl_path(r"\\serveur\part"), "//serveur/part");
    assert_eq!(to_wsl_path("é:\\x"), "é:/x");
    assert_eq!(to_wsl_path("1:\\x"), "1:/x");
}

#[test]
fn translating_twice_translates_once() {
    for path in [r"D:\a b\c", "/srv/x", r"a\b", "", "C:", r"\\s\p"] {
        let once = to_wsl_path(path);
        assert_eq!(to_wsl_path(&once), once);
        assert!(!once.contains('\\'));
    }
}

#[test]
fn repository_identifiers_at_the_edges() {
    assert!(looks_like_hf_repo_id("a/b"));
    assert!(looks_like_hf_repo_id("a-b_c.1/D.e"));
    assert!(looks_like_hf_repo_id("a/.b"));
    for value in [
        "", "/", "a/", "/a", "./a", ".a/b", "a//b", "a b/c", "a/b ", "a\\b/c", "a:b/c", "é/a", "a/é",
        "x:/y",
    ] {
        assert!(!looks_like_hf_repo_id(value), "{value}");
    }
}

#[test]
fn models_are_named_for_the_engine() {
    let wsl = Runtime::Wsl { distro: None };
    assert_eq!(model_for_engine("  a/b  ", &wsl), "a/b");
    assert_eq!(model_for_engine("  a/b  ", &Runtime::Native), "a/b");
    assert_eq!(model_for_engine("   ", &wsl), "");
    assert_eq!(model_for_engine(r" D:\m ", &Runtime::Native), r"D:\m");
    assert_eq!(model_for_engine("a/b/c", &wsl), "a/b/c");
    assert_eq!(model_for_engine(r"a\b", &wsl), "a/b");
}
