use locaryn_plugin_freetoken::models::{
    list_servable_models, total_size, Candidate, Entry, SIZE_DEPTH,
};
use locaryn_plugin_freetoken::runtime::{
    converted_dir, extension_data_dir, join_path, venv_cli, venv_cli_path, venv_dir, Host, Runtime,
};

fn candidate(name: &str, path: &str) -> Candidate {
    Candidate {
        name: Some(name.to_string()),
        path: path.to_string(),
        is_dir: true,
        has_weights: false,
        has_config: true,
        size_bytes: 5,
    }
}

#[test]
fn only_checkpoints_are_listed() {
    let found = vec![
        Candidate { is_dir: false, ..candidate("file", "/file") },
        Candidate { has_config: false, ..candidate("empty", "/empty") },
        Candidate { name: None, ..candidate("x", "/nameless") },
        Candidate { has_config: false, has_weights: true, ..candidate("fast", "/fast") },
        candidate("plain", "/plain"),
    ];
    let models = list_servable_models(&found);
    let names: Vec<&str> = models.iter().map(|m| m.name.as_str()).collect();
    assert_eq!(names, vec!["fast", "plain"]);
    assert!(models[0].converted);
    assert!(!models[1].converted);
    assert_eq!(models[1].size_bytes, 5);
}

#[test]
fn the_list_is_sorted_without_regard_to_case() {
    let found = vec![
        candidate("beta", "/1"),
        candidate("Éclair", "/2"),
        candidate("ALPHA", "/3"),
        candidate("éCLAIR", "/4"),
        candidate("Beta", "/5"),
    ];
    let models = list_servable_models(&found);
    let paths: Vec<&str> = models.iter().map(|m| m.path.as_str()).collect();
    assert_eq!(paths, vec!["/3", "/1", "/5", "/2", "/4"]);
    let mut expected = found.clone();
    expected.sort_by(|a, b| {
        a.name.as_ref().unwrap().to_lowercase().cmp(&b.name.as_ref().unwrap().to_lowercase())
    });
    let expected: Vec<&str> = expected.iter().map(|m| m.path.as_str()).collect();
    assert_eq!(paths, expected);
}

#[test]
fn a_path_is_not_listed_twice_in_a_row() {
    let found = vec![candidate("a", "/a"), candidate("a", "/a"), candidate("A", "/b")];
    let models = list_servable_models(&found);
    assert_eq!(models.len(), 2);
    assert_eq!(models[0].path, "/a");
    assert_eq!(models[1].path, "/b");
}

#[test]
fn sizes_count_down_to_a_depth() {
    let file = |size: u64| Entry::File { size };
    let folder = |entries: Vec<Entry>| Entry::Folder { entries };
    let tree = vec![
        file(1),
        folder(vec![file(10), folder(vec![file(100), folder(vec![file(1000)])])]),
        folder(vec![]),
    ];
    assert_eq!(total_size(&tree, SIZE_DEPTH), Some(111));
    assert_eq!(total_size(&tree, 4), Some(1111));
    assert_eq!(total_size(&tree, 1), Some(1));
    assert_eq!(total_size(&tree, 0), Some(0));
    assert_eq!(total_size(&vec![file(u64::MAX), file(1)], 1), None);
    assert_eq!(total_size(&vec![folder(vec![file(u64::MAX), file(1)])], 2), None);
}

#[test]
fn paths_are_joined() {
    assert_eq!(join_path(false, "/a", "b"), "/a/b");
    assert_eq!(join_path(false, "/a/", "b"), "/a/b");
    assert_eq!(join_path(false, "", "b"), "b");
    assert_eq!(join_path(false, r"C:\a", "b"), r"C:\a/b");
    assert_eq!(join_path(true, r"C:\a", "b"), r"C:\a\b");
    assert_eq!(join_path(true, "C:/a/", "b"), "C:/a/b");
    assert_eq!(join_path(true, "C:", "b"), "C:b");
    assert_eq!(join_path(true, r"C:\a", "D:b"), "D:b");
    assert_eq!(join_path(false, "/a", "D:b"), "/a/D:b");
    assert_eq!(join_path(true, r"C:\a", "."), r"C:\a\.");
}

#[test]
fn verbatim_paths_are_joined() {
    assert_eq!(join_path(true, r"\\?\D:\data", "venv"), r"\\?\D:\data\venv");
    assert_eq!(join_path(true, r"\\?\D:\data/", "venv"), r"\\?\D:\data/\venv");
    assert_eq!(join_path(true, r"\\?\D:\data\", "venv"), r"\\?\D:\data\venv");
    assert_eq!(join_path(true, r"\\?\D:\a\\b\\", "venv"), r"\\?\D:\a\b\venv");
    assert_eq!(join_path(true, r"\\?\D:", "venv"), r"\\?\D:\venv");
    assert_eq!(join_path(true, r"\\?\D:\", "venv"), r"\\?\D:\venv");
    assert_eq!(join_path(true, r"\\?\D:\data", "."), r"\\?\D:\data");
    assert_eq!(join_path(true, r"\\?\D:\", "."), r"\\?\D:\");
    assert_eq!(join_path(true, r"\\?\D:\data", "E:x"), "E:x");
    assert_eq!(join_path(false, r"\\?\D:\data", "venv"), r"\\?\D:\data/venv");
}

#[test]
fn the_prefix_of_a_verbatim_path_is_kept() {
    for (base, name, path) in [
        (r"\\?\D:/data", "venv", r"\\?\D:\data\venv"),
        (r"\\?\D:/", "venv", r"\\?\D:\venv"),
        (r"\\?\D:/", ".", r"\\?\D:\"),
        (r"\\?\D:", ".", r"\\?\D:"),
        (r"\\?\D:x\y", "venv", r"\\?\D:x\y\venv"),
        (r"\\?\D:\a/b\", "venv", r"\\?\D:\a/b\venv"),
        (r"\\?\UNC\s\h\d", "venv", r"\\?\UNC\s\h\d\venv"),
        (r"\\?\UNC\s\h", "venv", r"\\?\UNC\s\h\venv"),
        (r"\\?\UNC\s\h\", ".", r"\\?\UNC\s\h\"),
        (r"\\?\UNC\s\h", ".", r"\\?\UNC\s\h"),
        (r"\\?\UNC\s\h\d\\", ".", r"\\?\UNC\s\h\d"),
        (r"\\?\UNC\\h\d", "venv", r"\\?\UNC\\h\d\venv"),
        (r"\\?\UNC\s\\d", "venv", r"\\?\UNC\s\d\venv"),
        (r"\\?\UNC\s", "venv", r"\\?\UNC\s\venv"),
        (r"\\?\Volume{1}\\d", "venv", r"\\?\Volume{1}\d\venv"),
        (r"\\?\name", "venv", r"\\?\name\venv"),
        (r"\\?\", "venv", r"\\?\\venv"),
        (r"//?/D:/a", "venv", r"//?/D:/a\venv"),
        (r"\\s\h", "venv", r"\\s\h\venv"),
    ] {
        assert_eq!(join_path(true, base, name), path, "{base} {name}");
    }
}

#[test]
fn the_folders_lie_in_the_private_one() {
    assert_eq!(extension_data_dir(false, Some("/x"), "/tmp"), "/x");
    assert_eq!(extension_data_dir(false, None, "/tmp"), "/tmp/locaryn-freetoken");
    let host = Host { windows: false, data_dir: "/x".to_string(), cli_present: true };
    assert_eq!(venv_dir(&host), "/x/venv");
    assert_eq!(converted_dir(&host), "/x/models");
    assert_eq!(venv_cli_path(&host), "/x/venv/bin/ft");
    assert_eq!(venv_cli(&host, &Runtime::Native).as_deref(), Some("/x/venv/bin/ft"));
    assert_eq!(venv_cli(&host, &Runtime::Wsl { distro: None }), None);
    let absent = Host { cli_present: false, ..host };
    assert_eq!(venv_cli(&absent, &Runtime::Native), None);
}
