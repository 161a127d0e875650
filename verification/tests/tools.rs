use locaryn_plugin_freetoken::tools::{find_tool, tools_list, Tool};

const EXPECTED: &str = r#"{
    "tools": [
        {
            "name": "freetoken_status",
            "description": "Dit si le moteur peut tourner sur cette machine et ce qui manque : système, pilote NVIDIA, compilateur CUDA, version installée, cartes visibles, mémoire. À appeler en premier quand le moteur ne démarre pas.",
            "inputSchema": { "type": "object", "properties": {} }
        },
        {
            "name": "freetoken_install",
            "description": "Installe ou met à jour le moteur dans un environnement Python dédié à l'extension, à la version que cette extension a validée. Long : plusieurs minutes, et plusieurs gigaoctets téléchargés.",
            "inputSchema": {
                "type": "object",
                "properties": {
                    "version": {
                        "type": "string",
                        "description": "Version du paquet à installer. Par défaut celle que l'extension a validée."
                    }
                }
            }
        },
        {
            "name": "freetoken_list_models",
            "description": "Liste les checkpoints que ce moteur sait servir, dans la bibliothèque de poids de l'utilisateur et dans le dossier de l'extension, en signalant ceux déjà convertis au format de chargement rapide.",
            "inputSchema": { "type": "object", "properties": {} }
        },
        {
            "name": "freetoken_server_health",
            "description": "Interroge le serveur en marche : est-il chargé, sur quel modèle, où en est le chargement. Répond aussi quels modèles il sert et sous quel nom les nommer dans une requête.",
            "inputSchema": { "type": "object", "properties": {} }
        },
        {
            "name": "freetoken_server_stats",
            "description": "Débit, latence, occupation de la VRAM et des files du serveur en marche. Utile pour expliquer une génération lente.",
            "inputSchema": { "type": "object", "properties": {} }
        },
        {
            "name": "freetoken_cache_status",
            "description": "L'état des réservoirs de cache du serveur : emplacements d'experts sur le GPU, capacité du cache KV, réutilisation de préfixe.",
            "inputSchema": { "type": "object", "properties": {} }
        },
        {
            "name": "freetoken_cache_resize",
            "description": "Redimensionne les réservoirs de cache sans redémarrer le serveur, donc sans recharger les poids. C'est ainsi qu'on rend de la VRAM à une autre tâche (une génération d'image, par exemple) tout en gardant le modèle chargé.",
            "inputSchema": {
                "type": "object",
                "properties": {
                    "moe": {
                        "type": "integer",
                        "description": "Nombre d'emplacements du cache d'experts sur le GPU."
                    },
                    "kv": {
                        "type": "integer",
                        "description": "Capacité du cache KV, en jetons."
                    }
                }
            }
        },
        {
            "name": "freetoken_bench_bandwidth",
            "description": "Mesure la bande passante de la mémoire système contre celle du bus PCIe, et écrit le profil que le moteur relit pour choisir tout seul comment répartir les experts. À lancer une fois par machine. Long : plusieurs minutes.",
            "inputSchema": {
                "type": "object",
                "properties": {
                    "dtype": {
                        "type": "string",
                        "description": "Ne mesurer que ces formats d'experts, séparés par des virgules (ex. « nvfp4,bf16 »)."
                    }
                }
            }
        },
        {
            "name": "freetoken_convert_checkpoint",
            "description": "Convertit un checkpoint Hugging Face au format de chargement rapide du moteur, dans le dossier de l'extension. Facultatif : le moteur charge aussi les checkpoints d'origine, mais plus lentement à chaque démarrage. Long, et double l'espace disque occupé.",
            "inputSchema": {
                "type": "object",
                "properties": {
                    "model": {
                        "type": "string",
                        "description": "Nom du checkpoint dans la bibliothèque de poids, chemin, ou identifiant de dépôt Hugging Face."
                    },
                    "name": {
                        "type": "string",
                        "description": "Nom du dossier de sortie. Par défaut, celui du checkpoint suivi de « -ftw »."
                    }
                },
                "required": ["model"]
            }
        },
        {
            "name": "freetoken_stop_server",
            "description": "Arrête le serveur et rend la VRAM. Le socle le relancera au prochain message si ce moteur reste le moteur actif.",
            "inputSchema": { "type": "object", "properties": {} }
        }
    ]
}"#;

#[test]
fn the_tools_are_listed() {
    let expected: serde_json::Value = serde_json::from_str(EXPECTED).unwrap();
    assert_eq!(tools_list(), expected);
}

#[test]
fn each_listed_tool_is_found() {
    let list = tools_list();
    let tools = list["tools"].as_array().unwrap();
    assert_eq!(tools.len(), 10);
    let mut found: Vec<Tool> = Vec::new();
    for tool in tools {
        let known = find_tool(tool["name"].as_str().unwrap()).unwrap();
        assert!(!found.contains(&known));
        found.push(known);
    }
    assert_eq!(found[0], Tool::Status);
    assert_eq!(found[9], Tool::StopServer);
    assert_eq!(find_tool("freetoken_"), None);
    assert_eq!(find_tool(""), None);
}
