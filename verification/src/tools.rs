//! The tools that the extension offers.

use crate::json::{
    array, empty_object, empty_value, json_of, jsons_of, str_value, text_array, text_member,
    texts_value, with_member, Json,
};
use crate::text::same_text;
use serde_json::Value;
use vstd::prelude::*;

verus! {

pub const STATUS: &'static str = "freetoken_status";

pub const STATUS_TEXT: &'static str = "Dit si le moteur peut tourner sur cette machine et ce qui manque : système, pilote NVIDIA, compilateur CUDA, version installée, cartes visibles, mémoire. À appeler en premier quand le moteur ne démarre pas.";

pub const INSTALL: &'static str = "freetoken_install";

pub const INSTALL_TEXT: &'static str = "Installe ou met à jour le moteur dans un environnement Python dédié à l'extension, à la version que cette extension a validée. Long : plusieurs minutes, et plusieurs gigaoctets téléchargés.";

pub const INSTALL_VERSION_TEXT: &'static str = "Version du paquet à installer. Par défaut celle que l'extension a validée.";

pub const LIST_MODELS: &'static str = "freetoken_list_models";

pub const LIST_MODELS_TEXT: &'static str = "Liste les checkpoints que ce moteur sait servir, dans la bibliothèque de poids de l'utilisateur et dans le dossier de l'extension, en signalant ceux déjà convertis au format de chargement rapide.";

pub const SERVER_HEALTH: &'static str = "freetoken_server_health";

pub const SERVER_HEALTH_TEXT: &'static str = "Interroge le serveur en marche : est-il chargé, sur quel modèle, où en est le chargement. Répond aussi quels modèles il sert et sous quel nom les nommer dans une requête.";

pub const SERVER_STATS: &'static str = "freetoken_server_stats";

pub const SERVER_STATS_TEXT: &'static str = "Débit, latence, occupation de la VRAM et des files du serveur en marche. Utile pour expliquer une génération lente.";

pub const CACHE_STATUS: &'static str = "freetoken_cache_status";

pub const CACHE_STATUS_TEXT: &'static str = "L'état des réservoirs de cache du serveur : emplacements d'experts sur le GPU, capacité du cache KV, réutilisation de préfixe.";

pub const CACHE_RESIZE: &'static str = "freetoken_cache_resize";

pub const CACHE_RESIZE_TEXT: &'static str = "Redimensionne les réservoirs de cache sans redémarrer le serveur, donc sans recharger les poids. C'est ainsi qu'on rend de la VRAM à une autre tâche (une génération d'image, par exemple) tout en gardant le modèle chargé.";

pub const CACHE_RESIZE_MOE_TEXT: &'static str = "Nombre d'emplacements du cache d'experts sur le GPU.";

pub const CACHE_RESIZE_KV_TEXT: &'static str = "Capacité du cache KV, en jetons.";

pub const BENCH_BANDWIDTH: &'static str = "freetoken_bench_bandwidth";

pub const BENCH_BANDWIDTH_TEXT: &'static str = "Mesure la bande passante de la mémoire système contre celle du bus PCIe, et écrit le profil que le moteur relit pour choisir tout seul comment répartir les experts. À lancer une fois par machine. Long : plusieurs minutes.";

pub const BENCH_BANDWIDTH_DTYPE_TEXT: &'static str = "Ne mesurer que ces formats d'experts, séparés par des virgules (ex. « nvfp4,bf16 »).";

pub const CONVERT_CHECKPOINT: &'static str = "freetoken_convert_checkpoint";

pub const CONVERT_CHECKPOINT_TEXT: &'static str = "Convertit un checkpoint Hugging Face au format de chargement rapide du moteur, dans le dossier de l'extension. Facultatif : le moteur charge aussi les checkpoints d'origine, mais plus lentement à chaque démarrage. Long, et double l'espace disque occupé.";

pub const CONVERT_CHECKPOINT_MODEL_TEXT: &'static str = "Nom du checkpoint dans la bibliothèque de poids, chemin, ou identifiant de dépôt Hugging Face.";

pub const CONVERT_CHECKPOINT_NAME_TEXT: &'static str = "Nom du dossier de sortie. Par défaut, celui du checkpoint suivi de « -ftw ».";

pub const STOP_SERVER: &'static str = "freetoken_stop_server";

pub const STOP_SERVER_TEXT: &'static str = "Arrête le serveur et rend la VRAM. Le socle le relancera au prochain message si ce moteur reste le moteur actif.";

/// The tools.
#[derive(Debug, Clone, Copy, PartialEq, Eq, Structural)]
pub enum Tool {
    Status,
    Install,
    ListModels,
    ServerHealth,
    ServerStats,
    CacheStatus,
    CacheResize,
    BenchBandwidth,
    ConvertCheckpoint,
    StopServer,
}

impl Tool {
    /// The name that the tool is called by.
    pub open spec fn name(self) -> Seq<char> {
        match self {
            Tool::Status => STATUS@,
            Tool::Install => INSTALL@,
            Tool::ListModels => LIST_MODELS@,
            Tool::ServerHealth => SERVER_HEALTH@,
            Tool::ServerStats => SERVER_STATS@,
            Tool::CacheStatus => CACHE_STATUS@,
            Tool::CacheResize => CACHE_RESIZE@,
            Tool::BenchBandwidth => BENCH_BANDWIDTH@,
            Tool::ConvertCheckpoint => CONVERT_CHECKPOINT@,
            Tool::StopServer => STOP_SERVER@,
        }
    }
}

/// Each tool has a name of its own.
pub proof fn law_names_tell_tools_apart(a: Tool, b: Tool)
    requires
        a.name() == b.name(),
    ensures
        a == b,
{
    reveal_strlit("freetoken_status");
    reveal_strlit("freetoken_install");
    reveal_strlit("freetoken_list_models");
    reveal_strlit("freetoken_server_health");
    reveal_strlit("freetoken_server_stats");
    reveal_strlit("freetoken_cache_status");
    reveal_strlit("freetoken_cache_resize");
    reveal_strlit("freetoken_bench_bandwidth");
    reveal_strlit("freetoken_convert_checkpoint");
    reveal_strlit("freetoken_stop_server");
    assert(STATUS@.len() == 16 && INSTALL@.len() == 17 && SERVER_HEALTH@.len() == 23);
    assert(BENCH_BANDWIDTH@.len() == 25 && CONVERT_CHECKPOINT@.len() == 28);
    assert(LIST_MODELS@.len() == 21 && STOP_SERVER@.len() == 21);
    assert(SERVER_STATS@.len() == 22 && CACHE_STATUS@.len() == 22 && CACHE_RESIZE@.len() == 22);
    // The names of equal length differ in one of these characters.
    assert(LIST_MODELS@[10] == 'l' && STOP_SERVER@[10] == 's');
    assert(SERVER_STATS@[10] == 's' && CACHE_STATUS@[10] == 'c' && CACHE_RESIZE@[10] == 'c');
    assert(CACHE_STATUS@[16] == 's' && CACHE_RESIZE@[16] == 'r');
}

/// The tool of that name.
pub open spec fn tool_named(name: Seq<char>) -> Option<Tool> {
    if name == STATUS@ {
        Some(Tool::Status)
    } else if name == INSTALL@ {
        Some(Tool::Install)
    } else if name == LIST_MODELS@ {
        Some(Tool::ListModels)
    } else if name == SERVER_HEALTH@ {
        Some(Tool::ServerHealth)
    } else if name == SERVER_STATS@ {
        Some(Tool::ServerStats)
    } else if name == CACHE_STATUS@ {
        Some(Tool::CacheStatus)
    } else if name == CACHE_RESIZE@ {
        Some(Tool::CacheResize)
    } else if name == BENCH_BANDWIDTH@ {
        Some(Tool::BenchBandwidth)
    } else if name == CONVERT_CHECKPOINT@ {
        Some(Tool::ConvertCheckpoint)
    } else if name == STOP_SERVER@ {
        Some(Tool::StopServer)
    } else {
        None
    }
}

/// The tool of that name.
pub fn find_tool(name: &str) -> (tool: Option<Tool>)
    ensures
        tool == tool_named(name@),
{
    if same_text(name, STATUS) {
        Some(Tool::Status)
    } else if same_text(name, INSTALL) {
        Some(Tool::Install)
    } else if same_text(name, LIST_MODELS) {
        Some(Tool::ListModels)
    } else if same_text(name, SERVER_HEALTH) {
        Some(Tool::ServerHealth)
    } else if same_text(name, SERVER_STATS) {
        Some(Tool::ServerStats)
    } else if same_text(name, CACHE_STATUS) {
        Some(Tool::CacheStatus)
    } else if same_text(name, CACHE_RESIZE) {
        Some(Tool::CacheResize)
    } else if same_text(name, BENCH_BANDWIDTH) {
        Some(Tool::BenchBandwidth)
    } else if same_text(name, CONVERT_CHECKPOINT) {
        Some(Tool::ConvertCheckpoint)
    } else if same_text(name, STOP_SERVER) {
        Some(Tool::StopServer)
    } else {
        None
    }
}

// ---------------------------------------------------------------------------
// The list of the tools
// ---------------------------------------------------------------------------

/// An argument of a tool.
pub open spec fn property(kind: Seq<char>, text: Seq<char>) -> Json {
    empty_object().with("type"@, Json::Text(kind)).with("description"@, Json::Text(text))
}

/// The schema of the arguments of a tool.
pub open spec fn schema(properties: Json) -> Json {
    empty_object().with("type"@, Json::Text("object"@)).with("properties"@, properties)
}

impl Tool {
    /// What the tool does, in words.
    pub open spec fn text(self) -> Seq<char> {
        match self {
            Tool::Status => STATUS_TEXT@,
            Tool::Install => INSTALL_TEXT@,
            Tool::ListModels => LIST_MODELS_TEXT@,
            Tool::ServerHealth => SERVER_HEALTH_TEXT@,
            Tool::ServerStats => SERVER_STATS_TEXT@,
            Tool::CacheStatus => CACHE_STATUS_TEXT@,
            Tool::CacheResize => CACHE_RESIZE_TEXT@,
            Tool::BenchBandwidth => BENCH_BANDWIDTH_TEXT@,
            Tool::ConvertCheckpoint => CONVERT_CHECKPOINT_TEXT@,
            Tool::StopServer => STOP_SERVER_TEXT@,
        }
    }

    /// The arguments that the tool takes.
    pub open spec fn properties(self) -> Json {
        match self {
            Tool::Install => empty_object().with(
                "version"@,
                property("string"@, INSTALL_VERSION_TEXT@),
            ),
            Tool::CacheResize => empty_object().with(
                "moe"@,
                property("integer"@, CACHE_RESIZE_MOE_TEXT@),
            ).with("kv"@, property("integer"@, CACHE_RESIZE_KV_TEXT@)),
            Tool::BenchBandwidth => empty_object().with(
                "dtype"@,
                property("string"@, BENCH_BANDWIDTH_DTYPE_TEXT@),
            ),
            Tool::ConvertCheckpoint => empty_object().with(
                "model"@,
                property("string"@, CONVERT_CHECKPOINT_MODEL_TEXT@),
            ).with("name"@, property("string"@, CONVERT_CHECKPOINT_NAME_TEXT@)),
            _ => empty_object(),
        }
    }

    /// The schema of the arguments: converting a checkpoint is the one tool that requires one.
    pub open spec fn schema(self) -> Json {
        match self {
            Tool::ConvertCheckpoint => schema(self.properties()).with(
                "required"@,
                text_array(seq!["model"@]),
            ),
            _ => schema(self.properties()),
        }
    }

    /// How the tool is described to those who may call it.
    pub open spec fn described(self) -> Json {
        empty_object().with("name"@, Json::Text(self.name())).with(
            "description"@,
            Json::Text(self.text()),
        ).with("inputSchema"@, self.schema())
    }
}

/// All tools, in the order in which they are listed.
pub open spec fn all_tools() -> Seq<Tool> {
    seq![
        Tool::Status,
        Tool::Install,
        Tool::ListModels,
        Tool::ServerHealth,
        Tool::ServerStats,
        Tool::CacheStatus,
        Tool::CacheResize,
        Tool::BenchBandwidth,
        Tool::ConvertCheckpoint,
        Tool::StopServer,
    ]
}

/// The list of the tools.
pub open spec fn tools_json() -> Json {
    empty_object().with("tools"@, Json::Array(all_tools().map_values(|tool: Tool| tool.described())))
}

/// An argument of a tool.
fn property_value(kind: &str, text: &str) -> (value: Value)
    ensures
        json_of(value) == property(kind@, text@),
{
    with_member(with_member(empty_value(), "type", str_value(kind)), "description", str_value(text))
}

impl Tool {
    /// The name that the tool is called by.
    fn name_text(self) -> (name: &'static str)
        ensures
            name@ == self.name(),
    {
        match self {
            Tool::Status => STATUS,
            Tool::Install => INSTALL,
            Tool::ListModels => LIST_MODELS,
            Tool::ServerHealth => SERVER_HEALTH,
            Tool::ServerStats => SERVER_STATS,
            Tool::CacheStatus => CACHE_STATUS,
            Tool::CacheResize => CACHE_RESIZE,
            Tool::BenchBandwidth => BENCH_BANDWIDTH,
            Tool::ConvertCheckpoint => CONVERT_CHECKPOINT,
            Tool::StopServer => STOP_SERVER,
        }
    }

    /// What the tool does, in words.
    fn description(self) -> (text: &'static str)
        ensures
            text@ == self.text(),
    {
        match self {
            Tool::Status => STATUS_TEXT,
            Tool::Install => INSTALL_TEXT,
            Tool::ListModels => LIST_MODELS_TEXT,
            Tool::ServerHealth => SERVER_HEALTH_TEXT,
            Tool::ServerStats => SERVER_STATS_TEXT,
            Tool::CacheStatus => CACHE_STATUS_TEXT,
            Tool::CacheResize => CACHE_RESIZE_TEXT,
            Tool::BenchBandwidth => BENCH_BANDWIDTH_TEXT,
            Tool::ConvertCheckpoint => CONVERT_CHECKPOINT_TEXT,
            Tool::StopServer => STOP_SERVER_TEXT,
        }
    }

    /// The arguments that the tool takes.
    fn properties_value(self) -> (value: Value)
        ensures
            json_of(value) == self.properties(),
    {
        match self {
            Tool::Install => with_member(
                empty_value(),
                "version",
                property_value("string", INSTALL_VERSION_TEXT),
            ),
            Tool::CacheResize => with_member(
                with_member(empty_value(), "moe", property_value("integer", CACHE_RESIZE_MOE_TEXT)),
                "kv",
                property_value("integer", CACHE_RESIZE_KV_TEXT),
            ),
            Tool::BenchBandwidth => with_member(
                empty_value(),
                "dtype",
                property_value("string", BENCH_BANDWIDTH_DTYPE_TEXT),
            ),
            Tool::ConvertCheckpoint => with_member(
                with_member(
                    empty_value(),
                    "model",
                    property_value("string", CONVERT_CHECKPOINT_MODEL_TEXT),
                ),
                "name",
                property_value("string", CONVERT_CHECKPOINT_NAME_TEXT),
            ),
            _ => empty_value(),
        }
    }

    /// How the tool is described to those who may call it.
    fn description_value(self) -> (value: Value)
        ensures
            json_of(value) == self.described(),
    {
        let mut schema = with_member(
            with_member(empty_value(), "type", str_value("object")),
            "properties",
            self.properties_value(),
        );
        if let Tool::ConvertCheckpoint = self {
            let mut required: Vec<String> = Vec::new();
            required.push("model".to_string());
            assert(required.deep_view() =~= seq!["model"@]);
            schema = with_member(schema, "required", texts_value(&required));
        }
        with_member(
            with_member(
                with_member(empty_value(), "name", str_value(self.name_text())),
                "description",
                str_value(self.description()),
            ),
            "inputSchema",
            schema,
        )
    }
}

/// The list of the tools.
pub fn tools_list() -> (value: Value)
    ensures
        json_of(value) == tools_json(),
{
    let mut values: Vec<Value> = Vec::new();
    values.push(Tool::Status.description_value());
    values.push(Tool::Install.description_value());
    values.push(Tool::ListModels.description_value());
    values.push(Tool::ServerHealth.description_value());
    values.push(Tool::ServerStats.description_value());
    values.push(Tool::CacheStatus.description_value());
    values.push(Tool::CacheResize.description_value());
    values.push(Tool::BenchBandwidth.description_value());
    values.push(Tool::ConvertCheckpoint.description_value());
    values.push(Tool::StopServer.description_value());
    assert(jsons_of(values@) =~= all_tools().map_values(|tool: Tool| tool.described()));
    with_member(empty_value(), "tools", array(values))
}

// ---------------------------------------------------------------------------
// Laws
// ---------------------------------------------------------------------------

/// The tools that can be called are those that are listed: a name is that of a tool exactly
/// where the list describes a tool of that name.
pub proof fn law_listed_tools_are_those_called(name: Seq<char>)
    ensures
        tool_named(name) is Some <==> exists|i: int|
            0 <= i < all_tools().len() && text_member(#[trigger] all_tools()[i].described(), "name"@)
                == Some(name),
        tool_named(name) matches Some(tool) ==> tool.name() == name,
{
    assert forall|i: int| 0 <= i < all_tools().len() implies text_member(
        #[trigger] all_tools()[i].described(),
        "name"@,
    ) == Some(all_tools()[i].name()) by {
        lemma_described_name(all_tools()[i]);
    }
    if let Some(tool) = tool_named(name) {
        let i: int = match tool {
            Tool::Status => 0,
            Tool::Install => 1,
            Tool::ListModels => 2,
            Tool::ServerHealth => 3,
            Tool::ServerStats => 4,
            Tool::CacheStatus => 5,
            Tool::CacheResize => 6,
            Tool::BenchBandwidth => 7,
            Tool::ConvertCheckpoint => 8,
            Tool::StopServer => 9,
        };
        assert(all_tools()[i].described() == tool.described());
    }
}

/// A tool is described under its name.
proof fn lemma_described_name(tool: Tool)
    ensures
        text_member(tool.described(), "name"@) == Some(tool.name()),
{
    reveal_strlit("name");
    reveal_strlit("description");
    reveal_strlit("inputSchema");
    assert("name"@.len() != "description"@.len());
    assert("name"@.len() != "inputSchema"@.len());
}

/// A tool is found by its name.
pub proof fn law_tool_is_found_by_its_name(tool: Tool)
    ensures
        tool_named(tool.name()) == Some(tool),
{
    if let Some(found) = tool_named(tool.name()) {
        law_names_tell_tools_apart(found, tool);
    }
}

} // verus!
