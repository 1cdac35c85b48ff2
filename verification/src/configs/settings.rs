//! The workspace settings (`workspace.json` / `settings.json`).
//!
//! ```json
//! {
//!   "version": "4",
//!   "workspace": { "configsdir": "...", "includedir": "...", "buildsdir": "...",
//!                  "artifactsdir": "...", "scriptsdir": "...", "dockerdir": "...",
//!                  "cachedir": "..." },
//!   "builds": { "supported": [ "machine1", "machine2" ] },
//!   "docker": { "enabled": "false", "registry": "...", "image": "...", "tag": "...",
//!               "args": [ "--rm=true", "-t" ] }
//! }
//! ```
//! Every node but `version` is optional; missing entries take the defaults below.
use vstd::prelude::*;

use crate::configs::config::{get_array_value, get_str_value, parse, spec_str_member, str_items};
use crate::error::BError;
use crate::json::{spec_get, spec_parse_json, Json};

verus! {

/// The default image of the container that the tool runs in.
pub const BAKERY_DOCKER_IMAGE: &'static str = "bakery-workspace";

/// The default tag of that image.
pub const BAKERY_DOCKER_TAG: &'static str = "0.68";

/// The default registry of that image.
pub const BAKERY_DOCKER_REGISTRY: &'static str = "strixos";

/// The workspace settings.
pub struct WsSettings {
    pub version: String,
    pub configs_dir: String,
    pub builds_dir: String,
    pub artifacts_dir: String,
    pub include_dir: String,
    pub scripts_dir: String,
    pub docker_dir: String,
    pub cache_dir: String,
    pub supported: Vec<String>,
    pub docker_tag: String,
    pub docker_image: String,
    pub docker_registry: String,
    pub docker_args: Vec<String>,
    pub docker_enabled: String,
}

/// The string entry `key` of an optional node, or `default`.
pub open spec fn str_or(node: Option<Json>, key: Seq<char>, default: Seq<char>) -> Seq<char> {
    match node {
        Some(n) => match spec_str_member(n, key) {
            Some(s) => s,
            None => default,
        },
        None => default,
    }
}

/// The string list `key` of an optional node, or `default`; `None` when the entry is
/// there but is not an array.
pub open spec fn list_or(node: Option<Json>, key: Seq<char>, default: Seq<Seq<char>>) -> Option<Seq<Seq<char>>> {
    match node {
        Some(n) => match spec_get(n, key) {
            Some(Json::Array(items)) => Some(str_items(items@)),
            Some(_) => None,
            None => Some(default),
        },
        None => Some(default),
    }
}

/// The default arguments handed to `docker run`.
pub open spec fn default_docker_args() -> Seq<Seq<char>> {
    seq!["--rm=true"@, "-t"@]
}

/// `s` holds the settings that the JSON value `data` describes.
pub open spec fn settings_of(data: Json, s: WsSettings) -> bool {
    let ws = spec_get(data, "workspace"@);
    let builds = spec_get(data, "builds"@);
    let docker = spec_get(data, "docker"@);
    &&& spec_str_member(data, "version"@) == Some(s.version@)
    &&& s.configs_dir@ == str_or(ws, "configsdir"@, "configs"@)
    &&& s.include_dir@ == str_or(ws, "includedir"@, "configs/include"@)
    &&& s.builds_dir@ == str_or(ws, "buildsdir"@, "builds"@)
    &&& s.artifacts_dir@ == str_or(ws, "artifactsdir"@, "artifacts"@)
    &&& s.scripts_dir@ == str_or(ws, "scriptsdir"@, "scripts"@)
    &&& s.docker_dir@ == str_or(ws, "dockerdir"@, "docker"@)
    &&& s.cache_dir@ == str_or(ws, "cachedir"@, ".cache"@)
    &&& list_or(builds, "supported"@, seq![]) == Some(s.supported@.map_values(|p: String| p@))
    &&& s.docker_enabled@ == str_or(docker, "enabled"@, "false"@)
    &&& s.docker_image@ == str_or(docker, "image"@, BAKERY_DOCKER_IMAGE@)
    &&& s.docker_tag@ == str_or(docker, "tag"@, BAKERY_DOCKER_TAG@)
    &&& s.docker_registry@ == str_or(docker, "registry"@, BAKERY_DOCKER_REGISTRY@)
    &&& list_or(docker, "args"@, default_docker_args()) == Some(s.docker_args@.map_values(|p: String| p@))
}

/// Reads a string entry of an optional node with a default (never fails).
fn str_entry(node: Option<&Json>, key: &str, default: &str) -> (res: String)
    ensures
        res@ == str_or(match node { Some(n) => Some(*n), None => None }, key@, default@),
{
    match node {
        Some(n) => match get_str_value(key, n, Some(default.to_string())) {
            Ok(v) => v,
            Err(_) => default.to_string(),
        },
        None => default.to_string(),
    }
}

/// Reads a list entry of an optional node with a default.
fn list_entry(node: Option<&Json>, key: &str, default: Vec<String>) -> (res: Result<Vec<String>, BError>)
    ensures
        match list_or(match node { Some(n) => Some(*n), None => None }, key@, default@.map_values(|p: String| p@)) {
            Some(l) => res matches Ok(r) && r@.map_values(|p: String| p@) == l,
            None => res matches Err(e) && e is ParseError
                && e.message() == crate::configs::config::quoted("Failed to read array '"@, key@),
        },
{
    match node {
        Some(n) => get_array_value(key, n, Some(default)),
        None => Ok(default),
    }
}

/// A copy of a list of strings.
pub fn clone_strings(v: &Vec<String>) -> (res: Vec<String>)
    ensures
        res@ == v@,
{
    let mut out: Vec<String> = Vec::new();
    let mut i: usize = 0;
    while i < v.len()
        invariant
            i <= v.len(),
            out@ == v@.take(i as int),
        decreases v.len() - i,
    {
        out.push(v[i].clone());
        assert(out@ =~= v@.take(i as int + 1));
        i = i + 1;
    }
    assert(v@.take(v.len() as int) == v@);
    out
}

impl WsSettings {
    /// Both hold the same settings.
    pub open spec fn same_as(self, other: Self) -> bool {
        &&& self.version@ == other.version@
        &&& self.configs_dir@ == other.configs_dir@
        &&& self.builds_dir@ == other.builds_dir@
        &&& self.artifacts_dir@ == other.artifacts_dir@
        &&& self.include_dir@ == other.include_dir@
        &&& self.scripts_dir@ == other.scripts_dir@
        &&& self.docker_dir@ == other.docker_dir@
        &&& self.cache_dir@ == other.cache_dir@
        &&& self.supported@ == other.supported@
        &&& self.docker_tag@ == other.docker_tag@
        &&& self.docker_image@ == other.docker_image@
        &&& self.docker_registry@ == other.docker_registry@
        &&& self.docker_args@ == other.docker_args@
        &&& self.docker_enabled@ == other.docker_enabled@
    }

    /// A copy.
    pub fn clone(&self) -> (res: Self)
        ensures
            res.same_as(*self),
    {
        WsSettings {
            version: self.version.clone(),
            configs_dir: self.configs_dir.clone(),
            builds_dir: self.builds_dir.clone(),
            artifacts_dir: self.artifacts_dir.clone(),
            include_dir: self.include_dir.clone(),
            scripts_dir: self.scripts_dir.clone(),
            docker_dir: self.docker_dir.clone(),
            cache_dir: self.cache_dir.clone(),
            supported: clone_strings(&self.supported),
            docker_tag: self.docker_tag.clone(),
            docker_image: self.docker_image.clone(),
            docker_registry: self.docker_registry.clone(),
            docker_args: clone_strings(&self.docker_args),
            docker_enabled: self.docker_enabled.clone(),
        }
    }

    /// Reads the settings from the text of a settings file.
    pub fn from_str(json_string: &str) -> (res: Result<Self, BError>)
        ensures
            match spec_parse_json(json_string@) {
                Ok(data) => Self::from_value_result(data, res),
                Err(m) => res matches Err(e) && e is ParseError && e.message() == "Failed to parse JSON: "@ + m,
            },
    {
        let data: Json = parse(json_string)?;
        Self::from_value(&data)
    }

    /// What [`WsSettings::from_value`] gives for `data`: the settings it describes; a
    /// `ValueError` when `version` is missing; a `ParseError` when `builds.supported` or
    /// `docker.args` is not an array.
    pub open spec fn from_value_result(data: Json, res: Result<Self, BError>) -> bool {
        if spec_str_member(data, "version"@) is None {
            res matches Err(e) && e is ValueError
                && e.message() == crate::configs::config::quoted("Failed to read string value '"@, "version"@)
        } else if list_or(spec_get(data, "builds"@), "supported"@, seq![]) is None {
            res matches Err(e) && e is ParseError
                && e.message() == crate::configs::config::quoted("Failed to read array '"@, "supported"@)
        } else if list_or(spec_get(data, "docker"@), "args"@, default_docker_args()) is None {
            res matches Err(e) && e is ParseError
                && e.message() == crate::configs::config::quoted("Failed to read array '"@, "args"@)
        } else {
            res matches Ok(s) && settings_of(data, s)
        }
    }

    /// Reads the settings from a parsed settings file.
    pub fn from_value(data: &Json) -> (res: Result<Self, BError>)
        ensures
            Self::from_value_result(*data, res),
    {
        proof {
            reveal_strlit("version");
            reveal_strlit("--rm=true");
            reveal_strlit("-t");
        }
        let version: String = get_str_value("version", data, None)?;
        let ws: Option<&Json> = data.get("workspace");
        let configs_dir = str_entry(ws, "configsdir", "configs");
        let include_dir = str_entry(ws, "includedir", "configs/include");
        let builds_dir = str_entry(ws, "buildsdir", "builds");
        let artifacts_dir = str_entry(ws, "artifactsdir", "artifacts");
        let scripts_dir = str_entry(ws, "scriptsdir", "scripts");
        let docker_dir = str_entry(ws, "dockerdir", "docker");
        let cache_dir = str_entry(ws, "cachedir", ".cache");
        let builds: Option<&Json> = data.get("builds");
        let empty: Vec<String> = Vec::new();
        assert(empty@.map_values(|p: String| p@) =~= Seq::<Seq<char>>::empty());
        let supported = list_entry(builds, "supported", empty)?;
        let docker: Option<&Json> = data.get("docker");
        let docker_enabled = str_entry(docker, "enabled", "false");
        let docker_image = str_entry(docker, "image", BAKERY_DOCKER_IMAGE);
        let docker_tag = str_entry(docker, "tag", BAKERY_DOCKER_TAG);
        let docker_registry = str_entry(docker, "registry", BAKERY_DOCKER_REGISTRY);
        let mut default_args: Vec<String> = Vec::new();
        default_args.push("--rm=true".to_string());
        default_args.push("-t".to_string());
        assert(default_args@.map_values(|p: String| p@) =~= default_docker_args());
        let docker_args = list_entry(docker, "args", default_args)?;
        Ok(WsSettings {
            version,
            configs_dir,
            builds_dir,
            artifacts_dir,
            include_dir,
            scripts_dir,
            docker_dir,
            cache_dir,
            supported,
            docker_tag,
            docker_image,
            docker_registry,
            docker_args,
            docker_enabled,
        })
    }
}

} // verus!
