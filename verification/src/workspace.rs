//! The workspace: its root directory and the settings that lay it out.
use vstd::prelude::*;

use crate::configs::settings::{WsSettings, settings_of};
use crate::error::BError;
use crate::json::Json;
use crate::paths::{join, spec_join};

verus! {

/// The workspace settings together with the directory the workspace lives in; the
/// directories of the settings are taken relative to it.
pub struct WsSettingsHandler {
    work_dir: String,
    ws_settings: WsSettings,
}

impl WsSettingsHandler {
    /// The workspace root.
    pub closed spec fn spec_work_dir(&self) -> Seq<char> {
        self.work_dir@
    }

    /// The settings.
    pub closed spec fn spec_settings(&self) -> WsSettings {
        self.ws_settings
    }

    /// The workspace at `work_dir` laid out by `settings`.
    pub fn new(work_dir: &str, settings: WsSettings) -> (res: Self)
        ensures
            res.spec_work_dir() == work_dir@,
            res.spec_settings() == settings,
    {
        WsSettingsHandler { work_dir: work_dir.to_string(), ws_settings: settings }
    }

    /// What reading the settings text `text` for a workspace at `work_dir` gives.
    pub open spec fn from_str_result(work_dir: Seq<char>, text: Seq<char>, res: Result<Self, BError>) -> bool {
        match crate::json::spec_parse_json(text) {
            Ok(data) => match res {
                Ok(h) => h.spec_work_dir() == work_dir && settings_of(data, h.spec_settings()),
                Err(e) => WsSettings::from_value_result(data, Err(e)),
            },
            Err(m) => res matches Err(e) && e is ParseError && e.message() == "Failed to parse JSON: "@ + m,
        }
    }

    /// The workspace at `work_dir` laid out by the settings in a settings file's text.
    pub fn from_str(work_dir: &str, json_settings: &str) -> (res: Result<Self, BError>)
        ensures
            Self::from_str_result(work_dir@, json_settings@, res),
    {
        let s = WsSettings::from_str(json_settings)?;
        Ok(Self::new(work_dir, s))
    }

    /// A copy.
    pub fn clone(&self) -> (res: Self)
        ensures
            res.spec_work_dir() == self.spec_work_dir(),
            res.spec_settings().same_as(self.spec_settings()),
    {
        WsSettingsHandler { work_dir: self.work_dir.clone(), ws_settings: self.ws_settings.clone() }
    }

    /// The settings.
    pub fn settings(&self) -> (res: &WsSettings)
        ensures
            *res == self.spec_settings(),
    {
        &self.ws_settings
    }

    /// The workspace root.
    pub fn work_dir(&self) -> (res: String)
        ensures
            res@ == self.spec_work_dir(),
    {
        self.work_dir.clone()
    }

    /// Where the build configurations are.
    pub fn configs_dir(&self) -> (res: String)
        ensures
            res@ == spec_join(self.spec_work_dir(), self.spec_settings().configs_dir@),
    {
        join(self.work_dir.as_str(), self.ws_settings.configs_dir.as_str())
    }

    /// Where the build configurations that others include are.
    pub fn include_dir(&self) -> (res: String)
        ensures
            res@ == spec_join(self.spec_work_dir(), self.spec_settings().include_dir@),
    {
        join(self.work_dir.as_str(), self.ws_settings.include_dir.as_str())
    }

    /// Where the builds are.
    pub fn builds_dir(&self) -> (res: String)
        ensures
            res@ == spec_join(self.spec_work_dir(), self.spec_settings().builds_dir@),
    {
        join(self.work_dir.as_str(), self.ws_settings.builds_dir.as_str())
    }

    /// Where the artifacts are collected.
    pub fn artifacts_dir(&self) -> (res: String)
        ensures
            res@ == spec_join(self.spec_work_dir(), self.spec_settings().artifacts_dir@),
    {
        join(self.work_dir.as_str(), self.ws_settings.artifacts_dir.as_str())
    }

    /// Where the scripts are.
    pub fn scripts_dir(&self) -> (res: String)
        ensures
            res@ == spec_join(self.spec_work_dir(), self.spec_settings().scripts_dir@),
    {
        join(self.work_dir.as_str(), self.ws_settings.scripts_dir.as_str())
    }

    /// Where the container files are.
    pub fn docker_dir(&self) -> (res: String)
        ensures
            res@ == spec_join(self.spec_work_dir(), self.spec_settings().docker_dir@),
    {
        join(self.work_dir.as_str(), self.ws_settings.docker_dir.as_str())
    }

    /// Where the caches are.
    pub fn cache_dir(&self) -> (res: String)
        ensures
            res@ == spec_join(self.spec_work_dir(), self.spec_settings().cache_dir@),
    {
        join(self.work_dir.as_str(), self.ws_settings.cache_dir.as_str())
    }

    /// Where the layers are.
    pub fn layers_dir(&self) -> (res: String)
        ensures
            res@ == spec_join(self.spec_work_dir(), "layers"@),
    {
        join(self.work_dir.as_str(), "layers")
    }
}

} // verus!
