//! The build configurations that a build configuration includes.
use vstd::prelude::*;

use crate::configs::config::{get_array_value, parse, quoted};
use crate::configs::task::list_member;
use crate::error::BError;
use crate::json::{spec_parse_json, Json};
use crate::paths::{join, spec_join};
use crate::text::texts;
use crate::workspace::WsSettingsHandler;

verus! {

/// The files of the included build configurations.
pub struct WsIncludeData {
    configs: Vec<String>,
}

impl View for WsIncludeData {
    type V = Seq<Seq<char>>;

    closed spec fn view(&self) -> Seq<Seq<char>> {
        texts(self.configs@)
    }
}

/// The file of the included configuration `name`: `name.json` in the include directory.
pub open spec fn include_path(include_dir: Seq<char>, name: Seq<char>) -> Seq<char> {
    spec_join(include_dir, name + ".json"@)
}

impl WsIncludeData {
    /// What reading the `include` list of `data` gives.
    pub open spec fn from_value_result(data: Json, settings: WsSettingsHandler, res: Result<Self, BError>) -> bool {
        let dir = spec_join(settings.spec_work_dir(), settings.spec_settings().include_dir@);
        match list_member(data, "include"@) {
            None => res matches Err(e) && e is ParseError && e.message() == quoted("Failed to read array '"@, "include"@),
            Some(names) => res matches Ok(d) && d@.len() == names.len()
                && forall|i: int| 0 <= i < names.len() ==> #[trigger] d@[i] == include_path(dir, names[i]),
        }
    }

    /// Reads the `include` list from the text of a build configuration.
    pub fn from_str(json_string: &str, settings: &WsSettingsHandler) -> (res: Result<Self, BError>)
        ensures
            match spec_parse_json(json_string@) {
                Ok(data) => Self::from_value_result(data, *settings, res),
                Err(m) => res matches Err(e) && e is ParseError && e.message() == "Failed to parse JSON: "@ + m,
            },
    {
        let data: Json = parse(json_string)?;
        Self::from_value(&data, settings)
    }

    /// Reads the `include` list of a build configuration (empty when missing).
    pub fn from_value(data: &Json, settings: &WsSettingsHandler) -> (res: Result<Self, BError>)
        ensures
            Self::from_value_result(*data, *settings, res),
    {
        let empty: Vec<String> = Vec::new();
        assert(texts(empty@) =~= Seq::<Seq<char>>::empty());
        let names: Vec<String> = get_array_value("include", data, Some(empty))?;
        let dir = settings.include_dir();
        let mut configs: Vec<String> = Vec::new();
        let mut i: usize = 0;
        while i < names.len()
            invariant
                i <= names.len(),
                configs@.len() == i,
                forall|j: int| 0 <= j < i ==> #[trigger] configs@[j]@ == include_path(dir@, names@[j]@),
            decreases names.len() - i,
        {
            let file = names[i].clone().concat(".json");
            configs.push(join(dir.as_str(), file.as_str()));
            i = i + 1;
        }
        let res = WsIncludeData { configs };
        proof {
            assert forall|j: int| 0 <= j < names@.len() implies #[trigger] res@[j] == include_path(dir@, texts(names@)[j]) by {}
        }
        Ok(res)
    }

    /// The files of the included configurations, in order.
    pub fn configs(&self) -> (res: &Vec<String>)
        ensures
            texts(res@) == self@,
    {
        &self.configs
    }
}

} // verus!
