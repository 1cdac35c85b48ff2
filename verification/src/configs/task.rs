//! A task of a build configuration (the older `TaskConfig` record).
//!
//! ```json
//! { "index": "0", "name": "image", "type": "bitbake", "disabled": "false",
//!   "builddir": "...", "build": "...", "clean": "...", "docker": "...",
//!   "condition": "true", "recipes": [ "rpi-image", "rpi-image:do_populate_sdk" ] }
//! ```
use vstd::prelude::*;

use crate::configs::config::{get_array_value, get_str_value, parse, quoted, spec_str_member, str_items};
use crate::configs::context::{spec_expand, Context};
use crate::error::BError;
use crate::json::{spec_get, spec_parse_json, Json};
use crate::text::str_eq;

verus! {

/// The kind of a task.
#[derive(Clone, Copy, Debug, PartialEq, Eq, Structural)]
pub enum TType {
    Bitbake,
    NonBitbake,
}

/// A task: what to build, where, and how.
pub struct TaskConfig {
    pub index: String,
    pub name: String,
    pub ttype: TType,
    pub disabled: String,
    pub builddir: String,
    pub build: String,
    pub docker: String,
    pub condition: String,
    pub clean: String,
    pub recipes: Vec<String>,
}

/// The string member `key` of `data`, or `default`.
pub open spec fn member_or(data: Json, key: Seq<char>, default: Seq<char>) -> Seq<char> {
    match spec_str_member(data, key) {
        Some(s) => s,
        None => default,
    }
}

/// The string list member `key` of `data`; empty when missing, `None` when not an array.
pub open spec fn list_member(data: Json, key: Seq<char>) -> Option<Seq<Seq<char>>> {
    match spec_get(data, key) {
        Some(Json::Array(items)) => Some(str_items(items@)),
        Some(_) => None,
        None => Some(seq![]),
    }
}

/// The task kind that a `type` entry names.
pub open spec fn spec_ttype(t: Seq<char>) -> Option<TType> {
    if t == "bitbake"@ {
        Some(TType::Bitbake)
    } else if t == "non-bitbake"@ {
        Some(TType::NonBitbake)
    } else {
        None
    }
}

/// Whether reading a task from `data` fails: an entry is missing or of the wrong kind,
/// the type is unknown, or a bitbake task names no recipe.
pub open spec fn task_fails(data: Json) -> bool {
    let ttype = member_or(data, "type"@, "bitbake"@);
    ||| spec_str_member(data, "index"@) is None
    ||| spec_str_member(data, "name"@) is None
    ||| list_member(data, "recipes"@) is None
    ||| spec_ttype(ttype) is None
    ||| (list_member(data, "recipes"@) == Some(Seq::<Seq<char>>::empty()) && ttype == "bitbake"@)
}

impl TaskConfig {
    /// What [`TaskConfig::from_value`] gives for `data`.
    pub open spec fn from_value_result(data: Json, res: Result<Self, BError>) -> bool {
        let ttype = member_or(data, "type"@, "bitbake"@);
        if spec_str_member(data, "index"@) is None {
            res matches Err(e) && e is ValueError && e.message() == quoted("Failed to read string value '"@, "index"@)
        } else if spec_str_member(data, "name"@) is None {
            res matches Err(e) && e is ValueError && e.message() == quoted("Failed to read string value '"@, "name"@)
        } else if list_member(data, "recipes"@) is None {
            res matches Err(e) && e is ParseError && e.message() == quoted("Failed to read array '"@, "recipes"@)
        } else if spec_ttype(ttype) is None {
            res matches Err(e) && e is ParseTasksError && e.message() == quoted("Invalid type '"@, ttype)
        } else if list_member(data, "recipes"@) == Some(Seq::<Seq<char>>::empty()) && ttype == "bitbake"@ {
            res matches Err(e) && e is ParseTasksError
                && e.message() == "The 'bitbake' type requires at least one entry in 'recipes'"@
        } else {
            res matches Ok(t) && {
                &&& spec_str_member(data, "index"@) == Some(t.index@)
                &&& spec_str_member(data, "name"@) == Some(t.name@)
                &&& spec_ttype(ttype) == Some(t.ttype)
                &&& t.disabled@ == member_or(data, "disabled"@, "false"@)
                &&& t.builddir@ == member_or(data, "builddir"@, seq![])
                &&& t.docker@ == member_or(data, "docker"@, seq![])
                &&& t.condition@ == member_or(data, "condition"@, "true"@)
                &&& t.build@ == member_or(data, "build"@, seq![])
                &&& t.clean@ == member_or(data, "clean"@, seq![])
                &&& list_member(data, "recipes"@) == Some(t.recipes@.map_values(|p: String| p@))
            }
        }
    }

    /// Reads a task from the text of its JSON node.
    pub fn from_str(json_string: &str) -> (res: Result<Self, BError>)
        ensures
            match spec_parse_json(json_string@) {
                Ok(data) => Self::from_value_result(data, res),
                Err(m) => res matches Err(e) && e is ParseError && e.message() == "Failed to parse JSON: "@ + m,
            },
    {
        let data: Json = parse(json_string)?;
        Self::from_value(&data)
    }

    /// Reads a task from its JSON node.
    pub fn from_value(data: &Json) -> (res: Result<Self, BError>)
        ensures
            Self::from_value_result(*data, res),
    {
        proof {
            reveal_strlit("bitbake");
            reveal_strlit("non-bitbake");
            reveal_strlit("The 'bitbake' type requires at least one entry in 'recipes'");
        }
        let index: String = get_str_value("index", data, None)?;
        let name: String = get_str_value("name", data, None)?;
        let ttype: String = get_str_value("type", data, Some("bitbake".to_string()))?;
        let disabled: String = get_str_value("disabled", data, Some("false".to_string()))?;
        let builddir: String = get_str_value("builddir", data, Some(String::new()))?;
        let docker: String = get_str_value("docker", data, Some(String::new()))?;
        let condition: String = get_str_value("condition", data, Some("true".to_string()))?;
        let build: String = get_str_value("build", data, Some(String::new()))?;
        let clean: String = get_str_value("clean", data, Some(String::new()))?;
        let empty: Vec<String> = Vec::new();
        assert(empty@.map_values(|p: String| p@) =~= Seq::<Seq<char>>::empty());
        let recipes: Vec<String> = get_array_value("recipes", data, Some(empty))?;
        let enum_ttype: TType;
        if str_eq(ttype.as_str(), "bitbake") {
            enum_ttype = TType::Bitbake;
        } else if str_eq(ttype.as_str(), "non-bitbake") {
            enum_ttype = TType::NonBitbake;
        } else {
            return Err(BError::ParseTasksError(crate::configs::config::quoted_msg("Invalid type '", ttype.as_str())));
        }
        if recipes.len() == 0 && str_eq(ttype.as_str(), "bitbake") {
            assert(recipes@.map_values(|p: String| p@) =~= Seq::<Seq<char>>::empty());
            return Err(BError::ParseTasksError("The 'bitbake' type requires at least one entry in 'recipes'".to_string()));
        }
        proof {
            if recipes@.map_values(|p: String| p@) == Seq::<Seq<char>>::empty() {
                assert(recipes@.map_values(|p: String| p@).len() == recipes@.len());
            }
        }
        Ok(TaskConfig { index, name, ttype: enum_ttype, disabled, builddir, build, docker, condition, clean, recipes })
    }

    /// Expands the context variables in the build directory, the build and clean
    /// commands, the condition and each recipe; the other entries are kept.
    pub fn expand_ctx(&mut self, ctx: &Context)
        ensures
            final(self).builddir@ == spec_expand(ctx@, old(self).builddir@),
            final(self).build@ == spec_expand(ctx@, old(self).build@),
            final(self).clean@ == spec_expand(ctx@, old(self).clean@),
            final(self).condition@ == spec_expand(ctx@, old(self).condition@),
            final(self).recipes@.len() == old(self).recipes@.len(),
            forall|i: int| 0 <= i < old(self).recipes@.len() ==> #[trigger] final(self).recipes@[i]@ == spec_expand(ctx@, old(self).recipes@[i]@),
            final(self).index == old(self).index,
            final(self).name == old(self).name,
            final(self).ttype == old(self).ttype,
            final(self).disabled == old(self).disabled,
            final(self).docker == old(self).docker,
    {
        self.builddir = ctx.expand_str(self.builddir.as_str());
        self.build = ctx.expand_str(self.build.as_str());
        self.clean = ctx.expand_str(self.clean.as_str());
        self.condition = ctx.expand_str(self.condition.as_str());
        let mut recipes: Vec<String> = Vec::new();
        let mut i: usize = 0;
        while i < self.recipes.len()
            invariant
                i <= self.recipes.len(),
                self.recipes == old(self).recipes,
                recipes@.len() == i,
                forall|j: int| 0 <= j < i ==> #[trigger] recipes@[j]@ == spec_expand(ctx@, old(self).recipes@[j]@),
            decreases self.recipes.len() - i,
        {
            let r = ctx.expand_str(self.recipes[i].as_str());
            recipes.push(r);
            i = i + 1;
        }
        self.recipes = recipes;
    }
}

} // verus!
