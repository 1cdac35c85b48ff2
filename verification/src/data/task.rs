//! A task of a build configuration as the executers see it: its kind, where it builds,
//! the commands that build and clean it, and the environment it gets.
use vstd::prelude::*;
use indexmap::IndexMap;

use crate::configs::config::{get_hashmap_value, get_str_value, get_u32_value, pair_entries, parse, quoted, quoted_msg, spec_str_member, spec_u32_member};
use crate::configs::context::{spec_expand, Context};
use crate::configs::task::member_or;
use crate::data::product::str_or_default;
use crate::error::BError;
use crate::imap::{index_map_entries, map_entries, map_set_index_value};
use crate::json::{spec_get, spec_parse_json, Json};
use crate::paths::{join, spec_join};
use crate::text::str_eq;
use crate::data::build_data::WsBuildData;

verus! {

/// The kind of a task.
#[derive(Clone, Copy, Debug, PartialEq, Eq, Structural)]
pub enum TType {
    NonHLOS,
    QSSI,
    VENDOR,
    KERNEL,
}

/// The task kind that a `type` entry names.
pub open spec fn spec_task_type(t: Seq<char>) -> Option<TType> {
    if t == "non-hlos"@ {
        Some(TType::NonHLOS)
    } else if t == "kernel"@ {
        Some(TType::KERNEL)
    } else if t == "vendor"@ {
        Some(TType::VENDOR)
    } else if t == "qssi"@ {
        Some(TType::QSSI)
    } else {
        None
    }
}

/// The pairs of the `env` list of a task node (empty when there is none).
pub open spec fn env_member(data: Json) -> Seq<(Seq<char>, Seq<char>)> {
    match spec_get(data, "env"@) {
        Some(Json::Array(items)) => pair_entries(items@),
        _ => seq![],
    }
}

/// The texts that count as a true `condition`.
pub open spec fn spec_truthy(c: Seq<char>) -> bool {
    c.len() == 0 || c == "1"@ || c == "yes"@ || c == "y"@ || c == "Y"@ || c == "true"@
        || c == "YES"@ || c == "TRUE"@ || c == "True"@ || c == "Yes"@
}

/// A task of a build configuration.
pub struct WsTaskData {
    pub index: u32,
    pub name: String,
    pub ttype: TType,
    pub disabled: String,
    pub build_dir: String,
    pub init_env: String,
    pub build: String,
    pub docker: String,
    pub condition: String,
    pub clean: String,
    pub description: String,
    pub env: IndexMap<String, String>,
}

impl WsTaskData {
    /// The task read from `data` for a workspace at `work_dir`, once every entry was read.
    pub open spec fn read_as(self, data: Json, work_dir: Seq<char>) -> bool {
        &&& spec_u32_member(data, "index"@) == Some(Some(self.index))
        &&& spec_str_member(data, "name"@) == Some(self.name@)
        &&& spec_task_type(member_or(data, "type"@, "vendor"@)) == Some(self.ttype)
        &&& self.disabled@ == member_or(data, "disabled"@, "false"@)
        &&& self.build_dir@ == spec_join(work_dir, member_or(data, "builddir"@, ""@))
        &&& self.init_env@ == spec_join(self.build_dir@, member_or(data, "initenv"@, ""@))
        &&& self.build@ == member_or(data, "build"@, ""@)
        &&& self.docker@ == member_or(data, "docker"@, ""@)
        &&& self.condition@ == member_or(data, "condition"@, "true"@)
        &&& self.clean@ == member_or(data, "clean"@, ""@)
        &&& self.description@ == member_or(data, "description"@, "NA"@)
        &&& index_map_entries(self.env) == env_member(data)
    }

    /// What reading the task node `data` for a workspace at `work_dir` gives: the first
    /// entry that cannot be read decides the error.
    pub open spec fn new_result(data: Json, work_dir: Seq<char>, res: Result<Self, BError>) -> bool {
        match spec_u32_member(data, "index"@) {
            None => res matches Err(e) && e is ValueError
                && e.message() == quoted("Failed to read u32 value '"@, "index"@),
            Some(None) => res matches Err(e) && e is ParseError
                && e.message() == quoted("Failed to parse u32 value '"@, "index"@),
            Some(Some(_)) => if spec_str_member(data, "name"@) is None {
                res matches Err(e) && e is ValueError && e.message() == quoted("Failed to read string value '"@, "name"@)
            } else if spec_get(data, "env"@) matches Some(v) && !(v is Array) {
                res matches Err(e) && e is ParseError
                    && e.message() == quoted("Failed to parse hashmap. Error when reading object '"@, "env"@)
            } else if spec_task_type(member_or(data, "type"@, "vendor"@)) is None {
                res matches Err(e) && e is ParseTasksError
                    && e.message() == quoted("Invalid type '"@, member_or(data, "type"@, "vendor"@))
            } else {
                res matches Ok(t) && t.read_as(data, work_dir)
            },
        }
    }

    /// Reads a task from the text of its node, for the workspace of `build_data`.
    pub fn from_str(json_string: &str, build_data: &WsBuildData) -> (res: Result<Self, BError>)
        ensures
            match spec_parse_json(json_string@) {
                Ok(data) => Self::new_result(data, build_data.settings.spec_work_dir(), res),
                Err(m) => res matches Err(e) && e is ParseError && e.message() == "Failed to parse JSON: "@ + m,
            },
    {
        let data: Json = parse(json_string)?;
        Self::from_value(&data, build_data)
    }

    /// Reads a task from its node, for the workspace of `build_data`.
    pub fn from_value(data: &Json, build_data: &WsBuildData) -> (res: Result<Self, BError>)
        ensures
            Self::new_result(*data, build_data.settings.spec_work_dir(), res),
    {
        let work_dir = build_data.settings().work_dir();
        Self::new(data, work_dir.as_str())
    }

    /// Reads a task from its node; its directories are taken relative to `work_dir`.
    pub fn new(data: &Json, work_dir: &str) -> (res: Result<Self, BError>)
        ensures
            Self::new_result(*data, work_dir@, res),
    {
        proof {
            reveal_strlit("vendor");
            reveal_strlit("non-hlos");
            reveal_strlit("kernel");
            reveal_strlit("qssi");
        }
        let index: u32 = get_u32_value("index", data, None)?;
        let name: String = get_str_value("name", data, None)?;
        let ttype = str_or_default("type", data, "vendor".to_string());
        let disabled = str_or_default("disabled", data, "false".to_string());
        let build_dir = str_or_default("builddir", data, "".to_string());
        let docker = str_or_default("docker", data, "".to_string());
        let condition = str_or_default("condition", data, "true".to_string());
        let build = str_or_default("build", data, "".to_string());
        let clean = str_or_default("clean", data, "".to_string());
        let init_env = str_or_default("initenv", data, "".to_string());
        let description = str_or_default("description", data, "NA".to_string());
        let env: IndexMap<String, String> = get_hashmap_value("env", data)?;
        let t = ttype.as_str();
        let enum_ttype = if str_eq(t, "non-hlos") {
            TType::NonHLOS
        } else if str_eq(t, "kernel") {
            TType::KERNEL
        } else if str_eq(t, "vendor") {
            TType::VENDOR
        } else if str_eq(t, "qssi") {
            TType::QSSI
        } else {
            return Err(BError::ParseTasksError(quoted_msg("Invalid type '", t)));
        };
        let build_dir_path = join(work_dir, build_dir.as_str());
        let init_env_path = join(build_dir_path.as_str(), init_env.as_str());
        Ok(WsTaskData {
            index,
            name,
            ttype: enum_ttype,
            disabled,
            build_dir: build_dir_path,
            init_env: init_env_path,
            build,
            docker,
            condition,
            clean,
            description,
            env,
        })
    }

    /// Expands the context variables in the name, the directories, the commands, the
    /// condition, the `disabled` flag and the values of the environment.
    pub fn expand_ctx(&mut self, ctx: &Context)
        ensures
            final(self).index == old(self).index,
            final(self).ttype == old(self).ttype,
            final(self).name@ == spec_expand(ctx@, old(self).name@),
            final(self).build_dir@ == spec_expand(ctx@, old(self).build_dir@),
            final(self).init_env@ == spec_expand(ctx@, old(self).init_env@),
            final(self).build@ == spec_expand(ctx@, old(self).build@),
            final(self).clean@ == spec_expand(ctx@, old(self).clean@),
            final(self).condition@ == spec_expand(ctx@, old(self).condition@),
            final(self).disabled@ == spec_expand(ctx@, old(self).disabled@),
            final(self).docker@ == old(self).docker@,
            final(self).description@ == old(self).description@,
            index_map_entries(final(self).env) == index_map_entries(old(self).env).map_values(
                |p: (Seq<char>, Seq<char>)| (p.0, spec_expand(ctx@, p.1))),
    {
        self.name = ctx.expand_str(self.name.as_str());
        self.build_dir = ctx.expand_str(self.build_dir.as_str());
        self.init_env = ctx.expand_str(self.init_env.as_str());
        self.build = ctx.expand_str(self.build.as_str());
        self.clean = ctx.expand_str(self.clean.as_str());
        self.condition = ctx.expand_str(self.condition.as_str());
        self.disabled = ctx.expand_str(self.disabled.as_str());
        expand_values(&mut self.env, ctx);
    }

    /// The position of the task among the tasks of its build configuration.
    pub fn index(&self) -> (res: u32)
        ensures
            res == self.index,
    {
        self.index
    }

    /// The name.
    pub fn name(&self) -> (res: &str)
        ensures
            res@ == self.name@,
    {
        self.name.as_str()
    }

    /// The kind.
    pub fn ttype(&self) -> (res: &TType)
        ensures
            *res == self.ttype,
    {
        &self.ttype
    }

    /// The description.
    pub fn description(&self) -> (res: &str)
        ensures
            res@ == self.description@,
    {
        self.description.as_str()
    }

    /// Whether the task is switched off: its `disabled` entry reads `true`.
    pub fn disabled(&self) -> (res: bool)
        ensures
            res == (self.disabled@ == "true"@),
    {
        str_eq(self.disabled.as_str(), "true")
    }

    /// The docker image the task asks for (empty when none).
    pub fn docker_image(&self) -> (res: &str)
        ensures
            res@ == self.docker@,
    {
        self.docker.as_str()
    }

    /// Whether the task's condition holds: an empty condition does, and so do `1`, `y`,
    /// `yes` and `true` in the spellings listed in [`spec_truthy`]; anything else does not.
    pub fn condition(&self) -> (res: bool)
        ensures
            res == spec_truthy(self.condition@),
    {
        let c = self.condition.as_str();
        c.is_empty() || str_eq(c, "1") || str_eq(c, "yes") || str_eq(c, "y") || str_eq(c, "Y")
            || str_eq(c, "true") || str_eq(c, "YES") || str_eq(c, "TRUE") || str_eq(c, "True")
            || str_eq(c, "Yes")
    }

    /// The build directory.
    pub fn build_dir(&self) -> (res: &str)
        ensures
            res@ == self.build_dir@,
    {
        self.build_dir.as_str()
    }

    /// The file that sets up the build environment.
    pub fn init_env(&self) -> (res: &str)
        ensures
            res@ == self.init_env@,
    {
        self.init_env.as_str()
    }

    /// The command that builds the task.
    pub fn build_cmd(&self) -> (res: &str)
        ensures
            res@ == self.build@,
    {
        self.build.as_str()
    }

    /// The command that cleans the task.
    pub fn clean_cmd(&self) -> (res: &str)
        ensures
            res@ == self.clean@,
    {
        self.clean.as_str()
    }

    /// The environment variables of the task.
    pub fn env(&self) -> (res: &IndexMap<String, String>)
        ensures
            index_map_entries(*res) == index_map_entries(self.env),
    {
        &self.env
    }
}

/// Expands each value of `m` with `ctx`; the keys and their order stay.
fn expand_values(m: &mut IndexMap<String, String>, ctx: &Context)
    ensures
        index_map_entries(*final(m)) == index_map_entries(*old(m)).map_values(
            |p: (Seq<char>, Seq<char>)| (p.0, spec_expand(ctx@, p.1))),
{
    let pairs = map_entries(m);
    let ghost es = index_map_entries(*m);
    let mut i: usize = 0;
    while i < pairs.len()
        invariant
            i <= pairs.len(),
            pairs@.map_values(|p: (String, String)| (p.0@, p.1@)) == es,
            index_map_entries(*m).len() == es.len(),
            forall|j: int| 0 <= j < es.len() ==> #[trigger] index_map_entries(*m)[j] == (if j < i {
                (es[j].0, spec_expand(ctx@, es[j].1)) } else { es[j] }),
        decreases pairs.len() - i,
    {
        let v = ctx.expand_str(pairs[i].1.as_str());
        map_set_index_value(m, i, v);
        i = i + 1;
    }
    assert(index_map_entries(*m) =~= es.map_values(|p: (Seq<char>, Seq<char>)| (p.0, spec_expand(ctx@, p.1))));
}

} // verus!
