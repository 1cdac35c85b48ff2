//! A build configuration read as a whole: its name and version, the product, the bitbake
//! part, the included configurations and the context, with the built-in variables that
//! the configuration and the workspace give.
use vstd::prelude::*;
use indexmap::IndexMap;

use crate::configs::config::parse;
use crate::configs::context::{ascii_keys_lowered, Context};
use crate::configs::task::{list_member, member_or, task_fails, TType, TaskConfig};
use crate::data::artifact::WsArtifactData;
use crate::data::subcmd::WsSubCmdData;
use crate::json::spec_as_str;
use crate::order::{in_order, is_ordered, keeps_ties, pairs_of, put_in_order, strictly_numbered};
use crate::text::{parse_usize, spec_parse_usize};
use crate::data::bitbake::{bb_node, spec_build_dir, WsBitbakeData};
use crate::data::context::{
    context_pairs, default_entries, default_pairs, keeps, lemma_default_codes,
    lemma_default_distinct, lemma_default_entries, lemma_insert_new, lemma_update_frame, lemma_update_pairs,
    lowercase_unique, not_set_by, updated, var_value, WsContextData, CTX_KEY_ARCH, CTX_KEY_ARTIFACTS_DIR, CTX_KEY_BB_BUILD_DIR, CTX_KEY_BB_DEPLOY_DIR,
    CTX_KEY_BUILDS_DIR, CTX_KEY_DATE, CTX_KEY_DISTRO, CTX_KEY_LAYERS_DIR, CTX_KEY_MACHINE, CTX_KEY_NAME,
    CTX_KEY_PRODUCT_NAME, CTX_KEY_PROJECT_NAME, CTX_KEY_SCRIPTS_DIR, CTX_KEY_TIME, CTX_KEY_WORK_DIR,
};
use crate::data::includes::WsIncludeData;
use crate::data::product::{spec_product, str_or_default, WsProductData};
use crate::error::BError;
use crate::imap::{entries_insert, index_map_entries, map_insert, map_new};
use crate::json::{spec_get, spec_parse_json, Json};
use crate::paths::{join, spec_join};
use crate::text::{ascii_lowered, is_ascii_text, spec_lowercase, str_eq};
use crate::workspace::WsSettingsHandler;

verus! {

/// The built-in variables that the configuration `data` and the workspace give a build,
/// in the order they are set, with the date and time of the build.
pub open spec fn built_in_entries(data: Json, settings: WsSettingsHandler, date: Seq<char>, time: Seq<char>) -> Seq<(Seq<char>, Seq<char>)> {
    let p = spec_product(data);
    let bb = bb_node(data);
    let w = settings.spec_work_dir();
    let s = settings.spec_settings();
    let e = entries_insert(seq![], CTX_KEY_MACHINE@, member_or(bb, "machine"@, "NA"@));
    let e = entries_insert(e, CTX_KEY_ARCH@, p.arch);
    let e = entries_insert(e, CTX_KEY_DISTRO@, member_or(bb, "distro"@, "NA"@));
    let e = entries_insert(e, CTX_KEY_NAME@, p.name);
    let e = entries_insert(e, CTX_KEY_PRODUCT_NAME@, p.product);
    let e = entries_insert(e, CTX_KEY_PROJECT_NAME@, p.project);
    let e = entries_insert(e, CTX_KEY_ARTIFACTS_DIR@, spec_join(w, s.artifacts_dir@));
    let e = entries_insert(e, CTX_KEY_LAYERS_DIR@, spec_join(w, "layers"@));
    let e = entries_insert(e, CTX_KEY_SCRIPTS_DIR@, spec_join(w, s.scripts_dir@));
    let e = entries_insert(e, CTX_KEY_BUILDS_DIR@, spec_join(w, s.builds_dir@));
    let e = entries_insert(e, CTX_KEY_WORK_DIR@, w);
    let e = entries_insert(e, CTX_KEY_DATE@, date);
    entries_insert(e, CTX_KEY_TIME@, time)
}

/// The bitbake directories of a build: the build directory of the product and, inside
/// it, the deploy directory.
pub open spec fn bitbake_entries(data: Json, settings: WsSettingsHandler) -> Seq<(Seq<char>, Seq<char>)> {
    let builds = spec_join(settings.spec_work_dir(), settings.spec_settings().builds_dir@);
    let build_dir = spec_join(builds, spec_product(data).name);
    let deploy_dir = spec_join(build_dir, spec_join(spec_join(builds, member_or(data, "name"@, "NA"@)),
        member_or(bb_node(data), "deploydir"@, "tmp/deploy/images"@)));
    let e = entries_insert(seq![], CTX_KEY_BB_BUILD_DIR@, build_dir);
    entries_insert(e, CTX_KEY_BB_DEPLOY_DIR@, deploy_dir)
}

/// The position of a task among the tasks: its `index` entry read as a number.
pub open spec fn task_index(t: Json) -> Option<usize> {
    match spec_get(t, "index"@) {
        Some(v) => match spec_as_str(v) {
            Some(s) => spec_parse_usize(s),
            None => None,
        },
        None => None,
    }
}

/// Whether the task node `t` cannot be taken: it cannot be read, or its index is not a
/// number.
pub open spec fn task_bad(t: Json) -> bool {
    task_fails(t) || task_index(t) is None
}

/// The first of `es` that cannot be taken, if any.
pub open spec fn first_bad_task(es: Seq<(String, Json)>) -> Option<int>
    decreases es.len(),
{
    if es.len() == 0 {
        None
    } else {
        match first_bad_task(es.drop_last()) {
            Some(i) => Some(i),
            None => if task_bad(es.last().1) { Some(es.len() - 1) } else { None },
        }
    }
}

/// The first of `items` that is not an artifact that can be read, if any.
pub open spec fn first_bad_artifact(items: Seq<Json>) -> Option<int>
    decreases items.len(),
{
    if items.len() == 0 {
        None
    } else {
        match first_bad_artifact(items.drop_last()) {
            Some(i) => Some(i),
            None => if crate::data::artifact::artifact_data_error(items.last()) is Some {
                Some(items.len() - 1)
            } else {
                None
            },
        }
    }
}

/// Each task numbered by its index, with its position.
pub open spec fn numbered_tasks(es: Seq<(String, Json)>) -> Seq<(int, int)> {
    Seq::new(es.len(), |i: int| (task_index(es[i].1)->0 as int, i))
}

/// The kinds of artifacts and sub-commands that a build configuration may define.
pub open spec fn subcmd_names() -> Seq<Seq<char>> {
    seq!["deploy"@, "upload"@, "setup"@, "sync"@]
}

/// The names among `names` that the configuration `data` has a member for, in order.
pub open spec fn defined_names(data: Json, names: Seq<Seq<char>>) -> Seq<Seq<char>>
    decreases names.len(),
{
    if names.len() == 0 {
        seq![]
    } else {
        let before = defined_names(data, names.drop_last());
        if spec_get(data, names.last()) is Some { before.push(names.last()) } else { before }
    }
}

/// `v` holds the first `n` built-in sub-commands of the configuration `data`, in order.
pub open spec fn subcmds_read(data: Json, v: Seq<(String, WsSubCmdData)>, n: int) -> bool {
    v.len() == n && forall|k: int| 0 <= k < n ==> {
        &&& #[trigger] v[k].0@ == subcmd_names()[k]
        &&& v[k].1@ == WsSubCmdData::spec_of(subcmd_names()[k], WsSubCmdData::node_of(subcmd_names()[k], data))
    }
}

/// A build configuration read as a whole.
pub struct WsBuildData {
    pub name: String,
    pub version: String,
    pub product: WsProductData,
    pub bitbake: WsBitbakeData,
    pub included: WsIncludeData,
    pub context: WsContextData,
    pub settings: WsSettingsHandler,
}

/// How the build's date is written: year, month and day.
pub const DATE_FORMAT: &'static str = "%Y-%m-%d";

/// How the build's time is written: hours and minutes.
pub const TIME_FORMAT: &'static str = "%H:%M";

/// The format patterns the build uses, which chrono can always write.
pub open spec fn known_format(f: Seq<char>) -> bool {
    f == DATE_FORMAT@ || f == TIME_FORMAT@
}

/// `chrono::offset::Local::now()`, read once and written with `date_format` and with
/// `time_format`. The result depends on the clock and the time zone of the machine:
/// nothing is stated of it. Writing with a pattern that chrono cannot parse panics, so
/// only the build's own patterns are admitted.
#[verifier::external_body]
fn local_date_time(date_format: &str, time_format: &str) -> (res: (String, String))
    requires
        known_format(date_format@),
        known_format(time_format@),
{
    let now = chrono::offset::Local::now();
    (now.format(date_format).to_string(), now.format(time_format).to_string())
}

impl WsBuildData {
    /// The build read from `data` in the workspace of `settings`, at `date` and `time`,
    /// once every part was read.
    pub open spec fn read_as(self, data: Json, settings: WsSettingsHandler, date: Seq<char>, time: Seq<char>) -> bool {
        let ctx0 = crate::data::context::from_value_context(data);
        &&& self.name@ == member_or(data, "name"@, "NA"@)
        &&& self.version@ == member_or(data, "version"@, "NA"@)
        &&& self.product@ == spec_product(data)
        &&& WsBitbakeData::from_value_result(data, settings, Ok(self.bitbake))
        &&& WsIncludeData::from_value_result(data, settings, Ok(self.included))
        &&& self.context@ == updated(updated(ctx0, built_in_entries(data, settings, date, time)),
            bitbake_entries(data, settings))
        &&& self.settings.spec_work_dir() == settings.spec_work_dir()
        &&& self.settings.spec_settings().same_as(settings.spec_settings())
    }

    /// The context of the build read from `data` at `date` and `time` holds each of its
    /// built-in variables and bitbake directories that has a value and that the
    /// configuration's `context` list does not set.
    pub open spec fn reads_built_ins(self, data: Json, settings: WsSettingsHandler, date: Seq<char>, time: Seq<char>) -> bool {
        let bp = built_in_pairs(data, settings, date, time);
        let bb = bitbake_entries(data, settings);
        &&& forall|i: int| 0 <= i < bp.len() && bp[i].1.len() > 0 && not_set_by(context_pairs(data), bp[i].0)
            ==> var_value(self.context@, #[trigger] bp[i].0) == bp[i].1
        &&& forall|j: int| 0 <= j < bb.len() && bb[j].1.len() > 0 && not_set_by(context_pairs(data), bb[j].0)
            ==> var_value(self.context@, #[trigger] bb[j].0) == bb[j].1
    }

    /// What reading the build configuration `data` at `date` and `time` gives: the first
    /// part that cannot be read decides the error.
    pub open spec fn new_result(data: Json, settings: WsSettingsHandler, date: Seq<char>, time: Seq<char>,
        res: Result<Self, BError>) -> bool
    {
        let bb = bb_node(data);
        if list_member(bb, "bblayersconf"@) is None || list_member(bb, "localconf"@) is None {
            res matches Err(e) && WsBitbakeData::from_value_result(data, settings, Err(e))
        } else if list_member(data, "include"@) is None {
            res matches Err(e) && WsIncludeData::from_value_result(data, settings, Err(e))
        } else if spec_get(data, "context"@) matches Some(v) && !(v is Array) {
            res matches Err(e) && WsContextData::from_value_result(data, Err(e))
        } else {
            res matches Ok(b) && b.read_as(data, settings, date, time)
        }
    }

    /// Reads a build configuration from its text, in the workspace of `settings`, at the
    /// present date and time.
    pub fn from_str(json_config: &str, settings: &WsSettingsHandler) -> (res: Result<Self, BError>)
        ensures
            match spec_parse_json(json_config@) {
                Ok(data) => exists|date: Seq<char>, time: Seq<char>| Self::new_result(data, *settings, date, time, res)
                    && (res matches Ok(b) ==> b.reads_built_ins(data, *settings, date, time)),
                Err(m) => res matches Err(e) && e is ParseError && e.message() == "Failed to parse JSON: "@ + m,
            },
    {
        let data: Json = parse(json_config)?;
        Self::new(&data, settings)
    }

    /// Reads a build configuration at the present date and time (see
    /// [`WsBuildData::at`]).
    pub fn new(data: &Json, settings: &WsSettingsHandler) -> (res: Result<Self, BError>)
        ensures
            exists|date: Seq<char>, time: Seq<char>| Self::new_result(*data, *settings, date, time, res)
                && (res matches Ok(b) ==> b.reads_built_ins(*data, *settings, date, time)),
    {
        let (date, time) = local_date_time(DATE_FORMAT, TIME_FORMAT);
        let r = Self::at(data, settings, date.as_str(), time.as_str());
        assert(Self::new_result(*data, *settings, date@, time@, r)
            && (r matches Ok(b) ==> b.reads_built_ins(*data, *settings, date@, time@)));
        r
    }

    /// Reads a build configuration as of `date` and `time`: each part, then the context,
    /// which gets the built-in variables of the configuration and the workspace, then the
    /// bitbake directories.
    pub fn at(data: &Json, settings: &WsSettingsHandler, date: &str, time: &str) -> (res: Result<Self, BError>)
        ensures
            Self::new_result(*data, *settings, date@, time@, res),
            res matches Ok(b) ==> b.reads_built_ins(*data, *settings, date@, time@),
    {
        let name = str_or_default("name", data, "NA".to_string());
        let version = str_or_default("version", data, "NA".to_string());
        let product = match WsProductData::from_value(data) {
            Ok(p) => p,
            Err(e) => return Err(e),
        };
        let bitbake = WsBitbakeData::from_value(data, settings)?;
        let included = WsIncludeData::from_value(data, settings)?;
        let mut context = WsContextData::from_value(data)?;
        let ghost ctx0 = context@;
        let mut built_in: IndexMap<String, String> = map_new();
        map_insert(&mut built_in, CTX_KEY_MACHINE.to_string(), bitbake.machine().to_string());
        map_insert(&mut built_in, CTX_KEY_ARCH.to_string(), product.arch().to_string());
        map_insert(&mut built_in, CTX_KEY_DISTRO.to_string(), bitbake.distro().to_string());
        map_insert(&mut built_in, CTX_KEY_NAME.to_string(), product.name().to_string());
        map_insert(&mut built_in, CTX_KEY_PRODUCT_NAME.to_string(), product.product().to_string());
        map_insert(&mut built_in, CTX_KEY_PROJECT_NAME.to_string(), product.project().to_string());
        map_insert(&mut built_in, CTX_KEY_ARTIFACTS_DIR.to_string(), settings.artifacts_dir());
        map_insert(&mut built_in, CTX_KEY_LAYERS_DIR.to_string(), settings.layers_dir());
        map_insert(&mut built_in, CTX_KEY_SCRIPTS_DIR.to_string(), settings.scripts_dir());
        map_insert(&mut built_in, CTX_KEY_BUILDS_DIR.to_string(), settings.builds_dir());
        map_insert(&mut built_in, CTX_KEY_WORK_DIR.to_string(), settings.work_dir());
        map_insert(&mut built_in, CTX_KEY_DATE.to_string(), date.to_string());
        map_insert(&mut built_in, CTX_KEY_TIME.to_string(), time.to_string());
        context.update(&built_in);
        let bb_build_dir = join(settings.builds_dir().as_str(), product.name());
        let bb_deploy_dir = join(bb_build_dir.as_str(), bitbake.deploy_dir().as_str());
        let mut bb_dirs: IndexMap<String, String> = map_new();
        map_insert(&mut bb_dirs, CTX_KEY_BB_BUILD_DIR.to_string(), bb_build_dir);
        map_insert(&mut bb_dirs, CTX_KEY_BB_DEPLOY_DIR.to_string(), bb_deploy_dir);
        context.update(&bb_dirs);
        proof {
            let bp = built_in_pairs(*data, *settings, date@, time@);
            assert forall|i: int| 0 <= i < bp.len() && bp[i].1.len() > 0 && not_set_by(context_pairs(*data), bp[i].0)
                implies var_value(context@, #[trigger] bp[i].0) == bp[i].1 by {
                lemma_built_in_stored(ctx0, *data, *settings, date@, time@, i);
            }
            let bb = bitbake_entries(*data, *settings);
            assert forall|j: int| 0 <= j < bb.len() && bb[j].1.len() > 0 && not_set_by(context_pairs(*data), bb[j].0)
                implies var_value(context@, #[trigger] bb[j].0) == bb[j].1 by {
                lemma_bitbake_stored(ctx0, *data, *settings, date@, time@, j);
            }
        }
        Ok(WsBuildData { name, version, product, bitbake, included, context, settings: settings.clone() })
    }

    /// Reads a task node.
    pub fn get_task(&self, data: &Json) -> (res: Result<TaskConfig, BError>)
        ensures
            TaskConfig::from_value_result(*data, res),
    {
        TaskConfig::from_value(data)
    }

    /// The tasks of the configuration `data`, in order of their index (tasks with the
    /// same index in the order they are written): none without a `tasks` node, an
    /// error when it is not an object, or at the first task that cannot be read or
    /// whose index is not a number.
    pub fn get_tasks(&self, data: &Json) -> (res: Result<Vec<(String, TaskConfig)>, BError>)
        ensures
            match spec_get(*data, "tasks"@) {
                None => res matches Ok(v) && v@.len() == 0,
                Some(Json::Object(es)) => match first_bad_task(es@) {
                    Some(i) => res matches Err(e) && if task_fails(es@[i].1) {
                        TaskConfig::from_value_result(es@[i].1, Err(e))
                    } else {
                        e is ParseError && e.message() == "Missing or invalid index"@
                    },
                    None => res matches Ok(v) && v@.len() == es@.len() && forall|k: int| 0 <= k < v@.len() ==> {
                        let pos = #[trigger] in_order(numbered_tasks(es@))[k].1;
                        &&& 0 <= pos < es@.len()
                        &&& v@[k].0@ == es@[pos].0@
                        &&& TaskConfig::from_value_result(es@[pos].1, Ok(v@[k].1))
                    },
                },
                Some(_) => res matches Err(e) && e is ParseTasksError
                    && e.message() == "No 'tasks' node found in build config"@,
            },
    {
        let node: &Json = match data.get("tasks") {
            Some(n) => n,
            None => return Ok(Vec::new()),
        };
        let es: &Vec<(String, Json)> = match node {
            Json::Object(es) => es,
            _ => return Err(BError::ParseTasksError("No 'tasks' node found in build config".to_string())),
        };
        let mut numbered: Vec<(usize, usize)> = Vec::new();
        let mut i: usize = 0;
        while i < es.len()
            invariant
                i <= es.len(),
                spec_get(*data, "tasks"@) == Some(Json::Object(*es)),
                first_bad_task(es@.take(i as int)) is None,
                pairs_of(numbered@) == numbered_tasks(es@).take(i as int),
            decreases es.len() - i,
        {
            assert(es@.take(i as int + 1).drop_last() == es@.take(i as int));
            assert(es@.take(i as int + 1).last() == es@[i as int]);
            let t = &es[i].1;
            match self.get_task(t) {
                Ok(_) => {},
                Err(e) => {
                    proof { lemma_first_bad_at(es@, i as int); }
                    return Err(e);
                },
            }
            let index: Option<usize> = match t.get("index") {
                Some(v) => match v.as_str() {
                    Some(s) => parse_usize(s),
                    None => None,
                },
                None => None,
            };
            match index {
                Some(n) => {
                    assert(task_index(es@[i as int].1) == Some(n));
                    assert(numbered_tasks(es@)[i as int] == (n as int, i as int));
                    assert(numbered_tasks(es@).take(i as int + 1) == numbered_tasks(es@).take(i as int).push((n as int, i as int)));
                    numbered.push((n, i));
                    assert(pairs_of(numbered@) =~= numbered_tasks(es@).take(i as int + 1));
                },
                None => {
                    proof {
                        reveal_strlit("Missing or invalid index");
                        lemma_first_bad_at(es@, i as int);
                    }
                    return Err(BError::ParseError("Missing or invalid index".to_string()));
                },
            }
            i = i + 1;
        }
        assert(es@.take(es.len() as int) == es@);
        assert(numbered_tasks(es@).take(es.len() as int) == numbered_tasks(es@));
        let order = put_in_order(&numbered);
        proof {
            crate::order::lemma_in_order_sorts(numbered_tasks(es@));
            lemma_positions_in_range(es@);
        }
        let ghost ord = in_order(numbered_tasks(es@));
        let mut out: Vec<(String, TaskConfig)> = Vec::new();
        let mut k: usize = 0;
        while k < order.len()
            invariant
                k <= order.len(),
                pairs_of(order@) == ord,
                ord == in_order(numbered_tasks(es@)),
                ord.len() == es@.len(),
                forall|j: int| 0 <= j < ord.len() ==> 0 <= #[trigger] ord[j].1 < es@.len(),
                first_bad_task(es@) is None,
                out@.len() == k,
                forall|j: int| 0 <= j < k ==> {
                    let pos = #[trigger] ord[j].1;
                    &&& out@[j].0@ == es@[pos].0@
                    &&& TaskConfig::from_value_result(es@[pos].1, Ok(out@[j].1))
                },
            decreases order.len() - k,
        {
            let pos: usize = order[k].1;
            assert(ord[k as int] == (order@[k as int].0 as int, order@[k as int].1 as int));
            assert(0 <= ord[k as int].1 < es@.len());
            proof { lemma_no_bad_at(es@, pos as int); }
            let t = match self.get_task(&es[pos].1) {
                Ok(t) => t,
                Err(e) => return Err(e),
            };
            out.push((es[pos].0.clone(), t));
            k = k + 1;
        }
        Ok(out)
    }

    /// Reads an artifact node.
    pub fn get_artifact(&self, data: &Json) -> (res: Result<WsArtifactData, BError>)
        ensures
            WsArtifactData::new_result(*data, res),
    {
        WsArtifactData::from_value(data)
    }

    /// The artifacts of a task node, each with the task's build directory that it is
    /// collected from: none without an `artifacts` entry, an error when it is not an
    /// array or at the first artifact that cannot be read.
    pub fn get_artifacts(&self, data: &Json, task_build_dir: &str) -> (res: Result<Vec<(WsArtifactData, String)>, BError>)
        ensures
            match spec_get(*data, "artifacts"@) {
                None => res matches Ok(v) && v@.len() == 0,
                Some(Json::Array(items)) => match first_bad_artifact(items@) {
                    Some(k) => res matches Err(e) && WsArtifactData::new_result(items@[k], Err(e)),
                    None => res matches Ok(v) && v@.len() == items@.len() && forall|k: int| 0 <= k < v@.len() ==>
                        WsArtifactData::new_result(items@[k], Ok((#[trigger] v@[k]).0)) && v@[k].1@ == task_build_dir@,
                },
                Some(_) => res matches Err(e) && e is ParseArtifactsError
                    && e.message() == "No 'artifacts' array node found in build config"@,
            },
    {
        let node: &Json = match data.get("artifacts") {
            Some(n) => n,
            None => return Ok(Vec::new()),
        };
        let items: &Vec<Json> = match node {
            Json::Array(items) => items,
            _ => return Err(BError::ParseArtifactsError("No 'artifacts' array node found in build config".to_string())),
        };
        let mut out: Vec<(WsArtifactData, String)> = Vec::new();
        let mut k: usize = 0;
        while k < items.len()
            invariant
                k <= items.len(),
                spec_get(*data, "artifacts"@) == Some(Json::Array(*items)),
                first_bad_artifact(items@.take(k as int)) is None,
                out@.len() == k,
                forall|j: int| 0 <= j < k ==> WsArtifactData::new_result(items@[j], Ok((#[trigger] out@[j]).0))
                    && out@[j].1@ == task_build_dir@,
            decreases items.len() - k,
        {
            match self.get_artifact(&items[k]) {
                Ok(a) => out.push((a, task_build_dir.to_string())),
                Err(e) => {
                    proof {
                        lemma_first_bad_artifact_at(items@, k as int);
                    }
                    return Err(e);
                },
            }
            assert(items@.take(k as int + 1).drop_last() == items@.take(k as int));
            k = k + 1;
        }
        assert(items@.take(items.len() as int) == items@);
        Ok(out)
    }

    /// The built-in sub-commands of the configuration `data`, each with its command.
    pub fn get_subcmds(&self, data: &Json) -> (res: Result<Vec<(String, WsSubCmdData)>, BError>)
        ensures
            res matches Ok(v) && subcmds_read(*data, v@, 4),
    {
        let mut out: Vec<(String, WsSubCmdData)> = Vec::new();
        let names = crate::text::strings2("deploy", "upload");
        let more = crate::text::strings2("setup", "sync");
        let mut all = names;
        crate::text::extend_strings(&mut all, more);
        assert(crate::text::texts(all@) =~= subcmd_names());
        assert(all@.len() == 4);
        let mut k: usize = 0;
        while k < all.len()
            invariant
                k <= all.len(),
                crate::text::texts(all@) == subcmd_names(),
                all@.len() == 4,
                subcmds_read(*data, out@, k as int),
            decreases all.len() - k,
        {
            assert(crate::text::texts(all@)[k as int] == all@[k as int]@);
            let sub = match WsSubCmdData::from_value(all[k].as_str(), data) {
                Ok(s) => s,
                Err(e) => return Err(e),
            };
            out.push((all[k].clone(), sub));
            k = k + 1;
        }
        Ok(out)
    }

    /// The built-in sub-commands that the configuration `data` defines (those it has a
    /// member for), in order, each with its command; the others are left out, so that
    /// merging configurations only takes the sub-commands each one defines.
    pub fn defined_subcmds(&self, data: &Json) -> (res: Vec<(String, WsSubCmdData)>)
        ensures
            crate::configs::handler::entry_names(res@) == defined_names(*data, subcmd_names()),
            forall|k: int| 0 <= k < res@.len() ==> (#[trigger] res@[k]).1@
                == WsSubCmdData::spec_of(res@[k].0@, WsSubCmdData::node_of(res@[k].0@, *data)),
    {
        let all = match self.get_subcmds(data) {
            Ok(v) => v,
            Err(_) => Vec::new(),
        };
        let mut rest = all;
        let ghost allv = rest@;
        let n = rest.len();
        let mut out: Vec<(String, WsSubCmdData)> = Vec::new();
        let mut k: usize = 0;
        while rest.len() > 0
            invariant
                n == 4,
                k + rest@.len() == n,
                subcmds_read(*data, allv, 4),
                rest@ == allv.subrange(k as int, 4),
                crate::configs::handler::entry_names(out@) == defined_names(*data, subcmd_names().take(k as int)),
                forall|j: int| 0 <= j < out@.len() ==> (#[trigger] out@[j]).1@
                    == WsSubCmdData::spec_of(out@[j].0@, WsSubCmdData::node_of(out@[j].0@, *data)),
            decreases rest@.len(),
        {
            let e = rest.remove(0);
            assert(e == allv[k as int]);
            assert(allv[k as int].0@ == subcmd_names()[k as int]);
            assert(subcmd_names().take(k as int + 1).drop_last() =~= subcmd_names().take(k as int));
            assert(subcmd_names().take(k as int + 1).last() == subcmd_names()[k as int]);
            let ghost before = out@;
            if data.get(e.0.as_str()).is_some() {
                out.push(e);
                assert(crate::configs::handler::entry_names(out@)
                    =~= crate::configs::handler::entry_names(before).push(allv[k as int].0@));
            }
            k = k + 1;
            assert(rest@ =~= allv.subrange(k as int, 4));
        }
        assert(subcmd_names().take(4) =~= subcmd_names());
        out
    }

    /// The directory the task `t` builds in: the bitbake build directory for a bitbake
    /// task, else its `builddir` under the workspace root.
    pub open spec fn spec_task_build_dir(self, t: TaskConfig) -> Seq<char> {
        match t.ttype {
            TType::Bitbake => spec_build_dir(self.bitbake@),
            TType::NonBitbake => spec_join(self.settings.spec_work_dir(), t.builddir@),
        }
    }

    /// The directory the task `t` builds in (see [`WsBuildData::spec_task_build_dir`]).
    pub fn task_build_dir(&self, t: &TaskConfig) -> (res: String)
        ensures
            res@ == self.spec_task_build_dir(*t),
    {
        match t.ttype {
            TType::Bitbake => self.bitbake.build_dir(),
            TType::NonBitbake => join(self.settings.work_dir().as_str(), t.builddir.as_str()),
        }
    }

    /// The files of the included configurations, in order.
    pub fn included_configs(&self) -> (res: Vec<String>)
        ensures
            crate::text::texts(res@) == self.included@,
    {
        self.included.configs().clone()
    }

    /// The name of the build configuration.
    pub fn name(&self) -> (res: &str)
        ensures
            res@ == self.name@,
    {
        self.name.as_str()
    }

    /// The version of the build configuration format.
    pub fn version(&self) -> (res: &str)
        ensures
            res@ == self.version@,
    {
        self.version.as_str()
    }

    /// Whether the build configuration names its version, product and description.
    pub fn valid(&self) -> (res: bool)
        ensures
            res == (self.version@ != "NA"@ && self.product@.name != "NA"@ && self.product@.description != "NA"@),
    {
        !str_eq(self.version.as_str(), "NA") && !str_eq(self.product.name(), "NA")
            && !str_eq(self.product.description(), "NA")
    }

    /// The workspace.
    pub fn settings(&self) -> (res: &WsSettingsHandler)
        ensures
            *res == self.settings,
    {
        &self.settings
    }

    /// The context.
    pub fn context(&self) -> (res: &WsContextData)
        ensures
            *res == self.context,
    {
        &self.context
    }

    /// Sets the variables of `context` in the build's context (see
    /// [`WsContextData::update`]).
    pub fn update_ctx(&mut self, context: &Context)
        ensures
            final(self).context@ == updated(old(self).context@, context@),
            final(self).name == old(self).name,
            final(self).version == old(self).version,
            final(self).product == old(self).product,
            final(self).bitbake == old(self).bitbake,
    {
        self.context.update_ctx(context);
    }

    /// Expands the context variables in the bitbake part.
    pub fn expand_ctx(&mut self) -> (res: Result<(), BError>)
        ensures
            res is Ok,
            final(self).context == old(self).context,
            final(self).bitbake@ == (crate::data::bitbake::BitbakeView {
                machine: crate::configs::context::spec_expand(old(self).context@, old(self).bitbake@.machine),
                distro: crate::configs::context::spec_expand(old(self).context@, old(self).bitbake@.distro),
                docker: crate::configs::context::spec_expand(old(self).context@, old(self).bitbake@.docker),
                deploy_dir: crate::configs::context::spec_expand(old(self).context@, old(self).bitbake@.deploy_dir),
                ..old(self).bitbake@
            }),
    {
        self.bitbake.expand_ctx(self.context.ctx());
        Ok(())
    }

    /// The product data.
    pub fn product(&self) -> (res: &WsProductData)
        ensures
            *res == self.product,
    {
        &self.product
    }

    /// The bitbake part.
    pub fn bitbake(&self) -> (res: &WsBitbakeData)
        ensures
            *res == self.bitbake,
    {
        &self.bitbake
    }
}

/// The tasks that [`WsBuildData::get_tasks`] gives come in order of their index, each
/// task once, and tasks with the same index in the order they are written.
pub proof fn lemma_tasks_in_index_order(es: Seq<(String, Json)>)
    ensures
        is_ordered(in_order(numbered_tasks(es))),
        in_order(numbered_tasks(es)).to_multiset() == numbered_tasks(es).to_multiset(),
        keeps_ties(in_order(numbered_tasks(es))),
{
    let n = numbered_tasks(es);
    crate::order::lemma_in_order_sorts(n);
    assert(strictly_numbered(n));
    crate::order::lemma_in_order_stable(n);
}

/// Where the tasks before `i` can all be taken and the one at `i` cannot, it is the first
/// that cannot.
proof fn lemma_first_bad_at(es: Seq<(String, Json)>, i: int)
    requires
        0 <= i < es.len(),
        first_bad_task(es.take(i)) is None,
        task_bad(es[i].1),
    ensures
        first_bad_task(es) == Some(i),
    decreases es.len(),
{
    if i < es.len() - 1 {
        assert(es.drop_last().take(i) == es.take(i));
        lemma_first_bad_at(es.drop_last(), i);
    } else {
        assert(es.drop_last() == es.take(i));
    }
}

/// Where the artifacts before `i` can all be read and the one at `i` cannot, it is the
/// first that cannot.
proof fn lemma_first_bad_artifact_at(items: Seq<Json>, i: int)
    requires
        0 <= i < items.len(),
        first_bad_artifact(items.take(i)) is None,
        crate::data::artifact::artifact_data_error(items[i]) is Some,
    ensures
        first_bad_artifact(items) == Some(i),
    decreases items.len(),
{
    if i < items.len() - 1 {
        assert(items.drop_last().take(i) == items.take(i));
        lemma_first_bad_artifact_at(items.drop_last(), i);
    } else {
        assert(items.drop_last() == items.take(i));
    }
}

/// Where no task is bad, none at any position is.
proof fn lemma_no_bad_at(es: Seq<(String, Json)>, i: int)
    requires
        0 <= i < es.len(),
        first_bad_task(es) is None,
    ensures
        !task_bad(es[i].1),
    decreases es.len(),
{
    if i < es.len() - 1 {
        lemma_no_bad_at(es.drop_last(), i);
    }
}

/// Each entry of the ordered tasks is the position of a task.
proof fn lemma_positions_in_range(es: Seq<(String, Json)>)
    ensures
        forall|j: int| 0 <= j < in_order(numbered_tasks(es)).len() ==> 0 <= #[trigger] in_order(numbered_tasks(es))[j].1 < es.len(),
{
    let n = numbered_tasks(es);
    crate::order::lemma_in_order_sorts(n);
    assert forall|j: int| 0 <= j < in_order(n).len() implies 0 <= #[trigger] in_order(n)[j].1 < es.len() by {
        broadcast use vstd::seq_lib::group_seq_properties;
        let x = in_order(n)[j];
        assert(in_order(n).contains(x));
        assert(in_order(n).to_multiset().count(x) > 0);
        assert(n.to_multiset().count(x) > 0);
        assert(n.contains(x));
        let m = choose|m: int| 0 <= m < n.len() && n[m] == x;
        assert(n[m].1 == m);
    }
}


/// The built-in variables that the configuration `data` and the workspace give a build,
/// one pair per variable, in the order they are set.
pub open spec fn built_in_pairs(data: Json, settings: WsSettingsHandler, date: Seq<char>, time: Seq<char>) -> Seq<(Seq<char>, Seq<char>)> {
    let p = spec_product(data);
    let bb = bb_node(data);
    let w = settings.spec_work_dir();
    let s = settings.spec_settings();
    seq![
        (CTX_KEY_MACHINE@, member_or(bb, "machine"@, "NA"@)),
        (CTX_KEY_ARCH@, p.arch),
        (CTX_KEY_DISTRO@, member_or(bb, "distro"@, "NA"@)),
        (CTX_KEY_NAME@, p.name),
        (CTX_KEY_PRODUCT_NAME@, p.product),
        (CTX_KEY_PROJECT_NAME@, p.project),
        (CTX_KEY_ARTIFACTS_DIR@, spec_join(w, s.artifacts_dir@)),
        (CTX_KEY_LAYERS_DIR@, spec_join(w, "layers"@)),
        (CTX_KEY_SCRIPTS_DIR@, spec_join(w, s.scripts_dir@)),
        (CTX_KEY_BUILDS_DIR@, spec_join(w, s.builds_dir@)),
        (CTX_KEY_WORK_DIR@, w),
        (CTX_KEY_DATE@, date),
        (CTX_KEY_TIME@, time)
    ]
}

/// The place of the `a`-th built-in variable of a build among all the built-in variables.
pub open spec fn built_in_index(a: int) -> int {
    if a == 0 {
        0
    } else if a == 1 {
        1
    } else if a == 2 {
        2
    } else if a == 3 {
        5
    } else if a == 4 {
        3
    } else if a == 5 {
        4
    } else if a == 6 {
        8
    } else if a == 7 {
        9
    } else if a == 8 {
        10
    } else if a == 9 {
        11
    } else if a == 10 {
        12
    } else if a == 11 {
        24
    } else if a == 12 {
        23
    } else {
        0
    }
}

/// The built-in variables of a build are built-in variables with an empty default, other
/// than the bitbake directories, each named once.
proof fn lemma_built_in_keys(data: Json, settings: WsSettingsHandler, date: Seq<char>, time: Seq<char>)
    ensures
        forall|a: int| 0 <= a < built_in_pairs(data, settings, date, time).len() ==> {
            let k = #[trigger] built_in_index(a);
            &&& 0 <= k < default_pairs().len() && k != 6 && k != 7
            &&& built_in_pairs(data, settings, date, time)[a].0 == default_pairs()[k].0
            &&& default_pairs()[k].1 == ""@
        },
        forall|a: int, b: int| 0 <= a < 13 && 0 <= b < 13 && a != b
            ==> #[trigger] built_in_index(a) != #[trigger] built_in_index(b),
{
    let bp = built_in_pairs(data, settings, date, time);
    let p = default_pairs();
    assert forall|a: int| 0 <= a < bp.len() implies {
        let k = #[trigger] built_in_index(a);
        &&& 0 <= k < p.len() && k != 6 && k != 7
        &&& bp[a].0 == p[k].0
        &&& p[k].1 == ""@
    } by {
        reveal_strlit("");
    }
}

/// Setting the next built-in variable of a build adds it last.
proof fn lemma_built_in_step(data: Json, settings: WsSettingsHandler, date: Seq<char>, time: Seq<char>, n: int)
    requires
        0 <= n < 13,
    ensures
        entries_insert(built_in_pairs(data, settings, date, time).take(n), built_in_pairs(data, settings, date, time)[n].0,
            built_in_pairs(data, settings, date, time)[n].1) == built_in_pairs(data, settings, date, time).take(n + 1),
{
    let bp = built_in_pairs(data, settings, date, time);
    lemma_built_in_keys(data, settings, date, time);
    lemma_default_distinct();
    assert forall|j: int| 0 <= j < bp.take(n).len() implies #[trigger] bp.take(n)[j].0 != bp[n].0 by {
        assert(bp.take(n)[j] == bp[j]);
        assert(built_in_index(j) != built_in_index(n));
    }
    lemma_insert_new(bp.take(n), bp[n].0, bp[n].1);
    assert(bp.take(n).push(bp[n]) =~= bp.take(n + 1));
}

/// The built-in variables of a build are set one after the other, each as a new variable.
#[verifier::rlimit(50)]
proof fn lemma_built_in_entries(data: Json, settings: WsSettingsHandler, date: Seq<char>, time: Seq<char>)
    ensures
        built_in_entries(data, settings, date, time) == built_in_pairs(data, settings, date, time),
{
    let bp = built_in_pairs(data, settings, date, time);
    assert(bp.take(0) =~= Seq::<(Seq<char>, Seq<char>)>::empty());
    lemma_built_in_step(data, settings, date, time, 0);
    lemma_built_in_step(data, settings, date, time, 1);
    lemma_built_in_step(data, settings, date, time, 2);
    lemma_built_in_step(data, settings, date, time, 3);
    lemma_built_in_step(data, settings, date, time, 4);
    lemma_built_in_step(data, settings, date, time, 5);
    lemma_built_in_step(data, settings, date, time, 6);
    lemma_built_in_step(data, settings, date, time, 7);
    lemma_built_in_step(data, settings, date, time, 8);
    lemma_built_in_step(data, settings, date, time, 9);
    lemma_built_in_step(data, settings, date, time, 10);
    lemma_built_in_step(data, settings, date, time, 11);
    lemma_built_in_step(data, settings, date, time, 12);
    assert(bp.take(13) =~= bp);
}

/// The bitbake directories of a build are set one after the other.
proof fn lemma_bitbake_entries(data: Json, settings: WsSettingsHandler)
    ensures
        bitbake_entries(data, settings) == seq![
            (default_pairs()[6].0, bitbake_entries(data, settings)[0].1),
            (default_pairs()[7].0, bitbake_entries(data, settings)[1].1)],
{
    lemma_default_distinct();
    let p = default_pairs();
    assert(p[6].0 == CTX_KEY_BB_BUILD_DIR@ && p[7].0 == CTX_KEY_BB_DEPLOY_DIR@);
    let e0 = Seq::<(Seq<char>, Seq<char>)>::empty();
    lemma_insert_new(e0, p[6].0, seq![]);
    let builds = spec_join(settings.spec_work_dir(), settings.spec_settings().builds_dir@);
    let build_dir = spec_join(builds, spec_product(data).name);
    let deploy_dir = spec_join(build_dir, spec_join(spec_join(builds, member_or(data, "name"@, "NA"@)),
        member_or(bb_node(data), "deploydir"@, "tmp/deploy/images"@)));
    lemma_insert_new(e0, p[6].0, build_dir);
    let e1 = e0.push((p[6].0, build_dir));
    assert forall|j: int| 0 <= j < e1.len() implies #[trigger] e1[j].0 != p[7].0 by {
        assert(e1[j].0 == p[6].0);
    }
    lemma_insert_new(e1, p[7].0, deploy_dir);
    assert(bitbake_entries(data, settings) =~= e1.push((p[7].0, deploy_dir)));
}

/// No two built-in variables of a build share the lowercase form of a name.
proof fn lemma_built_in_unique(data: Json, settings: WsSettingsHandler, date: Seq<char>, time: Seq<char>)
    requires
        ascii_keys_lowered(default_entries()),
    ensures
        lowercase_unique(built_in_pairs(data, settings, date, time)),
{
    let bp = built_in_pairs(data, settings, date, time);
    let p = default_pairs();
    lemma_built_in_keys(data, settings, date, time);
    lemma_default_entries();
    lemma_default_distinct();
    lemma_default_codes();
    assert forall|a: int, b: int| 0 <= a < b < bp.len()
        implies spec_lowercase(#[trigger] bp[a].0) != spec_lowercase(#[trigger] bp[b].0) by {
        let ka = built_in_index(a);
        let kb = built_in_index(b);
        assert(bp[a].0 == p[ka].0 && bp[b].0 == p[kb].0);
        assert(is_ascii_text(p[ka].0) && is_ascii_text(p[kb].0));
        assert(ascii_lowered(p[ka].0) != ascii_lowered(p[kb].0));
    }
}

/// Setting the bitbake directories of a build leaves its other built-in variables as
/// they were.
proof fn lemma_bitbake_entries_frame(vars: Seq<(Seq<char>, Seq<char>)>, data: Json, settings: WsSettingsHandler,
    date: Seq<char>, time: Seq<char>, i: int)
    requires
        ascii_keys_lowered(default_entries()),
        0 <= i < built_in_pairs(data, settings, date, time).len(),
    ensures
        var_value(updated(vars, bitbake_entries(data, settings)), built_in_pairs(data, settings, date, time)[i].0)
            == var_value(vars, built_in_pairs(data, settings, date, time)[i].0),
{
    let bp = built_in_pairs(data, settings, date, time);
    let p = default_pairs();
    lemma_built_in_keys(data, settings, date, time);
    lemma_bitbake_entries(data, settings);
    lemma_default_entries();
    lemma_default_distinct();
    lemma_default_codes();
    let ki = built_in_index(i);
    let bb = bitbake_entries(data, settings);
    assert forall|j: int| 0 <= j < bb.len() && (#[trigger] bb[j]).1.len() > 0
        implies spec_lowercase(bb[j].0) != spec_lowercase(bp[i].0) by {
        let kj = if j == 0 { 6int } else { 7int };
        assert(bb[j].0 == p[kj].0);
        assert(bp[i].0 == p[ki].0);
        assert(is_ascii_text(p[ki].0) && is_ascii_text(p[kj].0));
        assert(ascii_lowered(p[ki].0) != ascii_lowered(p[kj].0));
    }
    lemma_update_frame(vars, bb, bp[i].0);
}

/// Each built-in variable of a build that has a value and that the build
/// configuration's `context` list does not set reads that value once the build is read.
proof fn lemma_built_in_stored(ctx0: Seq<(Seq<char>, Seq<char>)>, data: Json, settings: WsSettingsHandler,
    date: Seq<char>, time: Seq<char>, i: int)
    requires
        ascii_keys_lowered(default_entries()),
        forall|k: int| 0 <= k < default_pairs().len() && not_set_by(context_pairs(data), default_pairs()[k].0)
            ==> var_value(ctx0, #[trigger] default_pairs()[k].0) == default_pairs()[k].1,
        0 <= i < built_in_pairs(data, settings, date, time).len(),
        built_in_pairs(data, settings, date, time)[i].1.len() > 0,
        not_set_by(context_pairs(data), built_in_pairs(data, settings, date, time)[i].0),
    ensures
        var_value(updated(updated(ctx0, built_in_entries(data, settings, date, time)), bitbake_entries(data, settings)),
            built_in_pairs(data, settings, date, time)[i].0) == built_in_pairs(data, settings, date, time)[i].1,
{
    let bp = built_in_pairs(data, settings, date, time);
    lemma_built_in_keys(data, settings, date, time);
    lemma_built_in_entries(data, settings, date, time);
    let ki = built_in_index(i);
    reveal_strlit("");
    assert(bp[i].0 == default_pairs()[ki].0);
    assert(var_value(ctx0, default_pairs()[ki].0) == default_pairs()[ki].1);
    assert(var_value(ctx0, bp[i].0).len() == 0);
    assert(keeps(ctx0, bp[i].0, bp[i].1));
    lemma_built_in_unique(data, settings, date, time);
    lemma_update_pairs(ctx0, bp, i);
    lemma_bitbake_entries_frame(updated(ctx0, bp), data, settings, date, time, i);
}

/// The bitbake directories of a build, when they have a value and the build
/// configuration's `context` list does not set them, read that value once the build is
/// read.
proof fn lemma_bitbake_stored(ctx0: Seq<(Seq<char>, Seq<char>)>, data: Json, settings: WsSettingsHandler,
    date: Seq<char>, time: Seq<char>, j: int)
    requires
        ascii_keys_lowered(default_entries()),
        forall|k: int| 0 <= k < default_pairs().len() && not_set_by(context_pairs(data), default_pairs()[k].0)
            ==> var_value(ctx0, #[trigger] default_pairs()[k].0) == default_pairs()[k].1,
        0 <= j < bitbake_entries(data, settings).len(),
        bitbake_entries(data, settings)[j].1.len() > 0,
        not_set_by(context_pairs(data), bitbake_entries(data, settings)[j].0),
    ensures
        var_value(updated(updated(ctx0, built_in_entries(data, settings, date, time)), bitbake_entries(data, settings)),
            bitbake_entries(data, settings)[j].0) == bitbake_entries(data, settings)[j].1,
{
    let bp = built_in_pairs(data, settings, date, time);
    let bb = bitbake_entries(data, settings);
    let p = default_pairs();
    lemma_built_in_keys(data, settings, date, time);
    lemma_built_in_entries(data, settings, date, time);
    lemma_bitbake_entries(data, settings);
    lemma_default_entries();
    lemma_default_distinct();
    lemma_default_codes();
    reveal_strlit("");
    let kj = if j == 0 { 6int } else { 7int };
    assert(bb[j].0 == p[kj].0);
    assert forall|a: int| 0 <= a < bp.len() && (#[trigger] bp[a]).1.len() > 0
        implies spec_lowercase(bp[a].0) != spec_lowercase(bb[j].0) by {
        let ka = built_in_index(a);
        assert(bp[a].0 == p[ka].0);
        assert(is_ascii_text(p[ka].0) && is_ascii_text(p[kj].0));
        assert(ascii_lowered(p[ka].0) != ascii_lowered(p[kj].0));
    }
    lemma_update_frame(ctx0, bp, bb[j].0);
    assert(var_value(ctx0, p[kj].0) == p[kj].1);
    assert(var_value(updated(ctx0, bp), bb[j].0).len() == 0);
    assert(is_ascii_text(p[6].0) && is_ascii_text(p[7].0));
    assert(ascii_lowered(p[6].0) != ascii_lowered(p[7].0));
    assert(lowercase_unique(bb));
    lemma_update_pairs(updated(ctx0, bp), bb, j);
}

} // verus!
