//! The lines that the `list` sub-command prints: the build configurations of a
//! workspace, the product and the tasks of one configuration, and its context.
use vstd::prelude::*;

use crate::configs::settings::WsSettings;
use crate::data::build_data::WsBuildData;
use crate::configs::config::get_str_value;
use crate::configs::task::{member_or, TaskConfig};
use crate::json::{parse_json, spec_get, spec_parse_json, Json};
use crate::error::BError;
use crate::imap::map_entries;
use crate::text::{chars_of, str_eq, string_of, texts};

verus! {

/// `n` spaces.
pub open spec fn spaces(n: int) -> Seq<char>
    decreases n,
{
    if n <= 0 { seq![] } else { spaces(n - 1).push(' ') }
}

/// `s` padded with spaces on the right to `width` characters, as `{:<width}` does; a
/// longer text is kept whole.
pub open spec fn padded(s: Seq<char>, width: int) -> Seq<char> {
    s + spaces(width - s.len())
}

/// `s` padded with spaces on the right to `width` characters (see [`padded`]).
pub fn pad_right(s: &str, width: usize) -> (res: String)
    ensures
        res@ == padded(s@, width as int),
{
    let mut cs = chars_of(s);
    let ghost start = cs@;
    let n = cs.len();
    let mut k: usize = n;
    assert(spaces(0) =~= Seq::<char>::empty());
    assert(cs@ =~= start + spaces(k - n));
    while k < width
        invariant
            n <= k,
            k <= width || k == n,
            start == s@,
            n == start.len(),
            cs@ == start + spaces(k - n),
        decreases width - k,
    {
        cs.push(' ');
        assert(spaces(k + 1 - n) == spaces(k - n).push(' '));
        k = k + 1;
    }
    proof {
        if width <= n {
            assert(spaces(width - n) =~= Seq::<char>::empty());
            assert(k == n);
        }
    }
    string_of(cs.as_slice())
}

/// The heading of the list of build configurations.
pub open spec fn spec_config_header() -> Seq<char> {
    padded("NAME"@, 25) + " "@ + padded("DESCRIPTION"@, 52)
}

/// The line of a build configuration.
pub open spec fn spec_config_line(name: Seq<char>, description: Seq<char>) -> Seq<char> {
    padded(name, 25) + " - "@ + padded(description, 50)
}

/// The product of a build configuration, one entry per line.
pub open spec fn spec_build_info(name: Seq<char>, arch: Seq<char>, machine: Seq<char>, description: Seq<char>) -> Seq<char> {
    "name: "@ + name + "\narch: "@ + arch + "\nmachine: "@ + machine + "\ndescription: "@ + description + "\n"@
}

/// The heading of the list of tasks.
pub open spec fn spec_task_header() -> Seq<char> {
    padded("NAME"@, 15) + " "@ + padded("DESCRIPTION"@, 52) + " ENABLED/DISABLED"@
}

/// The line of a task.
pub open spec fn spec_task_line(name: Seq<char>, description: Seq<char>, disabled: bool) -> Seq<char> {
    padded(name, 15) + " - "@ + padded(description, 50) + " ["@
        + (if disabled { "disabled"@ } else { "enabled"@ }) + "]"@
}

/// The heading of the list of build configurations.
pub fn config_header() -> (res: String)
    ensures
        res@ == spec_config_header(),
{
    pad_right("NAME", 25).concat(" ").concat(pad_right("DESCRIPTION", 52).as_str())
}

/// The line of a build configuration: its name and description.
pub fn config_line(name: &str, description: &str) -> (res: String)
    ensures
        res@ == spec_config_line(name@, description@),
{
    pad_right(name, 25).concat(" - ").concat(pad_right(description, 50).as_str())
}

/// The product of a build configuration, one entry per line.
pub fn build_info(name: &str, arch: &str, machine: &str, description: &str) -> (res: String)
    ensures
        res@ == spec_build_info(name@, arch@, machine@, description@),
{
    "name: ".to_string().concat(name).concat("\narch: ").concat(arch).concat("\nmachine: ").concat(machine)
        .concat("\ndescription: ").concat(description).concat("\n")
}

/// The heading of the list of tasks.
pub fn task_header() -> (res: String)
    ensures
        res@ == spec_task_header(),
{
    pad_right("NAME", 15).concat(" ").concat(pad_right("DESCRIPTION", 52).as_str()).concat(" ENABLED/DISABLED")
}

/// The line of a task: its name, description and whether it runs with the build.
pub fn task_line(name: &str, description: &str, disabled: bool) -> (res: String)
    ensures
        res@ == spec_task_line(name@, description@, disabled),
{
    let state = if disabled { "disabled" } else { "enabled" };
    pad_right(name, 15).concat(" - ").concat(pad_right(description, 50).as_str()).concat(" [").concat(state).concat("]")
}

/// `c` in upper case when it is an ASCII lower-case letter, else itself.
pub open spec fn ascii_upper(c: char) -> char {
    if 'a' <= c && c <= 'z' { ((c as int) - 32) as char } else { c }
}

/// The line of a context variable: its name in upper case (ASCII letters only), `=`,
/// its value.
pub open spec fn spec_ctx_line(key: Seq<char>, value: Seq<char>) -> Seq<char> {
    key.map_values(|c: char| ascii_upper(c)) + "="@ + value
}

/// The line of a context variable (see [`spec_ctx_line`]).
pub fn ctx_line(key: &str, value: &str) -> (res: String)
    ensures
        res@ == spec_ctx_line(key@, value@),
{
    let cs = chars_of(key);
    let mut up: Vec<char> = Vec::new();
    let mut i: usize = 0;
    while i < cs.len()
        invariant
            i <= cs.len(),
            cs@ == key@,
            up@ == key@.take(i as int).map_values(|c: char| ascii_upper(c)),
        decreases cs.len() - i,
    {
        let c = cs[i];
        let u: char = if 'a' <= c && c <= 'z' { (((c as u32) - 32) as u8) as char } else { c };
        up.push(u);
        assert(key@.take(i as int + 1).map_values(|c: char| ascii_upper(c))
            =~= key@.take(i as int).map_values(|c: char| ascii_upper(c)).push(ascii_upper(c)));
        i = i + 1;
    }
    assert(key@.take(cs.len() as int) == key@);
    string_of(up.as_slice()).concat("=").concat(value)
}

/// Whether `config` is one of the build configurations that the workspace supports.
pub open spec fn supports(settings: WsSettings, config: Seq<char>) -> bool {
    texts(settings.supported@).contains(config)
}

/// The product lines of a build configuration.
pub open spec fn data_info(data: WsBuildData) -> Seq<char> {
    spec_build_info(data.name@, data.product@.arch, data.bitbake@.machine, data.product@.description)
}

/// The lines listing the build configurations `builds` (name, description).
pub open spec fn config_lines(builds: Seq<(String, String)>) -> Seq<Seq<char>> {
    seq![spec_config_header()] + builds.map_values(|b: (String, String)| spec_config_line(b.0@, b.1@))
}

/// The lines listing the context variables of a build configuration.
pub open spec fn ctx_lines(data: WsBuildData) -> Seq<Seq<char>> {
    seq![data_info(data), "Context variables:"@]
        + data.context@.map_values(|p: (Seq<char>, Seq<char>)| spec_ctx_line(p.0, p.1))
}

/// The node of the task `name` in the `tasks` node of a build configuration.
pub open spec fn task_node(config: Json, name: Seq<char>) -> Option<Json> {
    match spec_get(config, "tasks"@) {
        Some(t) => spec_get(t, name),
        None => None,
    }
}

/// The node of the task `name` in the first of `configs` that defines it.
pub open spec fn first_task_node(configs: Seq<Json>, name: Seq<char>) -> Option<Json>
    decreases configs.len(),
{
    if configs.len() == 0 {
        None
    } else {
        match task_node(configs[0], name) {
            Some(node) => Some(node),
            None => first_task_node(configs.drop_first(), name),
        }
    }
}

/// The description of the task `name`, taken from the first of `configs` that defines
/// the task (its `description` entry, `NA` when it has none); `NA` when none does.
pub open spec fn task_description_in(configs: Seq<Json>, name: Seq<char>) -> Seq<char> {
    match first_task_node(configs, name) {
        Some(node) => member_or(node, "description"@, "NA"@),
        None => "NA"@,
    }
}

/// The line of the task `t` (named by its key), described from `configs`.
pub open spec fn task_row(configs: Seq<Json>, t: (String, TaskConfig)) -> Seq<char> {
    spec_task_line(t.1.name@, task_description_in(configs, t.0@), t.1.disabled@ == "true"@)
}

/// The lines listing the tasks of a build configuration, in the order given, each
/// described from `configs` (the configuration, then the ones it includes).
pub open spec fn tasks_lines(data: WsBuildData, configs: Seq<Json>, tasks: Seq<(String, TaskConfig)>) -> Seq<Seq<char>> {
    seq![data_info(data), spec_task_header()] + tasks.map_values(|t: (String, TaskConfig)| task_row(configs, t))
}

/// Listing the build configurations gives the heading, then exactly one line per build
/// configuration, in the order given.
pub proof fn lemma_config_lines_one_per_build(builds: Seq<(String, String)>)
    ensures
        config_lines(builds).len() == builds.len() + 1,
        config_lines(builds)[0] == spec_config_header(),
        forall|i: int| 0 <= i < builds.len() ==>
            config_lines(builds)[i + 1] == spec_config_line((#[trigger] builds[i]).0@, builds[i].1@),
{
    let rows = builds.map_values(|b: (String, String)| spec_config_line(b.0@, b.1@));
    assert(config_lines(builds) == seq![spec_config_header()] + rows);
    assert forall|i: int| 0 <= i < builds.len() implies
        config_lines(builds)[i + 1] == spec_config_line((#[trigger] builds[i]).0@, builds[i].1@) by {
        assert(rows[i] == spec_config_line(builds[i].0@, builds[i].1@));
    }
}

/// Listing the tasks gives the product and the heading, then exactly one line per task,
/// in the order given, each with the task's name, description and state.
pub proof fn lemma_tasks_lines_one_per_task(data: WsBuildData, configs: Seq<Json>, tasks: Seq<(String, TaskConfig)>)
    ensures
        tasks_lines(data, configs, tasks).len() == tasks.len() + 2,
        tasks_lines(data, configs, tasks)[0] == data_info(data),
        tasks_lines(data, configs, tasks)[1] == spec_task_header(),
        forall|i: int| 0 <= i < tasks.len() ==>
            tasks_lines(data, configs, tasks)[i + 2] == spec_task_line((#[trigger] tasks[i]).1.name@,
                task_description_in(configs, tasks[i].0@), tasks[i].1.disabled@ == "true"@),
{
    let rows = tasks.map_values(|t: (String, TaskConfig)| task_row(configs, t));
    assert(tasks_lines(data, configs, tasks) == seq![data_info(data), spec_task_header()] + rows);
    assert forall|i: int| 0 <= i < tasks.len() implies
        tasks_lines(data, configs, tasks)[i + 2] == spec_task_line((#[trigger] tasks[i]).1.name@,
            task_description_in(configs, tasks[i].0@), tasks[i].1.disabled@ == "true"@) by {
        assert(rows[i] == task_row(configs, tasks[i]));
    }
}

/// Listing the context gives the product and a heading, then exactly one line per
/// context variable, in the context's order.
pub proof fn lemma_ctx_lines_one_per_variable(data: WsBuildData)
    ensures
        ctx_lines(data).len() == data.context@.len() + 2,
        ctx_lines(data)[0] == data_info(data),
        ctx_lines(data)[1] == "Context variables:"@,
        forall|i: int| 0 <= i < data.context@.len() ==>
            ctx_lines(data)[i + 2] == spec_ctx_line((#[trigger] data.context@[i]).0, data.context@[i].1),
{
    let rows = data.context@.map_values(|p: (Seq<char>, Seq<char>)| spec_ctx_line(p.0, p.1));
    assert(ctx_lines(data) == seq![data_info(data), "Context variables:"@] + rows);
    assert forall|i: int| 0 <= i < data.context@.len() implies
        ctx_lines(data)[i + 2] == spec_ctx_line((#[trigger] data.context@[i]).0, data.context@[i].1) by {
        assert(rows[i] == spec_ctx_line(data.context@[i].0, data.context@[i].1));
    }
}

/// A task's node comes from the first configuration that defines the task: the result
/// is the node of some configuration that no earlier one defines, and there is none only
/// when no configuration defines the task.
pub proof fn lemma_first_task_node_first_definer(configs: Seq<Json>, name: Seq<char>)
    ensures
        match first_task_node(configs, name) {
            Some(n) => exists|k: int| 0 <= k < configs.len() && task_node(configs[k], name) == Some(n)
                && forall|j: int| 0 <= j < k ==> (#[trigger] task_node(configs[j], name)) is None,
            None => forall|k: int| 0 <= k < configs.len() ==> (#[trigger] task_node(configs[k], name)) is None,
        },
    decreases configs.len(),
{
    if configs.len() > 0 {
        let rest = configs.drop_first();
        lemma_first_task_node_first_definer(rest, name);
        match task_node(configs[0], name) {
            Some(n) => {
                assert(task_node(configs[0], name) == Some(n));
            },
            None => {
                match first_task_node(rest, name) {
                    Some(n) => {
                        let k = choose|k: int| 0 <= k < rest.len() && task_node(rest[k], name) == Some(n)
                            && forall|j: int| 0 <= j < k ==> (#[trigger] task_node(rest[j], name)) is None;
                        assert(configs[k + 1] == rest[k]);
                        assert forall|j: int| 0 <= j < k + 1 implies (#[trigger] task_node(configs[j], name)) is None by {
                            if j > 0 {
                                assert(configs[j] == rest[j - 1]);
                            }
                        }
                    },
                    None => {
                        assert forall|k: int| 0 <= k < configs.len() implies (#[trigger] task_node(configs[k], name)) is None by {
                            if k > 0 {
                                assert(configs[k] == rest[k - 1]);
                            }
                        }
                    },
                }
            },
        }
    }
}

/// The description of a task node: its `description` entry, `NA` when it has none.
pub fn task_description(node: &Json) -> (res: String)
    ensures
        res@ == member_or(*node, "description"@, "NA"@),
{
    match get_str_value("description", node, Some("NA".to_string())) {
        Ok(d) => d,
        Err(_) => "NA".to_string(),
    }
}

/// The node of the task `name` in the first of `configs` that defines it (see
/// [`first_task_node`]).
pub fn find_task_node<'a>(configs: &'a Vec<Json>, name: &str) -> (res: Option<&'a Json>)
    ensures
        match res {
            Some(n) => first_task_node(configs@, name@) == Some(*n),
            None => first_task_node(configs@, name@) is None,
        },
{
    let mut k: usize = 0;
    assert(configs@.subrange(0, configs@.len() as int) =~= configs@);
    while k < configs.len()
        invariant
            k <= configs.len(),
            first_task_node(configs@, name@) == first_task_node(configs@.subrange(k as int, configs@.len() as int), name@),
        decreases configs.len() - k,
    {
        let ghost rest = configs@.subrange(k as int, configs@.len() as int);
        assert(rest[0] == configs@[k as int]);
        assert(rest.drop_first() =~= configs@.subrange(k as int + 1, configs@.len() as int));
        let node = match configs[k].get("tasks") {
            Some(t) => t.get(name),
            None => None,
        };
        if node.is_some() {
            return node;
        }
        k = k + 1;
    }
    assert(configs@.subrange(k as int, configs@.len() as int).len() == 0);
    None
}

/// The description of the task `name` (see [`task_description_in`]).
pub fn task_description_of(configs: &Vec<Json>, name: &str) -> (res: String)
    ensures
        res@ == task_description_in(configs@, name@),
{
    proof {
        reveal_strlit("NA");
    }
    match find_task_node(configs, name) {
        Some(n) => task_description(n),
        None => "NA".to_string(),
    }
}

/// The description of a build configuration from its text: its `description` entry,
/// `NA` when it has none or the text is not JSON.
pub fn config_description(text: &str) -> (res: String)
    ensures
        res@ == match spec_parse_json(text@) {
            Ok(data) => member_or(data, "description"@, "NA"@),
            Err(_) => "NA"@,
        },
{
    proof {
        reveal_strlit("NA");
    }
    match parse_json(text) {
        Ok(data) => task_description(&data),
        Err(_) => "NA".to_string(),
    }
}

/// Whether `s` is one of `v`.
pub(crate) fn contains_text(v: &Vec<String>, s: &str) -> (res: bool)
    ensures
        res == texts(v@).contains(s@),
{
    let mut i: usize = 0;
    while i < v.len()
        invariant
            i <= v.len(),
            forall|j: int| 0 <= j < i ==> #[trigger] v@[j]@ != s@,
        decreases v.len() - i,
    {
        if str_eq(v[i].as_str(), s) {
            assert(texts(v@)[i as int] == s@);
            return true;
        }
        i = i + 1;
    }
    proof {
        if texts(v@).contains(s@) {
            let j = choose|j: int| 0 <= j < texts(v@).len() && texts(v@)[j] == s@;
            assert(v@[j]@ == s@);
        }
    }
    false
}

/// What the `list` sub-command prints for the build configuration `config`: for `NA`,
/// every build configuration of the workspace (`builds`, name and description); for a
/// configuration that the workspace does not support, an error; else the product of
/// `data` and then either its context variables (`ctx`) or its `tasks`, in the order
/// given, each described from `configs` (the configuration, then the ones it includes).
pub fn list_output(config: &str, settings: &WsSettings, builds: &Vec<(String, String)>, data: &WsBuildData,
    tasks: &Vec<(String, TaskConfig)>, configs: &Vec<Json>, ctx: bool) -> (res: Result<Vec<String>, BError>)
    ensures
        config@ == "NA"@ ==> (res matches Ok(lines) && texts(lines@) == config_lines(builds@)),
        (config@ != "NA"@ && !supports(*settings, config@)) ==> (res matches Err(e) && e is CliError
            && e.message() == "Unsupported build config '"@ + config@ + "'"@),
        (config@ != "NA"@ && supports(*settings, config@) && ctx) ==> (res matches Ok(lines)
            && texts(lines@) == ctx_lines(*data)),
        (config@ != "NA"@ && supports(*settings, config@) && !ctx) ==> (res matches Ok(lines)
            && texts(lines@) == tasks_lines(*data, configs@, tasks@)),
{
    proof {
        reveal_strlit("NA");
        reveal_strlit("Unsupported build config '");
        reveal_strlit("'");
    }
    let mut lines: Vec<String> = Vec::new();
    if str_eq(config, "NA") {
        lines.push(config_header());
        let mut i: usize = 0;
        while i < builds.len()
            invariant
                i <= builds.len(),
                texts(lines@) == seq![spec_config_header()]
                    + builds@.take(i as int).map_values(|b: (String, String)| spec_config_line(b.0@, b.1@)),
            decreases builds.len() - i,
        {
            let ghost before = texts(lines@);
            let line = config_line(builds[i].0.as_str(), builds[i].1.as_str());
            lines.push(line);
            assert(texts(lines@) =~= before.push(line@));
            assert(builds@.take(i as int + 1) =~= builds@.take(i as int).push(builds@[i as int]));
            assert(builds@.take(i as int + 1).map_values(|b: (String, String)| spec_config_line(b.0@, b.1@))
                =~= builds@.take(i as int).map_values(|b: (String, String)| spec_config_line(b.0@, b.1@))
                    .push(spec_config_line(builds@[i as int].0@, builds@[i as int].1@)));
            assert(texts(lines@) =~= seq![spec_config_header()]
                + builds@.take(i as int + 1).map_values(|b: (String, String)| spec_config_line(b.0@, b.1@)));
            i = i + 1;
        }
        assert(builds@.take(builds.len() as int) =~= builds@);
        return Ok(lines);
    }
    if !contains_text(&settings.supported, config) {
        return Err(BError::CliError("Unsupported build config '".to_string().concat(config).concat("'")));
    }
    lines.push(build_info(data.name(), data.product().arch(), data.bitbake().machine(), data.product().description()));
    if ctx {
        lines.push("Context variables:".to_string());
        let vars = map_entries(data.context().ctx().variables());
        let ghost vs = vars@.map_values(|p: (String, String)| (p.0@, p.1@));
        assert(vs == data.context@);
        let mut i: usize = 0;
        while i < vars.len()
            invariant
                i <= vars.len(),
                vs == vars@.map_values(|p: (String, String)| (p.0@, p.1@)),
                texts(lines@) == seq![data_info(*data), "Context variables:"@]
                    + vs.take(i as int).map_values(|p: (Seq<char>, Seq<char>)| spec_ctx_line(p.0, p.1)),
            decreases vars.len() - i,
        {
            let ghost before = texts(lines@);
            let line = ctx_line(vars[i].0.as_str(), vars[i].1.as_str());
            lines.push(line);
            assert(texts(lines@) =~= before.push(line@));
            assert(vs.take(i as int + 1) =~= vs.take(i as int).push(vs[i as int]));
            assert(vs.take(i as int + 1).map_values(|p: (Seq<char>, Seq<char>)| spec_ctx_line(p.0, p.1))
                =~= vs.take(i as int).map_values(|p: (Seq<char>, Seq<char>)| spec_ctx_line(p.0, p.1))
                    .push(spec_ctx_line(vs[i as int].0, vs[i as int].1)));
            assert(texts(lines@) =~= seq![data_info(*data), "Context variables:"@]
                + vs.take(i as int + 1).map_values(|p: (Seq<char>, Seq<char>)| spec_ctx_line(p.0, p.1)));
            i = i + 1;
        }
        assert(vs.take(vars.len() as int) =~= vs);
        return Ok(lines);
    }
    lines.push(task_header());
    let mut i: usize = 0;
    while i < tasks.len()
        invariant
            i <= tasks.len(),
            texts(lines@) == seq![data_info(*data), spec_task_header()]
                + tasks@.take(i as int).map_values(|t: (String, TaskConfig)| task_row(configs@, t)),
        decreases tasks.len() - i,
    {
        let t = &tasks[i].1;
        let ghost before = texts(lines@);
        proof {
            reveal_strlit("true");
        }
        let description = task_description_of(configs, tasks[i].0.as_str());
        let line = task_line(t.name.as_str(), description.as_str(), str_eq(t.disabled.as_str(), "true"));
        lines.push(line);
        assert(texts(lines@) =~= before.push(line@));
        assert(tasks@.take(i as int + 1) =~= tasks@.take(i as int).push(tasks@[i as int]));
        assert(tasks@.take(i as int + 1).map_values(|t: (String, TaskConfig)| task_row(configs@, t))
            =~= tasks@.take(i as int).map_values(|t: (String, TaskConfig)| task_row(configs@, t)).push(task_row(configs@, tasks@[i as int])));
        assert(texts(lines@) =~= seq![data_info(*data), spec_task_header()]
            + tasks@.take(i as int + 1).map_values(|t: (String, TaskConfig)| task_row(configs@, t)));
        i = i + 1;
    }
    assert(tasks@.take(tasks.len() as int) =~= tasks@);
    assert(texts(lines@) =~= tasks_lines(*data, configs@, tasks@));
    Ok(lines)
}

} // verus!
