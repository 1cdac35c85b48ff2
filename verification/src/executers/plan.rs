//! What the task executers run: the command line of each step and the docker image it
//! runs in.
use vstd::prelude::*;

use indexmap::IndexMap;

use crate::configs::task::TType;
use crate::error::BError;
use crate::executers::recipe::{spec_bitbake_cmd, spec_recipe, Recipe};
use crate::text::{extend_cloned, extend_strings, spec_split, split_char, str_eq, strings1, texts};

verus! {

/// Whether a docker entry names an image: it is set and is not `NA`.
pub open spec fn names_image(d: Seq<char>) -> bool {
    d.len() > 0 && d != "NA"@
}

/// The docker image a task runs in: the task's own when it names one, else the one of
/// the `bb` node when that names one, else none (the task runs on the host).
pub open spec fn spec_task_docker(task: Seq<char>, bb: Seq<char>) -> Option<Seq<char>> {
    if names_image(task) {
        Some(task)
    } else if names_image(bb) {
        Some(bb)
    } else {
        None
    }
}

/// `cd <dir> && <cmd>`, as a command line.
pub open spec fn spec_in_dir(dir: Seq<char>, cmd: Seq<Seq<char>>) -> Seq<Seq<char>> {
    seq!["cd"@, dir, "&&"@] + cmd
}

fn names_image_str(d: &str) -> (res: bool)
    ensures
        res == names_image(d@),
{
    proof {
        reveal_strlit("NA");
    }
    !d.is_empty() && !str_eq(d, "NA")
}

/// The docker image a task runs in (see [`spec_task_docker`]).
pub fn task_docker(task: &str, bb: &str) -> (res: Option<String>)
    ensures
        match res {
            Some(d) => spec_task_docker(task@, bb@) == Some(d@),
            None => spec_task_docker(task@, bb@) is None,
        },
{
    if names_image_str(task) {
        Some(task.to_string())
    } else if names_image_str(bb) {
        Some(bb.to_string())
    } else {
        None
    }
}

/// `cd <dir> &&` followed by `cmd`.
fn in_dir(dir: &str, cmd: Vec<String>) -> (res: Vec<String>)
    ensures
        texts(res@) == spec_in_dir(dir@, texts(cmd@)),
{
    proof {
        reveal_strlit("cd");
        reveal_strlit("&&");
    }
    let mut line = strings1("cd");
    extend_strings(&mut line, strings1(dir));
    extend_strings(&mut line, strings1("&&"));
    extend_strings(&mut line, cmd);
    assert(texts(line@) =~= spec_in_dir(dir@, texts(cmd@)));
    line
}

/// The command line that runs `cmd` from a directory: `cd <dir> && <cmd>`, in `dir` when
/// one is given, else in the workspace directory `work_dir`.
pub fn exec_cmd_line(cmd: &Vec<String>, dir: Option<&str>, work_dir: &str) -> (res: Vec<String>)
    ensures
        texts(res@) == spec_in_dir(match dir {
            Some(d) => d@,
            None => work_dir@,
        }, texts(cmd@)),
{
    let exec_dir: &str = match dir {
        Some(d) => d,
        None => work_dir,
    };
    let mut line: Vec<String> = Vec::new();
    extend_cloned(&mut line, cmd);
    assert(texts(line@) =~= texts(cmd@));
    in_dir(exec_dir, line)
}

/// The command line that builds the recipe reference `recipe` in `exec_dir`.
pub fn bitbake_cmd_line(exec_dir: &str, recipe: &str) -> (res: Vec<String>)
    ensures
        texts(res@) == spec_in_dir(exec_dir@, spec_bitbake_cmd(spec_recipe(recipe@))),
{
    let r = Recipe::new(recipe);
    in_dir(exec_dir, r.bitbake_cmd())
}

/// The command line that runs the build command of a task that is not a bitbake task:
/// the command is cut at each space.
pub fn build_cmd_line(exec_dir: &str, build_cmd: &str) -> (res: Vec<String>)
    ensures
        texts(res@) == spec_in_dir(exec_dir@, spec_split(build_cmd@, ' ')),
{
    in_dir(exec_dir, split_char(build_cmd, ' '))
}

/// Runs a task with the environment `env`, as a dry run (nothing runs) or not, and
/// interactively or not. An executer that does not say otherwise runs nothing.
pub trait TaskExecuter {
    fn exec(&self, _env: &IndexMap<String, String>, _dry_run: bool, _interactive: bool) -> (res: Result<(), BError>)
        default_ensures
            res matches Ok(()),
    {
        Ok(())
    }
}

/// The executer that a task of a kind is run by.
#[derive(Clone, Copy, Debug, PartialEq, Eq, Structural)]
pub enum ExecuterKind {
    Bitbake,
    NonBitbake,
}

/// Chooses the executer of a task from its kind.
pub struct ExecuterFactory {}

impl ExecuterFactory {
    /// A bitbake task is run by the bitbake executer, any other task by the one that runs
    /// its build command.
    pub fn create(ttype: &TType) -> (res: ExecuterKind)
        ensures
            (res == ExecuterKind::Bitbake) <==> (*ttype == TType::Bitbake),
    {
        match ttype {
            TType::Bitbake => ExecuterKind::Bitbake,
            TType::NonBitbake => ExecuterKind::NonBitbake,
        }
    }
}

} // verus!
