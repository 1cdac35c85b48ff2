//! The decisions of the sub-commands: reading `KEY=VALUE` arguments, the command line
//! that re-runs a shell inside docker, the environment handed to bitbake, the tasks a
//! command works on and the context a deploy runs with.
use vstd::prelude::*;
use indexmap::IndexMap;

use crate::configs::context::lowered_entries;
use crate::configs::settings::WsSettings;
use crate::configs::task::{TType, TaskConfig};
use crate::data::bitbake::spec_sstate_dir;
use crate::data::build_data::WsBuildData;
use crate::executers::docker::image_text;
use crate::executers::plan::{bitbake_cmd_line, build_cmd_line, spec_in_dir, spec_task_docker, task_docker};
use crate::executers::recipe::{spec_bitbake_cmd, spec_recipe};
use crate::configs::handler::entry_names;
use crate::listing::{contains_text, supports};
use crate::data::context::{
    default_entries, insert_all, lemma_update_frame, lemma_update_pairs, lowercase_unique, updated, var_value, WsContextData,
    CTX_KEY_DEVICE, CTX_KEY_IMAGE,
};
use crate::text::{ascii_lowered, is_ascii_text, spec_lowercase};
use crate::error::BError;
use crate::imap::{entries_insert, entries_lookup, lemma_insert_lookup_other, lemma_insert_lookup_same, index_map_entries, map_clone, map_entries, map_get, map_insert, map_new};
use crate::text::{extend_cloned, extend_strings, spec_split, spec_splitn2, split_char, splitn2, str_eq, string_of, chars_of, strings1, strings2, texts};

verus! {

/// The pair that a `KEY=VALUE` argument gives: the text before the first `=` and the
/// text between it and the next `=`.
pub open spec fn arg_pair(arg: Seq<char>) -> (Seq<char>, Seq<char>) {
    (spec_split(arg, '=')[0], spec_split(arg, '=')[1])
}

/// Whether an argument holds an `=`, that is, splits into at least two pieces.
pub open spec fn is_key_value(arg: Seq<char>) -> bool {
    spec_split(arg, '=').len() >= 2
}

/// The variables that `KEY=VALUE` arguments set, in order; a repeated key keeps its
/// first place and takes the last value.
pub fn setup_context(ctx: &Vec<String>) -> (res: IndexMap<String, String>)
    requires
        forall|i: int| 0 <= i < ctx@.len() ==> #[trigger] is_key_value(ctx@[i]@),
    ensures
        index_map_entries(res) == insert_all(seq![], texts(ctx@).map_values(|a: Seq<char>| arg_pair(a))),
{
    let ghost pairs = texts(ctx@).map_values(|a: Seq<char>| arg_pair(a));
    let mut m: IndexMap<String, String> = map_new();
    let mut i: usize = 0;
    while i < ctx.len()
        invariant
            i <= ctx.len(),
            pairs == texts(ctx@).map_values(|a: Seq<char>| arg_pair(a)),
            forall|j: int| 0 <= j < ctx@.len() ==> #[trigger] is_key_value(ctx@[j]@),
            index_map_entries(m) == insert_all(seq![], pairs.take(i as int)),
        decreases ctx.len() - i,
    {
        assert(is_key_value(ctx@[i as int]@));
        let parts = split_char(ctx[i].as_str(), '=');
        assert(parts@.map_values(|p: String| p@)[0] == parts@[0]@);
        assert(parts@.map_values(|p: String| p@)[1] == parts@[1]@);
        assert(pairs.take(i as int + 1).drop_last() == pairs.take(i as int));
        assert(pairs.take(i as int + 1).last() == pairs[i as int]);
        map_insert(&mut m, parts[0].clone(), parts[1].clone());
        i = i + 1;
    }
    assert(pairs.take(ctx.len() as int) == pairs);
    m
}

/// `flag v` for each `v` of `vs`, in order.
pub open spec fn flagged(flag: Seq<char>, vs: Seq<Seq<char>>) -> Seq<Seq<char>>
    decreases vs.len(),
{
    if vs.len() == 0 {
        seq![]
    } else {
        flagged(flag, vs.drop_last()) + seq![flag, vs.last()]
    }
}

/// The command line that runs `cmd` in a bakery shell inside docker: the build config
/// and the image when given, each volume and each environment variable, then the
/// command in double quotes so that it reaches the shell in one piece.
pub open spec fn spec_shell_cmd_line(config: Seq<char>, docker: Seq<char>, volumes: Seq<Seq<char>>,
    env: Seq<Seq<char>>, cmd: Seq<char>) -> Seq<Seq<char>>
{
    seq!["bakery"@, "shell"@]
        + (if config.len() > 0 { seq!["-c"@, config] } else { seq![] })
        + (if docker.len() > 0 { seq!["-d"@, docker] } else { seq![] })
        + flagged("-v"@, volumes) + flagged("-e"@, env)
        + seq!["-r"@, "\""@ + cmd + "\""@]
}

/// Every value is passed on, in order, each behind the flag: the i-th value stands at
/// position `2i + 1`, right after a copy of the flag, and nothing else is added.
pub proof fn lemma_flagged_passes_every_value(flag: Seq<char>, vs: Seq<Seq<char>>)
    ensures
        flagged(flag, vs).len() == 2 * vs.len(),
        forall|i: int| #![trigger vs[i]] 0 <= i < vs.len() ==>
            (flagged(flag, vs)[2 * i], flagged(flag, vs)[2 * i + 1]) == (flag, vs[i]),
    decreases vs.len(),
{
    if vs.len() > 0 {
        let front = vs.drop_last();
        lemma_flagged_passes_every_value(flag, front);
        let f = flagged(flag, front);
        let whole = flagged(flag, vs);
        assert(whole == f + seq![flag, vs.last()]);
        assert forall|i: int| #![trigger vs[i]] 0 <= i < vs.len() implies
            (flagged(flag, vs)[2 * i], flagged(flag, vs)[2 * i + 1]) == (flag, vs[i]) by {
            if i < vs.len() - 1 {
                assert(front[i] == vs[i]);
                assert((f[2 * i], f[2 * i + 1]) == (flag, front[i]));
                assert(whole[2 * i] == f[2 * i]);
                assert(whole[2 * i + 1] == f[2 * i + 1]);
                assert(whole[2 * i] =~= flag);
            } else {
                assert(whole[2 * i] == seq![flag, vs.last()][0]);
                assert(whole[2 * i + 1] == seq![flag, vs.last()][1]);
                assert(whole[2 * i] =~= flag);
            }
        }
    }
}

/// The shell command line re-run inside docker passes on every volume and every
/// environment variable, in order: after `bakery shell` and the config and image
/// options that are given, `-v` and each volume, then `-e` and each variable, then `-r`
/// and the command in double quotes.
pub proof fn lemma_shell_cmd_line_passes_everything(config: Seq<char>, docker: Seq<char>, volumes: Seq<Seq<char>>,
    env: Seq<Seq<char>>, cmd: Seq<char>)
    ensures ({
        let line = spec_shell_cmd_line(config, docker, volumes, env, cmd);
        let base: int = 2 + (if config.len() > 0 { 2int } else { 0int }) + (if docker.len() > 0 { 2int } else { 0int });
        let after: int = base + 2 * volumes.len() + 2 * env.len();
        &&& line.len() == after + 2
        &&& line[0] == "bakery"@ && line[1] == "shell"@
        &&& config.len() > 0 ==> line[2] == "-c"@ && line[3] == config
        &&& docker.len() > 0 ==> line[base - 2] == "-d"@ && line[base - 1] == docker
        &&& forall|i: int| #![trigger volumes[i]] 0 <= i < volumes.len() ==>
            (line[base + 2 * i], line[base + 2 * i + 1]) == ("-v"@, volumes[i])
        &&& forall|j: int| #![trigger env[j]] 0 <= j < env.len() ==>
            (line[base + 2 * volumes.len() + 2 * j], line[base + 2 * volumes.len() + 2 * j + 1]) == ("-e"@, env[j])
        &&& line[after] == "-r"@ && line[after + 1] == "\""@ + cmd + "\""@
    }),
{
    lemma_flagged_passes_every_value("-v"@, volumes);
    lemma_flagged_passes_every_value("-e"@, env);
    let c: Seq<Seq<char>> = if config.len() > 0 { seq!["-c"@, config] } else { seq![] };
    let d: Seq<Seq<char>> = if docker.len() > 0 { seq!["-d"@, docker] } else { seq![] };
    let head = seq!["bakery"@, "shell"@] + c + d;
    let fv = flagged("-v"@, volumes);
    let fe = flagged("-e"@, env);
    let tail = seq!["-r"@, "\""@ + cmd + "\""@];
    let line = spec_shell_cmd_line(config, docker, volumes, env, cmd);
    let hv = head + fv;
    let hvf = hv + fe;
    assert(line == hvf + tail);
    let base: int = head.len() as int;
    assert forall|i: int| #![trigger volumes[i]] 0 <= i < volumes.len() implies
        (line[base + 2 * i], line[base + 2 * i + 1]) == ("-v"@, volumes[i]) by {
        assert((fv[2 * i], fv[2 * i + 1]) == ("-v"@, volumes[i]));
        assert(hv[base + 2 * i] == fv[2 * i]);
        assert(hv[base + 2 * i + 1] == fv[2 * i + 1]);
        assert(hvf[base + 2 * i] == hv[base + 2 * i]);
        assert(hvf[base + 2 * i + 1] == hv[base + 2 * i + 1]);
        assert(line[base + 2 * i] == hvf[base + 2 * i]);
        assert(line[base + 2 * i + 1] == hvf[base + 2 * i + 1]);
    }
    assert forall|j: int| #![trigger env[j]] 0 <= j < env.len() implies
        (line[base + 2 * volumes.len() + 2 * j], line[base + 2 * volumes.len() + 2 * j + 1]) == ("-e"@, env[j]) by {
        let k = base + fv.len() + 2 * j;
        assert((fe[2 * j], fe[2 * j + 1]) == ("-e"@, env[j]));
        assert(hvf[k] == fe[2 * j]);
        assert(hvf[k + 1] == fe[2 * j + 1]);
        assert(line[k] == hvf[k]);
        assert(line[k + 1] == hvf[k + 1]);
    }
    if config.len() > 0 {
        assert(line[2] == head[2]);
        assert(line[3] == head[3]);
    }
    if docker.len() > 0 {
        assert(line[base - 2] == head[base - 2]);
        assert(line[base - 1] == head[base - 1]);
    }
    assert(line[0] == head[0]);
    assert(line[1] == head[1]);
}

/// Appends `flag v` for each `v` of `vs`.
fn push_flagged(line: &mut Vec<String>, flag: &str, vs: &Vec<String>)
    ensures
        texts(final(line)@) == texts(old(line)@) + flagged(flag@, texts(vs@)),
{
    let mut i: usize = 0;
    let ghost l0 = texts(line@);
    while i < vs.len()
        invariant
            i <= vs.len(),
            texts(line@) == l0 + flagged(flag@, texts(vs@).take(i as int)),
        decreases vs.len() - i,
    {
        assert(texts(vs@).take(i as int + 1).drop_last() == texts(vs@).take(i as int));
        assert(texts(vs@).take(i as int + 1).last() == vs@[i as int]@);
        extend_strings(line, strings2(flag, vs[i].as_str()));
        assert(texts(line@) =~= l0 + flagged(flag@, texts(vs@).take(i as int + 1)));
        i = i + 1;
    }
    assert(texts(vs@).take(vs.len() as int) == texts(vs@));
}

/// The command line that re-runs a shell command inside docker (see
/// [`spec_shell_cmd_line`]).
pub fn shell_cmd_line(config: &str, docker: &str, volumes: &Vec<String>, env: &Vec<String>, cmd: &str) -> (res: Vec<String>)
    ensures
        texts(res@) == spec_shell_cmd_line(config@, docker@, texts(volumes@), texts(env@), cmd@),
{
    proof {
        reveal_strlit("\"");
    }
    let mut line = strings2("bakery", "shell");
    let ghost l0 = texts(line@);
    if !config.is_empty() {
        extend_strings(&mut line, strings2("-c", config));
    } else {
        assert(texts(line@) =~= l0 + Seq::<Seq<char>>::empty());
    }
    let ghost l1 = texts(line@);
    if !docker.is_empty() {
        extend_strings(&mut line, strings2("-d", docker));
    } else {
        assert(texts(line@) =~= l1 + Seq::<Seq<char>>::empty());
    }
    push_flagged(&mut line, "-v", volumes);
    push_flagged(&mut line, "-e", env);
    let quoted_cmd = "\"".to_string().concat(cmd).concat("\"");
    extend_strings(&mut line, strings2("-r", quoted_cmd.as_str()));
    assert(texts(line@) =~= spec_shell_cmd_line(config@, docker@, texts(volumes@), texts(env@), cmd@));
    line
}

/// The name of the variable that lists what bitbake lets through from the environment.
pub const BB_ENV_PASSTHROUGH_ADDITIONS: &'static str = "BB_ENV_PASSTHROUGH_ADDITIONS";

/// The variables that bitbake always lets through.
pub const BB_ENV_PASSTHROUGH_DEFAULTS: &'static str = "SSTATE_DIR DL_DIR TMPDIR";

/// The environment bitbake runs with: the sourced environment `env` with the command
/// line's variables set over it, and the passthrough list set to the default names
/// followed directly by what the environment listed.
pub open spec fn spec_bb_build_env(env: Seq<(Seq<char>, Seq<char>)>, args: Seq<(Seq<char>, Seq<char>)>) -> Seq<(Seq<char>, Seq<char>)> {
    let e = insert_all(env, args);
    let listed = match entries_lookup(e, BB_ENV_PASSTHROUGH_ADDITIONS@) {
        Some(v) => v,
        None => seq![],
    };
    entries_insert(e, BB_ENV_PASSTHROUGH_ADDITIONS@, BB_ENV_PASSTHROUGH_DEFAULTS@ + listed)
}

/// The environment bitbake runs with (see [`spec_bb_build_env`]).
pub fn bb_build_env(env: &IndexMap<String, String>, args_env: &IndexMap<String, String>) -> (res: IndexMap<String, String>)
    ensures
        index_map_entries(res) == spec_bb_build_env(index_map_entries(*env), index_map_entries(*args_env)),
{
    let mut e = map_clone(env);
    let pairs = map_entries(args_env);
    let ghost ps = index_map_entries(*args_env);
    let ghost e0 = index_map_entries(*env);
    let mut i: usize = 0;
    while i < pairs.len()
        invariant
            i <= pairs.len(),
            pairs@.map_values(|p: (String, String)| (p.0@, p.1@)) == ps,
            index_map_entries(e) == insert_all(e0, ps.take(i as int)),
        decreases pairs.len() - i,
    {
        assert(ps.take(i as int + 1).drop_last() == ps.take(i as int));
        assert(ps.take(i as int + 1).last() == ps[i as int]);
        map_insert(&mut e, pairs[i].0.clone(), pairs[i].1.clone());
        i = i + 1;
    }
    assert(ps.take(pairs.len() as int) == ps);
    let listed: String = match map_get(&e, BB_ENV_PASSTHROUGH_ADDITIONS) {
        Some(v) => v,
        None => String::new(),
    };
    let additions = BB_ENV_PASSTHROUGH_DEFAULTS.to_string().concat(listed.as_str());
    map_insert(&mut e, BB_ENV_PASSTHROUGH_ADDITIONS.to_string(), additions);
    e
}

/// The variables that bitbake always lets through stay first in the passthrough list,
/// whatever the environment and the command line hold.
pub proof fn lemma_passthrough_defaults_first(env: Seq<(Seq<char>, Seq<char>)>, args: Seq<(Seq<char>, Seq<char>)>)
    ensures
        entries_lookup(spec_bb_build_env(env, args), BB_ENV_PASSTHROUGH_ADDITIONS@) matches Some(v)
            && crate::text::spec_starts_with(v, BB_ENV_PASSTHROUGH_DEFAULTS@),
{
    let e = insert_all(env, args);
    let listed = match entries_lookup(e, BB_ENV_PASSTHROUGH_ADDITIONS@) {
        Some(v) => v,
        None => Seq::<char>::empty(),
    };
    crate::imap::lemma_insert_lookup_same(e, BB_ENV_PASSTHROUGH_ADDITIONS@, BB_ENV_PASSTHROUGH_DEFAULTS@ + listed);
    assert((BB_ENV_PASSTHROUGH_DEFAULTS@ + listed).take(BB_ENV_PASSTHROUGH_DEFAULTS@.len() as int) =~= BB_ENV_PASSTHROUGH_DEFAULTS@);
}

/// A variable given on the command line reaches bitbake with the value given there,
/// over what the sourced environment held (the passthrough list itself aside).
pub proof fn lemma_cli_variable_wins(env: Seq<(Seq<char>, Seq<char>)>, key: Seq<char>, value: Seq<char>)
    requires
        key != BB_ENV_PASSTHROUGH_ADDITIONS@,
    ensures
        entries_lookup(spec_bb_build_env(env, seq![(key, value)]), key) == Some(value),
{
    let args = seq![(key, value)];
    assert(args.drop_last() =~= Seq::<(Seq<char>, Seq<char>)>::empty());
    assert(insert_all(env, args.drop_last()) == env);
    let e = insert_all(env, args);
    assert(e == entries_insert(env, key, value));
    crate::imap::lemma_insert_lookup_same(env, key, value);
    let listed = match entries_lookup(e, BB_ENV_PASSTHROUGH_ADDITIONS@) {
        Some(v) => v,
        None => Seq::<char>::empty(),
    };
    crate::imap::lemma_insert_lookup_other(e, BB_ENV_PASSTHROUGH_ADDITIONS@, BB_ENV_PASSTHROUGH_DEFAULTS@ + listed, key);
}

/// A line without the carriage return that ended it, if any.
pub open spec fn strip_cr(l: Seq<char>) -> Seq<char> {
    if l.len() > 0 && l.last() == '\r' { l.drop_last() } else { l }
}

/// What `str::lines` yields: the text cut at each `\n`, a `\r` just before the `\n`
/// dropped, and no empty line after a final `\n`.
pub open spec fn spec_lines(s: Seq<char>) -> Seq<Seq<char>> {
    let pieces = spec_split(s, '\n');
    let ended = pieces.take(pieces.len() - 1).map_values(|l: Seq<char>| strip_cr(l));
    if pieces.last().len() > 0 { ended.push(pieces.last()) } else { ended }
}

/// The pairs that the `KEY=VALUE` lines of `lines` give, cut at the first `=`; a line
/// without `=` is skipped, and a later key replaces the value of an earlier one.
pub open spec fn env_entries(lines: Seq<Seq<char>>) -> Seq<(Seq<char>, Seq<char>)>
    decreases lines.len(),
{
    if lines.len() == 0 {
        seq![]
    } else {
        let rest = env_entries(lines.drop_last());
        let parts = spec_splitn2(lines.last(), '=');
        if parts.len() == 2 { entries_insert(rest, parts[0], parts[1]) } else { rest }
    }
}

/// The lines of a text (see [`spec_lines`]).
fn lines_of(s: &str) -> (res: Vec<String>)
    ensures
        texts(res@) == spec_lines(s@),
{
    let pieces = split_char(s, '\n');
    let ghost ps = texts(pieces@);
    assert(ps.len() == pieces@.len());
    let n = pieces.len();
    let mut out: Vec<String> = Vec::new();
    let mut i: usize = 0;
    while i + 1 < n
        invariant
            n == pieces@.len(),
            n >= 1,
            i + 1 <= n,
            ps == texts(pieces@),
            texts(out@) == ps.take(i as int).map_values(|l: Seq<char>| strip_cr(l)),
        decreases n - i,
    {
        let cs = chars_of(pieces[i].as_str());
        let line: String = if cs.len() > 0 && cs[cs.len() - 1] == '\r' {
            let mut v: Vec<char> = Vec::new();
            let mut k: usize = 0;
            while k + 1 < cs.len()
                invariant
                    k + 1 <= cs.len(),
                    v@ == cs@.take(k as int),
                decreases cs.len() - k,
            {
                v.push(cs[k]);
                assert(cs@.take(k as int + 1) == cs@.take(k as int).push(cs@[k as int]));
                k = k + 1;
            }
            assert(cs@.take(k as int) == cs@.drop_last());
            string_of(v.as_slice())
        } else {
            pieces[i].clone()
        };
        assert(ps[i as int] == pieces@[i as int]@);
        assert(line@ == strip_cr(ps[i as int]));
        let ghost before = texts(out@);
        out.push(line);
        assert(texts(out@) =~= before.push(line@));
        assert(ps.take(i as int + 1).map_values(|l: Seq<char>| strip_cr(l))
            =~= ps.take(i as int).map_values(|l: Seq<char>| strip_cr(l)).push(strip_cr(ps[i as int])));
        i = i + 1;
    }
    assert(ps[n - 1] == pieces@[n - 1]@);
    if !pieces[n - 1].as_str().is_empty() {
        let ghost before = texts(out@);
        out.push(pieces[n - 1].clone());
        assert(texts(out@) =~= before.push(ps[n - 1]));
    }
    out
}

/// The environment that `env` prints: its `KEY=VALUE` lines (see [`env_entries`]).
pub fn env_output_vars(output: &str) -> (res: IndexMap<String, String>)
    ensures
        index_map_entries(res) == env_entries(spec_lines(output@)),
{
    let lines = lines_of(output);
    let ghost ls = texts(lines@);
    let mut m: IndexMap<String, String> = map_new();
    let mut i: usize = 0;
    while i < lines.len()
        invariant
            i <= lines.len(),
            ls == texts(lines@),
            ls == spec_lines(output@),
            index_map_entries(m) == env_entries(ls.take(i as int)),
        decreases lines.len() - i,
    {
        assert(ls.take(i as int + 1).drop_last() == ls.take(i as int));
        assert(ls.take(i as int + 1).last() == lines@[i as int]@);
        let parts: Vec<String> = splitn2(lines[i].as_str(), '=');
        assert(parts@.map_values(|p: String| p@).len() == parts@.len());
        if parts.len() == 2 {
            assert(parts@.map_values(|p: String| p@)[0] == parts@[0]@);
            assert(parts@.map_values(|p: String| p@)[1] == parts@[1]@);
            map_insert(&mut m, parts[0].clone(), parts[1].clone());
        }
        i = i + 1;
    }
    assert(ls.take(lines.len() as int) == ls);
    m
}

/// The environment of an interactive bitbake shell: the bitbake environment with the
/// workspace and the build configuration set, for the aliases of the shell.
pub open spec fn spec_shell_env(env: Seq<(Seq<char>, Seq<char>)>, work_dir: Seq<char>, config: Seq<char>) -> Seq<(Seq<char>, Seq<char>)> {
    entries_insert(entries_insert(env, "BAKERY_WORKSPACE"@, work_dir), "BAKERY_CURRENT_BUILD_CONFIG"@, config)
}

/// The environment of a bitbake shell names the workspace and the build configuration,
/// and leaves every other variable as it was.
pub proof fn lemma_shell_env_values(env: Seq<(Seq<char>, Seq<char>)>, work_dir: Seq<char>, config: Seq<char>, k: Seq<char>)
    ensures
        entries_lookup(spec_shell_env(env, work_dir, config), "BAKERY_WORKSPACE"@) == Some(work_dir),
        entries_lookup(spec_shell_env(env, work_dir, config), "BAKERY_CURRENT_BUILD_CONFIG"@) == Some(config),
        (k != "BAKERY_WORKSPACE"@ && k != "BAKERY_CURRENT_BUILD_CONFIG"@) ==>
            entries_lookup(spec_shell_env(env, work_dir, config), k) == entries_lookup(env, k),
{
    reveal_strlit("BAKERY_WORKSPACE");
    reveal_strlit("BAKERY_CURRENT_BUILD_CONFIG");
    let e1 = entries_insert(env, "BAKERY_WORKSPACE"@, work_dir);
    lemma_insert_lookup_same(env, "BAKERY_WORKSPACE"@, work_dir);
    lemma_insert_lookup_same(e1, "BAKERY_CURRENT_BUILD_CONFIG"@, config);
    assert("BAKERY_WORKSPACE"@ != "BAKERY_CURRENT_BUILD_CONFIG"@) by {
        assert("BAKERY_WORKSPACE"@.len() != "BAKERY_CURRENT_BUILD_CONFIG"@.len());
    }
    lemma_insert_lookup_other(e1, "BAKERY_CURRENT_BUILD_CONFIG"@, config, "BAKERY_WORKSPACE"@);
    if k != "BAKERY_WORKSPACE"@ && k != "BAKERY_CURRENT_BUILD_CONFIG"@ {
        lemma_insert_lookup_other(env, "BAKERY_WORKSPACE"@, work_dir, k);
        lemma_insert_lookup_other(e1, "BAKERY_CURRENT_BUILD_CONFIG"@, config, k);
    }
}

/// The environment of an interactive bitbake shell (see [`spec_shell_env`]).
pub fn shell_env(env: &IndexMap<String, String>, work_dir: &str, config: &str) -> (res: IndexMap<String, String>)
    ensures
        index_map_entries(res) == spec_shell_env(index_map_entries(*env), work_dir@, config@),
{
    let mut e = map_clone(env);
    map_insert(&mut e, "BAKERY_WORKSPACE".to_string(), work_dir.to_string());
    map_insert(&mut e, "BAKERY_CURRENT_BUILD_CONFIG".to_string(), config.to_string());
    e
}

/// The command line that runs `cmd` in an interactive bash, the command in double
/// quotes.
pub fn run_cmd_line(cmd: &str) -> (res: Vec<String>)
    ensures
        texts(res@) == seq!["/bin/bash"@, "-i"@, "-c"@, "\""@ + cmd@ + "\""@],
{
    let quoted_cmd = "\"".to_string().concat(cmd).concat("\"");
    let mut line = strings2("/bin/bash", "-i");
    extend_strings(&mut line, strings2("-c", quoted_cmd.as_str()));
    assert(texts(line@) =~= seq!["/bin/bash"@, "-i"@, "-c"@, "\""@ + cmd@ + "\""@]);
    line
}

/// The context variables that a build adds from its command line: the platform version,
/// the build id and sha, the variant, and the release they make; a `release` variant
/// marks the build as a release build.
pub open spec fn spec_extra_ctx(version: Seq<char>, build_id: Seq<char>, sha: Seq<char>, variant: Seq<char>) -> Seq<(Seq<char>, Seq<char>)> {
    let e = entries_insert(seq![], "PLATFORM_VERSION"@, version);
    let e = entries_insert(e, "BUILD_ID"@, build_id);
    let e = entries_insert(e, "BUILD_SHA"@, sha);
    let e = entries_insert(e, "RELEASE_BUILD"@, "0"@);
    let e = entries_insert(e, "BUILD_VARIANT"@, variant);
    let e = entries_insert(e, "PLATFORM_RELEASE"@, version + "-"@ + build_id);
    if variant == "release"@ {
        let e = entries_insert(e, "BUILD_VARIANT"@, "release"@);
        entries_insert(e, "RELEASE_BUILD"@, "1"@)
    } else {
        e
    }
}

/// The context variables a build adds from its command line, by name: the version, the
/// build id and sha as given, the release `version-build_id`, the variant as given, and
/// `RELEASE_BUILD` set to `1` exactly for a `release` variant (`0` otherwise).
#[verifier::spinoff_prover]
pub proof fn lemma_extra_ctx_values(version: Seq<char>, build_id: Seq<char>, sha: Seq<char>, variant: Seq<char>)
    ensures ({
        let e = spec_extra_ctx(version, build_id, sha, variant);
        &&& entries_lookup(e, "PLATFORM_VERSION"@) == Some(version)
        &&& entries_lookup(e, "BUILD_ID"@) == Some(build_id)
        &&& entries_lookup(e, "BUILD_SHA"@) == Some(sha)
        &&& entries_lookup(e, "PLATFORM_RELEASE"@) == Some(version + "-"@ + build_id)
        &&& entries_lookup(e, "BUILD_VARIANT"@) == Some(variant)
        &&& entries_lookup(e, "RELEASE_BUILD"@) == Some(if variant == "release"@ { "1"@ } else { "0"@ })
    }),
{
    reveal_strlit("PLATFORM_VERSION");
    reveal_strlit("BUILD_ID");
    reveal_strlit("BUILD_SHA");
    reveal_strlit("RELEASE_BUILD");
    reveal_strlit("BUILD_VARIANT");
    reveal_strlit("PLATFORM_RELEASE");
    assert("PLATFORM_VERSION"@ != "BUILD_ID"@) by { assert("PLATFORM_VERSION"@.len() != "BUILD_ID"@.len()); }
    assert("PLATFORM_VERSION"@ != "BUILD_SHA"@) by { assert("PLATFORM_VERSION"@.len() != "BUILD_SHA"@.len()); }
    assert("PLATFORM_VERSION"@ != "RELEASE_BUILD"@) by { assert("PLATFORM_VERSION"@.len() != "RELEASE_BUILD"@.len()); }
    assert("PLATFORM_VERSION"@ != "BUILD_VARIANT"@) by { assert("PLATFORM_VERSION"@.len() != "BUILD_VARIANT"@.len()); }
    assert("PLATFORM_VERSION"@ != "PLATFORM_RELEASE"@) by { assert("PLATFORM_VERSION"@[9] != "PLATFORM_RELEASE"@[9]); }
    assert("BUILD_ID"@ != "BUILD_SHA"@) by { assert("BUILD_ID"@.len() != "BUILD_SHA"@.len()); }
    assert("BUILD_ID"@ != "RELEASE_BUILD"@) by { assert("BUILD_ID"@.len() != "RELEASE_BUILD"@.len()); }
    assert("BUILD_ID"@ != "BUILD_VARIANT"@) by { assert("BUILD_ID"@.len() != "BUILD_VARIANT"@.len()); }
    assert("BUILD_ID"@ != "PLATFORM_RELEASE"@) by { assert("BUILD_ID"@.len() != "PLATFORM_RELEASE"@.len()); }
    assert("BUILD_SHA"@ != "RELEASE_BUILD"@) by { assert("BUILD_SHA"@.len() != "RELEASE_BUILD"@.len()); }
    assert("BUILD_SHA"@ != "BUILD_VARIANT"@) by { assert("BUILD_SHA"@.len() != "BUILD_VARIANT"@.len()); }
    assert("BUILD_SHA"@ != "PLATFORM_RELEASE"@) by { assert("BUILD_SHA"@.len() != "PLATFORM_RELEASE"@.len()); }
    assert("RELEASE_BUILD"@ != "BUILD_VARIANT"@) by { assert("RELEASE_BUILD"@[0] != "BUILD_VARIANT"@[0]); }
    assert("RELEASE_BUILD"@ != "PLATFORM_RELEASE"@) by { assert("RELEASE_BUILD"@.len() != "PLATFORM_RELEASE"@.len()); }
    assert("BUILD_VARIANT"@ != "PLATFORM_RELEASE"@) by { assert("BUILD_VARIANT"@.len() != "PLATFORM_RELEASE"@.len()); }
    reveal_strlit("release");
    reveal_strlit("0");
    reveal_strlit("1");
    let e0: Seq<(Seq<char>, Seq<char>)> = seq![];
    let e1 = entries_insert(e0, "PLATFORM_VERSION"@, version);
    let e2 = entries_insert(e1, "BUILD_ID"@, build_id);
    let e3 = entries_insert(e2, "BUILD_SHA"@, sha);
    let e4 = entries_insert(e3, "RELEASE_BUILD"@, "0"@);
    let e5 = entries_insert(e4, "BUILD_VARIANT"@, variant);
    let e6 = entries_insert(e5, "PLATFORM_RELEASE"@, version + "-"@ + build_id);
    lemma_insert_lookup_same(e0, "PLATFORM_VERSION"@, version);
    lemma_insert_lookup_other(e0, "PLATFORM_VERSION"@, version, "BUILD_ID"@);
    lemma_insert_lookup_other(e0, "PLATFORM_VERSION"@, version, "BUILD_SHA"@);
    lemma_insert_lookup_other(e0, "PLATFORM_VERSION"@, version, "RELEASE_BUILD"@);
    lemma_insert_lookup_other(e0, "PLATFORM_VERSION"@, version, "BUILD_VARIANT"@);
    lemma_insert_lookup_other(e0, "PLATFORM_VERSION"@, version, "PLATFORM_RELEASE"@);
    lemma_insert_lookup_other(e1, "BUILD_ID"@, build_id, "PLATFORM_VERSION"@);
    lemma_insert_lookup_same(e1, "BUILD_ID"@, build_id);
    lemma_insert_lookup_other(e1, "BUILD_ID"@, build_id, "BUILD_SHA"@);
    lemma_insert_lookup_other(e1, "BUILD_ID"@, build_id, "RELEASE_BUILD"@);
    lemma_insert_lookup_other(e1, "BUILD_ID"@, build_id, "BUILD_VARIANT"@);
    lemma_insert_lookup_other(e1, "BUILD_ID"@, build_id, "PLATFORM_RELEASE"@);
    lemma_insert_lookup_other(e2, "BUILD_SHA"@, sha, "PLATFORM_VERSION"@);
    lemma_insert_lookup_other(e2, "BUILD_SHA"@, sha, "BUILD_ID"@);
    lemma_insert_lookup_same(e2, "BUILD_SHA"@, sha);
    lemma_insert_lookup_other(e2, "BUILD_SHA"@, sha, "RELEASE_BUILD"@);
    lemma_insert_lookup_other(e2, "BUILD_SHA"@, sha, "BUILD_VARIANT"@);
    lemma_insert_lookup_other(e2, "BUILD_SHA"@, sha, "PLATFORM_RELEASE"@);
    lemma_insert_lookup_other(e3, "RELEASE_BUILD"@, "0"@, "PLATFORM_VERSION"@);
    lemma_insert_lookup_other(e3, "RELEASE_BUILD"@, "0"@, "BUILD_ID"@);
    lemma_insert_lookup_other(e3, "RELEASE_BUILD"@, "0"@, "BUILD_SHA"@);
    lemma_insert_lookup_same(e3, "RELEASE_BUILD"@, "0"@);
    lemma_insert_lookup_other(e3, "RELEASE_BUILD"@, "0"@, "BUILD_VARIANT"@);
    lemma_insert_lookup_other(e3, "RELEASE_BUILD"@, "0"@, "PLATFORM_RELEASE"@);
    lemma_insert_lookup_other(e4, "BUILD_VARIANT"@, variant, "PLATFORM_VERSION"@);
    lemma_insert_lookup_other(e4, "BUILD_VARIANT"@, variant, "BUILD_ID"@);
    lemma_insert_lookup_other(e4, "BUILD_VARIANT"@, variant, "BUILD_SHA"@);
    lemma_insert_lookup_other(e4, "BUILD_VARIANT"@, variant, "RELEASE_BUILD"@);
    lemma_insert_lookup_same(e4, "BUILD_VARIANT"@, variant);
    lemma_insert_lookup_other(e4, "BUILD_VARIANT"@, variant, "PLATFORM_RELEASE"@);
    lemma_insert_lookup_other(e5, "PLATFORM_RELEASE"@, version + "-"@ + build_id, "PLATFORM_VERSION"@);
    lemma_insert_lookup_other(e5, "PLATFORM_RELEASE"@, version + "-"@ + build_id, "BUILD_ID"@);
    lemma_insert_lookup_other(e5, "PLATFORM_RELEASE"@, version + "-"@ + build_id, "BUILD_SHA"@);
    lemma_insert_lookup_other(e5, "PLATFORM_RELEASE"@, version + "-"@ + build_id, "RELEASE_BUILD"@);
    lemma_insert_lookup_other(e5, "PLATFORM_RELEASE"@, version + "-"@ + build_id, "BUILD_VARIANT"@);
    lemma_insert_lookup_same(e5, "PLATFORM_RELEASE"@, version + "-"@ + build_id);
    if variant == "release"@ {
        let e7 = entries_insert(e6, "BUILD_VARIANT"@, "release"@);
        let e8 = entries_insert(e7, "RELEASE_BUILD"@, "1"@);
        lemma_insert_lookup_other(e6, "BUILD_VARIANT"@, "release"@, "PLATFORM_VERSION"@);
        lemma_insert_lookup_other(e6, "BUILD_VARIANT"@, "release"@, "BUILD_ID"@);
        lemma_insert_lookup_other(e6, "BUILD_VARIANT"@, "release"@, "BUILD_SHA"@);
        lemma_insert_lookup_other(e6, "BUILD_VARIANT"@, "release"@, "RELEASE_BUILD"@);
        lemma_insert_lookup_same(e6, "BUILD_VARIANT"@, "release"@);
        lemma_insert_lookup_other(e6, "BUILD_VARIANT"@, "release"@, "PLATFORM_RELEASE"@);
        lemma_insert_lookup_other(e7, "RELEASE_BUILD"@, "1"@, "PLATFORM_VERSION"@);
        lemma_insert_lookup_other(e7, "RELEASE_BUILD"@, "1"@, "BUILD_ID"@);
        lemma_insert_lookup_other(e7, "RELEASE_BUILD"@, "1"@, "BUILD_SHA"@);
        lemma_insert_lookup_same(e7, "RELEASE_BUILD"@, "1"@);
        lemma_insert_lookup_other(e7, "RELEASE_BUILD"@, "1"@, "BUILD_VARIANT"@);
        lemma_insert_lookup_other(e7, "RELEASE_BUILD"@, "1"@, "PLATFORM_RELEASE"@);
    }
}

/// The context variables that a build adds from its command line (see
/// [`spec_extra_ctx`]).
pub fn extra_ctx(version: &str, build_id: &str, sha: &str, variant: &str) -> (res: IndexMap<String, String>)
    ensures
        index_map_entries(res) == spec_extra_ctx(version@, build_id@, sha@, variant@),
{
    proof {
        reveal_strlit("-");
        reveal_strlit("release");
    }
    let mut e: IndexMap<String, String> = map_new();
    map_insert(&mut e, "PLATFORM_VERSION".to_string(), version.to_string());
    map_insert(&mut e, "BUILD_ID".to_string(), build_id.to_string());
    map_insert(&mut e, "BUILD_SHA".to_string(), sha.to_string());
    map_insert(&mut e, "RELEASE_BUILD".to_string(), "0".to_string());
    map_insert(&mut e, "BUILD_VARIANT".to_string(), variant.to_string());
    map_insert(&mut e, "PLATFORM_RELEASE".to_string(), version.to_string().concat("-").concat(build_id));
    if str_eq(variant, "release") {
        map_insert(&mut e, "BUILD_VARIANT".to_string(), "release".to_string());
        map_insert(&mut e, "RELEASE_BUILD".to_string(), "1".to_string());
    }
    e
}

/// `KEY ?= "VALUE"` for each pair, in order.
pub open spec fn conf_lines(es: Seq<(Seq<char>, Seq<char>)>) -> Seq<Seq<char>> {
    es.map_values(|p: (Seq<char>, Seq<char>)| p.0 + " ?= \""@ + p.1 + "\""@)
}

/// The lines that a build adds to `local.conf`: for mirror tarballs, build history,
/// the source archiver and debug symbols when asked for, then the build's own context
/// variables.
pub open spec fn spec_bb_variables(tar_balls: bool, build_history: bool, archiver: bool, debug_symbols: bool,
    extra: Seq<(Seq<char>, Seq<char>)>) -> Seq<Seq<char>>
{
    (if tar_balls { seq!["BB_GENERATE_MIRROR_TARBALLS = \"1\""@] } else { seq![] })
        + (if build_history { seq!["INHERIT += \"buildhistory\""@, "BUILDHISTORY_COMMIT = \"1\""@] } else { seq![] })
        + (if archiver { seq!["INHERIT += \"archiver\""@, "ARCHIVER_MODE[src] = \"original\""@] } else { seq![] })
        + (if debug_symbols { seq!["IMAGE_GEN_DEBUGFS = \"1\""@, "IMAGE_FSTYPES_DEBUGFS = \"tar.bz2\""@] } else { seq![] })
        + conf_lines(extra)
}

/// No context line `KEY ?= "VALUE"` is a line without `?`, as the lines of the build
/// flags are.
proof fn lemma_conf_lines_hold_question_mark(extra: Seq<(Seq<char>, Seq<char>)>, lit: Seq<char>)
    requires
        forall|j: int| 0 <= j < lit.len() ==> lit[j] != '?',
    ensures
        forall|j: int| 0 <= j < extra.len() ==> #[trigger] conf_lines(extra)[j] != lit,
{
    reveal_strlit(" ?= \"");
    assert forall|j: int| 0 <= j < extra.len() implies #[trigger] conf_lines(extra)[j] != lit by {
        let p = extra[j];
        let line = p.0 + " ?= \""@ + p.1 + "\""@;
        assert(conf_lines(extra)[j] == line);
        assert(line[p.0.len() as int + 1] == '?');
        if line == lit {
            assert(lit[p.0.len() as int + 1] == '?');
        }
    }
}

/// The lines of the tarball, build-history and archiver flags never set
/// `IMAGE_GEN_DEBUGFS`.
proof fn lemma_other_flags_no_debugfs(tar_balls: bool, build_history: bool, archiver: bool)
    ensures
        !((if tar_balls { seq!["BB_GENERATE_MIRROR_TARBALLS = \"1\""@] } else { seq![] })
        + (if build_history { seq!["INHERIT += \"buildhistory\""@, "BUILDHISTORY_COMMIT = \"1\""@] } else { seq![] })
        + (if archiver { seq!["INHERIT += \"archiver\""@, "ARCHIVER_MODE[src] = \"original\""@] } else { seq![] }))
            .contains("IMAGE_GEN_DEBUGFS = \"1\""@),
{
    reveal_strlit("BB_GENERATE_MIRROR_TARBALLS = \"1\"");
    reveal_strlit("INHERIT += \"buildhistory\"");
    reveal_strlit("BUILDHISTORY_COMMIT = \"1\"");
    reveal_strlit("INHERIT += \"archiver\"");
    reveal_strlit("ARCHIVER_MODE[src] = \"original\"");
    reveal_strlit("IMAGE_GEN_DEBUGFS = \"1\"");
    let lit = "IMAGE_GEN_DEBUGFS = \"1\""@;
    let s1: Seq<Seq<char>> = if tar_balls { seq!["BB_GENERATE_MIRROR_TARBALLS = \"1\""@] } else { seq![] };
    let s2: Seq<Seq<char>> = if build_history { seq!["INHERIT += \"buildhistory\""@, "BUILDHISTORY_COMMIT = \"1\""@] } else { seq![] };
    let s3: Seq<Seq<char>> = if archiver { seq!["INHERIT += \"archiver\""@, "ARCHIVER_MODE[src] = \"original\""@] } else { seq![] };
    let all = s1 + s2 + s3;
    assert("BB_GENERATE_MIRROR_TARBALLS = \"1\""@.len() != lit.len());
    assert("INHERIT += \"buildhistory\""@.len() != lit.len());
    assert("BUILDHISTORY_COMMIT = \"1\""@.len() != lit.len());
    assert("INHERIT += \"archiver\""@.len() != lit.len());
    assert("ARCHIVER_MODE[src] = \"original\""@.len() != lit.len());
    assert forall|k: int| 0 <= k < all.len() implies #[trigger] all[k] != lit by {
        let t: int = s1.len() as int;
        let b: int = s2.len() as int;
        if k < t {
            assert(all[k] == s1[k]);
        } else if k < t + b {
            assert(all[k] == s2[k - t]);
        } else {
            assert(all[k] == s3[k - t - b]);
        }
    }
}

/// The lines that a build adds to `local.conf`, flag by flag: each flag that is set adds
/// its own lines, in the order tarballs, build history, archiver, debug symbols, and
/// then comes one `KEY ?= "VALUE"` line per context variable, in order.
pub proof fn lemma_bb_variables_per_flag(tar_balls: bool, build_history: bool, archiver: bool, debug_symbols: bool,
    extra: Seq<(Seq<char>, Seq<char>)>)
    ensures ({
        let res = spec_bb_variables(tar_balls, build_history, archiver, debug_symbols, extra);
        let t: int = if tar_balls { 1int } else { 0int };
        let b: int = if build_history { 2int } else { 0int };
        let a: int = if archiver { 2int } else { 0int };
        let d: int = if debug_symbols { 2int } else { 0int };
        &&& res.len() == t + b + a + d + extra.len()
        &&& tar_balls ==> res[0] == "BB_GENERATE_MIRROR_TARBALLS = \"1\""@
        &&& build_history ==> res[t] == "INHERIT += \"buildhistory\""@ && res[t + 1] == "BUILDHISTORY_COMMIT = \"1\""@
        &&& archiver ==> res[t + b] == "INHERIT += \"archiver\""@ && res[t + b + 1] == "ARCHIVER_MODE[src] = \"original\""@
        &&& debug_symbols ==> res[t + b + a] == "IMAGE_GEN_DEBUGFS = \"1\""@
            && res[t + b + a + 1] == "IMAGE_FSTYPES_DEBUGFS = \"tar.bz2\""@
        &&& forall|j: int| 0 <= j < extra.len() ==>
            res[t + b + a + d + j] == (#[trigger] extra[j]).0 + " ?= \""@ + extra[j].1 + "\""@
    }),
{
    let res = spec_bb_variables(tar_balls, build_history, archiver, debug_symbols, extra);
    let s1: Seq<Seq<char>> = if tar_balls { seq!["BB_GENERATE_MIRROR_TARBALLS = \"1\""@] } else { seq![] };
    let s2: Seq<Seq<char>> = if build_history { seq!["INHERIT += \"buildhistory\""@, "BUILDHISTORY_COMMIT = \"1\""@] } else { seq![] };
    let s3: Seq<Seq<char>> = if archiver { seq!["INHERIT += \"archiver\""@, "ARCHIVER_MODE[src] = \"original\""@] } else { seq![] };
    let s4: Seq<Seq<char>> = if debug_symbols { seq!["IMAGE_GEN_DEBUGFS = \"1\""@, "IMAGE_FSTYPES_DEBUGFS = \"tar.bz2\""@] } else { seq![] };
    let flags = s1 + s2 + s3 + s4;
    let conf = conf_lines(extra);
    assert(res == flags + conf);
    let t: int = s1.len() as int;
    let b: int = s2.len() as int;
    let a: int = s3.len() as int;
    let d: int = s4.len() as int;
    assert(flags.len() == t + b + a + d);
    assert forall|i: int| 0 <= i < flags.len() implies res[i] == #[trigger] flags[i] by {}
    assert forall|j: int| 0 <= j < extra.len() implies
        res[t + b + a + d + j] == (#[trigger] extra[j]).0 + " ?= \""@ + extra[j].1 + "\""@ by {
        assert(res[flags.len() + j] == conf[j]);
    }
    if tar_balls {
        assert(flags[0] == s1[0]);
    }
    if build_history {
        assert(flags[t] == s2[0]);
        assert(flags[t + 1] == s2[1]);
    }
    if archiver {
        assert(flags[t + b] == s3[0]);
        assert(flags[t + b + 1] == s3[1]);
    }
    if debug_symbols {
        assert(flags[t + b + a] == s4[0]);
        assert(flags[t + b + a + 1] == s4[1]);
    }
}

/// `IMAGE_GEN_DEBUGFS = "1"` is among the lines that a build adds to `local.conf`
/// exactly when debug symbols are asked for, whatever the other flags and the context.
pub proof fn lemma_bb_variables_debug_symbols(tar_balls: bool, build_history: bool, archiver: bool, debug_symbols: bool,
    extra: Seq<(Seq<char>, Seq<char>)>)
    ensures
        debug_symbols <==> spec_bb_variables(tar_balls, build_history, archiver, debug_symbols, extra)
            .contains("IMAGE_GEN_DEBUGFS = \"1\""@),
{
    reveal_strlit("IMAGE_GEN_DEBUGFS = \"1\"");
    let lit = "IMAGE_GEN_DEBUGFS = \"1\""@;
    let res = spec_bb_variables(tar_balls, build_history, archiver, debug_symbols, extra);
    let s123: Seq<Seq<char>> = (if tar_balls { seq!["BB_GENERATE_MIRROR_TARBALLS = \"1\""@] } else { seq![] })
        + (if build_history { seq!["INHERIT += \"buildhistory\""@, "BUILDHISTORY_COMMIT = \"1\""@] } else { seq![] })
        + (if archiver { seq!["INHERIT += \"archiver\""@, "ARCHIVER_MODE[src] = \"original\""@] } else { seq![] });
    let s4: Seq<Seq<char>> = if debug_symbols { seq!["IMAGE_GEN_DEBUGFS = \"1\""@, "IMAGE_FSTYPES_DEBUGFS = \"tar.bz2\""@] } else { seq![] };
    let conf = conf_lines(extra);
    assert(res == s123 + s4 + conf);
    if debug_symbols {
        let k: int = s123.len() as int;
        assert(res[k] == s4[0]);
        assert(res.contains(lit));
    } else {
        assert(res =~= s123 + conf);
        lemma_other_flags_no_debugfs(tar_balls, build_history, archiver);
        assert(forall|j: int| 0 <= j < lit.len() ==> lit[j] != '?');
        lemma_conf_lines_hold_question_mark(extra, lit);
        assert forall|k: int| 0 <= k < res.len() implies #[trigger] res[k] != lit by {
            if k < s123.len() {
                assert(res[k] == s123[k]);
                if s123[k] == lit {
                    assert(s123.contains(lit));
                }
            } else {
                assert(res[k] == conf[k - s123.len()]);
            }
        }
    }
}

/// The lines that a build adds to `local.conf` (see [`spec_bb_variables`]).
pub fn bb_variables(tar_balls: bool, build_history: bool, archiver: bool, debug_symbols: bool,
    extra: &IndexMap<String, String>) -> (res: Vec<String>)
    ensures
        texts(res@) == spec_bb_variables(tar_balls, build_history, archiver, debug_symbols, index_map_entries(*extra)),
{
    proof {
        reveal_strlit(" ?= \"");
        reveal_strlit("\"");
    }
    let mut v: Vec<String> = Vec::new();
    assert(texts(v@) =~= Seq::<Seq<char>>::empty());
    let ghost v0 = texts(v@);
    if tar_balls {
        extend_strings(&mut v, strings1("BB_GENERATE_MIRROR_TARBALLS = \"1\""));
    }
    let ghost v1 = texts(v@);
    assert(v1 =~= v0 + (if tar_balls { seq!["BB_GENERATE_MIRROR_TARBALLS = \"1\""@] } else { seq![] }));
    if build_history {
        extend_strings(&mut v, strings2("INHERIT += \"buildhistory\"", "BUILDHISTORY_COMMIT = \"1\""));
    }
    let ghost v2 = texts(v@);
    assert(v2 =~= v1 + (if build_history { seq!["INHERIT += \"buildhistory\""@, "BUILDHISTORY_COMMIT = \"1\""@] } else { seq![] }));
    if archiver {
        extend_strings(&mut v, strings2("INHERIT += \"archiver\"", "ARCHIVER_MODE[src] = \"original\""));
    }
    let ghost v3 = texts(v@);
    assert(v3 =~= v2 + (if archiver { seq!["INHERIT += \"archiver\""@, "ARCHIVER_MODE[src] = \"original\""@] } else { seq![] }));
    if debug_symbols {
        extend_strings(&mut v, strings2("IMAGE_GEN_DEBUGFS = \"1\"", "IMAGE_FSTYPES_DEBUGFS = \"tar.bz2\""));
    }
    let ghost v4 = texts(v@);
    assert(v4 =~= v3 + (if debug_symbols { seq!["IMAGE_GEN_DEBUGFS = \"1\""@, "IMAGE_FSTYPES_DEBUGFS = \"tar.bz2\""@] } else { seq![] }));
    let pairs = map_entries(extra);
    let ghost es = index_map_entries(*extra);
    let mut i: usize = 0;
    while i < pairs.len()
        invariant
            i <= pairs.len(),
            pairs@.map_values(|p: (String, String)| (p.0@, p.1@)) == es,
            texts(v@) == v4 + conf_lines(es.take(i as int)),
        decreases pairs.len() - i,
    {
        let line = pairs[i].0.clone().concat(" ?= \"").concat(pairs[i].1.as_str()).concat("\"");
        let ghost before = texts(v@);
        v.push(line);
        assert(es[i as int] == (pairs@[i as int].0@, pairs@[i as int].1@));
        assert(conf_lines(es.take(i as int + 1)) =~= conf_lines(es.take(i as int)).push(line@));
        assert(texts(v@) =~= before.push(line@));
        i = i + 1;
    }
    assert(es.take(pairs.len() as int) == es);
    assert(texts(v@) =~= spec_bb_variables(tar_balls, build_history, archiver, debug_symbols, es));
    v
}

/// The context of a build: the built-in variables, the `KEY=VALUE` arguments over them,
/// then the build's own variables (see [`spec_extra_ctx`]) set as an update does.
pub fn build_context(ctx: &Vec<String>, extra: &IndexMap<String, String>) -> (res: Result<WsContextData, BError>)
    requires
        forall|i: int| 0 <= i < ctx@.len() ==> #[trigger] is_key_value(ctx@[i]@),
    ensures
        res matches Ok(c) && c@ == updated(lowered_entries(lowered_entries(seq![], default_entries()),
            insert_all(seq![], texts(ctx@).map_values(|a: Seq<char>| arg_pair(a)))), index_map_entries(*extra)),
{
    let args = setup_context(ctx);
    let mut context = WsContextData::new(&args)?;
    context.update(extra);
    Ok(context)
}

/// The tasks a command works on: several named tasks as named; one name, or the default,
/// as itself, except `all`, which stands for every task of the build configuration.
pub open spec fn spec_select_tasks(requested: Seq<Seq<char>>, all: Seq<Seq<char>>) -> Seq<Seq<char>> {
    if requested.len() == 1 && requested[0] == "all"@ {
        all
    } else {
        requested
    }
}

/// The tasks a command works on (see [`spec_select_tasks`]); there is always at least
/// one name, since the argument has a default.
pub fn select_tasks(requested: &Vec<String>, all: &Vec<String>) -> (res: Vec<String>)
    requires
        requested@.len() >= 1,
    ensures
        texts(res@) == spec_select_tasks(texts(requested@), texts(all@)),
{
    proof {
        reveal_strlit("all");
    }
    let mut out: Vec<String> = Vec::new();
    assert(texts(out@) =~= Seq::<Seq<char>>::empty());
    if requested.len() == 1 && str_eq(requested[0].as_str(), "all") {
        extend_cloned(&mut out, all);
    } else {
        extend_cloned(&mut out, requested);
    }
    assert(texts(out@) =~= spec_select_tasks(texts(requested@), texts(all@)));
    out
}

/// The context that a deploy runs with: the built-in variables, the `KEY=VALUE`
/// arguments over them, then the device and the image when they are given (not `NA`).
pub open spec fn spec_deploy_context(ctx: Seq<Seq<char>>, device: Seq<char>, image: Seq<char>) -> Seq<(Seq<char>, Seq<char>)> {
    let base = lowered_entries(lowered_entries(seq![], default_entries()),
        insert_all(seq![], ctx.map_values(|a: Seq<char>| arg_pair(a))));
    let with_device = if device != "NA"@ { updated(base, seq![(CTX_KEY_DEVICE@, device), (DEVICE_VAR@, device)]) } else { base };
    if image != "NA"@ { updated(with_device, seq![(CTX_KEY_IMAGE@, image), (IMAGE_VAR@, image)]) } else { with_device }
}

/// Whether a deploy argument sets its variables: it is given (not `NA`), not empty, and
/// not `NA` in another case (which never overwrites a value).
pub open spec fn sets_value(v: Seq<char>) -> bool {
    v != "NA"@ && v.len() > 0 && spec_lowercase(v) != "na"@
}

/// The two variables of a deploy argument (the built-in one and the plain one), set to
/// `v`, both read `v` afterwards.
proof fn lemma_deploy_pair_stored(vars: Seq<(Seq<char>, Seq<char>)>, k1: Seq<char>, k2: Seq<char>, v: Seq<char>)
    requires
        sets_value(v),
        is_ascii_text(k1) && is_ascii_text(k2),
        spec_lowercase(k1) == ascii_lowered(k1),
        spec_lowercase(k2) == ascii_lowered(k2),
        k1.len() != k2.len(),
    ensures
        var_value(updated(vars, seq![(k1, v), (k2, v)]), k1) == v,
        var_value(updated(vars, seq![(k1, v), (k2, v)]), k2) == v,
{
    let pairs = seq![(k1, v), (k2, v)];
    assert(ascii_lowered(k1).len() != ascii_lowered(k2).len());
    assert(lowercase_unique(pairs));
    lemma_update_pairs(vars, pairs, 0);
    lemma_update_pairs(vars, pairs, 1);
}

/// Setting the image variables leaves the device variables as they were.
proof fn lemma_image_keeps_device(vars: Seq<(Seq<char>, Seq<char>)>, image: Seq<char>)
    requires
        spec_lowercase(CTX_KEY_DEVICE@) == ascii_lowered(CTX_KEY_DEVICE@),
        spec_lowercase(DEVICE_VAR@) == ascii_lowered(DEVICE_VAR@),
        image.len() > 0 ==> spec_lowercase(CTX_KEY_IMAGE@) == ascii_lowered(CTX_KEY_IMAGE@),
        image.len() > 0 ==> spec_lowercase(IMAGE_VAR@) == ascii_lowered(IMAGE_VAR@),
    ensures
        var_value(updated(vars, seq![(CTX_KEY_IMAGE@, image), (IMAGE_VAR@, image)]), CTX_KEY_DEVICE@)
            == var_value(vars, CTX_KEY_DEVICE@),
        var_value(updated(vars, seq![(CTX_KEY_IMAGE@, image), (IMAGE_VAR@, image)]), DEVICE_VAR@)
            == var_value(vars, DEVICE_VAR@),
{
    reveal_strlit("BKRY_DEVICE");
    reveal_strlit("DEVICE");
    reveal_strlit("BKRY_IMAGE");
    reveal_strlit("IMAGE");
    let pairs = seq![(CTX_KEY_IMAGE@, image), (IMAGE_VAR@, image)];
    assert forall|j: int| 0 <= j < pairs.len() && (#[trigger] pairs[j]).1.len() > 0
        implies spec_lowercase(pairs[j].0) != spec_lowercase(CTX_KEY_DEVICE@) by {
        assert(ascii_lowered(pairs[j].0).len() != ascii_lowered(CTX_KEY_DEVICE@).len());
    }
    lemma_update_frame(vars, pairs, CTX_KEY_DEVICE@);
    assert forall|j: int| 0 <= j < pairs.len() && (#[trigger] pairs[j]).1.len() > 0
        implies spec_lowercase(pairs[j].0) != spec_lowercase(DEVICE_VAR@) by {
        assert(ascii_lowered(pairs[j].0).len() != ascii_lowered(DEVICE_VAR@).len());
    }
    lemma_update_frame(vars, pairs, DEVICE_VAR@);
}

/// The variable that a deploy's `--device` argument sets besides the built-in one, so
/// that `$#[DEVICE]` reads it over a `DEVICE` of the build configuration.
pub const DEVICE_VAR: &'static str = "DEVICE";

/// The variable that a deploy's `--image` argument sets besides the built-in one.
pub const IMAGE_VAR: &'static str = "IMAGE";

/// A map holding two pairs with the same value.
fn pair_of(k1: &str, k2: &str, v: &str) -> (res: IndexMap<String, String>)
    requires
        k1@ != k2@,
    ensures
        index_map_entries(res) == seq![(k1@, v@), (k2@, v@)],
{
    let mut m = map_new();
    map_insert(&mut m, k1.to_string(), v.to_string());
    assert(entries_insert(Seq::<(Seq<char>, Seq<char>)>::empty(), k1@, v@) =~= seq![(k1@, v@)]);
    map_insert(&mut m, k2.to_string(), v.to_string());
    proof {
        crate::imap::lemma_find_in_range(seq![(k1@, v@)], k2@);
        if let Some(i) = crate::imap::entries_find(seq![(k1@, v@)], k2@) {
            assert(i == 0);
        }
        assert(seq![(k1@, v@)].push((k2@, v@)) =~= seq![(k1@, v@), (k2@, v@)]);
    }
    m
}

/// The context that a deploy runs with (see [`spec_deploy_context`]).
pub fn deploy_context(ctx: &Vec<String>, device: &str, image: &str) -> (res: Result<WsContextData, BError>)
    requires
        forall|i: int| 0 <= i < ctx@.len() ==> #[trigger] is_key_value(ctx@[i]@),
    ensures
        res matches Ok(c) && c@ == spec_deploy_context(texts(ctx@), device@, image@),
        sets_value(device@) ==> (res matches Ok(c) && var_value(c@, DEVICE_VAR@) == device@
            && var_value(c@, CTX_KEY_DEVICE@) == device@),
        sets_value(image@) ==> (res matches Ok(c) && var_value(c@, IMAGE_VAR@) == image@
            && var_value(c@, CTX_KEY_IMAGE@) == image@),
{
    proof {
        reveal_strlit("NA");
    }
    let args = setup_context(ctx);
    let mut context = WsContextData::new(&args)?;
    proof {
        reveal_strlit("BKRY_DEVICE");
        reveal_strlit("DEVICE");
        reveal_strlit("BKRY_IMAGE");
        reveal_strlit("IMAGE");
        assert(CTX_KEY_DEVICE@.len() != DEVICE_VAR@.len());
        assert(CTX_KEY_IMAGE@.len() != IMAGE_VAR@.len());
    }
    let ghost base = context@;
    if !str_eq(device, "NA") {
        let m = pair_of(CTX_KEY_DEVICE, DEVICE_VAR, device);
        context.update(&m);
        proof {
            assert(index_map_entries(m)[0] == (CTX_KEY_DEVICE@, device@));
            assert(index_map_entries(m)[1] == (DEVICE_VAR@, device@));
            assert(is_ascii_text(CTX_KEY_DEVICE@) && is_ascii_text(DEVICE_VAR@));
            if sets_value(device@) {
                lemma_deploy_pair_stored(base, CTX_KEY_DEVICE@, DEVICE_VAR@, device@);
            }
        }
    }
    let ghost mid = context@;
    if !str_eq(image, "NA") {
        let m = pair_of(CTX_KEY_IMAGE, IMAGE_VAR, image);
        context.update(&m);
        proof {
            assert(index_map_entries(m)[0] == (CTX_KEY_IMAGE@, image@));
            assert(index_map_entries(m)[1] == (IMAGE_VAR@, image@));
            assert(is_ascii_text(CTX_KEY_IMAGE@) && is_ascii_text(IMAGE_VAR@));
            if sets_value(image@) {
                lemma_deploy_pair_stored(mid, CTX_KEY_IMAGE@, IMAGE_VAR@, image@);
            }
            if sets_value(device@) {
                lemma_image_keeps_device(mid, image@);
            }
        }
    }
    Ok(context)
}

/// What the `shell` sub-command does.
pub enum ShellAction {
    /// Re-runs the tool inside a container of `image` with the command line `line`.
    Bootstrap { image: String, line: Vec<String> },
    /// Runs `cmd_line` here, or in a container of `docker` when one is given, with the
    /// bitbake environment of the build configuration sourced when `source_bb_env`.
    Shell { source_bb_env: bool, docker: Option<String>, cmd_line: Vec<String> },
}

/// The text of an optional string.
pub open spec fn opt_text(o: Option<String>) -> Option<Seq<char>> {
    match o {
        Some(s) => Some(s@),
        None => None,
    }
}

/// The image a shell runs in when one was given (`docker` not empty).
pub open spec fn given_image(docker: Seq<char>) -> Option<Seq<char>> {
    if docker.len() > 0 { Some(docker) } else { None }
}

/// Whether the tool bootstraps itself into docker: docker is enabled in the workspace
/// settings and the tool does not already run inside a container.
pub open spec fn bootstraps(settings: WsSettings, inside_docker: bool) -> bool {
    settings.docker_enabled@ == "true"@ && !inside_docker
}

/// The image the tool bootstraps into: the one of the build configuration's `bb` node
/// when it names one (not `NA`), else the one of the workspace settings.
pub open spec fn spec_bootstrap_image(settings: WsSettings, bb_docker: Seq<char>) -> Seq<char> {
    if bb_docker != "NA"@ {
        bb_docker
    } else {
        image_text(settings.docker_registry@, settings.docker_image@, settings.docker_tag@)
    }
}

/// The image the tool bootstraps into (see [`spec_bootstrap_image`]).
pub fn bootstrap_image(settings: &WsSettings, bb_docker: &str) -> (res: String)
    ensures
        res@ == spec_bootstrap_image(*settings, bb_docker@),
{
    proof {
        reveal_strlit("NA");
    }
    if !str_eq(bb_docker, "NA") {
        bb_docker.to_string()
    } else {
        let img = crate::executers::docker::DockerImage {
            image: settings.docker_image.clone(),
            tag: settings.docker_tag.clone(),
            registry: settings.docker_registry.clone(),
        };
        img.to_string()
    }
}

/// Checks that the workspace supports the build configuration `config`: the error names
/// a configuration that it does not.
pub fn supported_config(settings: &WsSettings, config: &str) -> (res: Result<(), BError>)
    ensures
        supports(*settings, config@) ==> res is Ok,
        !supports(*settings, config@) ==> (res matches Err(e) && e is CliError
            && e.message() == "Unsupported build config '"@ + config@ + "'"@),
{
    proof {
        reveal_strlit("Unsupported build config '");
        reveal_strlit("'");
    }
    if contains_text(&settings.supported, config) {
        Ok(())
    } else {
        Err(BError::CliError("Unsupported build config '".to_string().concat(config).concat("'")))
    }
}

/// An interactive bash.
pub open spec fn bash_line() -> Seq<Seq<char>> {
    seq!["/bin/bash"@, "-i"@]
}

/// The command line that runs `cmd` in an interactive bash (see [`run_cmd_line`]).
pub open spec fn spec_run_cmd_line(cmd: Seq<char>) -> Seq<Seq<char>> {
    seq!["/bin/bash"@, "-i"@, "-c"@, "\""@ + cmd + "\""@]
}

/// Decides what the `shell` sub-command does for the build configuration `config`, the
/// image `docker` and the command `cmd` (both empty when not given), the volumes and
/// `KEY=VALUE` environment arguments, the tool's own command line `args` and the image
/// of the configuration's `bb` node (`NA` when it names none).
///
/// With docker enabled and outside a container the tool bootstraps into one: with a
/// command, the line re-runs it there (see [`spec_shell_cmd_line`]); without, the
/// tool's own command line is re-run. Else `NA` opens a plain interactive shell; a
/// configuration that the workspace does not support is an error; any other opens an
/// interactive shell in the bitbake environment, or runs `cmd` in it.
pub fn shell_action(settings: &WsSettings, inside_docker: bool, config: &str, docker: &str, cmd: &str,
    volumes: &Vec<String>, env: &Vec<String>, args: &Vec<String>, bb_docker: &str) -> (res: Result<ShellAction, BError>)
    ensures
        bootstraps(*settings, inside_docker) ==> (res matches Ok(ShellAction::Bootstrap { image, line })
            && image@ == spec_bootstrap_image(*settings, bb_docker@)
            && texts(line@) == (if cmd@.len() > 0 {
                spec_shell_cmd_line(config@, docker@, texts(volumes@), texts(env@), cmd@)
            } else {
                texts(args@)
            })),
        (!bootstraps(*settings, inside_docker) && config@ == "NA"@) ==> (res matches Ok(
            ShellAction::Shell { source_bb_env, docker: d, cmd_line }) && !source_bb_env
            && opt_text(d) == given_image(docker@) && texts(cmd_line@) == bash_line()),
        (!bootstraps(*settings, inside_docker) && config@ != "NA"@ && !supports(*settings, config@)) ==> (
            res matches Err(e) && e is CliError && e.message() == "Unsupported build config '"@ + config@ + "'"@),
        (!bootstraps(*settings, inside_docker) && config@ != "NA"@ && supports(*settings, config@)) ==> (
            res matches Ok(ShellAction::Shell { source_bb_env, docker: d, cmd_line }) && source_bb_env
            && opt_text(d) == given_image(docker@)
            && texts(cmd_line@) == (if cmd@.len() > 0 { spec_run_cmd_line(cmd@) } else { bash_line() })),
{
    proof {
        reveal_strlit("true");
        reveal_strlit("NA");
        reveal_strlit("Unsupported build config '");
        reveal_strlit("'");
    }
    if str_eq(settings.docker_enabled.as_str(), "true") && !inside_docker {
        let image = bootstrap_image(settings, bb_docker);
        let line = if !cmd.is_empty() {
            shell_cmd_line(config, docker, volumes, env, cmd)
        } else {
            let mut l: Vec<String> = Vec::new();
            extend_cloned(&mut l, args);
            assert(texts(l@) =~= texts(args@));
            l
        };
        return Ok(ShellAction::Bootstrap { image, line });
    }
    let d: Option<String> = if docker.is_empty() { None } else { Some(docker.to_string()) };
    if str_eq(config, "NA") {
        let line = strings2("/bin/bash", "-i");
        return Ok(ShellAction::Shell { source_bb_env: false, docker: d, cmd_line: line });
    }
    if !contains_text(&settings.supported, config) {
        return Err(BError::CliError("Unsupported build config '".to_string().concat(config).concat("'")));
    }
    let line = if cmd.is_empty() { strings2("/bin/bash", "-i") } else { run_cmd_line(cmd) };
    Ok(ShellAction::Shell { source_bb_env: true, docker: d, cmd_line: line })
}

/// What cleaning one task does.
pub enum CleanStep {
    /// A bitbake task: the build directory `dir` is removed; `note` tells that the
    /// shared-state cache is kept.
    RemoveBuildDir { task: String, dir: String, note: String },
    /// Any other task: its clean command line runs, in a container of `docker` when the
    /// task names an image.
    Run { task: String, dir: String, cmd_line: Vec<String>, docker: Option<String> },
}

/// What is printed when a bitbake build directory is removed: the shared-state cache at
/// `sstate_dir` is kept.
pub open spec fn sstate_note(sstate_dir: Seq<char>) -> Seq<char> {
    "Please note that the sstate cache is not cleaned!\n"@ + "The sstate cache is located at '"@ + sstate_dir
        + "'\n"@ + "The sstate cache might be used by multiple builds\n"@
        + "removing the sstate cache will require a full build\n"@ + "and can potentially take hours\n"@
}

/// `step` cleans the task `t` of the build `data`.
pub open spec fn cleans(step: CleanStep, data: WsBuildData, t: TaskConfig) -> bool {
    match t.ttype {
        TType::Bitbake => step matches CleanStep::RemoveBuildDir { task, dir, note } && task@ == t.name@
            && dir@ == data.spec_task_build_dir(t) && note@ == sstate_note(spec_sstate_dir(data.bitbake@)),
        TType::NonBitbake => step matches CleanStep::Run { task, dir, cmd_line, docker } && task@ == t.name@
            && dir@ == data.spec_task_build_dir(t)
            && texts(cmd_line@) == spec_in_dir(dir@, spec_split(t.clean@, ' '))
            && opt_text(docker) == spec_task_docker(t.docker@, ""@),
    }
}

/// The position of the first task named `name`.
pub open spec fn task_pos(tasks: Seq<(String, TaskConfig)>, name: Seq<char>) -> Option<int> {
    if exists|i: int| 0 <= i < tasks.len() && #[trigger] tasks[i].0@ == name {
        Some(choose|i: int| 0 <= i < tasks.len() && #[trigger] tasks[i].0@ == name
            && forall|j: int| 0 <= j < i ==> #[trigger] tasks[j].0@ != name)
    } else {
        None
    }
}

/// The error for a task that the build configuration does not define.
pub open spec fn no_task_message(name: Seq<char>) -> Seq<char> {
    "Task '"@ + name + "' does not exist in build config"@
}

/// The step that cleans the task named `name`, or the error when there is none.
pub open spec fn clean_entry(res: Result<CleanStep, BError>, data: WsBuildData,
    tasks: Seq<(String, TaskConfig)>, name: Seq<char>) -> bool
{
    match task_pos(tasks, name) {
        Some(i) => res matches Ok(step) && cleans(step, data, tasks[i].1),
        None => res matches Err(e) && e is CliError && e.message() == no_task_message(name),
    }
}

/// `res` cleans the tasks named `names` in order, up to and including the first name
/// that `tasks` does not define, which is an error (see [`clean_entry`]).
pub open spec fn cleans_in_order(res: Seq<Result<CleanStep, BError>>, data: WsBuildData,
    tasks: Seq<(String, TaskConfig)>, names: Seq<Seq<char>>) -> bool
{
    &&& res.len() <= names.len()
    &&& forall|i: int| 0 <= i < res.len() ==> clean_entry(#[trigger] res[i], data, tasks, names[i])
    &&& forall|i: int| 0 <= i < res.len() - 1 ==> (#[trigger] res[i]) is Ok
    &&& res.len() < names.len() ==> res.len() > 0 && res[res.len() - 1] is Err
}

/// The first task position named `name`, if any.
fn find_task(tasks: &Vec<(String, TaskConfig)>, name: &str) -> (res: Option<usize>)
    ensures
        match res {
            Some(i) => task_pos(tasks@, name@) == Some(i as int) && i < tasks@.len(),
            None => task_pos(tasks@, name@) is None,
        },
{
    let mut i: usize = 0;
    while i < tasks.len()
        invariant
            i <= tasks.len(),
            forall|j: int| 0 <= j < i ==> #[trigger] tasks@[j].0@ != name@,
        decreases tasks.len() - i,
    {
        if str_eq(tasks[i].0.as_str(), name) {
            proof {
                let k = choose|k: int| 0 <= k < tasks@.len() && #[trigger] tasks@[k].0@ == name@
                    && forall|j: int| 0 <= j < k ==> #[trigger] tasks@[j].0@ != name@;
                assert(tasks@[i as int].0@ == name@);
                if k < i {
                    assert(tasks@[k].0@ != name@);
                }
                if k > i {
                    assert(tasks@[i as int].0@ != name@);
                }
            }
            return Some(i);
        }
        i = i + 1;
    }
    None
}

/// The step that cleans the task `t` (see [`cleans`]).
fn clean_step(data: &WsBuildData, t: &TaskConfig) -> (res: CleanStep)
    ensures
        cleans(res, *data, *t),
{
    match t.ttype {
        TType::Bitbake => {
            let sstate = data.bitbake().sstate_dir();
            let note = "Please note that the sstate cache is not cleaned!\n".to_string()
                .concat("The sstate cache is located at '").concat(sstate.as_str()).concat("'\n")
                .concat("The sstate cache might be used by multiple builds\n")
                .concat("removing the sstate cache will require a full build\n")
                .concat("and can potentially take hours\n");
            proof {
                assert(note@ =~= sstate_note(spec_sstate_dir(data.bitbake@)));
            }
            CleanStep::RemoveBuildDir { task: t.name.clone(), dir: data.task_build_dir(t), note }
        },
        TType::NonBitbake => {
            let dir = data.task_build_dir(t);
            let cmd_line = build_cmd_line(dir.as_str(), t.clean.as_str());
            CleanStep::Run { task: t.name.clone(), dir, cmd_line, docker: task_docker(t.docker.as_str(), "") }
        },
    }
}

/// What the `clean` sub-command does for the `requested` tasks (at least one name; `all`
/// alone stands for every task) of the build `data`, with
/// `tasks` the tasks of the build configuration as expanded with its context: one entry
/// per selected task, in order, up to and including the first name that the
/// configuration does not define, which is an error (see [`clean_entry`]).
pub fn clean_plan(data: &WsBuildData, tasks: &Vec<(String, TaskConfig)>, requested: &Vec<String>)
    -> (res: Vec<Result<CleanStep, BError>>)
    requires
        requested@.len() >= 1,
    ensures
        cleans_in_order(res@, *data, tasks@,
            spec_select_tasks(texts(requested@), entry_names(tasks@))),
{
    let all = names_of(tasks);
    let names = select_tasks(requested, &all);
    let ghost ns = spec_select_tasks(texts(requested@), entry_names(tasks@));
    let mut out: Vec<Result<CleanStep, BError>> = Vec::new();
    let mut i: usize = 0;
    while i < names.len()
        invariant
            i <= names.len(),
            texts(names@) == ns,
            ns == spec_select_tasks(texts(requested@), entry_names(tasks@)),
            out@.len() == i,
            forall|j: int| 0 <= j < i ==> clean_entry(#[trigger] out@[j], *data, tasks@, ns[j]),
            forall|j: int| 0 <= j < i ==> (#[trigger] out@[j]) is Ok,
        decreases names.len() - i,
    {
        assert(ns[i as int] == names@[i as int]@);
        match find_task(tasks, names[i].as_str()) {
            Some(p) => {
                let step = clean_step(data, &tasks[p].1);
                out.push(Ok(step));
            },
            None => {
                let ghost before = out@;
                out.push(Err(missing_task(names[i].as_str())));
                proof {
                    assert(out@.len() == i + 1);
                    assert forall|j: int| 0 <= j < i implies out@[j] == before[j] by {}
                    assert(clean_entry(out@[i as int], *data, tasks@, ns[i as int]));
                    assert(ns.len() == names@.len());
                    assert(cleans_in_order(out@, *data, tasks@, ns));
                }
                return out;
            },
        }
        i = i + 1;
    }
    out
}


/// What building one task runs: its command lines, in order, in its build directory
/// `dir`, in a container of `docker` when it runs in one; for a bitbake task
/// (`bitbake`) the bitbake configuration files are written first.
pub struct BuildStep {
    pub task: String,
    pub bitbake: bool,
    pub dir: String,
    pub cmd_lines: Vec<Vec<String>>,
    pub docker: Option<String>,
}

/// The texts of a list of command lines.
pub open spec fn line_texts(lines: Seq<Vec<String>>) -> Seq<Seq<Seq<char>>> {
    lines.map_values(|l: Vec<String>| texts(l@))
}

/// The command lines that build the recipes of a bitbake task in `dir`.
pub open spec fn recipe_lines(dir: Seq<char>, recipes: Seq<Seq<char>>) -> Seq<Seq<Seq<char>>> {
    recipes.map_values(|r: Seq<char>| spec_in_dir(dir, spec_bitbake_cmd(spec_recipe(r))))
}

/// A bitbake task's step runs one command line per recipe, in the recipes' order: the
/// i-th goes to the step's directory and runs bitbake on the i-th recipe.
pub proof fn lemma_bitbake_step_builds_every_recipe(step: BuildStep, data: WsBuildData, t: TaskConfig)
    requires
        builds(step, data, t),
        t.ttype == TType::Bitbake,
    ensures
        step.cmd_lines@.len() == t.recipes@.len(),
        forall|i: int| 0 <= i < t.recipes@.len() ==>
            texts(#[trigger] step.cmd_lines@[i]@)
                == seq!["cd"@, step.dir@, "&&"@] + spec_bitbake_cmd(spec_recipe(t.recipes@[i]@)),
{
    assert(line_texts(step.cmd_lines@).len() == step.cmd_lines@.len());
    assert forall|i: int| 0 <= i < t.recipes@.len() implies
        texts(#[trigger] step.cmd_lines@[i]@)
            == seq!["cd"@, step.dir@, "&&"@] + spec_bitbake_cmd(spec_recipe(t.recipes@[i]@)) by {
        assert(line_texts(step.cmd_lines@)[i] == texts(step.cmd_lines@[i]@));
        assert(texts(t.recipes@)[i] == t.recipes@[i]@);
    }
}

/// `step` builds the task `t` of the build `data`: a bitbake task builds each of its
/// recipes in the bitbake build directory, in the task's image or else the one of the
/// `bb` node; any other task runs its build command in its build directory, in the
/// task's image when it names one.
pub open spec fn builds(step: BuildStep, data: WsBuildData, t: TaskConfig) -> bool {
    &&& step.task@ == t.name@
    &&& step.dir@ == data.spec_task_build_dir(t)
    &&& step.bitbake == (t.ttype == TType::Bitbake)
    &&& match t.ttype {
        TType::Bitbake => line_texts(step.cmd_lines@) == recipe_lines(step.dir@, texts(t.recipes@))
            && opt_text(step.docker) == spec_task_docker(t.docker@, data.bitbake@.docker),
        TType::NonBitbake => line_texts(step.cmd_lines@) == seq![spec_in_dir(step.dir@, spec_split(t.build@, ' '))]
            && opt_text(step.docker) == spec_task_docker(t.docker@, ""@),
    }
}

/// The step that builds the task named `name`, or the error when there is none.
pub open spec fn build_entry(res: Result<BuildStep, BError>, data: WsBuildData,
    tasks: Seq<(String, TaskConfig)>, name: Seq<char>) -> bool
{
    match task_pos(tasks, name) {
        Some(i) => res matches Ok(step) && builds(step, data, tasks[i].1),
        None => res matches Err(e) && e is CliError && e.message() == no_task_message(name),
    }
}

/// `res` builds the tasks named `names` in order, up to and including the first name
/// that `tasks` does not define, which is an error (see [`build_entry`]).
pub open spec fn builds_in_order(res: Seq<Result<BuildStep, BError>>, data: WsBuildData,
    tasks: Seq<(String, TaskConfig)>, names: Seq<Seq<char>>) -> bool
{
    &&& res.len() <= names.len()
    &&& forall|i: int| 0 <= i < res.len() ==> build_entry(#[trigger] res[i], data, tasks, names[i])
    &&& forall|i: int| 0 <= i < res.len() - 1 ==> (#[trigger] res[i]) is Ok
    &&& res.len() < names.len() ==> res.len() > 0 && res[res.len() - 1] is Err
}

/// The step that builds the task `t` (see [`builds`]).
fn build_step(data: &WsBuildData, t: &TaskConfig) -> (res: BuildStep)
    ensures
        builds(res, *data, *t),
{
    let dir = data.task_build_dir(t);
    match t.ttype {
        TType::Bitbake => {
            let mut lines: Vec<Vec<String>> = Vec::new();
            let mut k: usize = 0;
            while k < t.recipes.len()
                invariant
                    k <= t.recipes.len(),
                    line_texts(lines@) == recipe_lines(dir@, texts(t.recipes@).take(k as int)),
                decreases t.recipes.len() - k,
            {
                let line = bitbake_cmd_line(dir.as_str(), t.recipes[k].as_str());
                let ghost before = lines@;
                lines.push(line);
                assert(texts(t.recipes@).take(k as int + 1) =~= texts(t.recipes@).take(k as int).push(t.recipes@[k as int]@));
                assert(line_texts(lines@) =~= line_texts(before).push(texts(line@)));
                assert(recipe_lines(dir@, texts(t.recipes@).take(k as int + 1))
                    =~= recipe_lines(dir@, texts(t.recipes@).take(k as int)).push(
                        spec_in_dir(dir@, spec_bitbake_cmd(spec_recipe(t.recipes@[k as int]@)))));
                k = k + 1;
            }
            assert(texts(t.recipes@).take(t.recipes.len() as int) =~= texts(t.recipes@));
            let docker = task_docker(t.docker.as_str(), data.bitbake().docker_image());
            BuildStep { task: t.name.clone(), bitbake: true, dir, cmd_lines: lines, docker }
        },
        TType::NonBitbake => {
            let line = build_cmd_line(dir.as_str(), t.build.as_str());
            let mut lines: Vec<Vec<String>> = Vec::new();
            lines.push(line);
            assert(line_texts(lines@) =~= seq![spec_in_dir(dir@, spec_split(t.build@, ' '))]);
            proof {
                reveal_strlit("");
            }
            let docker = task_docker(t.docker.as_str(), "");
            BuildStep { task: t.name.clone(), bitbake: false, dir, cmd_lines: lines, docker }
        },
    }
}

/// What the `build` sub-command runs for the `requested` tasks (at least one name;
/// `all` alone stands for every task) of the build `data`, with `tasks` the tasks of
/// the build configuration as expanded with its context: one entry per selected task,
/// in order, up to and including the first name that the configuration does not
/// define, which is an error (see [`build_entry`]).
pub fn build_plan(data: &WsBuildData, tasks: &Vec<(String, TaskConfig)>, requested: &Vec<String>)
    -> (res: Vec<Result<BuildStep, BError>>)
    requires
        requested@.len() >= 1,
    ensures
        builds_in_order(res@, *data, tasks@, spec_select_tasks(texts(requested@), entry_names(tasks@))),
{
    let all = names_of(tasks);
    let names = select_tasks(requested, &all);
    let ghost ns = spec_select_tasks(texts(requested@), entry_names(tasks@));
    let mut out: Vec<Result<BuildStep, BError>> = Vec::new();
    let mut i: usize = 0;
    while i < names.len()
        invariant
            i <= names.len(),
            texts(names@) == ns,
            ns == spec_select_tasks(texts(requested@), entry_names(tasks@)),
            out@.len() == i,
            forall|j: int| 0 <= j < i ==> build_entry(#[trigger] out@[j], *data, tasks@, ns[j]),
            forall|j: int| 0 <= j < i ==> (#[trigger] out@[j]) is Ok,
        decreases names.len() - i,
    {
        assert(ns[i as int] == names@[i as int]@);
        match find_task(tasks, names[i].as_str()) {
            Some(p) => {
                let step = build_step(data, &tasks[p].1);
                out.push(Ok(step));
            },
            None => {
                let ghost before = out@;
                out.push(Err(missing_task(names[i].as_str())));
                proof {
                    assert(out@.len() == i + 1);
                    assert forall|j: int| 0 <= j < i implies out@[j] == before[j] by {}
                    assert(build_entry(out@[i as int], *data, tasks@, ns[i as int]));
                    assert(ns.len() == names@.len());
                    assert(builds_in_order(out@, *data, tasks@, ns));
                }
                return out;
            },
        }
        i = i + 1;
    }
    out
}

/// The names of named tasks, in order.
fn names_of(tasks: &Vec<(String, TaskConfig)>) -> (res: Vec<String>)
    ensures
        texts(res@) == entry_names(tasks@),
{
    let mut all: Vec<String> = Vec::new();
    let mut k: usize = 0;
    while k < tasks.len()
        invariant
            k <= tasks.len(),
            texts(all@) == tasks@.take(k as int).map_values(|t: (String, TaskConfig)| t.0@),
        decreases tasks.len() - k,
    {
        all.push(tasks[k].0.clone());
        assert(tasks@.take(k as int + 1).map_values(|t: (String, TaskConfig)| t.0@)
            =~= tasks@.take(k as int).map_values(|t: (String, TaskConfig)| t.0@).push(tasks@[k as int].0@));
        assert(texts(all@) =~= tasks@.take(k as int + 1).map_values(|t: (String, TaskConfig)| t.0@));
        k = k + 1;
    }
    assert(tasks@.take(tasks.len() as int) =~= tasks@);
    all
}

/// The error for a task that the build configuration does not define.
fn missing_task(name: &str) -> (res: BError)
    ensures
        res is CliError && res.message() == no_task_message(name@),
{
    proof {
        reveal_strlit("Task '");
        reveal_strlit("' does not exist in build config");
    }
    BError::CliError("Task '".to_string().concat(name).concat("' does not exist in build config"))
}

} // verus!
