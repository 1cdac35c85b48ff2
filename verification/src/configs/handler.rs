//! Locating the workspace settings and the build configurations of a workspace, and
//! joining a build configuration with the configurations it includes.
//!
//! Which files exist, and what they hold, is for the caller to find out: the functions
//! here say where to look, in what order, and what to make of what was found.
use vstd::prelude::*;

use crate::configs::config::{parse, quoted, quoted_msg};
use crate::configs::task::{list_member, TaskConfig};
use crate::data::includes::{include_path, WsIncludeData};
use crate::data::product::{product_text, spec_product, WsProductData};
use crate::error::BError;
use crate::json::{json_text, spec_get, spec_json_text, spec_parse_json, Json};
use crate::paths::{join, spec_join};
use crate::text::{spec_unbraced, str_eq, strings2, texts, unbraced};
use crate::workspace::WsSettingsHandler;

verus! {

/// The name of a workspace settings file.
pub const WORKSPACE_SETTINGS: &'static str = "workspace.json";

/// The settings used when no settings file is found: the version alone.
pub const DEFAULT_SETTINGS: &'static str = "{\"version\": \"6\"}";

/// The build configuration that stands in for the name `NA`, so that sub-commands that
/// need no real build configuration (such as `list`) can run.
pub const DUMMY_BUILD_CONFIG: &'static str = "{\"version\": \"6\", \"name\": \"all\", \"description\": \"Dummy build config to be able to handle 'list' sub-command\", \"arch\": \"NA\"}";

/// A name without a directory part or an extension: not empty, with no `.` and no `/`.
pub open spec fn plain_name(name: Seq<char>) -> bool {
    name.len() > 0 && !name.contains('.') && !name.contains('/')
}

/// The extension of a build configuration file.
pub const JSON_EXTENSION: &'static str = "json";

/// What `Path::set_extension(extension)` makes of the path `name`.
pub uninterp spec fn spec_with_extension(name: Seq<char>, extension: Seq<char>) -> Seq<char>;

/// The name of the build configuration file of `name`.
pub open spec fn spec_json_file_name(name: Seq<char>) -> Seq<char> {
    spec_with_extension(name, JSON_EXTENSION@)
}

/// `PathBuf::set_extension(extension)` on the path `name`. Besides naming the result,
/// the contract states what the documentation shows for a plain name without a dot and
/// a non-empty extension: a dot and the extension are added. An extension holding a
/// path separator is left out, as `set_extension` may refuse it.
#[verifier::external_body]
fn with_extension(name: &str, extension: &str) -> (res: String)
    requires
        !extension@.contains('/'),
    ensures
        res@ == spec_with_extension(name@, extension@),
        (plain_name(name@) && extension@.len() > 0) ==> res@ == name@ + seq!['.'] + extension@,
{
    let mut p = std::path::PathBuf::from(name);
    p.set_extension(extension);
    p.to_string_lossy().to_string()
}

/// The name of the build configuration file of `name`: `name` with the extension
/// `json`.
fn json_file_name(name: &str) -> (res: String)
    ensures
        res@ == spec_json_file_name(name@),
        plain_name(name@) ==> res@ == name@ + ".json"@,
{
    proof {
        reveal_strlit("json");
        reveal_strlit(".json");
        assert(seq!['.'] + JSON_EXTENSION@ =~= ".json"@);
        assert(!JSON_EXTENSION@.contains('/'));
    }
    let r = with_extension(name, JSON_EXTENSION);
    proof {
        if plain_name(name@) {
            assert(name@ + seq!['.'] + JSON_EXTENSION@ =~= name@ + ".json"@);
        }
    }
    r
}

/// The `bb` node of a build configuration written as a JSON member (an empty object
/// when there is none).
pub open spec fn bb_text(data: Json) -> Seq<char> {
    "\"bb\": "@ + match spec_get(data, "bb"@) {
        Some(v) => spec_json_text(v),
        None => "{}"@,
    }
}

/// The members that every included configuration is given from the main one: the
/// product data, then the `bb` node.
pub open spec fn header_of(data: Json) -> Seq<char> {
    product_text(spec_product(data)) + ","@ + bb_text(data)
}

/// The text of an included configuration once the header of the main one is put in
/// front of its members.
pub open spec fn spec_include_config(header: Seq<char>, included: Seq<char>) -> Seq<char> {
    "{"@ + header + ","@ + spec_unbraced(included) + "}"@
}

/// Finds the files of a workspace.
pub struct WsConfigFileHandler {
    work_dir: String,
    bakery_dir: String,
}

impl WsConfigFileHandler {
    /// The workspace directory.
    pub closed spec fn spec_work_dir(&self) -> Seq<char> {
        self.work_dir@
    }

    /// The user's bakery directory.
    pub closed spec fn spec_bakery_dir(&self) -> Seq<char> {
        self.bakery_dir@
    }

    /// The files of the workspace at `work_dir` for the user whose home is `home_dir`:
    /// the user's own files are under `.bakery` there.
    pub fn new(work_dir: &str, home_dir: &str) -> (res: Self)
        ensures
            res.spec_work_dir() == work_dir@,
            res.spec_bakery_dir() == spec_join(home_dir@, ".bakery"@),
    {
        WsConfigFileHandler { work_dir: work_dir.to_string(), bakery_dir: join(home_dir, ".bakery") }
    }

    /// The settings files, in the order they are looked for: the user's own, which
    /// overrides the workspace's, then the one at the root of the workspace.
    pub fn settings_files(&self) -> (res: Vec<String>)
        ensures
            texts(res@) == seq![spec_join(self.spec_bakery_dir(), WORKSPACE_SETTINGS@),
                spec_join(self.spec_work_dir(), WORKSPACE_SETTINGS@)],
    {
        let home = join(self.bakery_dir.as_str(), WORKSPACE_SETTINGS);
        let work = join(self.work_dir.as_str(), WORKSPACE_SETTINGS);
        strings2(home.as_str(), work.as_str())
    }

    /// The workspace settings, given the texts of the settings files in the order of
    /// [`Self::settings_files`] (`None` for a file that is missing): those of the first
    /// file found, or the default settings when there is none.
    pub fn ws_settings(&self, found: &Vec<Option<String>>) -> (res: Result<WsSettingsHandler, BError>)
        ensures
            WsSettingsHandler::from_str_result(self.spec_work_dir(), match spec_first_found(found@) {
                Some(t) => t,
                None => DEFAULT_SETTINGS@,
            }, res),
    {
        match first_found(found) {
            Some(t) => WsSettingsHandler::from_str(self.work_dir.as_str(), t.as_str()),
            None => WsSettingsHandler::from_str(self.work_dir.as_str(), DEFAULT_SETTINGS),
        }
    }

    /// The members put in front of each included configuration: the product data, then
    /// the `bb` node.
    fn config_header(product: &WsProductData, bitbake_json: &str) -> (res: String)
        ensures
            res@ == product_text(product@) + ","@ + bitbake_json@,
    {
        proof {
            reveal_strlit(",");
        }
        product.to_string().concat(",").concat(bitbake_json)
    }

    /// Reads the main build configuration: the header that its included configurations
    /// are given and the files of those configurations, in order.
    pub fn setup_build_config(&self, build_config_json: &str, settings: &WsSettingsHandler) -> (res: Result<(String, Vec<String>), BError>)
        ensures
            match spec_parse_json(build_config_json@) {
                Ok(data) => match list_member(data, "include"@) {
                    None => res matches Err(e) && e is ParseError
                        && e.message() == quoted("Failed to read array '"@, "include"@),
                    Some(names) => res matches Ok(r) && r.0@ == header_of(data)
                        && texts(r.1@) == names.map_values(|n: Seq<char>| include_path(
                            spec_join(settings.spec_work_dir(), settings.spec_settings().include_dir@), n)),
                },
                Err(m) => res matches Err(e) && e is ParseError && e.message() == "Failed to parse JSON: "@ + m,
            },
    {
        let data: Json = parse(build_config_json)?;
        let product = match WsProductData::from_value(&data) {
            Ok(p) => p,
            Err(e) => return Err(e),
        };
        let included = WsIncludeData::from_value(&data, settings)?;
        proof {
            reveal_strlit("{}");
            reveal_strlit("bb");
        }
        let bb: String = match data.get("bb") {
            Some(v) => json_text(v),
            None => "{}".to_string(),
        };
        let bitbake_json = "\"bb\": ".to_string().concat(bb.as_str());
        let header = Self::config_header(&product, bitbake_json.as_str());
        let files = included.configs().clone();
        proof {
            let dir = spec_join(settings.spec_work_dir(), settings.spec_settings().include_dir@);
            let names = list_member(data, "include"@)->0;
            assert(texts(files@) =~= names.map_values(|n: Seq<char>| include_path(dir, n)));
        }
        Ok((header, files))
    }

    /// The text of an included configuration with `header` put in front of its members.
    pub fn include_config(header: &str, include_json: &str) -> (res: String)
        ensures
            res@ == spec_include_config(header@, include_json@),
    {
        proof {
            reveal_strlit("{");
            reveal_strlit(",");
            reveal_strlit("}");
        }
        let body = unbraced(include_json);
        "{".to_string().concat(header).concat(",").concat(body.as_str()).concat("}")
    }

    /// The files that may hold the build configuration `name`, in the order they are
    /// looked for: in the workspace directory, then in the configs directory.
    pub fn build_config_files(&self, name: &str, settings: &WsSettingsHandler) -> (res: Vec<String>)
        ensures
            texts(res@) == seq![spec_join(settings.spec_work_dir(), spec_json_file_name(name@)),
                spec_join(spec_join(settings.spec_work_dir(), settings.spec_settings().configs_dir@),
                    spec_json_file_name(name@))],
            plain_name(name@) ==> spec_json_file_name(name@) == name@ + ".json"@,
    {
        let file = json_file_name(name);
        let work = join(settings.work_dir().as_str(), file.as_str());
        let configs = join(settings.configs_dir().as_str(), file.as_str());
        strings2(work.as_str(), configs.as_str())
    }

    /// The text of the build configuration `name`, given the texts of its files in the
    /// order of [`Self::build_config_files`] (`None` for a file that is missing): that of
    /// the first file found; without one, `NA` stands for the dummy configuration and
    /// any other name is an error.
    pub fn build_config(&self, name: &str, found: &Vec<Option<String>>) -> (res: Result<String, BError>)
        ensures
            match spec_first_found(found@) {
                Some(t) => res matches Ok(r) && r@ == t,
                None => if spec_json_file_name(name@) == "NA.json"@ {
                    res matches Ok(t) && t@ == DUMMY_BUILD_CONFIG@
                } else {
                    res matches Err(e) && e is ValueError
                        && e.message() == "Build config '"@ + spec_json_file_name(name@) + "' missing!"@
                },
            },
            plain_name(name@) ==> spec_json_file_name(name@) == name@ + ".json"@,
            (spec_first_found(found@) is None && plain_name(name@) && name@ != "NA"@) ==> (res matches Err(e)
                && e is ValueError && e.message() == "Build config '"@ + name@ + ".json"@ + "' missing!"@),
    {
        let file = json_file_name(name);
        match first_found(found) {
            Some(t) => Ok(t),
            None => {
                proof {
                    reveal_strlit("NA.json");
                    reveal_strlit("NA");
                    reveal_strlit(".json");
                    if plain_name(name@) && name@ != "NA"@ {
                        assert(file@ == name@ + ".json"@);
                        if file@ == "NA.json"@ {
                            assert(".json"@.len() == 5);
                            assert("NA.json"@.len() == 7);
                            assert(file@.len() == name@.len() + 5);
                            assert(file@.subrange(0, name@.len() as int) =~= name@);
                            assert(name@.len() == 2);
                            assert("NA.json"@.subrange(0, 2) =~= "NA"@);
                        }
                    }
                }
                if str_eq(file.as_str(), "NA.json") {
                    Ok(DUMMY_BUILD_CONFIG.to_string())
                } else {
                    proof {
                        reveal_strlit("Build config '");
                        reveal_strlit("' missing!");
                    }
                    Err(BError::ValueError("Build config '".to_string().concat(file.as_str()).concat("' missing!")))
                }
            },
        }
    }
}

/// The names of named entries, in order.
pub open spec fn entry_names<T>(es: Seq<(String, T)>) -> Seq<Seq<char>> {
    es.map_values(|e: (String, T)| e.0@)
}

/// Whether one of the named entries `es` is named `name`.
pub open spec fn has_name<T>(es: Seq<(String, T)>, name: Seq<char>) -> bool {
    exists|i: int| 0 <= i < es.len() && #[trigger] es[i].0@ == name
}

/// The named entries `acc` extended with those of `more`, in order, that bring a name
/// not seen yet; an entry whose name is already there is dropped.
pub open spec fn merged<T>(acc: Seq<(String, T)>, more: Seq<(String, T)>) -> Seq<(String, T)>
    decreases more.len(),
{
    if more.len() == 0 {
        acc
    } else {
        let before = merged(acc, more.drop_last());
        if has_name(before, more.last().0@) { before } else { before.push(more.last()) }
    }
}

/// The named entries of a main build configuration extended with those of each of its
/// included configurations in turn (see [`merged`]).
pub open spec fn merged_all<T>(main: Seq<(String, T)>, included: Seq<Seq<(String, T)>>) -> Seq<(String, T)>
    decreases included.len(),
{
    if included.len() == 0 {
        main
    } else {
        merged(merged_all(main, included.drop_last()), included.last())
    }
}

/// Merging keeps what was there, in place, and adds only entries with new names.
pub proof fn lemma_merged_keeps<T>(acc: Seq<(String, T)>, more: Seq<(String, T)>)
    ensures
        merged(acc, more).len() >= acc.len(),
        merged(acc, more).subrange(0, acc.len() as int) == acc,
        forall|i: int| acc.len() <= i < merged(acc, more).len()
            ==> !has_name(acc, #[trigger] merged(acc, more)[i].0@),
    decreases more.len(),
{
    if more.len() > 0 {
        lemma_merged_keeps(acc, more.drop_last());
        let before = merged(acc, more.drop_last());
        if !has_name(before, more.last().0@) {
            assert(before.push(more.last()).subrange(0, acc.len() as int) =~= before.subrange(0, acc.len() as int));
            assert forall|i: int| acc.len() <= i < before.push(more.last()).len()
                implies !has_name(acc, #[trigger] before.push(more.last())[i].0@) by {
                if i < before.len() {
                    assert(before.push(more.last())[i] == before[i]);
                } else {
                    if has_name(acc, more.last().0@) {
                        let j = choose|j: int| 0 <= j < acc.len() && #[trigger] acc[j].0@ == more.last().0@;
                        assert(before[j] == before.subrange(0, acc.len() as int)[j]);
                        assert(before[j].0@ == more.last().0@);
                    }
                }
            }
        }
    }
}

/// A merged configuration starts with all the entries of the main configuration, in
/// order: on a name clash, the main configuration's entry is the one kept. Every later
/// entry comes from an included configuration and has a name that the main
/// configuration does not have.
pub proof fn lemma_main_config_wins<T>(main: Seq<(String, T)>, included: Seq<Seq<(String, T)>>)
    ensures
        merged_all(main, included).len() >= main.len(),
        merged_all(main, included).subrange(0, main.len() as int) == main,
        forall|i: int| main.len() <= i < merged_all(main, included).len()
            ==> !has_name(main, #[trigger] merged_all(main, included)[i].0@),
    decreases included.len(),
{
    if included.len() > 0 {
        lemma_main_config_wins(main, included.drop_last());
        let before = merged_all(main, included.drop_last());
        lemma_merged_keeps(before, included.last());
        let after = merged_all(main, included);
        assert(after.subrange(0, main.len() as int) =~= before.subrange(0, main.len() as int)) by {
            assert forall|i: int| 0 <= i < main.len() implies after[i] == before[i] by {
                assert(after.subrange(0, before.len() as int)[i] == after[i]);
            }
        }
        assert forall|i: int| main.len() <= i < after.len() implies !has_name(main, #[trigger] after[i].0@) by {
            if i < before.len() {
                assert(after.subrange(0, before.len() as int)[i] == after[i]);
            } else if has_name(main, after[i].0@) {
                let j = choose|j: int| 0 <= j < main.len() && #[trigger] main[j].0@ == after[i].0@;
                assert(before.subrange(0, main.len() as int)[j] == before[j]);
                assert(before[j].0@ == after[i].0@);
            }
        }
    }
}

/// Whether one of the named entries `es` is named `name`.
fn find_name<T>(es: &Vec<(String, T)>, name: &str) -> (res: bool)
    ensures
        res == has_name(es@, name@),
{
    let mut i: usize = 0;
    while i < es.len()
        invariant
            i <= es.len(),
            forall|j: int| 0 <= j < i ==> #[trigger] es@[j].0@ != name@,
        decreases es.len() - i,
    {
        if str_eq(es[i].0.as_str(), name) {
            return true;
        }
        i = i + 1;
    }
    false
}

/// Extends `acc` with the entries of `more` whose names are new (see [`merged`]).
fn merge_into<T>(acc: &mut Vec<(String, T)>, more: Vec<(String, T)>)
    ensures
        final(acc)@ == merged(old(acc)@, more@),
{
    let ghost all = more@;
    let ghost start = acc@;
    let mut rest = more;
    let n = rest.len();
    let mut k: usize = 0;
    while rest.len() > 0
        invariant
            n == all.len(),
            k + rest@.len() == n,
            rest@ == all.subrange(k as int, all.len() as int),
            acc@ == merged(start, all.take(k as int)),
        decreases rest@.len(),
    {
        let entry = rest.remove(0);
        assert(all.take(k as int + 1).drop_last() =~= all.take(k as int));
        assert(all.take(k as int + 1).last() == all[k as int]);
        if !find_name(acc, entry.0.as_str()) {
            acc.push(entry);
        }
        k = k + 1;
        assert(rest@ =~= all.subrange(k as int, all.len() as int));
    }
    assert(all.take(k as int) =~= all);
}

/// The named entries of a main build configuration extended with those of its included
/// configurations, in order: an entry whose name is already there is dropped, so the
/// main configuration wins every clash (see [`merged_all`]).
pub fn merge_named<T>(main: Vec<(String, T)>, included: Vec<Vec<(String, T)>>) -> (res: Vec<(String, T)>)
    ensures
        res@ == merged_all(main@, included@.map_values(|v: Vec<(String, T)>| v@)),
{
    let ghost all = included@.map_values(|v: Vec<(String, T)>| v@);
    let mut out = main;
    let ghost start = out@;
    let mut rest = included;
    let n = rest.len();
    let mut k: usize = 0;
    while rest.len() > 0
        invariant
            n == all.len(),
            k + rest@.len() == n,
            all == included@.map_values(|v: Vec<(String, T)>| v@),
            rest@.map_values(|v: Vec<(String, T)>| v@) == all.subrange(k as int, all.len() as int),
            out@ == merged_all(start, all.take(k as int)),
        decreases rest@.len(),
    {
        let ghost r0 = rest@;
        let more = rest.remove(0);
        assert(more@ == r0.map_values(|v: Vec<(String, T)>| v@)[0]);
        assert(all.take(k as int + 1).drop_last() =~= all.take(k as int));
        assert(all.take(k as int + 1).last() == all[k as int]);
        merge_into(&mut out, more);
        proof {
            assert forall|j: int| 0 <= j < rest@.len()
                implies #[trigger] rest@[j]@ == all[k + 1 + j] by {
                assert(rest@[j] == r0[j + 1]);
                assert(r0.map_values(|v: Vec<(String, T)>| v@)[j + 1] == all.subrange(k as int, all.len() as int)[j + 1]);
            }
        }
        k = k + 1;
        assert(rest@.map_values(|v: Vec<(String, T)>| v@) =~= all.subrange(k as int, all.len() as int));
    }
    assert(all.take(k as int) =~= all);
    out
}

/// The tasks of a main build configuration extended with those of its included
/// configurations: the main configuration's task is kept on every name clash, an
/// included configuration only adds tasks with new names, and the order is kept.
pub fn merge_tasks(main: Vec<(String, TaskConfig)>, included: Vec<Vec<(String, TaskConfig)>>) -> (res: Vec<(String, TaskConfig)>)
    ensures
        res@ == merged_all(main@, included@.map_values(|v: Vec<(String, TaskConfig)>| v@)),
        res@.subrange(0, main@.len() as int) == main@,
        forall|i: int| main@.len() <= i < res@.len() ==> !has_name(main@, #[trigger] res@[i].0@),
{
    proof {
        lemma_main_config_wins(main@, included@.map_values(|v: Vec<(String, TaskConfig)>| v@));
    }
    merge_named(main, included)
}


/// The text of the first of a list of candidate files that was found (`None` for a file
/// that is missing), in the order they are looked for.
pub open spec fn spec_first_found(found: Seq<Option<String>>) -> Option<Seq<char>>
    decreases found.len(),
{
    if found.len() == 0 {
        None
    } else {
        match found[0] {
            Some(t) => Some(t@),
            None => spec_first_found(found.drop_first()),
        }
    }
}

/// The text of the first candidate file that was found (see [`spec_first_found`]): the
/// workspace settings in the home directory before those of the workspace, and a build
/// configuration in the workspace before one in the configs directory.
pub fn first_found(found: &Vec<Option<String>>) -> (res: Option<String>)
    ensures
        match res {
            Some(t) => spec_first_found(found@) == Some(t@),
            None => spec_first_found(found@) is None,
        },
{
    let mut k: usize = 0;
    assert(found@.subrange(0, found@.len() as int) =~= found@);
    while k < found.len()
        invariant
            k <= found.len(),
            spec_first_found(found@) == spec_first_found(found@.subrange(k as int, found@.len() as int)),
        decreases found.len() - k,
    {
        let ghost rest = found@.subrange(k as int, found@.len() as int);
        assert(rest[0] == found@[k as int]);
        assert(rest.drop_first() =~= found@.subrange(k as int + 1, found@.len() as int));
        match &found[k] {
            Some(t) => {
                return Some(t.clone());
            },
            None => {},
        }
        k = k + 1;
    }
    assert(found@.subrange(k as int, found@.len() as int).len() == 0);
    None
}

/// Of two candidate files, the first that was found wins: the user's settings over the
/// workspace's, and a build configuration at the root of the workspace over one in the
/// configs directory.
pub proof fn lemma_first_of_two_found(first: Option<String>, second: Option<String>)
    ensures
        spec_first_found(seq![first, second]) == match first {
            Some(t) => Some(t@),
            None => match second {
                Some(t) => Some(t@),
                None => None::<Seq<char>>,
            },
        },
{
    let found = seq![first, second];
    assert(found.drop_first() =~= seq![second]);
    assert(found.drop_first().drop_first() =~= Seq::<Option<String>>::empty());
    reveal_with_fuel(spec_first_found, 3);
}

} // verus!
