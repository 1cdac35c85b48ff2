//! The context variables of a build: the built-in ones, with their defaults, and those
//! that the build configuration and the command line set.
use vstd::prelude::*;
use indexmap::IndexMap;

use crate::configs::config::{get_hashmap_value, pair_entries, parse, quoted};
use crate::configs::context::{ascii_keys_lowered, lemma_lowered_keeps_others, lemma_lowered_lookup_last, lowered_entries, Context};
use crate::error::BError;
use crate::imap::{entries_insert, entries_lookup, index_map_entries, map_entries, map_insert, map_new};
use crate::json::{spec_get, spec_parse_json, Json};
use crate::text::{ascii_lowered, is_ascii_text, spec_lowercase, to_lowercase, str_eq};

verus! {

pub const CTX_KEY_MACHINE: &'static str = "BKRY_MACHINE";
pub const CTX_KEY_ARCH: &'static str = "BKRY_ARCH";
pub const CTX_KEY_DISTRO: &'static str = "BKRY_DISTRO";
pub const CTX_KEY_BB_BUILD_DIR: &'static str = "BKRY_BB_BUILD_DIR";
pub const CTX_KEY_BB_DEPLOY_DIR: &'static str = "BKRY_BB_DEPLOY_DIR";
pub const CTX_KEY_ARTIFACTS_DIR: &'static str = "BKRY_ARTIFACTS_DIR";
pub const CTX_KEY_LAYERS_DIR: &'static str = "BKRY_LAYERS_DIR";
pub const CTX_KEY_SCRIPTS_DIR: &'static str = "BKRY_SCRIPTS_DIR";
pub const CTX_KEY_BUILDS_DIR: &'static str = "BKRY_BUILDS_DIR";
pub const CTX_KEY_WORK_DIR: &'static str = "BKRY_WORK_DIR";
pub const CTX_KEY_PLATFORM_VERSION: &'static str = "BKRY_PLATFORM_VERSION";
pub const CTX_KEY_BUILD_ID: &'static str = "BKRY_BUILD_ID";
pub const CTX_KEY_PLATFORM_RELEASE: &'static str = "BKRY_PLATFORM_RELEASE";
pub const CTX_KEY_BUILD_SHA: &'static str = "BKRY_BUILD_SHA";
pub const CTX_KEY_BUILD_VARIANT: &'static str = "BKRY_BUILD_VARIANT";
pub const CTX_KEY_RELEASE_BUILD: &'static str = "BKRY_RELEASE_BUILD";
pub const CTX_KEY_ARCHIVER: &'static str = "BKRY_ARCHIVER";
pub const CTX_KEY_DEBUG_SYMBOLS: &'static str = "BKRY_DEBUG_SYMBOLS";
pub const CTX_KEY_DEVICE: &'static str = "BKRY_DEVICE";
pub const CTX_KEY_IMAGE: &'static str = "BKRY_IMAGE";
pub const CTX_KEY_DATE: &'static str = "BKRY_DATE";
pub const CTX_KEY_TIME: &'static str = "BKRY_TIME";
pub const CTX_KEY_BRANCH: &'static str = "BKRY_BRANCH";
pub const CTX_KEY_PRODUCT_NAME: &'static str = "BKRY_PRODUCT_NAME";
pub const CTX_KEY_PROJECT_NAME: &'static str = "BKRY_PROJECT_NAME";
pub const CTX_KEY_NAME: &'static str = "BKRY_NAME";

/// The built-in variables with their defaults, inserted in order into an empty map.
pub open spec fn default_entries() -> Seq<(Seq<char>, Seq<char>)> {
    let e = entries_insert(seq![], CTX_KEY_MACHINE@, ""@);
    let e = entries_insert(e, CTX_KEY_ARCH@, ""@);
    let e = entries_insert(e, CTX_KEY_DISTRO@, ""@);
    let e = entries_insert(e, CTX_KEY_PRODUCT_NAME@, ""@);
    let e = entries_insert(e, CTX_KEY_PROJECT_NAME@, ""@);
    let e = entries_insert(e, CTX_KEY_NAME@, ""@);
    let e = entries_insert(e, CTX_KEY_BB_BUILD_DIR@, ""@);
    let e = entries_insert(e, CTX_KEY_BB_DEPLOY_DIR@, ""@);
    let e = entries_insert(e, CTX_KEY_ARTIFACTS_DIR@, ""@);
    let e = entries_insert(e, CTX_KEY_LAYERS_DIR@, ""@);
    let e = entries_insert(e, CTX_KEY_SCRIPTS_DIR@, ""@);
    let e = entries_insert(e, CTX_KEY_BUILDS_DIR@, ""@);
    let e = entries_insert(e, CTX_KEY_WORK_DIR@, ""@);
    let e = entries_insert(e, CTX_KEY_PLATFORM_VERSION@, "0.0.0"@);
    let e = entries_insert(e, CTX_KEY_BUILD_ID@, "0"@);
    let e = entries_insert(e, CTX_KEY_PLATFORM_RELEASE@, ""@);
    let e = entries_insert(e, CTX_KEY_BUILD_SHA@, ""@);
    let e = entries_insert(e, CTX_KEY_RELEASE_BUILD@, ""@);
    let e = entries_insert(e, CTX_KEY_BUILD_VARIANT@, "dev"@);
    let e = entries_insert(e, CTX_KEY_ARCHIVER@, ""@);
    let e = entries_insert(e, CTX_KEY_DEBUG_SYMBOLS@, ""@);
    let e = entries_insert(e, CTX_KEY_DEVICE@, ""@);
    let e = entries_insert(e, CTX_KEY_IMAGE@, ""@);
    let e = entries_insert(e, CTX_KEY_TIME@, ""@);
    let e = entries_insert(e, CTX_KEY_DATE@, ""@);
    entries_insert(e, CTX_KEY_BRANCH@, "NA"@)
}

/// The pairs after inserting each of `pairs` in turn.
pub open spec fn insert_all(es: Seq<(Seq<char>, Seq<char>)>, pairs: Seq<(Seq<char>, Seq<char>)>) -> Seq<(Seq<char>, Seq<char>)>
    decreases pairs.len(),
{
    if pairs.len() == 0 {
        es
    } else {
        entries_insert(insert_all(es, pairs.drop_last()), pairs.last().0, pairs.last().1)
    }
}

/// The value of `key` in the variables `vars` (lowercased lookup), or empty.
pub open spec fn var_value(vars: Seq<(Seq<char>, Seq<char>)>, key: Seq<char>) -> Seq<char> {
    match entries_lookup(vars, spec_lowercase(key)) {
        Some(v) => v,
        None => seq![],
    }
}

/// Whether an update keeps the pair `(key, value)`: an empty value never overwrites, and
/// `NA` (in any case) only fills a variable that is empty.
pub open spec fn keeps(vars: Seq<(Seq<char>, Seq<char>)>, key: Seq<char>, value: Seq<char>) -> bool {
    value.len() > 0 && (spec_lowercase(value) != "na"@ || var_value(vars, key).len() == 0)
}

/// The pairs of `pairs` that an update of `vars` keeps, in order.
pub open spec fn kept_pairs(vars: Seq<(Seq<char>, Seq<char>)>, pairs: Seq<(Seq<char>, Seq<char>)>) -> Seq<(Seq<char>, Seq<char>)>
    decreases pairs.len(),
{
    if pairs.len() == 0 {
        seq![]
    } else {
        let rest = kept_pairs(vars, pairs.drop_last());
        if keeps(vars, pairs.last().0, pairs.last().1) { rest.push(pairs.last()) } else { rest }
    }
}

/// The variables after an update with `pairs`.
pub open spec fn updated(vars: Seq<(Seq<char>, Seq<char>)>, pairs: Seq<(Seq<char>, Seq<char>)>) -> Seq<(Seq<char>, Seq<char>)> {
    lowered_entries(vars, insert_all(seq![], kept_pairs(vars, pairs)))
}

/// The variables that the `context` list of a build configuration gives: the built-in
/// variables with their defaults, then the pairs of the list over them.
pub open spec fn from_value_context(data: Json) -> Seq<(Seq<char>, Seq<char>)> {
    match spec_get(data, "context"@) {
        Some(Json::Array(items)) => lowered_entries(lowered_entries(seq![], default_entries()), pair_entries(items@)),
        _ => lowered_entries(seq![], default_entries()),
    }
}

/// The variables of a build.
pub struct WsContextData {
    context: Context,
}

impl View for WsContextData {
    type V = Seq<(Seq<char>, Seq<char>)>;

    closed spec fn view(&self) -> Seq<(Seq<char>, Seq<char>)> {
        self.context@
    }
}

/// The pairs of the `context` list of a build configuration (none without one).
pub open spec fn context_pairs(data: Json) -> Seq<(Seq<char>, Seq<char>)> {
    match spec_get(data, "context"@) {
        Some(Json::Array(items)) => pair_entries(items@),
        _ => seq![],
    }
}

/// No key of `vars` has the lowercase form of `key`.
pub open spec fn not_set_by(vars: Seq<(Seq<char>, Seq<char>)>, key: Seq<char>) -> bool {
    forall|j: int| 0 <= j < vars.len() ==> spec_lowercase(#[trigger] vars[j].0) != spec_lowercase(key)
}

/// No pair after the `i`-th of `vars` has a key with the same lowercase form.
pub open spec fn last_of_its_name(vars: Seq<(Seq<char>, Seq<char>)>, i: int) -> bool {
    forall|j: int| i < j < vars.len() ==> spec_lowercase(#[trigger] vars[j].0) != spec_lowercase(vars[i].0)
}

/// Whether `key` names a built-in variable that a user may set.
pub open spec fn spec_mutable_key(key: Seq<char>) -> bool {
    key == CTX_KEY_ARTIFACTS_DIR@ || key == CTX_KEY_SCRIPTS_DIR@ || key == CTX_KEY_PLATFORM_VERSION@
        || key == CTX_KEY_BUILD_ID@ || key == CTX_KEY_PLATFORM_RELEASE@ || key == CTX_KEY_BUILD_SHA@
        || key == CTX_KEY_BUILD_VARIANT@ || key == CTX_KEY_RELEASE_BUILD@ || key == CTX_KEY_ARCHIVER@
        || key == CTX_KEY_DEVICE@ || key == CTX_KEY_IMAGE@ || key == CTX_KEY_DATE@ || key == CTX_KEY_TIME@
        || key == CTX_KEY_BRANCH@ || key == CTX_KEY_DEBUG_SYMBOLS@
}

/// Inserts a variable with its default.
fn put(m: &mut IndexMap<String, String>, k: &str, v: &str)
    ensures
        index_map_entries(*final(m)) == entries_insert(index_map_entries(*old(m)), k@, v@),
{
    map_insert(m, k.to_string(), v.to_string());
}

impl WsContextData {
    fn mutable_key(key: &str) -> (res: bool)
        ensures
            res == spec_mutable_key(key@),
    {
        str_eq(key, CTX_KEY_ARTIFACTS_DIR) || str_eq(key, CTX_KEY_SCRIPTS_DIR) || str_eq(key, CTX_KEY_PLATFORM_VERSION)
            || str_eq(key, CTX_KEY_BUILD_ID) || str_eq(key, CTX_KEY_PLATFORM_RELEASE) || str_eq(key, CTX_KEY_BUILD_SHA)
            || str_eq(key, CTX_KEY_BUILD_VARIANT) || str_eq(key, CTX_KEY_RELEASE_BUILD) || str_eq(key, CTX_KEY_ARCHIVER)
            || str_eq(key, CTX_KEY_DEVICE) || str_eq(key, CTX_KEY_IMAGE) || str_eq(key, CTX_KEY_DATE)
            || str_eq(key, CTX_KEY_TIME) || str_eq(key, CTX_KEY_BRANCH) || str_eq(key, CTX_KEY_DEBUG_SYMBOLS)
    }

    /// Reads the `context` list of a build configuration from its text.
    pub fn from_str(json_string: &str) -> (res: Result<Self, BError>)
        ensures
            match spec_parse_json(json_string@) {
                Ok(data) => Self::from_value_result(data, res),
                Err(m) => res matches Err(e) && e is ParseError && e.message() == "Failed to parse JSON: "@ + m,
            },
    {
        let data: Json = parse(json_string)?;
        Self::from_value(&data)
    }

    /// What reading the `context` list of `data` gives.
    pub open spec fn from_value_result(data: Json, res: Result<Self, BError>) -> bool {
        match spec_get(data, "context"@) {
            Some(Json::Array(_)) => res matches Ok(c) && c@ == from_value_context(data),
            Some(_) => res matches Err(e) && e is ParseError
                && e.message() == quoted("Failed to parse hashmap. Error when reading object '"@, "context"@),
            None => res matches Ok(c) && c@ == from_value_context(data),
        }
    }

    /// Reads the `context` list (`KEY=VALUE` entries) of a build configuration.
    pub fn from_value(data: &Json) -> (res: Result<Self, BError>)
        ensures
            Self::from_value_result(*data, res),
            res is Ok ==> ascii_keys_lowered(default_entries()),
            res matches Ok(c) ==> forall|i: int| 0 <= i < default_pairs().len()
                && not_set_by(context_pairs(*data), default_pairs()[i].0)
                ==> var_value(c@, #[trigger] default_pairs()[i].0) == default_pairs()[i].1,
    {
        let variables: IndexMap<String, String> = get_hashmap_value("context", data)?;
        let r = Self::new(&variables);
        proof {
            if spec_get(*data, "context"@) is None {
                assert(index_map_entries(variables) == Seq::<(Seq<char>, Seq<char>)>::empty());
            }
            assert(index_map_entries(variables) == context_pairs(*data));
        }
        r
    }

    /// The built-in variables with their defaults, then `variables` (which override them).
    pub fn new(variables: &IndexMap<String, String>) -> (res: Result<Self, BError>)
        ensures
            res matches Ok(c) && c@ == lowered_entries(lowered_entries(seq![], default_entries()),
                index_map_entries(*variables)),
            ascii_keys_lowered(index_map_entries(*variables)),
            ascii_keys_lowered(default_entries()),
            res matches Ok(c) && forall|i: int| 0 <= i < index_map_entries(*variables).len()
                && last_of_its_name(index_map_entries(*variables), i)
                ==> var_value(c@, #[trigger] index_map_entries(*variables)[i].0) == index_map_entries(*variables)[i].1,
            res matches Ok(c) && forall|i: int| 0 <= i < default_pairs().len()
                && not_set_by(index_map_entries(*variables), default_pairs()[i].0)
                ==> var_value(c@, #[trigger] default_pairs()[i].0) == default_pairs()[i].1,
    {
        let mut d = map_new();
        put(&mut d, CTX_KEY_MACHINE, "");
        put(&mut d, CTX_KEY_ARCH, "");
        put(&mut d, CTX_KEY_DISTRO, "");
        put(&mut d, CTX_KEY_PRODUCT_NAME, "");
        put(&mut d, CTX_KEY_PROJECT_NAME, "");
        put(&mut d, CTX_KEY_NAME, "");
        put(&mut d, CTX_KEY_BB_BUILD_DIR, "");
        put(&mut d, CTX_KEY_BB_DEPLOY_DIR, "");
        put(&mut d, CTX_KEY_ARTIFACTS_DIR, "");
        put(&mut d, CTX_KEY_LAYERS_DIR, "");
        put(&mut d, CTX_KEY_SCRIPTS_DIR, "");
        put(&mut d, CTX_KEY_BUILDS_DIR, "");
        put(&mut d, CTX_KEY_WORK_DIR, "");
        put(&mut d, CTX_KEY_PLATFORM_VERSION, "0.0.0");
        put(&mut d, CTX_KEY_BUILD_ID, "0");
        put(&mut d, CTX_KEY_PLATFORM_RELEASE, "");
        put(&mut d, CTX_KEY_BUILD_SHA, "");
        put(&mut d, CTX_KEY_RELEASE_BUILD, "");
        put(&mut d, CTX_KEY_BUILD_VARIANT, "dev");
        put(&mut d, CTX_KEY_ARCHIVER, "");
        put(&mut d, CTX_KEY_DEBUG_SYMBOLS, "");
        put(&mut d, CTX_KEY_DEVICE, "");
        put(&mut d, CTX_KEY_IMAGE, "");
        put(&mut d, CTX_KEY_TIME, "");
        put(&mut d, CTX_KEY_DATE, "");
        put(&mut d, CTX_KEY_BRANCH, "NA");
        let mut ctx = Context::new(&d);
        ctx.update(variables);
        proof {
            let vs = index_map_entries(*variables);
            let base = lowered_entries(seq![], default_entries());
            assert forall|i: int| 0 <= i < vs.len() && last_of_its_name(vs, i)
                implies var_value(ctx@, #[trigger] vs[i].0) == vs[i].1 by {
                lemma_lowered_lookup_last(base, vs, i);
            }
            lemma_default_entries();
            lemma_default_distinct();
            lemma_default_codes();
            let p = default_pairs();
            assert forall|i: int| 0 <= i < p.len() && not_set_by(vs, p[i].0)
                implies var_value(ctx@, #[trigger] p[i].0) == p[i].1 by {
                let lk = spec_lowercase(p[i].0);
                lemma_lowered_keeps_others(base, vs, lk);
                assert forall|j: int| i < j < p.len() implies spec_lowercase(#[trigger] p[j].0) != spec_lowercase(p[i].0) by {
                    assert(is_ascii_text(p[j].0) && is_ascii_text(p[i].0));
                    assert(ascii_lowered(p[i].0) != ascii_lowered(p[j].0));
                }
                lemma_lowered_lookup_last(seq![], p, i);
            }
        }
        Ok(WsContextData { context: ctx })
    }

    /// Whether `key` names a built-in variable that a user may set.
    pub fn _is_mutable(&self, key: &str) -> (res: bool)
        ensures
            res == spec_mutable_key(key@),
    {
        Self::mutable_key(key)
    }

    /// The variables as a [`Context`].
    pub fn ctx(&self) -> (res: &Context)
        ensures
            res@ == self@,
    {
        &self.context
    }

    /// Sets the pairs of `variables`, skipping a pair whose value is empty, and one whose
    /// value is `NA` (in any case) where the variable already has a non-empty value.
    pub fn update(&mut self, variables: &IndexMap<String, String>)
        ensures
            final(self)@ == updated(old(self)@, index_map_entries(*variables)),
            forall|j: int| 0 <= j < index_map_entries(*variables).len()
                && (#[trigger] index_map_entries(*variables)[j]).1.len() > 0
                && is_ascii_text(index_map_entries(*variables)[j].0)
                ==> spec_lowercase(index_map_entries(*variables)[j].0) == ascii_lowered(index_map_entries(*variables)[j].0),
    {
        let pairs = map_entries(variables);
        let ghost vs = pairs@.map_values(|p: (String, String)| (p.0@, p.1@));
        let ghost vars = self@;
        let mut v: IndexMap<String, String> = map_new();
        let mut i: usize = 0;
        while i < pairs.len()
            invariant
                i <= pairs.len(),
                vs == pairs@.map_values(|p: (String, String)| (p.0@, p.1@)),
                vs == index_map_entries(*variables),
                vars == self@,
                index_map_entries(v) == insert_all(seq![], kept_pairs(vars, vs.take(i as int))),
                forall|j: int| 0 <= j < i && (#[trigger] vs[j]).1.len() > 0 && is_ascii_text(vs[j].0)
                    ==> spec_lowercase(vs[j].0) == ascii_lowered(vs[j].0),
            decreases pairs.len() - i,
        {
            assert(vs[i as int] == (pairs@[i as int].0@, pairs@[i as int].1@));
            assert(vs.take(i as int + 1).drop_last() == vs.take(i as int));
            assert(vs.take(i as int + 1).last() == vs[i as int]);
            let key: &String = &pairs[i].0;
            let value: &String = &pairs[i].1;
            if !value.as_str().is_empty() {
                let lowered = to_lowercase(value.as_str());
                let current = self.context.value(key.as_str());
                if !str_eq(lowered.as_str(), "na") || current.as_str().is_empty() {
                    proof {
                        reveal_strlit("na");
                        let rest = kept_pairs(vars, vs.take(i as int));
                        assert(rest.push(vs[i as int]).drop_last() == rest);
                    }
                    map_insert(&mut v, key.clone(), value.clone());
                } else {
                    proof {
                        reveal_strlit("na");
                    }
                }
            }
            i = i + 1;
        }
        assert(vs.take(pairs.len() as int) == vs);
        self.context.update(&v);
    }

    /// Sets the variables of `context`, as [`WsContextData::update`] does.
    pub fn update_ctx(&mut self, context: &Context)
        ensures
            final(self)@ == updated(old(self)@, context@),
    {
        self.update(context.variables());
    }

    /// The value of the variable `key` (compared without regard to case), or the empty
    /// string when there is none.
    pub fn get_ctx_value(&self, key: &str) -> (res: String)
        ensures
            res@ == var_value(self@, key@),
            is_ascii_text(key@) ==> spec_lowercase(key@) == ascii_lowered(key@),
    {
        self.context.value(key)
    }

    /// The value of the variable `key`, read as a path.
    pub fn get_ctx_path(&self, key: &str) -> (res: String)
        ensures
            res@ == var_value(self@, key@),
    {
        self.get_ctx_value(key)
    }
}

/// An update never stores an empty value: a pair with an empty value leaves the
/// variables as they were.
pub proof fn lemma_update_skips_empty(vars: Seq<(Seq<char>, Seq<char>)>, key: Seq<char>)
    ensures
        updated(vars, seq![(key, seq![])]) == vars,
{
    let pairs = seq![(key, Seq::<char>::empty())];
    assert(pairs.drop_last() =~= Seq::<(Seq<char>, Seq<char>)>::empty());
    assert(pairs.last() == (key, Seq::<char>::empty()));
    assert(kept_pairs(vars, pairs.drop_last()) == Seq::<(Seq<char>, Seq<char>)>::empty());
    assert(kept_pairs(vars, pairs) == Seq::<(Seq<char>, Seq<char>)>::empty());
    assert(insert_all(seq![], Seq::<(Seq<char>, Seq<char>)>::empty()) == Seq::<(Seq<char>, Seq<char>)>::empty());
    assert(lowered_entries(vars, Seq::<(Seq<char>, Seq<char>)>::empty()) == vars);
}

/// `NA` (in any case) never overwrites a variable that has a value.
pub proof fn lemma_update_na_keeps(vars: Seq<(Seq<char>, Seq<char>)>, key: Seq<char>, value: Seq<char>)
    requires
        spec_lowercase(value) == "na"@,
        var_value(vars, key).len() > 0,
    ensures
        updated(vars, seq![(key, value)]) == vars,
{
    let pairs = seq![(key, value)];
    assert(pairs.drop_last() =~= Seq::<(Seq<char>, Seq<char>)>::empty());
    assert(pairs.last() == (key, value));
    assert(kept_pairs(vars, pairs.drop_last()) == Seq::<(Seq<char>, Seq<char>)>::empty());
    assert(kept_pairs(vars, pairs) == Seq::<(Seq<char>, Seq<char>)>::empty());
    assert(insert_all(seq![], Seq::<(Seq<char>, Seq<char>)>::empty()) == Seq::<(Seq<char>, Seq<char>)>::empty());
    assert(lowered_entries(vars, Seq::<(Seq<char>, Seq<char>)>::empty()) == vars);
}

/// Any other non-empty value is stored: after the update, reading the variable gives it.
pub proof fn lemma_update_stores(vars: Seq<(Seq<char>, Seq<char>)>, key: Seq<char>, value: Seq<char>)
    requires
        keeps(vars, key, value),
    ensures
        var_value(updated(vars, seq![(key, value)]), key) == value,
{
    let pairs = seq![(key, value)];
    assert(pairs.drop_last() =~= Seq::<(Seq<char>, Seq<char>)>::empty());
    assert(pairs.last() == (key, value));
    assert(kept_pairs(vars, pairs.drop_last()) == Seq::<(Seq<char>, Seq<char>)>::empty());
    assert(kept_pairs(vars, pairs) =~= pairs);
    let e0 = Seq::<(Seq<char>, Seq<char>)>::empty();
    assert(insert_all(seq![], pairs) == entries_insert(insert_all(seq![], pairs.drop_last()), key, value));
    assert(insert_all(seq![], pairs.drop_last()) == e0);
    assert(entries_insert(e0, key, value) =~= pairs);
    crate::configs::context::lemma_update_then_value(vars, key, value);
}

/// Whether `k` is the key of one of `es`.
pub open spec fn has_key(es: Seq<(Seq<char>, Seq<char>)>, k: Seq<char>) -> bool {
    exists|j: int| 0 <= j < es.len() && #[trigger] es[j].0 == k
}

/// The pairs that an update keeps come from the update's pairs and have non-empty
/// values.
pub proof fn lemma_kept_from(vars: Seq<(Seq<char>, Seq<char>)>, pairs: Seq<(Seq<char>, Seq<char>)>)
    ensures
        forall|i: int| 0 <= i < kept_pairs(vars, pairs).len() ==> (#[trigger] kept_pairs(vars, pairs)[i]).1.len() > 0
            && exists|j: int| 0 <= j < pairs.len() && pairs[j] == kept_pairs(vars, pairs)[i],
    decreases pairs.len(),
{
    if pairs.len() > 0 {
        let rest = pairs.drop_last();
        lemma_kept_from(vars, rest);
        let kr = kept_pairs(vars, rest);
        let k = kept_pairs(vars, pairs);
        assert forall|i: int| 0 <= i < k.len() implies (#[trigger] k[i]).1.len() > 0
            && exists|j: int| 0 <= j < pairs.len() && pairs[j] == k[i] by {
            if i < kr.len() {
                assert(k[i] == kr[i]);
                let j = choose|j: int| 0 <= j < rest.len() && rest[j] == kr[i];
                assert(pairs[j] == rest[j]);
            } else {
                assert(k[i] == pairs.last());
                assert(pairs[pairs.len() - 1] == k[i]);
            }
        }
    }
}

/// The keys of the pairs inserted into an empty set are keys of those pairs.
pub proof fn lemma_insert_all_keys(ps: Seq<(Seq<char>, Seq<char>)>)
    ensures
        forall|i: int| 0 <= i < insert_all(seq![], ps).len() ==> has_key(ps, (#[trigger] insert_all(seq![], ps)[i]).0),
    decreases ps.len(),
{
    if ps.len() > 0 {
        let rest = ps.drop_last();
        lemma_insert_all_keys(rest);
        let before = insert_all(seq![], rest);
        let after = insert_all(seq![], ps);
        crate::imap::lemma_find_in_range(before, ps.last().0);
        assert forall|i: int| 0 <= i < after.len() implies has_key(ps, (#[trigger] after[i]).0) by {
            if after[i].0 == ps.last().0 {
                assert(ps[ps.len() - 1].0 == after[i].0);
            } else {
                assert(after[i] == before[i]);
                let j = choose|j: int| 0 <= j < rest.len() && #[trigger] rest[j].0 == before[i].0;
                assert(ps[j] == rest[j]);
            }
        }
    }
}

/// An update leaves every variable that none of its pairs with a non-empty value names
/// (by lowercase form) as it was.
pub proof fn lemma_update_frame(vars: Seq<(Seq<char>, Seq<char>)>, pairs: Seq<(Seq<char>, Seq<char>)>, key: Seq<char>)
    requires
        forall|j: int| 0 <= j < pairs.len() && (#[trigger] pairs[j]).1.len() > 0
            ==> spec_lowercase(pairs[j].0) != spec_lowercase(key),
    ensures
        var_value(updated(vars, pairs), key) == var_value(vars, key),
{
    let kept = kept_pairs(vars, pairs);
    let stored = insert_all(seq![], kept);
    lemma_kept_from(vars, pairs);
    lemma_insert_all_keys(kept);
    assert forall|i: int| 0 <= i < stored.len() implies spec_lowercase(#[trigger] stored[i].0) != spec_lowercase(key) by {
        let j = choose|j: int| 0 <= j < kept.len() && #[trigger] kept[j].0 == stored[i].0;
        assert(kept[j].1.len() > 0);
        let m = choose|m: int| 0 <= m < pairs.len() && pairs[m] == kept[j];
        assert(pairs[m].1.len() > 0);
    }
    lemma_lowered_keeps_others(vars, stored, spec_lowercase(key));
}

/// No two of `pairs` have keys with the same lowercase form.
pub open spec fn lowercase_unique(pairs: Seq<(Seq<char>, Seq<char>)>) -> bool {
    forall|a: int, b: int| 0 <= a < b < pairs.len()
        ==> spec_lowercase(#[trigger] pairs[a].0) != spec_lowercase(#[trigger] pairs[b].0)
}

/// Where the pairs that an update keeps come from: the `q`-th kept pair is the
/// `idx[q]`-th of `pairs`, in increasing order, and every pair that passes the test is
/// kept.
proof fn lemma_kept_indices(vars: Seq<(Seq<char>, Seq<char>)>, pairs: Seq<(Seq<char>, Seq<char>)>) -> (idx: Seq<int>)
    ensures
        idx.len() == kept_pairs(vars, pairs).len(),
        forall|q: int| 0 <= q < idx.len() ==> 0 <= #[trigger] idx[q] < pairs.len()
            && kept_pairs(vars, pairs)[q] == pairs[idx[q]],
        forall|q1: int, q2: int| 0 <= q1 < q2 < idx.len() ==> #[trigger] idx[q1] < #[trigger] idx[q2],
        forall|j: int| 0 <= j < pairs.len() && keeps(vars, pairs[j].0, pairs[j].1)
            ==> exists|q: int| 0 <= q < idx.len() && #[trigger] idx[q] == j,
        forall|j: int| 0 <= j < pairs.len() && !keeps(vars, pairs[j].0, pairs[j].1)
            ==> forall|q: int| 0 <= q < idx.len() ==> #[trigger] idx[q] != j,
    decreases pairs.len(),
{
    if pairs.len() == 0 {
        Seq::<int>::empty()
    } else {
        let rest = pairs.drop_last();
        let prev = lemma_kept_indices(vars, rest);
        let n = pairs.len() - 1;
        assert forall|j: int| 0 <= j < rest.len() implies #[trigger] rest[j] == pairs[j] by {}
        if keeps(vars, pairs.last().0, pairs.last().1) {
            let idx = prev.push(n);
            let k = kept_pairs(vars, pairs);
            assert(k == kept_pairs(vars, rest).push(pairs.last()));
            assert forall|q: int| 0 <= q < idx.len() implies 0 <= #[trigger] idx[q] < pairs.len()
                && k[q] == pairs[idx[q]] by {
                if q < prev.len() {
                    assert(idx[q] == prev[q]);
                }
            }
            assert forall|q1: int, q2: int| 0 <= q1 < q2 < idx.len() implies #[trigger] idx[q1] < #[trigger] idx[q2] by {
                if q2 < prev.len() {
                    assert(idx[q1] == prev[q1] && idx[q2] == prev[q2]);
                } else {
                    assert(idx[q1] == prev[q1]);
                }
            }
            assert forall|j: int| 0 <= j < pairs.len() && keeps(vars, pairs[j].0, pairs[j].1)
                implies exists|q: int| 0 <= q < idx.len() && #[trigger] idx[q] == j by {
                if j < n {
                    assert(rest[j] == pairs[j]);
                    let q = choose|q: int| 0 <= q < prev.len() && #[trigger] prev[q] == j;
                    assert(idx[q] == prev[q]);
                } else {
                    assert(idx[prev.len() as int] == n);
                }
            }
            assert forall|j: int| 0 <= j < pairs.len() && !keeps(vars, pairs[j].0, pairs[j].1)
                implies forall|q: int| 0 <= q < idx.len() ==> #[trigger] idx[q] != j by {
                assert(j != n);
                assert(rest[j] == pairs[j]);
                assert forall|q: int| 0 <= q < idx.len() implies #[trigger] idx[q] != j by {
                    if q < prev.len() {
                        assert(idx[q] == prev[q]);
                    }
                }
            }
            idx
        } else {
            let k = kept_pairs(vars, pairs);
            assert(k == kept_pairs(vars, rest));
            assert forall|j: int| 0 <= j < pairs.len() && keeps(vars, pairs[j].0, pairs[j].1)
                implies exists|q: int| 0 <= q < prev.len() && #[trigger] prev[q] == j by {
                assert(j != n);
                assert(rest[j] == pairs[j]);
            }
            assert forall|j: int| 0 <= j < pairs.len() && !keeps(vars, pairs[j].0, pairs[j].1)
                implies forall|q: int| 0 <= q < prev.len() ==> #[trigger] prev[q] != j by {
                if j < n {
                    assert(rest[j] == pairs[j]);
                }
            }
            prev
        }
    }
}

/// Inserting pairs whose keys all differ keeps them as they are.
proof fn lemma_insert_all_distinct(ps: Seq<(Seq<char>, Seq<char>)>)
    requires
        forall|a: int, b: int| 0 <= a < b < ps.len() ==> #[trigger] ps[a].0 != #[trigger] ps[b].0,
    ensures
        insert_all(seq![], ps) == ps,
    decreases ps.len(),
{
    if ps.len() > 0 {
        let rest = ps.drop_last();
        assert forall|a: int, b: int| 0 <= a < b < rest.len() implies #[trigger] rest[a].0 != #[trigger] rest[b].0 by {
            assert(rest[a] == ps[a] && rest[b] == ps[b]);
        }
        lemma_insert_all_distinct(rest);
        crate::imap::lemma_find_in_range(rest, ps.last().0);
        if let Some(i) = crate::imap::entries_find(rest, ps.last().0) {
            assert(rest[i] == ps[i]);
            assert(ps[i].0 != ps[ps.len() - 1].0);
        }
        assert(rest.push(ps.last()) =~= ps);
    }
}

/// What an update does to each of its pairs when no two of them name the same variable
/// (compared by lowercase form): a pair that passes the test (a non-empty value, and not
/// `NA` over a value that is set) is stored, any other leaves the variable as it was.
pub proof fn lemma_update_pairs(vars: Seq<(Seq<char>, Seq<char>)>, pairs: Seq<(Seq<char>, Seq<char>)>, i: int)
    requires
        0 <= i < pairs.len(),
        lowercase_unique(pairs),
    ensures
        keeps(vars, pairs[i].0, pairs[i].1) ==> var_value(updated(vars, pairs), pairs[i].0) == pairs[i].1,
        !keeps(vars, pairs[i].0, pairs[i].1) ==> var_value(updated(vars, pairs), pairs[i].0) == var_value(vars, pairs[i].0),
{
    let kept = kept_pairs(vars, pairs);
    let idx = lemma_kept_indices(vars, pairs);
    let lk = spec_lowercase(pairs[i].0);
    assert forall|a: int, b: int| 0 <= a < b < kept.len() implies #[trigger] kept[a].0 != #[trigger] kept[b].0 by {
        assert(idx[a] < idx[b]);
        assert(spec_lowercase(pairs[idx[a]].0) != spec_lowercase(pairs[idx[b]].0));
    }
    lemma_insert_all_distinct(kept);
    if keeps(vars, pairs[i].0, pairs[i].1) {
        let p = choose|q: int| 0 <= q < idx.len() && #[trigger] idx[q] == i;
        assert forall|q: int| p < q < kept.len() implies spec_lowercase(#[trigger] kept[q].0) != spec_lowercase(kept[p].0) by {
            assert(idx[p] < idx[q]);
            assert(spec_lowercase(pairs[idx[p]].0) != spec_lowercase(pairs[idx[q]].0));
        }
        lemma_lowered_lookup_last(vars, kept, p);
    } else {
        assert forall|q: int| 0 <= q < kept.len() implies spec_lowercase(#[trigger] kept[q].0) != lk by {
            assert(idx[q] != i);
            if idx[q] < i {
                assert(spec_lowercase(pairs[idx[q]].0) != spec_lowercase(pairs[i].0));
            } else {
                assert(spec_lowercase(pairs[i].0) != spec_lowercase(pairs[idx[q]].0));
            }
        }
        lemma_lowered_keeps_others(vars, kept, lk);
    }
}

/// The built-in variables with their defaults, one pair per variable, in the order they
/// are set.
pub open spec fn default_pairs() -> Seq<(Seq<char>, Seq<char>)> {
    seq![
        (CTX_KEY_MACHINE@, ""@),
        (CTX_KEY_ARCH@, ""@),
        (CTX_KEY_DISTRO@, ""@),
        (CTX_KEY_PRODUCT_NAME@, ""@),
        (CTX_KEY_PROJECT_NAME@, ""@),
        (CTX_KEY_NAME@, ""@),
        (CTX_KEY_BB_BUILD_DIR@, ""@),
        (CTX_KEY_BB_DEPLOY_DIR@, ""@),
        (CTX_KEY_ARTIFACTS_DIR@, ""@),
        (CTX_KEY_LAYERS_DIR@, ""@),
        (CTX_KEY_SCRIPTS_DIR@, ""@),
        (CTX_KEY_BUILDS_DIR@, ""@),
        (CTX_KEY_WORK_DIR@, ""@),
        (CTX_KEY_PLATFORM_VERSION@, "0.0.0"@),
        (CTX_KEY_BUILD_ID@, "0"@),
        (CTX_KEY_PLATFORM_RELEASE@, ""@),
        (CTX_KEY_BUILD_SHA@, ""@),
        (CTX_KEY_RELEASE_BUILD@, ""@),
        (CTX_KEY_BUILD_VARIANT@, "dev"@),
        (CTX_KEY_ARCHIVER@, ""@),
        (CTX_KEY_DEBUG_SYMBOLS@, ""@),
        (CTX_KEY_DEVICE@, ""@),
        (CTX_KEY_IMAGE@, ""@),
        (CTX_KEY_TIME@, ""@),
        (CTX_KEY_DATE@, ""@),
        (CTX_KEY_BRANCH@, "NA"@)
    ]
}

/// A number that tells apart the lowercase forms of the built-in variables' names: the
/// length and three of the characters.
pub open spec fn key_code(k: Seq<char>) -> int {
    k.len() * 0x1000000 + (k[5] as int) * 0x10000 + (if k.len() > 8 { k[8] as int } else { 0 }) * 0x100
        + (if k.len() > 14 { k[14] as int } else { 0 })
}

/// The code of a name of length `len` with the characters `c5`, `c8` and `c14` at those
/// places (0 for a place past the end), as [`key_code`] computes it.
pub open spec fn code_of(len: int, c5: int, c8: int, c14: int) -> int {
    len * 0x1000000 + c5 * 0x10000 + c8 * 0x100 + c14
}

/// The code of the lowercase form of the `a`-th built-in variable's name.
pub open spec fn default_code(a: int) -> int {
    if a == 0 {
        code_of(12, 'm' as int, 'h' as int, 0)
    } else if a == 1 {
        code_of(9, 'a' as int, 'h' as int, 0)
    } else if a == 2 {
        code_of(11, 'd' as int, 't' as int, 0)
    } else if a == 3 {
        code_of(17, 'p' as int, 'd' as int, 'a' as int)
    } else if a == 4 {
        code_of(17, 'p' as int, 'j' as int, 'a' as int)
    } else if a == 5 {
        code_of(9, 'n' as int, 'e' as int, 0)
    } else if a == 6 {
        code_of(17, 'b' as int, 'b' as int, 'd' as int)
    } else if a == 7 {
        code_of(18, 'b' as int, 'd' as int, '_' as int)
    } else if a == 8 {
        code_of(18, 'a' as int, 'i' as int, '_' as int)
    } else if a == 9 {
        code_of(15, 'l' as int, 'e' as int, 'r' as int)
    } else if a == 10 {
        code_of(16, 's' as int, 'i' as int, 'i' as int)
    } else if a == 11 {
        code_of(15, 'b' as int, 'l' as int, 'r' as int)
    } else if a == 12 {
        code_of(13, 'w' as int, 'k' as int, 0)
    } else if a == 13 {
        code_of(21, 'p' as int, 't' as int, 'v' as int)
    } else if a == 14 {
        code_of(13, 'b' as int, 'l' as int, 0)
    } else if a == 15 {
        code_of(21, 'p' as int, 't' as int, 'r' as int)
    } else if a == 16 {
        code_of(14, 'b' as int, 'l' as int, 0)
    } else if a == 17 {
        code_of(18, 'r' as int, 'e' as int, 'u' as int)
    } else if a == 18 {
        code_of(18, 'b' as int, 'l' as int, 'i' as int)
    } else if a == 19 {
        code_of(13, 'a' as int, 'h' as int, 0)
    } else if a == 20 {
        code_of(18, 'd' as int, 'u' as int, 'b' as int)
    } else if a == 21 {
        code_of(11, 'd' as int, 'i' as int, 0)
    } else if a == 22 {
        code_of(10, 'i' as int, 'g' as int, 0)
    } else if a == 23 {
        code_of(9, 't' as int, 'e' as int, 0)
    } else if a == 24 {
        code_of(9, 'd' as int, 'e' as int, 0)
    } else if a == 25 {
        code_of(11, 'b' as int, 'n' as int, 0)
    } else {
        0
    }
}

/// Each built-in variable's name is ASCII, and its lowercase form has the code above.
pub(crate) proof fn lemma_default_codes()
    ensures
        forall|a: int| 0 <= a < default_pairs().len() ==> is_ascii_text(#[trigger] default_pairs()[a].0)
            && key_code(ascii_lowered(default_pairs()[a].0)) == default_code(a),
{
    reveal_strlit("BKRY_MACHINE");
    reveal_strlit("BKRY_ARCH");
    reveal_strlit("BKRY_DISTRO");
    reveal_strlit("BKRY_PRODUCT_NAME");
    reveal_strlit("BKRY_PROJECT_NAME");
    reveal_strlit("BKRY_NAME");
    reveal_strlit("BKRY_BB_BUILD_DIR");
    reveal_strlit("BKRY_BB_DEPLOY_DIR");
    reveal_strlit("BKRY_ARTIFACTS_DIR");
    reveal_strlit("BKRY_LAYERS_DIR");
    reveal_strlit("BKRY_SCRIPTS_DIR");
    reveal_strlit("BKRY_BUILDS_DIR");
    reveal_strlit("BKRY_WORK_DIR");
    reveal_strlit("BKRY_PLATFORM_VERSION");
    reveal_strlit("BKRY_BUILD_ID");
    reveal_strlit("BKRY_PLATFORM_RELEASE");
    reveal_strlit("BKRY_BUILD_SHA");
    reveal_strlit("BKRY_RELEASE_BUILD");
    reveal_strlit("BKRY_BUILD_VARIANT");
    reveal_strlit("BKRY_ARCHIVER");
    reveal_strlit("BKRY_DEBUG_SYMBOLS");
    reveal_strlit("BKRY_DEVICE");
    reveal_strlit("BKRY_IMAGE");
    reveal_strlit("BKRY_TIME");
    reveal_strlit("BKRY_DATE");
    reveal_strlit("BKRY_BRANCH");
    assert forall|a: int| 0 <= a < default_pairs().len() implies is_ascii_text(#[trigger] default_pairs()[a].0)
        && key_code(ascii_lowered(default_pairs()[a].0)) == default_code(a) by {
        if a == 0 {
            let key = CTX_KEY_MACHINE@;
            assert(default_pairs()[0].0 == key);
            assert(ascii_lowered(key)[5] == 'm');
            assert(ascii_lowered(key)[8] == 'h');
        } else if a == 1 {
            let key = CTX_KEY_ARCH@;
            assert(default_pairs()[1].0 == key);
            assert(ascii_lowered(key)[5] == 'a');
            assert(ascii_lowered(key)[8] == 'h');
        } else if a == 2 {
            let key = CTX_KEY_DISTRO@;
            assert(default_pairs()[2].0 == key);
            assert(ascii_lowered(key)[5] == 'd');
            assert(ascii_lowered(key)[8] == 't');
        } else if a == 3 {
            let key = CTX_KEY_PRODUCT_NAME@;
            assert(default_pairs()[3].0 == key);
            assert(ascii_lowered(key)[5] == 'p');
            assert(ascii_lowered(key)[8] == 'd');
            assert(ascii_lowered(key)[14] == 'a');
        } else if a == 4 {
            let key = CTX_KEY_PROJECT_NAME@;
            assert(default_pairs()[4].0 == key);
            assert(ascii_lowered(key)[5] == 'p');
            assert(ascii_lowered(key)[8] == 'j');
            assert(ascii_lowered(key)[14] == 'a');
        } else if a == 5 {
            let key = CTX_KEY_NAME@;
            assert(default_pairs()[5].0 == key);
            assert(ascii_lowered(key)[5] == 'n');
            assert(ascii_lowered(key)[8] == 'e');
        } else if a == 6 {
            let key = CTX_KEY_BB_BUILD_DIR@;
            assert(default_pairs()[6].0 == key);
            assert(ascii_lowered(key)[5] == 'b');
            assert(ascii_lowered(key)[8] == 'b');
            assert(ascii_lowered(key)[14] == 'd');
        } else if a == 7 {
            let key = CTX_KEY_BB_DEPLOY_DIR@;
            assert(default_pairs()[7].0 == key);
            assert(ascii_lowered(key)[5] == 'b');
            assert(ascii_lowered(key)[8] == 'd');
            assert(ascii_lowered(key)[14] == '_');
        } else if a == 8 {
            let key = CTX_KEY_ARTIFACTS_DIR@;
            assert(default_pairs()[8].0 == key);
            assert(ascii_lowered(key)[5] == 'a');
            assert(ascii_lowered(key)[8] == 'i');
            assert(ascii_lowered(key)[14] == '_');
        } else if a == 9 {
            let key = CTX_KEY_LAYERS_DIR@;
            assert(default_pairs()[9].0 == key);
            assert(ascii_lowered(key)[5] == 'l');
            assert(ascii_lowered(key)[8] == 'e');
            assert(ascii_lowered(key)[14] == 'r');
        } else if a == 10 {
            let key = CTX_KEY_SCRIPTS_DIR@;
            assert(default_pairs()[10].0 == key);
            assert(ascii_lowered(key)[5] == 's');
            assert(ascii_lowered(key)[8] == 'i');
            assert(ascii_lowered(key)[14] == 'i');
        } else if a == 11 {
            let key = CTX_KEY_BUILDS_DIR@;
            assert(default_pairs()[11].0 == key);
            assert(ascii_lowered(key)[5] == 'b');
            assert(ascii_lowered(key)[8] == 'l');
            assert(ascii_lowered(key)[14] == 'r');
        } else if a == 12 {
            let key = CTX_KEY_WORK_DIR@;
            assert(default_pairs()[12].0 == key);
            assert(ascii_lowered(key)[5] == 'w');
            assert(ascii_lowered(key)[8] == 'k');
        } else if a == 13 {
            let key = CTX_KEY_PLATFORM_VERSION@;
            assert(default_pairs()[13].0 == key);
            assert(ascii_lowered(key)[5] == 'p');
            assert(ascii_lowered(key)[8] == 't');
            assert(ascii_lowered(key)[14] == 'v');
        } else if a == 14 {
            let key = CTX_KEY_BUILD_ID@;
            assert(default_pairs()[14].0 == key);
            assert(ascii_lowered(key)[5] == 'b');
            assert(ascii_lowered(key)[8] == 'l');
        } else if a == 15 {
            let key = CTX_KEY_PLATFORM_RELEASE@;
            assert(default_pairs()[15].0 == key);
            assert(ascii_lowered(key)[5] == 'p');
            assert(ascii_lowered(key)[8] == 't');
            assert(ascii_lowered(key)[14] == 'r');
        } else if a == 16 {
            let key = CTX_KEY_BUILD_SHA@;
            assert(default_pairs()[16].0 == key);
            assert(ascii_lowered(key)[5] == 'b');
            assert(ascii_lowered(key)[8] == 'l');
        } else if a == 17 {
            let key = CTX_KEY_RELEASE_BUILD@;
            assert(default_pairs()[17].0 == key);
            assert(ascii_lowered(key)[5] == 'r');
            assert(ascii_lowered(key)[8] == 'e');
            assert(ascii_lowered(key)[14] == 'u');
        } else if a == 18 {
            let key = CTX_KEY_BUILD_VARIANT@;
            assert(default_pairs()[18].0 == key);
            assert(ascii_lowered(key)[5] == 'b');
            assert(ascii_lowered(key)[8] == 'l');
            assert(ascii_lowered(key)[14] == 'i');
        } else if a == 19 {
            let key = CTX_KEY_ARCHIVER@;
            assert(default_pairs()[19].0 == key);
            assert(ascii_lowered(key)[5] == 'a');
            assert(ascii_lowered(key)[8] == 'h');
        } else if a == 20 {
            let key = CTX_KEY_DEBUG_SYMBOLS@;
            assert(default_pairs()[20].0 == key);
            assert(ascii_lowered(key)[5] == 'd');
            assert(ascii_lowered(key)[8] == 'u');
            assert(ascii_lowered(key)[14] == 'b');
        } else if a == 21 {
            let key = CTX_KEY_DEVICE@;
            assert(default_pairs()[21].0 == key);
            assert(ascii_lowered(key)[5] == 'd');
            assert(ascii_lowered(key)[8] == 'i');
        } else if a == 22 {
            let key = CTX_KEY_IMAGE@;
            assert(default_pairs()[22].0 == key);
            assert(ascii_lowered(key)[5] == 'i');
            assert(ascii_lowered(key)[8] == 'g');
        } else if a == 23 {
            let key = CTX_KEY_TIME@;
            assert(default_pairs()[23].0 == key);
            assert(ascii_lowered(key)[5] == 't');
            assert(ascii_lowered(key)[8] == 'e');
        } else if a == 24 {
            let key = CTX_KEY_DATE@;
            assert(default_pairs()[24].0 == key);
            assert(ascii_lowered(key)[5] == 'd');
            assert(ascii_lowered(key)[8] == 'e');
        } else if a == 25 {
            let key = CTX_KEY_BRANCH@;
            assert(default_pairs()[25].0 == key);
            assert(ascii_lowered(key)[5] == 'b');
            assert(ascii_lowered(key)[8] == 'n');
        }
    }
}


/// Inserting a pair under a key that is not there yet puts it last.
pub(crate) proof fn lemma_insert_new(es: Seq<(Seq<char>, Seq<char>)>, k: Seq<char>, v: Seq<char>)
    requires
        forall|j: int| 0 <= j < es.len() ==> #[trigger] es[j].0 != k,
    ensures
        entries_insert(es, k, v) == es.push((k, v)),
{
    crate::imap::lemma_find_in_range(es, k);
}

/// No two built-in variables share a name, or the lowercase form of one.
pub(crate) proof fn lemma_default_distinct()
    ensures
        forall|a: int, b: int| 0 <= a < default_pairs().len() && 0 <= b < default_pairs().len() && a != b
            ==> #[trigger] ascii_lowered(default_pairs()[a].0) != #[trigger] ascii_lowered(default_pairs()[b].0),
        forall|a: int, b: int| 0 <= a < default_pairs().len() && 0 <= b < default_pairs().len() && a != b
            ==> #[trigger] default_pairs()[a].0 != #[trigger] default_pairs()[b].0,
{
    lemma_default_codes();
    let p = default_pairs();
    assert forall|a: int, b: int| 0 <= a < p.len() && 0 <= b < p.len() && a != b
        implies #[trigger] ascii_lowered(p[a].0) != #[trigger] ascii_lowered(p[b].0) by {
        if ascii_lowered(p[a].0) == ascii_lowered(p[b].0) {
            assert(default_code(a) == default_code(b));
        }
    }
    assert forall|a: int, b: int| 0 <= a < p.len() && 0 <= b < p.len() && a != b
        implies #[trigger] p[a].0 != #[trigger] p[b].0 by {
        if p[a].0 == p[b].0 {
            assert(ascii_lowered(p[a].0) == ascii_lowered(p[b].0));
        }
    }
}

/// Setting the next built-in variable adds it last.
proof fn lemma_default_step(n: int)
    requires
        0 <= n < default_pairs().len(),
    ensures
        entries_insert(default_pairs().take(n), default_pairs()[n].0, default_pairs()[n].1) == default_pairs().take(n + 1),
{
    lemma_default_distinct();
    let p = default_pairs();
    assert forall|j: int| 0 <= j < p.take(n).len() implies #[trigger] p.take(n)[j].0 != p[n].0 by {
        assert(p.take(n)[j] == p[j]);
    }
    lemma_insert_new(p.take(n), p[n].0, p[n].1);
    assert(p.take(n).push(p[n]) =~= p.take(n + 1));
}

/// The built-in variables are set one after the other, each as a new variable.
#[verifier::rlimit(50)]
pub(crate) proof fn lemma_default_entries()
    ensures
        default_entries() == default_pairs(),
{
    let p = default_pairs();
    assert(p.take(0) =~= Seq::<(Seq<char>, Seq<char>)>::empty());
    lemma_default_step(0);
    lemma_default_step(1);
    lemma_default_step(2);
    lemma_default_step(3);
    lemma_default_step(4);
    lemma_default_step(5);
    lemma_default_step(6);
    lemma_default_step(7);
    lemma_default_step(8);
    lemma_default_step(9);
    lemma_default_step(10);
    lemma_default_step(11);
    lemma_default_step(12);
    lemma_default_step(13);
    lemma_default_step(14);
    lemma_default_step(15);
    lemma_default_step(16);
    lemma_default_step(17);
    lemma_default_step(18);
    lemma_default_step(19);
    lemma_default_step(20);
    lemma_default_step(21);
    lemma_default_step(22);
    lemma_default_step(23);
    lemma_default_step(24);
    lemma_default_step(25);
    assert(p.take(26) =~= p);
}

} // verus!
