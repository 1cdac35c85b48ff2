//! Context variables and their expansion in configuration strings.
//!
//! A reference to a variable is written `${NAME}` (or `${{TEXT}}`), or `$#[NAME]`.
//! Expanding a string replaces each reference whose name (compared without regard to
//! case) is a known variable by the variable's value, and leaves every other reference
//! as it was.
use vstd::prelude::*;
use indexmap::IndexMap;

use crate::imap::{entries_insert, entries_lookup, index_map_entries, map_entries, map_get, map_insert, map_new};
use crate::text::{ascii_lowered, is_ascii_text, spec_lowercase, to_lowercase};

verus! {

/// The pattern of a variable reference: `${NAME}` (or `${{...}}`) and `$#[NAME]`. The
/// name is capture group 1 in the first form and group 3 in the second.
pub const VAR_REF_PATTERN: &'static str = r"\$\{(\w+|\{([^}]+)\})\}|\$#\[(\w+)\]";

/// The prefix of the lowercase names of the built-in variables.
pub const BUILT_IN_PREFIX: &'static str = "bkry_";

/// What the `regex` crate gives for the pattern `pattern` on `text`, when the pattern
/// compiles: the pieces of the text between the matches (`Regex::split`) and the capture
/// groups of each match in order (`Regex::captures_iter`, group 0 being the whole match).
pub uninterp spec fn spec_regex_scan(pattern: Seq<char>, text: Seq<char>) -> Option<(Seq<Seq<char>>, Seq<Seq<Option<Seq<char>>>>)>;

/// The capture groups of matches as mathematical values.
pub open spec fn group_views(caps: Seq<Vec<Option<String>>>) -> Seq<Seq<Option<Seq<char>>>> {
    caps.map_values(|c: Vec<Option<String>>| c@.map_values(|g: Option<String>| match g {
        Some(t) => Some(t@),
        None => None,
    }))
}

/// The group `i` of a match, if it took part.
pub open spec fn group(c: Seq<Option<Seq<char>>>, i: int) -> Option<Seq<char>> {
    if 0 <= i < c.len() { c[i] } else { None }
}

/// The whole text of a match.
pub open spec fn match_text(c: Seq<Option<Seq<char>>>) -> Seq<char> {
    match group(c, 0) {
        Some(t) => t,
        None => seq![],
    }
}

/// The whole texts of matches.
pub open spec fn match_texts(caps: Seq<Seq<Option<Seq<char>>>>) -> Seq<Seq<char>> {
    caps.map_values(|c: Seq<Option<Seq<char>>>| match_text(c))
}

/// A match of [`VAR_REF_PATTERN`] as a reference: its whole text, the name of a `${...}`
/// reference and the name of a `$#[...]` reference.
pub open spec fn ref_of_groups(c: Seq<Option<Seq<char>>>) -> (Seq<char>, Option<Seq<char>>, Option<Seq<char>>) {
    (match_text(c), group(c, 1), group(c, 3))
}

/// The name that a reference refers to.
pub open spec fn ref_name(r: (Seq<char>, Option<Seq<char>>, Option<Seq<char>>)) -> Seq<char> {
    match r.1 {
        Some(n) => n,
        None => match r.2 {
            Some(n) => n,
            None => seq![],
        },
    }
}

/// The shape the pattern gives a match: `${` name `}` with the first name, or `$#[` name
/// `]` with the second.
pub open spec fn well_formed_ref(r: (Seq<char>, Option<Seq<char>>, Option<Seq<char>>)) -> bool {
    ||| (r.2 is None && (r.1 matches Some(n) && r.0 == seq!['$', '{'] + n + seq!['}']))
    ||| (r.1 is None && (r.2 matches Some(n) && r.0 == seq!['$', '#', '['] + n + seq![']']))
}

/// `pieces[0] + refs[0] + pieces[1] + ... + refs[n-1] + pieces[n]`.
pub open spec fn interleave(pieces: Seq<Seq<char>>, refs: Seq<Seq<char>>) -> Seq<char>
    decreases refs.len(),
{
    if refs.len() == 0 || pieces.len() == 0 {
        if pieces.len() == 0 { seq![] } else { pieces[0] }
    } else {
        interleave(pieces.drop_last(), refs.drop_last()) + refs.last() + pieces.last()
    }
}

/// Each character of each alternated text occurs in the interleaving.
pub proof fn lemma_interleave_holds(pieces: Seq<Seq<char>>, refs: Seq<Seq<char>>, k: int)
    requires
        pieces.len() == refs.len() + 1,
        0 <= k < refs.len(),
        refs[k].len() > 0,
    ensures
        exists|j: int| 0 <= j < interleave(pieces, refs).len() && interleave(pieces, refs)[j] == refs[k][0],
    decreases refs.len(),
{
    let pre = interleave(pieces.drop_last(), refs.drop_last());
    let whole = interleave(pieces, refs);
    assert(whole == pre + refs.last() + pieces.last());
    if k == refs.len() - 1 {
        assert(whole[pre.len() as int] == refs[k][0]);
    } else {
        lemma_interleave_holds(pieces.drop_last(), refs.drop_last(), k);
        let j = choose|j: int| 0 <= j < pre.len() && pre[j] == refs.drop_last()[k][0];
        assert(whole[j] == pre[j]);
    }
}

/// `regex::Regex::new(pattern)`, then `Regex::split` and `Regex::captures_iter` on
/// `text`, each match given as its capture groups; `None` when the pattern does not
/// compile. Besides naming the result, the contract states what the crate's
/// documentation shows: there is one more piece than matches, and the pieces and the
/// matches, alternated, give back the text; and, for [`VAR_REF_PATTERN`], what the
/// pattern shows: a match has the shape of one of its two alternatives.
#[verifier::external_body]
fn regex_scan(pattern: &str, text: &str) -> (res: Option<(Vec<String>, Vec<Vec<Option<String>>>)>)
    ensures
        match res {
            Some(r) => {
                &&& spec_regex_scan(pattern@, text@) == Some((r.0@.map_values(|p: String| p@), group_views(r.1@)))
                &&& r.0@.len() == r.1@.len() + 1
                &&& interleave(r.0@.map_values(|p: String| p@), match_texts(group_views(r.1@))) == text@
                &&& pattern@ == VAR_REF_PATTERN@ ==> forall|i: int| 0 <= i < r.1@.len()
                    ==> well_formed_ref(ref_of_groups(#[trigger] group_views(r.1@)[i]))
            },
            None => spec_regex_scan(pattern@, text@) is None,
        },
{
    let re = match regex::Regex::new(pattern) {
        Ok(re) => re,
        Err(_) => return None,
    };
    let pieces: Vec<String> = re.split(text).map(|p| p.to_string()).collect();
    let caps: Vec<Vec<Option<String>>> = re.captures_iter(text)
        .map(|c| c.iter().map(|g| g.map(|m| m.as_str().to_string())).collect())
        .collect();
    Some((pieces, caps))
}

/// The variables after storing each pair of `vars` under its lowercased key.
pub open spec fn lowered_entries(base: Seq<(Seq<char>, Seq<char>)>, vars: Seq<(Seq<char>, Seq<char>)>) -> Seq<(Seq<char>, Seq<char>)>
    decreases vars.len(),
{
    if vars.len() == 0 {
        base
    } else {
        entries_insert(lowered_entries(base, vars.drop_last()), spec_lowercase(vars.last().0), vars.last().1)
    }
}

/// What a reference is replaced by: the value of the variable it names (without regard
/// to case), else the value of the built-in variable of that name (`BKRY_` and the
/// name), else the reference itself.
pub open spec fn replacement(vars: Seq<(Seq<char>, Seq<char>)>, r: (Seq<char>, Option<Seq<char>>, Option<Seq<char>>)) -> Seq<char> {
    let name = spec_lowercase(ref_name(r));
    match entries_lookup(vars, name) {
        Some(v) => v,
        None => match entries_lookup(vars, BUILT_IN_PREFIX@ + name) {
            Some(v) => v,
            None => r.0,
        },
    }
}

/// What each match of [`VAR_REF_PATTERN`] is replaced by.
pub open spec fn replacements(vars: Seq<(Seq<char>, Seq<char>)>, caps: Seq<Seq<Option<Seq<char>>>>) -> Seq<Seq<char>> {
    caps.map_values(|c: Seq<Option<Seq<char>>>| replacement(vars, ref_of_groups(c)))
}

/// The expansion of `text` with the variables `vars`: each variable reference replaced
/// (see [`replacement`]).
pub open spec fn spec_expand(vars: Seq<(Seq<char>, Seq<char>)>, text: Seq<char>) -> Seq<char> {
    match spec_regex_scan(VAR_REF_PATTERN@, text) {
        Some((pieces, caps)) => interleave(pieces, replacements(vars, caps)),
        None => text,
    }
}

/// Every ASCII key among `vars` is lowercased as ASCII text is: `A` to `Z` become `a` to
/// `z`.
pub open spec fn ascii_keys_lowered(vars: Seq<(Seq<char>, Seq<char>)>) -> bool {
    forall|j: int| 0 <= j < vars.len() && is_ascii_text(#[trigger] vars[j].0)
        ==> spec_lowercase(vars[j].0) == ascii_lowered(vars[j].0)
}

/// Storing pairs leaves the value of every name that none of their keys lowercases to
/// unchanged.
pub proof fn lemma_lowered_keeps_others(base: Seq<(Seq<char>, Seq<char>)>, vars: Seq<(Seq<char>, Seq<char>)>, k: Seq<char>)
    requires
        forall|j: int| 0 <= j < vars.len() ==> spec_lowercase(#[trigger] vars[j].0) != k,
    ensures
        entries_lookup(lowered_entries(base, vars), k) == entries_lookup(base, k),
    decreases vars.len(),
{
    if vars.len() > 0 {
        let rest = vars.drop_last();
        assert forall|j: int| 0 <= j < rest.len() implies spec_lowercase(#[trigger] rest[j].0) != k by {
            assert(rest[j] == vars[j]);
        }
        lemma_lowered_keeps_others(base, rest, k);
        assert(spec_lowercase(vars[vars.len() - 1].0) != k);
        crate::imap::lemma_insert_lookup_other(lowered_entries(base, rest), spec_lowercase(vars.last().0), vars.last().1, k);
    }
}

/// Storing pairs makes a name read the value of the last pair whose key lowercases to it.
pub proof fn lemma_lowered_lookup_last(base: Seq<(Seq<char>, Seq<char>)>, vars: Seq<(Seq<char>, Seq<char>)>, i: int)
    requires
        0 <= i < vars.len(),
        forall|j: int| i < j < vars.len() ==> spec_lowercase(#[trigger] vars[j].0) != spec_lowercase(vars[i].0),
    ensures
        entries_lookup(lowered_entries(base, vars), spec_lowercase(vars[i].0)) == Some(vars[i].1),
    decreases vars.len(),
{
    let k = spec_lowercase(vars[i].0);
    let rest = vars.drop_last();
    if i == vars.len() - 1 {
        crate::imap::lemma_insert_lookup_same(lowered_entries(base, rest), k, vars[i].1);
    } else {
        assert forall|j: int| i < j < rest.len() implies spec_lowercase(#[trigger] rest[j].0) != spec_lowercase(rest[i].0) by {
            assert(rest[j] == vars[j]);
        }
        assert(rest[i] == vars[i]);
        lemma_lowered_lookup_last(base, rest, i);
        assert(spec_lowercase(vars[vars.len() - 1].0) != k);
        crate::imap::lemma_insert_lookup_other(lowered_entries(base, rest), spec_lowercase(vars.last().0), vars.last().1, k);
    }
}

/// A set of context variables, keyed by lowercased name.
pub struct Context {
    variables: IndexMap<String, String>,
}

impl View for Context {
    type V = Seq<(Seq<char>, Seq<char>)>;

    closed spec fn view(&self) -> Seq<(Seq<char>, Seq<char>)> {
        index_map_entries(self.variables)
    }
}

/// Storing a value under a name and then reading that name (in any case) gives the
/// value back: after `update` with the one pair `(key, value)`, `value(key)` is `value`.
pub proof fn lemma_update_then_value(base: Seq<(Seq<char>, Seq<char>)>, key: Seq<char>, value: Seq<char>)
    ensures
        entries_lookup(lowered_entries(base, seq![(key, value)]), spec_lowercase(key)) == Some(value),
{
    let vars = seq![(key, value)];
    assert(vars.drop_last() =~= Seq::<(Seq<char>, Seq<char>)>::empty());
    assert(lowered_entries(base, vars.drop_last()) == base);
    assert(lowered_entries(base, vars) == entries_insert(base, spec_lowercase(key), value));
    crate::imap::lemma_insert_lookup_same(base, spec_lowercase(key), value);
}

/// Storing a value under one name leaves the value of every name with another
/// lowercase form unchanged.
pub proof fn lemma_update_keeps_others(base: Seq<(Seq<char>, Seq<char>)>, key: Seq<char>, value: Seq<char>, other: Seq<char>)
    requires
        spec_lowercase(other) != spec_lowercase(key),
    ensures
        entries_lookup(lowered_entries(base, seq![(key, value)]), spec_lowercase(other)) == entries_lookup(base, spec_lowercase(other)),
{
    let vars = seq![(key, value)];
    assert(vars.drop_last() =~= Seq::<(Seq<char>, Seq<char>)>::empty());
    assert(lowered_entries(base, vars.drop_last()) == base);
    assert(lowered_entries(base, vars) == entries_insert(base, spec_lowercase(key), value));
    crate::imap::lemma_insert_lookup_other(base, spec_lowercase(key), value, spec_lowercase(other));
}

impl Context {
    /// Adds the pairs of `variables` (keys lowercased) to `self`.
    pub fn update(&mut self, variables: &IndexMap<String, String>)
        ensures
            final(self)@ == lowered_entries(old(self)@, index_map_entries(*variables)),
            ascii_keys_lowered(index_map_entries(*variables)),
    {
        let pairs = map_entries(variables);
        let ghost vs = pairs@.map_values(|p: (String, String)| (p.0@, p.1@));
        let mut i: usize = 0;
        while i < pairs.len()
            invariant
                i <= pairs.len(),
                vs == pairs@.map_values(|p: (String, String)| (p.0@, p.1@)),
                vs == index_map_entries(*variables),
                self@ == lowered_entries(old(self)@, vs.take(i as int)),
                forall|j: int| 0 <= j < i && is_ascii_text(#[trigger] vs[j].0)
                    ==> spec_lowercase(vs[j].0) == ascii_lowered(vs[j].0),
            decreases pairs.len() - i,
        {
            assert(vs.take(i as int + 1).drop_last() == vs.take(i as int));
            assert(vs.take(i as int + 1).last() == vs[i as int]);
            assert(vs[i as int].0 == pairs@[i as int].0@);
            let key = to_lowercase(pairs[i].0.as_str());
            let value = pairs[i].1.clone();
            map_insert(&mut self.variables, key, value);
            i = i + 1;
        }
        assert(vs.take(pairs.len() as int) == vs);
    }

    /// A context holding `variables`, each under its lowercased name.
    pub fn new(variables: &IndexMap<String, String>) -> (res: Self)
        ensures
            res@ == lowered_entries(seq![], index_map_entries(*variables)),
            ascii_keys_lowered(index_map_entries(*variables)),
    {
        let mut ctx = Context { variables: map_new() };
        ctx.update(variables);
        ctx
    }

    /// The value of the variable `key` (compared without regard to case), or the empty
    /// string when there is none.
    pub fn value(&self, key: &str) -> (res: String)
        ensures
            res@ == match entries_lookup(self@, spec_lowercase(key@)) {
                Some(v) => v,
                None => seq![],
            },
            is_ascii_text(key@) ==> spec_lowercase(key@) == ascii_lowered(key@),
    {
        let k = to_lowercase(key);
        match map_get(&self.variables, k.as_str()) {
            Some(v) => v,
            None => String::new(),
        }
    }

    /// The variables.
    pub fn variables(&self) -> (res: &IndexMap<String, String>)
        ensures
            index_map_entries(*res) == self@,
    {
        &self.variables
    }

    /// Replaces each variable reference in `s` by the variable's value; references to
    /// unknown variables are kept as written.
    pub fn expand_str(&self, s: &str) -> (res: String)
        ensures
            res@ == spec_expand(self@, s@),
            self@.len() == 0 ==> res@ == s@,
            (forall|i: int| 0 <= i < s@.len() ==> s@[i] != '$') ==> res@ == s@,
    {
        let (pieces, caps) = match regex_scan(VAR_REF_PATTERN, s) {
            Some(r) => r,
            None => {
                return s.to_string();
            },
        };
        let ghost pv = pieces@.map_values(|p: String| p@);
        let ghost gv = group_views(caps@);
        let ghost reps = replacements(self@, gv);
        let mut out: String = pieces[0].clone();
        assert(pv.take(1).drop_last().len() == 0);
        assert(interleave(pv.take(1), reps.take(0)) == pv[0]);
        let mut i: usize = 0;
        while i < caps.len()
            invariant
                i <= caps.len(),
                pieces@.len() == caps@.len() + 1,
                pv == pieces@.map_values(|p: String| p@),
                gv == group_views(caps@),
                reps == replacements(self@, gv),
                out@ == interleave(pv.take(i as int + 1), reps.take(i as int)),
            decreases caps.len() - i,
        {
            let g = &caps[i];
            let ghost c = gv[i as int];
            assert(c == g@.map_values(|x: Option<String>| match x { Some(t) => Some(t@), None => None }));
            let whole: String = if g.len() > 0 {
                match &g[0] {
                    Some(t) => t.clone(),
                    None => String::new(),
                }
            } else {
                String::new()
            };
            let raw: String = if g.len() > 1 && g[1].is_some() {
                match &g[1] {
                    Some(t) => t.clone(),
                    None => String::new(),
                }
            } else if g.len() > 3 {
                match &g[3] {
                    Some(t) => t.clone(),
                    None => String::new(),
                }
            } else {
                String::new()
            };
            proof {
                reveal_strlit("");
            }
            assert(whole@ == ref_of_groups(c).0);
            assert(raw@ == ref_name(ref_of_groups(c)));
            let name = to_lowercase(raw.as_str());
            let rep: String = match map_get(&self.variables, name.as_str()) {
                Some(v) => v,
                None => {
                    let built_in = BUILT_IN_PREFIX.to_string().concat(name.as_str());
                    match map_get(&self.variables, built_in.as_str()) {
                        Some(v) => v,
                        None => whole,
                    }
                },
            };
            assert(rep@ == reps[i as int]);
            out = out.concat(rep.as_str());
            out = out.concat(pieces[i + 1].as_str());
            assert(pv.take(i as int + 2).drop_last() == pv.take(i as int + 1));
            assert(reps.take(i as int + 1).drop_last() == reps.take(i as int));
            i = i + 1;
        }
        assert(pv.take(caps.len() as int + 1) == pv);
        assert(reps.take(caps.len() as int) == reps);
        proof {
            if self@.len() == 0 {
                assert(reps =~= match_texts(gv));
            }
            if caps@.len() > 0 {
                assert(well_formed_ref(ref_of_groups(gv[0])));
                assert(match_texts(gv)[0] == ref_of_groups(gv[0]).0);
                assert(match_texts(gv)[0][0] == '$');
                lemma_interleave_holds(pv, match_texts(gv), 0);
            }
        }
        out
    }
}

} // verus!
