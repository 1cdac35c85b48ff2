//! A bitbake recipe reference, `recipe` or `recipe:task`, and the bitbake command for it.
use vstd::prelude::*;

use crate::text::{lemma_split_concat, lemma_split_no_sep, spec_split, spec_starts_with, split_char, starts_with, str_eq};

verus! {

/// The bitbake task that a task suffix names: `sdk` stands for `do_populate_sdk`, and a
/// name without the `do_` prefix gets it.
pub open spec fn spec_task_name(t: Seq<char>) -> Seq<char> {
    let t1 = if t == "sdk"@ { "do_populate_sdk"@ } else { t };
    if spec_starts_with(t1, "do_"@) { t1 } else { "do_"@ + t1 }
}

/// The recipe and the task that a reference names: `recipe` alone, `recipe:task`, or
/// nothing at all when it has more than one `:`.
pub open spec fn spec_recipe(s: Seq<char>) -> (Seq<char>, Seq<char>) {
    let parts = spec_split(s, ':');
    if parts.len() == 1 {
        (parts[0], seq![])
    } else if parts.len() == 2 {
        (parts[0], spec_task_name(parts[1]))
    } else {
        (seq![], seq![])
    }
}

/// A recipe and the task of it to run (empty for the default task).
pub struct Recipe {
    recipe: String,
    task: String,
}

impl View for Recipe {
    type V = (Seq<char>, Seq<char>);

    closed spec fn view(&self) -> (Seq<char>, Seq<char>) {
        (self.recipe@, self.task@)
    }
}

/// The bitbake command for a recipe and task.
pub open spec fn spec_bitbake_cmd(r: (Seq<char>, Seq<char>)) -> Seq<Seq<char>> {
    if r.1.len() == 0 {
        seq!["bitbake"@, r.0]
    } else {
        seq!["bitbake"@, r.0, "-c"@, r.1]
    }
}

/// Whatever it is given, the task name of a reference begins with `do_`.
pub proof fn lemma_task_name_prefix(t: Seq<char>)
    ensures
        spec_starts_with(spec_task_name(t), "do_"@),
{
    reveal_strlit("do_");
    let t1 = if t == "sdk"@ { "do_populate_sdk"@ } else { t };
    if !spec_starts_with(t1, "do_"@) {
        assert(("do_"@ + t1).take(3) =~= "do_"@);
    }
}

/// A reference without `:` is a recipe alone: bitbake builds it with its default task.
pub proof fn lemma_plain_recipe(r: Seq<char>)
    requires
        !r.contains(':'),
    ensures
        spec_recipe(r) == (r, Seq::<char>::empty()),
        spec_bitbake_cmd(spec_recipe(r)) == seq!["bitbake"@, r],
{
    lemma_split_no_sep(r, ':');
}

/// A reference `recipe:task` (neither part holding a `:`) runs that task of the recipe:
/// `sdk` stands for `do_populate_sdk`, and a task without the `do_` prefix gets it.
pub proof fn lemma_recipe_with_task(r: Seq<char>, t: Seq<char>)
    requires
        !r.contains(':'),
        !t.contains(':'),
    ensures
        spec_recipe(r + seq![':'] + t) == (r, spec_task_name(t)),
        spec_bitbake_cmd(spec_recipe(r + seq![':'] + t)) == seq!["bitbake"@, r, "-c"@, spec_task_name(t)],
        t == "sdk"@ ==> spec_task_name(t) == "do_populate_sdk"@,
        spec_starts_with(t, "do_"@) ==> spec_task_name(t) == t,
        (t != "sdk"@ && !spec_starts_with(t, "do_"@)) ==> spec_task_name(t) == "do_"@ + t,
{
    lemma_split_concat(r, t, ':');
    lemma_split_no_sep(t, ':');
    lemma_task_name_prefix(t);
    reveal_strlit("sdk");
    reveal_strlit("do_populate_sdk");
    reveal_strlit("do_");
    if t == "sdk"@ {
        assert(spec_starts_with("do_populate_sdk"@, "do_"@)) by {
            assert("do_populate_sdk"@.take(3) =~= "do_"@);
        }
    }
    if spec_starts_with(t, "do_"@) {
        assert(t != "sdk"@) by {
            if t == "sdk"@ {
                assert(t.take(3) =~= "sdk"@);
            }
        }
    }
}

impl Recipe {
    /// Reads a reference `recipe` or `recipe:task`.
    pub fn new(recipe_str: &str) -> (res: Self)
        ensures
            res@ == spec_recipe(recipe_str@),
    {
        proof {
            reveal_strlit("sdk");
            reveal_strlit("do_populate_sdk");
            reveal_strlit("do_");
        }
        let r: Vec<String> = split_char(recipe_str, ':');
        let ghost parts = r@.map_values(|p: String| p@);
        assert(parts.len() == r@.len());
        let mut recipe: String = String::new();
        let mut task: String = String::new();
        if r.len() == 1 {
            assert(parts[0] == r@[0]@);
            recipe = r[0].clone();
        } else if r.len() == 2 {
            assert(parts[0] == r@[0]@);
            assert(parts[1] == r@[1]@);
            recipe = r[0].clone();
            task = r[1].clone();
            if str_eq(task.as_str(), "sdk") {
                task = "do_populate_sdk".to_string();
            }
            if !starts_with(task.as_str(), "do_") {
                task = "do_".to_string().concat(task.as_str());
            }
        }
        Recipe { recipe, task }
    }

    /// `bitbake <recipe>`, followed by `-c <task>` when there is a task.
    pub fn bitbake_cmd(&self) -> (res: Vec<String>)
        ensures
            res@.map_values(|p: String| p@) == spec_bitbake_cmd(self@),
    {
        proof {
            reveal_strlit("bitbake");
            reveal_strlit("-c");
        }
        let mut cmd: Vec<String> = Vec::new();
        cmd.push("bitbake".to_string());
        cmd.push(self.recipe.clone());
        if !self.task.as_str().is_empty() {
            cmd.push("-c".to_string());
            cmd.push(self.task.clone());
        }
        assert(cmd@.map_values(|p: String| p@) =~= spec_bitbake_cmd(self@));
        cmd
    }
}

} // verus!
