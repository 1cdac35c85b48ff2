//! Collecting the artifacts of a task: what was copied where, and the check that an
//! artifact has what its kind needs before a collector is made for it.
use vstd::prelude::*;

use crate::data::artifact::{AType, WsArtifactData};
use crate::error::BError;
use crate::paths::{join, spec_join};
use crate::text::{chars_of, str_eq};

verus! {

/// A file that was collected: where it came from and where it was put.
#[derive(Debug)]
pub struct Collected {
    pub src: String,
    pub dest: String,
}

impl PartialEq for Collected {
    fn eq(&self, other: &Self) -> (res: bool) {
        str_eq(self.src.as_str(), other.src.as_str()) && str_eq(self.dest.as_str(), other.dest.as_str())
    }
}

impl vstd::std_specs::cmp::PartialEqSpecImpl for Collected {
    open spec fn obeys_eq_spec() -> bool {
        true
    }

    open spec fn eq_spec(&self, other: &Self) -> bool {
        self.src@ == other.src@ && self.dest@ == other.dest@
    }
}

/// The error for an artifact that lacks what its kind needs, if it does: a file and a
/// link need a source, a link a name too, a directory and an archive a name and at least
/// one artifact inside, a manifest a name and content.
pub open spec fn attributes_error(a: WsArtifactData, children: nat) -> Option<Seq<char>> {
    match a.atype {
        AType::File => if a.source@.len() == 0 {
            Some("File node requires source attribute!"@)
        } else {
            None
        },
        AType::Link => if a.source@.len() == 0 {
            Some("Link node requires source attribute!"@)
        } else if a.name@.len() == 0 {
            Some("Link node requires name attribute!"@)
        } else {
            None
        },
        AType::Directory => if a.name@.len() == 0 || children == 0 {
            Some("Directory node requires name and list of artifacts!"@)
        } else {
            None
        },
        AType::Archive => if a.name@.len() == 0 || children == 0 {
            Some("Archive node requires name and list of artifacts!"@)
        } else {
            None
        },
        AType::Manifest => if a.name@.len() == 0 || a.manifest@.len() == 0 {
            Some("Manifest node requires name and manifest content!"@)
        } else {
            None
        },
    }
}

/// Chooses the collector for an artifact.
pub struct CollectorFactory {}

impl CollectorFactory {
    /// The kind of collector for `artifact`, which holds `children` artifacts, once its
    /// attributes were checked; a `ValueError` when it lacks what its kind needs.
    pub fn create(artifact: &WsArtifactData, children: usize) -> (res: Result<AType, BError>)
        ensures
            match attributes_error(*artifact, children as nat) {
                Some(m) => res matches Err(e) && e is ValueError && e.message() == m,
                None => res == Ok::<AType, BError>(artifact.atype),
            },
    {
        let no_name = artifact.name.as_str().is_empty();
        let no_source = artifact.source.as_str().is_empty();
        match artifact.atype {
            AType::File => {
                if no_source {
                    return Err(BError::ValueError("File node requires source attribute!".to_string()));
                }
            },
            AType::Link => {
                if no_source {
                    return Err(BError::ValueError("Link node requires source attribute!".to_string()));
                }
                if no_name {
                    return Err(BError::ValueError("Link node requires name attribute!".to_string()));
                }
            },
            AType::Directory => {
                if no_name || children == 0 {
                    return Err(BError::ValueError("Directory node requires name and list of artifacts!".to_string()));
                }
            },
            AType::Archive => {
                if no_name || children == 0 {
                    return Err(BError::ValueError("Archive node requires name and list of artifacts!".to_string()));
                }
            },
            AType::Manifest => {
                if no_name || artifact.manifest.as_str().is_empty() {
                    return Err(BError::ValueError("Manifest node requires name and manifest content!".to_string()));
                }
            },
        }
        Ok(artifact.atype)
    }
}


/// The end of the last name of a path: its length once trailing `/`s are dropped.
pub open spec fn name_end(p: Seq<char>, end: int) -> int
    decreases end,
{
    if end <= 0 || end > p.len() {
        0
    } else if p[end - 1] == '/' {
        name_end(p, end - 1)
    } else {
        end
    }
}

/// The start of the name that ends at `end`: just after the `/` before it.
pub open spec fn name_start(p: Seq<char>, end: int) -> int
    decreases end,
{
    if end <= 0 || end > p.len() {
        0
    } else if p[end - 1] == '/' {
        end
    } else {
        name_start(p, end - 1)
    }
}

/// The last name of a path (the text after its last `/`, trailing `/`s dropped).
pub open spec fn last_name(p: Seq<char>) -> Seq<char> {
    let end = name_end(p, p.len() as int);
    p.subrange(name_start(p, end), end)
}

/// Whether a name has an extension: a `.` after its first character (`..` has none).
pub open spec fn has_extension(name: Seq<char>) -> bool {
    name != ".."@ && exists|i: int| 1 <= i < name.len() && name[i] == '.'
}

/// Whether the `dest` of a file artifact names a directory that the files go into (it is
/// empty, or its last name has no extension) rather than the file they are copied to.
pub open spec fn spec_dest_is_dir(dest: Seq<char>) -> bool {
    dest.len() == 0 || !has_extension(last_name(dest))
}

/// Whether the `dest` of a file artifact names a directory (see [`spec_dest_is_dir`]).
pub fn dest_is_dir(dest: &str) -> (res: bool)
    ensures
        res == spec_dest_is_dir(dest@),
{
    let cs = chars_of(dest);
    if cs.len() == 0 {
        return true;
    }
    let mut end: usize = cs.len();
    while end > 0 && cs[end - 1] == '/'
        invariant
            cs@ == dest@,
            end <= cs.len(),
            name_end(dest@, dest@.len() as int) == name_end(dest@, end as int),
        decreases end,
    {
        end = end - 1;
    }
    assert(name_end(dest@, end as int) == end as int);
    let mut start: usize = end;
    while start > 0 && cs[start - 1] != '/'
        invariant
            cs@ == dest@,
            start <= end <= cs.len(),
            name_start(dest@, end as int) == name_start(dest@, start as int),
        decreases start,
    {
        start = start - 1;
    }
    assert(name_start(dest@, start as int) == start as int);
    let ghost name = dest@.subrange(start as int, end as int);
    assert(name == last_name(dest@));
    proof {
        reveal_strlit("..");
    }
    if end - start == 2 && cs[start] == '.' && cs[start + 1] == '.' {
        assert(name =~= ".."@);
        return true;
    }
    proof {
        if name == ".."@ {
            assert(".."@.len() == 2 && ".."@[0] == '.' && ".."@[1] == '.');
            assert(name[0] == cs@[start as int] && name[1] == cs@[start as int + 1]);
        }
    }
    let mut i: usize = start + 1;
    while i < end
        invariant
            cs@ == dest@,
            start < i <= end || (i == start + 1 && end <= start + 1),
            end <= cs.len(),
            start <= end,
            name == dest@.subrange(start as int, end as int),
            name == last_name(dest@),
            name != ".."@,
            dest@.len() > 0,
            forall|k: int| 1 <= k < i - start && k < name.len() ==> name[k] != '.',
        decreases end - i,
    {
        if cs[i] == '.' {
            assert(name[i - start] == '.');
            assert(1 <= i - start < name.len());
            assert(has_extension(name));
            return false;
        }
        i = i + 1;
    }
    true
}

/// Where a file goes when collected into `dest_dir` with the artifact's `dest`: into the
/// directory `dest` names (at its place `rel` under the source directory) or to the file
/// it names (see [`spec_dest_is_dir`]).
pub open spec fn spec_copy_dest(dest_dir: Seq<char>, dest: Seq<char>, rel: Seq<char>) -> Seq<char> {
    if spec_dest_is_dir(dest) {
        spec_join(spec_join(dest_dir, dest), rel)
    } else {
        spec_join(dest_dir, dest)
    }
}

/// Where a collected file goes (see [`spec_copy_dest`]).
pub fn copy_dest(dest_dir: &str, dest: &str, rel: &str) -> (res: String)
    ensures
        res@ == spec_copy_dest(dest_dir@, dest@, rel@),
{
    let to = join(dest_dir, dest);
    if dest_is_dir(dest) {
        join(to.as_str(), rel)
    } else {
        to
    }
}

} // verus!
