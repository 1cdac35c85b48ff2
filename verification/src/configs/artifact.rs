//! An artifact of a task (the older `ArtifactConfig` record): a file, a directory or an
//! archive of further artifacts, or a manifest written from JSON content.
//!
//! ```json
//! { "type": "archive", "name": "test.zip",
//!   "artifacts": [ { "type": "directory", "name": "dir",
//!                    "artifacts": [ { "source": "file1.txt" } ] } ] }
//! ```
use vstd::prelude::*;

use crate::configs::config::{get_str_manifest, get_str_value, parse};
use crate::configs::context::{spec_expand, Context};
use crate::configs::task::member_or;
use crate::error::BError;
use crate::json::{lemma_get_decreases, spec_get, spec_json_text, spec_parse_json, Json};
use crate::text::str_eq;

verus! {

/// The kind of an artifact.
#[derive(Clone, Copy, Debug, PartialEq, Eq, Structural)]
pub enum AType {
    File,
    Directory,
    Archive,
    Manifest,
}

/// An artifact and, for a directory or an archive, the artifacts it holds.
pub struct ArtifactConfig {
    pub atype: AType,
    pub name: String,
    pub source: String,
    pub dest: String,
    pub artifacts: Vec<ArtifactConfig>,
    pub manifest: String,
}

/// The artifact kind that a `type` entry names.
pub open spec fn spec_atype(t: Seq<char>) -> Option<AType> {
    if t == "file"@ {
        Some(AType::File)
    } else if t == "directory"@ {
        Some(AType::Directory)
    } else if t == "archive"@ {
        Some(AType::Archive)
    } else if t == "manifest"@ {
        Some(AType::Manifest)
    } else {
        None
    }
}

/// The common beginning of the messages about a malformed artifact.
pub open spec fn artifact_msg(rest: Seq<char>) -> Seq<char> {
    "Invalid 'artifact' format in build config. "@ + rest
}

/// The first error that reading the node itself (not its children) meets.
pub open spec fn node_error(data: Json) -> Option<Seq<char>> {
    let t = member_or(data, "type"@, "file"@);
    let name = member_or(data, "name"@, seq![]);
    let source = member_or(data, "source"@, seq![]);
    if spec_get(data, "content"@) matches Some(c) && !(c is Object) {
        Some(crate::configs::config::quoted("Failed to parse manifest. Error when reading object '"@, "content"@))
    } else if spec_atype(t) is None {
        Some(artifact_msg("Invalid type '"@ + t + "'"@))
    } else if t == "file"@ && source.len() == 0 {
        Some(artifact_msg("The 'file' type requires a defined 'source'"@))
    } else if t == "directory"@ && name.len() == 0 {
        Some(artifact_msg("The 'directory' type requires a 'name'"@))
    } else if t == "archive"@ && name.len() == 0 {
        Some(artifact_msg("The 'archive' type requires a 'name'"@))
    } else if t == "manifest"@ && name.len() == 0 {
        Some(artifact_msg("The 'manifest' type requires a 'name'"@))
    } else {
        None
    }
}

/// The first error that reading an artifact node and its children meets, if any.
pub open spec fn artifact_error(data: Json) -> Option<Seq<char>>
    decreases data, 2int, 0int,
{
    if node_error(data) is Some {
        node_error(data)
    } else {
        children_error(data)
    }
}

/// The first error that reading the children of a node meets, if any.
pub open spec fn children_error(data: Json) -> Option<Seq<char>>
    decreases data, 1int, 0int,
{
    match spec_get(data, "artifacts"@) {
        Some(Json::Array(items)) => items_error(data, items@.len() as int),
        Some(_) => Some("Invalid 'artifacts' format in build config"@),
        None => None,
    }
}

/// The first error among the first `n` children of `parent`, if any.
pub open spec fn items_error(parent: Json, n: int) -> Option<Seq<char>>
    decreases parent, 0int, n,
{
    match spec_get(parent, "artifacts"@) {
        Some(Json::Array(items)) => {
            if n <= 0 || n > items@.len() {
                None
            } else {
                match items_error(parent, n - 1) {
                    Some(m) => Some(m),
                    None => {
                        proof {
                            lemma_get_decreases(parent, "artifacts"@);
                        }
                        artifact_error(items@[n - 1])
                    },
                }
            }
        },
        _ => None,
    }
}

/// Once an error is met among the children, it stays the first error.
pub proof fn lemma_items_error_stays(parent: Json, k: int, n: int)
    requires
        k <= n,
        items_error(parent, k) is Some,
        spec_get(parent, "artifacts"@) matches Some(Json::Array(items)) && n <= items@.len(),
    ensures
        items_error(parent, n) == items_error(parent, k),
    decreases n - k,
{
    if k < n {
        lemma_items_error_stays(parent, k, n - 1);
    }
}

/// The manifest text of a node: its `content` object written out, or `{}`.
pub open spec fn manifest_text(data: Json) -> Seq<char> {
    match spec_get(data, "content"@) {
        Some(c) => spec_json_text(c),
        None => "{}"@,
    }
}

/// `a` is what reading `data` gives (when reading it succeeds).
pub open spec fn artifact_of(data: Json, a: ArtifactConfig) -> bool
    decreases data,
{
    &&& spec_atype(member_or(data, "type"@, "file"@)) == Some(a.atype)
    &&& a.name@ == member_or(data, "name"@, seq![])
    &&& a.source@ == member_or(data, "source"@, seq![])
    &&& a.dest@ == member_or(data, "dest"@, seq![])
    &&& a.manifest@ == manifest_text(data)
    &&& match spec_get(data, "artifacts"@) {
        Some(Json::Array(items)) => {
            &&& a.artifacts@.len() == items@.len()
            &&& forall|i: int| 0 <= i < items@.len() ==> {
                proof {
                    lemma_get_decreases(data, "artifacts"@);
                }
                artifact_of(items@[i], #[trigger] a.artifacts@[i])
            }
        },
        _ => a.artifacts@.len() == 0,
    }
}

/// `new` is `old` with the context variables `ctx` expanded as
/// [`ArtifactConfig::expand_ctx`] does.
pub open spec fn artifact_expanded(old: ArtifactConfig, new: ArtifactConfig, ctx: Seq<(Seq<char>, Seq<char>)>) -> bool
    decreases old,
{
    &&& new.atype == old.atype
    &&& new.name@ == spec_expand(ctx, old.name@)
    &&& match old.atype {
        AType::File => {
            &&& new.source@ == spec_expand(ctx, old.source@)
            &&& new.dest@ == spec_expand(ctx, old.dest@)
            &&& new.manifest == old.manifest
            &&& new.artifacts == old.artifacts
        },
        AType::Directory | AType::Archive => {
            &&& new.source == old.source
            &&& new.dest == old.dest
            &&& new.manifest == old.manifest
            &&& new.artifacts@.len() == old.artifacts@.len()
            &&& forall|i: int| 0 <= i < old.artifacts@.len() ==> artifact_expanded(old.artifacts@[i], #[trigger] new.artifacts@[i], ctx)
        },
        AType::Manifest => {
            &&& new.source == old.source
            &&& new.dest == old.dest
            &&& new.manifest@ == spec_expand(ctx, old.manifest@)
            &&& new.artifacts == old.artifacts
        },
    }
}

/// The result of reading `data`: its first error as a `ParseError`, or the artifact.
pub open spec fn artifact_result(data: Json, res: Result<ArtifactConfig, BError>) -> bool {
    match artifact_error(data) {
        Some(m) => res matches Err(e) && e is ParseError && e.message() == m,
        None => res matches Ok(a) && artifact_of(data, a),
    }
}

impl ArtifactConfig {
    /// Reads the artifacts listed under `artifacts` in `data` (the children of an
    /// artifact node, or the artifacts of a task node).
    pub fn get_artifacts(data: &Json) -> (res: Result<Vec<ArtifactConfig>, BError>)
        ensures
            match children_error(*data) {
                Some(m) => res matches Err(e) && e is ParseError && e.message() == m,
                None => res matches Ok(v) && match spec_get(*data, "artifacts"@) {
                    Some(Json::Array(items)) => v@.len() == items@.len()
                        && forall|i: int| 0 <= i < items@.len() ==> artifact_of(items@[i], #[trigger] v@[i]),
                    _ => v@.len() == 0,
                },
            },
        decreases *data, 1int,
    {
        proof {
            reveal_strlit("Invalid 'artifacts' format in build config");
        }
        match data.get("artifacts") {
            Some(value) => match value {
                Json::Array(items) => {
                    let mut out: Vec<ArtifactConfig> = Vec::new();
                    let mut i: usize = 0;
                    proof {
                        lemma_get_decreases(*data, "artifacts"@);
                    }
                    while i < items.len()
                        invariant
                            i <= items.len(),
                            spec_get(*data, "artifacts"@) == Some(*value),
                            *value == Json::Array(*items),
                            decreases_to!(*data => *value),
                            items_error(*data, i as int) is None,
                            out@.len() == i,
                            forall|j: int| 0 <= j < i ==> artifact_of(items@[j], #[trigger] out@[j]),
                        decreases items.len() - i,
                    {
                        assert(decreases_to!(*value => *items));
                        assert(decreases_to!(*items => items@));
                        assert(decreases_to!(items@ => items@[i as int]));
                        let a = Self::from_value(&items[i]);
                        match a {
                            Ok(a) => {
                                out.push(a);
                            },
                            Err(e) => {
                                proof {
                                    assert(items_error(*data, i as int + 1) == artifact_error(items@[i as int]));
                                    lemma_items_error_stays(*data, i as int + 1, items@.len() as int);
                                }
                                return Err(e);
                            },
                        }
                        assert(items_error(*data, i as int + 1) is None);
                        i = i + 1;
                    }
                    Ok(out)
                },
                _ => Err(BError::ParseError("Invalid 'artifacts' format in build config".to_string())),
            },
            None => Ok(Vec::new()),
        }
    }

    /// Reads an artifact from the text of its JSON node.
    pub fn from_str(json_string: &str) -> (res: Result<Self, BError>)
        ensures
            match spec_parse_json(json_string@) {
                Ok(data) => artifact_result(data, res),
                Err(m) => res matches Err(e) && e is ParseError && e.message() == "Failed to parse JSON: "@ + m,
            },
    {
        let data: Json = parse(json_string)?;
        Self::from_value(&data)
    }

    /// Reads an artifact, and the artifacts it holds, from its JSON node.
    pub fn from_value(data: &Json) -> (res: Result<Self, BError>)
        ensures
            artifact_result(*data, res),
        decreases *data, 2int,
    {
        proof {
            reveal_strlit("file");
            reveal_strlit("directory");
            reveal_strlit("archive");
            reveal_strlit("manifest");
            reveal_strlit("{}");
            reveal_strlit("'");
            reveal_strlit("Invalid 'artifact' format in build config. ");
            reveal_strlit("Failed to parse manifest. Error when reading object '");
            reveal_strlit("content");
        }
        let ttype: String = get_str_value("type", data, Some("file".to_string()))?;
        let name: String = get_str_value("name", data, Some(String::new()))?;
        let source: String = get_str_value("source", data, Some(String::new()))?;
        let dest: String = get_str_value("dest", data, Some(String::new()))?;
        let manifest: String = match get_str_manifest("content", data, Some("{}".to_string())) {
            Ok(m) => m,
            Err(e) => {
                return Err(e);
            },
        };
        let t = ttype.as_str();
        let is_file = str_eq(t, "file");
        let is_dir = str_eq(t, "directory");
        let is_archive = str_eq(t, "archive");
        let is_manifest = str_eq(t, "manifest");
        let prefix = "Invalid 'artifact' format in build config. ".to_string();
        if !is_file && !is_dir && !is_archive && !is_manifest {
            let m = prefix.concat("Invalid type '").concat(t).concat("'");
            proof {
                reveal_strlit("Invalid type '");
                assert(m@ =~= artifact_msg("Invalid type '"@ + t@ + "'"@));
            }
            return Err(BError::ParseError(m));
        }
        if is_file && source.as_str().is_empty() {
            proof {
                reveal_strlit("The 'file' type requires a defined 'source'");
            }
            return Err(BError::ParseError(prefix.concat("The 'file' type requires a defined 'source'")));
        }
        if is_dir && name.as_str().is_empty() {
            proof {
                reveal_strlit("The 'directory' type requires a 'name'");
            }
            return Err(BError::ParseError(prefix.concat("The 'directory' type requires a 'name'")));
        }
        if is_archive && name.as_str().is_empty() {
            proof {
                reveal_strlit("The 'archive' type requires a 'name'");
            }
            return Err(BError::ParseError(prefix.concat("The 'archive' type requires a 'name'")));
        }
        if is_manifest && name.as_str().is_empty() {
            proof {
                reveal_strlit("The 'manifest' type requires a 'name'");
            }
            return Err(BError::ParseError(prefix.concat("The 'manifest' type requires a 'name'")));
        }
        let atype = if is_file {
            AType::File
        } else if is_dir {
            AType::Directory
        } else if is_archive {
            AType::Archive
        } else {
            AType::Manifest
        };
        let artifacts = Self::get_artifacts(data)?;
        Ok(ArtifactConfig { atype, name, source, dest, artifacts, manifest })
    }

    /// Expands the context variables in the entries that the artifact's kind uses: the
    /// name, source and destination of a file; the name and (recursively) the children
    /// of a directory or archive; the name and content of a manifest.
    pub fn expand_ctx(&mut self, ctx: &Context)
        ensures
            artifact_expanded(*old(self), *final(self), ctx@),
        decreases *old(self),
    {
        match self.atype {
            AType::File => {
                self.name = ctx.expand_str(self.name.as_str());
                self.source = ctx.expand_str(self.source.as_str());
                self.dest = ctx.expand_str(self.dest.as_str());
            },
            AType::Directory | AType::Archive => {
                self.name = ctx.expand_str(self.name.as_str());
                let mut i: usize = 0;
                while i < self.artifacts.len()
                    invariant
                        i <= self.artifacts.len(),
                        self.artifacts@.len() == old(self).artifacts@.len(),
                        self.atype == old(self).atype,
                        self.name@ == spec_expand(ctx@, old(self).name@),
                        self.source == old(self).source,
                        self.dest == old(self).dest,
                        self.manifest == old(self).manifest,
                        forall|j: int| 0 <= j < i ==> artifact_expanded(old(self).artifacts@[j], #[trigger] self.artifacts@[j], ctx@),
                        forall|j: int| i <= j < self.artifacts@.len() ==> #[trigger] self.artifacts@[j] == old(self).artifacts@[j],
                    decreases self.artifacts.len() - i,
                {
                    assert(decreases_to!(*old(self) => old(self).artifacts));
                    assert(decreases_to!(old(self).artifacts => old(self).artifacts@));
                    assert(decreases_to!(old(self).artifacts@ => old(self).artifacts@[i as int]));
                    self.artifacts[i].expand_ctx(ctx);
                    i = i + 1;
                }
            },
            AType::Manifest => {
                self.name = ctx.expand_str(self.name.as_str());
                self.manifest = ctx.expand_str(self.manifest.as_str());
            },
        }
    }
}

} // verus!
