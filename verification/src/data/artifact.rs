//! An artifact that a task collects: a file, a directory, an archive, a manifest or a
//! link.
use vstd::prelude::*;

use crate::configs::config::{get_str_manifest, parse, quoted};
use crate::configs::context::{spec_expand, Context};
use crate::configs::task::member_or;
use crate::data::product::str_or_default;
use crate::error::BError;
use crate::json::{spec_get, spec_json_text, spec_parse_json, Json};
use crate::text::str_eq;

verus! {

/// The kind of an artifact.
#[derive(Clone, Copy, Debug, PartialEq, Eq, Structural)]
pub enum AType {
    File,
    Directory,
    Archive,
    Manifest,
    Link,
}

/// An artifact of a task.
pub struct WsArtifactData {
    pub atype: AType,
    pub name: String,
    pub source: String,
    pub dest: String,
    pub manifest: String,
}

/// The artifact kind that a `type` entry names.
pub open spec fn spec_atype(t: Seq<char>) -> Option<AType> {
    if t == "file"@ {
        Some(AType::File)
    } else if t == "directory"@ {
        Some(AType::Directory)
    } else if t == "archive"@ {
        Some(AType::Archive)
    } else if t == "manifest"@ {
        Some(AType::Manifest)
    } else if t == "link"@ {
        Some(AType::Link)
    } else {
        None
    }
}

/// The first error that reading an artifact node meets: a `content` that is not an
/// object is a `ParseError` (`None` in the second component); the rest are
/// `ParseArtifactsError`s.
pub open spec fn artifact_data_error(data: Json) -> Option<(bool, Seq<char>)> {
    let t = member_or(data, "type"@, "file"@);
    let name = member_or(data, "name"@, seq![]);
    let source = member_or(data, "source"@, seq![]);
    if spec_get(data, "content"@) matches Some(c) && !(c is Object) {
        Some((false, quoted("Failed to parse manifest. Error when reading object '"@, "content"@)))
    } else if spec_atype(t) is None {
        Some((true, quoted("Invalid type '"@, t)))
    } else if t == "file"@ && source.len() == 0 {
        Some((true, "The 'file' type requires a 'source'"@))
    } else if t == "directory"@ && name.len() == 0 {
        Some((true, "The 'directory' type requires a 'name'"@))
    } else if t == "archive"@ && name.len() == 0 {
        Some((true, "The 'archive' type requires a 'name'"@))
    } else if t == "manifest"@ && name.len() == 0 {
        Some((true, "The 'manifest' type requires a 'name'"@))
    } else if t == "link"@ && (name.len() == 0 || source.len() == 0) {
        Some((true, "The 'link' type requires a 'name' and 'source'"@))
    } else {
        None
    }
}

impl WsArtifactData {
    /// What reading the node `data` gives.
    pub open spec fn new_result(data: Json, res: Result<Self, BError>) -> bool {
        match artifact_data_error(data) {
            Some((true, m)) => res matches Err(e) && e is ParseArtifactsError && e.message() == m,
            Some((false, m)) => res matches Err(e) && e is ParseError && e.message() == m,
            None => res matches Ok(a) && {
                &&& spec_atype(member_or(data, "type"@, "file"@)) == Some(a.atype)
                &&& a.name@ == member_or(data, "name"@, seq![])
                &&& a.source@ == member_or(data, "source"@, seq![])
                &&& a.dest@ == member_or(data, "dest"@, seq![])
                &&& a.manifest@ == match spec_get(data, "content"@) {
                    Some(c) => spec_json_text(c),
                    None => "{}"@,
                }
            },
        }
    }

    /// Reads an artifact from the text of its node.
    pub fn from_str(json_string: &str) -> (res: Result<Self, BError>)
        ensures
            match spec_parse_json(json_string@) {
                Ok(data) => Self::new_result(data, res),
                Err(m) => res matches Err(e) && e is ParseError && e.message() == "Failed to parse JSON: "@ + m,
            },
    {
        let data: Json = parse(json_string)?;
        Self::from_value(&data)
    }

    /// Reads an artifact from its node.
    pub fn from_value(data: &Json) -> (res: Result<Self, BError>)
        ensures
            Self::new_result(*data, res),
    {
        Self::new(data)
    }

    /// Reads an artifact from its node.
    pub fn new(data: &Json) -> (res: Result<Self, BError>)
        ensures
            Self::new_result(*data, res),
    {
        proof {
            reveal_strlit("file");
            reveal_strlit("directory");
            reveal_strlit("archive");
            reveal_strlit("manifest");
            reveal_strlit("link");
            reveal_strlit("{}");
            reveal_strlit("content");
        }
        let ttype = str_or_default("type", data, "file".to_string());
        let name = str_or_default("name", data, String::new());
        let source = str_or_default("source", data, String::new());
        let dest = str_or_default("dest", data, String::new());
        let manifest: String = get_str_manifest("content", data, Some("{}".to_string()))?;
        let t = ttype.as_str();
        let is_file = str_eq(t, "file");
        let is_dir = str_eq(t, "directory");
        let is_archive = str_eq(t, "archive");
        let is_manifest = str_eq(t, "manifest");
        let is_link = str_eq(t, "link");
        if !is_file && !is_dir && !is_archive && !is_manifest && !is_link {
            return Err(BError::ParseArtifactsError(crate::configs::config::quoted_msg("Invalid type '", t)));
        }
        if is_file && source.as_str().is_empty() {
            return Err(BError::ParseArtifactsError("The 'file' type requires a 'source'".to_string()));
        }
        if is_dir && name.as_str().is_empty() {
            return Err(BError::ParseArtifactsError("The 'directory' type requires a 'name'".to_string()));
        }
        if is_archive && name.as_str().is_empty() {
            return Err(BError::ParseArtifactsError("The 'archive' type requires a 'name'".to_string()));
        }
        if is_manifest && name.as_str().is_empty() {
            return Err(BError::ParseArtifactsError("The 'manifest' type requires a 'name'".to_string()));
        }
        if is_link && (name.as_str().is_empty() || source.as_str().is_empty()) {
            return Err(BError::ParseArtifactsError("The 'link' type requires a 'name' and 'source'".to_string()));
        }
        let atype = if is_file {
            AType::File
        } else if is_dir {
            AType::Directory
        } else if is_archive {
            AType::Archive
        } else if is_manifest {
            AType::Manifest
        } else {
            AType::Link
        };
        Ok(WsArtifactData { atype, name, source, dest, manifest })
    }

    /// Expands the context variables in the entries that the artifact's kind uses.
    pub fn expand_ctx(&mut self, ctx: &Context)
        ensures
            final(self).atype == old(self).atype,
            final(self).name@ == spec_expand(ctx@, old(self).name@),
            final(self).source@ == (if old(self).atype is File || old(self).atype is Link {
                spec_expand(ctx@, old(self).source@) } else { old(self).source@ }),
            final(self).dest@ == (if old(self).atype is File {
                spec_expand(ctx@, old(self).dest@) } else { old(self).dest@ }),
            final(self).manifest@ == (if old(self).atype is Manifest {
                spec_expand(ctx@, old(self).manifest@) } else { old(self).manifest@ }),
    {
        self.name = ctx.expand_str(self.name.as_str());
        match self.atype {
            AType::File => {
                self.source = ctx.expand_str(self.source.as_str());
                self.dest = ctx.expand_str(self.dest.as_str());
            },
            AType::Directory => {},
            AType::Archive => {},
            AType::Manifest => {
                self.manifest = ctx.expand_str(self.manifest.as_str());
            },
            AType::Link => {
                self.source = ctx.expand_str(self.source.as_str());
            },
        }
    }

    /// The name.
    pub fn name(&self) -> (res: &str)
        ensures
            res@ == self.name@,
    {
        self.name.as_str()
    }

    /// The kind.
    pub fn atype(&self) -> (res: &AType)
        ensures
            *res == self.atype,
    {
        &self.atype
    }

    /// The source.
    pub fn source(&self) -> (res: &str)
        ensures
            res@ == self.source@,
    {
        self.source.as_str()
    }

    /// The destination.
    pub fn dest(&self) -> (res: &str)
        ensures
            res@ == self.dest@,
    {
        self.dest.as_str()
    }

    /// The manifest content.
    pub fn manifest(&self) -> (res: &str)
        ensures
            res@ == self.manifest@,
    {
        self.manifest.as_str()
    }
}

} // verus!
