//! The `upload` node of a build configuration: the command that uploads the artifacts, and the image of
//! the container it runs in.
use vstd::prelude::*;

use crate::configs::config::parse;
use crate::configs::context::{spec_expand, Context};
use crate::configs::task::member_or;
use crate::data::product::str_or_default;
use crate::error::BError;
use crate::json::{spec_get, spec_parse_json, Json};

verus! {

/// The `upload` command and its container image.
pub struct WsUploadData {
    cmd: String,
    docker: String,
}

impl View for WsUploadData {
    type V = (Seq<char>, Seq<char>);

    closed spec fn view(&self) -> (Seq<char>, Seq<char>) {
        (self.cmd@, self.docker@)
    }
}

/// The node that holds the entries: `upload` when there is one, else the whole
/// configuration.
pub open spec fn upload_node(data: Json) -> Json {
    match spec_get(data, "upload"@) {
        Some(n) => n,
        None => data,
    }
}

impl WsUploadData {
    /// Reads the command from the text of a build configuration.
    pub fn from_str(json_string: &str) -> (res: Result<Self, BError>)
        ensures
            match spec_parse_json(json_string@) {
                Ok(data) => res matches Ok(d) && d@ == (member_or(upload_node(data), "cmd"@, "NA"@), member_or(upload_node(data), "docker"@, "NA"@)),
                Err(m) => res matches Err(e) && e is ParseError && e.message() == "Failed to parse JSON: "@ + m,
            },
    {
        let data: Json = parse(json_string)?;
        Self::from_value(&data)
    }

    /// Reads the command from a build configuration (its `upload` node, or the whole
    /// configuration when there is none); this never fails.
    pub fn from_value(data: &Json) -> (res: Result<Self, BError>)
        ensures
            res matches Ok(d) && d@ == (member_or(upload_node(*data), "cmd"@, "NA"@), member_or(upload_node(*data), "docker"@, "NA"@)),
    {
        let node: &Json = match data.get("upload") {
            Some(v) => v,
            None => data,
        };
        Self::new(node)
    }

    /// Reads the command from its node; `cmd` and `docker` default to `NA`.
    pub fn new(data: &Json) -> (res: Result<Self, BError>)
        ensures
            res matches Ok(d) && d@ == (member_or(*data, "cmd"@, "NA"@), member_or(*data, "docker"@, "NA"@)),
    {
        let cmd = str_or_default("cmd", data, "NA".to_string());
        let docker = str_or_default("docker", data, "NA".to_string());
        Ok(WsUploadData { cmd, docker })
    }

    /// Expands the context variables in the command and the image.
    pub fn expand_ctx(&mut self, ctx: &Context)
        ensures
            final(self)@ == (spec_expand(ctx@, old(self)@.0), spec_expand(ctx@, old(self)@.1)),
    {
        self.cmd = ctx.expand_str(self.cmd.as_str());
        self.docker = ctx.expand_str(self.docker.as_str());
    }

    /// The command.
    pub fn deploy_cmd(&self) -> (res: &String)
        ensures
            res@ == self@.0,
    {
        &self.cmd
    }
}

} // verus!
