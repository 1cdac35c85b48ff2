//! A named sub-command of a build configuration (the setup command of a task): the command to run and the
//! image of the container it runs in.
use vstd::prelude::*;

use crate::configs::config::parse;
use crate::configs::context::{spec_expand, Context};
use crate::configs::task::member_or;
use crate::data::product::str_or_default;
use crate::error::BError;
use crate::json::{spec_get, spec_parse_json, Json};

verus! {

/// A named command and its container image.
pub struct WsTaskCmdData {
    name: String,
    cmd: String,
    docker: String,
}

impl View for WsTaskCmdData {
    type V = (Seq<char>, Seq<char>, Seq<char>);

    closed spec fn view(&self) -> (Seq<char>, Seq<char>, Seq<char>) {
        (self.name@, self.cmd@, self.docker@)
    }
}

impl WsTaskCmdData {
    /// The command line used when none is configured.
    pub open spec fn default_cmd(name: Seq<char>) -> Seq<char> {
        "echo \"INFO: currently no '"@ + name + "' task defined\""@
    }

    /// What reading the node of `name` gives.
    pub open spec fn spec_of(name: Seq<char>, data: Json) -> (Seq<char>, Seq<char>, Seq<char>) {
        (name, member_or(data, "cmd"@, Self::default_cmd(name)), member_or(data, "docker"@, "NA"@))
    }

    /// The node of the command `name`: that member when there is one, else the whole value.
    pub open spec fn node_of(name: Seq<char>, data: Json) -> Json {
        match spec_get(data, name) {
            Some(n) => n,
            None => data,
        }
    }

    /// Reads the command `name` from the text of a build configuration.
    pub fn from_str(name: &str, json_string: &str) -> (res: Result<Self, BError>)
        ensures
            match spec_parse_json(json_string@) {
                Ok(data) => res matches Ok(d) && d@ == Self::spec_of(name@, Self::node_of(name@, data)),
                Err(m) => res matches Err(e) && e is ParseError && e.message() == "Failed to parse JSON: "@ + m,
            },
    {
        let data: Json = parse(json_string)?;
        Self::from_value(name, &data)
    }

    /// Reads the command `name` from a build configuration; this never fails.
    pub fn from_value(name: &str, data: &Json) -> (res: Result<Self, BError>)
        ensures
            res matches Ok(d) && d@ == Self::spec_of(name@, Self::node_of(name@, *data)),
    {
        let node: &Json = match data.get(name) {
            Some(v) => v,
            None => data,
        };
        Self::new(name, node)
    }

    /// Reads the command `name` from its node.
    pub fn new(name: &str, data: &Json) -> (res: Result<Self, BError>)
        ensures
            res matches Ok(d) && d@ == Self::spec_of(name@, *data),
    {
        let default = "echo \"INFO: currently no '".to_string().concat(name).concat("' task defined\"");
        let cmd = str_or_default("cmd", data, default);
        let docker = str_or_default("docker", data, "NA".to_string());
        Ok(WsTaskCmdData { name: name.to_string(), cmd, docker })
    }

    /// Expands the context variables in the command and the image.
    pub fn expand_ctx(&mut self, ctx: &Context) -> (res: Result<(), BError>)
        ensures
            res is Ok,
            final(self)@ == (old(self)@.0, spec_expand(ctx@, old(self)@.1), spec_expand(ctx@, old(self)@.2)),
    {
        self.cmd = ctx.expand_str(self.cmd.as_str());
        self.docker = ctx.expand_str(self.docker.as_str());
        Ok(())
    }

    /// The command.
    pub fn setup_cmd(&self) -> (res: &String)
        ensures
            res@ == self@.1,
    {
        &self.cmd
    }
}

} // verus!
