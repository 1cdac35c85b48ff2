//! The `bb` node of a build configuration (the older `BBConfig` record).
use vstd::prelude::*;

use crate::configs::config::{get_array_value, get_str_value, parse, quoted};
use crate::configs::context::{spec_expand, Context};
use crate::configs::task::{list_member, member_or};
use crate::error::BError;
use crate::json::{spec_parse_json, Json};

verus! {

/// The bitbake settings of a build.
pub struct BBConfig {
    pub machine: String,
    pub distro: String,
    pub deploy_dir: String,
    pub docker: String,
    pub bblayers_conf: Vec<String>,
    pub local_conf: Vec<String>,
}

impl BBConfig {
    /// What [`BBConfig::from_value`] gives for `data`.
    pub open spec fn from_value_result(data: Json, res: Result<Self, BError>) -> bool {
        if list_member(data, "bblayersconf"@) is None {
            res matches Err(e) && e is ParseError && e.message() == quoted("Failed to read array '"@, "bblayersconf"@)
        } else if list_member(data, "localconf"@) is None {
            res matches Err(e) && e is ParseError && e.message() == quoted("Failed to read array '"@, "localconf"@)
        } else {
            res matches Ok(b) && {
                &&& b.machine@ == member_or(data, "machine"@, seq![])
                &&& b.distro@ == member_or(data, "distro"@, seq![])
                &&& b.docker@ == member_or(data, "docker"@, seq![])
                &&& b.deploy_dir@ == member_or(data, "deploydir"@, "tmp/deploy/images"@)
                &&& list_member(data, "bblayersconf"@) == Some(b.bblayers_conf@.map_values(|p: String| p@))
                &&& list_member(data, "localconf"@) == Some(b.local_conf@.map_values(|p: String| p@))
            }
        }
    }

    /// Reads the settings from the text of the `bb` node.
    pub fn from_str(json_string: &str) -> (res: Result<Self, BError>)
        ensures
            match spec_parse_json(json_string@) {
                Ok(data) => Self::from_value_result(data, res),
                Err(m) => res matches Err(e) && e is ParseError && e.message() == "Failed to parse JSON: "@ + m,
            },
    {
        let data: Json = parse(json_string)?;
        Self::from_value(&data)
    }

    /// Reads the settings from the `bb` node.
    pub fn from_value(data: &Json) -> (res: Result<Self, BError>)
        ensures
            Self::from_value_result(*data, res),
    {
        let machine: String = get_str_value("machine", data, Some(String::new()))?;
        let distro: String = get_str_value("distro", data, Some(String::new()))?;
        let docker: String = get_str_value("docker", data, Some(String::new()))?;
        let deploy_dir: String = get_str_value("deploydir", data, Some("tmp/deploy/images".to_string()))?;
        let e1: Vec<String> = Vec::new();
        assert(e1@.map_values(|p: String| p@) =~= Seq::<Seq<char>>::empty());
        let bblayers_conf: Vec<String> = get_array_value("bblayersconf", data, Some(e1))?;
        let e2: Vec<String> = Vec::new();
        assert(e2@.map_values(|p: String| p@) =~= Seq::<Seq<char>>::empty());
        let local_conf: Vec<String> = get_array_value("localconf", data, Some(e2))?;
        Ok(BBConfig { machine, distro, deploy_dir, docker, bblayers_conf, local_conf })
    }

    /// Expands the context variables in the machine, distro, docker image and deploy
    /// directory. The `bblayers.conf` and `local.conf` lines are left alone: bitbake
    /// reads its own `${}` variables in them.
    pub fn expand_ctx(&mut self, ctx: &Context)
        ensures
            final(self).machine@ == spec_expand(ctx@, old(self).machine@),
            final(self).distro@ == spec_expand(ctx@, old(self).distro@),
            final(self).docker@ == spec_expand(ctx@, old(self).docker@),
            final(self).deploy_dir@ == spec_expand(ctx@, old(self).deploy_dir@),
            final(self).bblayers_conf == old(self).bblayers_conf,
            final(self).local_conf == old(self).local_conf,
    {
        self.machine = ctx.expand_str(self.machine.as_str());
        self.distro = ctx.expand_str(self.distro.as_str());
        self.docker = ctx.expand_str(self.docker.as_str());
        self.deploy_dir = ctx.expand_str(self.deploy_dir.as_str());
    }
}

} // verus!
