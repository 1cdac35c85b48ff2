//! The bitbake part of a build: machine, distro, image of the build container, the lines
//! of `bblayers.conf` and `local.conf`, and the directories of the build.
use vstd::prelude::*;

use crate::configs::config::{get_array_value, parse, quoted};
use crate::configs::context::{spec_expand, Context};
use crate::configs::task::{list_member, member_or};
use crate::data::product::str_or_default;
use crate::error::BError;
use crate::json::{spec_get, spec_parse_json, Json};
use crate::paths::{join, spec_join};
use crate::text::texts;
use crate::workspace::WsSettingsHandler;

verus! {

/// The node that holds the bitbake entries: `bb` when there is one, else the whole
/// configuration.
pub open spec fn bb_node(data: Json) -> Json {
    match spec_get(data, "bb"@) {
        Some(n) => n,
        None => data,
    }
}

/// The lines of a configuration file, each ended by a newline.
pub open spec fn lines_text(lines: Seq<Seq<char>>) -> Seq<char>
    decreases lines.len(),
{
    if lines.len() == 0 {
        seq![]
    } else {
        lines_text(lines.drop_last()) + lines.last() + seq!['\n']
    }
}

/// The bitbake part of a build.
pub struct WsBitbakeData {
    product: String,
    arch: String,
    machine: String,
    distro: String,
    deploy_dir: String,
    docker: String,
    bblayers_conf: Vec<String>,
    local_conf: Vec<String>,
    settings: WsSettingsHandler,
}

/// The bitbake data as text.
pub struct BitbakeView {
    pub product: Seq<char>,
    pub arch: Seq<char>,
    pub machine: Seq<char>,
    pub distro: Seq<char>,
    pub deploy_dir: Seq<char>,
    pub docker: Seq<char>,
    pub bblayers_conf: Seq<Seq<char>>,
    pub local_conf: Seq<Seq<char>>,
    pub work_dir: Seq<char>,
    pub builds_dir: Seq<char>,
    pub cache_dir: Seq<char>,
}

impl View for WsBitbakeData {
    type V = BitbakeView;

    closed spec fn view(&self) -> BitbakeView {
        BitbakeView {
            product: self.product@,
            arch: self.arch@,
            machine: self.machine@,
            distro: self.distro@,
            deploy_dir: self.deploy_dir@,
            docker: self.docker@,
            bblayers_conf: texts(self.bblayers_conf@),
            local_conf: texts(self.local_conf@),
            work_dir: self.settings.spec_work_dir(),
            builds_dir: spec_join(self.settings.spec_work_dir(), self.settings.spec_settings().builds_dir@),
            cache_dir: spec_join(self.settings.spec_work_dir(), self.settings.spec_settings().cache_dir@),
        }
    }
}

/// The build directory: the product's directory among the builds.
pub open spec fn spec_build_dir(b: BitbakeView) -> Seq<char> {
    spec_join(b.builds_dir, b.product)
}

/// The `conf` directory of the build.
pub open spec fn spec_build_config_dir(b: BitbakeView) -> Seq<char> {
    spec_join(spec_build_dir(b), "conf"@)
}

/// The shared-state cache of the architecture.
pub open spec fn spec_sstate_dir(b: BitbakeView) -> Seq<char> {
    spec_join(spec_join(b.cache_dir, b.arch), "sstate-cache"@)
}

/// The download cache.
pub open spec fn spec_dl_dir(b: BitbakeView) -> Seq<char> {
    spec_join(b.cache_dir, "download"@)
}

/// The poky layer.
pub open spec fn spec_poky_dir(b: BitbakeView) -> Seq<char> {
    spec_join(spec_join(b.work_dir, "layers"@), "poky"@)
}

/// A `NAME ?= "value"` line.
pub open spec fn conf_line(name: Seq<char>, value: Seq<char>) -> Seq<char> {
    name + " ?= \""@ + value + "\"\n"@
}

/// The text of `local.conf`: the configured lines, then the machine, variant, product
/// name, distro and the two cache directories.
pub open spec fn spec_local_conf(b: BitbakeView) -> Seq<char> {
    lines_text(b.local_conf) + conf_line("MACHINE"@, b.machine) + conf_line("VARIANT"@, "dev"@)
        + conf_line("PRODUCT_NAME"@, b.product) + conf_line("DISTRO"@, b.distro)
        + conf_line("SSTATE_DIR"@, spec_sstate_dir(b)) + conf_line("DL_DIR"@, spec_dl_dir(b))
}

/// The text of the configured lines, each ended by a newline.
pub fn lines_of(lines: &Vec<String>) -> (res: String)
    ensures
        res@ == lines_text(texts(lines@)),
{
    proof {
        reveal_strlit("\n");
    }
    let mut out = String::new();
    let mut i: usize = 0;
    while i < lines.len()
        invariant
            i <= lines.len(),
            out@ == lines_text(texts(lines@.take(i as int))),
        decreases lines.len() - i,
    {
        let ghost prev = out@;
        out = out.concat(lines[i].as_str()).concat("\n");
        proof {
            reveal_strlit("\n");
        }
        assert("\n"@ =~= seq!['\n']);
        assert(texts(lines@.take(i as int + 1)).drop_last() =~= texts(lines@.take(i as int)));
        assert(texts(lines@.take(i as int + 1)).last() == lines@[i as int]@);
        assert(out@ =~= prev + lines@[i as int]@ + seq!['\n']);
        i = i + 1;
    }
    assert(lines@.take(lines.len() as int) == lines@);
    out
}

/// Builds a `NAME ?= "value"` line.
fn conf_line_of(name: &str, value: &str) -> (res: String)
    ensures
        res@ == conf_line(name@, value@),
{
    name.to_string().concat(" ?= \"").concat(value).concat("\"\n")
}

impl WsBitbakeData {
    /// What [`WsBitbakeData::from_value`] gives for `data` and the workspace `settings`.
    pub open spec fn from_value_result(data: Json, settings: WsSettingsHandler, res: Result<Self, BError>) -> bool {
        let bb = bb_node(data);
        if list_member(bb, "bblayersconf"@) is None {
            res matches Err(e) && e is ParseError && e.message() == quoted("Failed to read array '"@, "bblayersconf"@)
        } else if list_member(bb, "localconf"@) is None {
            res matches Err(e) && e is ParseError && e.message() == quoted("Failed to read array '"@, "localconf"@)
        } else {
            res matches Ok(b) && {
                &&& b@.product == member_or(data, "name"@, "NA"@)
                &&& b@.arch == member_or(data, "arch"@, "NA"@)
                &&& b@.machine == member_or(bb, "machine"@, "NA"@)
                &&& b@.distro == member_or(bb, "distro"@, "NA"@)
                &&& b@.docker == member_or(bb, "docker"@, "NA"@)
                &&& b@.deploy_dir == member_or(bb, "deploydir"@, "tmp/deploy/images"@)
                &&& list_member(bb, "bblayersconf"@) == Some(b@.bblayers_conf)
                &&& list_member(bb, "localconf"@) == Some(b@.local_conf)
                &&& b@.work_dir == settings.spec_work_dir()
                &&& b@.builds_dir == spec_join(settings.spec_work_dir(), settings.spec_settings().builds_dir@)
                &&& b@.cache_dir == spec_join(settings.spec_work_dir(), settings.spec_settings().cache_dir@)
            }
        }
    }

    /// Reads the bitbake part from the text of a build configuration.
    pub fn from_str(json_string: &str, settings: &WsSettingsHandler) -> (res: Result<Self, BError>)
        ensures
            match spec_parse_json(json_string@) {
                Ok(data) => Self::from_value_result(data, *settings, res),
                Err(m) => res matches Err(e) && e is ParseError && e.message() == "Failed to parse JSON: "@ + m,
            },
    {
        let data: Json = parse(json_string)?;
        Self::from_value(&data, settings)
    }

    /// Reads the bitbake part of a build configuration.
    pub fn from_value(data: &Json, settings: &WsSettingsHandler) -> (res: Result<Self, BError>)
        ensures
            Self::from_value_result(*data, *settings, res),
    {
        let bb_data: &Json = match data.get("bb") {
            Some(v) => v,
            None => data,
        };
        let product = str_or_default("name", data, "NA".to_string());
        let arch = str_or_default("arch", data, "NA".to_string());
        let machine = str_or_default("machine", bb_data, "NA".to_string());
        let distro = str_or_default("distro", bb_data, "NA".to_string());
        let docker = str_or_default("docker", bb_data, "NA".to_string());
        let deploy_dir = str_or_default("deploydir", bb_data, "tmp/deploy/images".to_string());
        let e1: Vec<String> = Vec::new();
        assert(texts(e1@) =~= Seq::<Seq<char>>::empty());
        let bblayers_conf = get_array_value("bblayersconf", bb_data, Some(e1))?;
        let e2: Vec<String> = Vec::new();
        assert(texts(e2@) =~= Seq::<Seq<char>>::empty());
        let local_conf = get_array_value("localconf", bb_data, Some(e2))?;
        Ok(WsBitbakeData {
            product, arch, machine, distro, deploy_dir, docker, bblayers_conf, local_conf,
            settings: settings.clone(),
        })
    }

    /// Expands the context variables in the machine, distro, docker image and deploy
    /// directory; the lines of the configuration files are left to bitbake.
    pub fn expand_ctx(&mut self, ctx: &Context)
        ensures
            final(self)@ == (BitbakeView {
                machine: spec_expand(ctx@, old(self)@.machine),
                distro: spec_expand(ctx@, old(self)@.distro),
                docker: spec_expand(ctx@, old(self)@.docker),
                deploy_dir: spec_expand(ctx@, old(self)@.deploy_dir),
                ..old(self)@
            }),
    {
        self.machine = ctx.expand_str(self.machine.as_str());
        self.distro = ctx.expand_str(self.distro.as_str());
        self.docker = ctx.expand_str(self.docker.as_str());
        self.deploy_dir = ctx.expand_str(self.deploy_dir.as_str());
    }

    /// The text of `bblayers.conf`.
    pub fn bblayers_conf(&self) -> (res: String)
        ensures
            res@ == lines_text(self@.bblayers_conf),
    {
        lines_of(&self.bblayers_conf)
    }

    /// The text of `local.conf`.
    pub fn local_conf(&self) -> (res: String)
        ensures
            res@ == spec_local_conf(self@),
    {
        let mut s = lines_of(&self.local_conf);
        s = s.concat(conf_line_of("MACHINE", self.machine.as_str()).as_str());
        s = s.concat(conf_line_of("VARIANT", "dev").as_str());
        s = s.concat(conf_line_of("PRODUCT_NAME", self.product.as_str()).as_str());
        s = s.concat(conf_line_of("DISTRO", self.distro.as_str()).as_str());
        s = s.concat(conf_line_of("SSTATE_DIR", self.sstate_dir().as_str()).as_str());
        s = s.concat(conf_line_of("DL_DIR", self.dl_dir().as_str()).as_str());
        s
    }

    /// The machine.
    pub fn machine(&self) -> (res: &str)
        ensures
            res@ == self@.machine,
    {
        self.machine.as_str()
    }

    /// The distro.
    pub fn distro(&self) -> (res: &str)
        ensures
            res@ == self@.distro,
    {
        self.distro.as_str()
    }

    /// The image of the container that bitbake runs in (`NA` for none).
    pub fn docker_image(&self) -> (res: &str)
        ensures
            res@ == self@.docker,
    {
        self.docker.as_str()
    }

    /// The build directory.
    pub fn build_dir(&self) -> (res: String)
        ensures
            res@ == spec_build_dir(self@),
    {
        join(self.settings.builds_dir().as_str(), self.product.as_str())
    }

    /// The `conf` directory of the build.
    pub fn build_config_dir(&self) -> (res: String)
        ensures
            res@ == spec_build_config_dir(self@),
    {
        join(self.build_dir().as_str(), "conf")
    }

    /// The path of `local.conf`.
    pub fn local_conf_path(&self) -> (res: String)
        ensures
            res@ == spec_join(spec_build_config_dir(self@), "local.conf"@),
    {
        join(self.build_config_dir().as_str(), "local.conf")
    }

    /// The path of `bblayers.conf`.
    pub fn bblayers_conf_path(&self) -> (res: String)
        ensures
            res@ == spec_join(spec_build_config_dir(self@), "bblayers.conf"@),
    {
        join(self.build_config_dir().as_str(), "bblayers.conf")
    }

    /// Where bitbake deploys the images.
    pub fn deploy_dir(&self) -> (res: String)
        ensures
            res@ == spec_join(spec_build_dir(self@), self@.deploy_dir),
    {
        join(self.build_dir().as_str(), self.deploy_dir.as_str())
    }

    /// The shared-state cache of the architecture.
    pub fn sstate_dir(&self) -> (res: String)
        ensures
            res@ == spec_sstate_dir(self@),
    {
        join(join(self.settings.cache_dir().as_str(), self.arch.as_str()).as_str(), "sstate-cache")
    }

    /// The download cache.
    pub fn dl_dir(&self) -> (res: String)
        ensures
            res@ == spec_dl_dir(self@),
    {
        join(self.settings.cache_dir().as_str(), "download")
    }

    /// The poky layer.
    pub fn poky_dir(&self) -> (res: String)
        ensures
            res@ == spec_poky_dir(self@),
    {
        join(join(self.settings.work_dir().as_str(), "layers").as_str(), "poky")
    }

    /// The script that sets up the bitbake environment.
    pub fn oe_init_file(&self) -> (res: String)
        ensures
            res@ == spec_join(spec_poky_dir(self@), "oe-init-build-env"@),
    {
        join(self.poky_dir().as_str(), "oe-init-build-env")
    }
}

} // verus!
