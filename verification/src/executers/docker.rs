//! Running a command inside a container: the image reference and the `docker run`
//! command lines.
use vstd::prelude::*;

use crate::text::{extend_cloned, extend_strings, spec_split, split_char, strings1, strings2, texts};

verus! {

/// A container image: `registry/image:tag`.
pub struct DockerImage {
    pub image: String,
    pub tag: String,
    pub registry: String,
}

/// A reference that names a registry, an image and a tag: it has a `/`, and the text
/// after the first `/` (up to any further `/`) has a `:`.
pub open spec fn is_image_ref(s: Seq<char>) -> bool {
    spec_split(s, '/').len() >= 2 && spec_split(spec_split(s, '/')[1], ':').len() >= 2
}

/// The registry, image and tag that a reference names.
pub open spec fn spec_image(s: Seq<char>) -> (Seq<char>, Seq<char>, Seq<char>) {
    let parts = spec_split(s, '/');
    let rest = spec_split(parts[1], ':');
    (parts[0], rest[0], rest[1])
}

/// `registry/image:tag`.
pub open spec fn image_text(registry: Seq<char>, image: Seq<char>, tag: Seq<char>) -> Seq<char> {
    registry + seq!['/'] + image + seq![':'] + tag
}

/// Reading back the text of an image whose parts hold no separator gives the parts.
pub proof fn lemma_image_round_trip(registry: Seq<char>, image: Seq<char>, tag: Seq<char>)
    requires
        !registry.contains('/'),
        !image.contains('/'),
        !image.contains(':'),
        !tag.contains('/'),
        !tag.contains(':'),
    ensures
        is_image_ref(image_text(registry, image, tag)),
        spec_image(image_text(registry, image, tag)) == (registry, image, tag),
{
    let s = image_text(registry, image, tag);
    let it = image + seq![':'] + tag;
    assert(s == registry + seq!['/'] + it);
    assert(!it.contains('/')) by {
        if it.contains('/') {
            let j = choose|j: int| 0 <= j < it.len() && it[j] == '/';
            if j < image.len() {
                assert(image[j] == '/');
            } else if j > image.len() {
                assert(tag[j - image.len() - 1] == '/');
            }
        }
    }
    crate::text::lemma_split_concat(registry, it, '/');
    crate::text::lemma_split_no_sep(it, '/');
    crate::text::lemma_split_concat(image, tag, ':');
    crate::text::lemma_split_no_sep(tag, ':');
}

impl DockerImage {
    /// Whether a reference names a registry, an image and a tag.
    pub fn is_valid_ref(image_str: &str) -> (res: bool)
        ensures
            res == is_image_ref(image_str@),
    {
        let split = split_char(image_str, '/');
        assert(texts(split@).len() == split@.len());
        if split.len() < 2 {
            return false;
        }
        assert(texts(split@)[1] == split@[1]@);
        let rest = split_char(split[1].as_str(), ':');
        assert(texts(rest@).len() == rest@.len());
        rest.len() >= 2
    }

    /// Reads a reference `registry/image:tag`.
    pub fn new(image_str: &str) -> (res: Self)
        requires
            is_image_ref(image_str@),
        ensures
            (res.registry@, res.image@, res.tag@) == spec_image(image_str@),
    {
        let split = split_char(image_str, '/');
        assert(texts(split@).len() == split@.len());
        assert(texts(split@)[0] == split@[0]@);
        assert(texts(split@)[1] == split@[1]@);
        let registry: String = split[0].clone();
        let rest = split_char(split[1].as_str(), ':');
        assert(texts(rest@).len() == rest@.len());
        assert(texts(rest@)[0] == rest@[0]@);
        assert(texts(rest@)[1] == rest@[1]@);
        let image: String = rest[0].clone();
        let tag: String = rest[1].clone();
        DockerImage { registry, image, tag }
    }

    /// `registry/image:tag`.
    pub fn to_string(&self) -> (res: String)
        ensures
            res@ == image_text(self.registry@, self.image@, self.tag@),
    {
        proof {
            reveal_strlit("/");
            reveal_strlit(":");
        }
        let r = self.registry.clone().concat("/").concat(self.image.as_str()).concat(":").concat(self.tag.as_str());
        assert(r@ =~= image_text(self.registry@, self.image@, self.tag@));
        r
    }

    /// A copy of the image.
    pub fn clone(&self) -> (res: Self)
        ensures
            res.registry@ == self.registry@,
            res.image@ == self.image@,
            res.tag@ == self.tag@,
    {
        DockerImage { image: self.image.clone(), tag: self.tag.clone(), registry: self.registry.clone() }
    }
}

/// What the host tells about the user that runs the tool: the home directory, the user
/// and group ids, the id of the `docker` group and the process id, each as text.
pub struct HostInfo {
    pub home: String,
    pub uid: String,
    pub gid: String,
    pub docker_gid: String,
    pub pid: String,
}

/// Runs commands inside a container of an image.
pub struct Docker {
    image: DockerImage,
    interactive: bool,
}

/// `-u uid:gid`.
pub open spec fn spec_user(h: HostInfo) -> Seq<Seq<char>> {
    seq!["-u"@, h.uid@ + ":"@ + h.gid@]
}

/// The host's user and group files, mounted read-only.
pub open spec fn spec_etc_files() -> Seq<Seq<char>> {
    seq!["-v"@, "/etc/passwd:/etc/passwd:ro"@, "-v"@, "/etc/group:/etc/group:ro"@]
}

/// `home/name` mounted at the same place, read-only or not.
pub open spec fn home_mount(home: Seq<char>, name: Seq<char>, ro: bool) -> Seq<char> {
    home + name + ":"@ + home + name + (if ro { ":ro"@ } else { seq![] })
}

/// The git, ssh, bash and docker settings of the user's home.
pub open spec fn spec_hidden_home_files(h: HostInfo) -> Seq<Seq<char>> {
    seq![
        "-v"@, home_mount(h.home@, "/.gitconfig"@, true),
        "-v"@, home_mount(h.home@, "/.ssh"@, true),
        "-v"@, home_mount(h.home@, "/.bashrc"@, false),
        "-v"@, home_mount(h.home@, "/.docker"@, false)
    ]
}

/// The user's home mounted at the same place.
pub open spec fn spec_home_dir(h: HostInfo) -> Seq<Seq<char>> {
    seq!["-v"@, h.home@ + ":"@ + h.home@]
}

/// `-w dir`.
pub open spec fn spec_work_dir(dir: Seq<char>) -> Seq<Seq<char>> {
    seq!["-w"@, dir]
}

/// The docker socket mounted at the same place.
pub open spec fn spec_docker_sock() -> Seq<Seq<char>> {
    seq!["-v"@, "/var/run/docker.sock:/var/run/docker.sock"@]
}

/// `--group-add <docker group id>`.
pub open spec fn spec_group(h: HostInfo) -> Seq<Seq<char>> {
    seq!["--group-add"@, h.docker_gid@]
}

/// `--env-file file`.
pub open spec fn spec_env_file(f: Seq<char>) -> Seq<Seq<char>> {
    seq!["--env-file"@, f]
}

/// `-v v` for each volume.
pub open spec fn volume_args(vs: Seq<Seq<char>>) -> Seq<Seq<char>>
    decreases vs.len(),
{
    if vs.len() == 0 {
        seq![]
    } else {
        volume_args(vs.drop_last()) + seq!["-v"@, vs.last()]
    }
}

/// Every given volume is mounted, in order, and nothing else: the i-th volume stands at
/// position `2i + 1`, right after a `-v`.
pub proof fn lemma_volume_args_mount_every_volume(vs: Seq<Seq<char>>)
    ensures
        volume_args(vs).len() == 2 * vs.len(),
        forall|i: int| #![trigger vs[i]] 0 <= i < vs.len() ==>
            (volume_args(vs)[2 * i], volume_args(vs)[2 * i + 1]) == ("-v"@, vs[i]),
    decreases vs.len(),
{
    if vs.len() > 0 {
        let front = vs.drop_last();
        lemma_volume_args_mount_every_volume(front);
        let f = volume_args(front);
        let whole = volume_args(vs);
        assert(whole == f + seq!["-v"@, vs.last()]);
        assert forall|i: int| #![trigger vs[i]] 0 <= i < vs.len() implies
            (volume_args(vs)[2 * i], volume_args(vs)[2 * i + 1]) == ("-v"@, vs[i]) by {
            if i < vs.len() - 1 {
                assert(front[i] == vs[i]);
                assert((f[2 * i], f[2 * i + 1]) == ("-v"@, front[i]));
                assert(whole[2 * i] == f[2 * i]);
                assert(whole[2 * i + 1] == f[2 * i + 1]);
            } else {
                assert(whole[2 * i] == seq!["-v"@, vs.last()][0]);
                assert(whole[2 * i + 1] == seq!["-v"@, vs.last()][1]);
            }
        }
    }
}

/// The volumes given, then the user and docker files of the host.
pub open spec fn spec_volumes(vs: Seq<Seq<char>>, h: HostInfo) -> Seq<Seq<char>> {
    volume_args(vs) + spec_etc_files() + spec_hidden_home_files(h) + spec_docker_sock()
}

/// `--name name-pid`.
pub open spec fn spec_container_name(name: Seq<char>, h: HostInfo) -> Seq<Seq<char>> {
    seq!["--name"@, name + "-"@ + h.pid@]
}

/// A directory mounted at the same place.
pub open spec fn spec_top_dir(dir: Seq<char>) -> Seq<Seq<char>> {
    seq!["-v"@, dir + ":"@ + dir]
}

/// `-i` when the container runs interactively.
pub open spec fn spec_interactive(i: bool) -> Seq<Seq<char>> {
    if i { seq!["-i"@] } else { seq![] }
}

/// The command line that starts the tool itself inside its container and runs
/// `cmd_line` there.
pub open spec fn spec_bootstrap_cmd_line(
    image: Seq<char>, interactive: bool, cmd_line: Seq<Seq<char>>, top_dir: Seq<char>, work_dir: Seq<char>,
    docker_args: Seq<Seq<char>>, volumes: Seq<Seq<char>>, h: HostInfo,
) -> Seq<Seq<char>> {
    seq!["docker"@, "run"@] + spec_container_name("bakery-workspace"@, h) + seq!["-t"@, "--rm"@]
        + spec_interactive(interactive) + spec_group(h) + spec_volumes(volumes, h) + spec_user(h)
        + spec_top_dir(top_dir) + spec_work_dir(work_dir) + docker_args + seq![image] + cmd_line
}

/// The line that bootstraps the tool into its container mounts every given volume, in
/// order: after `docker run`, the container's name, `-t --rm`, `-i` when interactive and
/// the docker group, comes `-v` and each volume, then the host's own files.
pub proof fn lemma_bootstrap_mounts_every_volume(
    image: Seq<char>, interactive: bool, cmd_line: Seq<Seq<char>>, top_dir: Seq<char>, work_dir: Seq<char>,
    docker_args: Seq<Seq<char>>, volumes: Seq<Seq<char>>, h: HostInfo,
)
    ensures ({
        let line = spec_bootstrap_cmd_line(image, interactive, cmd_line, top_dir, work_dir, docker_args, volumes, h);
        let base: int = 8 + (if interactive { 1int } else { 0int });
        &&& line[0] == "docker"@ && line[1] == "run"@
        &&& forall|i: int| #![trigger volumes[i]] 0 <= i < volumes.len() ==>
            (line[base + 2 * i], line[base + 2 * i + 1]) == ("-v"@, volumes[i])
        &&& line[base + 2 * volumes.len()] == "-v"@ && line[base + 2 * volumes.len() + 1] == "/etc/passwd:/etc/passwd:ro"@
    }),
{
    lemma_volume_args_mount_every_volume(volumes);
    let head = seq!["docker"@, "run"@] + spec_container_name("bakery-workspace"@, h) + seq!["-t"@, "--rm"@]
        + spec_interactive(interactive) + spec_group(h);
    let va = volume_args(volumes);
    let vols = spec_volumes(volumes, h);
    let hv = head + vols;
    let rest = spec_user(h) + spec_top_dir(top_dir) + spec_work_dir(work_dir) + docker_args + seq![image] + cmd_line;
    let line = spec_bootstrap_cmd_line(image, interactive, cmd_line, top_dir, work_dir, docker_args, volumes, h);
    assert(line =~= hv + rest);
    let base: int = head.len() as int;
    assert(base == 8 + (if interactive { 1int } else { 0int }));
    assert(vols =~= va + (spec_etc_files() + spec_hidden_home_files(h) + spec_docker_sock()));
    assert forall|i: int| #![trigger volumes[i]] 0 <= i < volumes.len() implies
        (line[base + 2 * i], line[base + 2 * i + 1]) == ("-v"@, volumes[i]) by {
        assert((va[2 * i], va[2 * i + 1]) == ("-v"@, volumes[i]));
        assert(vols[2 * i] == va[2 * i]);
        assert(vols[2 * i + 1] == va[2 * i + 1]);
        assert(hv[base + 2 * i] == vols[2 * i]);
        assert(hv[base + 2 * i + 1] == vols[2 * i + 1]);
        assert(line[base + 2 * i] == hv[base + 2 * i]);
        assert(line[base + 2 * i + 1] == hv[base + 2 * i + 1]);
    }
    let k = base + va.len();
    assert(vols[va.len() as int] == spec_etc_files()[0]);
    assert(vols[va.len() as int + 1] == spec_etc_files()[1]);
    assert(line[k] == hv[k]);
    assert(line[k + 1] == hv[k + 1]);
    assert(line[0] == head[0]);
    assert(line[1] == head[1]);
}

/// The command line that runs `cmd_line` in `dir` inside a container of the task's image,
/// with the environment read from `env_file`.
pub open spec fn spec_cmd_line(
    image: Seq<char>, interactive: bool, cmd_line: Seq<Seq<char>>, env_file: Seq<char>, dir: Seq<char>, h: HostInfo,
) -> Seq<Seq<char>> {
    seq!["docker"@, "run"@] + spec_user(h) + spec_etc_files() + spec_home_dir(h) + spec_work_dir(dir)
        + seq!["-t"@, "--rm"@] + spec_interactive(interactive) + spec_group(h) + spec_env_file(env_file)
        + seq![image] + cmd_line
}

/// The line that runs a command in a task's container is `docker run` with the user,
/// the host's files, the directory `dir`, `-t --rm`, `-i` when interactive, the docker
/// group and the environment file, then the image, then the whole command, unchanged.
pub proof fn lemma_cmd_line_runs_command_in_image(
    image: Seq<char>, interactive: bool, cmd_line: Seq<Seq<char>>, env_file: Seq<char>, dir: Seq<char>, h: HostInfo,
)
    ensures ({
        let line = spec_cmd_line(image, interactive, cmd_line, env_file, dir, h);
        let n: int = 18 + (if interactive { 1int } else { 0int });
        &&& line.len() == n + 1 + cmd_line.len()
        &&& line[0] == "docker"@ && line[1] == "run"@
        &&& line[10] == "-w"@ && line[11] == dir
        &&& interactive ==> line[14] == "-i"@
        &&& line[n - 2] == "--env-file"@ && line[n - 1] == env_file
        &&& line[n] == image
        &&& line.subrange(n + 1, line.len() as int) == cmd_line
    }),
{
    let head = seq!["docker"@, "run"@] + spec_user(h) + spec_etc_files() + spec_home_dir(h) + spec_work_dir(dir)
        + seq!["-t"@, "--rm"@] + spec_interactive(interactive) + spec_group(h) + spec_env_file(env_file);
    let line = spec_cmd_line(image, interactive, cmd_line, env_file, dir, h);
    assert(line =~= head + seq![image] + cmd_line);
    let n: int = head.len() as int;
    assert(line.subrange(n + 1, line.len() as int) =~= cmd_line);
}

/// The line that bootstraps the tool into its container ends with the image and then
/// the whole command to run there, unchanged.
pub proof fn lemma_bootstrap_runs_command_in_image(
    image: Seq<char>, interactive: bool, cmd_line: Seq<Seq<char>>, top_dir: Seq<char>, work_dir: Seq<char>,
    docker_args: Seq<Seq<char>>, volumes: Seq<Seq<char>>, h: HostInfo,
)
    ensures ({
        let line = spec_bootstrap_cmd_line(image, interactive, cmd_line, top_dir, work_dir, docker_args, volumes, h);
        let n: int = line.len() - cmd_line.len() - 1;
        &&& n >= 0
        &&& line[n] == image
        &&& line.subrange(n + 1, line.len() as int) == cmd_line
        &&& line.subrange(n - docker_args.len(), n) == docker_args
        &&& line[n - docker_args.len() - 2] == "-w"@ && line[n - docker_args.len() - 1] == work_dir
    }),
{
    let head = seq!["docker"@, "run"@] + spec_container_name("bakery-workspace"@, h) + seq!["-t"@, "--rm"@]
        + spec_interactive(interactive) + spec_group(h) + spec_volumes(volumes, h) + spec_user(h)
        + spec_top_dir(top_dir) + spec_work_dir(work_dir);
    let line = spec_bootstrap_cmd_line(image, interactive, cmd_line, top_dir, work_dir, docker_args, volumes, h);
    assert(line =~= head + docker_args + seq![image] + cmd_line);
    let n: int = (head.len() + docker_args.len()) as int;
    assert(n == line.len() - cmd_line.len() - 1);
    assert(line.subrange(n + 1, line.len() as int) =~= cmd_line);
    assert(line.subrange(n - docker_args.len(), n) =~= docker_args);
    assert(line[head.len() - 2] == head[head.len() - 2]);
    assert(line[head.len() - 1] == head[head.len() - 1]);
}

impl Docker {
    /// The image.
    pub closed spec fn spec_image_text(&self) -> Seq<char> {
        image_text(self.image.registry@, self.image.image@, self.image.tag@)
    }

    /// Whether the container runs interactively.
    pub closed spec fn spec_interactive_flag(&self) -> bool {
        self.interactive
    }

    fn user(&self, h: &HostInfo) -> (res: Vec<String>)
        ensures
            texts(res@) == spec_user(*h),
    {
        proof {
            reveal_strlit(":");
        }
        strings2("-u", h.uid.clone().concat(":").concat(h.gid.as_str()).as_str())
    }

    fn etc_files(&self) -> (res: Vec<String>)
        ensures
            texts(res@) == spec_etc_files(),
    {
        let mut v = strings2("-v", "/etc/passwd:/etc/passwd:ro");
        extend_strings(&mut v, strings2("-v", "/etc/group:/etc/group:ro"));
        v
    }

    fn mount(home: &String, name: &str, ro: bool) -> (res: String)
        ensures
            res@ == home_mount(home@, name@, ro),
    {
        proof {
            reveal_strlit(":");
            reveal_strlit(":ro");
        }
        let m = home.clone().concat(name).concat(":").concat(home.as_str()).concat(name);
        if ro {
            m.concat(":ro")
        } else {
            assert(m@ =~= home_mount(home@, name@, ro));
            m
        }
    }

    fn hidden_home_files(&self, h: &HostInfo) -> (res: Vec<String>)
        ensures
            texts(res@) == spec_hidden_home_files(*h),
    {
        let mut v = strings2("-v", Self::mount(&h.home, "/.gitconfig", true).as_str());
        extend_strings(&mut v, strings2("-v", Self::mount(&h.home, "/.ssh", true).as_str()));
        extend_strings(&mut v, strings2("-v", Self::mount(&h.home, "/.bashrc", false).as_str()));
        extend_strings(&mut v, strings2("-v", Self::mount(&h.home, "/.docker", false).as_str()));
        assert(texts(v@) =~= spec_hidden_home_files(*h));
        v
    }

    fn home_dir(&self, h: &HostInfo) -> (res: Vec<String>)
        ensures
            texts(res@) == spec_home_dir(*h),
    {
        strings2("-v", h.home.clone().concat(":").concat(h.home.as_str()).as_str())
    }

    fn work_dir(&self, dir: &str) -> (res: Vec<String>)
        ensures
            texts(res@) == spec_work_dir(dir@),
    {
        strings2("-w", dir)
    }

    fn docker_sock(&self) -> (res: Vec<String>)
        ensures
            texts(res@) == spec_docker_sock(),
    {
        strings2("-v", "/var/run/docker.sock:/var/run/docker.sock")
    }

    fn group(&self, h: &HostInfo) -> (res: Vec<String>)
        ensures
            texts(res@) == spec_group(*h),
    {
        strings2("--group-add", h.docker_gid.as_str())
    }

    fn env_file(&self, env_file: &str) -> (res: Vec<String>)
        ensures
            texts(res@) == spec_env_file(env_file@),
    {
        strings2("--env-file", env_file)
    }

    fn volumes(&self, volumes: &Vec<String>, h: &HostInfo) -> (res: Vec<String>)
        ensures
            texts(res@) == spec_volumes(texts(volumes@), *h),
    {
        let mut v: Vec<String> = Vec::new();
        let mut i: usize = 0;
        while i < volumes.len()
            invariant
                i <= volumes.len(),
                texts(v@) == volume_args(texts(volumes@.take(i as int))),
            decreases volumes.len() - i,
        {
            extend_strings(&mut v, strings2("-v", volumes[i].as_str()));
            assert(texts(volumes@.take(i as int + 1)).drop_last() =~= texts(volumes@.take(i as int)));
            i = i + 1;
        }
        assert(volumes@.take(volumes.len() as int) == volumes@);
        extend_strings(&mut v, self.etc_files());
        extend_strings(&mut v, self.hidden_home_files(h));
        extend_strings(&mut v, self.docker_sock());
        v
    }

    fn container_name(&self, name: &str, h: &HostInfo) -> (res: Vec<String>)
        ensures
            texts(res@) == spec_container_name(name@, *h),
    {
        proof {
            reveal_strlit("-");
        }
        strings2("--name", name.to_string().concat("-").concat(h.pid.as_str()).as_str())
    }

    fn top_dir(&self, dir: &str) -> (res: Vec<String>)
        ensures
            texts(res@) == spec_top_dir(dir@),
    {
        proof {
            reveal_strlit(":");
        }
        strings2("-v", dir.to_string().concat(":").concat(dir).as_str())
    }

    /// A runner for `image`; `interactive` keeps the container's standard input open.
    pub fn new(image: DockerImage, interactive: bool) -> (res: Self)
        ensures
            res.spec_image_text() == image_text(image.registry@, image.image@, image.tag@),
            res.spec_interactive_flag() == interactive,
    {
        Docker { image, interactive }
    }

    /// The `docker run` command line that starts the tool's own container, mounting
    /// `docker_top_dir`, working in `work_dir`, and running `cmd_line` there.
    pub fn bootstrap_cmd_line(
        &self, cmd_line: &Vec<String>, docker_top_dir: &str, work_dir: &str, docker_args: &Vec<String>,
        volumes: &Vec<String>, host: &HostInfo,
    ) -> (res: Vec<String>)
        ensures
            texts(res@) == spec_bootstrap_cmd_line(self.spec_image_text(), self.spec_interactive_flag(), texts(cmd_line@),
                docker_top_dir@, work_dir@, texts(docker_args@), texts(volumes@), *host),
    {
        let mut v = strings2("docker", "run");
        extend_strings(&mut v, self.container_name("bakery-workspace", host));
        extend_strings(&mut v, strings2("-t", "--rm"));
        if self.interactive {
            extend_strings(&mut v, strings1("-i"));
        } else {
            assert(texts(v@) =~= texts(v@) + spec_interactive(false));
        }
        extend_strings(&mut v, self.group(host));
        extend_strings(&mut v, self.volumes(volumes, host));
        extend_strings(&mut v, self.user(host));
        extend_strings(&mut v, self.top_dir(docker_top_dir));
        extend_strings(&mut v, self.work_dir(work_dir));
        extend_cloned(&mut v, docker_args);
        extend_strings(&mut v, strings1(self.image.to_string().as_str()));
        extend_cloned(&mut v, cmd_line);
        v
    }

    /// The `docker run` command line that runs `cmd_line` in `dir` inside the container,
    /// with the environment read from `env_file`.
    pub fn cmd_line(&self, cmd_line: &Vec<String>, env_file: &str, dir: &str, host: &HostInfo) -> (res: Vec<String>)
        ensures
            texts(res@) == spec_cmd_line(self.spec_image_text(), self.spec_interactive_flag(), texts(cmd_line@), env_file@, dir@, *host),
    {
        let mut v = strings2("docker", "run");
        extend_strings(&mut v, self.user(host));
        extend_strings(&mut v, self.etc_files());
        extend_strings(&mut v, self.home_dir(host));
        extend_strings(&mut v, self.work_dir(dir));
        extend_strings(&mut v, strings2("-t", "--rm"));
        if self.interactive {
            extend_strings(&mut v, strings1("-i"));
        } else {
            assert(texts(v@) =~= texts(v@) + spec_interactive(false));
        }
        extend_strings(&mut v, self.group(host));
        extend_strings(&mut v, self.env_file(env_file));
        extend_strings(&mut v, strings1(self.image.to_string().as_str()));
        extend_cloned(&mut v, cmd_line);
        v
    }
}

} // verus!
