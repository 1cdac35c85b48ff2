use bakery::executers::docker::{Docker, DockerImage, HostInfo};
use std::path::PathBuf;
use tempdir::TempDir;

fn host() -> HostInfo {
    HostInfo {
        home: String::from("/home/test-user"),
        uid: String::from("1000"),
        gid: String::from("1001"),
        docker_gid: String::from("998"),
        pid: String::from("4242"),
    }
}

fn volumes_string(h: &HostInfo, volumes: &Vec<String>) -> Vec<String> {
    let mut v: Vec<String> = vec![];
    for vol in volumes.iter() {
        v.push(String::from("-v"));
        v.push(vol.clone());
    }
    v.append(&mut vec![
        String::from("-v"), String::from("/etc/passwd:/etc/passwd:ro"),
        String::from("-v"), String::from("/etc/group:/etc/group:ro"),
        String::from("-v"), format!("{}/.gitconfig:{}/.gitconfig:ro", h.home, h.home),
        String::from("-v"), format!("{}/.ssh:{}/.ssh:ro", h.home, h.home),
        String::from("-v"), format!("{}/.bashrc:{}/.bashrc", h.home, h.home),
        String::from("-v"), format!("{}/.docker:{}/.docker", h.home, h.home),
        String::from("-v"), String::from("/var/run/docker.sock:/var/run/docker.sock"),
    ]);
    v
}

fn docker_bootstrap_string(interactive: bool, docker_args: &Vec<String>, volumes: &Vec<String>,
    top_dir: &PathBuf, work_dir: &PathBuf, image: &DockerImage, cmd: &Vec<String>) -> Vec<String> {
    let h = host();
    let mut cmd_line: Vec<String> = vec![
        String::from("docker"), String::from("run"),
        String::from("--name"), format!("bakery-workspace-{}", h.pid),
        String::from("-t"), String::from("--rm"),
    ];
    if interactive {
        cmd_line.push(String::from("-i"));
    }
    cmd_line.append(&mut vec![String::from("--group-add"), h.docker_gid.clone()]);
    cmd_line.append(&mut volumes_string(&h, volumes));
    cmd_line.append(&mut vec![String::from("-u"), format!("{}:{}", h.uid, h.gid)]);
    cmd_line.append(&mut vec![String::from("-v"), format!("{}:{}", top_dir.display(), top_dir.display())]);
    cmd_line.append(&mut vec![String::from("-w"), format!("{}", work_dir.display())]);
    cmd_line.append(&mut docker_args.clone());
    cmd_line.push(image.to_string());
    cmd_line.append(&mut cmd.clone());
    cmd_line
}

fn docker_cmdline_string(interactive: bool, dir: &PathBuf, image: &DockerImage, cmd: &Vec<String>, env_file: &PathBuf) -> Vec<String> {
    let h = host();
    let mut cmd_line: Vec<String> = vec![
        String::from("docker"), String::from("run"),
        String::from("-u"), format!("{}:{}", h.uid, h.gid),
        String::from("-v"), String::from("/etc/passwd:/etc/passwd:ro"),
        String::from("-v"), String::from("/etc/group:/etc/group:ro"),
        String::from("-v"), format!("{}:{}", h.home, h.home),
        String::from("-w"), format!("{}", dir.display()),
        String::from("-t"), String::from("--rm"),
    ];
    if interactive {
        cmd_line.push(String::from("-i"));
    }
    cmd_line.append(&mut vec![String::from("--group-add"), h.docker_gid.clone()]);
    cmd_line.append(&mut vec![String::from("--env-file"), format!("{}", env_file.display())]);
    cmd_line.push(image.to_string());
    cmd_line.append(&mut cmd.clone());
    cmd_line
}

fn test_cmd(work_dir: &PathBuf) -> Vec<String> {
    let test_build_dir: PathBuf = work_dir.join(PathBuf::from("test_build_dir"));
    vec![
        String::from("cd"),
        format!("{}", test_build_dir.display()),
        String::from("&&"),
        String::from("test"),
    ]
}

fn bootstrap_case(interactive: bool, docker_args: Vec<String>, volumes: Vec<String>, top_rel: Option<&str>) {
    let temp_dir: TempDir = TempDir::new("bakery-test-dir").expect("Failed to create temp directory");
    let work_dir: PathBuf = PathBuf::from(temp_dir.path());
    let docker_top_dir: PathBuf = match top_rel {
        Some(r) => work_dir.clone().join(PathBuf::from(r)),
        None => work_dir.clone(),
    };
    let cmd: Vec<String> = test_cmd(&work_dir);
    let image: DockerImage = DockerImage::new("test-registry/test-image:0.1");
    let docker: Docker = Docker::new(image.clone(), interactive);
    let result: Vec<String> = docker.bootstrap_cmd_line(&cmd, &docker_top_dir.to_string_lossy(),
        &work_dir.to_string_lossy(), &docker_args, &volumes, &host());
    let cmd_line: Vec<String> = docker_bootstrap_string(interactive, &docker_args, &volumes, &docker_top_dir, &work_dir, &image, &cmd);
    assert_eq!(result, cmd_line);
}

#[test]
fn test_docker_bootstrap_cmdline() {
    bootstrap_case(false, vec![], vec![], None);
}

#[test]
fn test_docker_bootstrap_cmdline_interactive() {
    bootstrap_case(true, vec![], vec![], None);
}

#[test]
fn test_docker_bootstrap_args() {
    bootstrap_case(false, vec![String::from("--test"), String::from("test")], vec![], None);
}

#[test]
fn test_docker_bootstrap_volumes() {
    bootstrap_case(false, vec![], vec![String::from("/test/testdir:/test/testdir")], None);
}

#[test]
fn test_docker_bootstrap_top_dir() {
    bootstrap_case(false, vec![], vec![], Some("../../"));
}

fn cmdline_case(interactive: bool) {
    let temp_dir: TempDir = TempDir::new("bakery-test-dir").expect("Failed to create temp directory");
    let work_dir: PathBuf = PathBuf::from(temp_dir.path());
    let env_file: PathBuf = work_dir.clone().join("test-docker.env");
    let cmd: Vec<String> = test_cmd(&work_dir);
    let image: DockerImage = DockerImage::new("test-registry/test-image:0.1");
    let docker: Docker = Docker::new(image.clone(), interactive);
    let result: Vec<String> = docker.cmd_line(&cmd, &env_file.to_string_lossy(), &work_dir.to_string_lossy(), &host());
    let cmd_line: Vec<String> = docker_cmdline_string(interactive, &work_dir, &image, &cmd, &env_file);
    assert_eq!(result, cmd_line);
}

#[test]
fn test_docker_cmdline() {
    cmdline_case(false);
}

#[test]
fn test_docker_cmdline_interactive() {
    cmdline_case(true);
}

#[test]
fn docker_image_round_trip() {
    let image: DockerImage = DockerImage::new("test-registry/test-image:0.1");
    assert_eq!(image.registry, "test-registry");
    assert_eq!(image.image, "test-image");
    assert_eq!(image.tag, "0.1");
    assert_eq!(image.to_string(), "test-registry/test-image:0.1");
}

#[test]
fn docker_image_valid_ref() {
    assert!(DockerImage::is_valid_ref("strixos/bakery-workspace:0.68"));
    assert!(!DockerImage::is_valid_ref("bakery-workspace:0.68"));
    assert!(!DockerImage::is_valid_ref("strixos/bakery-workspace"));
}
