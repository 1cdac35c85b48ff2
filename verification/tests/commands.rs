use bakery::listing::{build_info, config_header, config_line, ctx_line, pad_right, task_header, task_line};
use bakery::collector::{Collected, CollectorFactory};
use bakery::commands::{bb_build_env, deploy_context, select_tasks, setup_context, shell_cmd_line};
use bakery::configs::context::Context;
use bakery::configs::task::TType;
use bakery::data::artifact::{AType, WsArtifactData};
use bakery::data::context::{WsContextData, CTX_KEY_BRANCH, CTX_KEY_DEVICE, CTX_KEY_IMAGE, CTX_KEY_MACHINE};
use bakery::executers::plan::{bitbake_cmd_line, build_cmd_line, task_docker, ExecuterFactory, ExecuterKind};
use indexmap::IndexMap;

fn strings(v: &[&str]) -> Vec<String> {
    v.iter().map(|s| s.to_string()).collect()
}

fn artifact(atype: AType, name: &str, source: &str, manifest: &str) -> WsArtifactData {
    WsArtifactData {
        atype,
        name: name.to_string(),
        source: source.to_string(),
        dest: String::new(),
        manifest: manifest.to_string(),
    }
}

#[test]
fn collector_factory_checks_attributes() {
    let ok = CollectorFactory::create(&artifact(AType::File, "", "file.txt", ""), 0).expect("a file with a source");
    assert_eq!(ok, AType::File);
    let cases = [
        (artifact(AType::File, "", "", ""), 0, "File node requires source attribute!"),
        (artifact(AType::Link, "l", "", ""), 0, "Link node requires source attribute!"),
        (artifact(AType::Link, "", "s", ""), 0, "Link node requires name attribute!"),
        (artifact(AType::Directory, "d", "", ""), 0, "Directory node requires name and list of artifacts!"),
        (artifact(AType::Archive, "", "", ""), 2, "Archive node requires name and list of artifacts!"),
        (artifact(AType::Manifest, "m", "", ""), 0, "Manifest node requires name and manifest content!"),
    ];
    for (a, children, msg) in cases.iter() {
        match CollectorFactory::create(a, *children) {
            Ok(_) => panic!("expected an error"),
            Err(e) => assert_eq!(e.to_string(), *msg),
        }
    }
    assert_eq!(CollectorFactory::create(&artifact(AType::Archive, "a.zip", "", ""), 1).expect("archive"), AType::Archive);
    assert_eq!(CollectorFactory::create(&artifact(AType::Manifest, "m", "", "{}"), 0).expect("manifest"), AType::Manifest);
}

#[test]
fn collected_equality() {
    let a = Collected { src: "a".to_string(), dest: "b".to_string() };
    assert_eq!(a, Collected { src: "a".to_string(), dest: "b".to_string() });
    assert_ne!(a, Collected { src: "a".to_string(), dest: "c".to_string() });
}

#[test]
fn setup_context_pairs() {
    let m = setup_context(&strings(&["A=1", "B=2=3", "A=4"]));
    let pairs: Vec<(String, String)> = m.iter().map(|(k, v)| (k.clone(), v.clone())).collect();
    assert_eq!(pairs, vec![("A".to_string(), "4".to_string()), ("B".to_string(), "2".to_string())]);
}

#[test]
fn shell_cmd_line_quotes_command() {
    let line = shell_cmd_line("default", "reg/img:1", &strings(&["/a:/a"]), &strings(&["K=V"]), "ls -l");
    assert_eq!(line, strings(&["bakery", "shell", "-c", "default", "-d", "reg/img:1", "-v", "/a:/a", "-e", "K=V", "-r", "\"ls -l\""]));
    let line = shell_cmd_line("", "", &vec![], &vec![], "make");
    assert_eq!(line, strings(&["bakery", "shell", "-r", "\"make\""]));
}

#[test]
fn bb_build_env_passthrough() {
    let mut env: IndexMap<String, String> = IndexMap::new();
    env.insert("PATH".to_string(), "/bin".to_string());
    env.insert("BB_ENV_PASSTHROUGH_ADDITIONS".to_string(), " EXTRA".to_string());
    let mut args: IndexMap<String, String> = IndexMap::new();
    args.insert("PATH".to_string(), "/usr/bin".to_string());
    let out = bb_build_env(&env, &args);
    assert_eq!(out.get("PATH").map(|s| s.as_str()), Some("/usr/bin"));
    assert_eq!(out.get("BB_ENV_PASSTHROUGH_ADDITIONS").map(|s| s.as_str()), Some("SSTATE_DIR DL_DIR TMPDIR EXTRA"));
    let out = bb_build_env(&IndexMap::new(), &IndexMap::new());
    assert_eq!(out.get("BB_ENV_PASSTHROUGH_ADDITIONS").map(|s| s.as_str()), Some("SSTATE_DIR DL_DIR TMPDIR"));
}

#[test]
fn select_tasks_all() {
    let all = strings(&["t1", "t2"]);
    assert_eq!(select_tasks(&strings(&["all"]), &all), all);
    assert_eq!(select_tasks(&strings(&["t2"]), &all), strings(&["t2"]));
    assert_eq!(select_tasks(&strings(&["all", "t1"]), &all), strings(&["all", "t1"]));
}

#[test]
fn deploy_context_device_image() {
    let ctx = deploy_context(&strings(&["KEY=value"]), "dev1", "NA").expect("context");
    assert_eq!(ctx.get_ctx_value(CTX_KEY_DEVICE), "dev1");
    assert_eq!(ctx.get_ctx_value(CTX_KEY_IMAGE), "");
    assert_eq!(ctx.get_ctx_value("key"), "value");
    let ctx = deploy_context(&vec![], "NA", "img");
    assert_eq!(ctx.expect("context").get_ctx_value(CTX_KEY_IMAGE), "img");
}

#[test]
fn task_docker_selection() {
    assert_eq!(task_docker("t/i:1", "b/i:2"), Some("t/i:1".to_string()));
    assert_eq!(task_docker("NA", "b/i:2"), Some("b/i:2".to_string()));
    assert_eq!(task_docker("", "NA"), None);
}

#[test]
fn executer_command_lines() {
    assert_eq!(bitbake_cmd_line("/b", "img:sdk"), strings(&["cd", "/b", "&&", "bitbake", "img", "-c", "do_populate_sdk"]));
    assert_eq!(build_cmd_line("/w", "test.sh a b"), strings(&["cd", "/w", "&&", "test.sh", "a", "b"]));
    assert_eq!(ExecuterFactory::create(&TType::Bitbake), ExecuterKind::Bitbake);
    assert_eq!(ExecuterFactory::create(&TType::NonBitbake), ExecuterKind::NonBitbake);
}

#[test]
fn context_update_laws() {
    let mut data = WsContextData::new(&IndexMap::new()).expect("context");
    let mut v: IndexMap<String, String> = IndexMap::new();
    v.insert(CTX_KEY_MACHINE.to_string(), "m1".to_string());
    data.update(&v);
    assert_eq!(data.get_ctx_value(CTX_KEY_MACHINE), "m1");
    let mut empty: IndexMap<String, String> = IndexMap::new();
    empty.insert(CTX_KEY_MACHINE.to_string(), String::new());
    data.update(&empty);
    assert_eq!(data.get_ctx_value(CTX_KEY_MACHINE), "m1");
    let mut na: IndexMap<String, String> = IndexMap::new();
    na.insert(CTX_KEY_MACHINE.to_string(), "Na".to_string());
    data.update(&na);
    assert_eq!(data.get_ctx_value(CTX_KEY_MACHINE), "m1");
    let mut branch: IndexMap<String, String> = IndexMap::new();
    branch.insert(CTX_KEY_BRANCH.to_string(), "main".to_string());
    data.update(&branch);
    assert_eq!(data.get_ctx_value(CTX_KEY_BRANCH), "main");
    assert_eq!(data.get_ctx_value("bkry_machine"), "m1");
}

#[test]
fn context_expand_laws() {
    let ctx = Context::new(&IndexMap::new());
    assert_eq!(ctx.expand_str("keep ${UNKNOWN} as is"), "keep ${UNKNOWN} as is");
    let mut v: IndexMap<String, String> = IndexMap::new();
    v.insert("Var".to_string(), "x".to_string());
    let ctx = Context::new(&v);
    assert_eq!(ctx.value("VAR"), "x");
    assert_eq!(ctx.expand_str("a ${vAr} b"), "a x b");
    assert_eq!(ctx.expand_str("a $#[VAR] b $#[none]"), "a x b $#[none]");
    assert_eq!(ctx.expand_str("no references"), "no references");
}

#[test]
fn env_output_lines() {
    let m = bakery::commands::env_output_vars("A=1\r\nB=x=y\nNOEQ\n\nA=2\nC=\r");
    let pairs: Vec<(String, String)> = m.iter().map(|(k, v)| (k.clone(), v.clone())).collect();
    assert_eq!(pairs, vec![
        ("A".to_string(), "2".to_string()),
        ("B".to_string(), "x=y".to_string()),
        ("C".to_string(), "\r".to_string()),
    ]);
    assert!(bakery::commands::env_output_vars("").is_empty());
}

#[test]
fn listing_lines_match_format() {
    assert_eq!(pad_right("ab", 5), "ab   ");
    assert_eq!(pad_right("abcdef", 3), "abcdef");
    assert_eq!(config_header(), format!("{:<25} {:<52}", "NAME", "DESCRIPTION"));
    assert_eq!(config_line("default", "A description"), format!("{:<25} - {:<50}", "default", "A description"));
    assert_eq!(task_header(), format!("{:<15} {:<52} {}", "NAME", "DESCRIPTION", "ENABLED/DISABLED"));
    assert_eq!(task_line("image", "build the image", true), format!("{:<15} - {:<50} [{}]", "image", "build the image", "disabled"));
    assert_eq!(task_line("sdk", "", false), format!("{:<15} - {:<50} [{}]", "sdk", "", "enabled"));
    assert_eq!(build_info("n", "a", "m", "d"), "name: n\narch: a\nmachine: m\ndescription: d\n");
    assert_eq!(ctx_line("bkry_machine", "x"), "BKRY_MACHINE=x");
}

#[test]
fn shell_env_and_run_line() {
    let env = bakery::commands::shell_env(&IndexMap::new(), "/workspace", "default");
    assert_eq!(env.get("BAKERY_WORKSPACE").map(|s| s.as_str()), Some("/workspace"));
    assert_eq!(env.get("BAKERY_CURRENT_BUILD_CONFIG").map(|s| s.as_str()), Some("default"));
    assert_eq!(bakery::commands::run_cmd_line("ls -l"), strings(&["/bin/bash", "-i", "-c", "\"ls -l\""]));
}

#[test]
fn build_extra_context_and_bb_variables() {
    let extra = bakery::commands::extra_ctx("1.2", "42", "abc", "release");
    let pairs: Vec<(String, String)> = extra.iter().map(|(k, v)| (k.clone(), v.clone())).collect();
    assert_eq!(pairs, vec![
        ("PLATFORM_VERSION".to_string(), "1.2".to_string()),
        ("BUILD_ID".to_string(), "42".to_string()),
        ("BUILD_SHA".to_string(), "abc".to_string()),
        ("RELEASE_BUILD".to_string(), "1".to_string()),
        ("BUILD_VARIANT".to_string(), "release".to_string()),
        ("PLATFORM_RELEASE".to_string(), "1.2-42".to_string()),
    ]);
    let dev = bakery::commands::extra_ctx("1.2", "42", "abc", "dev");
    assert_eq!(dev.get("RELEASE_BUILD").map(|s| s.as_str()), Some("0"));
    let lines = bakery::commands::bb_variables(true, false, true, false, &dev);
    assert_eq!(lines[0], "BB_GENERATE_MIRROR_TARBALLS = \"1\"");
    assert_eq!(lines[1], "INHERIT += \"archiver\"");
    assert_eq!(lines[2], "ARCHIVER_MODE[src] = \"original\"");
    assert_eq!(lines[3], "PLATFORM_VERSION ?= \"1.2\"");
    assert_eq!(lines.len(), 9);
    let ctx = bakery::commands::build_context(&strings(&["A=b"]), &dev).expect("context");
    assert_eq!(ctx.get_ctx_value("platform_release"), "1.2-42");
    assert_eq!(ctx.get_ctx_value("a"), "b");
}
