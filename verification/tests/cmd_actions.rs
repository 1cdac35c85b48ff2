use bakery::collector::{copy_dest, dest_is_dir};
use bakery::commands::{bootstrap_image, build_plan, clean_plan, shell_action, supported_config, CleanStep, ShellAction};
use bakery::configs::config::{get_u32_value, parse};
use bakery::configs::handler::{merge_tasks, WsConfigFileHandler};
use bakery::configs::task::TaskConfig;
use bakery::data::build_data::WsBuildData;
use bakery::json::Json;
use bakery::listing::{config_description, list_output, task_description_of};
use bakery::workspace::WsSettingsHandler;

const WS_SETTINGS: &str = r#"
{
    "version": "5",
    "builds": {
        "supported": [
            "default"
        ]
    }
}"#;

const WS_DOCKER_SETTINGS: &str = r#"
{
    "version": "5",
    "builds": {
        "supported": [
            "default"
        ]
    },
    "docker": {
        "enabled": "true",
        "registry": "test-registry",
        "image": "test-image",
        "tag": "0.1"
    }
}"#;

fn strings(v: &[&str]) -> Vec<String> {
    v.iter().map(|s| s.to_string()).collect()
}

fn settings(json: &str) -> WsSettingsHandler {
    WsSettingsHandler::from_str("/workspace", json).expect("Failed to parse settings")
}

fn build_data(settings: &WsSettingsHandler, json: &str) -> (WsBuildData, Json) {
    let data: Json = parse(json).expect("Failed to parse json");
    let b = WsBuildData::at(&data, settings, "2024-01-01", "12:00").expect("Failed to read build data");
    (b, data)
}

const LIST_BUILD_CONFIG: &str = r#"
{
    "version": "5",
    "name": "default",
    "description": "Test Description",
    "arch": "test-arch",
    "bb": {},
    "tasks": {
        "task1": {
            "index": "1",
            "name": "task1",
            "type": "non-bitbake"
        },
        "task2": {
            "index": "2",
            "name": "task2",
            "disabled": "true",
            "description": "test",
            "type": "non-bitbake"
        }
    }
}"#;

#[test]
fn test_cmd_list_build_config() {
    let s = settings(WS_SETTINGS);
    let (b, json) = build_data(&s, LIST_BUILD_CONFIG);
    let tasks = b.get_tasks(&json).expect("Failed to read tasks");
    let lines = list_output("default", s.settings(), &Vec::new(), &b, &tasks, &vec![json], false).expect("Failed to list");
    assert_eq!(lines[0], "name: default\narch: test-arch\nmachine: NA\ndescription: Test Description\n");
    assert_eq!(lines[1], format!("{:<15} {:<52} {}", "NAME", "DESCRIPTION", "ENABLED/DISABLED"));
    assert_eq!(lines[2], format!("{:<15} - {:<50} [{}]", "task1", "NA", "enabled"));
    assert_eq!(lines[3], format!("{:<15} - {:<50} [{}]", "task2", "test", "disabled"));
    assert_eq!(lines.len(), 4);
}

#[test]
fn test_cmd_list_invalid_build_config() {
    let s = settings(WS_SETTINGS);
    let (b, json) = build_data(&s, LIST_BUILD_CONFIG);
    let tasks = b.get_tasks(&json).expect("Failed to read tasks");
    match list_output("invalid", s.settings(), &Vec::new(), &b, &tasks, &vec![json], false) {
        Ok(_status) => panic!("We should have recived an error because the config is invalid!"),
        Err(e) => assert_eq!(e.to_string(), "Unsupported build config 'invalid'".to_string()),
    }
}

#[test]
fn test_cmd_list_ctx() {
    let s = settings(WS_SETTINGS);
    let json_build_config: &str = r#"
    {
        "version": "5",
        "name": "default",
        "description": "Test Description",
        "arch": "test-arch",
        "context": [
            "PLATFORM_VERSION=x.y.z",
            "BUILD_ID=abcdef",
            "BUILD_VARIANT=test"
        ],
        "bb": {
            "machine": "test-machine",
            "distro": "test-distro"
        }
    }"#;
    let (b, _json) = build_data(&s, json_build_config);
    let lines = list_output("default", s.settings(), &Vec::new(), &b, &Vec::new(), &Vec::new(), true).expect("Failed to list");
    assert_eq!(lines[0], "name: default\narch: test-arch\nmachine: test-machine\ndescription: Test Description\n");
    assert_eq!(lines[1], "Context variables:");
    for expected in [
        "BKRY_MACHINE=test-machine",
        "BKRY_ARCH=test-arch",
        "BKRY_DISTRO=test-distro",
        "BKRY_NAME=default",
        "BKRY_DATE=2024-01-01",
        "BKRY_TIME=12:00",
        "PLATFORM_VERSION=x.y.z",
        "BUILD_ID=abcdef",
        "BUILD_VARIANT=test",
    ] {
        assert!(lines.iter().any(|l| l == expected), "missing {}", expected);
    }
}

#[test]
fn list_output_lists_build_configs_for_na() {
    let s = settings(WS_SETTINGS);
    let (b, _json) = build_data(&s, LIST_BUILD_CONFIG);
    let builds = vec![("default".to_string(), "Test Description".to_string())];
    let lines = list_output("NA", s.settings(), &builds, &b, &Vec::new(), &Vec::new(), false).expect("Failed to list");
    assert_eq!(lines, vec![
        format!("{:<25} {:<52}", "NAME", "DESCRIPTION"),
        format!("{:<25} - {:<50}", "default", "Test Description"),
    ]);
}

#[test]
fn supported_config_names_unsupported_configs() {
    let s = settings(WS_SETTINGS);
    assert!(supported_config(s.settings(), "default").is_ok());
    match supported_config(s.settings(), "other") {
        Ok(()) => panic!("'other' is not supported"),
        Err(e) => assert_eq!(e.to_string(), "Unsupported build config 'other'"),
    }
}

#[test]
fn shell_bootstraps_into_the_settings_image() {
    let s = settings(WS_DOCKER_SETTINGS);
    let args = strings(&["bakery", "shell", "-c", "default"]);
    match shell_action(s.settings(), false, "default", "", "", &Vec::new(), &Vec::new(), &args, "NA") {
        Ok(ShellAction::Bootstrap { image, line }) => {
            assert_eq!(image, "test-registry/test-image:0.1");
            assert_eq!(line, args);
        }
        _ => panic!("expected a bootstrap"),
    }
}

#[test]
fn shell_bootstrap_reruns_the_command() {
    let s = settings(WS_DOCKER_SETTINGS);
    let volumes = strings(&["/a:/b"]);
    let env = strings(&["K=V"]);
    match shell_action(s.settings(), false, "default", "my/image:1", "ls -l", &volumes, &env, &Vec::new(), "bb/image:2") {
        Ok(ShellAction::Bootstrap { image, line }) => {
            assert_eq!(image, "bb/image:2");
            assert_eq!(line, strings(&["bakery", "shell", "-c", "default", "-d", "my/image:1", "-v", "/a:/b", "-e", "K=V", "-r", "\"ls -l\""]));
        }
        _ => panic!("expected a bootstrap"),
    }
}

#[test]
fn shell_inside_docker_runs_here() {
    let s = settings(WS_DOCKER_SETTINGS);
    match shell_action(s.settings(), true, "NA", "", "ls", &Vec::new(), &Vec::new(), &Vec::new(), "NA") {
        Ok(ShellAction::Shell { source_bb_env, docker, cmd_line }) => {
            assert!(!source_bb_env);
            assert!(docker.is_none());
            assert_eq!(cmd_line, strings(&["/bin/bash", "-i"]));
        }
        _ => panic!("expected a plain shell"),
    }
    match shell_action(s.settings(), true, "default", "my/image:1", "ls", &Vec::new(), &Vec::new(), &Vec::new(), "NA") {
        Ok(ShellAction::Shell { source_bb_env, docker, cmd_line }) => {
            assert!(source_bb_env);
            assert_eq!(docker, Some("my/image:1".to_string()));
            assert_eq!(cmd_line, strings(&["/bin/bash", "-i", "-c", "\"ls\""]));
        }
        _ => panic!("expected a bitbake shell"),
    }
    match shell_action(s.settings(), true, "invalid", "", "", &Vec::new(), &Vec::new(), &Vec::new(), "NA") {
        Err(e) => assert_eq!(e.to_string(), "Unsupported build config 'invalid'"),
        _ => panic!("expected an error"),
    }
}

#[test]
fn bootstrap_image_prefers_the_build_config_image() {
    let s = settings(WS_DOCKER_SETTINGS);
    assert_eq!(bootstrap_image(s.settings(), "NA"), "test-registry/test-image:0.1");
    assert_eq!(bootstrap_image(s.settings(), "other/image:2"), "other/image:2");
}

const CLEAN_BUILD_CONFIG: &str = r#"
{
    "version": "6",
    "name": "default",
    "description": "Test Description",
    "arch": "test-arch",
    "bb": {},
    "tasks": {
        "task-name": {
            "index": "1",
            "name": "task-name",
            "type": "non-bitbake",
            "builddir": "test-dir",
            "build": "test.sh",
            "clean": "rm -rf dir-to-delete"
        },
        "image": {
            "index": "2",
            "name": "image",
            "recipes": [
                "test-image"
            ]
        }
    }
}"#;

#[test]
fn test_cmd_clean_nonbitbake() {
    let s = settings(WS_SETTINGS);
    let (b, json) = build_data(&s, CLEAN_BUILD_CONFIG);
    let tasks = b.get_tasks(&json).expect("Failed to read tasks");
    let plan = clean_plan(&b, &tasks, &strings(&["task-name"]));
    assert_eq!(plan.len(), 1);
    match &plan[0] {
        Ok(CleanStep::Run { task, dir, cmd_line, docker }) => {
            assert_eq!(task, "task-name");
            assert_eq!(dir, "/workspace/test-dir");
            assert_eq!(cmd_line, &strings(&["cd", "/workspace/test-dir", "&&", "rm", "-rf", "dir-to-delete"]));
            assert!(docker.is_none());
        }
        _ => panic!("expected the clean command"),
    }
}

#[test]
fn clean_all_removes_the_bitbake_build_dir() {
    let s = settings(WS_SETTINGS);
    let (b, json) = build_data(&s, CLEAN_BUILD_CONFIG);
    let tasks = b.get_tasks(&json).expect("Failed to read tasks");
    let plan = clean_plan(&b, &tasks, &strings(&["all"]));
    assert_eq!(plan.len(), 2);
    match &plan[1] {
        Ok(CleanStep::RemoveBuildDir { task, dir, note }) => {
            assert_eq!(task, "image");
            assert_eq!(dir, "/workspace/builds/default");
            let mut expected = String::from("Please note that the sstate cache is not cleaned!\n");
            expected.push_str("The sstate cache is located at '/workspace/.cache/test-arch/sstate-cache'\n");
            expected.push_str("The sstate cache might be used by multiple builds\n");
            expected.push_str("removing the sstate cache will require a full build\n");
            expected.push_str("and can potentially take hours\n");
            assert_eq!(note, &expected);
        }
        _ => panic!("expected the build dir to be removed"),
    }
}

#[test]
fn clean_stops_at_an_unknown_task() {
    let s = settings(WS_SETTINGS);
    let (b, json) = build_data(&s, CLEAN_BUILD_CONFIG);
    let tasks = b.get_tasks(&json).expect("Failed to read tasks");
    let plan = clean_plan(&b, &tasks, &strings(&["task-name", "missing", "image"]));
    assert_eq!(plan.len(), 2);
    assert!(plan[0].is_ok());
    match &plan[1] {
        Err(e) => assert_eq!(e.to_string(), "Task 'missing' does not exist in build config"),
        Ok(_) => panic!("expected an error"),
    }
}

fn task(name: &str, build: &str) -> (String, TaskConfig) {
    (name.to_string(), TaskConfig {
        index: String::from("0"),
        name: name.to_string(),
        ttype: bakery::configs::task::TType::NonBitbake,
        disabled: String::from("false"),
        builddir: String::new(),
        build: build.to_string(),
        docker: String::new(),
        condition: String::new(),
        clean: String::new(),
        recipes: Vec::new(),
    })
}

#[test]
fn merge_keeps_the_main_config_task() {
    let main = vec![task("task0", "main")];
    let included = vec![vec![task("task0", "config1"), task("task1", "config1")], vec![task("task2", "config2"), task("task1", "config2")]];
    let merged = merge_tasks(main, included);
    let names: Vec<&str> = merged.iter().map(|(n, _)| n.as_str()).collect();
    assert_eq!(names, vec!["task0", "task1", "task2"]);
    assert_eq!(merged[0].1.build, "main");
    assert_eq!(merged[1].1.build, "config1");
    assert_eq!(merged[2].1.build, "config2");
}

#[test]
fn u32_values_read_like_std_parse() {
    let value = |text: &str| get_u32_value("index", &parse(&format!("{{\"index\": \"{}\"}}", text)).unwrap(), None);
    assert_eq!(value("42").ok(), Some(42));
    assert_eq!(value("+7").ok(), Some(7));
    assert_eq!(value("4294967295").ok(), Some(4294967295));
    assert!(value("4294967296").is_err());
    assert!(value("").is_err());
    assert!(value("+").is_err());
    assert!(value("1a").is_err());
    assert!(value(" 1").is_err());
}

#[test]
fn included_config_is_trimmed_of_unicode_whitespace() {
    let text = WsConfigFileHandler::include_config("\"a\": 1", "\u{3000} { \"b\": 2 } \n");
    assert_eq!(text, "{\"a\": 1, \"b\": 2 }");
}

#[test]
fn build_plan_runs_each_selected_task() {
    let s = settings(WS_SETTINGS);
    let (b, json) = build_data(&s, CLEAN_BUILD_CONFIG);
    let tasks = b.get_tasks(&json).expect("Failed to read tasks");
    let plan = build_plan(&b, &tasks, &strings(&["all"]));
    assert_eq!(plan.len(), 2);
    let first = plan[0].as_ref().ok().expect("a step");
    assert_eq!(first.task, "task-name");
    assert!(!first.bitbake);
    assert_eq!(first.dir, "/workspace/test-dir");
    assert_eq!(first.cmd_lines, vec![strings(&["cd", "/workspace/test-dir", "&&", "test.sh"])]);
    assert!(first.docker.is_none());
    let second = plan[1].as_ref().ok().expect("a step");
    assert_eq!(second.task, "image");
    assert!(second.bitbake);
    assert_eq!(second.dir, "/workspace/builds/default");
    assert_eq!(second.cmd_lines, vec![strings(&["cd", "/workspace/builds/default", "&&", "bitbake", "test-image"])]);
    match &build_plan(&b, &tasks, &strings(&["nope"]))[0] {
        Err(e) => assert_eq!(e.to_string(), "Task 'nope' does not exist in build config"),
        Ok(_) => panic!("expected an error"),
    }
}

#[test]
fn task_descriptions_come_from_the_first_config_that_defines_the_task() {
    let main = parse(r#"{ "tasks": { "a": { "description": "main a" } } }"#).unwrap();
    let inc = parse(r#"{ "tasks": { "a": { "description": "inc a" }, "b": { "description": "inc b" }, "c": {} } }"#).unwrap();
    let configs = vec![main, inc];
    assert_eq!(task_description_of(&configs, "a"), "main a");
    assert_eq!(task_description_of(&configs, "b"), "inc b");
    assert_eq!(task_description_of(&configs, "c"), "NA");
    assert_eq!(task_description_of(&configs, "d"), "NA");
}

#[test]
fn config_description_defaults_to_na() {
    assert_eq!(config_description(r#"{ "description": "Test Description" }"#), "Test Description");
    assert_eq!(config_description(r#"{ "name": "x" }"#), "NA");
    assert_eq!(config_description("not json"), "NA");
}

#[test]
fn file_artifacts_go_into_a_directory_unless_dest_names_a_file() {
    assert!(dest_is_dir(""));
    assert!(dest_is_dir("dest"));
    assert!(dest_is_dir("dest/dir/"));
    assert!(dest_is_dir("a.b/.."));
    assert!(dest_is_dir(".hidden"));
    assert!(!dest_is_dir("dest/file.txt"));
    assert!(!dest_is_dir("file.tar.gz"));
    assert_eq!(copy_dest("/artifacts", "", "sub/f.txt"), "/artifacts/sub/f.txt");
    assert_eq!(copy_dest("/artifacts", "dest", "f.txt"), "/artifacts/dest/f.txt");
    assert_eq!(copy_dest("/artifacts", "dest/file.txt", "f.txt"), "/artifacts/dest/file.txt");
}
