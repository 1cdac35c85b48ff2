use bakery::configs::config::parse;
use bakery::configs::task::TaskConfig;
use bakery::data::artifact::{AType, WsArtifactData};
use bakery::data::build_data::WsBuildData;
use bakery::error::BError;
use bakery::json::Json;
use bakery::workspace::WsSettingsHandler;

fn setup_build_data(json_build_config: Option<&str>) -> WsBuildData {
    let settings = WsSettingsHandler::from_str("/workspace", r#"{ "version": "6" }"#).expect("Failed to parse settings");
    let text = json_build_config.unwrap_or(r#"{ "version": "5" }"#);
    let data: Json = parse(text).expect("Failed to parse json");
    WsBuildData::at(&data, &settings, "2024-01-01", "12:00").expect("Failed to read build data")
}

#[test]
fn test_ws_build_data_no_tasks() {
    let json_build_config = r#"
    {
        "version": "6",
        "name": "test-name",
        "description": "Test Description",
        "arch": "test-arch"
    }"#;
    let data: WsBuildData = setup_build_data(Some(json_build_config));
    let json_data: Json = parse(json_build_config).expect("Failed to parse json");
    let tasks: Vec<(String, TaskConfig)> = data.get_tasks(&json_data).expect("Failed to parse tasks");
    assert!(tasks.is_empty());
}

#[test]
fn test_ws_build_data_tasks_error() {
    let json_build_config: &str = r#"
    {
        "version": "6",
        "name": "test-name",
        "description": "Test Description",
        "arch": "test-arch",
        "tasks": "error"
    }"#;
    let data: WsBuildData = setup_build_data(Some(json_build_config));
    let json_data: Json = parse(json_build_config).expect("Failed to parse json");
    let result: Result<Vec<(String, TaskConfig)>, BError> = data.get_tasks(&json_data);
    match result {
        Ok(_rconfig) => {
            panic!("We should have recived an error because we have no valid config!");
        }
        Err(e) => {
            assert_eq!(
                e.to_string(),
                String::from("Invalid 'task' node in build config. No 'tasks' node found in build config")
            );
        }
    }
}

#[test]
fn test_ws_build_tasks() {
    let json_build_config: &str = r#"
    {
        "version": "6",
        "name": "test-name",
        "description": "Test Description",
        "arch": "test-arch",
        "tasks": {
            "task1": {
                "index": "1",
                "name": "task1",
                "type": "non-bitbake"
            },
            "task2": {
                "index": "2",
                "name": "task2",
                "type": "non-bitbake"
            }
        }
    }"#;
    let data: WsBuildData = setup_build_data(Some(json_build_config));
    let json_data: Json = parse(json_build_config).expect("Failed to parse json");
    let tasks: Vec<(String, TaskConfig)> = data.get_tasks(&json_data).expect("Failed to parse tasks");
    assert!(!tasks.is_empty());
    let mut i: usize = 1;
    tasks.iter().for_each(|(name, task)| {
        assert_eq!(name, &format!("task{}", i));
        assert_eq!(&task.name, &format!("task{}", i));
        i += 1;
    });
}

#[test]
fn test_ws_build_tasks_order() {
    let json_build_config: &str = r#"
    {
        "version": "6",
        "name": "test-name",
        "description": "Test Description",
        "arch": "test-arch",
        "tasks": {
            "btask": {
                "index": "1",
                "name": "btask",
                "type": "non-bitbake"
            },
            "atask": {
                "index": "2",
                "name": "atask",
                "type": "non-bitbake"
            }
        }
    }"#;
    let data: WsBuildData = setup_build_data(Some(json_build_config));
    let json_data: Json = parse(json_build_config).expect("Failed to parse json");
    let tasks: Vec<(String, TaskConfig)> = data.get_tasks(&json_data).expect("Failed to parse tasks");
    assert!(!tasks.is_empty());
    let (name_0, task_0) = &tasks[0];
    assert_eq!(name_0.as_str(), "btask");
    assert_eq!(task_0.name, "btask");
    let (name_1, task_1) = &tasks[1];
    assert_eq!(name_1.as_str(), "atask");
    assert_eq!(task_1.name, "atask");
}

#[test]
fn test_ws_build_data_artifacts_error() {
    let json_artifact_config: &str = r#"
    {
        "index": "2",
        "name": "task2",
        "type": "non-bitbake",
        "artifacts": "error"
    }"#;
    let task_build_dir: String = String::from("/workspace/task/dir");
    let data: WsBuildData = setup_build_data(None);
    let json_data: Json = parse(json_artifact_config).expect("Failed to parse json");
    let result: Result<Vec<(WsArtifactData, String)>, BError> = data.get_artifacts(&json_data, &task_build_dir);
    match result {
        Ok(_rconfig) => {
            panic!("We should have recived an error because we have no valid config!");
        }
        Err(e) => {
            assert_eq!(
                e.to_string(),
                String::from("Invalid 'artifact' node in build config. No 'artifacts' array node found in build config")
            );
        }
    }
}

#[test]
fn test_ws_build_data_artifacts() {
    let json_artifacts_config: &str = r#"
    {
        "artifacts": [
            {
                "source": "file1.txt",
                "dest": "file1.txt"
            },
            {
                "source": "file2.txt",
                "dest": "file2.txt"
            }
        ]
    }"#;
    let data: WsBuildData = setup_build_data(None);
    let json_data: Json = parse(json_artifacts_config).expect("Failed to parse json");
    let task_build_dir: String = String::from("/workspace/task/dir");
    let artifacts: Vec<(WsArtifactData, String)> =
        data.get_artifacts(&json_data, &task_build_dir).expect("Failed to parse artifacts");
    assert!(!artifacts.is_empty());
    let mut i: usize = 1;
    artifacts.iter().for_each(|(a, dir)| {
        assert_eq!(dir, &task_build_dir);
        assert_eq!(a.atype(), &AType::File);
        assert_eq!(a.source(), &format!("file{}.txt", i));
        i += 1;
    });
}

#[test]
fn build_tasks_same_index_keep_order_and_errors() {
    let json_build_config: &str = r#"
    {
        "tasks": {
            "c": { "index": "2", "name": "c", "type": "non-bitbake" },
            "a": { "index": "2", "name": "a", "type": "non-bitbake" },
            "b": { "index": "0", "name": "b", "type": "non-bitbake" }
        }
    }"#;
    let data: WsBuildData = setup_build_data(None);
    let json_data: Json = parse(json_build_config).expect("Failed to parse json");
    let names: Vec<String> = data.get_tasks(&json_data).expect("tasks").into_iter().map(|(n, _)| n).collect();
    assert_eq!(names, vec!["b".to_string(), "a".to_string(), "c".to_string()]);
    let bad: Json = parse(r#"{ "tasks": { "t": { "index": "x", "name": "t", "type": "non-bitbake" } } }"#).expect("json");
    match data.get_tasks(&bad) {
        Ok(_) => panic!("expected an error"),
        Err(e) => assert_eq!(e.to_string(), "Missing or invalid index"),
    }
}

#[test]
fn build_subcmds() {
    let data: WsBuildData = setup_build_data(None);
    let json_data: Json = parse(r#"{ "setup": { "cmd": "setup.sh" } }"#).expect("json");
    let subcmds = data.get_subcmds(&json_data).expect("subcmds");
    let names: Vec<&str> = subcmds.iter().map(|(n, _)| n.as_str()).collect();
    assert_eq!(names, vec!["deploy", "upload", "setup", "sync"]);
    assert_eq!(subcmds[2].1.cmd(), "setup.sh");
    assert_eq!(subcmds[0].1.cmd(), "echo \"INFO: currently no 'deploy' task defined\"");
}

#[test]
fn test_ws_build_data_default() {
    let data: WsBuildData = setup_build_data(None);
    assert_eq!(data.version(), "5");
    assert_eq!(data.name(), "NA");
}

#[test]
fn test_ws_build_data_task_expand_ctx() {
    let json_task_str: &str = r#"
    {
        "index": "2",
        "name": "task-name",
        "type": "bitbake",
        "recipes": [
            "$#[RECIPE_NAME]"
        ]
    }"#;
    let json_build_config: &str = r#"
    {
        "version": "6",
        "name": "test-name",
        "description": "Test Description",
        "arch": "test-arch",
        "context": [
            "RECIPE_NAME=test-image"
        ]
    }"#;
    let data: WsBuildData = setup_build_data(Some(json_build_config));
    let json_data: Json = parse(json_task_str).expect("Failed to parse json");
    let mut task: TaskConfig = data.get_task(&json_data).expect("Failed to parse task");
    task.expand_ctx(data.context().ctx());
    assert_eq!(&task.recipes, &vec!["test-image"]);
}

#[test]
fn test_ws_build_data_artifact() {
    let json_artifact_config: &str = r#"
    {
        "type": "manifest",
        "name": "test-manifest",
        "content": {
            "key1": "value1",
            "key2": "value2",
            "data": {
                "key3": "value3"
            }
        }
    }"#;
    let data: WsBuildData = setup_build_data(None);
    let json_data: Json = parse(json_artifact_config).expect("Failed to parse json");
    let artifact: WsArtifactData = data.get_artifact(&json_data).expect("Failed to parse artifacts");
    assert_eq!(artifact.atype(), &AType::Manifest);
    assert_eq!(artifact.name(), "test-manifest");
}

#[test]
fn test_ws_build_data_expand_artifact() {
    let json_build_config: &str = r#"
    {
        "version": "6",
        "name": "test-name",
        "description": "Test Description",
        "arch": "test-arch",
        "context": [
            "MANIFEST_FILE_NAME=test-manifest"
        ]
    }"#;
    let json_artifact_config: &str = r#"
    {
        "type": "manifest",
        "name": "$#[MANIFEST_FILE_NAME]",
        "content": {
            "key1": "value1",
            "key2": "value2",
            "data": {
                "key3": "value3"
            }
        }
    }"#;
    let data: WsBuildData = setup_build_data(Some(json_build_config));
    let json_data: Json = parse(json_artifact_config).expect("Failed to parse json");
    let mut artifact: WsArtifactData = data.get_artifact(&json_data).expect("Failed to parse artifacts");
    artifact.expand_ctx(data.context().ctx());
    assert_eq!(artifact.atype(), &AType::Manifest);
    assert_eq!(artifact.name(), "test-manifest");
}

#[test]
fn test_ws_build_data_time_date() {
    let json_artifact_config: &str = r#"
    {
        "type": "manifest",
        "name": "test-manifest",
        "content": {
            "date": "$#[BKRY_DATE]",
            "time": "$#[BKRY_TIME]"
        }
    }"#;
    let settings = WsSettingsHandler::from_str("/workspace", r#"{ "version": "6" }"#).expect("Failed to parse settings");
    let data: WsBuildData = WsBuildData::from_str(r#"{ "version": "5" }"#, &settings).expect("Failed to read build data");
    let json_data: Json = parse(json_artifact_config).expect("Failed to parse json");
    let mut artifact: WsArtifactData = data.get_artifact(&json_data).expect("Failed to parse artifacts");
    artifact.expand_ctx(data.context().ctx());
    assert_eq!(artifact.atype(), &AType::Manifest);
    assert_eq!(artifact.name(), "test-manifest");
    assert_eq!(
        artifact.manifest(),
        format!(
            "{{\"date\":\"{}\",\"time\":\"{}\"}}",
            chrono::offset::Local::now().format("%Y-%m-%d").to_string(),
            chrono::offset::Local::now().format("%H:%M").to_string()
        )
    );
}

#[test]
fn test_ws_build_data_task() {
    let json_task_str: &str = r#"
    {
        "index": "2",
        "name": "task-name",
        "type": "bitbake",
        "recipes": [
            "test-image"
        ]
    }"#;
    let json_build_config: &str = r#"
    {
        "version": "6",
        "name": "test-name",
        "description": "Test Description",
        "arch": "test-arch"
    }"#;
    let data: WsBuildData = setup_build_data(Some(json_build_config));
    let json_data: Json = parse(json_task_str).expect("Failed to parse json");
    let task: TaskConfig = data.get_task(&json_data).expect("Failed to parse task");
    assert_eq!(data.task_build_dir(&task), "/workspace/builds/test-name");
    assert_eq!(task.name, "task-name");
}

#[test]
fn task_build_dir_of_a_non_bitbake_task() {
    let data: WsBuildData = setup_build_data(None);
    let json_data: Json = parse(r#"{ "index": "1", "name": "t", "type": "non-bitbake", "builddir": "test/dir" }"#)
        .expect("Failed to parse json");
    let task: TaskConfig = data.get_task(&json_data).expect("Failed to parse task");
    assert_eq!(data.task_build_dir(&task), "/workspace/test/dir");
}
