use bakery::configs::context::Context;
use bakery::data::task::{TType, WsTaskData};
use bakery::error::BError;
use bakery::data::build_data::WsBuildData;
use bakery::workspace::WsSettingsHandler;
use indexmap::IndexMap;

fn build_data() -> WsBuildData {
    let settings = WsSettingsHandler::from_str("/workspace", r#"{ "version": "6" }"#).expect("Failed to parse settings");
    WsBuildData::from_str(r#"{ "version": "6" }"#, &settings).expect("Failed to read build data")
}

#[test]
fn test_ws_task_data_nonhlos() {
    let json_task_config: &str = r#"
    {
        "index": "0",
        "name": "task1-name",
        "description": "test",
        "disabled": "false",
        "type": "non-hlos",
        "builddir": "test/builddir",
        "docker": "test-registry/test-image:0.1",
        "build": "build-cmd",
        "clean": "clean-cmd"
    }"#;
    let task: WsTaskData = WsTaskData::from_str(json_task_config, &build_data()).expect("Failed parsing task data");
    assert_eq!(task.index(), 0);
    assert_eq!(task.name(), "task1-name");
    assert_eq!(task.disabled(), false);
    assert_eq!(task.condition(), true);
    assert_eq!(task.description(), "test");
    assert_eq!(task.ttype(), &TType::NonHLOS);
    assert_eq!(task.build_dir(), "/workspace/test/builddir");
    assert_eq!(task.init_env(), "/workspace/test/builddir/");
    assert_eq!(task.build_cmd(), "build-cmd");
    assert_eq!(task.clean_cmd(), "clean-cmd");
    assert_eq!(task.docker_image(), "test-registry/test-image:0.1");
}

#[test]
fn task_data_defaults() {
    let task: WsTaskData = WsTaskData::from_str(r#"{ "index": "3", "name": "t" }"#, &build_data())
        .expect("Failed parsing task data");
    assert_eq!(task.index(), 3);
    assert_eq!(task.ttype(), &TType::VENDOR);
    assert_eq!(task.description(), "NA");
    assert!(!task.disabled());
    assert!(task.condition());
    assert_eq!(task.build_dir(), "/workspace/");
    assert!(task.env().is_empty());
}

#[test]
fn task_data_types() {
    for (t, expected) in [("kernel", TType::KERNEL), ("qssi", TType::QSSI), ("vendor", TType::VENDOR), ("non-hlos", TType::NonHLOS)] {
        let json = format!(r#"{{ "index": "1", "name": "t", "type": "{}" }}"#, t);
        let task = WsTaskData::from_str(&json, &build_data()).expect("Failed parsing task data");
        assert_eq!(task.ttype(), &expected);
    }
}

#[test]
fn task_data_invalid_type() {
    let result: Result<WsTaskData, BError> =
        WsTaskData::from_str(r#"{ "index": "1", "name": "t", "type": "hlos" }"#, &build_data());
    match result {
        Ok(_) => panic!("expected an error"),
        Err(e) => assert_eq!(e.to_string(), "Invalid 'task' node in build config. Invalid type 'hlos'"),
    }
}

#[test]
fn task_data_bad_index() {
    let result = WsTaskData::from_str(r#"{ "index": "one", "name": "t" }"#, &build_data());
    match result {
        Ok(_) => panic!("expected an error"),
        Err(e) => assert_eq!(e.to_string(), "Failed to parse u32 value 'index'"),
    }
    let result = WsTaskData::from_str(r#"{ "index": "+7", "name": "t" }"#, &build_data());
    assert_eq!(result.expect("a leading plus is accepted").index(), 7);
    let result = WsTaskData::from_str(r#"{ "index": "4294967296", "name": "t" }"#, &build_data());
    assert!(result.is_err());
}

#[test]
fn task_data_missing_entries() {
    match WsTaskData::from_str(r#"{ "name": "t" }"#, &build_data()) {
        Ok(_) => panic!("expected an error"),
        Err(e) => assert_eq!(e.to_string(), "Failed to read u32 value 'index'"),
    }
    match WsTaskData::from_str(r#"{ "index": "1" }"#, &build_data()) {
        Ok(_) => panic!("expected an error"),
        Err(e) => assert_eq!(e.to_string(), "Failed to read string value 'name'"),
    }
    match WsTaskData::from_str(r#"{ "index": "1", "name": "t", "env": "x" }"#, &build_data()) {
        Ok(_) => panic!("expected an error"),
        Err(e) => assert_eq!(e.to_string(), "Failed to parse hashmap. Error when reading object 'env'"),
    }
}

#[test]
fn task_data_condition_values() {
    for c in ["", "1", "yes", "y", "Y", "true", "YES", "TRUE", "True", "Yes"] {
        let json = format!(r#"{{ "index": "1", "name": "t", "condition": "{}" }}"#, c);
        let task = WsTaskData::from_str(&json, &build_data()).expect("Failed parsing task data");
        assert!(task.condition(), "condition '{}'", c);
    }
    for c in ["0", "no", "false", "yEs"] {
        let json = format!(r#"{{ "index": "1", "name": "t", "condition": "{}" }}"#, c);
        let task = WsTaskData::from_str(&json, &build_data()).expect("Failed parsing task data");
        assert!(!task.condition(), "condition '{}'", c);
    }
}

#[test]
fn task_data_expand_ctx() {
    let json_task_config: &str = r#"
    {
        "index": "2",
        "name": "${TASK_NAME}",
        "type": "qssi",
        "builddir": "test/builddir",
        "initenv": "${INIT}",
        "build": "${BUILD_CMD} ${BUILD_CMD_ARG}",
        "clean": "clean-cmd",
        "disabled": "${OFF}",
        "env": [ "KEY1=${VALUE}", "KEY2=plain" ]
    }"#;
    let mut variables: IndexMap<String, String> = IndexMap::new();
    variables.insert("TASK_NAME".to_string(), "task1-name".to_string());
    variables.insert("BUILD_CMD".to_string(), "test-cmd".to_string());
    variables.insert("BUILD_CMD_ARG".to_string(), "test-cmd-arg".to_string());
    variables.insert("INIT".to_string(), "init.sh".to_string());
    variables.insert("OFF".to_string(), "true".to_string());
    variables.insert("VALUE".to_string(), "v1".to_string());
    let context: Context = Context::new(&variables);
    let mut task: WsTaskData = WsTaskData::from_str(json_task_config, &build_data()).expect("Failed parsing task data");
    task.expand_ctx(&context);
    assert_eq!(task.index(), 2);
    assert_eq!(task.name(), "task1-name");
    assert_eq!(task.build_cmd(), "test-cmd test-cmd-arg");
    assert_eq!(task.init_env(), "/workspace/test/builddir/init.sh");
    assert!(task.disabled());
    let env: Vec<(String, String)> = task.env().iter().map(|(k, v)| (k.clone(), v.clone())).collect();
    assert_eq!(env, vec![
        ("KEY1".to_string(), "v1".to_string()),
        ("KEY2".to_string(), "plain".to_string()),
    ]);
}
