use bakery::configs::context::Context;
use bakery::configs::task::{TType, TaskConfig};
use bakery::error::BError;
use indexmap::IndexMap;

fn setup_task_config(json_test_str: &str) -> TaskConfig {
    TaskConfig::from_str(json_test_str).expect("Failed to parse task config")
}



#[test]
fn test_task_config_none_bb() {
    let json_test_str = r#"
    {
        "index": "0",
        "name": "task1-name",
        "disabled": "false",
        "type": "non-bitbake",
        "builddir": "test/builddir",
        "docker": "test-registry/test-image:0.1",
        "build": "build-cmd",
        "clean": "clean-cmd"
    }
    "#;
    let config = setup_task_config(json_test_str);
    assert_eq!(config.index, "0");
    assert_eq!(config.name, "task1-name");
    assert_eq!(config.disabled, "false");
    assert_eq!(config.ttype, TType::NonBitbake);
    assert_eq!(config.builddir, "test/builddir");
    assert_eq!(config.build, "build-cmd");
    assert_eq!(config.clean, "clean-cmd");
    assert_eq!(config.docker, "test-registry/test-image:0.1");
    assert_eq!(config.condition, "true");
}

#[test]
fn test_task_config_bb() {
    let json_test_str = r#"
    {
        "index": "0",
        "name": "task1-name",
        "disabled": "false",
        "condition": "false",
        "type": "bitbake",
        "recipes": [
            "test-image",
            "test-image:do_populate_sdk"
        ]
    }
    "#;
    let config = setup_task_config(json_test_str);
    assert_eq!(config.index, "0");
    assert_eq!(config.name, "task1-name");
    assert_eq!(config.disabled, "false");
    assert_eq!(config.condition, "false");
    assert_eq!(config.ttype, TType::Bitbake);
    assert_eq!(&config.recipes, &vec![String::from("test-image"), String::from("test-image:do_populate_sdk")]);
}

#[test]
fn test_task_config_optional() {
    let json_test_str = r#"
    {
        "index": "0",
        "name": "task1-name",
        "recipes": [
            "test-image"
        ]
    }
    "#;
    let config = setup_task_config(json_test_str);
    assert_eq!(config.index, "0");
    assert_eq!(config.name, "task1-name");
    assert_eq!(config.disabled, "false");
    assert_eq!(config.ttype, TType::Bitbake);
    assert_eq!(&config.recipes, &vec![String::from("test-image")]);
}

#[test]
fn test_task_config_artifacts() {
    let json_test_str = r#"
    {
        "index": "0",
        "name": "task1-name",
        "recipes": [
            "test-image"
        ],
        "artifacts": [
            {
                "type": "archive",
                "name": "test.zip",
                "artifacts": [
                    {
                        "type": "directory",
                        "name": "dir-name",
                        "artifacts": [
                            {
                                "source": "file1.txt"
                            },
                            {
                                "source": "file2.txt"
                            }
                        ]
                    }
                ]
            }
        ]
    }
    "#;
    let config: TaskConfig = setup_task_config(json_test_str);
    assert_eq!(config.index, "0");
    assert_eq!(config.name, "task1-name");
    assert_eq!(config.disabled, "false");
    assert_eq!(config.ttype, TType::Bitbake);
    assert_eq!(&config.recipes, &vec![String::from("test-image")]);
}

#[test]
fn test_task_config_error_no_recipes() {
    let json_test_str = r#"
    {
        "index": "0",
        "name": "task1-name",
        "type": "bitbake"
    }
    "#;
    let result: Result<TaskConfig, BError> = TaskConfig::from_str(json_test_str);
    match result {
        Ok(_rconfig) => {
            panic!("We should have recived an error because we have no recipes defined!");
        }
        Err(e) => {
            assert_eq!(e.to_string(), String::from("Invalid 'task' node in build config. The 'bitbake' type requires at least one entry in 'recipes'"));
        } 
    }
}

#[test]
fn test_task_config_error_invalid_type() {
    let json_test_str = r#"
    {
        "index": "0",
        "name": "task1-name",
        "type": "invalid"
    }
    "#;
    let result: Result<TaskConfig, BError> = TaskConfig::from_str(json_test_str);
    match result {
        Ok(_rconfig) => {
            panic!("We should have recived an error because we have no recipes defined!");
        }
        Err(e) => {
            assert_eq!(e.to_string(), String::from("Invalid 'task' node in build config. Invalid type 'invalid'"));
        }
    }
}

#[test]
fn test_task_config_expand_context() {
    let mut variables: IndexMap<String, String> = IndexMap::new();
    variables.insert("TEST_RECIPE".to_string(), "test-image".to_string());
    variables.insert("TEST_ARCHIVE".to_string(), "test.zip".to_string());
    variables.insert("TEST_DIR".to_string(), "dir-name".to_string());
    variables.insert("TEST_FILE".to_string(), "file1.txt".to_string());
    let ctx: Context = Context::new(&variables);
    let json_test_str = r#"
    {
        "index": "0",
        "name": "task1-name",
        "recipes": [
            "${TEST_RECIPE}"
        ],
        "artifacts": [
            {
                "type": "archive",
                "name": "${TEST_ARCHIVE}",
                "artifacts": [
                    {
                        "type": "directory",
                        "name": "${TEST_DIR}",
                        "artifacts": [
                            {
                                "source": "${TEST_FILE}"
                            },
                            {
                                "source": "file2.txt"
                            }
                        ]
                    }
                ]
            }
        ]
    }
    "#;
    let mut config = setup_task_config(json_test_str);
    config.expand_ctx(&ctx);
    assert_eq!(config.index, "0");
    assert_eq!(config.name, "task1-name");
    assert_eq!(config.disabled, "false");
    assert_eq!(config.ttype, TType::Bitbake);
    assert_eq!(&config.recipes, &vec![String::from("test-image")]);
}
