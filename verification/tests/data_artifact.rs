use bakery::configs::config::parse;
use bakery::configs::context::Context;
use bakery::data::artifact::{AType, WsArtifactData};
use bakery::error::BError;
use bakery::json::Json;
use indexmap::IndexMap;

#[test]
fn test_ws_artifact_data_source() {
    let json_artifact_config: &str = r#"
    {
        "source": "file1.txt"
    }
    "#;
    let value: Json = parse(json_artifact_config).expect("Failed to parse artifact config");
    let data: WsArtifactData = WsArtifactData::new(&value).expect("Failed to parse artifact data");
    assert!(data.name().is_empty());
    assert_eq!(data.atype(), &AType::File);
    assert_eq!(data.source(), "file1.txt");
    assert_eq!(data.dest(), "");
}

#[test]
fn test_ws_artifact_data_dest() {
    let json_artifact_config: &str = r#"
    {
        "source": "file1.txt",
        "dest": "dest"
    }
    "#;
    let value: Json = parse(json_artifact_config).expect("Failed to parse artifact config");
    let data: WsArtifactData = WsArtifactData::new(&value).expect("Failed to parse artifact data");
    assert!(data.name.is_empty());
    assert_eq!(data.atype(), &AType::File);
    assert_eq!(data.source(), "file1.txt");
    assert_eq!(data.dest(), "dest");
}

#[test]
fn test_ws_artifact_data_file_type() {
    let json_artifact_config: &str  = r#"
    {
        "type": "file",
        "source": "file1.txt",
        "dest": "dest"
    }
    "#;
    let value: Json = parse(json_artifact_config).expect("Failed to parse artifact config");
    let data: WsArtifactData = WsArtifactData::new(&value).expect("Failed to parse artifact data");
    assert!(data.name().is_empty());
    assert_eq!(data.atype(), &AType::File);
    assert_eq!(data.source(), "file1.txt");
    assert_eq!(data.dest(), "dest");
}

#[test]
fn test_ws_artifact_data_dir_type() {
    let json_artifact_config: &str = r#"
    {
        "type": "directory",
        "name": "dir",
        "artifacts": [
            {
                "source": "file1.txt"
            }
        ]
    }
    "#;
    let value: Json = parse(json_artifact_config).expect("Failed to parse artifact config");
    let data: WsArtifactData = WsArtifactData::new(&value).expect("Failed to parse artifact data");
    assert_eq!(data.atype(), &AType::Directory);
    assert_eq!(data.name(), "dir");
}

#[test]
fn test_ws_artifact_data_error_invalid_type() {
    let json_artifact_config: &str = r#"
    {
        "type": "invalid",
        "source": "file1.txt",
        "dest": "dest"
    }
    "#;
    let value: Json = parse(json_artifact_config).expect("Failed to parse artifact config");
    let result: Result<WsArtifactData, BError> = WsArtifactData::new(&value);
    match result {
        Ok(_data) => {
            panic!("We should have recived an error because the type is invalid!");
        }
        Err(e) => {
            assert_eq!(e.to_string(), String::from("Invalid 'artifact' node in build config. Invalid type 'invalid'"));
        }
    }
}

#[test]
fn test_ws_artifact_data_error_no_dir_name() {
    let json_artifact_config: &str = r#"
    {
        "type": "directory"
    }
    "#;
    let value: Json = parse(json_artifact_config).expect("Failed to parse artifact config");
    let result: Result<WsArtifactData, BError> = WsArtifactData::new(&value);
    match result {
        Ok(_rconfig) => {
            panic!("We should have recived an error because the type is invalid!");
        }
        Err(e) => {
            assert_eq!(e.to_string(), String::from("Invalid 'artifact' node in build config. The 'directory' type requires a 'name'"));
        }
    }
}

#[test]
fn test_ws_artifact_data_error_no_manifest_name() {
    let json_artifact_config: &str = r#"
    {
        "type": "manifest"
    }
    "#;
    let value: Json = parse(json_artifact_config).expect("Failed to parse artifact config");
    let result: Result<WsArtifactData, BError> = WsArtifactData::new(&value);
    match result {
        Ok(_rconfig) => {
            panic!("We should have recived an error because the type is invalid!");
        }
        Err(e) => {
            assert_eq!(e.to_string(), String::from("Invalid 'artifact' node in build config. The 'manifest' type requires a 'name'"));
        }
    }
}

#[test]
fn test_ws_artifact_data_link_type() {
    let json_artifact_config: &str = r#"
    {
        "type": "link",
        "name": "link.txt",
        "source": "file.txt"
    }
    "#;
    let value: Json = parse(json_artifact_config).expect("Failed to parse artifact config");
    let data: WsArtifactData = WsArtifactData::new(&value).expect("Failed to parse artifact data");
    assert!(data.dest().is_empty());
    assert_eq!(data.atype(), &AType::Link);
    assert_eq!(data.source(), "file.txt");
    assert_eq!(data.name(), "link.txt");
}

#[test]
fn test_ws_artifact_data_error_no_link_name() {
    let json_artifact_config: &str = r#"
    {
        "type": "link"
    }
    "#;
    let value: Json = parse(json_artifact_config).expect("Failed to parse artifact config");
    let result: Result<WsArtifactData, BError> = WsArtifactData::new(&value);
    match result {
        Ok(_rconfig) => {
            panic!("We should have recived an error because the type is invalid!");
        }
        Err(e) => {
            assert_eq!(e.to_string(), String::from("Invalid 'artifact' node in build config. The 'link' type requires a 'name' and 'source'"));
        }
    }
}

#[test]
fn test_ws_artifact_data_error_no_link_source() {
    let json_artifact_config: &str = r#"
    {
        "type": "link",
        "name": "link.txt"
    }
    "#;
    let value: Json = parse(json_artifact_config).expect("Failed to parse artifact config");
    let result: Result<WsArtifactData, BError> = WsArtifactData::new(&value);
    match result {
        Ok(_rconfig) => {
            panic!("We should have recived an error because the type is invalid!");
        }
        Err(e) => {
            assert_eq!(e.to_string(), String::from("Invalid 'artifact' node in build config. The 'link' type requires a 'name' and 'source'"));
        }
    }
}

#[test]
fn test_ws_artifact_data_context() {
    let mut ctx_variables: IndexMap<String, String> = IndexMap::new();
    ctx_variables.insert("ARCHIVE_FILE".to_string(), "test-archive.zip".to_string());
    ctx_variables.insert("DIR1".to_string(), "dir1".to_string());
    ctx_variables.insert("DIR2".to_string(), "dir2".to_string());
    ctx_variables.insert("DIR3".to_string(), "dir3".to_string());
    let json_artifact_config: &str = r#"
    {
        "type": "archive",
        "name": "$#[ARCHIVE_FILE]",
        "artifacts": [
            {
                "type": "directory",
                "name": "$#[DIR1]/test-dir",
                "artifacts": [
                    {
                        "source": "$#[DIR2]/file2.txt"
                    },
                    {
                        "source": "$#[DIR3]/file3.txt"
                    }
                ]
            }
        ]
    }
    "#;
    let context: Context = Context::new(&ctx_variables);
    let value: Json = parse(json_artifact_config).expect("Failed to parse artifact config");
    let mut data: WsArtifactData = WsArtifactData::new(&value).expect("Failed to parse artifact data");
    data.expand_ctx(&context);
    assert_eq!(data.name(), "test-archive.zip");
}

#[test]
fn test_ws_artifact_data_manifest() {
    let mut ctx_variables: IndexMap<String, String> = IndexMap::new();
    ctx_variables.insert("MANIFEST_FILE".to_string(), "test-manifest-data.json".to_string());
    ctx_variables.insert("KEY_CONTEXT1".to_string(), "VAR1".to_string());
    ctx_variables.insert("KEY_CONTEXT2".to_string(), "VAR2".to_string());
    ctx_variables.insert("KEY_CONTEXT3".to_string(), "VAR3".to_string());
    ctx_variables.insert("KEY_CONTEXT4".to_string(), "VAR4".to_string());
    let json_artifact_config: &str = r#"
    {
        "type": "manifest",
        "name": "$#[MANIFEST_FILE]",
        "content": {
            "$#[KEY_CONTEXT1]": "value1",
            "$#[KEY_CONTEXT2]": "value2",
            "$#[KEY_CONTEXT3]": "value3",
            "data": {
                "$#[KEY_CONTEXT4]": "value4"
            }
        }
    }
    "#;
    let context: Context = Context::new(&ctx_variables);
    let value: Json = parse(json_artifact_config).expect("Failed to parse artifact config");
    let mut data: WsArtifactData = WsArtifactData::new(&value).expect("Failed to parse artifact data");
    data.expand_ctx(&context);
    assert_eq!(data.name(), "test-manifest-data.json");
    assert!(!data.manifest().is_empty());
    assert_eq!(data.manifest(), "{\"VAR1\":\"value1\",\"VAR2\":\"value2\",\"VAR3\":\"value3\",\"data\":{\"VAR4\":\"value4\"}}");
}

#[test]
fn test_ws_artifact_data_manifest_empty_content() {
    let mut ctx_variables: IndexMap<String, String> = IndexMap::new();
    ctx_variables.insert("MANIFEST_FILE".to_string(), "test-manifest-data.json".to_string());
    let json_artifact_config: &str = r#"
    {
        "type": "manifest",
        "name": "$#[MANIFEST_FILE]"
    }
    "#;
    let context: Context = Context::new(&ctx_variables);
    let value: Json = parse(json_artifact_config).expect("Failed to parse artifact config");
    let mut data: WsArtifactData = WsArtifactData::new(&value).expect("Failed to parse artifact data");
    data.expand_ctx(&context);
    assert_eq!(data.name(), "test-manifest-data.json");
    assert!(!data.manifest().is_empty());
    assert_eq!(data.manifest(), "{}");
}

#[test]
fn test_ws_artifact_data_link_ctx() {
    let mut ctx_variables: IndexMap<String, String> = IndexMap::new();
    ctx_variables.insert("LINK_NAME".to_string(), "ctx-link.txt".to_string());
    let json_artifact_config: &str = r#"
    {
        "type": "link",
        "name": "$#[LINK_NAME]",
        "source": "file.txt"
    }
    "#;
    let context: Context = Context::new(&ctx_variables);
    let value: Json = parse(json_artifact_config).expect("Failed to parse artifact config");
    let mut data: WsArtifactData = WsArtifactData::new(&value).expect("Failed to parse artifact data");
    data.expand_ctx(&context);
    assert!(data.dest().is_empty());
    assert_eq!(data.atype(), &AType::Link);
    assert_eq!(data.source(), "file.txt");
    assert_eq!(data.name(), "ctx-link.txt");
}
