use bakery::configs::artifact::{AType, ArtifactConfig};
use bakery::configs::context::Context;
use bakery::error::BError;
use indexmap::IndexMap;


fn helper_artifact_config_from_str(json_test_str: &str) -> ArtifactConfig {
    let result: Result<ArtifactConfig, BError> = ArtifactConfig::from_str(json_test_str);
    match result {
        Ok(rconfig) => {
            rconfig
        }
        Err(e) => {
            println!("Error parsing artifacts from build config: {}", e.to_string());
            panic!();
        } 
    }
}

#[test]
fn test_artifact_config_file_type_simple() {
    let json_test_str = r#"
    {
        "source": "file1.txt"
    }
    "#;
    let config = helper_artifact_config_from_str(json_test_str);
    assert!(config.name.is_empty());
    assert_eq!(config.atype, AType::File);
    assert_eq!(config.source, "file1.txt");
    assert!(config.dest.is_empty());
}

#[test]
fn test_artifact_config_file_type_dest() {
    let json_test_str = r#"
    {
        "source": "file1.txt",
        "dest": "dest"
    }
    "#;
    let config = helper_artifact_config_from_str(json_test_str);
    assert!(config.name.is_empty());
    assert_eq!(config.atype, AType::File);
    assert_eq!(config.source, "file1.txt");
    assert_eq!(config.dest, "dest");
}

#[test]
fn test_artifact_config_file_type() {
    let json_test_str = r#"
    {
        "type": "file",
        "source": "file1.txt",
        "dest": "dest"
    }
    "#;
    let config = helper_artifact_config_from_str(json_test_str);
    assert!(config.name.is_empty());
    assert_eq!(config.atype, AType::File);
    assert_eq!(config.source, "file1.txt");
    assert_eq!(config.dest, "dest");
}

#[test]
fn test_artifact_config_dir_type() {
    let json_test_str = r#"
    {
        "type": "directory",
        "name": "dir",
        "artifacts": [
            {
                "source": "file1.txt"
            }
        ]
    }
    "#;
    let config: ArtifactConfig = helper_artifact_config_from_str(json_test_str);
    assert_eq!(config.atype, AType::Directory);
    assert_eq!(config.name, "dir");
    assert!(!config.artifacts.is_empty());
    let artifacts: Vec<ArtifactConfig> = config.artifacts;
    assert_eq!(artifacts[0].atype, AType::File);
    assert!(artifacts[0].name.is_empty());
    assert_eq!(artifacts[0].source, "file1.txt");
    assert!(artifacts[0].dest.is_empty());
}

#[test]
fn test_artifact_config_composite() {
    let json_test_str = r#"
    {
        "type": "archive",
        "name": "test.zip",
        "artifacts": [
            {
                "type": "directory",
                "name": "dir-name",
                "artifacts": [
                    {
                        "source": "file1.txt"
                    },
                    {
                        "source": "file2.txt"
                    }
                ]
            }
        ]
    }
    "#;
    let config: ArtifactConfig = helper_artifact_config_from_str(json_test_str);
    assert_eq!(config.atype, AType::Archive);
    assert_eq!(config.name, "test.zip");
    assert!(!config.artifacts.is_empty());
    let artifacts: Vec<ArtifactConfig> = config.artifacts;
    assert_eq!(artifacts[0].atype, AType::Directory);
    assert_eq!(artifacts[0].name, "dir-name");
    assert!(!artifacts[0].artifacts.is_empty());
    let files: &Vec<ArtifactConfig> = &artifacts[0].artifacts;
    let mut i = 1;
    for f in files.iter() {
        assert_eq!(f.atype, AType::File);
        assert!(f.name.is_empty());
        assert_eq!(f.source, format!("file{}.txt", i));
        assert!(f.dest.is_empty());
        i += 1;
    }
}

#[test]
fn test_artifact_config_error_invalid_type() {
    let json_test_str = r#"
    {
        "type": "invalid",
        "source": "file1.txt",
        "dest": "dest"
    }
    "#;
    let result: Result<ArtifactConfig, BError> = ArtifactConfig::from_str(json_test_str);
    match result {
        Ok(_rconfig) => {
            panic!("We should have recived an error because the type is invalid!");
        }
        Err(e) => {
            assert_eq!(e.to_string(), String::from("Invalid 'artifact' format in build config. Invalid type 'invalid'"));
        } 
    }
}

#[test]
fn test_artifact_config_error_no_dir_name() {
    let json_test_str = r#"
    {
        "type": "directory"
    }
    "#;
    let result: Result<ArtifactConfig, BError> = ArtifactConfig::from_str(json_test_str);
    match result {
        Ok(_rconfig) => {
            panic!("We should have recived an error because the type is invalid!");
        }
        Err(e) => {
            assert_eq!(e.to_string(), String::from("Invalid 'artifact' format in build config. The 'directory' type requires a 'name'"));
        } 
    }
}

#[test]
fn test_artifact_config_error_no_manifest_name() {
    let json_test_str = r#"
    {
        "type": "manifest"
    }
    "#;
    let result: Result<ArtifactConfig, BError> = ArtifactConfig::from_str(json_test_str);
    match result {
        Ok(_rconfig) => {
            panic!("We should have recived an error because the type is invalid!");
        }
        Err(e) => {
            assert_eq!(e.to_string(), String::from("Invalid 'artifact' format in build config. The 'manifest' type requires a 'name'"));
        } 
    }
}

#[test]
fn test_artifact_config_context() {
    let mut variables: IndexMap<String, String> = IndexMap::new();
    variables.insert("ARCHIVE_FILE".to_string(), "test-archive.zip".to_string());
    variables.insert("DIR1".to_string(), "dir1".to_string());
    variables.insert("DIR2".to_string(), "dir2".to_string());
    variables.insert("DIR3".to_string(), "dir3".to_string());
    let ctx: Context = Context::new(&variables);
    let json_test_str = r#"
    {
        "type": "archive",
        "name": "${ARCHIVE_FILE}",
        "artifacts": [
            {
                "type": "directory",
                "name": "${DIR1}/test-dir",
                "artifacts": [
                    {
                        "source": "${DIR2}/file2.txt"
                    },
                    {
                        "source": "${DIR3}/file3.txt"
                    }
                ]
            }
        ]
    }
    "#;
    let mut config: ArtifactConfig = helper_artifact_config_from_str(json_test_str);
    config.expand_ctx(&ctx);
    assert_eq!(config.name, "test-archive.zip");
    assert!(!config.artifacts.is_empty());
    let artifacts: &Vec<ArtifactConfig> = &config.artifacts;
    assert_eq!(artifacts[0].atype, AType::Directory);
    assert_eq!(artifacts[0].name, "dir1/test-dir");
    assert!(!artifacts[0].artifacts.is_empty());
    let files: &Vec<ArtifactConfig> = &artifacts[0].artifacts;
    let mut i = 2;
    for f in files.iter() {
        assert_eq!(f.atype, AType::File);
        assert!(f.name.is_empty());
        assert_eq!(f.source, format!("dir{}/file{}.txt", i, i));
        assert!(f.dest.is_empty());
        i += 1;
    }
}

#[test]
fn test_artifact_config_manifest() {
    let mut variables: IndexMap<String, String> = IndexMap::new();
    variables.insert("MANIFEST_FILE".to_string(), "test-manifest-data.json".to_string());
    variables.insert("KEY_CONTEXT1".to_string(), "VAR1".to_string());
    variables.insert("KEY_CONTEXT2".to_string(), "VAR2".to_string());
    variables.insert("KEY_CONTEXT3".to_string(), "VAR3".to_string());
    variables.insert("KEY_CONTEXT4".to_string(), "VAR4".to_string());
    let ctx: Context = Context::new(&variables);
    let json_test_str = r#"
    {
        "type": "manifest",
        "name": "${MANIFEST_FILE}",
        "content": {
            "${KEY_CONTEXT1}": "value1",
            "${KEY_CONTEXT2}": "value2",
            "${KEY_CONTEXT3}": "value3",
            "data": {
                "${KEY_CONTEXT4}": "value4"
            }
        }
    }
    "#;
    let mut config: ArtifactConfig = helper_artifact_config_from_str(json_test_str);
    config.expand_ctx(&ctx);
    assert_eq!(config.name, "test-manifest-data.json");
    assert!(!config.manifest.is_empty());
    assert_eq!(config.manifest, "{\"VAR1\":\"value1\",\"VAR2\":\"value2\",\"VAR3\":\"value3\",\"data\":{\"VAR4\":\"value4\"}}");
}

#[test]
fn test_artifact_config_manifest_empty_content() {
    let mut variables: IndexMap<String, String> = IndexMap::new();
    variables.insert("MANIFEST_FILE".to_string(), "test-manifest-data.json".to_string());
    let ctx: Context = Context::new(&variables);
    let json_test_str = r#"
    {
        "type": "manifest",
        "name": "${MANIFEST_FILE}"
    }
    "#;
    let mut config: ArtifactConfig = helper_artifact_config_from_str(json_test_str);
    config.expand_ctx(&ctx);
    assert_eq!(config.name, "test-manifest-data.json");
    assert!(!config.manifest.is_empty());
    assert_eq!(config.manifest, "{}");
}
