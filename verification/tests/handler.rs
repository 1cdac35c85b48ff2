use bakery::configs::handler::{first_found, merge_named, merge_tasks, WsConfigFileHandler, DUMMY_BUILD_CONFIG};
use bakery::data::build_data::WsBuildData;
use bakery::data::context::{CTX_KEY_BB_BUILD_DIR, CTX_KEY_BB_DEPLOY_DIR, CTX_KEY_DATE, CTX_KEY_MACHINE, CTX_KEY_TIME, CTX_KEY_WORK_DIR};
use bakery::json::Json;
use bakery::configs::config::parse;
use bakery::workspace::WsSettingsHandler;

fn handler() -> WsConfigFileHandler {
    WsConfigFileHandler::new("/workspace", "/home/user")
}

#[test]
fn test_cfg_handler_settings_default() {
    let cfg_handler: WsConfigFileHandler = handler();
    let settings: WsSettingsHandler = cfg_handler.ws_settings(&vec![None, None]).expect("Failed parse workspace settings");
    assert_eq!(settings.builds_dir(), "/workspace/builds");
    assert_eq!(settings.cache_dir(), "/workspace/.cache");
    assert_eq!(settings.artifacts_dir(), "/workspace/artifacts");
    assert_eq!(settings.scripts_dir(), "/workspace/scripts");
    assert_eq!(settings.docker_dir(), "/workspace/docker");
    assert_eq!(settings.configs_dir(), "/workspace/configs");
    assert_eq!(settings.include_dir(), "/workspace/configs/include");
}

#[test]
fn test_cfg_handler_settings_home_dir() {
    let ws_settings_2: &str = r#"
    {
        "version": "6",
        "workspace": {
            "configsdir": "home_dir"
        }
    }"#;
    let ws_settings_1: &str = r#"
    {
        "version": "6",
        "workspace": {
            "configsdir": "work_dir"
        }
    }"#;
    let cfg_handler: WsConfigFileHandler = handler();
    assert_eq!(cfg_handler.settings_files()[0], "/home/user/.bakery/workspace.json");
    let found: Vec<Option<String>> = vec![Some(ws_settings_2.to_string()), Some(ws_settings_1.to_string())];
    let settings: WsSettingsHandler = cfg_handler.ws_settings(&found).expect("Failed parse workspace settings");
    assert_eq!(settings.configs_dir(), "/workspace/home_dir");
}

#[test]
fn test_cfg_handler_settings_work_dir() {
    let ws_settings: &str = r#"
    {
        "version": "6",
        "workspace": {
            "configsdir": "work_dir"
        }
    }"#;
    let cfg_handler: WsConfigFileHandler = handler();
    assert_eq!(cfg_handler.settings_files()[1], "/workspace/workspace.json");
    let settings: WsSettingsHandler = cfg_handler.ws_settings(&vec![None, Some(ws_settings.to_string())]).expect("Failed parse workspace settings");
    assert_eq!(settings.configs_dir(), "/workspace/work_dir");
}

#[test]
fn test_cfg_handler_build_config() {
    let cfg_handler: WsConfigFileHandler = handler();
    let settings = cfg_handler.ws_settings(&vec![None, None]).expect("Failed parse workspace settings");
    assert_eq!(cfg_handler.build_config_files("invalid", &settings), vec![
        "/workspace/invalid.json".to_string(),
        "/workspace/configs/invalid.json".to_string(),
    ]);
    match cfg_handler.build_config("invalid", &vec![None, None]) {
        Ok(_build_cfg) => panic!("Was expecting an error!"),
        Err(e) => assert_eq!(e.to_string(), String::from("Build config 'invalid.json' missing!")),
    }
}

#[test]
fn test_cfg_handler_ws_root_build_config() {
    let cfg_handler: WsConfigFileHandler = handler();
    let settings = cfg_handler.ws_settings(&vec![None, None]).expect("Failed parse workspace settings");
    let build_conf_ws_root_dir = r#"
    {
        "version": "6",
        "name": "ws-root-build-config",
        "description": "Test Description",
        "arch": "test-arch"
    }"#;
    let build_conf_configs_dir = r#"
    {
        "version": "6",
        "name": "ws-configs-build-config",
        "description": "Test Description",
        "arch": "test-arch"
    }"#;
    assert_eq!(cfg_handler.build_config_files("test", &settings)[0], "/workspace/test.json");
    let found: Vec<Option<String>> = vec![Some(build_conf_ws_root_dir.to_string()), Some(build_conf_configs_dir.to_string())];
    let text = cfg_handler.build_config("test", &found).expect("Failed parse build config");
    let config = WsBuildData::from_str(&text, &settings).expect("Failed parse build config");
    assert_eq!(config.name(), "ws-root-build-config");
}

#[test]
fn test_cfg_handler_ws_configs_build_config() {
    let cfg_handler: WsConfigFileHandler = handler();
    let settings = cfg_handler.ws_settings(&vec![None, None]).expect("Failed parse workspace settings");
    let build_conf_configs_dir = r#"
    {
        "version": "6",
        "name": "ws-configs-build-config",
        "description": "Test Description",
        "arch": "test-arch"
    }"#;
    assert_eq!(cfg_handler.build_config_files("test", &settings)[1], "/workspace/configs/test.json");
    let text = cfg_handler.build_config("test", &vec![None, Some(build_conf_configs_dir.to_string())]).expect("Failed parse build config");
    let config = WsBuildData::from_str(&text, &settings).expect("Failed parse build config");
    assert_eq!(config.name(), "ws-configs-build-config");
}

#[test]
fn cfg_handler_settings_files() {
    assert_eq!(handler().settings_files(), vec![
        "/home/user/.bakery/workspace.json".to_string(),
        "/workspace/workspace.json".to_string(),
    ]);
}

#[test]
fn cfg_handler_build_config_dummy_and_found() {
    assert_eq!(handler().build_config("NA", &vec![None, None]).expect("dummy config"), DUMMY_BUILD_CONFIG);
    assert_eq!(handler().build_config("test", &vec![None, Some("{}".to_string())]).expect("found config"), "{}");
}

#[test]
fn cfg_handler_include_configs() {
    let settings = handler().ws_settings(&vec![None, None]).expect("Failed parse workspace settings");
    let main_build_config = r#"
    {
        "version": "6",
        "name": "test-product",
        "description": "Test Description",
        "arch": "test-arch",
        "bb": { "machine": "test-machine" },
        "include": [ "config1", "config2" ]
    }"#;
    let (header, files) = handler().setup_build_config(main_build_config, &settings).expect("Failed parse build config");
    assert_eq!(files, vec![
        "/workspace/configs/include/config1.json".to_string(),
        "/workspace/configs/include/config2.json".to_string(),
    ]);
    assert_eq!(header, "\"name\": \"test-product\",\"arch\": \"test-arch\", \"description\": \"Test Description\",\"bb\": {\"machine\":\"test-machine\"}");
    let included = r#"
    {
        "version": "6",
        "tasks": { "task2": { "index": "2", "name": "task2" } }
    }
    "#;
    let text = WsConfigFileHandler::include_config(&header, included);
    let data: Json = parse(&text).expect("the joined configuration is JSON");
    let merged = WsBuildData::at(&data, &settings, "2024-01-01", "12:00").expect("Failed to read build data");
    assert_eq!(merged.name(), "test-product");
    assert_eq!(merged.bitbake().machine(), "test-machine");
    assert_eq!(merged.version(), "6");
}

#[test]
fn build_data_context() {
    let settings = handler().ws_settings(&vec![None, None]).expect("Failed parse workspace settings");
    let json_build_config = r#"
    {
        "version": "6",
        "name": "test-name",
        "description": "Test Description",
        "arch": "test-arch",
        "context": [ "RECIPE_NAME=test-image" ],
        "bb": {
            "machine": "test-machine",
            "distro": "test-distro",
            "deploydir": "tmp/test/deploy",
            "initenv": "${BKRY_LAYERS_DIR}/meta-test/oe-my-init-env",
            "localconf": [ "WORK_DIR ?= ${BKRY_WORK_DIR}" ]
        }
    }"#;
    let data: Json = parse(json_build_config).expect("Failed to parse json");
    let mut build = WsBuildData::at(&data, &settings, "2024-01-01", "12:00").expect("Failed to read build data");
    assert!(build.valid());
    assert_eq!(build.context().get_ctx_value(CTX_KEY_MACHINE), "test-machine");
    assert_eq!(build.context().get_ctx_value(CTX_KEY_WORK_DIR), "/workspace");
    assert_eq!(build.context().get_ctx_value(CTX_KEY_DATE), "2024-01-01");
    assert_eq!(build.context().get_ctx_value(CTX_KEY_TIME), "12:00");
    assert_eq!(build.context().get_ctx_value("recipe_name"), "test-image");
    assert_eq!(build.context().get_ctx_value(CTX_KEY_BB_BUILD_DIR), "/workspace/builds/test-name");
    assert_eq!(build.context().get_ctx_value(CTX_KEY_BB_DEPLOY_DIR), "/workspace/builds/test-name/tmp/test/deploy");
    build.expand_ctx().expect("expansion never fails");
    assert_eq!(build.bitbake().local_conf(), "WORK_DIR ?= ${BKRY_WORK_DIR}\nMACHINE ?= \"test-machine\"\nVARIANT ?= \"dev\"\nPRODUCT_NAME ?= \"test-name\"\nDISTRO ?= \"test-distro\"\nSSTATE_DIR ?= \"/workspace/.cache/test-arch/sstate-cache\"\nDL_DIR ?= \"/workspace/.cache/download\"\n");
}

#[test]
fn build_data_default() {
    let settings = handler().ws_settings(&vec![None, None]).expect("Failed parse workspace settings");
    let build = WsBuildData::from_str(r#"{ }"#, &settings).expect("Failed to read build data");
    assert_eq!(build.name(), "NA");
    assert_eq!(build.version(), "NA");
    assert!(!build.valid());
    assert!(build.included_configs().is_empty());
}

#[test]
fn build_data_errors() {
    let settings = handler().ws_settings(&vec![None, None]).expect("Failed parse workspace settings");
    match WsBuildData::from_str(r#"{ "include": "x" }"#, &settings) {
        Ok(_) => panic!("expected an error"),
        Err(e) => assert_eq!(e.to_string(), "Failed to read array 'include'"),
    }
    match WsBuildData::from_str(r#"{ "context": "x" }"#, &settings) {
        Ok(_) => panic!("expected an error"),
        Err(e) => assert_eq!(e.to_string(), "Failed to parse hashmap. Error when reading object 'context'"),
    }
    match WsBuildData::from_str(r#"{ "bb": { "localconf": "x" } }"#, &settings) {
        Ok(_) => panic!("expected an error"),
        Err(e) => assert_eq!(e.to_string(), "Failed to read array 'localconf'"),
    }
}

#[test]
fn test_cfg_handler_ws_include_configs() {
    let cfg_handler: WsConfigFileHandler = handler();
    let settings: WsSettingsHandler = cfg_handler.ws_settings(&vec![None, None]).expect("Failed parse workspace settings");
    let main_build_config = r#"
        {
            "version": "6",
            "name": "test-product",
            "description": "Test Description",
            "arch": "test-arch",
            "bb": {
                "machine": "test-machine",
                "distro": "test-distro",
                "deploydir": "tmp/test/deploy",
                "docker": "test-registry/test-image:0.1",
                "initenv": "layers/test/oe-my-init-env",
                "bblayersconf": [
                    "BB_LAYERS_CONF_TEST_LINE_1",
                    "BB_LAYERS_CONF_TEST_LINE_2",
                    "BB_LAYERS_CONF_TEST_LINE_3"
                ],
                "localconf": [
                    "BB_LOCAL_CONF_TEST_LINE_1",
                    "BB_LOCAL_CONF_TEST_LINE_2",
                    "BB_LOCAL_CONF_TEST_LINE_3"
                ]
            },
            "include": [
                "config1",
                "config2"
            ],
            "tasks": {
                "task0": {
                    "index": "0",
                    "name": "task0",
                    "type": "non-bitbake",
                    "builddir": "test/main",
                    "build": "main",
                    "clean": "main",
                    "artifacts": [
                        {
                            "source": "test/main-file.txt"
                        }
                    ]
                }
            },
            "setup": {
                "cmd": "main"
            }
        }"#;
    let build_config1 = r#"
        {
            "version": "6",
            "tasks": {
                "task0": {
                    "index": "0",
                    "name": "task0",
                    "type": "non-bitbake",
                    "builddir": "test/config1",
                    "build": "config1",
                    "clean": "config1",
                    "artifacts": [
                        {
                            "source": "test/config.txt"
                        }
                    ]
                },
                "task1": {
                    "index": "1",
                    "name": "task1",
                    "recipes": [
                        "test"
                    ],
                    "artifacts": [
                        {
                            "source": "test/config.txt"
                        }
                    ]
                }
            },
            "setup": {
                "cmd": "config1"
            },
            "sync": {
                "cmd": "config1"
            }
        }"#;
    let build_config2 = r#"
        {
            "version": "6",
            "tasks": {
                "task2": {
                    "index": "2",
                    "name": "task2",
                    "type": "non-bitbake",
                    "builddir": "test/config2",
                    "build": "config2",
                    "clean": "config2",
                    "artifacts": [
                        {
                            "source": "test/config.txt"
                        }
                    ]
                }
            },
            "upload": {
                "cmd": "config2"
            }
        }"#;
    let (header, files) = cfg_handler.setup_build_config(main_build_config, &settings).expect("Failed parse build config");
    assert_eq!(files, vec![
        "/workspace/configs/include/config1.json".to_string(),
        "/workspace/configs/include/config2.json".to_string(),
    ]);
    let data: WsBuildData = WsBuildData::from_str(main_build_config, &settings).expect("Failed parse build config");
    assert_eq!(data.name(), "test-product");
    let main_json: Json = parse(main_build_config).expect("Failed to parse json");
    let included: Vec<Json> = [build_config1, build_config2]
        .iter()
        .map(|c| parse(&WsConfigFileHandler::include_config(&header, c)).expect("Failed to parse json"))
        .collect();
    let more = included.iter().map(|j| data.get_tasks(j).expect("Failed to read tasks")).collect();
    let tasks = merge_tasks(data.get_tasks(&main_json).expect("Failed to read tasks"), more);
    let t0 = &tasks.iter().find(|(n, _)| n == "task0").unwrap().1;
    assert_eq!(t0.build, "main");
    assert_eq!(bakery::paths::join(&settings.work_dir(), &t0.builddir), "/workspace/test/main");
    let t1 = &tasks.iter().find(|(n, _)| n == "task1").unwrap().1;
    assert_eq!(t1.recipes, vec!["test".to_string()]);
    assert_eq!(data.bitbake().build_dir(), "/workspace/builds/test-product");
    let t2 = &tasks.iter().find(|(n, _)| n == "task2").unwrap().1;
    assert_eq!(t2.build, "config2");
    assert_eq!(bakery::paths::join(&settings.work_dir(), &t2.builddir), "/workspace/test/config2");
    let more_subcmds = included.iter().map(|j| data.defined_subcmds(j)).collect();
    let subcmds = merge_named(data.defined_subcmds(&main_json), more_subcmds);
    let cmd = |name: &str| subcmds.iter().find(|(n, _)| n == name).unwrap().1.cmd().to_string();
    assert_eq!(cmd("setup"), "main");
    assert_eq!(cmd("sync"), "config1");
    assert_eq!(cmd("upload"), "config2");
}

#[test]
fn the_first_candidate_file_found_wins() {
    let root = Some("ws-root-build-config".to_string());
    let configs = Some("ws-configs-build-config".to_string());
    assert_eq!(first_found(&vec![root.clone(), configs.clone()]), root);
    assert_eq!(first_found(&vec![None, configs.clone()]), configs);
    assert_eq!(first_found(&vec![None, None]), None);
}
