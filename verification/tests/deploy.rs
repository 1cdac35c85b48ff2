use bakery::commands::deploy_context;
use bakery::configs::context::Context;
use indexmap::IndexMap;
use bakery::configs::config::parse;
use bakery::data::build_data::WsBuildData;
use bakery::data::deploy::WsDeployData;
use bakery::json::Json;
use bakery::text::split_char;
use bakery::workspace::WsSettingsHandler;

const WS_SETTINGS: &str = r#"
{
    "version": "5",
    "builds": {
        "supported": [
            "default"
        ]
    }
}"#;

fn strings(v: &[&str]) -> Vec<String> {
    v.iter().map(|s| s.to_string()).collect()
}

/// The command line that the sub-command `name` of `config` runs, given the `--context`
/// arguments and the `--device` and `--image` arguments (`NA` when not given).
fn subcmd_line(config: &str, name: &str, ctx: &[&str], device: &str, image: &str) -> Vec<String> {
    let settings = WsSettingsHandler::from_str("/workspace", WS_SETTINGS).expect("Failed to parse settings");
    let json: Json = parse(config).expect("Failed to parse json");
    let mut data = WsBuildData::at(&json, &settings, "2024-01-01", "12:00").expect("Failed to parse build config");
    let context = deploy_context(&strings(ctx), device, image).expect("Failed to build the context");
    data.update_ctx(context.ctx());
    let mut sub = data.get_subcmds(&json).expect("Failed to read sub-commands").into_iter()
        .find(|(n, _)| n == name).expect("no such sub-command").1;
    sub.expand_ctx(data.context().ctx()).expect("Failed to expand");
    split_char(sub.cmd(), ' ')
}

fn config(context: &str, key: &str, cmd: &str) -> String {
    format!(r#"
    {{
        "version": "5",
        "name": "default",
        "description": "Test Description",
        "arch": "test-arch",
        "bb": {{}},
        "context": [{}],
        "{}": {{
            "cmd": "{}"
        }}
    }}"#, context, key, cmd)
}

const ARGS: &str = r#""ARG1=arg1", "ARG2=arg2", "ARG3=arg3""#;
const ARGS_CMD: &str = "$#[SCRIPTS_DIR]/script.sh $#[ARG1] $#[ARG2] $#[ARG3]";

#[test]
fn test_cmd_deploy() {
    assert_eq!(subcmd_line(&config(ARGS, "deploy", ARGS_CMD), "deploy", &[], "NA", "NA"),
        strings(&["/workspace/scripts/script.sh", "arg1", "arg2", "arg3"]));
}

#[test]
fn test_cmd_deploy_ctx() {
    assert_eq!(subcmd_line(&config(ARGS, "deploy", ARGS_CMD), "deploy", &["ARG3=arg4"], "NA", "NA"),
        strings(&["/workspace/scripts/script.sh", "arg1", "arg2", "arg4"]));
}

#[test]
fn test_cmd_deploy_device() {
    let c = config(r#""ARG2=arg2", "ARG3=arg3""#, "deploy", "$#[SCRIPTS_DIR]/script.sh $#[DEVICE] $#[ARG2] $#[ARG3]");
    assert_eq!(subcmd_line(&c, "deploy", &[], "192.168.1.90", "NA"),
        strings(&["/workspace/scripts/script.sh", "192.168.1.90", "arg2", "arg3"]));
}

#[test]
fn test_cmd_deploy_device_ctx() {
    let c = config(r#""DEVICE=192.168.253.90""#, "deploy", "$#[SCRIPTS_DIR]/script.sh $#[DEVICE]");
    assert_eq!(subcmd_line(&c, "deploy", &[], "NA", "NA"),
        strings(&["/workspace/scripts/script.sh", "192.168.253.90"]));
}

#[test]
fn test_cmd_deploy_device_arg() {
    let c = config(r#""DEVICE=192.168.253.90""#, "deploy", "$#[SCRIPTS_DIR]/script.sh $#[DEVICE]");
    assert_eq!(subcmd_line(&c, "deploy", &[], "192.168.253.91", "NA"),
        strings(&["/workspace/scripts/script.sh", "192.168.253.91"]));
}

#[test]
fn test_cmd_deploy_image_ctx() {
    let c = config(r#""IMAGE=ctx-test-image""#, "deploy", "$#[SCRIPTS_DIR]/script.sh $#[IMAGE]");
    assert_eq!(subcmd_line(&c, "deploy", &[], "NA", "NA"),
        strings(&["/workspace/scripts/script.sh", "ctx-test-image"]));
}

#[test]
fn test_cmd_deploy_image_arg() {
    let c = config(r#""IMAGE=ctx-test-image""#, "deploy", "$#[SCRIPTS_DIR]/script.sh $#[IMAGE]");
    assert_eq!(subcmd_line(&c, "deploy", &[], "NA", "arg-test-image"),
        strings(&["/workspace/scripts/script.sh", "arg-test-image"]));
}

#[test]
fn test_cmd_setup() {
    assert_eq!(subcmd_line(&config(ARGS, "setup", ARGS_CMD), "setup", &[], "NA", "NA"),
        strings(&["/workspace/scripts/script.sh", "arg1", "arg2", "arg3"]));
}

#[test]
fn test_cmd_setup_ctx() {
    assert_eq!(subcmd_line(&config(ARGS, "setup", ARGS_CMD), "setup", &["ARG3=arg4"], "NA", "NA"),
        strings(&["/workspace/scripts/script.sh", "arg1", "arg2", "arg4"]));
}

#[test]
fn test_ws_deploy_executer() {
    let json_build_config = r#"
    {
        "cmd": "$#[SCRIPTS_DIR]/script.sh $#[ARG1] $#[ARG2] $#[ARG3]"
    }"#;
    let data: WsDeployData = WsDeployData::from_str(json_build_config).expect("Failed to parse config data");
    assert_eq!(split_char(data.deploy_cmd(), ' '), strings(&["$#[SCRIPTS_DIR]/script.sh", "$#[ARG1]", "$#[ARG2]", "$#[ARG3]"]));
}

#[test]
fn deploy_context_sets_device_and_image_names() {
    let c = deploy_context(&Vec::new(), "dev1", "img1").expect("Failed to build the context");
    assert_eq!(c.get_ctx_value("DEVICE"), "dev1");
    assert_eq!(c.get_ctx_value("BKRY_DEVICE"), "dev1");
    assert_eq!(c.get_ctx_value("IMAGE"), "img1");
    assert_eq!(c.get_ctx_value("BKRY_IMAGE"), "img1");
}

#[test]
fn references_fall_back_to_built_in_variables() {
    let mut vars: IndexMap<String, String> = IndexMap::new();
    vars.insert("BKRY_WORK_DIR".to_string(), "/w".to_string());
    vars.insert("WORK_DIR".to_string(), "/own".to_string());
    vars.insert("BKRY_NAME".to_string(), "n".to_string());
    let ctx = Context::new(&vars);
    assert_eq!(ctx.expand_str("${NAME} $#[name] ${WORK_DIR} ${BKRY_WORK_DIR} ${OTHER}"), "n n /own /w ${OTHER}");
}
