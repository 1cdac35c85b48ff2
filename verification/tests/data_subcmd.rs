use bakery::configs::context::Context;
use bakery::data::subcmd::WsSubCmdData;
use indexmap::IndexMap;

#[test]
fn test_ws_deploy_data_default() {
    let json_build_config = r#"
    {
    }"#;
    let data: WsSubCmdData = WsSubCmdData::from_str("deploy", json_build_config).expect("Failed to parse config data");
    assert_eq!(data.cmd(), "echo \"INFO: currently no 'deploy' task defined\"");
}

#[test]
fn test_ws_deploy_cmd() {
    let json_build_config = r#"
    {
        "cmd": "/path/to/deploy/script.sh arg1 arg2 arg3"
    }"#;
    let data: WsSubCmdData = WsSubCmdData::from_str("deploy", json_build_config).expect("Failed to parse config data");
    assert_eq!(data.cmd(), "/path/to/deploy/script.sh arg1 arg2 arg3");
}

#[test]
fn test_ws_deploy_cmd_ctx() {
    let mut variables: IndexMap<String, String> = IndexMap::new();
    variables.insert("ARG1".to_string(), "arg1".to_string());
    variables.insert("ARG2".to_string(), "arg2".to_string());
    variables.insert("ARG3".to_string(), "arg3".to_string());
    variables.insert("SCRIPTS_DIR".to_string(), "/path/to/deploy".to_string());
    let ctx: Context = Context::new(&variables);
    let json_build_config = r#"
    {
        "cmd": "$#[SCRIPTS_DIR]/script.sh $#[ARG1] $#[ARG2] $#[ARG3]"
    }"#;
    let mut data: WsSubCmdData = WsSubCmdData::from_str("deploy", json_build_config).expect("Failed to parse config data");
    assert_eq!(data.cmd(), "$#[SCRIPTS_DIR]/script.sh $#[ARG1] $#[ARG2] $#[ARG3]");
    data.expand_ctx(&ctx).unwrap();
    assert_eq!(data.cmd(), "/path/to/deploy/script.sh arg1 arg2 arg3");
}
