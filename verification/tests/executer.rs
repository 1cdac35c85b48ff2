use bakery::executers::plan::exec_cmd_line;
use bakery::workspace::WsSettingsHandler;

fn settings(work_dir: &str) -> WsSettingsHandler {
    let json_ws_settings: &str = r#"
    {
        "version": "4",
        "builds": {
            "supported": [
                "default"
            ]
        }
    }"#;
    WsSettingsHandler::from_str(work_dir, json_ws_settings).expect("Failed to parse settings.json")
}

#[test]
fn executer_test_executer_build_dir() {
    let test_work_dir: String = String::from("/test_work_dir");
    let test_build_dir: String = String::from("test_build_dir");
    let test_cmd: String = String::from("test_cmd");
    let verification_str: String = format!("cd {} && {}", test_build_dir, test_cmd);
    let settings: WsSettingsHandler = settings(&test_work_dir);
    let line: Vec<String> = exec_cmd_line(&vec![test_cmd], Some(&test_build_dir), &settings.work_dir());
    assert_eq!(line.join(" "), verification_str);
}

#[test]
fn executer_test_executer_no_build_dir() {
    let test_work_dir: String = String::from("test_work_dir");
    let test_cmd: String = String::from("test_cmd");
    let verification_str: String = format!("cd {} && {}", test_work_dir, test_cmd);
    let settings: WsSettingsHandler = settings(&test_work_dir);
    let line: Vec<String> = exec_cmd_line(&vec![test_cmd], None, &settings.work_dir());
    assert_eq!(line.join(" "), verification_str);
}

#[test]
fn exec_cmd_line_keeps_every_word_of_the_command() {
    let cmd: Vec<String> = vec!["make".to_string(), "-j".to_string(), "4".to_string()];
    assert_eq!(exec_cmd_line(&cmd, Some("/build"), "/ws"), vec!["cd", "/build", "&&", "make", "-j", "4"]);
    assert_eq!(exec_cmd_line(&cmd, None, "/ws"), vec!["cd", "/ws", "&&", "make", "-j", "4"]);
}
