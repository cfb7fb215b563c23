use dir_snapshot::config::{read_args, Config};
use dir_snapshot::folders::{
    contains_path, distinct_folders, folders_from, load_auto_mode_folders, load_manual_mode_folders, string_items,
    FoldersError, SystemFolders,
};
use dir_snapshot::stamp::{analysis_file_name, record_file_name};

fn args(list: &[&str]) -> Vec<String> {
    list.iter().map(|a| a.to_string()).collect()
}

fn windows() -> SystemFolders {
    SystemFolders {
        system_drive: "C:".to_string(),
        program_data: "C:\\ProgramData".to_string(),
        program_files: "C:\\Program Files".to_string(),
        program_files_x86: "C:\\Program Files (x86)".to_string(),
        user_profile: "C:\\Users\\me".to_string(),
        app_data: "C:\\Users\\me\\AppData\\Roaming".to_string(),
        local_app_data: "C:\\Users\\me\\AppData\\Local".to_string(),
    }
}

#[test]
fn no_switch_leaves_everything_off() {
    let c = read_args(&args(&["tool"])).unwrap();
    assert_eq!(c, Config { trace_log: false, slow_mode: false, manual_mode: false, logging: false });
    assert_eq!(read_args(&vec![]), Some(c));
}

#[test]
fn short_and_long_switches_are_read() {
    let c = read_args(&args(&["tool", "-t", "--slow-mode"])).unwrap();
    assert!(c.tracing_enabled());
    assert!(c.slow_mode_enabled());
    assert!(!c.manual_mode());
    assert!(!c.log_enabled());
    let c = read_args(&args(&["--manual", "-l", "--trace", "-s"])).unwrap();
    assert_eq!(c, Config { trace_log: true, slow_mode: true, manual_mode: true, logging: true });
    let c = read_args(&args(&["-m", "--log"])).unwrap();
    assert_eq!(c, Config { trace_log: false, slow_mode: false, manual_mode: true, logging: true });
}

#[test]
fn what_is_no_switch_is_passed_over() {
    let c = read_args(&args(&["-x", "--tracee", "t", "-T", ""])).unwrap();
    assert_eq!(c, Config { trace_log: false, slow_mode: false, manual_mode: false, logging: false });
}

#[test]
fn help_anywhere_gives_none() {
    assert_eq!(read_args(&args(&["-h"])), None);
    assert_eq!(read_args(&args(&["tool", "-t", "--help", "-s"])), None);
    assert_eq!(read_args(&args(&["-t", "-s", "-h"])), None);
}

#[test]
fn the_usual_directories_are_eight() {
    let folders = load_auto_mode_folders(&windows());
    assert_eq!(
        folders,
        vec![
            "C:\\".to_string(),
            "C:\\ProgramData".to_string(),
            "C:\\Program Files".to_string(),
            "C:\\Program Files (x86)".to_string(),
            "C:\\Users\\me".to_string(),
            "C:\\Users\\me\\AppData\\Roaming".to_string(),
            "C:\\Users\\me\\AppData\\Local".to_string(),
            "C:\\Users\\me\\AppData\\LocalLow".to_string(),
        ]
    );
}

#[test]
fn usual_directories_that_coincide_are_taken_once() {
    let mut env = windows();
    env.program_files_x86 = "C:\\Program Files".to_string();
    env.app_data = "C:\\Users\\me".to_string();
    let folders = load_auto_mode_folders(&env);
    assert_eq!(folders.len(), 6);
    assert_eq!(folders[2], "C:\\Program Files");
    assert_eq!(folders[3], "C:\\Users\\me");
}

#[test]
fn distinct_folders_keeps_first_occurrences() {
    let folders = distinct_folders(args(&["b", "a", "b", "c", "a"]));
    assert_eq!(folders, args(&["b", "a", "c"]));
    assert!(contains_path(&folders, &"c".to_string()));
    assert!(!contains_path(&folders, &"d".to_string()));
    assert!(distinct_folders(vec![]).is_empty());
}

#[test]
fn configured_directories_are_the_strings_of_the_array() {
    let folders = load_manual_mode_folders("{\"folders\": [\"/var/log\", \"C:\\\\Temp\", \"a \\\"b\\\"\"]}").unwrap();
    assert_eq!(folders, args(&["/var/log", "C:\\Temp", "a \"b\""]));
}

#[test]
fn items_that_are_no_strings_name_no_directory() {
    let folders = load_manual_mode_folders("{\"folders\": [7, \"/a\", null, [\"/x\"], {\"p\": \"/y\"}, true, \"/b\"]}").unwrap();
    assert_eq!(folders, args(&["/a", "/b"]));
    assert_eq!(load_manual_mode_folders("{\"folders\": [1, 2]}"), Ok(vec![]));
}

#[test]
fn configured_directories_are_taken_once() {
    let folders = load_manual_mode_folders("{\"folders\": [\"a\", \"b\", \"a\"], \"other\": 1}").unwrap();
    assert_eq!(folders, args(&["a", "b"]));
}

#[test]
fn string_items_keeps_the_strings_in_order() {
    let items = vec![None, Some("b".to_string()), Some("a".to_string()), None, Some("b".to_string())];
    assert_eq!(string_items(items), args(&["b", "a", "b"]));
    assert!(string_items(vec![None, None]).is_empty());
    assert!(string_items(vec![]).is_empty());
}

#[test]
fn an_empty_array_gives_no_directories() {
    assert_eq!(load_manual_mode_folders("{\"folders\": []}"), Ok(vec![]));
}

#[test]
fn a_text_that_is_no_json_is_malformed() {
    assert_eq!(load_manual_mode_folders("{\"folders\": ["), Err(FoldersError::Malformed));
    assert_eq!(load_manual_mode_folders(""), Err(FoldersError::Malformed));
    assert_eq!(load_manual_mode_folders("folders"), Err(FoldersError::Malformed));
}

#[test]
fn json_without_the_array_has_no_folders() {
    assert_eq!(load_manual_mode_folders("{}"), Err(FoldersError::NoFolders));
    assert_eq!(load_manual_mode_folders("{\"folders\": \"/var\"}"), Err(FoldersError::NoFolders));
    assert_eq!(load_manual_mode_folders("{\"Folders\": [\"/var\"]}"), Err(FoldersError::NoFolders));
    assert_eq!(load_manual_mode_folders("[\"/var\"]"), Err(FoldersError::NoFolders));
    assert_eq!(load_manual_mode_folders("null"), Err(FoldersError::NoFolders));
}

#[test]
fn folders_from_tells_the_outcomes_apart() {
    let items = vec![Some("x".to_string()), None, Some("x".to_string()), Some("y".to_string())];
    assert_eq!(folders_from(Ok(Some(items))), Ok(args(&["x", "y"])));
    assert_eq!(folders_from(Ok(None)), Err(FoldersError::NoFolders));
    let failure = serde_json::from_str::<serde_json::Value>("{").unwrap_err();
    assert_eq!(folders_from(Err(failure)), Err(FoldersError::Malformed));
}

#[test]
fn the_errors_have_their_messages() {
    assert_eq!(FoldersError::Malformed.message(), "Malformated JSON");
    assert_eq!(FoldersError::NoFolders.message(), "No folders found in JSON");
}

#[test]
fn file_names_carry_the_time() {
    assert_eq!(record_file_name("2021-11-07_01-47-59"), "record_2021-11-07_01-47-59.json");
    assert_eq!(analysis_file_name("2021-11-07_01-48-00"), "analysis_2021-11-07_01-48-00.json");
    assert_eq!(record_file_name(""), "record_.json");
}
