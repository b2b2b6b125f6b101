use save_windows_status::paths::{get_save_dir, get_save_path};
use save_windows_status::record::AppWindow;
use save_windows_status::restore::{failed_restores, restore_commands};
use save_windows_status::store::{clear_app_state, load_app_state, save_app_state, StoreError};

fn rec(id: &str, cmd: &str, title: &str) -> AppWindow {
    AppWindow::new(id.to_string(), cmd.to_string(), title.to_string())
}

#[test]
fn save_writes_exact_json() {
    let text = save_app_state(&vec![rec("0x01", "sh -c \"x\"", "t")]);
    assert_eq!(
        text,
        "[{\"window_id\":\"0x01\",\"app_command\":\"sh -c \\\"x\\\"\",\"window_title\":\"t\"}]"
    );
}

#[test]
fn save_escapes_control_characters() {
    let text = save_app_state(&vec![rec("a\\b", "l1\nl2\t\u{1}\u{1f}", "\u{8}\u{c}\r")]);
    assert_eq!(
        text,
        "[{\"window_id\":\"a\\\\b\",\"app_command\":\"l1\\nl2\\t\\u0001\\u001f\",\"window_title\":\"\\b\\f\\r\"}]"
    );
}

#[test]
fn save_then_load_round_trips() {
    let rs = vec![
        rec("0x01", "/usr/bin/gnome-terminal", "Terminal — bash"),
        rec("0x02", "echo \"hi\" \\ there\n", "\u{1}tab\there"),
        rec("", "x", ""),
    ];
    let text = save_app_state(&rs);
    assert_eq!(load_app_state(Some(text)), Ok(rs));
}

#[test]
fn save_empty_then_load_gives_empty() {
    let text = save_app_state(&vec![]);
    assert_eq!(text, "[]");
    assert_eq!(load_app_state(Some(text)), Ok(vec![]));
}

#[test]
fn clear_then_load_gives_empty() {
    let text = clear_app_state();
    assert_eq!(text, "[]");
    assert_eq!(load_app_state(Some(text)), Ok(vec![]));
}

#[test]
fn missing_storage_is_read_error() {
    assert_eq!(load_app_state(None), Err(StoreError::StorageReadError));
}

#[test]
fn load_accepts_whitespace_any_member_order_and_escapes() {
    let text = " \n[ { \"window_title\" : \"caf\\u00e9 \\/ x\" ,\"window_id\":\"1\",\n\t\"app_command\":\"a\\\"b\" } ,{\"app_command\":\"c\",\"window_title\":\"\",\"window_id\":\"2\"}] \r\n";
    assert_eq!(
        load_app_state(Some(text.to_string())),
        Ok(vec![rec("1", "a\"b", "café / x"), rec("2", "c", "")])
    );
}

#[test]
fn load_rejects_malformed_sessions() {
    let bad = [
        "",
        "{}",
        "[",
        "[{}]",
        "[{\"window_id\":\"a\",\"app_command\":\"b\"}]",
        "[{\"window_id\":\"a\",\"app_command\":\"b\",\"window_title\":3}]",
        "[{\"window_id\":\"a\",\"app_command\":\"b\",\"window_id\":\"c\"}]",
        "[{\"window_id\":\"a\",\"app_command\":\"b\",\"window_title\":\"c\"},]",
        "[{\"window_id\":\"a\",\"app_command\":\"b\",\"window_title\":\"c\"}] x",
        "[{\"window_id\":\"a\",\"app_command\":\"b\",\"window_title\":\"c\\q\"}]",
        "[{\"window_id\":\"a\",\"app_command\":\"b\",\"window_title\":\"\\ud800\"}]",
        "[{\"window_id\":\"a\",\"app_command\":\"b\",\"window_title\":\"\n\"}]",
    ];
    for t in bad.iter() {
        assert_eq!(load_app_state(Some(t.to_string())), Err(StoreError::StorageReadError), "{}", t);
    }
}

#[test]
fn load_reads_surrogate_pairs() {
    let text = "[{\"window_id\":\"1\",\"app_command\":\"x\",\"window_title\":\"\\ud83d\\ude00!\"}]";
    assert_eq!(load_app_state(Some(text.to_string())), Ok(vec![rec("1", "x", "\u{1F600}!")]));
    let lone = "[{\"window_id\":\"1\",\"app_command\":\"x\",\"window_title\":\"\\ude00\"}]";
    assert_eq!(load_app_state(Some(lone.to_string())), Err(StoreError::StorageReadError));
    let unpaired = "[{\"window_id\":\"1\",\"app_command\":\"x\",\"window_title\":\"\\ud83d\\u0041\"}]";
    assert_eq!(load_app_state(Some(unpaired.to_string())), Err(StoreError::StorageReadError));
}

#[test]
fn one_bad_record_rejects_the_whole_session() {
    let text = "[{\"window_id\":\"a\",\"app_command\":\"b\",\"window_title\":\"c\"},{\"window_id\":\"a\"}]";
    assert_eq!(load_app_state(Some(text.to_string())), Err(StoreError::StorageReadError));
}

#[test]
fn development_mode_stores_in_working_directory() {
    assert_eq!(get_save_path("development", "/home/u"), "apps_state.json");
    assert_eq!(get_save_dir("development", "/home/u"), None);
}

#[test]
fn other_modes_store_under_home() {
    assert_eq!(
        get_save_path("production", "/home/u"),
        "/home/u/.save-windows-status/apps_state.json"
    );
    assert_eq!(get_save_path("", "/home/u/"), "/home/u/.save-windows-status/apps_state.json");
    assert_eq!(
        get_save_dir("", "/home/u"),
        Some("/home/u/.save-windows-status".to_string())
    );
}

#[test]
fn restore_launches_every_command_in_order() {
    let rs = vec![rec("1", "not-a-command-xyz", "A"), rec("2", "xterm", "B")];
    assert_eq!(restore_commands(&rs), vec!["not-a-command-xyz".to_string(), "xterm".to_string()]);
}

#[test]
fn failed_launch_is_reported_and_others_continue() {
    let rs = vec![rec("1", "not-a-command-xyz", "A"), rec("2", "xterm", "B")];
    assert_eq!(failed_restores(&rs, &vec![false, true]), vec![rec("1", "not-a-command-xyz", "A")]);
    assert_eq!(failed_restores(&rs, &vec![true, true]), vec![]);
    assert_eq!(failed_restores(&vec![], &vec![]), vec![]);
}
