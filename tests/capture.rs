use save_windows_status::listing::{parse_wmctrl_line, parse_wmctrl_output};
use save_windows_status::record::{AppWindow, RawWindowEntry};
use save_windows_status::resolve::{collect_records, command_from_ps_output, record_of};

fn entry(id: &str, pid: &str, title: &str) -> RawWindowEntry {
    RawWindowEntry {
        window_id: id.to_string(),
        pid: pid.to_string(),
        window_title: title.to_string(),
    }
}

#[test]
fn line_with_spaced_title_joins_remainder() {
    let e = parse_wmctrl_line("0x02  1 42 0 0 10 10 host   My   Title ").unwrap();
    assert_eq!(e, entry("0x02", "42", "My Title"));
}

#[test]
fn line_with_exactly_nine_tokens() {
    let e = parse_wmctrl_line("0x03 0 7 1 2 3 4 box Editor").unwrap();
    assert_eq!(e, entry("0x03", "7", "Editor"));
}

#[test]
fn short_line_is_skipped() {
    assert_eq!(parse_wmctrl_line("0x03 0 7 1 2 3 4 box"), None);
    assert_eq!(parse_wmctrl_line(""), None);
    assert_eq!(parse_wmctrl_line("   \t "), None);
}

#[test]
fn tabs_separate_tokens() {
    let e = parse_wmctrl_line("0x04\t0\t9\t0\t0\t1\t1\th\tA\tB").unwrap();
    assert_eq!(e, entry("0x04", "9", "A B"));
}

#[test]
fn listing_keeps_order_and_skips_malformed_lines() {
    let out = "0x01 0 11 0 0 1 1 h First\nbroken line\r\n0x02 0 22 0 0 1 1 h Second one\r\n";
    let v = parse_wmctrl_output(out);
    assert_eq!(v, vec![entry("0x01", "11", "First"), entry("0x02", "22", "Second one")]);
}

#[test]
fn empty_listing_gives_no_windows() {
    assert_eq!(parse_wmctrl_output(""), vec![]);
    assert_eq!(parse_wmctrl_output("\n\n"), vec![]);
}

#[test]
fn ps_output_is_trimmed() {
    assert_eq!(
        command_from_ps_output("  /usr/bin/foo --bar  \n"),
        Some("/usr/bin/foo --bar".to_string())
    );
}

#[test]
fn empty_ps_output_is_absence() {
    assert_eq!(command_from_ps_output(""), None);
    assert_eq!(command_from_ps_output(" \n\t "), None);
}

#[test]
fn record_of_needs_a_command() {
    let e = entry("0x05", "5", "T");
    assert_eq!(record_of(&e, &None), None);
    assert_eq!(
        record_of(&e, &Some("cmd".to_string())),
        Some(AppWindow::new("0x05".to_string(), "cmd".to_string(), "T".to_string()))
    );
}

#[test]
fn unresolved_windows_are_dropped() {
    let es = vec![entry("0x01", "1", "A"), entry("0x02", "2", "B"), entry("0x03", "3", "C")];
    let cs = vec![Some("a".to_string()), None, Some("c".to_string())];
    let r = collect_records(&es, &cs);
    assert_eq!(
        r,
        vec![
            AppWindow::new("0x01".to_string(), "a".to_string(), "A".to_string()),
            AppWindow::new("0x03".to_string(), "c".to_string(), "C".to_string()),
        ]
    );
}

#[test]
fn terminal_window_is_captured() {
    let entries = parse_wmctrl_output("0x01 0 1234 0 0 800 600 host Terminal — bash");
    assert_eq!(entries.len(), 1);
    assert_eq!(entries[0].pid, "1234");
    let cmds = vec![command_from_ps_output("/usr/bin/gnome-terminal\n")];
    let r = collect_records(&entries, &cmds);
    assert_eq!(
        r,
        vec![AppWindow::new(
            "0x01".to_string(),
            "/usr/bin/gnome-terminal".to_string(),
            "Terminal — bash".to_string()
        )]
    );
}
