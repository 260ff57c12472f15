use tplan::codec::TodoFile;
use tplan::task::Task;

fn cs(s: &str) -> Vec<char> {
    s.chars().collect()
}

fn task(summary: &str, completed: bool) -> Task {
    Task { summary: cs(summary), completed }
}

#[test]
fn scenario_load_two_records() {
    let doc = TodoFile::load(&cs("x buy milk\ncook dinner\n"));
    assert_eq!(doc.tasks.len(), 2);
    assert!(doc.tasks[0].completed);
    assert_eq!(doc.tasks[0].summary, cs("buy milk"));
    assert!(!doc.tasks[1].completed);
    assert_eq!(doc.tasks[1].summary, cs("cook dinner"));
}

#[test]
fn load_empty_contents() {
    let doc = TodoFile::load(&cs(""));
    assert_eq!(doc.tasks.len(), 0);
}

#[test]
fn load_skips_truly_empty_lines() {
    let doc = TodoFile::load(&cs("\n\nfirst\n\nsecond\n\n"));
    assert_eq!(doc.tasks.len(), 2);
    assert_eq!(doc.tasks[0].summary, cs("first"));
    assert_eq!(doc.tasks[1].summary, cs("second"));
}

#[test]
fn load_whitespace_only_line_is_empty_pending_task() {
    let doc = TodoFile::load(&cs("  \n"));
    assert_eq!(doc.tasks.len(), 1);
    assert!(!doc.tasks[0].completed);
    assert_eq!(doc.tasks[0].summary, cs(""));
}

#[test]
fn load_trims_surrounding_whitespace() {
    let doc = TodoFile::load(&cs("   padded task \t \n"));
    assert_eq!(doc.tasks.len(), 1);
    assert!(!doc.tasks[0].completed);
    assert_eq!(doc.tasks[0].summary, cs("padded task"));
}

#[test]
fn load_x_without_space_completes() {
    let doc = TodoFile::load(&cs("xdone\n"));
    assert_eq!(doc.tasks.len(), 1);
    assert!(doc.tasks[0].completed);
    assert_eq!(doc.tasks[0].summary, cs("done"));
}

#[test]
fn load_lone_x_is_completed_empty() {
    let doc = TodoFile::load(&cs("x\n"));
    assert_eq!(doc.tasks.len(), 1);
    assert!(doc.tasks[0].completed);
    assert_eq!(doc.tasks[0].summary, cs(""));
}

#[test]
fn load_handles_crlf_terminators() {
    let doc = TodoFile::load(&cs("x first\r\nsecond\r\n"));
    assert_eq!(doc.tasks.len(), 2);
    assert!(doc.tasks[0].completed);
    assert_eq!(doc.tasks[0].summary, cs("first"));
    assert!(!doc.tasks[1].completed);
    assert_eq!(doc.tasks[1].summary, cs("second"));
}

#[test]
fn load_without_final_terminator() {
    let doc = TodoFile::load(&cs("x done\npending"));
    assert_eq!(doc.tasks.len(), 2);
    assert!(doc.tasks[0].completed);
    assert_eq!(doc.tasks[0].summary, cs("done"));
    assert!(!doc.tasks[1].completed);
    assert_eq!(doc.tasks[1].summary, cs("pending"));
}

#[test]
fn save_formats_both_kinds_of_line() {
    let doc = TodoFile { tasks: vec![task("buy milk", true), task("cook dinner", false)] };
    assert_eq!(doc.save(), cs("x buy milk\n  cook dinner\n"));
}

#[test]
fn save_of_empty_document_is_empty() {
    let doc = TodoFile { tasks: Vec::new() };
    assert_eq!(doc.save(), cs(""));
}

#[test]
fn save_then_load_round_trips() {
    let doc = TodoFile {
        tasks: vec![task("alpha", false), task("beta rho", true), task("", false)],
    };
    let reloaded = TodoFile::load(&doc.save());
    assert_eq!(reloaded.tasks.len(), 3);
    for (a, b) in doc.tasks.iter().zip(reloaded.tasks.iter()) {
        assert_eq!(a.summary, b.summary);
        assert_eq!(a.completed, b.completed);
    }
}

#[test]
fn save_twice_is_identical() {
    let doc = TodoFile { tasks: vec![task("one", true), task("two", false)] };
    assert_eq!(doc.save(), doc.save());
}

#[test]
fn pending_summary_starting_with_x_does_not_round_trip() {
    // The tolerant parser reads any trimmed line starting with `x` as
    // completed, so such a pending summary comes back altered.
    let doc = TodoFile { tasks: vec![task("xylophone practice", false)] };
    let reloaded = TodoFile::load(&doc.save());
    assert_eq!(reloaded.tasks.len(), 1);
    assert!(reloaded.tasks[0].completed);
    assert_eq!(reloaded.tasks[0].summary, cs("ylophone practice"));
}

#[test]
fn parse_line_directly() {
    let t = tplan::codec::parse_line(&cs("  x   water plants  "));
    assert!(t.completed);
    assert_eq!(t.summary, cs("water plants"));
    let p = tplan::codec::parse_line(&cs("   just a note"));
    assert!(!p.completed);
    assert_eq!(p.summary, cs("just a note"));
}

#[test]
fn format_line_directly() {
    assert_eq!(tplan::codec::format_line(&task("done", true)), cs("x done"));
    assert_eq!(tplan::codec::format_line(&task("todo", false)), cs("  todo"));
}

#[test]
fn trim_chars_directly() {
    assert_eq!(tplan::codec::trim_chars(&cs("\t  mixed \u{a0}ws \r\n")), cs("mixed \u{a0}ws"));
    assert_eq!(tplan::codec::trim_chars(&cs("   ")), cs(""));
}
