use core_storage::cli::commands::{list, table_result, ListQuery};
use core_storage::cli::parser::{is_global, parse};
use core_storage::cli::registry::{execute, registry_commands, usage, Execution, Handler, HELP_TEXT};
use core_storage::cli::render::{render_list, render_table, sort_rows};
use core_storage::cli::result::CommandResult;
use core_storage::console::command as console;
use core_storage::console::format::{handle as format_handle, outcome as format_outcome};
use core_storage::console::list::{handle as list_handle, outcome as list_outcome, ListRequest};

fn args(words: &[&str]) -> Vec<String> {
    words.iter().map(|w| w.to_string()).collect()
}

#[test]
fn parse_splits_params_options_and_globals() {
    let ctx = parse(&args(&["format", "sdb", "--forced", "--mode=zero", "--sort", "x", "--a=b=c"])).unwrap();
    assert_eq!(ctx.command, "format");
    assert_eq!(ctx.params, args(&["sdb", "x"]));
    assert_eq!(ctx.global_options, args(&["sort"]));
    assert!(ctx.has_option("forced"));
    assert_eq!(ctx.option("forced"), None);
    assert_eq!(ctx.option("mode"), Some("zero"));
    assert_eq!(ctx.option("a"), Some("b=c"));
    assert!(!ctx.has_option("sort"));
    assert_eq!(ctx.prm(0), Some("sdb".to_string()));
    assert_eq!(ctx.prm(2), None);
    assert_eq!(ctx.prm_count(), 2);
}

#[test]
fn parse_empty_command_line() {
    assert!(parse(&[]).is_none());
}

#[test]
fn later_option_replaces_earlier() {
    let ctx = parse(&args(&["list", "--disk=a", "--disk"])).unwrap();
    assert!(ctx.has_option("disk"));
    assert_eq!(ctx.option("disk"), None);
    let ctx = parse(&args(&["list", "--disk", "--disk=b"])).unwrap();
    assert_eq!(ctx.option("disk"), Some("b"));
}

#[test]
fn global_flags() {
    for g in ["pretty", "verbose", "color", "sort"] {
        assert!(is_global(g));
    }
    assert!(!is_global("disk"));
}

#[test]
fn execute_refuses_unknown_command() {
    let ctx = parse(&args(&["remove"])).unwrap();
    match execute(ctx) {
        Execution::Done(CommandResult::Error(m)) => assert_eq!(m, "Unknown command 'remove'"),
        _ => panic!(),
    }
}

#[test]
fn execute_checks_parameter_count() {
    match execute(parse(&args(&["format"])).unwrap()) {
        Execution::Done(CommandResult::Error(m)) => assert_eq!(m, "Usage: 'corestorage format <arg>'"),
        _ => panic!(),
    }
    match execute(parse(&args(&["list", "x"])).unwrap()) {
        Execution::Done(CommandResult::Error(m)) => assert_eq!(m, "Usage: 'corestorage list'"),
        _ => panic!(),
    }
    match execute(parse(&args(&["format", "sdb", "zero"])).unwrap()) {
        Execution::Run(h, ctx) => {
            assert_eq!(h, Handler::Format);
            assert_eq!(ctx.prm_count(), 2);
        }
        _ => panic!(),
    }
    match execute(parse(&args(&["list", "--disk"])).unwrap()) {
        Execution::Run(h, _) => assert_eq!(h, Handler::List),
        _ => panic!(),
    }
}

#[test]
fn registry_and_usage() {
    let cmds = registry_commands();
    assert_eq!(cmds.len(), 2);
    assert_eq!(usage(&cmds[0]), "Usage: 'corestorage list'");
    assert_eq!(usage(&cmds[1]), "Usage: 'corestorage format <arg>'");
    assert!(HELP_TEXT.starts_with("corestorage - V1"));
}

#[test]
fn list_command_choice() {
    assert_eq!(list(&parse(&args(&["list", "--disk"])).unwrap()), ListQuery::Disks);
    assert_eq!(list(&parse(&args(&["list"])).unwrap()), ListQuery::Storage);
    assert!(matches!(table_result(Err("boom".to_string())), CommandResult::Error(m) if m == "boom"));
    assert!(matches!(table_result(Ok(vec![])), CommandResult::Table(t) if t.is_empty()));
}

fn row(cells: &[&str]) -> Vec<String> {
    args(cells)
}

#[test]
fn sort_rows_is_stable_by_first_cell() {
    let rows = vec![row(&["b", "1"]), row(&["a", "2"]), row(&[]), row(&["b", "3"]), row(&["B", "4"])];
    let sorted = sort_rows(rows);
    assert_eq!(sorted, vec![row(&[]), row(&["B", "4"]), row(&["a", "2"]), row(&["b", "1"]), row(&["b", "3"])]);
}

#[test]
fn render_table_pads_columns() {
    let rows = vec![row(&["NAME", "SIZE"]), row(&["sdb", "1.00 KB"]), row(&["a", "2"])];
    let lines = render_table(rows.clone(), false);
    assert_eq!(lines, vec!["NAME  SIZE     ", "sdb   1.00 KB  ", "a     2        "]);
    let sorted = render_table(rows, true);
    assert_eq!(sorted, vec!["NAME  SIZE     ", "a     2        ", "sdb   1.00 KB  "]);
}

#[test]
fn render_table_counts_bytes_for_width() {
    let rows = vec![row(&["é", "x"]), row(&["ab", "y"])];
    // width of the first column is 2 bytes; "é" is one character, padded by one space
    assert_eq!(render_table(rows, false), vec!["é   x  ", "ab  y  "]);
}

#[test]
fn render_list_sorts_when_asked() {
    let items = args(&["b", "a", "c"]);
    assert_eq!(render_list(items.clone(), false), items);
    assert_eq!(render_list(items, true), args(&["a", "b", "c"]));
}

#[test]
fn console_context_and_requests() {
    let ctx = console::parse(&args(&["format", "sdb", "--zero", "--forced"])).unwrap();
    assert_eq!(ctx.option("zero"), None);
    let req = format_handle(&ctx);
    assert_eq!(req.name, "sdb");
    assert!(req.zero_mode && req.forced);
    assert!(matches!(format_outcome(Ok(())), console::Result::Text(t) if t == "Formatted success"));
    assert!(matches!(format_outcome(Err("x".into())), console::Result::Error(t) if t == "x"));
    let ctx = console::parse(&args(&["list", "--segment=7", "--valid"])).unwrap();
    match list_handle(&ctx) {
        ListRequest::Segments { filter, valid } => {
            assert_eq!(filter, Some("7".to_string()));
            assert!(valid);
        }
        _ => panic!(),
    }
    let ctx = console::parse(&args(&["list", "--disk", "--segment"])).unwrap();
    assert!(matches!(list_handle(&ctx), ListRequest::PhysicalDisks));
    let ctx = console::parse(&args(&["list"])).unwrap();
    assert!(matches!(list_handle(&ctx), ListRequest::Storage { valid: false }));
    assert!(matches!(list_outcome(Ok(vec![])), console::Result::Table(_)));
    assert_eq!(ctx.prm(0), None);
    assert_eq!(ctx.prm_count(), 0);
}
