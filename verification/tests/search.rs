use zex::search::{
    case_flag, common_flags, content_search_request, filter_names_literal, finish_name_regex_search,
    is_case_insensitive, name_listing_request, parse_content_matches, rg_error_message,
    rg_unavailable_message, run_content_search, run_name_search, NameSearchStep, ProcessOutput,
    SearchOptions,
};
use zex::search::{SearchOutcome, SearchScope};
use zex::search_panel::{content_results, name_results, SearchPanel, SearchResults, SearchStatus};
use zex::settings::{CaseSensitivity, SearchCliSettings};

fn options(query: &str) -> SearchOptions {
    SearchOptions {
        query: query.to_string(),
        case: CaseSensitivity::Smart,
        regex: false,
        whole_word: false,
        include_hidden: false,
        respect_gitignore: true,
    }
}

fn cli() -> SearchCliSettings {
    SearchCliSettings { binary_path: None, timeout_ms: 5000 }
}

fn output(code: Option<i32>, stdout: &[u8], stderr: &[u8]) -> ProcessOutput {
    ProcessOutput { status_code: code, stdout: stdout.to_vec(), stderr: stderr.to_vec() }
}

#[test]
fn case_flags_and_smart_case() {
    assert_eq!(case_flag(CaseSensitivity::Sensitive), "-s");
    assert_eq!(case_flag(CaseSensitivity::Insensitive), "-i");
    assert_eq!(case_flag(CaseSensitivity::Smart), "-S");
    assert!(is_case_insensitive(CaseSensitivity::Smart, "readme"));
    assert!(!is_case_insensitive(CaseSensitivity::Smart, "README"));
    assert!(is_case_insensitive(CaseSensitivity::Insensitive, "README"));
    assert!(!is_case_insensitive(CaseSensitivity::Sensitive, "readme"));
}

#[test]
fn common_flags_follow_the_options() {
    let mut o = options("x");
    assert_eq!(common_flags(&o), vec!["-S".to_string(), "--fixed-strings".to_string()]);
    o.regex = true;
    o.whole_word = true;
    o.include_hidden = true;
    o.respect_gitignore = false;
    assert_eq!(
        common_flags(&o),
        vec!["-S".to_string(), "--word-regexp".to_string(), "--hidden".to_string(), "--no-ignore".to_string()]
    );
}

#[test]
fn content_request_runs_rg_with_json_output() {
    let req = content_search_request(&options("needle"), &cli()).unwrap();
    assert_eq!(req.binary, "rg");
    assert_eq!(
        req.args,
        vec!["--json", "--line-number", "-S", "--fixed-strings", "--", "needle", "."]
            .into_iter()
            .map(String::from)
            .collect::<Vec<_>>()
    );
    assert_eq!(req.timeout_ms, 5000);
    assert!(content_search_request(&options(""), &cli()).is_none());
}

#[test]
fn content_matches_are_read_from_json_lines() {
    let stdout = [
        r#"{"type":"begin","data":{"path":{"text":"a.txt"}}}"#,
        r#"{"type":"match","data":{"path":{"text":"a.txt"},"lines":{"text":"hello world\n"},"line_number":3,"submatches":[{"match":{"text":"world"},"start":6,"end":11}]}}"#,
        "not json",
        r#"{"type":"match","data":{"path":{"text":"b.txt"},"lines":{"text":"world\r\n"},"line_number":1,"submatches":[]}}"#,
        "",
    ]
    .join("\n");
    let outcome = parse_content_matches("/d", stdout.as_bytes(), 10);
    assert!(!outcome.truncated);
    assert_eq!(outcome.items.len(), 2);
    assert_eq!(outcome.items[0].path, "/d/a.txt");
    assert_eq!(outcome.items[0].line_number, 3);
    assert_eq!(outcome.items[0].line_text, "hello world");
    assert_eq!(outcome.items[0].match_ranges, vec![6..11]);
    assert_eq!(outcome.items[1].line_text, "world");

    let limited = parse_content_matches("/d", stdout.as_bytes(), 1);
    assert!(limited.truncated);
    assert_eq!(limited.items.len(), 1);
}

#[test]
fn content_search_reports_tool_failures() {
    let o = options("x");
    assert_eq!(run_content_search("/d", &o, 10, None).err().unwrap(), rg_unavailable_message());
    assert_eq!(
        run_content_search("/d", &o, 10, Some(output(Some(2), b"", b"  bad regex \n"))).err().unwrap(),
        "bad regex"
    );
    assert_eq!(
        run_content_search("/d", &o, 10, Some(output(None, b"", b""))).err().unwrap(),
        "ripgrep exited with an error"
    );
    let empty = run_content_search("/d", &o, 10, Some(output(Some(1), b"", b""))).ok().unwrap();
    assert!(empty.items.is_empty());
    let nothing = run_content_search("/d", &options(""), 10, None).ok().unwrap();
    assert!(nothing.items.is_empty() && !nothing.truncated);
}

#[test]
fn error_message_is_trimmed_stderr() {
    assert_eq!(rg_error_message(b"\n oops \n"), "oops");
    assert_eq!(rg_error_message(b""), "ripgrep exited with an error");
    assert_eq!(
        rg_unavailable_message(),
        "Couldn't start ripgrep (rg). Make sure it's installed and on your PATH."
    );
}

#[test]
fn literal_name_filter_matches_case_insensitively_by_bytes() {
    let listing = b"src/Main.rs\nREADME.md\n\ndocs/main.txt\n";
    let outcome = filter_names_literal("/p", &options("main"), listing, 10);
    assert_eq!(outcome.items.len(), 2);
    assert_eq!(outcome.items[0].path, "/p/src/Main.rs");
    assert_eq!(outcome.items[0].match_ranges, vec![4..8]);
    assert_eq!(outcome.items[1].path, "/p/docs/main.txt");

    let sensitive = filter_names_literal("/p", &options("Main"), listing, 10);
    assert_eq!(sensitive.items.len(), 1);

    let utf8 = filter_names_literal("/p", &options("b"), "é/ab\n".as_bytes(), 10);
    assert_eq!(utf8.items[0].match_ranges, vec![4..5]);

    let limited = filter_names_literal("/p", &options("main"), listing, 1);
    assert!(limited.truncated);
    assert_eq!(limited.items.len(), 1);
}

#[test]
fn name_search_steps() {
    let listing_req = name_listing_request(&options("x"), &cli()).unwrap();
    assert_eq!(listing_req.args, vec!["--files".to_string(), ".".to_string()]);

    match run_name_search("/p", &options("a"), &cli(), 10, Some(output(Some(0), b"a.rs\nb.rs\n", b""))) {
        NameSearchStep::Done(Ok(o)) => assert_eq!(o.items.len(), 1),
        _ => panic!("expected results"),
    }
    let mut regex = options("a.*");
    regex.regex = true;
    match run_name_search("/p", &regex, &cli(), 10, Some(output(Some(0), b"a.rs\n", b""))) {
        NameSearchStep::Run(req) => {
            assert_eq!(req.stdin, Some(b"a.rs\n".to_vec()));
            assert_eq!(
                req.args,
                vec!["--json", "-S", "--", "a.*", "-"].into_iter().map(String::from).collect::<Vec<_>>()
            );
        }
        _ => panic!("expected a filter run"),
    }
    let filtered = [
        r#"{"type":"match","data":{"lines":{"text":"a.rs\n"},"submatches":[{"start":0,"end":4}]}}"#,
        "",
    ]
    .join("\n");
    let o = finish_name_regex_search("/p", 10, Some(output(Some(0), filtered.as_bytes(), b""))).ok().unwrap();
    assert_eq!(o.items[0].path, "/p/a.rs");
    assert_eq!(o.items[0].match_ranges, vec![0..4]);
    assert!(matches!(
        run_name_search("/p", &options("a"), &cli(), 10, None),
        NameSearchStep::Done(Err(_))
    ));
}

#[test]
fn search_panel_selection_wraps() {
    let mut panel = SearchPanel::new(CaseSensitivity::Smart, false, true);
    assert_eq!(panel.status, SearchStatus::Idle);
    panel.select_next_result();
    assert_eq!(panel.selected_index, None);
    let outcome = filter_names_literal("/p", &options("a"), b"a\nab\nabc\n", 10);
    panel.apply_outcome(Ok((SearchResults::Names(outcome.items), false)));
    assert_eq!(panel.selected_index, Some(0));
    panel.select_prev_result();
    assert_eq!(panel.selected_index, Some(2));
    panel.select_next_result();
    assert_eq!(panel.selected_index, Some(0));
    assert_eq!(panel.selected_path().as_deref(), Some("/p/a"));
    panel.cycle_case();
    assert_eq!(panel.case, CaseSensitivity::Sensitive);
    panel.apply_outcome(Err("boom".to_string()));
    assert_eq!(panel.status, SearchStatus::Error);
    assert_eq!(panel.error.as_deref(), Some("boom"));
    assert!(panel.results.is_empty());
    assert_eq!(panel.selected_index, None);
}

#[test]
fn search_panel_scope_query_and_picking_a_result() {
    let mut panel = SearchPanel::new(CaseSensitivity::Insensitive, true, false);
    assert!(!panel.set_scope(SearchScope::Names));
    assert!(panel.set_scope(SearchScope::Contents));
    assert_eq!(panel.scope, SearchScope::Contents);
    panel.begin_query();
    assert_eq!(panel.status, SearchStatus::Searching);
    assert!(panel.error.is_none());
    let opts = panel.options("needle".to_string());
    assert_eq!(opts.query, "needle");
    assert_eq!(opts.case, CaseSensitivity::Insensitive);
    assert!(opts.include_hidden && !opts.respect_gitignore);

    let found = parse_content_matches(
        "/p",
        br#"{"type":"match","data":{"path":{"text":"a.txt"},"line_number":3,"lines":{"text":"x needle\n"},"submatches":[{"start":2,"end":8}]}}"#,
        10,
    );
    let converted = content_results(Ok(found)).unwrap();
    assert!(!converted.1);
    panel.apply_outcome(Ok(converted));
    assert_eq!(panel.status, SearchStatus::Done);
    assert_eq!(panel.results.len(), 1);
    assert!(panel.select_result(0));
    assert!(!panel.select_result(5));
    assert_eq!(panel.selected_index, Some(0));
    assert_eq!(panel.selected_path().as_deref(), Some("/p/a.txt"));
}

#[test]
fn outcomes_become_panel_results_or_errors() {
    let names = SearchOutcome { items: vec![], truncated: true };
    let r = name_results(Ok(names)).unwrap();
    assert!(r.1);
    assert!(matches!(r.0, SearchResults::Names(ref v) if v.is_empty()));
    assert_eq!(name_results(Err("bad".to_string())).err(), Some("bad".to_string()));
    assert_eq!(content_results(Err("worse".to_string())).err(), Some("worse".to_string()));
}

#[test]
fn match_events_need_their_fields_in_the_expected_shapes() {
    let lines = [
        r#"{"type":"match","data":{"path":{"text":"a.txt"},"line_number":4,"lines":{"text":"abc\n"},"submatches":[{"match":{"text":"b"},"start":1,"end":2},{"start":2}]}}"#,
        r#"{"type":"match","data":{"path":{"text":"b.txt"},"line_number":4.0,"lines":{"text":"x\n"},"submatches":[]}}"#,
        r#"{"type":"match","data":{"path":{"bytes":"Yw=="},"line_number":5,"lines":{"text":"y\n"},"submatches":[]}}"#,
        r#"{"type":"context","data":{"path":{"text":"c.txt"},"line_number":6,"lines":{"text":"z\n"},"submatches":[]}}"#,
        r#"{"type":"match","data":{"path":{"text":"d.txt"},"line_number":7,"lines":{"text":"w\n"},"submatches":{"start":0}}}"#,
        r#"not json"#,
    ];
    let stdout = lines.join("\n");
    let outcome = parse_content_matches("/d", stdout.as_bytes(), 10);
    assert_eq!(outcome.items.len(), 2);
    assert_eq!(outcome.items[0].path, "/d/a.txt");
    assert_eq!(outcome.items[0].line_number, 4);
    assert_eq!(outcome.items[0].line_text, "abc");
    assert_eq!(outcome.items[0].match_ranges, vec![1..2]);
    assert_eq!(outcome.items[1].path, "/d/d.txt");
    assert!(outcome.items[1].match_ranges.is_empty());
}
