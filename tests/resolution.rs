use xbatis2sql::dialect::{Dialect, Mode};
use xbatis2sql::event::{Attribute, Event};
use xbatis2sql::extract::extract_events;
use xbatis2sql::parse::{parse_events, Capture, XmlParsedState};
use xbatis2sql::resolve::{define_fragment, find_fragment, resolve, Fragment, Piece};

fn text(s: &str) -> Piece {
    Piece { is_include: false, text: s.to_string() }
}

fn marker(s: &str) -> Piece {
    Piece { is_include: true, text: s.to_string() }
}

fn start(name: &str, attrs: &[(&str, &str)]) -> Event {
    Event::Start {
        name: name.to_string(),
        attributes: attrs
            .iter()
            .map(|(n, v)| Attribute { name: n.to_string(), value: v.to_string() })
            .collect(),
    }
}

fn end(name: &str) -> Event {
    Event::End { name: name.to_string() }
}

fn chars(s: &str) -> Event {
    Event::Text { text: s.to_string() }
}

#[test]
fn plain_text_resolves_to_itself() {
    let tbl = vec![Fragment { name: "cols".to_string(), body: vec![text("a, b")] }];
    let raw = vec![text("SELECT 1 "), text("FROM t")];
    assert_eq!(resolve(&tbl, &raw), "SELECT 1 FROM t");
    assert_eq!(resolve(&Vec::new(), &Vec::new()), "");
}

#[test]
fn nested_fragments_expand_transitively() {
    let tbl = vec![
        Fragment { name: "cols".to_string(), body: vec![text("a, "), marker("more")] },
        Fragment { name: "more".to_string(), body: vec![text("b")] },
    ];
    let raw = vec![text("SELECT "), marker("cols"), text(" FROM t")];
    assert_eq!(resolve(&tbl, &raw), "SELECT a, b FROM t");
}

#[test]
fn mutual_inclusion_terminates_with_tag() {
    let tbl = vec![
        Fragment { name: "a".to_string(), body: vec![marker("b")] },
        Fragment { name: "b".to_string(), body: vec![marker("a")] },
    ];
    assert_eq!(resolve(&tbl, &vec![marker("a")]), "/* cyclic include: a */");
    assert_eq!(resolve(&tbl, &vec![marker("b")]), "/* cyclic include: b */");
}

#[test]
fn self_inclusion_terminates_with_tag() {
    let tbl = vec![Fragment { name: "a".to_string(), body: vec![text("x "), marker("a")] }];
    assert_eq!(resolve(&tbl, &vec![marker("a")]), "x /* cyclic include: a */");
}

#[test]
fn missing_fragment_leaves_tag() {
    let raw = vec![text("SELECT "), marker("nope")];
    assert_eq!(resolve(&Vec::new(), &raw), "SELECT /* missing include: nope */");
}

#[test]
fn later_definition_overwrites() {
    let mut tbl: Vec<Fragment> = Vec::new();
    define_fragment(&mut tbl, "cols".to_string(), vec![text("first")]);
    define_fragment(&mut tbl, "other".to_string(), vec![text("o")]);
    define_fragment(&mut tbl, "cols".to_string(), vec![text("second")]);
    assert_eq!(tbl.len(), 2);
    assert_eq!(find_fragment(&tbl, &"cols".to_string()), Some(0));
    assert_eq!(find_fragment(&tbl, &"zzz".to_string()), None);
    assert_eq!(resolve(&tbl, &vec![marker("cols")]), "second");
}

#[test]
fn state_machine_captures_statements_and_fragments() {
    let events = vec![
        start("mapper", &[]),
        chars("ignored"),
        start("select", &[("id", "q")]),
        chars("SELECT "),
        start("include", &[("refid", "cols")]),
        end("include"),
        chars(" FROM t "),
        start("where", &[]),
        chars("AND a = 1"),
        end("where"),
        end("select"),
        start("sql", &[("id", "cols")]),
        chars("a, b"),
        end("sql"),
        end("mapper"),
    ];
    let state = parse_events(Dialect::MyBatis, &events);
    assert_eq!(state.capture, Capture::Idle);
    assert_eq!(state.statements.len(), 1);
    assert_eq!(state.statements[0].mode, Mode::Select);
    assert_eq!(state.statements[0].id, "q");
    assert_eq!(state.statements[0].pieces.len(), 5);
    assert!(state.statements[0].pieces[1].is_include);
    assert_eq!(state.statements[0].pieces[3].text, "where ");
    assert_eq!(state.fragments.len(), 1);
    assert_eq!(state.fragments[0].name, "cols");
}

#[test]
fn prepend_attributes_are_spliced_in_ibatis() {
    let events = vec![
        start("select", &[("id", "q")]),
        chars("select * from t"),
        start("dynamic", &[("prepend", "where")]),
        start("isNotNull", &[("prepend", "and"), ("property", "a")]),
        chars("a = #a#"),
        end("isNotNull"),
        end("dynamic"),
        end("select"),
    ];
    let out = extract_events(Dialect::IBatis, &events);
    assert_eq!(out.len(), 1);
    assert_eq!(out[0].sql, "SELECT * FROM T WHERE A = :?");
}

#[test]
fn forward_reference_is_resolved() {
    let events = vec![
        start("select", &[("id", "first")]),
        chars("SELECT 1"),
        end("select"),
        start("select", &[("id", "second")]),
        chars("SELECT "),
        start("include", &[("refid", "cols")]),
        end("include"),
        chars(" FROM t"),
        end("select"),
        start("sql", &[("id", "cols")]),
        chars("a, b"),
        end("sql"),
    ];
    let out = extract_events(Dialect::MyBatis, &events);
    assert_eq!(out.len(), 2);
    assert_eq!(out[0].id, "first");
    assert_eq!(out[0].sql, "SELECT 1");
    assert_eq!(out[1].id, "second");
    assert_eq!(out[1].sql, "SELECT a, b FROM t");
}

#[test]
fn duplicate_fragment_uses_last_definition() {
    let events = vec![
        start("sql", &[("id", "cols")]),
        chars("old_col"),
        end("sql"),
        start("select", &[("id", "q")]),
        chars("SELECT "),
        start("include", &[("refid", "cols")]),
        end("include"),
        end("select"),
        start("sql", &[("id", "cols")]),
        chars("new_col"),
        end("sql"),
    ];
    let out = extract_events(Dialect::MyBatis, &events);
    assert_eq!(out.len(), 1);
    assert_eq!(out[0].sql, "SELECT new_col");
}

#[test]
fn malformed_event_keeps_earlier_statements() {
    let events = vec![
        start("select", &[("id", "a")]),
        chars("SELECT 1"),
        end("select"),
        Event::Malformed,
        start("select", &[("id", "b")]),
        chars("SELECT 2"),
        end("select"),
    ];
    let out = extract_events(Dialect::MyBatis, &events);
    assert_eq!(out.len(), 1);
    assert_eq!(out[0].id, "a");
}

#[test]
fn upper_case_element_names_match() {
    let mut state = XmlParsedState::new();
    state.parse_start_element(Dialect::MyBatis, "SELECT", &vec![]);
    assert_eq!(state.capture, Capture::Statement);
    assert_eq!(state.mode, Mode::Select);
    assert_eq!(state.current_id, "");
    state.parse_text(&"x".to_string());
    state.parse_end_element("Select");
    assert_eq!(state.capture, Capture::Idle);
    assert_eq!(state.statements.len(), 1);
}

#[test]
fn mode_from_names() {
    assert_eq!(Mode::from("statement"), Mode::Statement);
    assert_eq!(Mode::from("select"), Mode::Select);
    assert_eq!(Mode::from("insert"), Mode::Insert);
    assert_eq!(Mode::from("update"), Mode::Update);
    assert_eq!(Mode::from("delete"), Mode::Delete);
    assert_eq!(Mode::from("sql"), Mode::SqlPart);
}
