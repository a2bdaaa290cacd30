//! From a document to its finished statements, and from statements to the
//! lines of the output script.
use vstd::prelude::*;
use crate::dialect::{signature, writes_ids, Dialect, Mode};
use crate::event::{events_view, read_events, xml_events, Event, EventView};
use crate::normalize::{normalize, normalized};
use crate::parse::{initial, parse_events, run, RawView, XmlParsedState};
use crate::resolve::{resolve, resolved, FragmentView};
use crate::text::{is_match, regex_found};

verus! {

/// A finished statement: kind, id and normalized text.
pub struct SqlStatement {
    pub mode: Mode,
    pub id: String,
    pub sql: String,
}

/// `(mode, id, sql)`.
pub type StatementView = (Mode, Seq<char>, Seq<char>);

impl View for SqlStatement {
    type V = StatementView;

    open spec fn view(&self) -> StatementView {
        (self.mode, self.id@, self.sql@)
    }
}

impl SqlStatement {
    pub fn new(mode: Mode, id: String, sql: String) -> (r: SqlStatement)
        ensures
            r@ == (mode, id@, sql@),
    {
        SqlStatement { mode, id, sql }
    }
}

pub open spec fn statements_view(v: Seq<SqlStatement>) -> Seq<StatementView> {
    v.map_values(|s: SqlStatement| s@)
}

/// A raw statement resolved against the file's table and normalized.
pub open spec fn finished(d: Dialect, tbl: Seq<FragmentView>, raw: RawView) -> StatementView {
    (raw.0, raw.1, normalized(d, resolved(tbl, raw.2)))
}

/// Every captured statement, finished against the final fragment table.
pub open spec fn finish_all(d: Dialect, tbl: Seq<FragmentView>, raws: Seq<RawView>) -> Seq<
    StatementView,
> {
    raws.map_values(|r: RawView| finished(d, tbl, r))
}

/// The finished statements of a document's events: all events are consumed
/// before any marker is resolved.
pub open spec fn extracted(d: Dialect, es: Seq<EventView>) -> Seq<StatementView> {
    let s = run(d, initial(), es);
    finish_all(d, s.fragments, s.statements)
}

/// Resolves and normalizes each captured statement of `state`, in order.
pub fn replace_and_fill(d: Dialect, state: &XmlParsedState) -> (r: Vec<SqlStatement>)
    ensures
        statements_view(r@) == finish_all(d, state@.fragments, state@.statements),
{
    let ghost want = finish_all(d, state@.fragments, state@.statements);
    let mut out: Vec<SqlStatement> = Vec::new();
    let mut k: usize = 0;
    while k < state.statements.len()
        invariant
            k <= state@.statements.len(),
            want == finish_all(d, state@.fragments, state@.statements),
            statements_view(out@) == want.take(k as int),
        decreases state@.statements.len() - k,
    {
        let raw = &state.statements[k];
        let text = resolve(&state.fragments, &raw.pieces);
        let sql = normalize(d, text.as_str());
        let ghost before = out@;
        out.push(SqlStatement::new(raw.mode, raw.id.clone(), sql));
        assert(state@.statements[k as int] == raw@);
        assert(statements_view(out@) =~= want.take(k + 1)) by {
            assert(statements_view(out@) =~= statements_view(before).push(out@.last()@));
        }
        k = k + 1;
    }
    assert(want.take(k as int) =~= want);
    out
}

/// The finished statements of a document given as events.
pub fn extract_events(d: Dialect, events: &Vec<Event>) -> (r: Vec<SqlStatement>)
    ensures
        statements_view(r@) == extracted(d, events_view(events@)),
{
    let state = parse_events(d, events);
    replace_and_fill(d, &state)
}

/// The finished statements of a document; a malformed document yields what
/// was captured before the error.
pub fn extract(d: Dialect, doc: &str) -> (r: Vec<SqlStatement>)
    ensures
        statements_view(r@) == extracted(d, xml_events(doc@)),
{
    let events = read_events(doc);
    extract_events(d, &events)
}

/// Whether `content` carries the dialect's signature.
pub fn detect_match(d: Dialect, content: &str) -> (r: bool)
    ensures
        r == (regex_found(signature(d), content@) == Some(true)),
{
    match is_match(d.signature(), content) {
        Some(b) => b,
        None => false,
    }
}

/// Output lines of a file's statements.
pub open spec fn statement_lines(d: Dialect, stmts: Seq<StatementView>) -> Seq<Seq<char>>
    decreases stmts.len(),
{
    if stmts.len() == 0 {
        Seq::empty()
    } else {
        let s = stmts.last();
        let body = seq![s.2 + ";"@];
        statement_lines(d, stmts.drop_last()) + if writes_ids(d) {
            seq!["--- "@ + s.1] + body
        } else {
            body
        }
    }
}

/// Output lines of one file: a path comment, its statements, a blank line.
pub open spec fn file_lines(d: Dialect, path: Seq<char>, stmts: Seq<StatementView>) -> Seq<
    Seq<char>,
> {
    seq!["-- "@ + path] + statement_lines(d, stmts) + seq![Seq::empty()]
}

/// The script text of a sequence of lines, each ended by a line feed.
pub open spec fn script(lines: Seq<Seq<char>>) -> Seq<char>
    decreases lines.len(),
{
    if lines.len() == 0 {
        Seq::empty()
    } else {
        script(lines.drop_last()) + lines.last() + "\n"@
    }
}

pub open spec fn strings_view(v: Seq<String>) -> Seq<Seq<char>> {
    v.map_values(|s: String| s@)
}

/// Appends the output lines of one file's statements to `lines`.
pub fn push_file_lines(d: Dialect, path: &str, stmts: &Vec<SqlStatement>, lines: &mut Vec<String>)
    ensures
        strings_view(final(lines)@) == strings_view(old(lines)@) + file_lines(
            d,
            path@,
            statements_view(stmts@),
        ),
{
    let ghost l0 = strings_view(lines@);
    let ghost sv = statements_view(stmts@);
    let mut head = String::from_str("-- ");
    head.append(path);
    lines.push(head);
    let mut k: usize = 0;
    assert(sv.take(0) =~= Seq::<StatementView>::empty());
    assert(strings_view(lines@) =~= l0 + seq!["-- "@ + path@] + statement_lines(d, sv.take(0)));
    while k < stmts.len()
        invariant
            k <= stmts@.len(),
            sv == statements_view(stmts@),
            strings_view(lines@) == l0 + seq!["-- "@ + path@] + statement_lines(d, sv.take(k as int)),
        decreases stmts@.len() - k,
    {
        let ghost before = strings_view(lines@);
        let s = &stmts[k];
        assert(sv.take(k + 1).drop_last() =~= sv.take(k as int));
        assert(sv.take(k + 1).last() == s@);
        let ghost body_line = s@.2 + ";"@;
        let ghost tail = if writes_ids(d) {
            seq!["--- "@ + s@.1] + seq![body_line]
        } else {
            seq![body_line]
        };
        assert(statement_lines(d, sv.take(k + 1)) == statement_lines(d, sv.take(k as int)) + tail);
        if d.writes_ids() {
            let mut id_line = String::from_str("--- ");
            id_line.append(s.id.as_str());
            lines.push(id_line);
        }
        let mut body = s.sql.clone();
        body.append(";");
        lines.push(body);
        assert(strings_view(lines@) =~= before + tail);
        assert(strings_view(lines@) =~= l0 + seq!["-- "@ + path@] + statement_lines(d, sv.take(k + 1)));
        k = k + 1;
    }
    assert(sv.take(k as int) =~= sv);
    let ghost before = strings_view(lines@);
    lines.push(String::new());
    assert(strings_view(lines@) =~= before.push(Seq::<char>::empty()));
    assert(strings_view(lines@) =~= l0 + file_lines(d, path@, sv));
}

/// The script text of `lines`.
pub fn render_script(lines: &Vec<String>) -> (r: String)
    ensures
        r@ == script(strings_view(lines@)),
{
    let ghost lv = strings_view(lines@);
    let mut out = String::new();
    let mut k: usize = 0;
    assert(lv.take(0) =~= Seq::<Seq<char>>::empty());
    while k < lines.len()
        invariant
            k <= lines@.len(),
            lv == strings_view(lines@),
            out@ == script(lv.take(k as int)),
        decreases lines@.len() - k,
    {
        assert(lv.take(k + 1).drop_last() =~= lv.take(k as int));
        out.append(lines[k].as_str());
        out.append("\n");
        k = k + 1;
    }
    assert(lv.take(k as int) =~= lv);
    out
}

/// Output lines of a batch of `(path, content)` documents, in the given
/// order; documents without the dialect's signature contribute nothing.
pub open spec fn documents_lines(d: Dialect, docs: Seq<(Seq<char>, Seq<char>)>) -> Seq<Seq<char>>
    decreases docs.len(),
{
    if docs.len() == 0 {
        Seq::empty()
    } else {
        let (path, content) = docs.last();
        documents_lines(d, docs.drop_last()) + if regex_found(signature(d), content) == Some(
            true,
        ) {
            file_lines(d, path, extracted(d, xml_events(content)))
        } else {
            Seq::empty()
        }
    }
}

pub open spec fn documents_view(v: Seq<(String, String)>) -> Seq<(Seq<char>, Seq<char>)> {
    v.map_values(|p: (String, String)| (p.0@, p.1@))
}

/// The script for a batch of `(path, content)` documents of dialect `d`.
pub fn parse(d: Dialect, docs: &Vec<(String, String)>) -> (r: String)
    ensures
        r@ == script(documents_lines(d, documents_view(docs@))),
{
    let ghost dv = documents_view(docs@);
    let mut lines: Vec<String> = Vec::new();
    let mut k: usize = 0;
    assert(dv.take(0) =~= Seq::<(Seq<char>, Seq<char>)>::empty());
    while k < docs.len()
        invariant
            k <= docs@.len(),
            dv == documents_view(docs@),
            strings_view(lines@) == documents_lines(d, dv.take(k as int)),
        decreases docs@.len() - k,
    {
        assert(dv.take(k + 1).drop_last() =~= dv.take(k as int));
        assert(dv.take(k + 1).last() == (docs@[k as int].0@, docs@[k as int].1@));
        let path = docs[k].0.as_str();
        let content = docs[k].1.as_str();
        let ghost before = strings_view(lines@);
        if detect_match(d, content) {
            let stmts = extract(d, content);
            push_file_lines(d, path, &stmts, &mut lines);
        } else {
            assert(before + Seq::<Seq<char>>::empty() =~= before);
        }
        k = k + 1;
    }
    assert(dv.take(k as int) =~= dv);
    render_script(&lines)
}

} // verus!
