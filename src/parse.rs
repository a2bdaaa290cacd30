//! The structural state machine that captures raw statements and fragments
//! from a document's events.
use vstd::prelude::*;
use crate::dialect::{
    is_statement_name, mode_of, mode_of_name, uses_keyword_elements, uses_prepend, Dialect, Mode,
};
use crate::event::{events_view, Attribute, Event, EventView};
use crate::resolve::{
    define, define_fragment, fragments_view, pieces_view, Fragment, FragmentView, Piece, PieceView,
};
use crate::text::{ascii_lower, same_text, to_lower};

verus! {

/// Which buffer text goes to.
#[derive(PartialEq, Eq, Structural, Clone, Copy, Debug)]
pub enum Capture {
    Idle,
    Statement,
    Fragment,
}

/// A statement as captured: its text may still hold include markers.
pub struct RawStatement {
    pub mode: Mode,
    pub id: String,
    pub pieces: Vec<Piece>,
}

/// `(mode, id, pieces)`.
pub type RawView = (Mode, Seq<char>, Seq<PieceView>);

impl View for RawStatement {
    type V = RawView;

    open spec fn view(&self) -> RawView {
        (self.mode, self.id@, pieces_view(self.pieces@))
    }
}

pub open spec fn raws_view(v: Seq<RawStatement>) -> Seq<RawView> {
    v.map_values(|s: RawStatement| s@)
}

/// Parse state of one document.
pub struct XmlParsedState {
    pub capture: Capture,
    /// Mode of the element being captured.
    pub mode: Mode,
    /// `id` attribute of the element being captured (empty where absent).
    pub current_id: String,
    pub buffer: Vec<Piece>,
    /// Statements captured so far, in document order.
    pub statements: Vec<RawStatement>,
    /// Fragment table: names are unique, the last definition wins.
    pub fragments: Vec<Fragment>,
}

pub struct ParseView {
    pub capture: Capture,
    pub mode: Mode,
    pub id: Seq<char>,
    pub buffer: Seq<PieceView>,
    pub statements: Seq<RawView>,
    pub fragments: Seq<FragmentView>,
}

impl View for XmlParsedState {
    type V = ParseView;

    open spec fn view(&self) -> ParseView {
        ParseView {
            capture: self.capture,
            mode: self.mode,
            id: self.current_id@,
            buffer: pieces_view(self.buffer@),
            statements: raws_view(self.statements@),
            fragments: fragments_view(self.fragments@),
        }
    }
}

pub open spec fn initial() -> ParseView {
    ParseView {
        capture: Capture::Idle,
        mode: Mode::Statement,
        id: Seq::empty(),
        buffer: Seq::empty(),
        statements: Seq::empty(),
        fragments: Seq::empty(),
    }
}

/// Value of the first attribute named `key`.
pub open spec fn attr(attrs: Seq<(Seq<char>, Seq<char>)>, key: Seq<char>) -> Option<Seq<char>>
    decreases attrs.len(),
{
    if attrs.len() == 0 {
        None
    } else if attrs[0].0 == key {
        Some(attrs[0].1)
    } else {
        attr(attrs.drop_first(), key)
    }
}

pub open spec fn with_piece(s: ParseView, p: PieceView) -> ParseView {
    ParseView { buffer: s.buffer.push(p), ..s }
}

/// Back to idle, with an empty buffer and no id.
pub open spec fn idle(s: ParseView) -> ParseView {
    ParseView { capture: Capture::Idle, id: Seq::empty(), buffer: Seq::empty(), ..s }
}

/// Effect of an element start with lower-case name `n`.
pub open spec fn start_step(
    d: Dialect,
    s: ParseView,
    n: Seq<char>,
    attrs: Seq<(Seq<char>, Seq<char>)>,
) -> ParseView {
    if s.capture == Capture::Idle {
        match mode_of(n) {
            Some(m) => ParseView {
                capture: if m == Mode::SqlPart {
                    Capture::Fragment
                } else {
                    Capture::Statement
                },
                mode: m,
                id: match attr(attrs, "id"@) {
                    Some(v) => v,
                    None => Seq::empty(),
                },
                buffer: Seq::empty(),
                ..s
            },
            None => s,
        }
    } else if n == "include"@ {
        match attr(attrs, "refid"@) {
            Some(r) => with_piece(s, (true, r)),
            None => s,
        }
    } else if uses_keyword_elements(d) && n == "where"@ {
        with_piece(s, (false, "where "@))
    } else if uses_keyword_elements(d) && n == "set"@ {
        with_piece(s, (false, "set "@))
    } else if uses_prepend(d) {
        match attr(attrs, "prepend"@) {
            Some(v) => with_piece(s, (false, " "@ + v + " "@)),
            None => s,
        }
    } else {
        s
    }
}

/// Effect of an element end with lower-case name `n`.
pub open spec fn end_step(s: ParseView, n: Seq<char>) -> ParseView {
    if s.capture == Capture::Statement && is_statement_name(n) {
        idle(ParseView { statements: s.statements.push((s.mode, s.id, s.buffer)), ..s })
    } else if s.capture == Capture::Fragment && n == "sql"@ {
        idle(ParseView { fragments: define(s.fragments, s.id, s.buffer), ..s })
    } else {
        s
    }
}

/// Effect of one event.
pub open spec fn step(d: Dialect, s: ParseView, e: EventView) -> ParseView {
    match e {
        EventView::Start { name, attributes } => start_step(d, s, ascii_lower(name), attributes),
        EventView::End { name } => end_step(s, ascii_lower(name)),
        EventView::Text { text } => if s.capture != Capture::Idle {
            with_piece(s, (false, text))
        } else {
            s
        },
        _ => s,
    }
}

/// State after consuming `es` from `s`; consumption stops at a malformed event.
pub open spec fn run(d: Dialect, s: ParseView, es: Seq<EventView>) -> ParseView
    decreases es.len(),
{
    if es.len() == 0 {
        s
    } else if es[0] is Malformed {
        s
    } else {
        run(d, step(d, s, es[0]), es.drop_first())
    }
}

/// Exec form of `attr`.
pub fn find_attr(attrs: &Vec<Attribute>, key: &str) -> (r: Option<String>)
    ensures
        match r {
            Some(v) => attr(attrs@.map_values(|a: Attribute| a@), key@) == Some(v@),
            None => attr(attrs@.map_values(|a: Attribute| a@), key@) is None,
        },
{
    let ghost av = attrs@.map_values(|a: Attribute| a@);
    let mut k: usize = 0;
    assert(av.skip(0) =~= av);
    while k < attrs.len()
        invariant
            k <= attrs@.len(),
            av == attrs@.map_values(|a: Attribute| a@),
            attr(av, key@) == attr(av.skip(k as int), key@),
        decreases attrs@.len() - k,
    {
        assert(av.skip(k as int).drop_first() =~= av.skip(k + 1));
        assert(av.skip(k as int)[0] == attrs@[k as int]@);
        if same_text(attrs[k].name.as_str(), key) {
            return Some(attrs[k].value.clone());
        }
        k = k + 1;
    }
    None
}

impl XmlParsedState {
    /// An idle state with nothing captured.
    pub fn new() -> (r: XmlParsedState)
        ensures
            r@ == initial(),
    {
        let r = XmlParsedState {
            capture: Capture::Idle,
            mode: Mode::Statement,
            current_id: String::new(),
            buffer: Vec::new(),
            statements: Vec::new(),
            fragments: Vec::new(),
        };
        assert(r@.buffer =~= Seq::<PieceView>::empty());
        assert(r@.statements =~= Seq::<RawView>::empty());
        assert(r@.fragments =~= Seq::<FragmentView>::empty());
        r
    }

    fn push_piece(&mut self, is_include: bool, text: String)
        ensures
            final(self)@ == with_piece(old(self)@, (is_include, text@)),
    {
        let ghost b = self@.buffer;
        self.buffer.push(Piece { is_include, text });
        assert(self@.buffer =~= b.push((is_include, text@)));
    }

    /// Takes the buffer and the id out, leaving the state idle.
    fn take_capture(&mut self) -> (r: (String, Vec<Piece>))
        ensures
            final(self)@ == idle(old(self)@),
            r.0@ == old(self)@.id,
            pieces_view(r.1@) == old(self)@.buffer,
    {
        let mut id = String::new();
        let mut buffer: Vec<Piece> = Vec::new();
        std::mem::swap(&mut id, &mut self.current_id);
        std::mem::swap(&mut buffer, &mut self.buffer);
        self.capture = Capture::Idle;
        assert(self@.buffer =~= Seq::<PieceView>::empty());
        (id, buffer)
    }

    /// Handles the start of an element.
    pub fn parse_start_element(&mut self, d: Dialect, name: &str, attrs: &Vec<Attribute>)
        ensures
            final(self)@ == start_step(
                d,
                old(self)@,
                ascii_lower(name@),
                attrs@.map_values(|a: Attribute| a@),
            ),
    {
        let n = to_lower(name);
        let n = n.as_str();
        if self.capture == Capture::Idle {
            match mode_of_name(n) {
                Some(m) => {
                    self.capture = if m == Mode::SqlPart {
                        Capture::Fragment
                    } else {
                        Capture::Statement
                    };
                    self.mode = m;
                    self.current_id = match find_attr(attrs, "id") {
                        Some(v) => v,
                        None => String::new(),
                    };
                    self.buffer = Vec::new();
                    assert(self@.buffer =~= Seq::<PieceView>::empty());
                },
                None => {},
            }
        } else if same_text(n, "include") {
            match find_attr(attrs, "refid") {
                Some(r) => self.push_piece(true, r),
                None => {},
            }
        } else if d.uses_keyword_elements() && same_text(n, "where") {
            self.push_piece(false, String::from_str("where "));
        } else if d.uses_keyword_elements() && same_text(n, "set") {
            self.push_piece(false, String::from_str("set "));
        } else if d.uses_prepend() {
            match find_attr(attrs, "prepend") {
                Some(v) => {
                    let mut t = String::from_str(" ");
                    t.append(v.as_str());
                    t.append(" ");
                    self.push_piece(false, t);
                },
                None => {},
            }
        }
    }

    /// Handles the end of an element.
    pub fn parse_end_element(&mut self, name: &str)
        ensures
            final(self)@ == end_step(old(self)@, ascii_lower(name@)),
    {
        let n = to_lower(name);
        let m = mode_of_name(n.as_str());
        let ends_statement = match m {
            Some(Mode::SqlPart) => false,
            Some(_) => true,
            None => false,
        };
        if self.capture == Capture::Statement && ends_statement {
            let ghost s0 = self@;
            let mode = self.mode;
            let (id, pieces) = self.take_capture();
            self.statements.push(RawStatement { mode, id, pieces });
            assert(self@.statements =~= s0.statements.push((s0.mode, s0.id, s0.buffer)));
        } else if self.capture == Capture::Fragment && same_text(n.as_str(), "sql") {
            let (id, pieces) = self.take_capture();
            define_fragment(&mut self.fragments, id, pieces);
        }
    }

    /// Handles text: it goes to the active buffer, and is dropped when idle.
    pub fn parse_text(&mut self, text: &String)
        ensures
            final(self)@ == if old(self)@.capture != Capture::Idle {
                with_piece(old(self)@, (false, text@))
            } else {
                old(self)@
            },
    {
        if self.capture != Capture::Idle {
            self.push_piece(false, text.clone());
        }
    }

    /// Consumes one event.
    pub fn consume(&mut self, d: Dialect, e: &Event)
        ensures
            final(self)@ == step(d, old(self)@, e@),
    {
        match e {
            Event::Start { name, attributes } => self.parse_start_element(d, name.as_str(), attributes),
            Event::End { name } => self.parse_end_element(name.as_str()),
            Event::Text { text } => self.parse_text(text),
            _ => {},
        }
    }
}

/// Captures the statements and fragments of a document's events, up to the
/// first malformed event.
pub fn parse_events(d: Dialect, events: &Vec<Event>) -> (r: XmlParsedState)
    ensures
        r@ == run(d, initial(), events_view(events@)),
{
    let ghost ev = events_view(events@);
    let mut state = XmlParsedState::new();
    let mut k: usize = 0;
    assert(ev.skip(0) =~= ev);
    while k < events.len()
        invariant
            k <= events@.len(),
            ev == events_view(events@),
            run(d, initial(), ev) == run(d, state@, ev.skip(k as int)),
        decreases events@.len() - k,
    {
        assert(ev.skip(k as int).drop_first() =~= ev.skip(k + 1));
        assert(ev.skip(k as int)[0] == events@[k as int]@);
        match &events[k] {
            Event::Malformed => {
                return state;
            },
            e => {
                state.consume(d, e);
            },
        }
        k = k + 1;
    }
    state
}

} // verus!
