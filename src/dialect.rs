//! The two mapper dialects and what sets them apart.
use vstd::prelude::*;
use crate::text::same_text;

verus! {

/// A mapper document format.
#[derive(PartialEq, Eq, Structural, Clone, Copy, Debug)]
pub enum Dialect {
    /// iBATIS SQL Map 2.0.
    IBatis,
    /// MyBatis Mapper 3.0.
    MyBatis,
}

/// The kind of a captured element: a statement kind, or a fragment (`sql`).
#[derive(PartialEq, Eq, Structural, Clone, Copy, Debug)]
pub enum Mode {
    Statement,
    Select,
    Insert,
    Update,
    Delete,
    SqlPart,
}

/// The mode that a lower-case element name denotes, if any.
pub open spec fn mode_of(name: Seq<char>) -> Option<Mode> {
    if name == "statement"@ {
        Some(Mode::Statement)
    } else if name == "select"@ {
        Some(Mode::Select)
    } else if name == "insert"@ {
        Some(Mode::Insert)
    } else if name == "update"@ {
        Some(Mode::Update)
    } else if name == "delete"@ {
        Some(Mode::Delete)
    } else if name == "sql"@ {
        Some(Mode::SqlPart)
    } else {
        None
    }
}

/// Whether a lower-case element name opens or closes a statement.
pub open spec fn is_statement_name(name: Seq<char>) -> bool {
    mode_of(name) is Some && mode_of(name) != Some(Mode::SqlPart)
}

/// Exec form of `mode_of`.
pub fn mode_of_name(name: &str) -> (r: Option<Mode>)
    ensures
        r == mode_of(name@),
{
    if same_text(name, "statement") {
        Some(Mode::Statement)
    } else if same_text(name, "select") {
        Some(Mode::Select)
    } else if same_text(name, "insert") {
        Some(Mode::Insert)
    } else if same_text(name, "update") {
        Some(Mode::Update)
    } else if same_text(name, "delete") {
        Some(Mode::Delete)
    } else if same_text(name, "sql") {
        Some(Mode::SqlPart)
    } else {
        None
    }
}

impl Mode {
    /// The mode of a lower-case element name.
    pub fn from(name: &str) -> (r: Mode)
        requires
            mode_of(name@) is Some,
        ensures
            Some(r) == mode_of(name@),
    {
        match mode_of_name(name) {
            Some(m) => m,
            None => Mode::Statement,
        }
    }
}

/// Pattern that tells a document of the dialect from others.
pub open spec fn signature(d: Dialect) -> Seq<char> {
    match d {
        Dialect::IBatis => "DTD SQL Map 2\\.0"@,
        Dialect::MyBatis => "DTD Mapper 3\\.0"@,
    }
}

/// Whether `prepend` attributes of nested elements are spliced into the text.
pub open spec fn uses_prepend(d: Dialect) -> bool {
    d == Dialect::IBatis
}

/// Whether `where` and `set` elements put their keyword into the text.
pub open spec fn uses_keyword_elements(d: Dialect) -> bool {
    d == Dialect::MyBatis
}

/// Whether normalized text is upper-cased.
pub open spec fn upper_cases(d: Dialect) -> bool {
    d == Dialect::IBatis
}

/// Whether each statement's output is preceded by a line with its id.
pub open spec fn writes_ids(d: Dialect) -> bool {
    d == Dialect::IBatis
}

impl Dialect {
    pub fn signature(&self) -> (r: &'static str)
        ensures
            r@ == signature(*self),
    {
        match self {
            Dialect::IBatis => "DTD SQL Map 2\\.0",
            Dialect::MyBatis => "DTD Mapper 3\\.0",
        }
    }

    pub fn uses_prepend(&self) -> (r: bool)
        ensures
            r == uses_prepend(*self),
    {
        match self {
            Dialect::IBatis => true,
            Dialect::MyBatis => false,
        }
    }

    pub fn uses_keyword_elements(&self) -> (r: bool)
        ensures
            r == uses_keyword_elements(*self),
    {
        match self {
            Dialect::IBatis => false,
            Dialect::MyBatis => true,
        }
    }

    pub fn upper_cases(&self) -> (r: bool)
        ensures
            r == upper_cases(*self),
    {
        match self {
            Dialect::IBatis => true,
            Dialect::MyBatis => false,
        }
    }

    pub fn writes_ids(&self) -> (r: bool)
        ensures
            r == writes_ids(*self),
    {
        match self {
            Dialect::IBatis => true,
            Dialect::MyBatis => false,
        }
    }
}

} // verus!
