//! The ordered text rewrites that turn resolved statement text into its
//! canonical form.
use vstd::prelude::*;
use crate::dialect::{upper_cases, Dialect};
use crate::text::{ascii_upper, regex_replaced, replace_all, to_upper};

verus! {

/// A rewrite: every match of `pattern` is replaced by `replacement`.
pub struct Rule {
    pub pattern: &'static str,
    pub replacement: &'static str,
}

impl View for Rule {
    type V = (Seq<char>, Seq<char>);

    open spec fn view(&self) -> (Seq<char>, Seq<char>) {
        (self.pattern@, self.replacement@)
    }
}

pub open spec fn rules_view(v: Seq<Rule>) -> Seq<(Seq<char>, Seq<char>)> {
    v.map_values(|r: Rule| r@)
}

/// Line comments, white-space runs, the ends, schema substitution.
pub open spec fn common_head() -> Seq<(Seq<char>, Seq<char>)> {
    seq![
        ("[\t ]?--[^\n]*(\n|$)"@, " "@),
        ("[\r\n\t ]+"@, " "@),
        ("^ | $"@, ""@),
        ("\\$\\{[^${]+\\}"@, "__REPLACE_SCHEMA__"@),
    ]
}

/// Repairs of what conditional elements leave behind, then the ends again.
pub open spec fn repairs() -> Seq<(Seq<char>, Seq<char>)> {
    seq![
        ("(?i)(where) +(and|or) +"@, "${1} "@),
        ("(?i), +(where)"@, " ${1}"@),
        ("[ ,]*,$"@, ""@),
        ("^ | $"@, ""@),
    ]
}

/// Bind-parameter syntax of the dialect, rewritten to the bind marker `:?`.
pub open spec fn binds(d: Dialect) -> Seq<(Seq<char>, Seq<char>)> {
    match d {
        Dialect::IBatis => seq![("#[^#]+#"@, ":?"@), ("\\$[^$]+\\$"@, ":?"@)],
        Dialect::MyBatis => seq![("#\\{[^#{]+\\}"@, ":?"@)],
    }
}

/// The dialect's rewrites, in the order they apply.
pub open spec fn rule_table(d: Dialect) -> Seq<(Seq<char>, Seq<char>)> {
    common_head() + binds(d) + repairs()
}

/// One rewrite; a pattern that does not compile leaves the text as it is.
pub open spec fn apply_rule(rule: (Seq<char>, Seq<char>), s: Seq<char>) -> Seq<char> {
    match regex_replaced(rule.0, s, rule.1) {
        Some(t) => t,
        None => s,
    }
}

/// The rewrites applied in order, each to the output of the one before.
pub open spec fn apply_rules(rules: Seq<(Seq<char>, Seq<char>)>, s: Seq<char>) -> Seq<char>
    decreases rules.len(),
{
    if rules.len() == 0 {
        s
    } else {
        apply_rule(rules.last(), apply_rules(rules.drop_last(), s))
    }
}

/// The canonical form of resolved text in dialect `d`.
pub open spec fn normalized(d: Dialect, s: Seq<char>) -> Seq<char> {
    let t = apply_rules(rule_table(d), s);
    if upper_cases(d) {
        ascii_upper(t)
    } else {
        t
    }
}

/// The dialect's rewrite rules, in order.
pub fn rules(d: Dialect) -> (r: Vec<Rule>)
    ensures
        rules_view(r@) == rule_table(d),
{
    let mut r: Vec<Rule> = Vec::new();
    r.push(Rule { pattern: "[\t ]?--[^\n]*(\n|$)", replacement: " " });
    r.push(Rule { pattern: "[\r\n\t ]+", replacement: " " });
    r.push(Rule { pattern: "^ | $", replacement: "" });
    r.push(Rule { pattern: "\\$\\{[^${]+\\}", replacement: "__REPLACE_SCHEMA__" });
    match d {
        Dialect::IBatis => {
            r.push(Rule { pattern: "#[^#]+#", replacement: ":?" });
            r.push(Rule { pattern: "\\$[^$]+\\$", replacement: ":?" });
        },
        Dialect::MyBatis => {
            r.push(Rule { pattern: "#\\{[^#{]+\\}", replacement: ":?" });
        },
    }
    r.push(Rule { pattern: "(?i)(where) +(and|or) +", replacement: "${1} " });
    r.push(Rule { pattern: "(?i), +(where)", replacement: " ${1}" });
    r.push(Rule { pattern: "[ ,]*,$", replacement: "" });
    r.push(Rule { pattern: "^ | $", replacement: "" });
    assert(rules_view(r@) =~= rule_table(d));
    r
}

/// Applies one rewrite rule.
pub fn apply(rule: &Rule, s: String) -> (r: String)
    ensures
        r@ == apply_rule(rule@, s@),
{
    match replace_all(rule.pattern, s.as_str(), rule.replacement) {
        Some(t) => t,
        None => s,
    }
}

/// Strips line comments, collapses white space, rewrites schema and bind
/// placeholders, repairs conditional artifacts and, in iBATIS, upper-cases.
pub fn normalize(d: Dialect, text: &str) -> (r: String)
    ensures
        r@ == normalized(d, text@),
{
    let rs = rules(d);
    let ghost rv = rules_view(rs@);
    let mut cur = String::from_str(text);
    let mut k: usize = 0;
    assert(rv.take(0) =~= Seq::<(Seq<char>, Seq<char>)>::empty());
    while k < rs.len()
        invariant
            k <= rs@.len(),
            rv == rules_view(rs@),
            cur@ == apply_rules(rv.take(k as int), text@),
        decreases rs@.len() - k,
    {
        assert(rv.take(k + 1).drop_last() =~= rv.take(k as int));
        cur = apply(&rs[k], cur);
        k = k + 1;
    }
    assert(rv.take(k as int) =~= rv);
    if d.upper_cases() {
        to_upper(cur.as_str())
    } else {
        cur
    }
}

} // verus!
