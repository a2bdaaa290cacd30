//! Properties of parsing and resolution that hold of every input.
use vstd::prelude::*;
use crate::dialect::Dialect;
use crate::event::EventView;
use crate::extract::extracted;
use crate::normalize::normalized;
use crate::parse::{initial, run, step, Capture, ParseView};
use crate::resolve::{
    cycle_tag, define, expand, expand_piece, find, has_marker, lemma_find, lookup, plain, resolved,
    FragmentView, PieceView,
};

verus! {

proof fn lemma_expand_plain(tbl: Seq<FragmentView>, ps: Seq<PieceView>, chain: Seq<int>)
    requires
        !has_marker(ps),
    ensures
        expand(tbl, ps, chain) == plain(ps),
    decreases ps.len(),
{
    if ps.len() > 0 {
        assert(!ps[0].0);
        assert forall|i: int| 0 <= i < ps.drop_first().len() implies !ps.drop_first()[i].0 by {
            assert(ps.drop_first()[i] == ps[i + 1]);
        }
        lemma_expand_plain(tbl, ps.drop_first(), chain);
        assert(expand_piece(tbl, ps[0], chain) == ps[0].1);
        assert(expand(tbl, ps, chain) == expand_piece(tbl, ps[0], chain) + expand(
            tbl,
            ps.drop_first(),
            chain,
        ));
    }
}

/// Text that holds no include marker resolves to itself, whatever the table.
pub proof fn lemma_no_marker_unchanged(tbl: Seq<FragmentView>, ps: Seq<PieceView>)
    requires
        !has_marker(ps),
    ensures
        resolved(tbl, ps) == plain(ps),
{
    lemma_expand_plain(tbl, ps, Seq::empty());
}

/// Defining a name makes the new body the one that name stands for.
pub proof fn lemma_define_lookup(tbl: Seq<FragmentView>, name: Seq<char>, body: Seq<PieceView>)
    ensures
        lookup(define(tbl, name, body), name) == Some(body),
{
    lemma_find(tbl, name);
    match find(tbl, name) {
        Some(i) => lemma_find_update(tbl, name, body, i),
        None => {},
    }
}

proof fn lemma_find_update(tbl: Seq<FragmentView>, name: Seq<char>, body: Seq<PieceView>, i: int)
    requires
        find(tbl, name) == Some(i),
    ensures
        find(tbl.update(i, (name, body)), name) == Some(i),
    decreases tbl.len(),
{
    lemma_find(tbl, name);
    let u = tbl.update(i, (name, body));
    if i < tbl.len() - 1 {
        assert(u.drop_last() =~= tbl.drop_last().update(i, (name, body)));
        lemma_find_update(tbl.drop_last(), name, body, i);
    }
}

/// When a name is defined twice, references to it see the later body only.
pub proof fn lemma_overwrite(
    tbl: Seq<FragmentView>,
    name: Seq<char>,
    first: Seq<PieceView>,
    second: Seq<PieceView>,
)
    ensures
        lookup(define(define(tbl, name, first), name, second), name) == Some(second),
{
    lemma_define_lookup(define(tbl, name, first), name, second);
}

/// Two fragments that include each other resolve, from either one, to the
/// cyclic-include tag of the name where the cycle closes.
pub proof fn lemma_cycle(tbl: Seq<FragmentView>, a: Seq<char>, b: Seq<char>)
    requires
        a != b,
        lookup(tbl, a) == Some(seq![(true, b)]),
        lookup(tbl, b) == Some(seq![(true, a)]),
    ensures
        resolved(tbl, seq![(true, a)]) == cycle_tag(a),
{
    lemma_find(tbl, a);
    lemma_find(tbl, b);
    let ia = find(tbl, a)->Some_0;
    let ib = find(tbl, b)->Some_0;
    assert(ia != ib);
    let c0 = Seq::<int>::empty();
    let c1 = c0.push(ia);
    let c2 = c1.push(ib);
    let body_a: Seq<PieceView> = seq![(true, b)];
    let body_b: Seq<PieceView> = seq![(true, a)];
    assert(c2.contains(ia)) by {
        assert(c2[0] == ia);
    }
    assert(!c1.contains(ib)) by {
        assert(c1[0] == ia);
    }
    assert(expand_piece(tbl, (true, a), c2) == cycle_tag(a));
    let e = Seq::<PieceView>::empty();
    assert(expand(tbl, e, c2) == Seq::<char>::empty());
    assert(expand(tbl, e, c1) == Seq::<char>::empty());
    assert(expand(tbl, e, c0) == Seq::<char>::empty());
    assert(body_b.drop_first() =~= e);
    assert(body_b[0] == (true, a));
    assert(expand(tbl, body_b, c2) == expand_piece(tbl, (true, a), c2) + expand(tbl, e, c2));
    assert(expand(tbl, body_b, c2) =~= cycle_tag(a));
    assert(expand_piece(tbl, (true, b), c1) == expand(tbl, body_b, c2));
    assert(body_a.drop_first() =~= e);
    assert(body_a[0] == (true, b));
    assert(expand(tbl, body_a, c1) == expand_piece(tbl, (true, b), c1) + expand(tbl, e, c1));
    assert(expand(tbl, body_a, c1) =~= cycle_tag(a));
    assert(expand_piece(tbl, (true, a), c0) == expand(tbl, body_a, c1));
    let top: Seq<PieceView> = seq![(true, a)];
    assert(top.drop_first() =~= e);
    assert(top[0] == (true, a));
    assert(expand(tbl, top, c0) == expand_piece(tbl, (true, a), c0) + expand(tbl, e, c0));
    assert(expand(tbl, top, c0) =~= cycle_tag(a));
}

/// Consuming `a` then `b` is consuming `a + b`, where `a` is well formed.
pub proof fn lemma_run_append(d: Dialect, s: ParseView, a: Seq<EventView>, b: Seq<EventView>)
    requires
        forall|i: int| 0 <= i < a.len() ==> !(a[i] is Malformed),
    ensures
        run(d, s, a + b) == run(d, run(d, s, a), b),
    decreases a.len(),
{
    if a.len() == 0 {
        assert(a + b =~= b);
    } else {
        assert((a + b)[0] == a[0]);
        assert((a + b).drop_first() =~= a.drop_first() + b);
        assert forall|i: int| 0 <= i < a.drop_first().len() implies !(
        a.drop_first()[i] is Malformed) by {
            assert(a.drop_first()[i] == a[i + 1]);
        }
        lemma_run_append(d, step(d, s, a[0]), a.drop_first(), b);
    }
}

/// The events of a fragment definition `<sql id="name">text</sql>`.
pub open spec fn fragment_events(name: Seq<char>, text: Seq<char>) -> Seq<EventView> {
    seq![
        EventView::Start { name: "sql"@, attributes: seq![("id"@, name)] },
        EventView::Text { text },
        EventView::End { name: "sql"@ },
    ]
}

/// A statement captured before a fragment is defined still has its marker
/// resolved against that definition: all events are consumed before any
/// marker is resolved. The definition adds no statement of its own.
pub proof fn lemma_forward_reference(
    d: Dialect,
    a: Seq<EventView>,
    k: int,
    before: Seq<char>,
    name: Seq<char>,
    after: Seq<char>,
    text: Seq<char>,
)
    requires
        forall|i: int| 0 <= i < a.len() ==> !(a[i] is Malformed),
        run(d, initial(), a).capture == Capture::Idle,
        0 <= k < run(d, initial(), a).statements.len(),
        run(d, initial(), a).statements[k].2 == seq![(false, before), (true, name), (false, after)],
    ensures
        extracted(d, a + fragment_events(name, text)).len() == run(
            d,
            initial(),
            a,
        ).statements.len(),
        extracted(d, a + fragment_events(name, text))[k].2 == normalized(
            d,
            before + text + after,
        ),
{
    let b = fragment_events(name, text);
    let s0 = run(d, initial(), a);
    lemma_run_append(d, initial(), a, b);
    reveal_strlit("sql");
    reveal_strlit("id");
    reveal_strlit("statement");
    reveal_strlit("select");
    reveal_strlit("insert");
    reveal_strlit("update");
    reveal_strlit("delete");
    assert(crate::text::ascii_lower("sql"@) =~= "sql"@);
    let s1 = step(d, s0, b[0]);
    let s2 = step(d, s1, b[1]);
    let s3 = step(d, s2, b[2]);
    assert(s1.capture == Capture::Fragment);
    assert(s1.id == name);
    assert(s1.buffer =~= Seq::<PieceView>::empty());
    assert(s2.buffer =~= seq![(false, text)]);
    let body: Seq<PieceView> = seq![(false, text)];
    assert(s3.fragments == define(s0.fragments, name, body));
    assert(s3.statements == s0.statements);
    assert(b.drop_first().drop_first().drop_first() =~= Seq::<EventView>::empty());
    let b1 = b.drop_first();
    let b2 = b1.drop_first();
    let b3 = b2.drop_first();
    assert(b1[0] == b[1]);
    assert(b2[0] == b[2]);
    assert(run(d, s3, b3) == s3);
    assert(run(d, s2, b2) == run(d, s3, b3));
    assert(run(d, s1, b1) == run(d, s2, b2));
    assert(run(d, s0, b) == run(d, s1, b1));
    let tbl = s3.fragments;
    lemma_define_lookup(s0.fragments, name, body);
    lemma_find(tbl, name);
    let i = find(tbl, name)->Some_0;
    let c0 = Seq::<int>::empty();
    let e = Seq::<PieceView>::empty();
    assert(expand(tbl, e, c0) == Seq::<char>::empty());
    assert(expand(tbl, e, c0.push(i)) == Seq::<char>::empty());
    assert(body.drop_first() =~= e);
    assert(expand(tbl, body, c0.push(i)) == expand_piece(tbl, body[0], c0.push(i)) + expand(
        tbl,
        e,
        c0.push(i),
    ));
    assert(expand(tbl, body, c0.push(i)) =~= text);
    assert(expand_piece(tbl, (true, name), c0) == expand(tbl, body, c0.push(i)));
    let ps: Seq<PieceView> = seq![(false, before), (true, name), (false, after)];
    assert(ps.drop_first() =~= seq![(true, name), (false, after)]);
    assert(ps.drop_first().drop_first() =~= seq![(false, after)]);
    assert(ps.drop_first().drop_first().drop_first() =~= e);
    let p2 = ps.drop_first().drop_first();
    assert(p2[0] == (false, after));
    assert(expand(tbl, p2, c0) == expand_piece(tbl, p2[0], c0) + expand(tbl, e, c0));
    assert(expand(tbl, p2, c0) =~= after);
    let p1 = ps.drop_first();
    assert(p1[0] == (true, name));
    assert(expand(tbl, p1, c0) == expand_piece(tbl, p1[0], c0) + expand(tbl, p2, c0));
    assert(ps[0] == (false, before));
    assert(expand(tbl, ps, c0) == expand_piece(tbl, ps[0], c0) + expand(tbl, p1, c0));
    assert(expand(tbl, ps.drop_first(), c0) =~= text + after);
    assert(expand(tbl, ps, c0) =~= before + text + after);
    assert(resolved(tbl, ps) == before + text + after);
}

} // verus!
