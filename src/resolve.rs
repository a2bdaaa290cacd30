//! Fragment table and the resolver that inlines include markers.
use vstd::prelude::*;

verus! {

/// One run of captured text: plain SQL text, or a marker standing for the
/// inclusion of the fragment whose name `text` holds.
pub struct Piece {
    pub is_include: bool,
    pub text: String,
}

/// `(is_include, text)`.
pub type PieceView = (bool, Seq<char>);

impl View for Piece {
    type V = PieceView;

    open spec fn view(&self) -> PieceView {
        (self.is_include, self.text@)
    }
}

pub open spec fn pieces_view(v: Seq<Piece>) -> Seq<PieceView> {
    v.map_values(|p: Piece| p@)
}

/// A named block of captured text, itself possibly holding markers.
pub struct Fragment {
    pub name: String,
    pub body: Vec<Piece>,
}

/// `(name, body)`.
pub type FragmentView = (Seq<char>, Seq<PieceView>);

impl View for Fragment {
    type V = FragmentView;

    open spec fn view(&self) -> FragmentView {
        (self.name@, pieces_view(self.body@))
    }
}

pub open spec fn fragments_view(v: Seq<Fragment>) -> Seq<FragmentView> {
    v.map_values(|f: Fragment| f@)
}

/// Index of the last entry of `tbl` named `name`.
pub open spec fn find(tbl: Seq<FragmentView>, name: Seq<char>) -> Option<int>
    decreases tbl.len(),
{
    if tbl.len() == 0 {
        None
    } else if tbl.last().0 == name {
        Some(tbl.len() - 1)
    } else {
        find(tbl.drop_last(), name)
    }
}

/// The body that `name` stands for in `tbl`.
pub open spec fn lookup(tbl: Seq<FragmentView>, name: Seq<char>) -> Option<Seq<PieceView>> {
    match find(tbl, name) {
        Some(i) => Some(tbl[i].1),
        None => None,
    }
}

/// No two entries share a name.
pub open spec fn unique_names(tbl: Seq<FragmentView>) -> bool {
    forall|i: int, j: int| 0 <= i < j < tbl.len() ==> tbl[i].0 != tbl[j].0
}

/// The table after defining `name` as `body`: an existing entry of that name
/// is overwritten in place, otherwise the entry is added at the end.
pub open spec fn define(tbl: Seq<FragmentView>, name: Seq<char>, body: Seq<PieceView>) -> Seq<
    FragmentView,
> {
    match find(tbl, name) {
        Some(i) => tbl.update(i, (name, body)),
        None => tbl.push((name, body)),
    }
}

/// Text left where a marker would re-enter a fragment already being expanded.
pub open spec fn cycle_tag(name: Seq<char>) -> Seq<char> {
    "/* cyclic include: "@ + name + " */"@
}

/// Text left where a marker names no fragment of the table.
pub open spec fn missing_tag(name: Seq<char>) -> Seq<char> {
    "/* missing include: "@ + name + " */"@
}

/// The text of one piece with every marker expanded, transitively; `chain`
/// holds the indices of the fragments being expanded around it.
pub open spec fn expand_piece(tbl: Seq<FragmentView>, p: PieceView, chain: Seq<int>) -> Seq<char>
    decreases tbl.len() - chain.len(), 0int,
{
    if !p.0 {
        p.1
    } else {
        match find(tbl, p.1) {
            Some(i) => if !chain.contains(i) && chain.len() < tbl.len() {
                expand(tbl, tbl[i].1, chain.push(i))
            } else {
                cycle_tag(p.1)
            },
            None => missing_tag(p.1),
        }
    }
}

/// The concatenated expansion of a sequence of pieces.
pub open spec fn expand(tbl: Seq<FragmentView>, ps: Seq<PieceView>, chain: Seq<int>) -> Seq<char>
    decreases tbl.len() - chain.len(), ps.len(),
{
    if ps.len() == 0 {
        Seq::empty()
    } else {
        expand_piece(tbl, ps[0], chain) + expand(tbl, ps.drop_first(), chain)
    }
}

/// The resolved text of raw pieces against a file's fragment table.
pub open spec fn resolved(tbl: Seq<FragmentView>, ps: Seq<PieceView>) -> Seq<char> {
    expand(tbl, ps, Seq::empty())
}

/// The plain text of pieces that hold no marker.
pub open spec fn plain(ps: Seq<PieceView>) -> Seq<char>
    decreases ps.len(),
{
    if ps.len() == 0 {
        Seq::empty()
    } else {
        ps[0].1 + plain(ps.drop_first())
    }
}

pub open spec fn has_marker(ps: Seq<PieceView>) -> bool {
    exists|i: int| 0 <= i < ps.len() && ps[i].0
}

/// `find` gives an index of the table whose entry has the name sought, and
/// finds nothing only where no entry has it.
pub proof fn lemma_find(tbl: Seq<FragmentView>, name: Seq<char>)
    ensures
        match find(tbl, name) {
            Some(i) => 0 <= i < tbl.len() && tbl[i].0 == name,
            None => forall|j: int| 0 <= j < tbl.len() ==> tbl[j].0 != name,
        },
    decreases tbl.len(),
{
    if tbl.len() > 0 && tbl.last().0 != name {
        lemma_find(tbl.drop_last(), name);
        assert forall|j: int| 0 <= j < tbl.len() - 1 implies tbl[j] == tbl.drop_last()[j] by {}
    }
}

/// Position of the entry named `name`, searching from the end.
pub fn find_fragment(tbl: &Vec<Fragment>, name: &String) -> (r: Option<usize>)
    ensures
        match find(fragments_view(tbl@), name@) {
            Some(i) => r == Some(i as usize) && 0 <= i < tbl.len(),
            None => r is None,
        },
{
    proof {
        lemma_find(fragments_view(tbl@), name@);
    }
    let ghost t = fragments_view(tbl@);
    let mut k: usize = tbl.len();
    assert(t.take(k as int) =~= t);
    while k > 0
        invariant
            k <= tbl.len(),
            t == fragments_view(tbl@),
            find(t, name@) == find(t.take(k as int), name@),
        decreases k,
    {
        let ghost tk = t.take(k as int);
        assert(tk.drop_last() =~= t.take(k - 1));
        if tbl[k - 1].name.eq(name) {
            return Some(k - 1);
        }
        k = k - 1;
    }
    None
}

/// Defines `name` as `body` in `tbl`, overwriting an earlier definition.
pub fn define_fragment(tbl: &mut Vec<Fragment>, name: String, body: Vec<Piece>)
    ensures
        fragments_view(final(tbl)@) == define(
            fragments_view(old(tbl)@),
            name@,
            pieces_view(body@),
        ),
{
    let ghost t = fragments_view(tbl@);
    let ghost v = (name@, pieces_view(body@));
    proof {
        lemma_find(t, name@);
    }
    match find_fragment(tbl, &name) {
        Some(i) => {
            assert(find(t, name@) == Some(i as int));
            tbl.set(i, Fragment { name, body });
            assert(fragments_view(tbl@) =~= t.update(i as int, v));
        },
        None => {
            assert(find(t, name@) is None);
            tbl.push(Fragment { name, body });
            assert(fragments_view(tbl@) =~= t.push(v));
        },
    }
}

pub open spec fn ints(v: Seq<usize>) -> Seq<int> {
    v.map_values(|x: usize| x as int)
}

/// Appends the expansion of one piece to `out`.
fn expand_piece_into(tbl: &Vec<Fragment>, p: &Piece, chain: &mut Vec<usize>, out: &mut String)
    requires
        old(chain)@.len() <= tbl@.len(),
    ensures
        final(chain)@ == old(chain)@,
        final(out)@ == old(out)@ + expand_piece(fragments_view(tbl@), p@, ints(old(chain)@)),
    decreases tbl@.len() - old(chain)@.len(), 0int,
{
    let ghost t = fragments_view(tbl@);
    let ghost c = ints(chain@);
    if !p.is_include {
        out.append(p.text.as_str());
        return;
    }
    match find_fragment(tbl, &p.text) {
        Some(i) => {
            let mut on_chain = false;
            let mut k: usize = 0;
            while k < chain.len()
                invariant
                    k <= chain@.len(),
                    c == ints(chain@),
                    on_chain == (exists|j: int| 0 <= j < k && c[j] == i as int),
                decreases chain@.len() - k,
            {
                assert(c[k as int] == chain@[k as int] as int);
                if chain[k] == i {
                    on_chain = true;
                }
                k = k + 1;
            }
            assert(on_chain == c.contains(i as int));
            if !on_chain && chain.len() < tbl.len() {
                chain.push(i);
                assert(ints(chain@) =~= c.push(i as int));
                expand_into(tbl, &tbl[i].body, chain, out);
                chain.pop();
            } else {
                out.append("/* cyclic include: ");
                out.append(p.text.as_str());
                out.append(" */");
            }
        },
        None => {
            out.append("/* missing include: ");
            out.append(p.text.as_str());
            out.append(" */");
        },
    }
}

/// Appends the expansion of a sequence of pieces to `out`.
fn expand_into(tbl: &Vec<Fragment>, ps: &Vec<Piece>, chain: &mut Vec<usize>, out: &mut String)
    requires
        old(chain)@.len() <= tbl@.len(),
    ensures
        final(chain)@ == old(chain)@,
        final(out)@ == old(out)@ + expand(
            fragments_view(tbl@),
            pieces_view(ps@),
            ints(old(chain)@),
        ),
    decreases tbl@.len() - old(chain)@.len(), ps@.len(),
{
    let ghost t = fragments_view(tbl@);
    let ghost c = ints(chain@);
    let ghost pv = pieces_view(ps@);
    let ghost out0 = out@;
    let mut k: usize = 0;
    assert(pv.skip(0) =~= pv);
    while k < ps.len()
        invariant
            k <= ps@.len(),
            pv == pieces_view(ps@),
            c == ints(chain@),
            chain@ == old(chain)@,
            t == fragments_view(tbl@),
            chain@.len() <= tbl@.len(),
            out0 + expand(t, pv, c) == out@ + expand(t, pv.skip(k as int), c),
        decreases ps@.len() - k,
    {
        let ghost before = out@;
        assert(pv.skip(k as int).drop_first() =~= pv.skip(k + 1));
        assert(pv.skip(k as int)[0] == ps@[k as int]@);
        expand_piece_into(tbl, &ps[k], chain, out);
        assert(before + expand(t, pv.skip(k as int), c) == out@ + expand(t, pv.skip(k + 1), c));
        k = k + 1;
    }
    assert(pv.skip(k as int) =~= Seq::<PieceView>::empty());
    assert(out@ + Seq::<char>::empty() =~= out@);
}

/// The resolved text of `raw`: every marker replaced by the text of the
/// fragment it names in `tbl`, transitively. A marker that would re-enter a
/// fragment already being expanded leaves a cyclic-include tag, and one
/// that names no fragment leaves a missing-include tag.
pub fn resolve(tbl: &Vec<Fragment>, raw: &Vec<Piece>) -> (r: String)
    ensures
        r@ == resolved(fragments_view(tbl@), pieces_view(raw@)),
{
    let mut chain: Vec<usize> = Vec::new();
    let mut out = String::new();
    expand_into(tbl, raw, &mut chain, &mut out);
    assert(ints(chain@) =~= Seq::<int>::empty());
    assert(Seq::<char>::empty() + resolved(fragments_view(tbl@), pieces_view(raw@))
        =~= resolved(fragments_view(tbl@), pieces_view(raw@)));
    out
}

} // verus!
