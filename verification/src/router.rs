//! The path router: a trie from `/`-delimited path templates to handlers.
//!
//! A template segment is either a literal, matching only its exact text, or
//! a capture of the form `:name`, matching any single non-empty concrete
//! segment and binding it to `name`. At each depth a literal match is
//! preferred over a capture match; inserting a template whose structure is
//! already registered is rejected.

use vstd::prelude::*;
use crate::wire::bytes_eq;

verus! {

/// The path separator, `/`.
pub const SLASH: u8 = 47;

/// The leading byte of a capture segment, `:`.
pub const COLON: u8 = 58;

/// One segment of a parsed path template.
pub enum Segment {
    /// Matches exactly this text.
    Literal(Vec<u8>),
    /// Matches any non-empty concrete segment, binding it to this name.
    Capture(Vec<u8>),
}

/// The mathematical value of a [`Segment`].
#[verifier::ext_equal]
pub enum SegView {
    Literal(Seq<u8>),
    Capture(Seq<u8>),
}

impl View for Segment {
    type V = SegView;

    open spec fn view(&self) -> SegView {
        match self {
            Segment::Literal(v) => SegView::Literal(v@),
            Segment::Capture(v) => SegView::Capture(v@),
        }
    }
}

impl DeepView for Segment {
    type V = SegView;

    open spec fn deep_view(&self) -> SegView {
        self.view()
    }
}

/// Splitting a byte sequence on a separator: the pieces between the
/// separators, in order. Splitting the empty sequence gives one empty
/// piece, as splitting text on `/` gives one piece per slash-free run.
pub open spec fn spec_split(s: Seq<u8>, sep: u8) -> Seq<Seq<u8>>
    decreases s.len(),
{
    if s.len() == 0 {
        seq![Seq::<u8>::empty()]
    } else if s[0] == sep {
        seq![Seq::<u8>::empty()] + spec_split(s.drop_first(), sep)
    } else {
        let rest = spec_split(s.drop_first(), sep);
        seq![seq![s[0]] + rest[0]] + rest.drop_first()
    }
}

/// A split always has at least one piece.
pub proof fn lemma_split_len(s: Seq<u8>, sep: u8)
    ensures
        spec_split(s, sep).len() >= 1,
    decreases s.len(),
{
    if s.len() == 0 {
    } else {
        lemma_split_len(s.drop_first(), sep);
    }
}

/// Split a byte slice on a separator.
pub fn split_bytes(s: &[u8], sep: u8) -> (r: Vec<Vec<u8>>)
    ensures
        r.deep_view() == spec_split(s@, sep),
    decreases s@.len(),
{
    if s.len() == 0 {
        let mut r: Vec<Vec<u8>> = Vec::new();
        r.push(Vec::new());
        assert(r.deep_view() =~~= spec_split(s@, sep));
        r
    } else if s[0] == sep {
        let rest = vstd::slice::slice_subrange(s, 1, s.len());
        assert(rest@ =~= s@.drop_first());
        let mut r = split_bytes(rest, sep);
        r.insert(0, Vec::new());
        assert(r.deep_view() =~~= spec_split(s@, sep));
        r
    } else {
        let rest = vstd::slice::slice_subrange(s, 1, s.len());
        assert(rest@ =~= s@.drop_first());
        let mut r = split_bytes(rest, sep);
        proof {
            lemma_split_len(rest@, sep);
        }
        let mut first = r.remove(0);
        first.insert(0, s[0]);
        r.insert(0, first);
        assert(r.deep_view() =~~= spec_split(s@, sep));
        r
    }
}

/// The segment a template piece stands for: a piece led by `:` is a
/// capture named by the remaining text, any other piece is a literal.
pub open spec fn seg_of(piece: Seq<u8>) -> SegView {
    if piece.len() > 0 && piece[0] == COLON {
        SegView::Capture(piece.drop_first())
    } else {
        SegView::Literal(piece)
    }
}

/// The segments the pieces of a template stand for, piece by piece.
pub open spec fn segs_of_pieces(pieces: Seq<Seq<u8>>) -> Seq<SegView> {
    Seq::new(pieces.len(), |k: int| seg_of(pieces[k]))
}

/// The parsed form of a whole path template.
pub open spec fn pattern_of(template: Seq<u8>) -> Seq<SegView> {
    segs_of_pieces(spec_split(template, SLASH))
}

/// Parse a path template into its segments.
pub fn parse_template(template: &[u8]) -> (r: Vec<Segment>)
    ensures
        r.deep_view() == pattern_of(template@),
{
    let pieces = split_bytes(template, SLASH);
    let mut segs: Vec<Segment> = Vec::new();
    let mut i: usize = 0;
    while i < pieces.len()
        invariant
            i <= pieces.len(),
            segs.deep_view() =~~= segs_of_pieces(pieces.deep_view().take(i as int)),
        decreases pieces.len() - i,
    {
        proof {
            assert(segs.deep_view().len() == pieces.deep_view().take(i as int).len());
            assert(pieces.deep_view().take(i as int).len() == i);
            assert(segs@.len() == i);
        }
        let piece = &pieces[i];
        if piece.len() > 0 && piece[0] == COLON {
            let name = vstd::slice::slice_to_vec(vstd::slice::slice_subrange(piece.as_slice(), 1, piece.len()));
            segs.push(Segment::Capture(name));
        } else {
            segs.push(Segment::Literal(vstd::slice::slice_to_vec(piece.as_slice())));
        }
        proof {
            assert(pieces.deep_view()[i as int] =~= pieces@[i as int]@);
            assert(seg_of(pieces.deep_view()[i as int]) == segs.deep_view()[i as int]);
            assert(forall|k: int| 0 <= k < i ==> segs.deep_view()[k] == segs_of_pieces(pieces.deep_view().take(i as int))[k]);
        }
        assert(segs.deep_view() =~~= segs_of_pieces(pieces.deep_view().take(i + 1)));
        i = i + 1;
    }
    assert(pieces.deep_view().take(pieces.len() as int) =~~= pieces.deep_view());
    segs
}

/// A trie node: an optional handler for the path ending here, the literal
/// children by their exact text, and at most one capture child with the
/// name it binds.
pub struct Node<H> {
    pub handler: Option<H>,
    pub literals: Vec<(Vec<u8>, Node<H>)>,
    pub capture: Option<(Vec<u8>, Box<Node<H>>)>,
}

/// The router: a trie from path templates to handlers.
pub struct Router<H> {
    pub root: Node<H>,
}

/// Rejected insertion of a template that conflicts with a registered one.
#[derive(Debug, PartialEq, Eq)]
pub struct ConflictError;

/// The first literal child of `lits` whose text is `key`, if any.
pub open spec fn find_literal<H>(lits: Seq<(Vec<u8>, Node<H>)>, key: Seq<u8>) -> Option<Node<H>>
    decreases lits.len(),
{
    if lits.len() == 0 {
        None
    } else if lits[0].0@ == key {
        Some(lits[0].1)
    } else {
        find_literal(lits.drop_first(), key)
    }
}

/// The handler registered under the exact template `pat`, if any.
pub open spec fn spec_handler_at<H>(n: Node<H>, pat: Seq<SegView>) -> Option<H>
    decreases pat.len(),
{
    if pat.len() == 0 {
        n.handler
    } else {
        match pat[0] {
            SegView::Literal(k) => match find_literal(n.literals@, k) {
                Some(c) => spec_handler_at(c, pat.drop_first()),
                None => None,
            },
            SegView::Capture(name) => match n.capture {
                Some(c) => if c.0@ == name {
                    spec_handler_at(*c.1, pat.drop_first())
                } else {
                    None
                },
                None => None,
            },
        }
    }
}

/// Whether the exact template `pat` is registered under `n`.
pub open spec fn spec_registered<H>(n: Node<H>, pat: Seq<SegView>) -> bool {
    spec_handler_at(n, pat) is Some
}

/// Whether inserting the template `pat` under `n` succeeds: it fails only
/// on a duplicate of a registered template or on a capture segment whose
/// name differs from the capture already present at that depth.
pub open spec fn spec_can_insert<H>(n: Node<H>, pat: Seq<SegView>) -> bool
    decreases pat.len(),
{
    if pat.len() == 0 {
        n.handler is None
    } else {
        match pat[0] {
            SegView::Literal(k) => match find_literal(n.literals@, k) {
                Some(c) => spec_can_insert(c, pat.drop_first()),
                None => true,
            },
            SegView::Capture(name) => match n.capture {
                Some(c) => c.0@ == name && spec_can_insert(*c.1, pat.drop_first()),
                None => true,
            },
        }
    }
}

/// Whether registering template `a` leaves template `b` insertable
/// afterwards: the two conflict exactly when they are structurally
/// identical, or when they run together up to a depth where both place a
/// capture but under different names.
pub open spec fn spec_compatible(a: Seq<SegView>, b: Seq<SegView>) -> bool
    decreases a.len(),
{
    if a.len() == 0 || b.len() == 0 {
        !(a.len() == 0 && b.len() == 0)
    } else {
        match (a[0], b[0]) {
            (SegView::Literal(x), SegView::Literal(y)) => x != y || spec_compatible(
                a.drop_first(),
                b.drop_first(),
            ),
            (SegView::Capture(x), SegView::Capture(y)) => x == y && spec_compatible(
                a.drop_first(),
                b.drop_first(),
            ),
            _ => true,
        }
    }
}

/// Resolution of a concrete, already-split path: at each depth a literal
/// child matching the segment is tried first, and the whole literal
/// subtree must fail before the capture child is tried; a capture child
/// matches only a non-empty segment and binds its name to it. The result
/// is the matched handler and the capture bindings, outermost first.
pub open spec fn spec_resolve<H>(n: Node<H>, segs: Seq<Seq<u8>>) -> Option<(H, Seq<(Seq<u8>, Seq<u8>)>)>
    decreases segs.len(),
{
    if segs.len() == 0 {
        match n.handler {
            Some(h) => Some((h, Seq::empty())),
            None => None,
        }
    } else {
        let lit = match find_literal(n.literals@, segs[0]) {
            Some(c) => spec_resolve(c, segs.drop_first()),
            None => None,
        };
        if lit is Some {
            lit
        } else {
            match n.capture {
                Some(c) => if segs[0].len() > 0 {
                    match spec_resolve(*c.1, segs.drop_first()) {
                        Some(r) => Some((r.0, seq![(c.0@, segs[0])] + r.1)),
                        None => None,
                    }
                } else {
                    None
                },
                None => None,
            }
        }
    }
}

/// The index of the first literal child whose text is `key`, if any.
fn find_child_idx<H>(lits: &Vec<(Vec<u8>, Node<H>)>, key: &[u8]) -> (r: Option<usize>)
    ensures
        match r {
            Some(j) => j < lits@.len() && lits@[j as int].0@ == key@
                && (forall|t: int| 0 <= t < j ==> lits@[t].0@ != key@),
            None => forall|t: int| 0 <= t < lits@.len() ==> lits@[t].0@ != key@,
        },
{
    let mut j: usize = 0;
    while j < lits.len()
        invariant
            j <= lits.len(),
            forall|t: int| 0 <= t < j ==> lits@[t].0@ != key@,
        decreases lits.len() - j,
    {
        if bytes_eq(lits[j].0.as_slice(), key) {
            return Some(j);
        }
        j = j + 1;
    }
    None
}

/// `find_literal` returns the child at the first index whose text matches.
pub proof fn lemma_find_literal_at<H>(lits: Seq<(Vec<u8>, Node<H>)>, key: Seq<u8>, j: int)
    requires
        0 <= j < lits.len(),
        lits[j].0@ == key,
        forall|t: int| 0 <= t < j ==> lits[t].0@ != key,
    ensures
        find_literal(lits, key) == Some(lits[j].1),
    decreases j,
{
    if j == 0 {
    } else {
        lemma_find_literal_at(lits.drop_first(), key, j - 1);
    }
}

/// `find_literal` finds nothing when no child's text matches.
pub proof fn lemma_find_literal_none<H>(lits: Seq<(Vec<u8>, Node<H>)>, key: Seq<u8>)
    requires
        forall|t: int| 0 <= t < lits.len() ==> lits[t].0@ != key,
    ensures
        find_literal(lits, key) is None,
    decreases lits.len(),
{
    if lits.len() == 0 {
    } else {
        lemma_find_literal_none(lits.drop_first(), key);
    }
}

/// Resolve the path suffix `segs[i..]` under `n`, per [`spec_resolve`].
fn resolve_at<'a, H>(n: &'a Node<H>, segs: &Vec<Vec<u8>>, i: usize) -> (r: Option<(&'a H, Vec<(Vec<u8>, Vec<u8>)>)>)
    requires
        i <= segs.len(),
    ensures
        match r {
            Some(p) => spec_resolve(*n, segs.deep_view().skip(i as int)) == Some((*p.0, p.1.deep_view())),
            None => spec_resolve(*n, segs.deep_view().skip(i as int)) is None,
        },
    decreases segs.len() - i,
{
    let ghost sv = segs.deep_view().skip(i as int);
    if i == segs.len() {
        proof {
            assert(sv.len() == 0);
        }
        match &n.handler {
            Some(h) => {
                let caps: Vec<(Vec<u8>, Vec<u8>)> = Vec::new();
                proof {
                    assert(caps.deep_view() =~~= Seq::<(Seq<u8>, Seq<u8>)>::empty());
                }
                Some((h, caps))
            }
            None => None,
        }
    } else {
        proof {
            assert(sv.len() == segs.len() - i);
            assert(sv[0] == segs.deep_view()[i as int]);
            assert(segs.deep_view()[i as int] =~= segs@[i as int]@);
            assert(sv.drop_first() =~~= segs.deep_view().skip(i + 1));
        }
        let seg = &segs[i];
        let lit = match find_child_idx(&n.literals, seg.as_slice()) {
            Some(j) => {
                proof {
                    lemma_find_literal_at(n.literals@, seg@, j as int);
                }
                resolve_at(&n.literals[j].1, segs, i + 1)
            }
            None => {
                proof {
                    lemma_find_literal_none(n.literals@, seg@);
                }
                None
            }
        };
        if lit.is_some() {
            return lit;
        }
        match &n.capture {
            Some(c) => {
                if seg.len() > 0 {
                    match resolve_at(&c.1, segs, i + 1) {
                        Some(p) => {
                            let h = p.0;
                            let mut caps = p.1;
                            let name = vstd::slice::slice_to_vec(c.0.as_slice());
                            let text = vstd::slice::slice_to_vec(seg.as_slice());
                            caps.insert(0, (name, text));
                            proof {
                                assert(caps.deep_view() =~~= seq![(c.0@, sv[0])] + p.1.deep_view());
                            }
                            Some((h, caps))
                        }
                        None => None,
                    }
                } else {
                    None
                }
            }
            None => None,
        }
    }
}

impl<H> Router<H> {
    /// A router with nothing registered: every template resolves to
    /// nothing, and every template is insertable.
    pub fn new() -> (r: Router<H>)
        ensures
            forall|pat: Seq<SegView>| #[trigger] spec_handler_at(r.root, pat) is None,
            forall|pat: Seq<SegView>| #[trigger] spec_can_insert(r.root, pat),
    {
        let r = Router { root: Node { handler: None, literals: Vec::new(), capture: None } };
        proof {
            assert forall|pat: Seq<SegView>| #[trigger] spec_handler_at(r.root, pat) is None by {
                assert(r.root.literals@.len() == 0);
                if pat.len() > 0 {
                    match pat[0] {
                        SegView::Literal(k) => {
                            assert(find_literal(r.root.literals@, k) is None);
                        }
                        SegView::Capture(_) => {}
                    }
                }
            }
            assert forall|pat: Seq<SegView>| #[trigger] spec_can_insert(r.root, pat) by {
                assert(r.root.literals@.len() == 0);
                if pat.len() > 0 {
                    match pat[0] {
                        SegView::Literal(k) => {
                            assert(find_literal(r.root.literals@, k) is None);
                        }
                        SegView::Capture(_) => {}
                    }
                }
            }
        }
        r
    }

    /// Resolve a concrete, already-split path to its handler and capture
    /// bindings, per [`spec_resolve`].
    pub fn resolve<'a>(&'a self, segs: &Vec<Vec<u8>>) -> (r: Option<(&'a H, Vec<(Vec<u8>, Vec<u8>)>)>)
        ensures
            match r {
                Some(p) => spec_resolve(self.root, segs.deep_view()) == Some((*p.0, p.1.deep_view())),
                None => spec_resolve(self.root, segs.deep_view()) is None,
            },
    {
        proof {
            assert(segs.deep_view().skip(0) =~~= segs.deep_view());
        }
        resolve_at(&self.root, segs, 0)
    }
}

/// Updating the child at the first index of its key leaves lookups of
/// every other key unchanged and redirects lookups of that key.
pub proof fn lemma_find_literal_update<H>(
    lits: Seq<(Vec<u8>, Node<H>)>,
    j: int,
    c2: Node<H>,
    key2: Seq<u8>,
)
    requires
        0 <= j < lits.len(),
        forall|t: int| 0 <= t < j ==> lits[t].0@ != lits[j].0@,
    ensures
        find_literal(lits.update(j, (lits[j].0, c2)), key2) == (if key2 == lits[j].0@ {
            Some(c2)
        } else {
            find_literal(lits, key2)
        }),
    decreases j,
{
    let upd = lits.update(j, (lits[j].0, c2));
    if j == 0 {
        assert(upd[0] == (lits[0].0, c2));
        if key2 == lits[0].0@ {
        } else {
            assert(upd.drop_first() =~= lits.drop_first());
        }
    } else {
        assert(upd[0] == lits[0]);
        assert(upd.drop_first() =~= lits.drop_first().update(j - 1, (lits.drop_first()[j - 1].0, c2)));
        lemma_find_literal_update(lits.drop_first(), j - 1, c2, key2);
    }
}

/// Appending a child with a fresh key leaves lookups of existing keys
/// unchanged and makes the new key find the new child.
pub proof fn lemma_find_literal_push<H>(
    lits: Seq<(Vec<u8>, Node<H>)>,
    item: (Vec<u8>, Node<H>),
    key2: Seq<u8>,
)
    ensures
        find_literal(lits.push(item), key2) == (match find_literal(lits, key2) {
            Some(c) => Some(c),
            None => if key2 == item.0@ {
                Some(item.1)
            } else {
                None
            },
        }),
    decreases lits.len(),
{
    let p = lits.push(item);
    if lits.len() == 0 {
        assert(p[0] == item);
        assert(p.drop_first() =~= Seq::<(Vec<u8>, Node<H>)>::empty());
        assert(find_literal(p.drop_first(), key2) is None);
        assert(find_literal(lits, key2) is None);
    } else {
        assert(p[0] == lits[0]);
        assert(p.drop_first() =~= lits.drop_first().push(item));
        lemma_find_literal_push(lits.drop_first(), item, key2);
    }
}

/// Whether inserting the template suffix `pat[i..]` under `n` would
/// succeed, per [`spec_can_insert`].
fn can_insert_at<H>(n: &Node<H>, pat: &Vec<Segment>, i: usize) -> (r: bool)
    requires
        i <= pat.len(),
    ensures
        r == spec_can_insert(*n, pat.deep_view().skip(i as int)),
    decreases pat.len() - i,
{
    let ghost pv = pat.deep_view().skip(i as int);
    if i == pat.len() {
        proof {
            assert(pv.len() == 0);
        }
        n.handler.is_none()
    } else {
        proof {
            assert(pv.len() == pat.len() - i);
            assert(pv[0] == pat.deep_view()[i as int]);
            assert(pv.drop_first() =~~= pat.deep_view().skip(i + 1));
        }
        match &pat[i] {
            Segment::Literal(k) => {
                match find_child_idx(&n.literals, k.as_slice()) {
                    Some(j) => {
                        proof {
                            lemma_find_literal_at(n.literals@, k@, j as int);
                        }
                        can_insert_at(&n.literals[j].1, pat, i + 1)
                    }
                    None => {
                        proof {
                            lemma_find_literal_none(n.literals@, k@);
                        }
                        true
                    }
                }
            }
            Segment::Capture(name) => {
                match &n.capture {
                    Some(c) => {
                        if bytes_eq(c.0.as_slice(), name.as_slice()) {
                            can_insert_at(&c.1, pat, i + 1)
                        } else {
                            false
                        }
                    }
                    None => true,
                }
            }
        }
    }
}

/// A fresh chain of nodes holding exactly the template suffix `pat[i..]`
/// with `handler` at its end, and nothing else; a template stays
/// insertable under the chain exactly when it is compatible with the
/// suffix.
fn build_chain<H>(pat: &Vec<Segment>, i: usize, handler: H) -> (r: Node<H>)
    requires
        i <= pat.len(),
    ensures
        forall|q: Seq<SegView>| #[trigger] spec_handler_at(r, q) == (if q == pat.deep_view().skip(
            i as int,
        ) {
            Some(handler)
        } else {
            None::<H>
        }),
        forall|q: Seq<SegView>| #[trigger] spec_can_insert(r, q) == spec_compatible(
            pat.deep_view().skip(i as int),
            q,
        ),
    decreases pat.len() - i,
{
    let ghost sv = pat.deep_view().skip(i as int);
    if i == pat.len() {
        let m = Node { handler: Some(handler), literals: Vec::new(), capture: None };
        proof {
            assert(sv.len() == 0);
            assert(m.literals@.len() == 0);
            assert forall|q: Seq<SegView>| #[trigger] spec_handler_at(m, q) == (if q == sv {
                Some(handler)
            } else {
                None::<H>
            }) by {
                if q.len() == 0 {
                    assert(q =~= sv);
                } else {
                    match q[0] {
                        SegView::Literal(k2) => {
                            assert(find_literal(m.literals@, k2) is None);
                        }
                        SegView::Capture(_) => {}
                    }
                }
            }
            assert forall|q: Seq<SegView>| #[trigger] spec_can_insert(m, q) == spec_compatible(
                sv,
                q,
            ) by {
                if q.len() == 0 {
                    assert(q =~= sv);
                } else {
                    match q[0] {
                        SegView::Literal(k2) => {
                            assert(find_literal(m.literals@, k2) is None);
                        }
                        SegView::Capture(_) => {}
                    }
                }
            }
        }
        m
    } else {
        proof {
            assert(sv.len() == pat.len() - i);
            assert(sv[0] == pat.deep_view()[i as int]);
            assert(sv.drop_first() =~~= pat.deep_view().skip(i + 1));
        }
        let ghost svr = pat.deep_view().skip(i + 1);
        match &pat[i] {
            Segment::Literal(k) => {
                let child = build_chain(pat, i + 1, handler);
                let mut lits: Vec<(Vec<u8>, Node<H>)> = Vec::new();
                lits.push((vstd::slice::slice_to_vec(k.as_slice()), child));
                let m = Node { handler: None, literals: lits, capture: None };
                proof {
                    assert(m.literals@.len() == 1);
                    assert(m.literals@[0].0@ == k@);
                    assert(m.literals@[0].1 == child);
                    assert(sv[0] == SegView::Literal(k@));
                    assert forall|q: Seq<SegView>| #[trigger] spec_handler_at(m, q) == (if q == sv {
                        Some(handler)
                    } else {
                        None::<H>
                    }) by {
                        if q.len() == 0 {
                            assert(q != sv);
                            assert(spec_handler_at(m, q) == m.handler);
                        } else {
                            match q[0] {
                                SegView::Literal(k2) => {
                                    if k2 == k@ {
                                        assert(find_literal(m.literals@, k2) == Some(child));
                                        assert(spec_handler_at(m, q) == spec_handler_at(child, q.drop_first()));
                                        if q.drop_first() == svr {
                                            assert(forall|t: int| 1 <= t < q.len() ==> q[t] == q.drop_first()[t - 1]);
                                            assert(forall|t: int| 1 <= t < sv.len() ==> sv[t] == sv.drop_first()[t - 1]);
                                            assert(q =~= sv);
                                        } else {
                                            assert(q != sv);
                                        }
                                    } else {
                                        assert(find_literal(m.literals@.drop_first(), k2) is None);
                                        assert(find_literal(m.literals@, k2) is None);
                                        assert(q != sv);
                                    }
                                }
                                SegView::Capture(_) => {
                                    assert(q != sv);
                                }
                            }
                        }
                    }
                    assert forall|q: Seq<SegView>| #[trigger] spec_can_insert(m, q)
                        == spec_compatible(sv, q) by {
                        if q.len() > 0 {
                            match q[0] {
                                SegView::Literal(k2) => {
                                    if k2 == k@ {
                                        assert(find_literal(m.literals@, k2) == Some(child));
                                        assert(spec_can_insert(m, q) == spec_can_insert(child, q.drop_first()));
                                    } else {
                                        assert(find_literal(m.literals@.drop_first(), k2) is None);
                                        assert(find_literal(m.literals@, k2) is None);
                                    }
                                }
                                SegView::Capture(_) => {}
                            }
                        }
                    }
                }
                m
            }
            Segment::Capture(name) => {
                let child = build_chain(pat, i + 1, handler);
                let m = Node {
                    handler: None,
                    literals: Vec::new(),
                    capture: Some((vstd::slice::slice_to_vec(name.as_slice()), Box::new(child))),
                };
                proof {
                    assert(m.literals@.len() == 0);
                    assert(sv[0] == SegView::Capture(name@));
                    assert forall|q: Seq<SegView>| #[trigger] spec_handler_at(m, q) == (if q == sv {
                        Some(handler)
                    } else {
                        None::<H>
                    }) by {
                        if q.len() == 0 {
                            assert(q != sv);
                        } else {
                            match q[0] {
                                SegView::Literal(k2) => {
                                    assert(find_literal(m.literals@, k2) is None);
                                    assert(q != sv);
                                }
                                SegView::Capture(n2) => {
                                    if n2 == name@ {
                                        assert(m.capture->Some_0.0@ == name@);
                                        assert(spec_handler_at(m, q) == spec_handler_at(child, q.drop_first()));
                                        if q.drop_first() == svr {
                                            assert(forall|t: int| 1 <= t < q.len() ==> q[t] == q.drop_first()[t - 1]);
                                            assert(forall|t: int| 1 <= t < sv.len() ==> sv[t] == sv.drop_first()[t - 1]);
                                            assert(q =~= sv);
                                        } else {
                                            assert(q != sv);
                                        }
                                    } else {
                                        assert(q != sv);
                                    }
                                }
                            }
                        }
                    }
                    assert forall|q: Seq<SegView>| #[trigger] spec_can_insert(m, q)
                        == spec_compatible(sv, q) by {
                        if q.len() > 0 {
                            match q[0] {
                                SegView::Literal(k2) => {
                                    assert(find_literal(m.literals@, k2) is None);
                                }
                                SegView::Capture(n2) => {
                                    if n2 == name@ {
                                        assert(m.capture->Some_0.0@ == name@);
                                        assert(spec_can_insert(m, q) == spec_can_insert(child, q.drop_first()));
                                    }
                                }
                            }
                        }
                    }
                }
                m
            }
        }
    }
}

/// Insert `handler` for the template suffix `pat[i..]` under `n`, which
/// must accept it: the result holds `handler` under that suffix and is
/// unchanged for every other template, and a template stays insertable
/// exactly when it was insertable before and is compatible with the
/// suffix.
#[verifier::rlimit(50)]
fn insert_new_at<H>(n: Node<H>, pat: &Vec<Segment>, i: usize, handler: H) -> (r: Node<H>)
    requires
        i <= pat.len(),
        spec_can_insert(n, pat.deep_view().skip(i as int)),
    ensures
        forall|q: Seq<SegView>| #[trigger] spec_handler_at(r, q) == (if q == pat.deep_view().skip(
            i as int,
        ) {
            Some(handler)
        } else {
            spec_handler_at(n, q)
        }),
        forall|q: Seq<SegView>| #[trigger] spec_can_insert(r, q) == (spec_can_insert(n, q)
            && spec_compatible(pat.deep_view().skip(i as int), q)),
    decreases pat.len() - i,
{
    let ghost orig = n;
    let ghost sv = pat.deep_view().skip(i as int);
    if i == pat.len() {
        proof {
            assert(sv.len() == 0);
        }
        let mut m = n;
        m.handler = Some(handler);
        proof {
            assert(m.literals == orig.literals);
            assert(m.capture == orig.capture);
            assert forall|q: Seq<SegView>| #[trigger] spec_handler_at(m, q) == (if q == sv {
                Some(handler)
            } else {
                spec_handler_at(orig, q)
            }) by {
                if q.len() == 0 {
                    assert(q =~= sv);
                } else {
                    assert(q != sv);
                    match q[0] {
                        SegView::Literal(k2) => {
                            assert(find_literal(m.literals@, k2) == find_literal(orig.literals@, k2));
                            match find_literal(orig.literals@, k2) {
                                Some(c) => {
                                    assert(spec_handler_at(m, q) == spec_handler_at(c, q.drop_first()));
                                    assert(spec_handler_at(orig, q) == spec_handler_at(c, q.drop_first()));
                                }
                                None => {}
                            }
                        }
                        SegView::Capture(n2) => {
                            match orig.capture {
                                Some(c) => {
                                    if c.0@ == n2 {
                                        assert(spec_handler_at(m, q) == spec_handler_at(*c.1, q.drop_first()));
                                        assert(spec_handler_at(orig, q) == spec_handler_at(*c.1, q.drop_first()));
                                    }
                                }
                                None => {}
                            }
                        }
                    }
                }
            }
            assert forall|q: Seq<SegView>| #[trigger] spec_can_insert(m, q) == (spec_can_insert(
                orig,
                q,
            ) && spec_compatible(sv, q)) by {
                if q.len() == 0 {
                    assert(q =~= sv);
                } else {
                    match q[0] {
                        SegView::Literal(k2) => {
                            assert(find_literal(m.literals@, k2) == find_literal(orig.literals@, k2));
                            match find_literal(orig.literals@, k2) {
                                Some(c) => {
                                    assert(spec_can_insert(m, q) == spec_can_insert(c, q.drop_first()));
                                    assert(spec_can_insert(orig, q) == spec_can_insert(c, q.drop_first()));
                                }
                                None => {}
                            }
                        }
                        SegView::Capture(n2) => {
                            match orig.capture {
                                Some(c) => {
                                    if c.0@ == n2 {
                                        assert(spec_can_insert(m, q) == spec_can_insert(*c.1, q.drop_first()));
                                        assert(spec_can_insert(orig, q) == spec_can_insert(*c.1, q.drop_first()));
                                    }
                                }
                                None => {}
                            }
                        }
                    }
                }
            }
        }
        m
    } else {
        proof {
            assert(sv.len() == pat.len() - i);
            assert(sv[0] == pat.deep_view()[i as int]);
            assert(sv.drop_first() =~~= pat.deep_view().skip(i + 1));
        }
        let ghost svr = pat.deep_view().skip(i + 1);
        match &pat[i] {
            Segment::Literal(k) => {
                proof {
                    assert(sv[0] == SegView::Literal(k@));
                }
                match find_child_idx(&n.literals, k.as_slice()) {
                    Some(j) => {
                        proof {
                            lemma_find_literal_at(n.literals@, k@, j as int);
                        }
                        let mut m = n;
                        let pair = m.literals.remove(j);
                        let key = pair.0;
                        let child = pair.1;
                        let child2 = insert_new_at(child, pat, i + 1, handler);
                        m.literals.insert(j, (key, child2));
                        proof {
                            assert(m.literals@ =~= orig.literals@.update(
                                j as int,
                                (orig.literals@[j as int].0, child2),
                            ));
                            assert(m.handler == orig.handler);
                            assert(m.capture == orig.capture);
                            assert forall|q: Seq<SegView>| #[trigger] spec_handler_at(m, q) == (if q
                                == sv {
                                Some(handler)
                            } else {
                                spec_handler_at(orig, q)
                            }) by {
                                if q.len() == 0 {
                                    assert(q != sv);
                                } else {
                                    match q[0] {
                                        SegView::Literal(k2) => {
                                            lemma_find_literal_update(orig.literals@, j as int, child2, k2);
                                            if k2 == k@ {
                                                assert(find_literal(m.literals@, k2) == Some(child2));
                                                assert(find_literal(orig.literals@, k2) == Some(child));
                                                assert(spec_handler_at(m, q) == spec_handler_at(child2, q.drop_first()));
                                                assert(spec_handler_at(orig, q) == spec_handler_at(child, q.drop_first()));
                                                if q.drop_first() == svr {
                                                    assert(forall|t: int| 1 <= t < q.len() ==> q[t] == q.drop_first()[t - 1]);
                                                    assert(forall|t: int| 1 <= t < sv.len() ==> sv[t] == sv.drop_first()[t - 1]);
                                                    assert(q =~= sv);
                                                } else {
                                                    assert(q != sv);
                                                }
                                            } else {
                                                assert(q != sv);
                                                assert(find_literal(m.literals@, k2) == find_literal(orig.literals@, k2));
                                                match find_literal(orig.literals@, k2) {
                                                    Some(c) => {
                                                        assert(spec_handler_at(m, q) == spec_handler_at(c, q.drop_first()));
                                                        assert(spec_handler_at(orig, q) == spec_handler_at(c, q.drop_first()));
                                                    }
                                                    None => {}
                                                }
                                            }
                                        }
                                        SegView::Capture(n2) => {
                                            assert(q != sv);
                                            match orig.capture {
                                                Some(c) => {
                                                    if c.0@ == n2 {
                                                        assert(spec_handler_at(m, q) == spec_handler_at(*c.1, q.drop_first()));
                                                        assert(spec_handler_at(orig, q) == spec_handler_at(*c.1, q.drop_first()));
                                                    }
                                                }
                                                None => {}
                                            }
                                        }
                                    }
                                }
                            }
                            assert forall|q: Seq<SegView>| #[trigger] spec_can_insert(m, q) == (
                            spec_can_insert(orig, q) && spec_compatible(sv, q)) by {
                                if q.len() > 0 {
                                    match q[0] {
                                        SegView::Literal(k2) => {
                                            lemma_find_literal_update(orig.literals@, j as int, child2, k2);
                                            if k2 == k@ {
                                                assert(find_literal(m.literals@, k2) == Some(child2));
                                                assert(find_literal(orig.literals@, k2) == Some(child));
                                                assert(spec_can_insert(m, q) == spec_can_insert(child2, q.drop_first()));
                                                assert(spec_can_insert(orig, q) == spec_can_insert(child, q.drop_first()));
                                            } else {
                                                assert(find_literal(m.literals@, k2) == find_literal(orig.literals@, k2));
                                                match find_literal(orig.literals@, k2) {
                                                    Some(c) => {
                                                        assert(spec_can_insert(m, q) == spec_can_insert(c, q.drop_first()));
                                                        assert(spec_can_insert(orig, q) == spec_can_insert(c, q.drop_first()));
                                                    }
                                                    None => {}
                                                }
                                            }
                                        }
                                        SegView::Capture(n2) => {
                                            match orig.capture {
                                                Some(c) => {
                                                    if c.0@ == n2 {
                                                        assert(spec_can_insert(m, q) == spec_can_insert(*c.1, q.drop_first()));
                                                        assert(spec_can_insert(orig, q) == spec_can_insert(*c.1, q.drop_first()));
                                                    }
                                                }
                                                None => {}
                                            }
                                        }
                                    }
                                }
                            }
                        }
                        m
                    }
                    None => {
                        proof {
                            lemma_find_literal_none(n.literals@, k@);
                        }
                        let sub = build_chain(pat, i + 1, handler);
                        let mut m = n;
                        let key = vstd::slice::slice_to_vec(k.as_slice());
                        m.literals.push((key, sub));
                        proof {
                            let ghost item = m.literals@.last();
                            assert(m.literals@ =~= orig.literals@.push(item));
                            assert(item.0@ == k@ && item.1 == sub);
                            assert(m.handler == orig.handler);
                            assert(m.capture == orig.capture);
                            assert forall|q: Seq<SegView>| #[trigger] spec_handler_at(m, q) == (if q
                                == sv {
                                Some(handler)
                            } else {
                                spec_handler_at(orig, q)
                            }) by {
                                if q.len() == 0 {
                                    assert(q != sv);
                                } else {
                                    match q[0] {
                                        SegView::Literal(k2) => {
                                            lemma_find_literal_push(orig.literals@, item, k2);
                                            if k2 == k@ {
                                                assert(find_literal(orig.literals@, k2) is None);
                                                assert(find_literal(m.literals@, k2) == Some(sub));
                                                assert(spec_handler_at(m, q) == spec_handler_at(sub, q.drop_first()));
                                                if q.drop_first() == svr {
                                                    assert(forall|t: int| 1 <= t < q.len() ==> q[t] == q.drop_first()[t - 1]);
                                                    assert(forall|t: int| 1 <= t < sv.len() ==> sv[t] == sv.drop_first()[t - 1]);
                                                    assert(q =~= sv);
                                                } else {
                                                    assert(q != sv);
                                                }
                                            } else {
                                                assert(q != sv);
                                                assert(find_literal(m.literals@, k2) == find_literal(orig.literals@, k2));
                                                match find_literal(orig.literals@, k2) {
                                                    Some(c) => {
                                                        assert(spec_handler_at(m, q) == spec_handler_at(c, q.drop_first()));
                                                        assert(spec_handler_at(orig, q) == spec_handler_at(c, q.drop_first()));
                                                    }
                                                    None => {}
                                                }
                                            }
                                        }
                                        SegView::Capture(n2) => {
                                            assert(q != sv);
                                            match orig.capture {
                                                Some(c) => {
                                                    if c.0@ == n2 {
                                                        assert(spec_handler_at(m, q) == spec_handler_at(*c.1, q.drop_first()));
                                                        assert(spec_handler_at(orig, q) == spec_handler_at(*c.1, q.drop_first()));
                                                    }
                                                }
                                                None => {}
                                            }
                                        }
                                    }
                                }
                            }
                            assert forall|q: Seq<SegView>| #[trigger] spec_can_insert(m, q) == (
                            spec_can_insert(orig, q) && spec_compatible(sv, q)) by {
                                if q.len() > 0 {
                                    match q[0] {
                                        SegView::Literal(k2) => {
                                            lemma_find_literal_push(orig.literals@, item, k2);
                                            if k2 == k@ {
                                                assert(find_literal(orig.literals@, k2) is None);
                                                assert(find_literal(m.literals@, k2) == Some(sub));
                                                assert(spec_can_insert(m, q) == spec_can_insert(sub, q.drop_first()));
                                            } else {
                                                assert(find_literal(m.literals@, k2) == find_literal(orig.literals@, k2));
                                                match find_literal(orig.literals@, k2) {
                                                    Some(c) => {
                                                        assert(spec_can_insert(m, q) == spec_can_insert(c, q.drop_first()));
                                                        assert(spec_can_insert(orig, q) == spec_can_insert(c, q.drop_first()));
                                                    }
                                                    None => {}
                                                }
                                            }
                                        }
                                        SegView::Capture(n2) => {
                                            match orig.capture {
                                                Some(c) => {
                                                    if c.0@ == n2 {
                                                        assert(spec_can_insert(m, q) == spec_can_insert(*c.1, q.drop_first()));
                                                        assert(spec_can_insert(orig, q) == spec_can_insert(*c.1, q.drop_first()));
                                                    }
                                                }
                                                None => {}
                                            }
                                        }
                                    }
                                }
                            }
                        }
                        m
                    }
                }
            }
            Segment::Capture(name) => {
                proof {
                    assert(sv[0] == SegView::Capture(name@));
                }
                let mut m = n;
                match m.capture.take() {
                    Some(c) => {
                        proof {
                            assert(orig.capture->Some_0 == c);
                            assert(c.0@ == name@);
                        }
                        let cname = c.0;
                        let child2 = insert_new_at(*c.1, pat, i + 1, handler);
                        m.capture = Some((cname, Box::new(child2)));
                        proof {
                            let ghost child = *orig.capture->Some_0.1;
                            assert(m.capture->Some_0.0@ == name@);
                            assert(*m.capture->Some_0.1 == child2);
                            assert(m.handler == orig.handler);
                            assert(m.literals == orig.literals);
                            assert forall|q: Seq<SegView>| #[trigger] spec_handler_at(m, q) == (if q
                                == sv {
                                Some(handler)
                            } else {
                                spec_handler_at(orig, q)
                            }) by {
                                if q.len() == 0 {
                                    assert(q != sv);
                                } else {
                                    match q[0] {
                                        SegView::Literal(k2) => {
                                            assert(q != sv);
                                            assert(find_literal(m.literals@, k2) == find_literal(orig.literals@, k2));
                                            match find_literal(orig.literals@, k2) {
                                                Some(c3) => {
                                                    assert(spec_handler_at(m, q) == spec_handler_at(c3, q.drop_first()));
                                                    assert(spec_handler_at(orig, q) == spec_handler_at(c3, q.drop_first()));
                                                }
                                                None => {}
                                            }
                                        }
                                        SegView::Capture(n2) => {
                                            if n2 == name@ {
                                                assert(spec_handler_at(m, q) == spec_handler_at(child2, q.drop_first()));
                                                assert(spec_handler_at(orig, q) == spec_handler_at(child, q.drop_first()));
                                                if q.drop_first() == svr {
                                                    assert(forall|t: int| 1 <= t < q.len() ==> q[t] == q.drop_first()[t - 1]);
                                                    assert(forall|t: int| 1 <= t < sv.len() ==> sv[t] == sv.drop_first()[t - 1]);
                                                    assert(q =~= sv);
                                                } else {
                                                    assert(q != sv);
                                                }
                                            } else {
                                                assert(q != sv);
                                            }
                                        }
                                    }
                                }
                            }
                            assert forall|q: Seq<SegView>| #[trigger] spec_can_insert(m, q) == (
                            spec_can_insert(orig, q) && spec_compatible(sv, q)) by {
                                if q.len() > 0 {
                                    match q[0] {
                                        SegView::Literal(k2) => {
                                            assert(find_literal(m.literals@, k2) == find_literal(orig.literals@, k2));
                                            match find_literal(orig.literals@, k2) {
                                                Some(c3) => {
                                                    assert(spec_can_insert(m, q) == spec_can_insert(c3, q.drop_first()));
                                                    assert(spec_can_insert(orig, q) == spec_can_insert(c3, q.drop_first()));
                                                }
                                                None => {}
                                            }
                                        }
                                        SegView::Capture(n2) => {
                                            if n2 == name@ {
                                                assert(spec_can_insert(m, q) == spec_can_insert(child2, q.drop_first()));
                                                assert(spec_can_insert(orig, q) == spec_can_insert(child, q.drop_first()));
                                            }
                                        }
                                    }
                                }
                            }
                        }
                        m
                    }
                    None => {
                        let sub = build_chain(pat, i + 1, handler);
                        m.capture = Some((vstd::slice::slice_to_vec(name.as_slice()), Box::new(sub)));
                        proof {
                            assert(orig.capture is None);
                            assert(m.capture->Some_0.0@ == name@);
                            assert(*m.capture->Some_0.1 == sub);
                            assert(m.handler == orig.handler);
                            assert(m.literals == orig.literals);
                            assert forall|q: Seq<SegView>| #[trigger] spec_handler_at(m, q) == (if q
                                == sv {
                                Some(handler)
                            } else {
                                spec_handler_at(orig, q)
                            }) by {
                                if q.len() == 0 {
                                    assert(q != sv);
                                } else {
                                    match q[0] {
                                        SegView::Literal(k2) => {
                                            assert(q != sv);
                                            assert(find_literal(m.literals@, k2) == find_literal(orig.literals@, k2));
                                            match find_literal(orig.literals@, k2) {
                                                Some(c3) => {
                                                    assert(spec_handler_at(m, q) == spec_handler_at(c3, q.drop_first()));
                                                    assert(spec_handler_at(orig, q) == spec_handler_at(c3, q.drop_first()));
                                                }
                                                None => {}
                                            }
                                        }
                                        SegView::Capture(n2) => {
                                            if n2 == name@ {
                                                assert(spec_handler_at(m, q) == spec_handler_at(sub, q.drop_first()));
                                                if q.drop_first() == svr {
                                                    assert(forall|t: int| 1 <= t < q.len() ==> q[t] == q.drop_first()[t - 1]);
                                                    assert(forall|t: int| 1 <= t < sv.len() ==> sv[t] == sv.drop_first()[t - 1]);
                                                    assert(q =~= sv);
                                                } else {
                                                    assert(q != sv);
                                                }
                                            } else {
                                                assert(q != sv);
                                            }
                                        }
                                    }
                                }
                            }
                            assert forall|q: Seq<SegView>| #[trigger] spec_can_insert(m, q) == (
                            spec_can_insert(orig, q) && spec_compatible(sv, q)) by {
                                if q.len() > 0 {
                                    match q[0] {
                                        SegView::Literal(k2) => {
                                            assert(find_literal(m.literals@, k2) == find_literal(orig.literals@, k2));
                                            match find_literal(orig.literals@, k2) {
                                                Some(c3) => {
                                                    assert(spec_can_insert(m, q) == spec_can_insert(c3, q.drop_first()));
                                                    assert(spec_can_insert(orig, q) == spec_can_insert(c3, q.drop_first()));
                                                }
                                                None => {}
                                            }
                                        }
                                        SegView::Capture(n2) => {
                                            if n2 == name@ {
                                                assert(spec_can_insert(m, q) == spec_can_insert(sub, q.drop_first()));
                                            }
                                        }
                                    }
                                }
                            }
                        }
                        m
                    }
                }
            }
        }
    }
}

impl<H> Router<H> {
    /// Register `handler` under a parsed template. Insertion fails, and
    /// the router is unchanged, exactly when the template conflicts with
    /// a registered one; on success the template resolves to `handler`,
    /// every other template resolves as before, and a template stays
    /// insertable exactly when it was insertable before and is
    /// compatible with the one registered.
    pub fn insert(&mut self, pattern: &Vec<Segment>, handler: H) -> (r: Result<(), ConflictError>)
        ensures
            r is Ok <==> spec_can_insert(old(self).root, pattern.deep_view()),
            r is Err ==> *final(self) == *old(self),
            r is Ok ==> forall|q: Seq<SegView>| #[trigger] spec_handler_at(final(self).root, q) == (
            if q == pattern.deep_view() {
                Some(handler)
            } else {
                spec_handler_at(old(self).root, q)
            }),
            r is Ok ==> forall|q: Seq<SegView>| #[trigger] spec_can_insert(final(self).root, q) == (
            spec_can_insert(old(self).root, q) && spec_compatible(pattern.deep_view(), q)),
    {
        proof {
            assert(pattern.deep_view().skip(0) =~~= pattern.deep_view());
        }
        if !can_insert_at(&self.root, pattern, 0) {
            return Err(ConflictError);
        }
        let mut tmp = Node { handler: None, literals: Vec::new(), capture: None };
        core::mem::swap(&mut self.root, &mut tmp);
        let newroot = insert_new_at(tmp, pattern, 0, handler);
        self.root = newroot;
        Ok(())
    }
}

/// Whether a template matches a concrete, already-split path: same
/// length, literal segments equal to their path segments, capture
/// segments standing for non-empty path segments.
pub open spec fn pattern_matches(pat: Seq<SegView>, segs: Seq<Seq<u8>>) -> bool
    decreases pat.len(),
{
    if pat.len() == 0 {
        segs.len() == 0
    } else if segs.len() == 0 {
        false
    } else {
        (match pat[0] {
            SegView::Literal(l) => segs[0] == l,
            SegView::Capture(_) => segs[0].len() > 0,
        }) && pattern_matches(pat.drop_first(), segs.drop_first())
    }
}

/// The capture bindings a template takes from a matching path: one pair
/// per capture segment, its name bound to the path segment at the same
/// depth, in order; literal segments bind nothing.
pub open spec fn captures_of(pat: Seq<SegView>, segs: Seq<Seq<u8>>) -> Seq<(Seq<u8>, Seq<u8>)>
    decreases pat.len(),
{
    if pat.len() == 0 || segs.len() == 0 {
        Seq::empty()
    } else {
        match pat[0] {
            SegView::Literal(_) => captures_of(pat.drop_first(), segs.drop_first()),
            SegView::Capture(name) => seq![(name, segs[0])] + captures_of(
                pat.drop_first(),
                segs.drop_first(),
            ),
        }
    }
}

/// Whatever resolution returns comes from a registered template that
/// matches the path, and the returned bindings are exactly that
/// template's capture names bound to the corresponding path segments.
pub proof fn lemma_resolution_is_registered<H>(n: Node<H>, segs: Seq<Seq<u8>>)
    requires
        spec_resolve(n, segs) is Some,
    ensures
        exists|pat: Seq<SegView>|
            {
                &&& #[trigger] spec_handler_at(n, pat) == Some(spec_resolve(n, segs)->Some_0.0)
                &&& pattern_matches(pat, segs)
                &&& spec_resolve(n, segs)->Some_0.1 == captures_of(pat, segs)
            },
    decreases segs.len(),
{
    let r = spec_resolve(n, segs)->Some_0;
    if segs.len() == 0 {
        let w = Seq::<SegView>::empty();
        assert(spec_handler_at(n, w) == Some(r.0));
        assert(pattern_matches(w, segs));
        assert(r.1 =~~= captures_of(w, segs));
    } else {
        let rest = segs.drop_first();
        let lit = match find_literal(n.literals@, segs[0]) {
            Some(c) => spec_resolve(c, rest),
            None => None,
        };
        if lit is Some {
            let c = find_literal(n.literals@, segs[0])->Some_0;
            lemma_resolution_is_registered(c, rest);
            let r2 = spec_resolve(c, rest)->Some_0;
            let p2 = choose|p2: Seq<SegView>|
                {
                    &&& #[trigger] spec_handler_at(c, p2) == Some(r2.0)
                    &&& pattern_matches(p2, rest)
                    &&& r2.1 == captures_of(p2, rest)
                };
            let w = seq![SegView::Literal(segs[0])] + p2;
            assert(w.drop_first() =~= p2);
            assert(spec_handler_at(n, w) == spec_handler_at(c, p2));
            assert(pattern_matches(w, segs));
            assert(r.1 =~~= captures_of(w, segs));
            assert(spec_handler_at(n, w) == Some(r.0));
        } else {
            let c = n.capture->Some_0;
            let r2 = spec_resolve(*c.1, rest)->Some_0;
            lemma_resolution_is_registered(*c.1, rest);
            let p2 = choose|p2: Seq<SegView>|
                {
                    &&& #[trigger] spec_handler_at(*c.1, p2) == Some(r2.0)
                    &&& pattern_matches(p2, rest)
                    &&& r2.1 == captures_of(p2, rest)
                };
            let w = seq![SegView::Capture(c.0@)] + p2;
            assert(w.drop_first() =~= p2);
            assert(spec_handler_at(n, w) == spec_handler_at(*c.1, p2));
            assert(pattern_matches(w, segs));
            assert(r.1 =~~= captures_of(w, segs));
            assert(spec_handler_at(n, w) == Some(r.0));
        }
    }
}

/// A path matching any registered template always resolves to something.
pub proof fn lemma_registered_match_resolves<H>(n: Node<H>, pat: Seq<SegView>, segs: Seq<Seq<u8>>)
    requires
        spec_registered(n, pat),
        pattern_matches(pat, segs),
    ensures
        spec_resolve(n, segs) is Some,
    decreases pat.len(),
{
    if pat.len() == 0 {
        assert(segs.len() == 0);
    } else {
        assert(segs.len() > 0);
        match pat[0] {
            SegView::Literal(l) => {
                assert(segs[0] == l);
                let c = find_literal(n.literals@, segs[0])->Some_0;
                lemma_registered_match_resolves(c, pat.drop_first(), segs.drop_first());
            }
            SegView::Capture(name) => {
                let c = n.capture->Some_0;
                assert(c.0@ == name);
                lemma_registered_match_resolves(*c.1, pat.drop_first(), segs.drop_first());
            }
        }
    }
}

/// A literal match takes precedence over a capture at the same depth:
/// whenever some registered template opens with the path's first segment
/// as a literal and matches the path, resolution answers with a template
/// that also opens with that literal — never with one that captures the
/// segment.
pub proof fn lemma_literal_beats_capture<H>(n: Node<H>, pat: Seq<SegView>, segs: Seq<Seq<u8>>)
    requires
        segs.len() > 0,
        spec_registered(n, pat),
        pattern_matches(pat, segs),
        pat[0] == SegView::Literal(segs[0]),
    ensures
        spec_resolve(n, segs) is Some,
        exists|w: Seq<SegView>|
            {
                &&& #[trigger] spec_handler_at(n, w) == Some(spec_resolve(n, segs)->Some_0.0)
                &&& pattern_matches(w, segs)
                &&& spec_resolve(n, segs)->Some_0.1 == captures_of(w, segs)
                &&& w.len() > 0 && w[0] == SegView::Literal(segs[0])
            },
{
    let rest = segs.drop_first();
    let c = find_literal(n.literals@, segs[0])->Some_0;
    lemma_registered_match_resolves(c, pat.drop_first(), rest);
    let r2 = spec_resolve(c, rest)->Some_0;
    lemma_resolution_is_registered(c, rest);
    let p2 = choose|p2: Seq<SegView>|
        {
            &&& #[trigger] spec_handler_at(c, p2) == Some(r2.0)
            &&& pattern_matches(p2, rest)
            &&& r2.1 == captures_of(p2, rest)
        };
    let w = seq![SegView::Literal(segs[0])] + p2;
    assert(w.drop_first() =~= p2);
    assert(spec_handler_at(n, w) == spec_handler_at(c, p2));
    assert(pattern_matches(w, segs));
    assert(spec_resolve(n, segs)->Some_0.1 =~~= captures_of(w, segs));
    assert(spec_handler_at(n, w) == Some(spec_resolve(n, segs)->Some_0.0));
}

/// A template structurally identical to a registered one cannot be
/// inserted again: the second insertion fails.
pub proof fn lemma_duplicate_template_rejected<H>(n: Node<H>, pat: Seq<SegView>)
    requires
        spec_registered(n, pat),
    ensures
        !spec_can_insert(n, pat),
    decreases pat.len(),
{
    if pat.len() == 0 {
    } else {
        match pat[0] {
            SegView::Literal(k) => {
                match find_literal(n.literals@, k) {
                    Some(c) => {
                        lemma_duplicate_template_rejected(c, pat.drop_first());
                    }
                    None => {}
                }
            }
            SegView::Capture(name) => {
                match n.capture {
                    Some(c) => {
                        if c.0@ == name {
                            lemma_duplicate_template_rejected(*c.1, pat.drop_first());
                        }
                    }
                    None => {}
                }
            }
        }
    }
}

} // verus!
