//! Parsed documents, and the completion of the spans that a Solidity parser gives
use vstd::prelude::*;

use crate::definitions::{
    ConstructorDefinition, ContractDefinition, Definition, EnumDefinition, ErrorDefinition,
    EventDefinition, FunctionDefinition, Identifier, InterfaceDefinition, LibraryDefinition,
    ModifierDefinition, StructDefinition, VariableDeclaration,
};
use crate::error::Error;
use crate::lint::copy_range;
use crate::textindex::{
    advanced_at, compute_indices, has_index_at, has_offset, is_boundary, is_position_of,
    lemma_boundary_le_total, lemma_indices_at_offsets, lemma_position_at_advance, lemma_position_unique, no_lone_cr,
    position_after, position_at, sorted_offsets, TextIndex, TextPos, TextRange,
};

verus! {

/// A unique ID for a parsed document
#[derive(Debug, Clone, Copy, PartialEq, Eq, Structural, Hash)]
pub struct DocumentId(pub u64);

/// A random number, through `fastrand::u64` over the whole range of `u64`
#[verifier::external_body]
fn random_u64() -> u64 {
    fastrand::u64(..)
}

impl DocumentId {
    /// Generate a new random document ID
    ///
    /// Any `u64` may come out: uniqueness is only likely, not certain.
    pub fn new() -> Self {
        DocumentId(random_u64())
    }
}

impl Default for DocumentId {
    fn default() -> (d: Self)
        ensures
            d == DocumentId(0),
    {
        DocumentId(0)
    }
}

/// The result of parsing and identifying source items in a document
#[derive(Debug)]
pub struct ParsedDocument {
    /// A unique ID for the document given by the parser
    pub id: DocumentId,
    /// The list of definitions found in the document
    pub definitions: Vec<Definition>,
}

/// The spans of identifiers, in order
pub open spec fn spans_of(ids: Seq<Identifier>) -> Seq<TextRange> {
    ids.map_values(|i: Identifier| i.span)
}

/// The spans of a definition that the parser gives as byte offsets only, in the order in which they are
/// completed: the definition's own span, then those of its params, members or returns
pub open spec fn def_slots(d: Definition) -> Seq<TextRange> {
    match d {
        Definition::Contract(c) => seq![c.span],
        Definition::Interface(c) => seq![c.span],
        Definition::Library(c) => seq![c.span],
        Definition::Variable(c) => seq![c.span],
        Definition::Constructor(c) => seq![c.span] + spans_of(c.params@),
        Definition::Error(c) => seq![c.span] + spans_of(c.params@),
        Definition::Event(c) => seq![c.span] + spans_of(c.params@),
        Definition::Modifier(c) => seq![c.span] + spans_of(c.params@),
        Definition::Enumeration(c) => seq![c.span] + spans_of(c.members@),
        Definition::Struct(c) => seq![c.span] + spans_of(c.members@),
        Definition::Function(c) => seq![c.span] + spans_of(c.params@) + spans_of(c.returns@),
        Definition::NatspecParsingError(Error::NatspecParsingError { span, .. }) => seq![span],
        Definition::NatspecParsingError(_) => Seq::empty(),
    }
}

/// The byte offsets where the spans start and end
pub open spec fn span_offsets(spans: Seq<TextRange>) -> Seq<usize>
    decreases spans.len(),
{
    if spans.len() == 0 {
        Seq::empty()
    } else {
        span_offsets(spans.drop_last()) + seq![spans.last().start.utf8, spans.last().end.utf8]
    }
}

/// The byte offsets registered for a definition
pub open spec fn def_offsets(d: Definition) -> Seq<usize> {
    span_offsets(def_slots(d))
}

/// The byte offsets registered for all the definitions, in order
pub open spec fn all_offsets(defs: Seq<Definition>) -> Seq<usize>
    decreases defs.len(),
{
    if defs.len() == 0 {
        Seq::empty()
    } else {
        all_offsets(defs.drop_last()) + def_offsets(defs.last())
    }
}

/// The offsets never decrease
pub open spec fn offsets_sorted(s: Seq<usize>) -> bool {
    forall|i: int, j: int| 0 <= i < j < s.len() ==> s[i] <= s[j]
}

fn push_span_offsets(out: &mut Vec<usize>, span: &TextRange)
    ensures
        final(out)@ == old(out)@ + seq![span.start.utf8, span.end.utf8],
{
    out.push(span.start.utf8);
    out.push(span.end.utf8);
    assert(out@ =~= old(out)@ + seq![span.start.utf8, span.end.utf8]);
}

proof fn lemma_span_offsets_concat(a: Seq<TextRange>, b: Seq<TextRange>)
    ensures
        span_offsets(a + b) == span_offsets(a) + span_offsets(b),
    decreases b.len(),
{
    if b.len() == 0 {
        assert(a + b =~= a);
        assert(span_offsets(a) + span_offsets(b) =~= span_offsets(a));
    } else {
        lemma_span_offsets_concat(a, b.drop_last());
        assert((a + b).drop_last() =~= a + b.drop_last());
        assert((a + b).last() == b.last());
        assert(span_offsets(a) + span_offsets(b) =~= span_offsets(a) + span_offsets(b.drop_last())
            + seq![b.last().start.utf8, b.last().end.utf8]);
    }
}

proof fn lemma_span_offsets_one(x: TextRange)
    ensures
        span_offsets(seq![x]) == seq![x.start.utf8, x.end.utf8],
{
    assert(seq![x].drop_last() =~= Seq::<TextRange>::empty());
    assert(seq![x].last() == x);
    assert(span_offsets(Seq::<TextRange>::empty()) =~= Seq::<usize>::empty());
    assert(Seq::<usize>::empty() + seq![x.start.utf8, x.end.utf8] =~= seq![x.start.utf8, x.end.utf8]);
}

fn push_ident_offsets(out: &mut Vec<usize>, ids: &Vec<Identifier>)
    ensures
        final(out)@ == old(out)@ + span_offsets(spans_of(ids@)),
{
    let mut i: usize = 0;
    while i < ids.len()
        invariant
            i <= ids@.len(),
            out@ == old(out)@ + span_offsets(spans_of(ids@.take(i as int))),
        decreases ids@.len() - i,
    {
        push_span_offsets(out, &ids[i].span);
        proof {
            assert(spans_of(ids@.take(i + 1)) =~= spans_of(ids@.take(i as int)) + seq![ids@[i as int].span]);
            lemma_span_offsets_concat(spans_of(ids@.take(i as int)), seq![ids@[i as int].span]);
            lemma_span_offsets_one(ids@[i as int].span);
        }
        i = i + 1;
    }
    proof {
        assert(ids@.take(ids@.len() as int) =~= ids@);
    }
}

/// Register the offsets of a single definition
fn push_def_offsets(out: &mut Vec<usize>, def: &Definition)
    ensures
        final(out)@ == old(out)@ + def_offsets(*def),
{
    let ghost start = out@;
    match def.span() {
        Some(span) => push_span_offsets(out, &span),
        None => {},
    }
    let ghost after_span = out@;
    match def {
        Definition::Constructor(d) => push_ident_offsets(out, &d.params),
        Definition::Error(d) => push_ident_offsets(out, &d.params),
        Definition::Event(d) => push_ident_offsets(out, &d.params),
        Definition::Modifier(d) => push_ident_offsets(out, &d.params),
        Definition::Enumeration(d) => push_ident_offsets(out, &d.members),
        Definition::Struct(d) => push_ident_offsets(out, &d.members),
        Definition::Function(d) => {
            push_ident_offsets(out, &d.params);
            push_ident_offsets(out, &d.returns);
        },
        _ => {},
    }
    proof {
        match def {
            Definition::Constructor(d) => {
                lemma_span_offsets_concat(seq![d.span], spans_of(d.params@));
            },
            Definition::Error(d) => {
                lemma_span_offsets_concat(seq![d.span], spans_of(d.params@));
            },
            Definition::Event(d) => {
                lemma_span_offsets_concat(seq![d.span], spans_of(d.params@));
            },
            Definition::Modifier(d) => {
                lemma_span_offsets_concat(seq![d.span], spans_of(d.params@));
            },
            Definition::Enumeration(d) => {
                lemma_span_offsets_concat(seq![d.span], spans_of(d.members@));
            },
            Definition::Struct(d) => {
                lemma_span_offsets_concat(seq![d.span], spans_of(d.members@));
            },
            Definition::Function(d) => {
                lemma_span_offsets_concat(seq![d.span], spans_of(d.params@));
                lemma_span_offsets_concat(seq![d.span] + spans_of(d.params@), spans_of(d.returns@));
            },
            _ => {},
        }
        match def.spec_span() {
            Some(sp) => {
                lemma_span_offsets_one(sp);
            },
            None => {},
        }
        assert(out@ =~= old(out)@ + def_offsets(*def));
    }
}

/// Sort byte offsets in increasing order
fn sort_offsets(v: Vec<usize>) -> (r: Vec<usize>)
    ensures
        offsets_sorted(r@),
        r@.to_multiset() == v@.to_multiset(),
{
    let ghost orig = v@;
    let mut v = v;
    let mut r: Vec<usize> = Vec::new();
    proof {
        broadcast use vstd::seq_lib::group_to_multiset_ensures;
        assert(r@.to_multiset() =~= vstd::multiset::Multiset::empty());
        assert(r@.to_multiset().add(v@.to_multiset()) =~= orig.to_multiset());
    }
    while v.len() > 0
        invariant
            offsets_sorted(r@),
            r@.to_multiset().add(v@.to_multiset()) == orig.to_multiset(),
        decreases v@.len(),
    {
        let ghost v_before = v@;
        let x = v.pop().unwrap();
        proof {
            assert(v_before == v@.push(x));
            vstd::seq_lib::to_multiset_build(v@, x);
        }
        let mut pos: usize = 0;
        while pos < r.len() && r[pos] < x
            invariant
                pos <= r@.len(),
                forall|k: int| 0 <= k < pos ==> #[trigger] r@[k] < x,
            decreases r@.len() - pos,
        {
            pos = pos + 1;
        }
        let ghost r_before = r@;
        r.insert(pos, x);
        proof {
            r_before.insert_ensures(pos as int, x);
            vstd::seq_lib::to_multiset_insert(r_before, pos as int, x);
            assert forall|i: int, j: int| 0 <= i < j < r@.len() implies r@[i] <= r@[j] by {
                if j < pos {
                } else if i < pos && j == pos {
                } else if i < pos {
                    assert(r@[j] == r_before[j - 1]);
                    if pos < r_before.len() {
                        assert(x <= r_before[pos as int]);
                    }
                    assert(r_before[i] <= r_before[j - 1]) by {
                        if i < j - 1 {
                        }
                    }
                } else if i == pos {
                    assert(r@[j] == r_before[j - 1]);
                    assert(x <= r_before[pos as int]);
                } else {
                    assert(r@[i] == r_before[i - 1]);
                    assert(r@[j] == r_before[j - 1]);
                }
            }
            broadcast use vstd::multiset::group_multiset_axioms;
            assert(r@.to_multiset().add(v@.to_multiset()) =~= orig.to_multiset());
        }
    }
    proof {
        broadcast use vstd::seq_lib::group_to_multiset_ensures;
        assert(v@.to_multiset() =~= vstd::multiset::Multiset::empty());
        assert(r@.to_multiset() =~= orig.to_multiset());
    }
    r
}

/// Gather all the start and end byte offsets for the definitions, including their members/params/returns.
///
/// The result is sorted, and holds each registered offset as many times as it was registered.
pub fn gather_offsets(definitions: &[Definition]) -> (offsets: Vec<usize>)
    ensures
        offsets_sorted(offsets@),
        offsets@.to_multiset() == all_offsets(definitions@).to_multiset(),
{
    let mut offsets: Vec<usize> = Vec::new();
    let mut i: usize = 0;
    while i < definitions.len()
        invariant
            i <= definitions@.len(),
            offsets@ == all_offsets(definitions@.take(i as int)),
        decreases definitions@.len() - i,
    {
        push_def_offsets(&mut offsets, &definitions[i]);
        proof {
            assert(definitions@.take(i + 1).drop_last() =~= definitions@.take(i as int));
        }
        i = i + 1;
    }
    proof {
        assert(definitions@.take(definitions@.len() as int) =~= definitions@);
    }
    sort_offsets(offsets)
}

/// The first index at or after `from` whose byte offset is at least `o`, if any
pub open spec fn first_at_least(ti: Seq<TextIndex>, from: int, o: int) -> Option<int>
    decreases ti.len() - from,
{
    if 0 <= from < ti.len() {
        if ti[from].utf8 >= o {
            Some(from)
        } else {
            first_at_least(ti, from + 1, o)
        }
    } else {
        None
    }
}

/// A span completed from the computed indices, searching from position `idx`, with the position to search from
/// next
///
/// The start is the first index at or after `idx` that is not before the span's start offset; the end is the
/// first index after that one that is not before the span's end offset.
pub open spec fn fill_span(ti: Seq<TextIndex>, idx: int, span: TextRange) -> Option<(int, TextRange)> {
    match first_at_least(ti, idx, span.start.utf8 as int) {
        None => None,
        Some(i) => match first_at_least(ti, i + 1, span.end.utf8 as int) {
            None => None,
            Some(j) => Some((i + 1, core::ops::Range { start: ti[i], end: ti[j] })),
        },
    }
}

/// The spans completed in order, each search starting where the previous one left off
pub open spec fn fill_spans(ti: Seq<TextIndex>, idx: int, spans: Seq<TextRange>) -> Option<
    (int, Seq<TextRange>),
>
    decreases spans.len(),
{
    if spans.len() == 0 {
        Some((idx, Seq::empty()))
    } else {
        match fill_span(ti, idx, spans[0]) {
            None => None,
            Some((i1, s1)) => match fill_spans(ti, i1, spans.drop_first()) {
                None => None,
                Some((e, rest)) => Some((e, seq![s1] + rest)),
            },
        }
    }
}

/// The completed spans of a definition
pub open spec fn fill_def(ti: Seq<TextIndex>, idx: int, d: Definition) -> Option<(int, Seq<TextRange>)> {
    fill_spans(ti, idx, def_slots(d))
}

/// The completed spans of all definitions, in order, each search starting where the previous one left off
pub open spec fn populate_all(ti: Seq<TextIndex>, idx: int, defs: Seq<Definition>) -> Option<
    (int, Seq<Seq<TextRange>>),
>
    decreases defs.len(),
{
    if defs.len() == 0 {
        Some((idx, Seq::empty()))
    } else {
        match fill_def(ti, idx, defs[0]) {
            None => None,
            Some((i1, sp)) => match populate_all(ti, i1, defs.drop_first()) {
                None => None,
                Some((e, rest)) => Some((e, seq![sp] + rest)),
            },
        }
    }
}

/// Two lists of identifiers have the same names
pub open spec fn same_names(a: Seq<Identifier>, b: Seq<Identifier>) -> bool {
    a.len() == b.len() && forall|k: int| 0 <= k < a.len() ==> #[trigger] a[k].name == b[k].name
}

/// Two definitions are equal but for their spans
pub open spec fn same_but_spans(a: Definition, b: Definition) -> bool {
    match (a, b) {
        (Definition::Contract(x), Definition::Contract(y)) => x.name == y.name && x.natspec == y.natspec,
        (Definition::Interface(x), Definition::Interface(y)) => x.name == y.name && x.natspec
            == y.natspec,
        (Definition::Library(x), Definition::Library(y)) => x.name == y.name && x.natspec == y.natspec,
        (Definition::Constructor(x), Definition::Constructor(y)) => x.parent == y.parent && x.natspec
            == y.natspec && same_names(x.params@, y.params@),
        (Definition::Enumeration(x), Definition::Enumeration(y)) => x.parent == y.parent && x.name
            == y.name && x.natspec == y.natspec && same_names(x.members@, y.members@),
        (Definition::Error(x), Definition::Error(y)) => x.parent == y.parent && x.name == y.name
            && x.natspec == y.natspec && same_names(x.params@, y.params@),
        (Definition::Event(x), Definition::Event(y)) => x.parent == y.parent && x.name == y.name
            && x.natspec == y.natspec && same_names(x.params@, y.params@),
        (Definition::Function(x), Definition::Function(y)) => x.parent == y.parent && x.name == y.name
            && x.natspec == y.natspec && x.attributes == y.attributes && same_names(
            x.params@,
            y.params@,
        ) && same_names(x.returns@, y.returns@),
        (Definition::Modifier(x), Definition::Modifier(y)) => x.parent == y.parent && x.name == y.name
            && x.natspec == y.natspec && x.attributes == y.attributes && same_names(
            x.params@,
            y.params@,
        ),
        (Definition::Struct(x), Definition::Struct(y)) => x.parent == y.parent && x.name == y.name
            && x.natspec == y.natspec && same_names(x.members@, y.members@),
        (Definition::Variable(x), Definition::Variable(y)) => x.parent == y.parent && x.name == y.name
            && x.natspec == y.natspec && x.attributes == y.attributes,
        (
            Definition::NatspecParsingError(Error::NatspecParsingError { parent: p1, message: m1, .. }),
            Definition::NatspecParsingError(Error::NatspecParsingError { parent: p2, message: m2, .. }),
        ) => p1 == p2 && m1 == m2,
        (Definition::NatspecParsingError(e1), Definition::NatspecParsingError(e2)) => e1 == e2 && !(
        e1 is NatspecParsingError),
        _ => false,
    }
}

/// The definitions `new` are `old` with their spans completed from the indices `ti`
pub open spec fn populated(ti: Seq<TextIndex>, old: Seq<Definition>, new: Seq<Definition>) -> bool {
    match populate_all(ti, 0, old) {
        Some((_, spans)) => {
            &&& new.len() == old.len()
            &&& forall|k: int|
                0 <= k < old.len() ==> same_but_spans(#[trigger] old[k], new[k]) && def_slots(new[k])
                    == spans[k]
        },
        None => false,
    }
}

/// The position where a completion ends
pub open spec fn fill_end(r: Option<(int, Seq<TextRange>)>) -> int {
    match r {
        Some((e, _)) => e,
        None => 0,
    }
}

/// The completed spans of a completion
pub open spec fn fill_result(r: Option<(int, Seq<TextRange>)>) -> Seq<TextRange> {
    match r {
        Some((_, s)) => s,
        None => Seq::empty(),
    }
}

fn first_at_least_from(ti: &[TextIndex], from: usize, o: usize) -> (r: Option<usize>)
    ensures
        match r {
            Some(i) => first_at_least(ti@, from as int, o as int) == Some(i as int) && from <= i
                < ti@.len(),
            None => first_at_least(ti@, from as int, o as int) is None,
        },
{
    let mut i = from;
    while i < ti.len()
        invariant
            from <= i,
            first_at_least(ti@, i as int, o as int) == first_at_least(ti@, from as int, o as int),
        decreases ti@.len() - i,
    {
        if ti[i].utf8 >= o {
            return Some(i);
        }
        i = i + 1;
    }
    None
}

fn fill_span_at(ti: &[TextIndex], idx: usize, span: &TextRange) -> (r: Option<(usize, TextRange)>)
    ensures
        match r {
            Some((i, sp)) => fill_span(ti@, idx as int, *span) == Some((i as int, sp)) && i <= ti@.len(),
            None => fill_span(ti@, idx as int, *span) is None,
        },
{
    let _n = ti.len();
    match first_at_least_from(ti, idx, span.start.utf8) {
        None => None,
        Some(i) => match first_at_least_from(ti, i + 1, span.end.utf8) {
            None => None,
            Some(j) => Some((i + 1, core::ops::Range { start: ti[i], end: ti[j] })),
        },
    }
}

/// Where the completion of the spans of `ids` would end, if it succeeds
fn fill_idents_end(ti: &[TextIndex], idx: usize, ids: &Vec<Identifier>) -> (r: Option<usize>)
    ensures
        match r {
            Some(e) => fill_spans(ti@, idx as int, spans_of(ids@)) matches Some((e2, _)) && e2 == e,
            None => fill_spans(ti@, idx as int, spans_of(ids@)) is None,
        },
{
    let ghost all = spans_of(ids@);
    let mut cur = idx;
    let mut k: usize = 0;
    proof {
        assert(all.skip(0) =~= all);
    }
    while k < ids.len()
        invariant
            k <= ids@.len(),
            all == spans_of(ids@),
            fill_spans(ti@, idx as int, all) is Some <==> fill_spans(ti@, cur as int, all.skip(k as int))
                is Some,
            fill_spans(ti@, idx as int, all) is Some ==> fill_end(fill_spans(ti@, idx as int, all))
                == fill_end(fill_spans(ti@, cur as int, all.skip(k as int))),
        decreases ids@.len() - k,
    {
        proof {
            assert(all.skip(k as int)[0] == ids@[k as int].span);
            assert(all.skip(k as int).drop_first() =~= all.skip(k + 1));
        }
        match fill_span_at(ti, cur, &ids[k].span) {
            None => {
                return None;
            },
            Some((i1, _)) => {
                cur = i1;
            },
        }
        k = k + 1;
    }
    proof {
        assert(all.skip(k as int) =~= Seq::<TextRange>::empty());
    }
    Some(cur)
}

/// Complete the spans of `ids`, searching from position `idx`; returns where the next search starts
fn fill_idents(ti: &[TextIndex], idx: usize, ids: Vec<Identifier>) -> (r: (usize, Vec<Identifier>))
    requires
        fill_spans(ti@, idx as int, spans_of(ids@)) is Some,
    ensures
        fill_spans(ti@, idx as int, spans_of(ids@)) == Some((r.0 as int, spans_of(r.1@))),
        same_names(ids@, r.1@),
{
    let ghost orig = ids@;
    let ghost all = spans_of(ids@);
    let mut rest = ids;
    let mut done: Vec<Identifier> = Vec::new();
    let mut cur = idx;
    let mut k: usize = 0;
    let n = rest.len();
    proof {
        assert(all.skip(0) =~= all);
        assert(orig.skip(0) =~= orig);
        assert(spans_of(done@) =~= Seq::<TextRange>::empty());
        assert(Seq::<TextRange>::empty() + fill_result(fill_spans(ti@, idx as int, all)) =~= fill_result(fill_spans(
            ti@,
            idx as int,
            all,
        )));
    }
    while rest.len() > 0
        invariant
            k + rest@.len() == n,
            n == orig.len(),
            all == spans_of(orig),
            rest@ == orig.skip(k as int),
            done@.len() == k,
            forall|j: int| 0 <= j < k ==> #[trigger] done@[j].name == orig[j].name,
            fill_spans(ti@, cur as int, all.skip(k as int)) is Some,
            fill_end(fill_spans(ti@, idx as int, all)) == fill_end(fill_spans(ti@, cur as int, all.skip(k as int))),
            fill_result(fill_spans(ti@, idx as int, all)) == spans_of(done@) + fill_result(fill_spans(
                ti@,
                cur as int,
                all.skip(k as int),
            )),
        decreases rest@.len(),
    {
        let id = rest.remove(0);
        proof {
            assert(id == orig[k as int]);
            assert(rest@ =~= orig.skip(k + 1));
            assert(all.skip(k as int)[0] == id.span);
            assert(all.skip(k as int).drop_first() =~= all.skip(k + 1));
        }
        let (i1, sp) = match fill_span_at(ti, cur, &id.span) {
            Some(x) => x,
            None => {
                proof {
                    assert(false);
                }
                (cur, copy_range(&id.span))
            },
        };
        let ghost done_before = spans_of(done@);
        let Identifier { name, span: _ } = id;
        done.push(Identifier { name, span: sp });
        proof {
            assert(spans_of(done@) =~= done_before.push(sp));
            assert(done_before + (seq![sp] + fill_result(fill_spans(ti@, i1 as int, all.skip(k + 1))))
                =~= done_before.push(sp) + fill_result(fill_spans(ti@, i1 as int, all.skip(k + 1))));
        }
        cur = i1;
        k = k + 1;
    }
    proof {
        assert(all.skip(k as int) =~= Seq::<TextRange>::empty());
        assert(spans_of(done@) + Seq::<TextRange>::empty() =~= spans_of(done@));
    }
    (cur, done)
}

proof fn lemma_fill_spans_concat(ti: Seq<TextIndex>, idx: int, a: Seq<TextRange>, b: Seq<TextRange>)
    ensures
        fill_spans(ti, idx, a + b) == match fill_spans(ti, idx, a) {
            None => None,
            Some((e1, ra)) => match fill_spans(ti, e1, b) {
                None => None,
                Some((e2, rb)) => Some((e2, ra + rb)),
            },
        },
    decreases a.len(),
{
    if a.len() == 0 {
        assert(a + b =~= b);
        match fill_spans(ti, idx, b) {
            Some((e2, rb)) => {
                assert(Seq::<TextRange>::empty() + rb =~= rb);
            },
            None => {},
        }
    } else {
        assert((a + b)[0] == a[0]);
        assert((a + b).drop_first() =~= a.drop_first() + b);
        match fill_span(ti, idx, a[0]) {
            None => {},
            Some((i1, s1)) => {
                lemma_fill_spans_concat(ti, i1, a.drop_first(), b);
                match fill_spans(ti, i1, a.drop_first()) {
                    None => {},
                    Some((e1, ra)) => {
                        match fill_spans(ti, e1, b) {
                            None => {},
                            Some((e2, rb)) => {
                                assert(seq![s1] + (ra + rb) =~= (seq![s1] + ra) + rb);
                            },
                        }
                    },
                }
            },
        }
    }
}

proof fn lemma_fill_spans_one(ti: Seq<TextIndex>, idx: int, x: TextRange)
    ensures
        fill_spans(ti, idx, seq![x]) == match fill_span(ti, idx, x) {
            None => None,
            Some((i1, s1)) => Some((i1, seq![s1])),
        },
{
    assert(seq![x][0] == x);
    assert(seq![x].drop_first() =~= Seq::<TextRange>::empty());
    match fill_span(ti, idx, x) {
        Some((i1, s1)) => {
            assert(fill_spans(ti, i1, seq![x].drop_first()) == Some((i1, Seq::<TextRange>::empty())));
            assert(seq![s1] + Seq::<TextRange>::empty() =~= seq![s1]);
        },
        None => {},
    }
}

/// Complete a single span, under the requirement that the search succeeds
fn fill_one(ti: &[TextIndex], idx: usize, span: &TextRange) -> (r: (usize, TextRange))
    requires
        fill_span(ti@, idx as int, *span) is Some,
    ensures
        fill_span(ti@, idx as int, *span) == Some((r.0 as int, r.1)),
{
    match fill_span_at(ti, idx, span) {
        Some(x) => x,
        None => {
            proof {
                assert(false);
            }
            (idx, copy_range(span))
        },
    }
}

/// Where the completion of the spans of the definition would end, if it succeeds
fn fill_def_end(ti: &[TextIndex], idx: usize, d: &Definition) -> (r: Option<usize>)
    ensures
        match r {
            Some(e) => fill_def(ti@, idx as int, *d) matches Some((e2, _)) && e2 == e,
            None => fill_def(ti@, idx as int, *d) is None,
        },
{
    let span = match d.span() {
        Some(sp) => sp,
        None => {
            return Some(idx);
        },
    };
    let i1 = match fill_span_at(ti, idx, &span) {
        Some((i1, _)) => {
            proof {
                lemma_fill_spans_one(ti@, idx as int, span);
            }
            i1
        },
        None => {
            proof {
                lemma_fill_spans_one(ti@, idx as int, span);
                match d {
                    Definition::Constructor(c) => lemma_fill_spans_concat(ti@, idx as int, seq![span], spans_of(c.params@)),
                    Definition::Error(c) => lemma_fill_spans_concat(ti@, idx as int, seq![span], spans_of(c.params@)),
                    Definition::Event(c) => lemma_fill_spans_concat(ti@, idx as int, seq![span], spans_of(c.params@)),
                    Definition::Modifier(c) => lemma_fill_spans_concat(ti@, idx as int, seq![span], spans_of(c.params@)),
                    Definition::Enumeration(c) => lemma_fill_spans_concat(ti@, idx as int, seq![span], spans_of(c.members@)),
                    Definition::Struct(c) => lemma_fill_spans_concat(ti@, idx as int, seq![span], spans_of(c.members@)),
                    Definition::Function(c) => {
                        lemma_fill_spans_concat(ti@, idx as int, seq![span], spans_of(c.params@));
                        lemma_fill_spans_concat(ti@, idx as int, seq![span] + spans_of(c.params@), spans_of(c.returns@));
                    },
                    _ => {},
                }
            }
            return None;
        },
    };
    proof {
        match d {
            Definition::Constructor(c) => lemma_fill_spans_concat(ti@, idx as int, seq![span], spans_of(c.params@)),
            Definition::Error(c) => lemma_fill_spans_concat(ti@, idx as int, seq![span], spans_of(c.params@)),
            Definition::Event(c) => lemma_fill_spans_concat(ti@, idx as int, seq![span], spans_of(c.params@)),
            Definition::Modifier(c) => lemma_fill_spans_concat(ti@, idx as int, seq![span], spans_of(c.params@)),
            Definition::Enumeration(c) => lemma_fill_spans_concat(ti@, idx as int, seq![span], spans_of(c.members@)),
            Definition::Struct(c) => lemma_fill_spans_concat(ti@, idx as int, seq![span], spans_of(c.members@)),
            Definition::Function(c) => {
                lemma_fill_spans_concat(ti@, idx as int, seq![span], spans_of(c.params@));
                lemma_fill_spans_concat(ti@, idx as int, seq![span] + spans_of(c.params@), spans_of(c.returns@));
            },
            _ => {},
        }
    }
    match d {
        Definition::Constructor(c) => fill_idents_end(ti, i1, &c.params),
        Definition::Error(c) => fill_idents_end(ti, i1, &c.params),
        Definition::Event(c) => fill_idents_end(ti, i1, &c.params),
        Definition::Modifier(c) => fill_idents_end(ti, i1, &c.params),
        Definition::Enumeration(c) => fill_idents_end(ti, i1, &c.members),
        Definition::Struct(c) => fill_idents_end(ti, i1, &c.members),
        Definition::Function(c) => match fill_idents_end(ti, i1, &c.params) {
            Some(i2) => fill_idents_end(ti, i2, &c.returns),
            None => None,
        },
        _ => Some(i1),
    }
}

/// Complete the spans of a definition; returns where the next search starts
fn populate_def(ti: &[TextIndex], idx: usize, d: Definition) -> (r: (usize, Definition))
    requires
        fill_def(ti@, idx as int, d) is Some,
    ensures
        fill_def(ti@, idx as int, d) == Some((r.0 as int, def_slots(r.1))),
        same_but_spans(d, r.1),
{
    let ghost old_d = d;
    match d {
        Definition::NatspecParsingError(Error::NatspecParsingError { parent, span, message }) => {
            proof {
                lemma_fill_spans_one(ti@, idx as int, span);
            }
            let (i1, sp) = fill_one(ti, idx, &span);
            (i1, Definition::NatspecParsingError(Error::NatspecParsingError { parent, span: sp, message }))
        },
        Definition::NatspecParsingError(e) => (idx, Definition::NatspecParsingError(e)),
        Definition::Contract(c) => {
            proof {
                lemma_fill_spans_one(ti@, idx as int, c.span);
            }
            let (i1, sp) = fill_one(ti, idx, &c.span);
            (i1, Definition::Contract(ContractDefinition { name: c.name, span: sp, natspec: c.natspec }))
        },
        Definition::Interface(c) => {
            proof {
                lemma_fill_spans_one(ti@, idx as int, c.span);
            }
            let (i1, sp) = fill_one(ti, idx, &c.span);
            (i1, Definition::Interface(InterfaceDefinition { name: c.name, span: sp, natspec: c.natspec }))
        },
        Definition::Library(c) => {
            proof {
                lemma_fill_spans_one(ti@, idx as int, c.span);
            }
            let (i1, sp) = fill_one(ti, idx, &c.span);
            (i1, Definition::Library(LibraryDefinition { name: c.name, span: sp, natspec: c.natspec }))
        },
        Definition::Variable(c) => {
            proof {
                lemma_fill_spans_one(ti@, idx as int, c.span);
            }
            let (i1, sp) = fill_one(ti, idx, &c.span);
            (
                i1,
                Definition::Variable(
                    VariableDeclaration {
                        parent: c.parent,
                        name: c.name,
                        span: sp,
                        natspec: c.natspec,
                        attributes: c.attributes,
                    },
                ),
            )
        },
        Definition::Constructor(c) => {
            let ConstructorDefinition { parent, span, params, natspec } = c;
            proof {
                lemma_fill_spans_one(ti@, idx as int, span);
                lemma_fill_spans_concat(ti@, idx as int, seq![span], spans_of(params@));
            }
            let (i1, sp) = fill_one(ti, idx, &span);
            let (i2, params) = fill_idents(ti, i1, params);
            (i2, Definition::Constructor(ConstructorDefinition { parent, span: sp, params, natspec }))
        },
        Definition::Error(c) => {
            let ErrorDefinition { parent, name, span, params, natspec } = c;
            proof {
                lemma_fill_spans_one(ti@, idx as int, span);
                lemma_fill_spans_concat(ti@, idx as int, seq![span], spans_of(params@));
            }
            let (i1, sp) = fill_one(ti, idx, &span);
            let (i2, params) = fill_idents(ti, i1, params);
            (i2, Definition::Error(ErrorDefinition { parent, name, span: sp, params, natspec }))
        },
        Definition::Event(c) => {
            let EventDefinition { parent, name, span, params, natspec } = c;
            proof {
                lemma_fill_spans_one(ti@, idx as int, span);
                lemma_fill_spans_concat(ti@, idx as int, seq![span], spans_of(params@));
            }
            let (i1, sp) = fill_one(ti, idx, &span);
            let (i2, params) = fill_idents(ti, i1, params);
            (i2, Definition::Event(EventDefinition { parent, name, span: sp, params, natspec }))
        },
        Definition::Modifier(c) => {
            let ModifierDefinition { parent, name, span, params, natspec, attributes } = c;
            proof {
                lemma_fill_spans_one(ti@, idx as int, span);
                lemma_fill_spans_concat(ti@, idx as int, seq![span], spans_of(params@));
            }
            let (i1, sp) = fill_one(ti, idx, &span);
            let (i2, params) = fill_idents(ti, i1, params);
            (
                i2,
                Definition::Modifier(
                    ModifierDefinition { parent, name, span: sp, params, natspec, attributes },
                ),
            )
        },
        Definition::Enumeration(c) => {
            let EnumDefinition { parent, name, span, members, natspec } = c;
            proof {
                lemma_fill_spans_one(ti@, idx as int, span);
                lemma_fill_spans_concat(ti@, idx as int, seq![span], spans_of(members@));
            }
            let (i1, sp) = fill_one(ti, idx, &span);
            let (i2, members) = fill_idents(ti, i1, members);
            (i2, Definition::Enumeration(EnumDefinition { parent, name, span: sp, members, natspec }))
        },
        Definition::Struct(c) => {
            let StructDefinition { parent, name, span, members, natspec } = c;
            proof {
                lemma_fill_spans_one(ti@, idx as int, span);
                lemma_fill_spans_concat(ti@, idx as int, seq![span], spans_of(members@));
            }
            let (i1, sp) = fill_one(ti, idx, &span);
            let (i2, members) = fill_idents(ti, i1, members);
            (i2, Definition::Struct(StructDefinition { parent, name, span: sp, members, natspec }))
        },
        Definition::Function(c) => {
            let FunctionDefinition { parent, name, span, params, returns: rets, natspec, attributes } = c;
            let ghost old_params = params@;
            let ghost old_rets = rets@;
            proof {
                lemma_fill_spans_one(ti@, idx as int, span);
                lemma_fill_spans_concat(ti@, idx as int, seq![span], spans_of(params@));
                lemma_fill_spans_concat(
                    ti@,
                    idx as int,
                    seq![span] + spans_of(params@),
                    spans_of(rets@),
                );
            }
            let (i1, sp) = fill_one(ti, idx, &span);
            proof {
                lemma_fill_spans_concat(ti@, i1 as int, spans_of(old_params), spans_of(old_rets));
            }
            let (i2, params) = fill_idents(ti, i1, params);
            let (i3, rets) = fill_idents(ti, i2, rets);
            proof {
                assert(seq![sp] + spans_of(params@) + spans_of(rets@) =~= seq![sp] + (spans_of(params@)
                    + spans_of(rets@)));
            }
            (
                i3,
                Definition::Function(
                    FunctionDefinition {
                        parent,
                        name,
                        span: sp,
                        params,
                        returns: rets,
                        natspec,
                        attributes,
                    },
                ),
            )
        },
    }
}

proof fn lemma_populate_all_len(ti: Seq<TextIndex>, idx: int, defs: Seq<Definition>)
    ensures
        populate_all(ti, idx, defs) is Some ==> (populate_all(ti, idx, defs)->0).1.len() == defs.len(),
    decreases defs.len(),
{
    if defs.len() > 0 {
        match fill_def(ti, idx, defs[0]) {
            Some((i1, _)) => lemma_populate_all_len(ti, i1, defs.drop_first()),
            None => {},
        }
    }
}

/// Whether completing the spans of all definitions would succeed
///
/// It fails where a search reaches the end of the indices without finding an index far enough.
pub fn can_populate(ti: &[TextIndex], definitions: &Vec<Definition>) -> (b: bool)
    ensures
        b == (populate_all(ti@, 0, definitions@) is Some),
{
    let ghost defs = definitions@;
    let mut idx: usize = 0;
    let mut k: usize = 0;
    proof {
        assert(defs.skip(0) =~= defs);
    }
    while k < definitions.len()
        invariant
            k <= defs.len(),
            defs == definitions@,
            (populate_all(ti@, 0, defs) is Some) == (populate_all(ti@, idx as int, defs.skip(k as int))
                is Some),
        decreases defs.len() - k,
    {
        proof {
            assert(defs.skip(k as int)[0] == defs[k as int]);
            assert(defs.skip(k as int).drop_first() =~= defs.skip(k + 1));
        }
        match fill_def_end(ti, idx, &definitions[k]) {
            None => {
                return false;
            },
            Some(e) => {
                idx = e;
            },
        }
        k = k + 1;
    }
    true
}

/// Fill in the missing values in the spans of definitions.
///
/// The definitions are taken in order, and so are the spans within each (its own, then those of its params,
/// members or returns); each search for an index starts after the index found for the start of the previous
/// span, because start offsets increase through the document.
pub fn populate(text_indices: &[TextIndex], definitions: &mut Vec<Definition>)
    requires
        populate_all(text_indices@, 0, old(definitions)@) is Some,
    ensures
        populated(text_indices@, old(definitions)@, final(definitions)@),
{
    let ghost ti = text_indices@;
    let ghost orig = definitions@;
    let ghost total = populate_all(ti, 0, orig);
    let mut rest: Vec<Definition> = Vec::new();
    core::mem::swap(definitions, &mut rest);
    let mut done: Vec<Definition> = Vec::new();
    let mut idx: usize = 0;
    let mut k: usize = 0;
    let n = rest.len();
    proof {
        assert(orig.skip(0) =~= orig);
        assert(Seq::<Seq<TextRange>>::empty() + (total->0).1 =~= (total->0).1);
        lemma_populate_all_len(ti, 0, orig);
        assert((total->0).1.skip(0) =~= (total->0).1);
    }
    while rest.len() > 0
        invariant
            k + rest@.len() == n,
            n == orig.len(),
            rest@ == orig.skip(k as int),
            done@.len() == k,
            total == populate_all(ti, 0, orig),
            total is Some,
            populate_all(ti, idx as int, orig.skip(k as int)) is Some,
            forall|j: int|
                0 <= j < k ==> same_but_spans(#[trigger] orig[j], done@[j]) && def_slots(done@[j])
                    == (total->0).1[j],
            (total->0).1.skip(k as int) == (populate_all(ti, idx as int, orig.skip(k as int))->0).1,
            (total->0).1.len() == n,
            ti == text_indices@,
        decreases rest@.len(),
    {
        let d = rest.remove(0);
        proof {
            assert(d == orig[k as int]);
            assert(rest@ =~= orig.skip(k + 1));
            assert(orig.skip(k as int)[0] == d);
            assert(orig.skip(k as int).drop_first() =~= orig.skip(k + 1));
        }
        let ghost before = populate_all(ti, idx as int, orig.skip(k as int));
        let (i1, nd) = populate_def(text_indices, idx, d);
        proof {
            let sp = def_slots(nd);
            assert((before->0).1 == seq![sp] + (populate_all(ti, i1 as int, orig.skip(k + 1))->0).1);
            assert((total->0).1[k as int] == (total->0).1.skip(k as int)[0]);
            assert((total->0).1.skip(k + 1) =~= (total->0).1.skip(k as int).drop_first());
        }
        done.push(nd);
        idx = i1;
        k = k + 1;
    }
    *definitions = done;
}

/// `ti` holds the indices of the text `source` at the distinct byte offsets of `offsets`, in increasing order
pub open spec fn indices_for(source: Seq<char>, offsets: Seq<usize>, ti: Seq<TextIndex>) -> bool {
    &&& forall|j: int| 0 <= j < ti.len() ==> is_position_of(source, #[trigger] ti[j]@)
    &&& forall|i: int, j: int| 0 <= i < j < ti.len() ==> ti[i].utf8 < ti[j].utf8
    &&& forall|j: int| 0 <= j < ti.len() ==> has_offset(offsets, #[trigger] ti[j].utf8 as nat)
    &&& forall|o: nat| has_offset(offsets, o) ==> #[trigger] has_index_at(ti, o)
}

pub(crate) proof fn lemma_same_offsets(a: Seq<usize>, b: Seq<usize>, o: nat)
    requires
        a.to_multiset() == b.to_multiset(),
    ensures
        has_offset(a, o) <==> has_offset(b, o),
{
    broadcast use vstd::seq_lib::group_to_multiset_ensures;

    if has_offset(a, o) {
        let i = choose|i: int| 0 <= i < a.len() && a[i] == o;
        assert(a.contains(a[i]));
        assert(a.to_multiset().count(a[i]) > 0);
        assert(b.to_multiset().count(a[i]) > 0);
        assert(b.contains(a[i]));
        let j = choose|j: int| 0 <= j < b.len() && b[j] == a[i];
        assert(b[j] == o);
    }
    if has_offset(b, o) {
        let i = choose|i: int| 0 <= i < b.len() && b[i] == o;
        assert(b.contains(b[i]));
        assert(b.to_multiset().count(b[i]) > 0);
        assert(a.to_multiset().count(b[i]) > 0);
        assert(a.contains(b[i]));
        let j = choose|j: int| 0 <= j < a.len() && a[j] == b[i];
        assert(a[j] == o);
    }
}

/// The spans of all definitions, in the order in which they are completed
pub open spec fn all_slots(defs: Seq<Definition>) -> Seq<TextRange>
    decreases defs.len(),
{
    if defs.len() == 0 {
        Seq::empty()
    } else {
        def_slots(defs[0]) + all_slots(defs.drop_first())
    }
}

/// The spans are as a parser gives them: none is empty, and each starts after the one before it
pub open spec fn spans_in_order(spans: Seq<TextRange>) -> bool {
    &&& forall|i: int| 0 <= i < spans.len() ==> #[trigger] spans[i].start.utf8 < spans[i].end.utf8
    &&& forall|i: int, j: int|
        0 <= i < j < spans.len() ==> #[trigger] spans[i].start.utf8 < #[trigger] spans[j].start.utf8
}

/// `new` is the span `old` with both ends at their positions in the text `source`
pub open spec fn completed_span(source: Seq<char>, old: TextRange, new: TextRange) -> bool {
    &&& new.start@ == position_at(source, old.start.utf8 as nat)
    &&& new.end@ == position_at(source, old.end.utf8 as nat)
}

/// The definitions `new` are `old`, with every span completed to its positions in the text `source`
pub open spec fn completed(source: Seq<char>, old: Seq<Definition>, new: Seq<Definition>) -> bool {
    &&& new.len() == old.len()
    &&& forall|k: int| 0 <= k < old.len() ==> same_but_spans(#[trigger] old[k], new[k])
    &&& forall|k: int| 0 <= k < old.len() ==> def_slots(#[trigger] new[k]).len() == def_slots(old[k]).len()
    &&& forall|k: int, m: int|
        0 <= k < old.len() && 0 <= m < def_slots(old[k]).len() ==> completed_span(
            source,
            #[trigger] def_slots(old[k])[m],
            def_slots(new[k])[m],
        )
}

/// The indices increase strictly
pub open spec fn indices_increasing(ti: Seq<TextIndex>) -> bool {
    forall|i: int, j: int| 0 <= i < j < ti.len() ==> ti[i].utf8 < ti[j].utf8
}

proof fn lemma_first_at_least(ti: Seq<TextIndex>, from: int, p: int)
    requires
        0 <= from <= p < ti.len(),
        forall|j: int| from <= j < p ==> ti[j].utf8 < ti[p].utf8,
    ensures
        first_at_least(ti, from, ti[p].utf8 as int) == Some(p),
    decreases p - from,
{
    if from < p {
        lemma_first_at_least(ti, from + 1, p);
    }
}

/// In increasing indices, a span whose ends have indices and start after the indices already passed is
/// completed with those indices
proof fn lemma_fill_span_exact(ti: Seq<TextIndex>, idx: int, sp: TextRange, b: int)
    requires
        indices_increasing(ti),
        0 <= idx <= ti.len(),
        forall|j: int| 0 <= j < idx ==> ti[j].utf8 <= b,
        b < sp.start.utf8 < sp.end.utf8,
        has_index_at(ti, sp.start.utf8 as nat),
        has_index_at(ti, sp.end.utf8 as nat),
    ensures
        fill_span(ti, idx, sp) matches Some((e, r)) && 0 < e <= ti.len() && (forall|j: int|
            0 <= j < e ==> ti[j].utf8 <= sp.start.utf8) && r.start.utf8 == sp.start.utf8
            && r.end.utf8 == sp.end.utf8 && ti.contains(r.start) && ti.contains(r.end),
{
    let p = choose|j: int| 0 <= j < ti.len() && ti[j].utf8 == sp.start.utf8;
    let q = choose|j: int| 0 <= j < ti.len() && ti[j].utf8 == sp.end.utf8;
    assert(p >= idx);
    lemma_first_at_least(ti, idx, p);
    assert(q > p) by {
        if q <= p {
            if q < p {
                assert(ti[q].utf8 < ti[p].utf8);
            }
        }
    }
    lemma_first_at_least(ti, p + 1, q);
    assert(ti.contains(ti[p]));
    assert(ti.contains(ti[q]));
    assert forall|j: int| 0 <= j < p + 1 implies ti[j].utf8 <= sp.start.utf8 by {
        if j < p {
            assert(ti[j].utf8 < ti[p].utf8);
        }
    }
}

/// Spans in order, all starting after the indices already passed and with indices at their ends, are
/// completed with those indices
proof fn lemma_fill_spans_exact(ti: Seq<TextIndex>, idx: int, spans: Seq<TextRange>, b: int)
    requires
        indices_increasing(ti),
        0 <= idx <= ti.len(),
        forall|j: int| 0 <= j < idx ==> ti[j].utf8 <= b,
        spans_in_order(spans),
        forall|i: int| 0 <= i < spans.len() ==> b < #[trigger] spans[i].start.utf8,
        forall|i: int|
            0 <= i < spans.len() ==> has_index_at(ti, #[trigger] spans[i].start.utf8 as nat)
                && has_index_at(ti, spans[i].end.utf8 as nat),
    ensures
        fill_spans(ti, idx, spans) matches Some((e, r)) && 0 <= e <= ti.len() && r.len() == spans.len()
            && (forall|j: int|
            0 <= j < e ==> ti[j].utf8 <= (if spans.len() > 0 {
                spans.last().start.utf8 as int
            } else {
                b
            })) && (forall|m: int|
            0 <= m < spans.len() ==> (#[trigger] r[m]).start.utf8 == spans[m].start.utf8 && r[m].end.utf8
                == spans[m].end.utf8 && ti.contains(r[m].start) && ti.contains(r[m].end)),
    decreases spans.len(),
{
    if spans.len() > 0 {
        let rest = spans.drop_first();
        let s0 = spans[0];
        lemma_fill_span_exact(ti, idx, s0, b);
        let (i1, r0) = fill_span(ti, idx, s0)->0;
        assert(spans_in_order(rest)) by {
            assert forall|i: int, j: int| 0 <= i < j < rest.len() implies #[trigger] rest[i].start.utf8
                < #[trigger] rest[j].start.utf8 by {
                assert(rest[i] == spans[i + 1]);
                assert(rest[j] == spans[j + 1]);
            }
            assert forall|i: int| 0 <= i < rest.len() implies #[trigger] rest[i].start.utf8
                < rest[i].end.utf8 by {
                assert(rest[i] == spans[i + 1]);
            }
        }
        assert forall|i: int| 0 <= i < rest.len() implies s0.start.utf8 < #[trigger] rest[i].start.utf8 by {
            assert(rest[i] == spans[i + 1]);
        }
        assert forall|i: int| 0 <= i < rest.len() implies has_index_at(
            ti,
            #[trigger] rest[i].start.utf8 as nat,
        ) && has_index_at(ti, rest[i].end.utf8 as nat) by {
            assert(rest[i] == spans[i + 1]);
        }
        lemma_fill_spans_exact(ti, i1, rest, s0.start.utf8 as int);
        let (e, rr) = fill_spans(ti, i1, rest)->0;
        let r = seq![r0] + rr;
        assert(fill_spans(ti, idx, spans) == Some((e, r)));
        assert forall|m: int| 0 <= m < spans.len() implies (#[trigger] r[m]).start.utf8
            == spans[m].start.utf8 && r[m].end.utf8 == spans[m].end.utf8 && ti.contains(r[m].start)
            && ti.contains(r[m].end) by {
            if m > 0 {
                assert(r[m] == rr[m - 1]);
                assert(rest[m - 1] == spans[m]);
            }
        }
        if rest.len() > 0 {
            assert(rest.last() == spans.last());
        }
    }
}

proof fn lemma_in_order_split(a: Seq<TextRange>, b: Seq<TextRange>)
    requires
        spans_in_order(a + b),
    ensures
        spans_in_order(a),
        spans_in_order(b),
        a.len() > 0 ==> forall|i: int| 0 <= i < b.len() ==> a.last().start.utf8 < #[trigger] b[i].start.utf8,
        forall|i: int, j: int| 0 <= i < a.len() && 0 <= j < b.len() ==> #[trigger] a[i].start.utf8 < #[trigger] b[j].start.utf8,
{
    let s = a + b;
    assert forall|i: int, j: int| 0 <= i < j < a.len() implies #[trigger] a[i].start.utf8
        < #[trigger] a[j].start.utf8 by {
        assert(s[i] == a[i] && s[j] == a[j]);
    }
    assert forall|i: int| 0 <= i < a.len() implies #[trigger] a[i].start.utf8 < a[i].end.utf8 by {
        assert(s[i] == a[i]);
    }
    assert forall|i: int, j: int| 0 <= i < j < b.len() implies #[trigger] b[i].start.utf8
        < #[trigger] b[j].start.utf8 by {
        assert(s[a.len() + i] == b[i] && s[a.len() + j] == b[j]);
    }
    assert forall|i: int| 0 <= i < b.len() implies #[trigger] b[i].start.utf8 < b[i].end.utf8 by {
        assert(s[a.len() + i] == b[i]);
    }
    assert forall|i: int, j: int| 0 <= i < a.len() && 0 <= j < b.len() implies #[trigger] a[i].start.utf8
        < #[trigger] b[j].start.utf8 by {
        assert(s[i] == a[i] && s[a.len() + j] == b[j]);
    }
    if a.len() > 0 {
        assert forall|i: int| 0 <= i < b.len() implies a.last().start.utf8 < #[trigger] b[i].start.utf8 by {
            assert(s[a.len() - 1] == a.last() && s[a.len() + i] == b[i]);
        }
    }
}

/// Definitions whose spans are in order, start after the indices already passed and have indices at their
/// ends, are completed with those indices
proof fn lemma_populate_exact(ti: Seq<TextIndex>, idx: int, defs: Seq<Definition>, b: int)
    requires
        indices_increasing(ti),
        0 <= idx <= ti.len(),
        forall|j: int| 0 <= j < idx ==> ti[j].utf8 <= b,
        spans_in_order(all_slots(defs)),
        forall|i: int| 0 <= i < all_slots(defs).len() ==> b < #[trigger] all_slots(defs)[i].start.utf8,
        forall|i: int|
            0 <= i < all_slots(defs).len() ==> has_index_at(ti, #[trigger] all_slots(defs)[i].start.utf8 as nat)
                && has_index_at(ti, all_slots(defs)[i].end.utf8 as nat),
    ensures
        populate_all(ti, idx, defs) matches Some((e, sp)) && sp.len() == defs.len() && (forall|k: int|
            0 <= k < defs.len() ==> (#[trigger] sp[k]).len() == def_slots(defs[k]).len()) && (forall|
            k: int,
            m: int,
        |
            0 <= k < defs.len() && 0 <= m < def_slots(defs[k]).len() ==> (#[trigger] sp[k][m]).start.utf8
                == def_slots(defs[k])[m].start.utf8 && sp[k][m].end.utf8 == def_slots(defs[k])[m].end.utf8
                && ti.contains(sp[k][m].start) && ti.contains(sp[k][m].end)),
    decreases defs.len(),
{
    if defs.len() > 0 {
        let d0 = def_slots(defs[0]);
        let rest = defs.drop_first();
        let all = all_slots(defs);
        assert(all == d0 + all_slots(rest));
        lemma_in_order_split(d0, all_slots(rest));
        assert forall|i: int| 0 <= i < d0.len() implies b < #[trigger] d0[i].start.utf8 && has_index_at(
            ti,
            d0[i].start.utf8 as nat,
        ) && has_index_at(ti, d0[i].end.utf8 as nat) by {
            assert(all[i] == d0[i]);
        }
        lemma_fill_spans_exact(ti, idx, d0, b);
        let (i1, r0) = fill_spans(ti, idx, d0)->0;
        let b1: int = if d0.len() > 0 {
            d0.last().start.utf8 as int
        } else {
            b
        };
        let rs = all_slots(rest);
        assert forall|i: int| 0 <= i < rs.len() implies b1 < #[trigger] rs[i].start.utf8 && has_index_at(
            ti,
            rs[i].start.utf8 as nat,
        ) && has_index_at(ti, rs[i].end.utf8 as nat) by {
            assert(all[d0.len() + i] == rs[i]);
        }
        lemma_populate_exact(ti, i1, rest, b1);
        let (e, sr) = populate_all(ti, i1, rest)->0;
        let sp = seq![r0] + sr;
        assert(populate_all(ti, idx, defs) == Some((e, sp)));
        assert forall|k: int| 0 <= k < defs.len() implies (#[trigger] sp[k]).len() == def_slots(
            defs[k],
        ).len() by {
            if k > 0 {
                assert(sp[k] == sr[k - 1]);
                assert(defs[k] == rest[k - 1]);
            }
        }
        assert forall|k: int, m: int|
            0 <= k < defs.len() && 0 <= m < def_slots(defs[k]).len() implies (#[trigger] sp[k][m]).start.utf8
            == def_slots(defs[k])[m].start.utf8 && sp[k][m].end.utf8 == def_slots(defs[k])[m].end.utf8
            && ti.contains(sp[k][m].start) && ti.contains(sp[k][m].end) by {
            if k > 0 {
                assert(sp[k] == sr[k - 1]);
                assert(defs[k] == rest[k - 1]);
                assert(sr[k - 1][m] == sp[k][m]);
            } else {
                assert(sp[0] == r0);
                assert(r0[m] == sp[k][m]);
            }
        }
    }
}

proof fn lemma_all_slots_push(defs: Seq<Definition>, d: Definition)
    ensures
        all_slots(defs.push(d)) == all_slots(defs) + def_slots(d),
    decreases defs.len(),
{
    if defs.len() == 0 {
        assert(defs.push(d).drop_first() =~= Seq::<Definition>::empty());
        assert(defs.push(d)[0] == d);
        assert(all_slots(defs.push(d).drop_first()) == Seq::<TextRange>::empty());
        assert(all_slots(defs) == Seq::<TextRange>::empty());
        assert(def_slots(d) + Seq::<TextRange>::empty() =~= def_slots(d));
        assert(Seq::<TextRange>::empty() + def_slots(d) =~= def_slots(d));
    } else {
        assert(defs.push(d)[0] == defs[0]);
        assert(defs.push(d).drop_first() =~= defs.drop_first().push(d));
        lemma_all_slots_push(defs.drop_first(), d);
        assert(def_slots(defs[0]) + (all_slots(defs.drop_first()) + def_slots(d)) =~= (def_slots(defs[0])
            + all_slots(defs.drop_first())) + def_slots(d));
    }
}

proof fn lemma_all_offsets_slots(defs: Seq<Definition>)
    ensures
        all_offsets(defs) == span_offsets(all_slots(defs)),
    decreases defs.len(),
{
    if defs.len() > 0 {
        lemma_all_offsets_slots(defs.drop_last());
        assert(defs.drop_last().push(defs.last()) =~= defs);
        lemma_all_slots_push(defs.drop_last(), defs.last());
        lemma_span_offsets_concat(all_slots(defs.drop_last()), def_slots(defs.last()));
    } else {
        assert(span_offsets(Seq::<TextRange>::empty()) =~= Seq::<usize>::empty());
    }
}

proof fn lemma_span_offsets_has(s: Seq<TextRange>, i: int)
    requires
        0 <= i < s.len(),
    ensures
        has_offset(span_offsets(s), s[i].start.utf8 as nat),
        has_offset(span_offsets(s), s[i].end.utf8 as nat),
    decreases s.len(),
{
    let prev = span_offsets(s.drop_last());
    let all = span_offsets(s);
    assert(all == prev + seq![s.last().start.utf8, s.last().end.utf8]);
    if i == s.len() - 1 {
        assert(all[prev.len() as int] == s[i].start.utf8);
        assert(all[prev.len() as int + 1] == s[i].end.utf8);
    } else {
        lemma_span_offsets_has(s.drop_last(), i);
        assert(s.drop_last()[i] == s[i]);
        let a = choose|a: int| 0 <= a < prev.len() && prev[a] == s[i].start.utf8;
        let z = choose|z: int| 0 <= z < prev.len() && prev[z] == s[i].end.utf8;
        assert(all[a] == prev[a]);
        assert(all[z] == prev[z]);
    }
}

proof fn lemma_no_slots(defs: Seq<Definition>)
    requires
        all_slots(defs).len() == 0,
    ensures
        forall|k: int| 0 <= k < defs.len() ==> def_slots(#[trigger] defs[k]).len() == 0,
    decreases defs.len(),
{
    if defs.len() > 0 {
        lemma_no_slots(defs.drop_first());
        assert forall|k: int| 0 <= k < defs.len() implies def_slots(#[trigger] defs[k]).len() == 0 by {
            if k > 0 {
                assert(defs[k] == defs.drop_first()[k - 1]);
            }
        }
    }
}

proof fn lemma_span_offsets_len(s: Seq<TextRange>)
    ensures
        span_offsets(s).len() == 2 * s.len(),
    decreases s.len(),
{
    if s.len() > 0 {
        lemma_span_offsets_len(s.drop_last());
    }
}

/// The position after a prefix of a text is the position of its byte offset
proof fn lemma_position_at(cs: Seq<char>, p: TextPos)
    requires
        is_position_of(cs, p),
    ensures
        p == position_at(cs, p.utf8),
{
    let k1 = choose|k: int| 0 <= k <= cs.len() && #[trigger] position_after(cs.take(k)) == p;
    assert(position_after(cs.take(k1)).utf8 == p.utf8);
    let k2 = choose|k: int| 0 <= k <= cs.len() && #[trigger] position_after(cs.take(k)).utf8 == p.utf8;
    lemma_position_unique(cs, k1, k2);
}

/// Definitions whose spans are in order are completed exactly, each end at its position in the text
pub proof fn lemma_complete_in_order(source: Seq<char>, defs: Seq<Definition>, ti: Seq<TextIndex>)
    requires
        indices_for(source, all_offsets(defs), ti),
        spans_in_order(all_slots(defs)),
    ensures
        populate_all(ti, 0, defs) is Some,
        forall|new: Seq<Definition>| #[trigger] populated(ti, defs, new) ==> completed(source, defs, new),
{
    let all = all_slots(defs);
    lemma_all_offsets_slots(defs);
    assert forall|i: int| 0 <= i < all.len() implies has_index_at(ti, #[trigger] all[i].start.utf8 as nat)
        && has_index_at(ti, all[i].end.utf8 as nat) by {
        lemma_span_offsets_has(all, i);
    }
    lemma_populate_exact(ti, 0, defs, -1);
    let sp = (populate_all(ti, 0, defs)->0).1;
    assert forall|new: Seq<Definition>| #[trigger] populated(ti, defs, new) implies completed(
        source,
        defs,
        new,
    ) by {
        assert forall|k: int, m: int|
            0 <= k < defs.len() && 0 <= m < def_slots(defs[k]).len() implies completed_span(
            source,
            #[trigger] def_slots(defs[k])[m],
            def_slots(new[k])[m],
        ) by {
            let r = sp[k][m];
            assert(def_slots(new[k]) == sp[k]);
            let a = choose|j: int| 0 <= j < ti.len() && ti[j] == r.start;
            let z = choose|j: int| 0 <= j < ti.len() && ti[j] == r.end;
            assert(is_position_of(source, ti[a]@));
            assert(is_position_of(source, ti[z]@));
            lemma_position_at(source, r.start@);
            lemma_position_at(source, r.end@);
        }
    }
}

/// Definitions with no byte offsets have no spans: left as they are, they are completed
proof fn lemma_unchanged_without_slots(source: Seq<char>, defs: Seq<Definition>)
    requires
        all_offsets(defs).len() == 0,
    ensures
        completed(source, defs, defs),
{
    lemma_all_offsets_slots(defs);
    lemma_span_offsets_len(all_slots(defs));
    lemma_no_slots(defs);
    assert forall|k: int| 0 <= k < defs.len() implies same_but_spans(#[trigger] defs[k], defs[k]) by {
        match defs[k] {
            Definition::NatspecParsingError(e) => {},
            _ => {},
        }
    }
}

/// Complete the [`TextRange`] of a list of [`Definition`].
///
/// Parsers might only give us partial information (utf-8 byte offsets), but we need the full line/column
/// information in all encodings. This function computes the missing fields: it gathers all the offsets,
/// computes their indices in one pass over the source, then fills in the spans in order.
///
/// Where the spans come as a parser gives them (none empty, each starting after the one before it, in the
/// order of the definitions and of their params, members and returns), every end of every span lands on its
/// position in the text.
pub fn complete_text_ranges(source: &str, definitions: &mut Vec<Definition>)
    requires
        all_offsets(old(definitions)@).len() > 0 ==> source@.len() > 0,
        forall|i: int|
            0 <= i < all_offsets(old(definitions)@).len() ==> is_boundary(
                source@,
                #[trigger] all_offsets(old(definitions)@)[i] as nat,
            ),
        position_after(source@).utf8 <= usize::MAX,
        spans_in_order(all_slots(old(definitions)@)) || forall|ti: Seq<TextIndex>|
            indices_for(source@, all_offsets(old(definitions)@), ti) ==> #[trigger] populate_all(
                ti,
                0,
                old(definitions)@,
            ) is Some,
    ensures
        spans_in_order(all_slots(old(definitions)@)) ==> completed(
            source@,
            old(definitions)@,
            final(definitions)@,
        ),
        all_offsets(old(definitions)@).len() == 0 ==> final(definitions)@ == old(definitions)@,
        all_offsets(old(definitions)@).len() > 0 ==> exists|ti: Seq<TextIndex>|
            indices_for(source@, all_offsets(old(definitions)@), ti) && #[trigger] populated(
                ti,
                old(definitions)@,
                final(definitions)@,
            ),
{
    let ghost all = all_offsets(definitions@);
    let offsets = gather_offsets(definitions.as_slice());
    proof {
        broadcast use vstd::seq_lib::group_to_multiset_ensures;
        assert(offsets@.len() == all.len()) by {
            assert(offsets@.len() == offsets@.to_multiset().len());
            assert(all.len() == all.to_multiset().len());
        }
    }
    if offsets.len() == 0 {
        proof {
            lemma_unchanged_without_slots(source@, definitions@);
        }
        return;
    }
    proof {
        assert forall|i: int| 0 <= i < offsets@.len() implies is_boundary(
            source@,
            #[trigger] offsets@[i] as nat,
        ) by {
            lemma_same_offsets(offsets@, all, offsets@[i] as nat);
            let j = choose|j: int| 0 <= j < all.len() && all[j] == offsets@[i];
            assert(is_boundary(source@, all[j] as nat));
        }
        assert(sorted_offsets(offsets@));
    }
    proof {
        assert forall|i: int| 0 <= i < offsets@.len() implies #[trigger] offsets@[i] <= position_after(
            source@,
        ).utf8 by {
            lemma_boundary_le_total(source@, offsets@[i] as nat);
        }
    }
    let text_indices = compute_indices(source, offsets.as_slice());
    proof {
        let ti = text_indices@;
        lemma_indices_at_offsets(source@, offsets@, ti);
        assert forall|j: int| 0 <= j < ti.len() implies has_offset(all, #[trigger] ti[j].utf8 as nat) by {
            lemma_same_offsets(offsets@, all, ti[j].utf8 as nat);
        }
        assert forall|o: nat| has_offset(all, o) implies #[trigger] has_index_at(ti, o) by {
            lemma_same_offsets(offsets@, all, o);
            let i = choose|i: int| 0 <= i < offsets@.len() && offsets@[i] == o;
            assert(has_index_at(ti, offsets@[i] as nat));
        }
        assert(indices_for(source@, all, ti));
        if spans_in_order(all_slots(definitions@)) {
            lemma_complete_in_order(source@, definitions@, ti);
        }
    }
    populate(text_indices.as_slice(), definitions);
}

/// Complete the [`TextRange`] of a list of [`Definition`], where the search for every index succeeds
///
/// Returns `false` and leaves the definitions alone where a span's offsets cannot be found in order among the
/// computed indices (where [`complete_text_ranges`] cannot be called).
pub fn try_complete_text_ranges(source: &str, definitions: &mut Vec<Definition>) -> (ok: bool)
    requires
        all_offsets(old(definitions)@).len() > 0 ==> source@.len() > 0,
        forall|i: int|
            0 <= i < all_offsets(old(definitions)@).len() ==> is_boundary(
                source@,
                #[trigger] all_offsets(old(definitions)@)[i] as nat,
            ),
        position_after(source@).utf8 <= usize::MAX,
    ensures
        !ok ==> final(definitions)@ == old(definitions)@,
        !ok ==> exists|ti: Seq<TextIndex>|
            indices_for(source@, all_offsets(old(definitions)@), ti) && #[trigger] populate_all(
                ti,
                0,
                old(definitions)@,
            ) is None,
        spans_in_order(all_slots(old(definitions)@)) ==> ok && completed(
            source@,
            old(definitions)@,
            final(definitions)@,
        ),
        ok && all_offsets(old(definitions)@).len() == 0 ==> final(definitions)@ == old(
            definitions,
        )@,
        ok && all_offsets(old(definitions)@).len() > 0 ==> exists|ti: Seq<TextIndex>|
            indices_for(source@, all_offsets(old(definitions)@), ti) && #[trigger] populated(
                ti,
                old(definitions)@,
                final(definitions)@,
            ),
{
    let ghost all = all_offsets(definitions@);
    let offsets = gather_offsets(definitions.as_slice());
    proof {
        broadcast use vstd::seq_lib::group_to_multiset_ensures;
        assert(offsets@.len() == all.len()) by {
            assert(offsets@.len() == offsets@.to_multiset().len());
            assert(all.len() == all.to_multiset().len());
        }
    }
    if offsets.len() == 0 {
        proof {
            lemma_unchanged_without_slots(source@, definitions@);
        }
        return true;
    }
    proof {
        assert forall|i: int| 0 <= i < offsets@.len() implies is_boundary(
            source@,
            #[trigger] offsets@[i] as nat,
        ) by {
            lemma_same_offsets(offsets@, all, offsets@[i] as nat);
            let j = choose|j: int| 0 <= j < all.len() && all[j] == offsets@[i];
            assert(is_boundary(source@, all[j] as nat));
        }
    }
    proof {
        assert forall|i: int| 0 <= i < offsets@.len() implies #[trigger] offsets@[i] <= position_after(
            source@,
        ).utf8 by {
            lemma_boundary_le_total(source@, offsets@[i] as nat);
        }
    }
    let text_indices = compute_indices(source, offsets.as_slice());
    proof {
        let ti = text_indices@;
        lemma_indices_at_offsets(source@, offsets@, ti);
        assert forall|j: int| 0 <= j < ti.len() implies has_offset(all, #[trigger] ti[j].utf8 as nat) by {
            lemma_same_offsets(offsets@, all, ti[j].utf8 as nat);
        }
        assert forall|o: nat| has_offset(all, o) implies #[trigger] has_index_at(ti, o) by {
            lemma_same_offsets(offsets@, all, o);
            let i = choose|i: int| 0 <= i < offsets@.len() && offsets@[i] == o;
            assert(has_index_at(ti, offsets@[i] as nat));
        }
        assert(indices_for(source@, all, ti));
        if spans_in_order(all_slots(definitions@)) {
            lemma_complete_in_order(source@, definitions@, ti);
        }
    }
    if !can_populate(text_indices.as_slice(), definitions) {
        return false;
    }
    populate(text_indices.as_slice(), definitions);
    true
}

/// Where every CR of the text is followed by a LF, completed spans end at the positions that
/// [`TextIndex::advance`] reaches, character by character, at their byte offsets
pub proof fn lemma_completed_by_advance(source: Seq<char>, old: Seq<Definition>, new: Seq<Definition>)
    requires
        no_lone_cr(source),
        completed(source, old, new),
        forall|k: int, m: int|
            0 <= k < old.len() && 0 <= m < def_slots(old[k]).len() ==> is_boundary(
                source,
                #[trigger] def_slots(old[k])[m].start.utf8 as nat,
            ) && is_boundary(source, def_slots(old[k])[m].end.utf8 as nat),
    ensures
        forall|k: int, m: int|
            0 <= k < old.len() && 0 <= m < def_slots(old[k]).len() ==> def_slots(new[k])[m].start@
                == advanced_at(source, #[trigger] def_slots(old[k])[m].start.utf8 as nat) && def_slots(
                new[k],
            )[m].end@ == advanced_at(source, def_slots(old[k])[m].end.utf8 as nat),
{
    assert forall|k: int, m: int| 0 <= k < old.len() && 0 <= m < def_slots(old[k]).len() implies def_slots(
        new[k],
    )[m].start@ == advanced_at(source, #[trigger] def_slots(old[k])[m].start.utf8 as nat) && def_slots(
        new[k],
    )[m].end@ == advanced_at(source, def_slots(old[k])[m].end.utf8 as nat) by {
        assert(completed_span(source, def_slots(old[k])[m], def_slots(new[k])[m]));
        lemma_position_at_advance(source, def_slots(old[k])[m].start.utf8 as nat);
        lemma_position_at_advance(source, def_slots(old[k])[m].end.utf8 as nat);
    }
}

} // verus!
