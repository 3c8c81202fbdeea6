//! Source items as a Solidity parser lists them, and the definitions made from them
//!
//! A parser walks the syntax tree and lists its items in the order it visits them: each contract, interface or
//! library, then the items in its body. Each item comes with plain values only: its kind, its name, its byte
//! span, its doc-comments, its params and returns. The definitions that the checks run on are built from
//! that list here.
use vstd::prelude::*;

use crate::comment::{comment_error_message, docs_natspec, extract_natspec};
use crate::definitions::{
    ident_name, Attributes, ConstructorDefinition, ContractDefinition, Definition, EnumDefinition,
    ErrorDefinition, EventDefinition, FunctionDefinition, Identifier, InterfaceDefinition,
    LibraryDefinition, ModifierDefinition, Parent, StructDefinition, VariableDeclaration, Visibility,
};
use crate::error::Error;
use crate::lint::natspec_items;
use crate::natspec::{ItemView, NatSpec};
use crate::parser::{
    all_offsets, all_slots, completed, gather_offsets, indices_for, lemma_same_offsets, populate_all,
    populated, spans_in_order, try_complete_text_ranges, DocumentId, ParsedDocument,
};
use crate::textindex::{
    has_offset, is_boundary, lemma_position_bounds, lemma_total_len, offsets_on_boundaries, position_after,
    TextIndex, TextRange,
};

verus! {

broadcast use vstd::string::group_string_axioms;

/// The kind of a source item
#[derive(Debug, Clone, Copy, PartialEq, Eq, Structural)]
pub enum SolItemKind {
    Contract,
    AbstractContract,
    Interface,
    Library,
    Constructor,
    Function,
    Modifier,
    Fallback,
    Receive,
    Variable,
    Struct,
    Enum,
    Error,
    Event,
}

/// A doc-comment: its text and the byte offsets where it starts and ends
#[derive(Debug)]
pub struct DocComment {
    pub text: String,
    pub start: usize,
    pub end: usize,
}

/// A source item as the parser gives it
///
/// Spans are byte offsets: the `utf16`, `line` and `column` of the identifiers' spans are filled in later.
#[derive(Debug)]
pub struct SolItem {
    pub kind: SolItemKind,
    /// The name, where the item has one
    pub name: Option<String>,
    /// Where the item starts (for a function-like item, where its header starts)
    pub start: usize,
    /// Where the item ends (for a function-like item, where its header ends; for a contract, where its name
    /// ends)
    pub end: usize,
    /// Other places where the item's header may end (for a contract, the end of its last base and of its
    /// storage layout): the item ends at the greatest of these and `end`
    pub other_ends: Vec<usize>,
    /// The doc-comments right before the item, in order
    pub docs: Vec<DocComment>,
    /// The params of a function-like item, error or event; the fields of a struct; the variants of an enum
    pub params: Vec<Identifier>,
    /// The returns of a function
    pub returns: Vec<Identifier>,
    pub visibility: Visibility,
    /// Whether the item is marked `override`
    pub is_override: bool,
    /// The position in the list of the contract, interface or library whose body holds the item
    pub parent: Option<usize>,
}

/// The index at a byte offset, the other fields left at zero
pub open spec fn index_at(o: usize) -> TextIndex {
    TextIndex { utf8: o, utf16: 0, line: 0, column: 0 }
}

/// The span between two byte offsets
pub open spec fn offset_range(start: usize, end: usize) -> TextRange {
    core::ops::Range { start: index_at(start), end: index_at(end) }
}

/// The greatest of `end` and `others`
pub open spec fn greatest(end: usize, others: Seq<usize>) -> usize
    decreases others.len(),
{
    if others.len() == 0 {
        end
    } else {
        let m = greatest(end, others.drop_last());
        if others.last() > m {
            others.last()
        } else {
            m
        }
    }
}

/// The span of an item: from its first doc-comment (or its start, without one) to the end of its header
pub open spec fn item_span(it: SolItem) -> TextRange {
    let start = if it.docs@.len() > 0 {
        it.docs@[0].start
    } else {
        it.start
    };
    offset_range(start, greatest(it.end, it.other_ends@))
}

/// The texts of the doc-comments of an item
pub open spec fn doc_texts(it: SolItem) -> Seq<Seq<char>> {
    it.docs@.map_values(|d: DocComment| d.text@)
}

/// The name of an item, or a default where it has none
pub open spec fn name_or(name: Option<String>, default: Seq<char>) -> Seq<char> {
    match name {
        Some(n) => n@,
        None => default,
    }
}

/// Receive and fallback functions are not documented
pub open spec fn is_skipped(k: SolItemKind) -> bool {
    k == SolItemKind::Fallback || k == SolItemKind::Receive
}

/// A contract, interface or library, which can hold other items
pub open spec fn is_container(k: SolItemKind) -> bool {
    k == SolItemKind::Contract || k == SolItemKind::AbstractContract || k == SolItemKind::Interface || k
        == SolItemKind::Library
}

/// The kind and the name of a parent
pub open spec fn parent_repr(p: Option<Parent>) -> Option<(SolItemKind, Seq<char>)> {
    match p {
        Some(Parent::Contract(n)) => Some((SolItemKind::Contract, n@)),
        Some(Parent::Interface(n)) => Some((SolItemKind::Interface, n@)),
        Some(Parent::Library(n)) => Some((SolItemKind::Library, n@)),
        None => None,
    }
}

/// The kind and the name of the parent of item `i`: the container at the position the item gives, if it is one
/// (an abstract contract is a contract)
pub open spec fn parent_at(items: Seq<SolItem>, i: int) -> Option<(SolItemKind, Seq<char>)> {
    match items[i].parent {
        Some(p) => if p < items.len() && is_container(items[p as int].kind) {
            let k = if items[p as int].kind == SolItemKind::AbstractContract {
                SolItemKind::Contract
            } else {
                items[p as int].kind
            };
            Some((k, name_or(items[p as int].name, Seq::empty())))
        } else {
            None
        },
        None => None,
    }
}

/// The returns that name the `@return` items of an item: those of a function, none for other items
pub open spec fn rets_of(it: SolItem) -> Seq<Identifier> {
    if it.kind == SolItemKind::Function {
        it.returns@
    } else {
        Seq::empty()
    }
}

/// The fields of a struct, each named (`member` where it has no name) and with its own span
pub open spec fn members_named(given: Seq<Identifier>, made: Seq<Identifier>) -> bool {
    &&& made.len() == given.len()
    &&& forall|m: int|
        0 <= m < given.len() ==> (#[trigger] made[m]).span == given[m].span && ident_name(made[m]) == Some(
            name_or(given[m].name, "member"@),
        )
}

/// The definition `d` is the one made from item `i` of `items`, whose doc-comments parse into `natspec`
pub open spec fn made_from(items: Seq<SolItem>, i: int, natspec: Option<Seq<ItemView>>, d: Definition) -> bool {
    let it = items[i];
    let span = item_span(it);
    let parent = parent_at(items, i);
    let attributes = Attributes { visibility: it.visibility, is_override: it.is_override };
    match d {
        Definition::Contract(c) => (it.kind == SolItemKind::Contract || it.kind == SolItemKind::AbstractContract)
            && c.name@ == name_or(it.name, Seq::empty()) && c.span == span && natspec_items(c.natspec) == natspec,
        Definition::Interface(c) => it.kind == SolItemKind::Interface && c.name@ == name_or(it.name, Seq::empty())
            && c.span == span && natspec_items(c.natspec) == natspec,
        Definition::Library(c) => it.kind == SolItemKind::Library && c.name@ == name_or(it.name, Seq::empty())
            && c.span == span && natspec_items(c.natspec) == natspec,
        Definition::Constructor(c) => it.kind == SolItemKind::Constructor && parent_repr(c.parent) == parent
            && c.span == span && c.params@ == it.params@ && natspec_items(c.natspec) == natspec,
        Definition::Function(c) => it.kind == SolItemKind::Function && parent_repr(c.parent) == parent
            && c.name@ == name_or(it.name, "function"@) && c.span == span && c.params@ == it.params@
            && c.returns@ == it.returns@ && natspec_items(c.natspec) == natspec && c.attributes == attributes,
        Definition::Modifier(c) => it.kind == SolItemKind::Modifier && parent_repr(c.parent) == parent
            && c.name@ == name_or(it.name, "modifier"@) && c.span == span && c.params@ == it.params@
            && natspec_items(c.natspec) == natspec && c.attributes == attributes,
        Definition::Variable(c) => it.kind == SolItemKind::Variable && parent_repr(c.parent) == parent
            && c.name@ == name_or(it.name, "variable"@) && c.span == span && natspec_items(c.natspec) == natspec
            && c.attributes == attributes,
        Definition::Struct(c) => it.kind == SolItemKind::Struct && parent_repr(c.parent) == parent && c.name@
            == name_or(it.name, Seq::empty()) && c.span == span && members_named(it.params@, c.members@)
            && natspec_items(c.natspec) == natspec,
        Definition::Enumeration(c) => it.kind == SolItemKind::Enum && parent_repr(c.parent) == parent && c.name@
            == name_or(it.name, Seq::empty()) && c.span == span && c.members@ == it.params@ && natspec_items(
            c.natspec,
        ) == natspec,
        Definition::Error(c) => it.kind == SolItemKind::Error && parent_repr(c.parent) == parent && c.name@
            == name_or(it.name, Seq::empty()) && c.span == span && c.params@ == it.params@ && natspec_items(
            c.natspec,
        ) == natspec,
        Definition::Event(c) => it.kind == SolItemKind::Event && parent_repr(c.parent) == parent && c.name@
            == name_or(it.name, Seq::empty()) && c.span == span && c.params@ == it.params@ && natspec_items(
            c.natspec,
        ) == natspec,
        Definition::NatspecParsingError(_) => false,
    }
}

/// The definition `d` describes item `i` of `items`
///
/// Where a doc-comment does not parse, the definition is the error, with the parent of the item and the span of
/// that comment. Otherwise it is the definition of the item's kind, with the `NatSpec` of its doc-comments
/// (none without doc-comments), the returns of a function naming its `@return` items.
pub open spec fn describes(items: Seq<SolItem>, i: int, d: Definition) -> bool {
    let it = items[i];
    match docs_natspec(doc_texts(it), rets_of(it)) {
        Err((j, e)) => match d {
            Definition::NatspecParsingError(Error::NatspecParsingError { parent, span, message }) => {
                &&& parent_repr(parent) == parent_at(items, i)
                &&& span == offset_range(it.docs@[j].start, it.docs@[j].end)
                &&& message@ == comment_error_message(e)
            },
            _ => false,
        },
        Ok(ns) => made_from(
            items,
            i,
            if it.docs@.len() == 0 {
                None
            } else {
                Some(ns)
            },
            d,
        ),
    }
}

/// The positions of the items that give a definition, in order
pub open spec fn kept(items: Seq<SolItem>) -> Seq<int>
    decreases items.len(),
{
    if items.len() == 0 {
        Seq::empty()
    } else if is_skipped(items.last().kind) {
        kept(items.drop_last())
    } else {
        kept(items.drop_last()).push(items.len() - 1)
    }
}

proof fn lemma_docs_err_index(docs: Seq<Seq<char>>, rets: Seq<Identifier>)
    ensures
        docs_natspec(docs, rets) matches Err((j, _)) ==> 0 <= j < docs.len(),
    decreases docs.len(),
{
    if docs.len() > 0 {
        lemma_docs_err_index(docs.drop_last(), rets);
    }
}

fn index_at_offset(o: usize) -> (t: TextIndex)
    ensures
        t == index_at(o),
{
    TextIndex { utf8: o, utf16: 0, line: 0, column: 0 }
}

fn greatest_end(end: usize, others: &Vec<usize>) -> (r: usize)
    ensures
        r == greatest(end, others@),
{
    let mut m = end;
    let mut k: usize = 0;
    while k < others.len()
        invariant
            k <= others@.len(),
            m == greatest(end, others@.take(k as int)),
        decreases others@.len() - k,
    {
        proof {
            assert(others@.take(k + 1).drop_last() =~= others@.take(k as int));
        }
        if others[k] > m {
            m = others[k];
        }
        k = k + 1;
    }
    proof {
        assert(others@.take(k as int) =~= others@);
    }
    m
}

fn span_of(it: &SolItem) -> (r: TextRange)
    ensures
        r == item_span(*it),
{
    let start = if it.docs.len() > 0 {
        it.docs[0].start
    } else {
        it.start
    };
    let end = greatest_end(it.end, &it.other_ends);
    core::ops::Range { start: index_at_offset(start), end: index_at_offset(end) }
}

fn name_or_default(name: &Option<String>, default: &str) -> (r: String)
    ensures
        r@ == name_or(*name, default@),
{
    match name {
        Some(n) => n.clone(),
        None => default.to_owned(),
    }
}

fn parent_of(items: &[SolItem], i: usize) -> (r: Option<Parent>)
    requires
        i < items@.len(),
    ensures
        parent_repr(r) == parent_at(items@, i as int),
{
    match items[i].parent {
        Some(p) => {
            if p < items.len() {
                let name = name_or_default(&items[p].name, "");
                proof {
                    reveal_strlit("");
                    assert(""@ =~= Seq::<char>::empty());
                }
                match items[p].kind {
                    SolItemKind::Contract | SolItemKind::AbstractContract => Some(Parent::Contract(name)),
                    SolItemKind::Interface => Some(Parent::Interface(name)),
                    SolItemKind::Library => Some(Parent::Library(name)),
                    _ => None,
                }
            } else {
                None
            }
        },
        None => None,
    }
}

fn copy_idents(v: &Vec<Identifier>) -> (r: Vec<Identifier>)
    ensures
        r@ == v@,
{
    let mut r: Vec<Identifier> = Vec::new();
    let mut k: usize = 0;
    while k < v.len()
        invariant
            k <= v@.len(),
            r@ == v@.take(k as int),
        decreases v@.len() - k,
    {
        r.push(v[k].clone());
        proof {
            assert(v@.take(k + 1) =~= v@.take(k as int).push(v@[k as int]));
        }
        k = k + 1;
    }
    proof {
        assert(v@.take(k as int) =~= v@);
    }
    r
}

fn struct_members(v: &Vec<Identifier>) -> (r: Vec<Identifier>)
    ensures
        members_named(v@, r@),
{
    let mut r: Vec<Identifier> = Vec::new();
    let mut k: usize = 0;
    while k < v.len()
        invariant
            k <= v@.len(),
            r@.len() == k,
            forall|m: int|
                0 <= m < k ==> (#[trigger] r@[m]).span == v@[m].span && ident_name(r@[m]) == Some(
                    name_or(v@[m].name, "member"@),
                ),
        decreases v@.len() - k,
    {
        let name = name_or_default(&v[k].name, "member");
        r.push(Identifier { name: Some(name), span: core::ops::Range { start: v[k].span.start, end: v[k].span.end } });
        k = k + 1;
    }
    r
}

fn texts_of(docs: &Vec<DocComment>) -> (r: Vec<String>)
    ensures
        r@.map_values(|s: String| s@) == docs@.map_values(|d: DocComment| d.text@),
{
    let mut r: Vec<String> = Vec::new();
    let mut k: usize = 0;
    while k < docs.len()
        invariant
            k <= docs@.len(),
            r@.len() == k,
            forall|m: int| 0 <= m < k ==> (#[trigger] r@[m])@ == docs@[m].text@,
        decreases docs@.len() - k,
    {
        r.push(docs[k].text.clone());
        k = k + 1;
    }
    proof {
        assert(r@.map_values(|s: String| s@) =~= docs@.map_values(|d: DocComment| d.text@));
    }
    r
}

/// The definition made from item `i`, or nothing for a receive or fallback function
pub fn item_definition(items: &[SolItem], i: usize) -> (r: Option<Definition>)
    requires
        i < items@.len(),
    ensures
        is_skipped(items@[i as int].kind) ==> r is None,
        !is_skipped(items@[i as int].kind) ==> (r matches Some(d) && describes(items@, i as int, d)),
{
    let it = &items[i];
    if it.kind == SolItemKind::Fallback || it.kind == SolItemKind::Receive {
        return None;
    }
    let texts = texts_of(&it.docs);
    let no_rets: Vec<Identifier> = Vec::new();
    let rets = if it.kind == SolItemKind::Function {
        &it.returns
    } else {
        &no_rets
    };
    proof {
        assert(no_rets@ =~= Seq::<Identifier>::empty());
        assert(rets@ == rets_of(*it));
    }
    let parent = parent_of(items, i);
    proof {
        assert(texts@.map_values(|s: String| s@) == doc_texts(*it));
        lemma_docs_err_index(doc_texts(*it), rets@);
    }
    let natspec: Option<NatSpec> = match extract_natspec(texts.as_slice(), rets.as_slice()) {
        Err((j, e)) => {
            let d = &it.docs[j];
            return Some(
                Definition::NatspecParsingError(
                    Error::NatspecParsingError {
                        parent,
                        span: core::ops::Range { start: index_at_offset(d.start), end: index_at_offset(d.end) },
                        message: e.message(),
                    },
                ),
            );
        },
        Ok(n) => if it.docs.len() == 0 {
            None
        } else {
            Some(n)
        },
    };
    let span = span_of(it);
    let attributes = Attributes { visibility: it.visibility, is_override: it.is_override };
    let d = match it.kind {
        SolItemKind::Contract | SolItemKind::AbstractContract => Definition::Contract(
            ContractDefinition { name: name_or_default(&it.name, ""), span, natspec },
        ),
        SolItemKind::Interface => Definition::Interface(
            InterfaceDefinition { name: name_or_default(&it.name, ""), span, natspec },
        ),
        SolItemKind::Library => Definition::Library(
            LibraryDefinition { name: name_or_default(&it.name, ""), span, natspec },
        ),
        SolItemKind::Constructor => Definition::Constructor(
            ConstructorDefinition { parent, span, params: copy_idents(&it.params), natspec },
        ),
        SolItemKind::Function => Definition::Function(
            FunctionDefinition {
                parent,
                name: name_or_default(&it.name, "function"),
                span,
                params: copy_idents(&it.params),
                returns: copy_idents(&it.returns),
                natspec,
                attributes,
            },
        ),
        SolItemKind::Modifier => Definition::Modifier(
            ModifierDefinition {
                parent,
                name: name_or_default(&it.name, "modifier"),
                span,
                params: copy_idents(&it.params),
                natspec,
                attributes,
            },
        ),
        SolItemKind::Variable => Definition::Variable(
            VariableDeclaration {
                parent,
                name: name_or_default(&it.name, "variable"),
                span,
                natspec,
                attributes,
            },
        ),
        SolItemKind::Struct => Definition::Struct(
            StructDefinition {
                parent,
                name: name_or_default(&it.name, ""),
                span,
                members: struct_members(&it.params),
                natspec,
            },
        ),
        SolItemKind::Enum => Definition::Enumeration(
            EnumDefinition {
                parent,
                name: name_or_default(&it.name, ""),
                span,
                members: copy_idents(&it.params),
                natspec,
            },
        ),
        SolItemKind::Error => Definition::Error(
            ErrorDefinition {
                parent,
                name: name_or_default(&it.name, ""),
                span,
                params: copy_idents(&it.params),
                natspec,
            },
        ),
        _ => Definition::Event(
            EventDefinition {
                parent,
                name: name_or_default(&it.name, ""),
                span,
                params: copy_idents(&it.params),
                natspec,
            },
        ),
    };
    proof {
        reveal_strlit("");
        assert(""@ =~= Seq::<char>::empty());
    }
    Some(d)
}

/// The definitions made from the items a parser lists, in order, leaving out receive and fallback functions
pub fn extract_definitions(items: &[SolItem]) -> (defs: Vec<Definition>)
    ensures
        defs@.len() == kept(items@).len(),
        forall|j: int| 0 <= j < defs@.len() ==> describes(items@, #[trigger] kept(items@)[j], defs@[j]),
{
    let mut defs: Vec<Definition> = Vec::new();
    let mut i: usize = 0;
    while i < items.len()
        invariant
            i <= items@.len(),
            defs@.len() == kept(items@.take(i as int)).len(),
            forall|j: int|
                0 <= j < defs@.len() ==> describes(items@, #[trigger] kept(items@.take(i as int))[j], defs@[j]),
        decreases items@.len() - i,
    {
        proof {
            assert(items@.take(i + 1).drop_last() =~= items@.take(i as int));
            assert(items@.take(i + 1).last() == items@[i as int]);
        }
        match item_definition(items, i) {
            Some(d) => {
                defs.push(d);
            },
            None => {},
        }
        i = i + 1;
    }
    proof {
        assert(items@.take(i as int) =~= items@);
    }
    defs
}

/// `defs` are the definitions made from `items`, as [`extract_definitions`] makes them
pub open spec fn extracted(items: Seq<SolItem>, defs: Seq<Definition>) -> bool {
    &&& defs.len() == kept(items).len()
    &&& forall|j: int| 0 <= j < defs.len() ==> describes(items, #[trigger] kept(items)[j], defs[j])
}

/// The spans of the definitions `defs` can be completed in the text `source`: their byte offsets fall on
/// character boundaries of a text that is not empty, and the search for every index succeeds
pub open spec fn completable(source: Seq<char>, defs: Seq<Definition>) -> bool {
    &&& all_offsets(defs).len() > 0 ==> source.len() > 0
    &&& forall|i: int|
        0 <= i < all_offsets(defs).len() ==> is_boundary(source, #[trigger] all_offsets(defs)[i] as nat)
    &&& forall|ti: Seq<TextIndex>|
        indices_for(source, all_offsets(defs), ti) ==> #[trigger] populate_all(ti, 0, defs) is Some
}

/// `new` are the definitions `old` with their spans completed in the text `source` (see
/// [`try_complete_text_ranges`])
pub open spec fn completes(source: Seq<char>, old: Seq<Definition>, new: Seq<Definition>) -> bool {
    &&& all_offsets(old).len() == 0 ==> new == old
    &&& all_offsets(old).len() > 0 ==> exists|ti: Seq<TextIndex>|
        indices_for(source, all_offsets(old), ti) && #[trigger] populated(ti, old, new)
    &&& spans_in_order(all_slots(old)) ==> completed(source, old, new)
}

/// The parsed document of the text `source`, from the items that a parser lists for it: the definitions made
/// from the items, with their spans completed
///
/// There is no document where the spans cannot be completed (an offset that is not a character boundary, or a
/// search for an index that fails).
pub fn document_from_items(source: &str, items: &[SolItem]) -> (r: Option<ParsedDocument>)
    requires
        position_after(source@).utf8 <= usize::MAX,
    ensures
        match r {
            Some(doc) => exists|defs: Seq<Definition>|
                #[trigger] extracted(items@, defs) && completes(source@, defs, doc.definitions@),
            None => exists|defs: Seq<Definition>|
                #[trigger] extracted(items@, defs) && !completable(source@, defs),
        },
{
    let mut defs = extract_definitions(items);
    let ghost d0 = defs@;
    let ghost all = all_offsets(d0);
    assert(extracted(items@, d0));
    let offsets = gather_offsets(defs.as_slice());
    proof {
        broadcast use vstd::seq_lib::group_to_multiset_ensures;
        assert(offsets@.len() == all.len()) by {
            assert(offsets@.len() == offsets@.to_multiset().len());
            assert(all.len() == all.to_multiset().len());
        }
        lemma_total_len(source@);
        lemma_position_bounds(source@, source@.len() as int);
        assert(source@.take(source@.len() as int) == source@);
    }
    if offsets.len() > 0 && source.len() == 0 {
        return None;
    }
    if !offsets_on_boundaries(source, offsets.as_slice()) {
        proof {
            let i = choose|i: int| 0 <= i < offsets@.len() && !is_boundary(source@, offsets@[i] as nat);
            lemma_same_offsets(offsets@, all, offsets@[i] as nat);
            let j = choose|j: int| 0 <= j < all.len() && all[j] == offsets@[i];
            assert(!is_boundary(source@, all[j] as nat));
        }
        return None;
    }
    proof {
        assert forall|i: int| 0 <= i < all.len() implies is_boundary(source@, #[trigger] all[i] as nat) by {
            lemma_same_offsets(offsets@, all, all[i] as nat);
            assert(has_offset(all, all[i] as nat));
            let j = choose|j: int| 0 <= j < offsets@.len() && offsets@[j] == all[i];
            assert(is_boundary(source@, offsets@[j] as nat));
        }
    }
    if try_complete_text_ranges(source, &mut defs) {
        Some(ParsedDocument { id: DocumentId::new(), definitions: defs })
    } else {
        None
    }
}

} // verus!
