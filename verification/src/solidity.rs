//! Parsing a Solidity text with `solar_parse`, and the parsed document made from its syntax tree
//!
//! The parser's syntax tree lives in an arena and holds outside types, so it is copied, one node for one item,
//! into plain [`SolNode`]s while the parser's session is open. Listing the items, making the definitions and
//! completing their spans is then done by the verified functions of [`crate::tree`] and [`crate::items`].
//!
//! Each of the small trusted functions below reads one part of an item of the tree (through the parser's
//! types) and states nothing of what it returns. What the whole copy gives for a text is named by
//! [`solidity_tree`], and [`parse_solidity`] states that its result is that.
use std::path::PathBuf;
use std::sync::Arc;

use solar_parse::ast::{Arena, ContractKind, FunctionKind, Item, ItemKind, VariableDefinition};
use solar_parse::interface::source_map::{FileName, SourceFile, SourceMap};
use solar_parse::interface::{ColorChoice, Session, Span};
use solar_parse::Parser;
use vstd::prelude::*;

use crate::definitions::{Definition, Identifier};
use crate::error::Error;
use crate::items::{completable, completes, extracted, index_at, DocComment, SolItem};
use crate::parser::ParsedDocument;
use crate::textindex::{position_after, TextIndex};
use crate::tree::{document_from_tree, listed, NodeKind, SolNode};

verus! {

/// The parser's session, which holds the source map and the emitted diagnostics
#[verifier::external_type_specification]
#[verifier::external_body]
pub struct ExSession(Session);

/// A text in the parser's source map
#[verifier::external_type_specification]
#[verifier::external_body]
pub struct ExSourceFile(SourceFile);

/// The arena that holds a syntax tree
#[verifier::external_type_specification]
#[verifier::external_body]
pub struct ExArena(Arena);

/// An item of the parser's syntax tree
#[verifier::external_type_specification]
#[verifier::external_body]
pub struct ExItem<'ast>(Item<'ast>);

/// A span of the parser's source map
#[verifier::external_type_specification]
#[verifier::external_body]
pub struct ExSpan(Span);

/// The kind of a contract in the parser's syntax tree
#[verifier::external_type_specification]
#[verifier::external_body]
pub struct ExContractKind(ContractKind);

/// The kind of a function in the parser's syntax tree
#[verifier::external_type_specification]
#[verifier::external_body]
pub struct ExFunctionKind(FunctionKind);

/// A variable definition (a param, a return or a struct field) in the parser's syntax tree
#[verifier::external_type_specification]
#[verifier::external_body]
pub struct ExVariableDefinition<'ast>(VariableDefinition<'ast>);

/// The variant of an item's `ItemKind` as a node kind (a contract as `Contract` and a function as `Function`,
/// whatever their kind)
#[verifier::external_body]
fn item_variant(item: &Item<'_>) -> NodeKind {
    match &item.kind {
        ItemKind::Pragma(_) => NodeKind::Pragma,
        ItemKind::Import(_) => NodeKind::Import,
        ItemKind::Using(_) => NodeKind::Using,
        ItemKind::Udvt(_) => NodeKind::UserValueType,
        ItemKind::Contract(_) => NodeKind::Contract,
        ItemKind::Function(_) => NodeKind::Function,
        ItemKind::Variable(_) => NodeKind::Variable,
        ItemKind::Struct(_) => NodeKind::Struct,
        ItemKind::Enum(_) => NodeKind::Enum,
        ItemKind::Error(_) => NodeKind::Error,
        ItemKind::Event(_) => NodeKind::Event,
    }
}

/// The kind of a contract item
#[verifier::external_body]
fn contract_kind_of(item: &Item<'_>) -> Option<ContractKind> {
    match &item.kind {
        ItemKind::Contract(c) => Some(c.kind),
        _ => None,
    }
}

/// The kind of a function item
#[verifier::external_body]
fn function_kind_of(item: &Item<'_>) -> Option<FunctionKind> {
    match &item.kind {
        ItemKind::Function(f) => Some(f.kind),
        _ => None,
    }
}

/// The node kind of a `ContractKind`
#[verifier::external_body]
fn contract_kind(kind: ContractKind) -> NodeKind {
    match kind {
        ContractKind::Contract => NodeKind::Contract,
        ContractKind::AbstractContract => NodeKind::AbstractContract,
        ContractKind::Interface => NodeKind::Interface,
        ContractKind::Library => NodeKind::Library,
    }
}

/// The node kind of a `FunctionKind`
#[verifier::external_body]
fn function_kind(kind: FunctionKind) -> NodeKind {
    match kind {
        FunctionKind::Constructor => NodeKind::Constructor,
        FunctionKind::Function => NodeKind::Function,
        FunctionKind::Modifier => NodeKind::Modifier,
        FunctionKind::Fallback => NodeKind::Fallback,
        FunctionKind::Receive => NodeKind::Receive,
    }
}

/// The visibility written on a function or a variable, as the library's visibility
#[verifier::external_body]
fn item_visibility(item: &Item<'_>) -> Option<crate::definitions::Visibility> {
    let written = match &item.kind {
        ItemKind::Function(f) => f.header.visibility.as_deref().copied(),
        ItemKind::Variable(v) => v.visibility,
        _ => None,
    };
    written.map(|v| match v {
        solar_parse::ast::Visibility::External => crate::definitions::Visibility::External,
        solar_parse::ast::Visibility::Internal => crate::definitions::Visibility::Internal,
        solar_parse::ast::Visibility::Private => crate::definitions::Visibility::Private,
        solar_parse::ast::Visibility::Public => crate::definitions::Visibility::Public,
    })
}

/// The name of an item, through `Item::name`, as a string
#[verifier::external_body]
fn item_name(item: &Item<'_>) -> Option<String> {
    item.name().map(|name| name.as_str().to_string())
}

/// The span of an item
#[verifier::external_body]
fn item_span(item: &Item<'_>) -> Span {
    item.span
}

/// The byte offsets in its file where a span starts and ends, through `SourceMap::lookup_byte_offset`
#[verifier::external_body]
fn span_offsets(sess: &Session, span: Span) -> (usize, usize) {
    let map = sess.source_map();
    (map.lookup_byte_offset(span.lo()).pos.to_usize(), map.lookup_byte_offset(span.hi()).pos.to_usize())
}

/// The text of a span, through `SourceMap::span_to_snippet`, or the error's `Debug` text
#[verifier::external_body]
fn span_text(sess: &Session, span: Span) -> Result<String, String> {
    sess.source_map().span_to_snippet(span).map_err(|e| format!("{e:?}"))
}

/// The spans of the doc-comments of an item
#[verifier::external_body]
fn doc_spans(item: &Item<'_>) -> Vec<Span> {
    item.docs.iter().map(|doc| doc.span).collect()
}

/// The span of a function's header
#[verifier::external_body]
fn header_span(item: &Item<'_>) -> Option<Span> {
    match &item.kind {
        ItemKind::Function(f) => Some(f.header.span),
        _ => None,
    }
}

/// The params of a function, error or event, and the fields of a struct
#[verifier::external_body]
fn item_params<'a, 'ast>(item: &'a Item<'ast>) -> &'a [VariableDefinition<'ast>] {
    match &item.kind {
        ItemKind::Function(f) => &f.header.parameters.vars[..],
        ItemKind::Error(e) => &e.parameters.vars[..],
        ItemKind::Event(e) => &e.parameters.vars[..],
        ItemKind::Struct(s) => &s.fields[..],
        _ => &[],
    }
}

/// The returns of a function, through `FunctionHeader::returns`
#[verifier::external_body]
fn item_returns<'a, 'ast>(item: &'a Item<'ast>) -> &'a [VariableDefinition<'ast>] {
    match &item.kind {
        ItemKind::Function(f) => f.header.returns(),
        _ => &[],
    }
}

/// The name (with its span) and the span of a variable definition
#[verifier::external_body]
fn var_parts(var: &VariableDefinition<'_>) -> (Option<(String, Span)>, Span) {
    (var.name.map(|name| (name.as_str().to_string(), name.span)), var.span)
}

/// The variants of an enum, each with its span
#[verifier::external_body]
fn enum_variants(item: &Item<'_>) -> Vec<(String, Span)> {
    match &item.kind {
        ItemKind::Enum(e) => e.variants.iter().map(|v| (v.as_str().to_string(), v.span)).collect(),
        _ => Vec::new(),
    }
}

/// For a contract: the span of its name, of its last base (through `Modifier::span`) and of its storage layout
#[verifier::external_body]
fn contract_spans(item: &Item<'_>) -> Option<(Span, Option<Span>, Option<Span>)> {
    match &item.kind {
        ItemKind::Contract(c) => {
            Some((c.name.span, c.bases.last().map(|b| b.span()), c.layout.as_ref().map(|l| l.span)))
        },
        _ => None,
    }
}

/// The items of a contract's body
#[verifier::external_body]
fn contract_body<'a, 'ast>(item: &'a Item<'ast>) -> &'a [Item<'ast>] {
    match &item.kind {
        ItemKind::Contract(c) => &c.body[..],
        _ => &[],
    }
}

/// Whether a function or a variable is marked `override`
#[verifier::external_body]
fn item_override(item: &Item<'_>) -> bool {
    match &item.kind {
        ItemKind::Function(f) => f.header.override_.is_some(),
        ItemKind::Variable(v) => v.override_.is_some(),
        _ => false,
    }
}

/// The diagnostics that the session emitted, through `Session::emitted_errors` (a fixed message where it
/// holds none)
#[verifier::external_body]
fn emitted_errors(sess: &Session) -> String {
    match sess.emitted_errors() {
        Some(Err(diags)) => diags.to_string(),
        None | Some(Ok(())) => "unknown error".to_string(),
    }
}

/// The syntax tree that `solar_parse` gives for a text, copied into plain nodes; `None` where the text
/// does not parse
pub uninterp spec fn solidity_tree(source: Seq<char>) -> Option<Seq<SolNode>>;

/// Parse a text with `solar_parse` in a new session (`SourceMap::new_source_file`, then `Parser::parse_file`
/// with the session entered) and copy its syntax tree into plain nodes
///
/// The nodes are those that [`solidity_tree`] names for the text, and an error comes exactly where it names
/// none: an [`Error::IOError`] where the source map refuses the text (over 4 GiB), an [`Error::ParsingError`]
/// where the parser or the text of a doc-comment fails. The error's message is not stated.
#[verifier::external_body]
fn parse_solidity(path: &str, source: &str) -> (r: Result<Vec<SolNode>, Error>)
    ensures
        match r {
            Ok(nodes) => solidity_tree(source@) == Some(nodes@),
            Err(e) => solidity_tree(source@) is None && parse_failure(path@, e),
        },
{
    let sess = Session::builder()
        .source_map(Arc::new(SourceMap::empty()))
        .with_buffer_emitter(ColorChoice::Never)
        .build();
    let file = match sess.source_map().new_source_file(FileName::Real(PathBuf::from(path)), source) {
        Ok(file) => file,
        Err(err) => return Err(Error::IOError { path: path.to_string(), err: err.to_string() }),
    };
    sess.enter_sequential(|| parse_in_session(&sess, &file, path))
}

/// A new arena for a syntax tree
#[verifier::external_body]
fn new_arena() -> Arena {
    Arena::new()
}

/// The items of a text's syntax tree, through `Parser::parse_file`; `None` where it fails (its diagnostic is
/// emitted into the session)
#[verifier::external_body]
fn parse_items<'ast>(sess: &Session, arena: &'ast Arena, file: &SourceFile) -> Option<&'ast [Item<'ast>]> {
    let unit = Parser::from_source_file(sess, arena, file).parse_file().map_err(|err| err.emit()).ok()?;
    let items: &'ast solar_parse::interface::data_structures::index::IndexSlice<_, _> = unit.items;
    Some(&items.raw)
}

/// Parse a text of the session's source map and copy its syntax tree; where it does not parse, the error holds
/// the diagnostics that the session emitted
fn parse_in_session(sess: &Session, file: &SourceFile, path: &str) -> (r: Result<Vec<SolNode>, Error>)
    ensures
        r matches Err(e) ==> parse_failure(path@, e),
{
    let arena = new_arena();
    match parse_items(sess, &arena, file) {
        Some(items) => tree_nodes(sess, path, items),
        None => Err(parsing_error(path, 0, emitted_errors(sess))),
    }
}

/// The errors that parsing the file at `path` can give: an IO error where its text cannot be held by the
/// parser's source map, a parsing error where it does not parse; both name the path
pub open spec fn parse_failure(path: Seq<char>, e: Error) -> bool {
    match e {
        Error::IOError { path: p, .. } => p@ == path,
        Error::ParsingError { path: p, .. } => p@ == path,
        _ => false,
    }
}

/// A parsing error at a byte offset of the file
fn parsing_error(path: &str, offset: usize, message: String) -> (e: Error)
    ensures
        parse_failure(path@, e),
        e matches Error::ParsingError { loc, message: m, .. } && loc == index_at(offset) && m == message,
{
    Error::ParsingError { path: path.to_string(), loc: TextIndex { utf8: offset, utf16: 0, line: 0, column: 0 }, message }
}

/// The range between the byte offsets of a span
fn span_range(sess: &Session, span: Span) -> (r: crate::textindex::TextRange) {
    let (start, end) = span_offsets(sess, span);
    TextIndex { utf8: start, utf16: 0, line: 0, column: 0 }..TextIndex { utf8: end, utf16: 0, line: 0, column: 0 }
}

/// The doc-comments of an item: their text and byte offsets
fn doc_comments(sess: &Session, path: &str, item: &Item<'_>) -> (r: Result<Vec<DocComment>, Error>)
    ensures
        r matches Err(e) ==> parse_failure(path@, e),
{
    let spans = doc_spans(item);
    let mut docs: Vec<DocComment> = Vec::new();
    let mut i: usize = 0;
    while i < spans.len()
        invariant
            i <= spans@.len(),
        decreases spans@.len() - i,
    {
        let (start, end) = span_offsets(sess, spans[i]);
        match span_text(sess, spans[i]) {
            Ok(text) => docs.push(DocComment { text, start, end }),
            Err(message) => return Err(parsing_error(path, start, message)),
        }
        i = i + 1;
    }
    Ok(docs)
}

/// The identifiers of variable definitions: a named one spans its name, an unnamed one its whole definition
/// (or always its whole definition, with `whole`, as the fields of a struct do)
fn identifiers(sess: &Session, vars: &[VariableDefinition<'_>], whole: bool) -> (ids: Vec<Identifier>)
    ensures
        ids@.len() == vars@.len(),
{
    let mut ids: Vec<Identifier> = Vec::new();
    let mut i: usize = 0;
    while i < vars.len()
        invariant
            i <= vars@.len(),
            ids@.len() == i,
        decreases vars@.len() - i,
    {
        let (name, span) = var_parts(&vars[i]);
        let id = match name {
            Some((name, name_span)) => {
                let span = if whole { span } else { name_span };
                Identifier { name: Some(name), span: span_range(sess, span) }
            },
            None => Identifier { name: None, span: span_range(sess, span) },
        };
        ids.push(id);
        i = i + 1;
    }
    ids
}

/// The identifiers of the variants of an enum, each spanning its name
fn variant_identifiers(sess: &Session, item: &Item<'_>) -> (ids: Vec<Identifier>) {
    let variants = enum_variants(item);
    let mut ids: Vec<Identifier> = Vec::new();
    let mut i: usize = 0;
    while i < variants.len()
        invariant
            i <= variants@.len(),
        decreases variants@.len() - i,
    {
        let (name, span) = &variants[i];
        ids.push(Identifier { name: Some(name.clone()), span: span_range(sess, *span) });
        i = i + 1;
    }
    ids
}

/// The node of an item, with an empty body
fn item_node(sess: &Session, path: &str, item: &Item<'_>) -> (r: Result<SolNode, Error>)
    ensures
        r matches Err(e) ==> parse_failure(path@, e),
{
    let kind = match contract_kind_of(item) {
        Some(k) => contract_kind(k),
        None => match function_kind_of(item) {
            Some(k) => function_kind(k),
            None => item_variant(item),
        },
    };
    let (start, end) = span_offsets(sess, item_span(item));
    let docs = match doc_comments(sess, path, item) {
        Ok(docs) => docs,
        Err(e) => return Err(e),
    };
    let (header_start, header_end) = match header_span(item) {
        Some(span) => span_offsets(sess, span),
        None => (0, 0),
    };
    let (name_end, bases_end, layout_end) = match contract_spans(item) {
        Some((name, base, layout)) => {
            let bases_end = match base {
                Some(span) => Some(span_offsets(sess, span).1),
                None => None,
            };
            let layout_end = match layout {
                Some(span) => Some(span_offsets(sess, span).1),
                None => None,
            };
            (span_offsets(sess, name).1, bases_end, layout_end)
        },
        None => (0, None, None),
    };
    let params = if kind == NodeKind::Enum {
        variant_identifiers(sess, item)
    } else {
        identifiers(sess, item_params(item), kind == NodeKind::Struct)
    };
    Ok(SolNode {
        kind,
        name: item_name(item),
        start,
        end,
        name_end,
        bases_end,
        layout_end,
        header_start,
        header_end,
        docs,
        params,
        returns: identifiers(sess, item_returns(item), false),
        visibility: item_visibility(item),
        is_override: item_override(item),
        body: Vec::new(),
    })
}

/// The nodes of a list of items; a contract's node holds the nodes of its body (whose items are never
/// contracts: the parser leaves a contract out of a contract's body)
fn tree_nodes(sess: &Session, path: &str, items: &[Item<'_>]) -> (r: Result<Vec<SolNode>, Error>)
    ensures
        r matches Err(e) ==> parse_failure(path@, e),
{
    let mut nodes: Vec<SolNode> = Vec::new();
    let mut i: usize = 0;
    while i < items.len()
        invariant
            i <= items@.len(),
        decreases items@.len() - i,
    {
        let mut node = match item_node(sess, path, &items[i]) {
            Ok(node) => node,
            Err(e) => return Err(e),
        };
        let body = contract_body(&items[i]);
        let mut j: usize = 0;
        while j < body.len()
            invariant
                j <= body@.len(),
            decreases body@.len() - j,
        {
            match item_node(sess, path, &body[j]) {
                Ok(member) => node.body.push(member),
                Err(e) => return Err(e),
            }
            j = j + 1;
        }
        nodes.push(node);
        i = i + 1;
    }
    Ok(nodes)
}

/// The definitions `defs` are those made from the items listed from the syntax tree `nodes`, with their spans
/// completed over the text `source`
pub open spec fn document_of(source: Seq<char>, nodes: Seq<SolNode>, defs: Seq<Definition>) -> bool {
    exists|items: Seq<SolItem>|
        #[trigger] listed(nodes, items) && exists|made: Seq<Definition>|
            #[trigger] extracted(items, made) && completes(source, made, defs)
}

/// The spans of the definitions made from the items listed from the syntax tree `nodes` cannot be completed
/// over the text `source`
pub open spec fn incomplete_document(source: Seq<char>, nodes: Seq<SolNode>) -> bool {
    exists|items: Seq<SolItem>|
        #[trigger] listed(nodes, items) && exists|made: Seq<Definition>|
            #[trigger] extracted(items, made) && !completable(source, made)
}

/// Parse a Solidity text and make its document: the definitions of its source items, with complete spans
///
/// Where the parser gives a syntax tree, the document holds the definitions made from the items listed from
/// it, their spans completed over the text. Where it gives none, the error is that of the parser. Where the
/// spans cannot be completed (an offset that is not a character boundary, or a search for an index that
/// fails), the error is [`Error::UnknownError`].
pub fn parse_document(path: &str, source: &str) -> (r: Result<ParsedDocument, Error>)
    requires
        position_after(source@).utf8 <= usize::MAX,
    ensures
        match r {
            Ok(doc) => solidity_tree(source@) matches Some(nodes) && document_of(source@, nodes, doc.definitions@),
            Err(e) => match solidity_tree(source@) {
                None => parse_failure(path@, e),
                Some(nodes) => e is UnknownError && incomplete_document(source@, nodes),
            },
        },
{
    let nodes = match parse_solidity(path, source) {
        Ok(nodes) => nodes,
        Err(e) => return Err(e),
    };
    match document_from_tree(source, nodes.as_slice()) {
        Some(doc) => {
            assert(document_of(source@, nodes@, doc.definitions@));
            Ok(doc)
        },
        None => Err(Error::UnknownError),
    }
}

} // verus!
