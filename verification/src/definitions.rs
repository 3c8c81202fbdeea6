//! Source item definitions
//!
//! This module contains structs for each of the source item types that can be documented with
//! `NatSpec`. The [`Definition`] type provides a unified interface to interact with the various
//! types.
use vstd::prelude::*;

use crate::config::{ContractRules, FunctionConfig, FunctionRules, WithParamsRules};
use crate::lint::{
    append_diags, copy_range, diag, item_diags, diags_view, kind_rule_diag, natspec_items,
    notice_dev_diags, opt_has_kind, opt_seq, params_diags, push_diag, returns_diags, CheckAuthor,
    CheckNoticeAndDev, CheckParams, CheckReturns, CheckTitle, DiagView, Diagnostic, ItemDiagView,
    ItemDiagnostics,
    Validate, ValidationOptions,
};
use crate::error::{error_message, Error};
use crate::natspec::{is_author, is_inheritdoc, is_title, ItemView, NatSpec};
use crate::text::{ascii_lower_codes, chars_eq, chars_eq_ignore_ascii_case};
use crate::textindex::{chars_of, TextIndex, TextRange};

verus! {

/// An identifier (named or unnamed) and its span
///
/// Unnamed identifiers are used for unnamed return params.
#[derive(Debug)]
pub struct Identifier {
    pub name: Option<String>,
    pub span: TextRange,
}

impl Clone for Identifier {
    fn clone(&self) -> (r: Self)
        ensures
            r == *self,
    {
        let name = match &self.name {
            Some(n) => Some(n.clone()),
            None => None,
        };
        Identifier { name, span: core::ops::Range { start: self.span.start, end: self.span.end } }
    }
}

/// The name of an identifier, as a sequence of characters
pub open spec fn ident_name(ident: Identifier) -> Option<Seq<char>> {
    match ident.name {
        Some(n) => Some(n@),
        None => None,
    }
}

/// The visibility modifier for a function-like item
///
/// If no modifier is present, the default is `Internal`.
#[derive(Debug, Clone, Copy, PartialEq, Eq, Structural)]
pub enum Visibility {
    External,
    Internal,
    Private,
    Public,
}

impl Default for Visibility {
    fn default() -> (v: Self)
        ensures
            v == Visibility::Internal,
    {
        Visibility::Internal
    }
}

/// Attributes for a function or state variable (visibility and override)
#[derive(Debug, Clone, Copy, PartialEq, Eq, Structural)]
pub struct Attributes {
    pub visibility: Visibility,
    /// Whether the item is marked `override`
    pub is_override: bool,
}

impl Default for Attributes {
    fn default() -> (a: Self)
        ensures
            a == (Attributes { visibility: Visibility::Internal, is_override: false }),
    {
        Attributes { visibility: Visibility::Internal, is_override: false }
    }
}

/// The name and type of a source item's parent
#[derive(Debug, PartialEq, Eq)]
pub enum Parent {
    Contract(String),
    Interface(String),
    Library(String),
}

impl Clone for Parent {
    fn clone(&self) -> (r: Self)
        ensures
            r == *self,
    {
        match self {
            Parent::Contract(n) => Parent::Contract(n.clone()),
            Parent::Interface(n) => Parent::Interface(n.clone()),
            Parent::Library(n) => Parent::Library(n.clone()),
        }
    }
}

/// The name of a parent
pub open spec fn parent_name(p: Parent) -> Seq<char> {
    match p {
        Parent::Contract(n) => n@,
        Parent::Interface(n) => n@,
        Parent::Library(n) => n@,
    }
}

impl Parent {
    /// The text shown for the parent: its name
    pub fn to_string(&self) -> (s: String)
        ensures
            s@ == parent_name(*self),
    {
        match self {
            Parent::Contract(n) => n.clone(),
            Parent::Interface(n) => n.clone(),
            Parent::Library(n) => n.clone(),
        }
    }
}

/// A copy of an optional parent
pub fn clone_parent(p: &Option<Parent>) -> (r: Option<Parent>)
    ensures
        r == *p,
{
    match p {
        Some(x) => Some(x.clone()),
        None => None,
    }
}

/// The error for a text that names no variant of the type being parsed
#[derive(Debug, Clone, Copy, PartialEq, Eq, Structural)]
pub struct UnknownVariant;

/// Whether a text is equal to a literal
fn is_text(cs: &Vec<char>, lit: &str) -> (b: bool)
    ensures
        b == (cs@ == lit@),
{
    let l = chars_of(lit);
    chars_eq(cs, &l)
}

/// Whether a text is equal to a literal, ASCII letters being compared without case
fn is_text_ignore_case(cs: &Vec<char>, lit: &str) -> (b: bool)
    ensures
        b == (ascii_lower_codes(cs@) == ascii_lower_codes(lit@)),
{
    let l = chars_of(lit);
    chars_eq_ignore_ascii_case(cs, &l)
}

/// A type of source item (function, struct, etc.)
#[derive(Debug, Clone, Copy, PartialEq, Eq, Structural)]
pub enum ContractType {
    Contract,
    Interface,
    Library,
}

/// The name of a contract type, in snake case
pub open spec fn contract_type_name(t: ContractType) -> Seq<char> {
    match t {
        ContractType::Contract => "contract"@,
        ContractType::Interface => "interface"@,
        ContractType::Library => "library"@,
    }
}

impl ContractType {
    /// The name of the contract type, in snake case
    pub fn to_string(&self) -> (s: String)
        ensures
            s@ == contract_type_name(*self),
    {
        match self {
            ContractType::Contract => "contract".to_owned(),
            ContractType::Interface => "interface".to_owned(),
            ContractType::Library => "library".to_owned(),
        }
    }

    /// Parse a contract type from its name, without regard to the case of ASCII letters
    pub fn parse(s: &str) -> (r: Result<ContractType, UnknownVariant>)
        ensures
            match r {
                Ok(t) => ascii_lower_codes(s@) == ascii_lower_codes(contract_type_name(t)),
                Err(_) => forall|t: ContractType|
                    ascii_lower_codes(s@) != ascii_lower_codes(#[trigger] contract_type_name(t)),
            },
    {
        let cs = chars_of(s);
        if is_text_ignore_case(&cs, "contract") {
            Ok(ContractType::Contract)
        } else if is_text_ignore_case(&cs, "interface") {
            Ok(ContractType::Interface)
        } else if is_text_ignore_case(&cs, "library") {
            Ok(ContractType::Library)
        } else {
            assert forall|t: ContractType|
                ascii_lower_codes(s@) != ascii_lower_codes(#[trigger] contract_type_name(t)) by {
                match t {
                    ContractType::Contract => {},
                    ContractType::Interface => {},
                    ContractType::Library => {},
                }
            }
            Err(UnknownVariant)
        }
    }
}

impl core::str::FromStr for ContractType {
    type Err = UnknownVariant;

    fn from_str(s: &str) -> (r: Result<Self, Self::Err>)
        ensures
            match r {
                Ok(t) => ascii_lower_codes(s@) == ascii_lower_codes(contract_type_name(t)),
                Err(_) => forall|t: ContractType|
                    ascii_lower_codes(s@) != ascii_lower_codes(#[trigger] contract_type_name(t)),
            },
    {
        ContractType::parse(s)
    }
}

/// A type of source item (function, struct, etc.)
#[derive(Debug, Clone, Copy, PartialEq, Eq, Structural)]
pub enum ItemType {
    Contract,
    Interface,
    Library,
    Constructor,
    Enum,
    Error,
    Event,
    PrivateFunction,
    InternalFunction,
    PublicFunction,
    ExternalFunction,
    Modifier,
    ParsingError,
    Struct,
    PrivateVariable,
    InternalVariable,
    PublicVariable,
}

/// The name of an item type, in snake case
pub open spec fn item_type_name(t: ItemType) -> Seq<char> {
    match t {
        ItemType::Contract => "contract"@,
        ItemType::Interface => "interface"@,
        ItemType::Library => "library"@,
        ItemType::Constructor => "constructor"@,
        ItemType::Enum => "enum"@,
        ItemType::Error => "error"@,
        ItemType::Event => "event"@,
        ItemType::PrivateFunction => "private_function"@,
        ItemType::InternalFunction => "internal_function"@,
        ItemType::PublicFunction => "public_function"@,
        ItemType::ExternalFunction => "external_function"@,
        ItemType::Modifier => "modifier"@,
        ItemType::ParsingError => "parsing_error"@,
        ItemType::Struct => "struct"@,
        ItemType::PrivateVariable => "private_variable"@,
        ItemType::InternalVariable => "internal_variable"@,
        ItemType::PublicVariable => "public_variable"@,
    }
}

/// The text shown for an item type: functions and variables of any visibility are shown alike
pub open spec fn item_type_display(t: ItemType) -> Seq<char> {
    match t {
        ItemType::PrivateFunction | ItemType::InternalFunction | ItemType::PublicFunction
        | ItemType::ExternalFunction => "function"@,
        ItemType::PrivateVariable | ItemType::InternalVariable | ItemType::PublicVariable => "variable"@,
        _ => item_type_name(t),
    }
}

impl ItemType {
    /// The text shown for the item type
    ///
    /// Functions of any visibility are shown as `function`, state variables as `variable`, the other types by
    /// their name in snake case.
    pub fn to_string(&self) -> (s: String)
        ensures
            s@ == item_type_display(*self),
    {
        match self {
            ItemType::Contract => "contract".to_owned(),
            ItemType::Interface => "interface".to_owned(),
            ItemType::Library => "library".to_owned(),
            ItemType::Constructor => "constructor".to_owned(),
            ItemType::Enum => "enum".to_owned(),
            ItemType::Error => "error".to_owned(),
            ItemType::Event => "event".to_owned(),
            ItemType::PrivateFunction | ItemType::InternalFunction | ItemType::PublicFunction
            | ItemType::ExternalFunction => "function".to_owned(),
            ItemType::Modifier => "modifier".to_owned(),
            ItemType::ParsingError => "parsing_error".to_owned(),
            ItemType::Struct => "struct".to_owned(),
            ItemType::PrivateVariable | ItemType::InternalVariable | ItemType::PublicVariable => {
                "variable".to_owned()
            },
        }
    }

    /// Parse an item type from its name in snake case (the case of letters matters)
    pub fn parse(s: &str) -> (r: Result<ItemType, UnknownVariant>)
        ensures
            match r {
                Ok(t) => s@ == item_type_name(t),
                Err(_) => forall|t: ItemType| s@ != #[trigger] item_type_name(t),
            },
    {
        let cs = chars_of(s);
        if is_text(&cs, "contract") {
            Ok(ItemType::Contract)
        } else if is_text(&cs, "interface") {
            Ok(ItemType::Interface)
        } else if is_text(&cs, "library") {
            Ok(ItemType::Library)
        } else if is_text(&cs, "constructor") {
            Ok(ItemType::Constructor)
        } else if is_text(&cs, "enum") {
            Ok(ItemType::Enum)
        } else if is_text(&cs, "error") {
            Ok(ItemType::Error)
        } else if is_text(&cs, "event") {
            Ok(ItemType::Event)
        } else if is_text(&cs, "private_function") {
            Ok(ItemType::PrivateFunction)
        } else if is_text(&cs, "internal_function") {
            Ok(ItemType::InternalFunction)
        } else if is_text(&cs, "public_function") {
            Ok(ItemType::PublicFunction)
        } else if is_text(&cs, "external_function") {
            Ok(ItemType::ExternalFunction)
        } else if is_text(&cs, "modifier") {
            Ok(ItemType::Modifier)
        } else if is_text(&cs, "parsing_error") {
            Ok(ItemType::ParsingError)
        } else if is_text(&cs, "struct") {
            Ok(ItemType::Struct)
        } else if is_text(&cs, "private_variable") {
            Ok(ItemType::PrivateVariable)
        } else if is_text(&cs, "internal_variable") {
            Ok(ItemType::InternalVariable)
        } else if is_text(&cs, "public_variable") {
            Ok(ItemType::PublicVariable)
        } else {
            assert forall|t: ItemType| s@ != #[trigger] item_type_name(t) by {
                match t {
                    ItemType::Contract => {},
                    ItemType::Interface => {},
                    ItemType::Library => {},
                    ItemType::Constructor => {},
                    ItemType::Enum => {},
                    ItemType::Error => {},
                    ItemType::Event => {},
                    ItemType::PrivateFunction => {},
                    ItemType::InternalFunction => {},
                    ItemType::PublicFunction => {},
                    ItemType::ExternalFunction => {},
                    ItemType::Modifier => {},
                    ItemType::ParsingError => {},
                    ItemType::Struct => {},
                    ItemType::PrivateVariable => {},
                    ItemType::InternalVariable => {},
                    ItemType::PublicVariable => {},
                }
            }
            Err(UnknownVariant)
        }
    }
}

impl core::str::FromStr for ItemType {
    type Err = UnknownVariant;

    fn from_str(s: &str) -> (r: Result<Self, Self::Err>)
        ensures
            match r {
                Ok(t) => s@ == item_type_name(t),
                Err(_) => forall|t: ItemType| s@ != #[trigger] item_type_name(t),
            },
    {
        ItemType::parse(s)
    }
}

/// Whether the optional `NatSpec` has an `@inheritdoc` item
fn natspec_has_inheritdoc(natspec: &Option<NatSpec>) -> (b: bool)
    ensures
        b == opt_has_kind(natspec_items(*natspec), is_inheritdoc()),
{
    match natspec {
        Some(n) => n.has_inheritdoc(),
        None => false,
    }
}

/// The diagnostics of a contract, interface or library: `@title`, `@author`, then `@notice` and `@dev`
pub open spec fn contract_like_diags(
    natspec: Option<Seq<ItemView>>,
    rules: ContractRules,
    notice_or_dev: bool,
    span: TextRange,
) -> Seq<DiagView> {
    opt_seq(kind_rule_diag(natspec, rules.title, is_title(), span, "@title"@)) + opt_seq(
        kind_rule_diag(natspec, rules.author, is_author(), span, "@author"@),
    ) + notice_dev_diags(natspec, rules.notice, rules.dev, notice_or_dev, span)
}

/// Check a contract, interface or library's `NatSpec` against its rules
fn check_contract_like(
    natspec: &Option<NatSpec>,
    rules: ContractRules,
    notice_or_dev: bool,
    span: &TextRange,
) -> (diags: Vec<Diagnostic>)
    ensures
        diags_view(diags@) == contract_like_diags(natspec_items(*natspec), rules, notice_or_dev, *span),
{
    let mut diags = Vec::new();
    CheckTitle::new(natspec, rules.title, span).check_into(&mut diags);
    CheckAuthor::new(natspec, rules.author, span).check_into(&mut diags);
    CheckNoticeAndDev::new(natspec, rules.notice, rules.dev, notice_or_dev, span).check_into(&mut diags);
    assert(diags_view(diags@) =~= contract_like_diags(natspec_items(*natspec), rules, notice_or_dev, *span));
    diags
}

/// The diagnostics of an item with params: `@notice` and `@dev`, then the params ordered by their span
pub open spec fn with_params_diags(
    natspec: Option<Seq<ItemView>>,
    rules: WithParamsRules,
    notice_or_dev: bool,
    params: Seq<Identifier>,
    span: TextRange,
) -> Seq<DiagView> {
    item_diags(
        notice_dev_diags(natspec, rules.notice, rules.dev, notice_or_dev, span),
        params_diags(natspec, rules.param, params, span),
        Seq::empty(),
    )
}

/// Check the `NatSpec` of an item with params against its rules
fn check_with_params(
    natspec: &Option<NatSpec>,
    rules: WithParamsRules,
    notice_or_dev: bool,
    params: &Vec<Identifier>,
    span: &TextRange,
) -> (diags: Vec<Diagnostic>)
    ensures
        diags_view(diags@) == with_params_diags(
            natspec_items(*natspec),
            rules,
            notice_or_dev,
            params@,
            *span,
        ),
{
    let mut diags = Vec::new();
    CheckNoticeAndDev::new(natspec, rules.notice, rules.dev, notice_or_dev, span).check_into(&mut diags);
    let ghost before = diags_view(diags@);
    let sorted = CheckParams::new(natspec, rules.param, params.as_slice(), copy_range(span)).check();
    let ghost x = diags_view(sorted@);
    append_diags(&mut diags, sorted);
    proof {
        assert(before + x + Seq::<DiagView>::empty() =~= before + x);
    }
    diags
}

/// A contract definition
#[derive(Debug)]
pub struct ContractDefinition {
    /// The name of the contract
    pub name: String,
    /// The span of the contract definition
    pub span: TextRange,
    /// The [`NatSpec`] associated with the contract definition, if any
    pub natspec: Option<NatSpec>,
}

impl Validate for ContractDefinition {
    fn validate(&self, options: &ValidationOptions) -> (out: ItemDiagnostics)
        ensures
            out.parent is None,
            out.item_type == ItemType::Contract,
            out.name@ == self.name@,
            out.span == self.span,
            diags_view(out.diags@) == contract_like_diags(
                natspec_items(self.natspec),
                options.contracts,
                options.notice_or_dev,
                self.span,
            ),
    {
        ItemDiagnostics {
            parent: None,
            item_type: ItemType::Contract,
            name: self.name.clone(),
            span: copy_range(&self.span),
            diags: check_contract_like(&self.natspec, options.contracts, options.notice_or_dev, &self.span),
        }
    }
}

/// An interface definition
#[derive(Debug)]
pub struct InterfaceDefinition {
    /// The name of the interface
    pub name: String,
    /// The span of the interface definition
    pub span: TextRange,
    /// The [`NatSpec`] associated with the interface definition, if any
    pub natspec: Option<NatSpec>,
}

impl Validate for InterfaceDefinition {
    fn validate(&self, options: &ValidationOptions) -> (out: ItemDiagnostics)
        ensures
            out.parent is None,
            out.item_type == ItemType::Interface,
            out.name@ == self.name@,
            out.span == self.span,
            diags_view(out.diags@) == contract_like_diags(
                natspec_items(self.natspec),
                options.interfaces,
                options.notice_or_dev,
                self.span,
            ),
    {
        ItemDiagnostics {
            parent: None,
            item_type: ItemType::Interface,
            name: self.name.clone(),
            span: copy_range(&self.span),
            diags: check_contract_like(&self.natspec, options.interfaces, options.notice_or_dev, &self.span),
        }
    }
}

/// A library definition
#[derive(Debug)]
pub struct LibraryDefinition {
    /// The name of the library
    pub name: String,
    /// The span of the library definition
    pub span: TextRange,
    /// The [`NatSpec`] associated with the library definition, if any
    pub natspec: Option<NatSpec>,
}

impl Validate for LibraryDefinition {
    fn validate(&self, options: &ValidationOptions) -> (out: ItemDiagnostics)
        ensures
            out.parent is None,
            out.item_type == ItemType::Library,
            out.name@ == self.name@,
            out.span == self.span,
            diags_view(out.diags@) == contract_like_diags(
                natspec_items(self.natspec),
                options.libraries,
                options.notice_or_dev,
                self.span,
            ),
    {
        ItemDiagnostics {
            parent: None,
            item_type: ItemType::Library,
            name: self.name.clone(),
            span: copy_range(&self.span),
            diags: check_contract_like(&self.natspec, options.libraries, options.notice_or_dev, &self.span),
        }
    }
}

/// A constructor definition
#[derive(Debug)]
pub struct ConstructorDefinition {
    /// The parent for the constructor definition (should always be `Some`)
    pub parent: Option<Parent>,
    /// The span of the constructor definition, excluding the body
    pub span: TextRange,
    /// The name and span of the constructor's parameters
    pub params: Vec<Identifier>,
    /// The [`NatSpec`] associated with the constructor definition, if any
    pub natspec: Option<NatSpec>,
}

impl Validate for ConstructorDefinition {
    fn validate(&self, options: &ValidationOptions) -> (out: ItemDiagnostics)
        ensures
            out.parent == self.parent,
            out.item_type == ItemType::Constructor,
            out.name@ == "constructor"@,
            out.span == self.span,
            diags_view(out.diags@) == with_params_diags(
                natspec_items(self.natspec),
                options.constructors,
                options.notice_or_dev,
                self.params@,
                self.span,
            ),
    {
        ItemDiagnostics {
            parent: clone_parent(&self.parent),
            item_type: ItemType::Constructor,
            name: "constructor".to_owned(),
            span: copy_range(&self.span),
            diags: check_with_params(
                &self.natspec,
                options.constructors,
                options.notice_or_dev,
                &self.params,
                &self.span,
            ),
        }
    }
}

/// An enum definition
#[derive(Debug)]
pub struct EnumDefinition {
    /// The parent for the enum definition, if any
    pub parent: Option<Parent>,
    /// The name of the enum
    pub name: String,
    /// The span of the enum definition
    pub span: TextRange,
    /// The name and span of the enum variants
    pub members: Vec<Identifier>,
    /// The [`NatSpec`] associated with the enum definition, if any
    pub natspec: Option<NatSpec>,
}

impl Validate for EnumDefinition {
    fn validate(&self, options: &ValidationOptions) -> (out: ItemDiagnostics)
        ensures
            out.parent == self.parent,
            out.item_type == ItemType::Enum,
            out.name@ == self.name@,
            out.span == self.span,
            diags_view(out.diags@) == with_params_diags(
                natspec_items(self.natspec),
                options.enums,
                options.notice_or_dev,
                self.members@,
                self.span,
            ),
    {
        ItemDiagnostics {
            parent: clone_parent(&self.parent),
            item_type: ItemType::Enum,
            name: self.name.clone(),
            span: copy_range(&self.span),
            diags: check_with_params(
                &self.natspec,
                options.enums,
                options.notice_or_dev,
                &self.members,
                &self.span,
            ),
        }
    }
}

/// An error definition
#[derive(Debug)]
pub struct ErrorDefinition {
    /// The parent for the error definition, if any
    pub parent: Option<Parent>,
    /// The name of the error
    pub name: String,
    /// The span of the error definition
    pub span: TextRange,
    /// The name and span of the error's parameters
    pub params: Vec<Identifier>,
    /// The [`NatSpec`] associated with the error definition, if any
    pub natspec: Option<NatSpec>,
}

impl Validate for ErrorDefinition {
    fn validate(&self, options: &ValidationOptions) -> (out: ItemDiagnostics)
        ensures
            out.parent == self.parent,
            out.item_type == ItemType::Error,
            out.name@ == self.name@,
            out.span == self.span,
            diags_view(out.diags@) == with_params_diags(
                natspec_items(self.natspec),
                options.errors,
                options.notice_or_dev,
                self.params@,
                self.span,
            ),
    {
        ItemDiagnostics {
            parent: clone_parent(&self.parent),
            item_type: ItemType::Error,
            name: self.name.clone(),
            span: copy_range(&self.span),
            diags: check_with_params(
                &self.natspec,
                options.errors,
                options.notice_or_dev,
                &self.params,
                &self.span,
            ),
        }
    }
}

/// An event definition
#[derive(Debug)]
pub struct EventDefinition {
    /// The parent for the event definition, if any
    pub parent: Option<Parent>,
    /// The name of the event
    pub name: String,
    /// The span of the event definition
    pub span: TextRange,
    /// The name and span of the event's parameters
    pub params: Vec<Identifier>,
    /// The [`NatSpec`] associated with the event definition, if any
    pub natspec: Option<NatSpec>,
}

impl Validate for EventDefinition {
    fn validate(&self, options: &ValidationOptions) -> (out: ItemDiagnostics)
        ensures
            out.parent == self.parent,
            out.item_type == ItemType::Event,
            out.name@ == self.name@,
            out.span == self.span,
            diags_view(out.diags@) == with_params_diags(
                natspec_items(self.natspec),
                options.events,
                options.notice_or_dev,
                self.params@,
                self.span,
            ),
    {
        ItemDiagnostics {
            parent: clone_parent(&self.parent),
            item_type: ItemType::Event,
            name: self.name.clone(),
            span: copy_range(&self.span),
            diags: check_with_params(
                &self.natspec,
                options.events,
                options.notice_or_dev,
                &self.params,
                &self.span,
            ),
        }
    }
}

/// A struct definition
#[derive(Debug)]
pub struct StructDefinition {
    /// The parent for the struct definition, if any
    pub parent: Option<Parent>,
    /// The name of the struct
    pub name: String,
    /// The span of the struct definition
    pub span: TextRange,
    /// The name and span of the struct members
    pub members: Vec<Identifier>,
    /// The [`NatSpec`] associated with the struct definition, if any
    pub natspec: Option<NatSpec>,
}

impl Validate for StructDefinition {
    fn validate(&self, options: &ValidationOptions) -> (out: ItemDiagnostics)
        ensures
            out.parent == self.parent,
            out.item_type == ItemType::Struct,
            out.name@ == self.name@,
            out.span == self.span,
            diags_view(out.diags@) == with_params_diags(
                natspec_items(self.natspec),
                options.structs,
                options.notice_or_dev,
                self.members@,
                self.span,
            ),
    {
        ItemDiagnostics {
            parent: clone_parent(&self.parent),
            item_type: ItemType::Struct,
            name: self.name.clone(),
            span: copy_range(&self.span),
            diags: check_with_params(
                &self.natspec,
                options.structs,
                options.notice_or_dev,
                &self.members,
                &self.span,
            ),
        }
    }
}

/// The single diagnostic of an item that lacks a required `@inheritdoc`
pub open spec fn inheritdoc_missing(span: TextRange) -> Seq<DiagView> {
    seq![diag(span, "@inheritdoc is missing"@)]
}

/// The single diagnostic of an item that lacks a required `@inheritdoc`
fn inheritdoc_missing_diags(span: &TextRange) -> (diags: Vec<Diagnostic>)
    ensures
        diags_view(diags@) == inheritdoc_missing(*span),
{
    let mut diags = Vec::new();
    push_diag(&mut diags, Diagnostic { span: copy_range(span), message: "@inheritdoc is missing".to_owned() });
    assert(diags_view(diags@) =~= inheritdoc_missing(*span));
    diags
}

/// A modifier definition
#[derive(Debug)]
pub struct ModifierDefinition {
    /// The parent for the modifier definition (should always be `Some`)
    pub parent: Option<Parent>,
    /// The name of the modifier
    pub name: String,
    /// The span of the modifier definition, excluding the body
    pub span: TextRange,
    /// The name and span of the modifier's parameters
    pub params: Vec<Identifier>,
    /// The [`NatSpec`] associated with the modifier definition, if any
    pub natspec: Option<NatSpec>,
    /// The attributes of the modifier (override)
    pub attributes: Attributes,
}

impl ModifierDefinition {
    /// Whether this modifier requires `@inheritdoc`: an `override` modifier in a contract does, when
    /// `inheritdoc_override` is set
    pub open spec fn spec_requires_inheritdoc(&self, options: ValidationOptions) -> bool {
        options.inheritdoc_override && self.attributes.is_override && self.parent matches Some(
            Parent::Contract(_),
        )
    }

    /// Check whether this modifier requires inheritdoc when we enforce it
    ///
    /// `override` modifiers must have inheritdoc.
    pub fn requires_inheritdoc(&self, options: &ValidationOptions) -> (b: bool)
        ensures
            b == self.spec_requires_inheritdoc(*options),
    {
        let parent_is_contract = match &self.parent {
            Some(Parent::Contract(_)) => true,
            _ => false,
        };
        options.inheritdoc_override && self.attributes.is_override && parent_is_contract
    }

    /// The diagnostics of the modifier
    ///
    /// With `@inheritdoc`, nothing else is checked; without it, where it is required, that is the only diagnostic.
    pub open spec fn spec_diags(&self, options: ValidationOptions) -> Seq<DiagView> {
        if opt_has_kind(natspec_items(self.natspec), is_inheritdoc()) {
            Seq::<DiagView>::empty()
        } else if self.spec_requires_inheritdoc(options) {
            inheritdoc_missing(self.span)
        } else {
            with_params_diags(
                natspec_items(self.natspec),
                options.modifiers,
                options.notice_or_dev,
                self.params@,
                self.span,
            )
        }
    }
}

impl Validate for ModifierDefinition {
    fn validate(&self, options: &ValidationOptions) -> (out: ItemDiagnostics)
        ensures
            out.parent == self.parent,
            out.item_type == ItemType::Modifier,
            out.name@ == self.name@,
            out.span == self.span,
            diags_view(out.diags@) == self.spec_diags(*options),
    {
        let diags = if natspec_has_inheritdoc(&self.natspec) {
            let d = Vec::new();
            assert(diags_view(d@) =~= Seq::<DiagView>::empty());
            d
        } else if self.requires_inheritdoc(options) {
            inheritdoc_missing_diags(&self.span)
        } else {
            check_with_params(
                &self.natspec,
                options.modifiers,
                options.notice_or_dev,
                &self.params,
                &self.span,
            )
        };
        ItemDiagnostics {
            parent: clone_parent(&self.parent),
            item_type: ItemType::Modifier,
            name: self.name.clone(),
            span: copy_range(&self.span),
            diags,
        }
    }
}

/// The rules for a function of the given visibility
pub open spec fn function_rules(functions: FunctionConfig, visibility: Visibility) -> FunctionRules {
    match visibility {
        Visibility::External => functions.external,
        Visibility::Internal => functions.internal,
        Visibility::Private => functions.private,
        Visibility::Public => functions.public,
    }
}

/// The item type of a function of the given visibility
pub open spec fn function_item_type(visibility: Visibility) -> ItemType {
    match visibility {
        Visibility::External => ItemType::ExternalFunction,
        Visibility::Internal => ItemType::InternalFunction,
        Visibility::Private => ItemType::PrivateFunction,
        Visibility::Public => ItemType::PublicFunction,
    }
}

/// A function definition
#[derive(Debug)]
pub struct FunctionDefinition {
    /// The parent for the function definition (should always be `Some`)
    pub parent: Option<Parent>,
    /// The name of the function
    pub name: String,
    /// The span of the function definition, excluding the body
    pub span: TextRange,
    /// The name and span of the function's parameters
    pub params: Vec<Identifier>,
    /// The name and span of the function's returns
    pub returns: Vec<Identifier>,
    /// The [`NatSpec`] associated with the function definition, if any
    pub natspec: Option<NatSpec>,
    /// The attributes of the function (visibility and override)
    pub attributes: Attributes,
}

impl FunctionDefinition {
    /// Whether this function requires `@inheritdoc`: in a contract, a public or external function does when
    /// `inheritdoc` is set, an internal `override` function does when `inheritdoc_override` is set
    pub open spec fn spec_requires_inheritdoc(&self, options: ValidationOptions) -> bool {
        &&& self.parent matches Some(Parent::Contract(_))
        &&& ((options.inheritdoc && (self.attributes.visibility == Visibility::External
            || self.attributes.visibility == Visibility::Public)) || (options.inheritdoc_override
            && self.attributes.visibility == Visibility::Internal && self.attributes.is_override))
    }

    /// Check whether this function requires inheritdoc when we enforce it
    ///
    /// External and public functions, as well as overridden internal functions must have inheritdoc.
    pub fn requires_inheritdoc(&self, options: &ValidationOptions) -> (b: bool)
        ensures
            b == self.spec_requires_inheritdoc(*options),
    {
        let parent_is_contract = match &self.parent {
            Some(Parent::Contract(_)) => true,
            _ => false,
        };
        let internal_override = self.attributes.visibility == Visibility::Internal
            && self.attributes.is_override;
        let public_external = match self.attributes.visibility {
            Visibility::External | Visibility::Public => true,
            _ => false,
        };
        parent_is_contract && ((options.inheritdoc && public_external) || (options.inheritdoc_override
            && internal_override))
    }

    /// The diagnostics of the function
    ///
    /// `receive` and `fallback` need no `NatSpec`. With `@inheritdoc`, nothing else is checked; without it,
    /// where it is required, that is the only diagnostic.
    pub open spec fn spec_diags(&self, options: ValidationOptions) -> Seq<DiagView> {
        let rules = function_rules(options.functions, self.attributes.visibility);
        let natspec = natspec_items(self.natspec);
        if self.name@ == "receive"@ || self.name@ == "fallback"@ {
            Seq::<DiagView>::empty()
        } else if opt_has_kind(natspec, is_inheritdoc()) {
            Seq::<DiagView>::empty()
        } else if self.spec_requires_inheritdoc(options) {
            inheritdoc_missing(self.span)
        } else {
            item_diags(
                notice_dev_diags(natspec, rules.notice, rules.dev, options.notice_or_dev, self.span),
                params_diags(natspec, rules.param, self.params@, self.span),
                returns_diags(natspec, rules.returns, self.returns@, self.span, false),
            )
        }
    }

    /// Check the function's `NatSpec` against the rules of its visibility
    fn check_rules(&self, options: &ValidationOptions) -> (diags: Vec<Diagnostic>)
        ensures
            ({
                let rules = function_rules(options.functions, self.attributes.visibility);
                let natspec = natspec_items(self.natspec);
                diags_view(diags@) == item_diags(
                    notice_dev_diags(natspec, rules.notice, rules.dev, options.notice_or_dev, self.span),
                    params_diags(natspec, rules.param, self.params@, self.span),
                    returns_diags(natspec, rules.returns, self.returns@, self.span, false),
                )
            }),
    {
        let rules = match self.attributes.visibility {
            Visibility::External => options.functions.external,
            Visibility::Internal => options.functions.internal,
            Visibility::Private => options.functions.private,
            Visibility::Public => options.functions.public,
        };
        let mut diags = Vec::new();
        CheckNoticeAndDev::new(&self.natspec, rules.notice, rules.dev, options.notice_or_dev, &self.span)
            .check_into(&mut diags);
        let ghost before = diags_view(diags@);
        let sorted = CheckParams::new(
            &self.natspec,
            rules.param,
            self.params.as_slice(),
            copy_range(&self.span),
        ).check();
        let ghost x = diags_view(sorted@);
        append_diags(&mut diags, sorted);
        let rets = CheckReturns::new(
            &self.natspec,
            rules.returns,
            self.returns.as_slice(),
            copy_range(&self.span),
            false,
        ).check();
        let ghost after = diags_view(rets@);
        append_diags(&mut diags, rets);
        diags
    }
}

impl Validate for FunctionDefinition {
    fn validate(&self, options: &ValidationOptions) -> (out: ItemDiagnostics)
        ensures
            out.parent == self.parent,
            out.item_type == function_item_type(self.attributes.visibility),
            out.name@ == self.name@,
            out.span == self.span,
            diags_view(out.diags@) == self.spec_diags(*options),
    {
        let name_chars = chars_of(self.name.as_str());
        let diags = if is_text(&name_chars, "receive") || is_text(&name_chars, "fallback") {
            let d = Vec::new();
            assert(diags_view(d@) =~= Seq::<DiagView>::empty());
            d
        } else if natspec_has_inheritdoc(&self.natspec) {
            let d = Vec::new();
            assert(diags_view(d@) =~= Seq::<DiagView>::empty());
            d
        } else if self.requires_inheritdoc(options) {
            inheritdoc_missing_diags(&self.span)
        } else {
            self.check_rules(options)
        };
        let item_type = match self.attributes.visibility {
            Visibility::External => ItemType::ExternalFunction,
            Visibility::Internal => ItemType::InternalFunction,
            Visibility::Private => ItemType::PrivateFunction,
            Visibility::Public => ItemType::PublicFunction,
        };
        ItemDiagnostics {
            parent: clone_parent(&self.parent),
            item_type,
            name: self.name.clone(),
            span: copy_range(&self.span),
            diags,
        }
    }
}

/// The item type of a state variable of the given visibility (state variables are never external)
pub open spec fn variable_item_type(visibility: Visibility) -> ItemType {
    match visibility {
        Visibility::Private => ItemType::PrivateVariable,
        Visibility::Public => ItemType::PublicVariable,
        _ => ItemType::InternalVariable,
    }
}

/// A state variable declaration
#[derive(Debug)]
pub struct VariableDeclaration {
    /// The parent for the state variable declaration (should always be `Some`)
    pub parent: Option<Parent>,
    /// The name of the state variable
    pub name: String,
    /// The span of the state variable declaration
    pub span: TextRange,
    /// The [`NatSpec`] associated with the state variable declaration, if any
    pub natspec: Option<NatSpec>,
    /// The attributes of the state variable (visibility)
    pub attributes: Attributes,
}

impl VariableDeclaration {
    /// Whether this variable requires `@inheritdoc`: a public state variable of a contract does
    pub open spec fn spec_requires_inheritdoc(&self) -> bool {
        self.parent matches Some(Parent::Contract(_)) && self.attributes.visibility == Visibility::Public
    }

    /// Check whether this variable requires inheritdoc when we enforce it
    ///
    /// Public state variables must have inheritdoc.
    pub fn requires_inheritdoc(&self) -> (b: bool)
        ensures
            b == self.spec_requires_inheritdoc(),
    {
        let parent_is_contract = match &self.parent {
            Some(Parent::Contract(_)) => true,
            _ => false,
        };
        parent_is_contract && self.attributes.visibility == Visibility::Public
    }

    /// The diagnostics of the state variable
    ///
    /// With `@inheritdoc`, nothing else is checked; without it, where it is required and enforced, that is the
    /// only diagnostic. A public variable is checked for its single, unnamed return.
    pub open spec fn spec_diags(&self, options: ValidationOptions) -> Seq<DiagView> {
        let natspec = natspec_items(self.natspec);
        if opt_has_kind(natspec, is_inheritdoc()) {
            Seq::<DiagView>::empty()
        } else if options.inheritdoc && self.spec_requires_inheritdoc() {
            inheritdoc_missing(self.span)
        } else {
            match self.attributes.visibility {
                Visibility::Public => {
                    let rules = options.variables.public;
                    notice_dev_diags(
                        natspec,
                        rules.notice,
                        rules.dev,
                        options.notice_or_dev,
                        self.span,
                    ) + returns_diags(
                        natspec,
                        rules.returns,
                        seq![Identifier { name: None, span: self.span }],
                        self.span,
                        true,
                    )
                },
                Visibility::Private => notice_dev_diags(
                    natspec,
                    options.variables.private.notice,
                    options.variables.private.dev,
                    options.notice_or_dev,
                    self.span,
                ),
                _ => notice_dev_diags(
                    natspec,
                    options.variables.internal.notice,
                    options.variables.internal.dev,
                    options.notice_or_dev,
                    self.span,
                ),
            }
        }
    }

    /// Check the variable's `NatSpec` against the rules of its visibility
    fn check_rules(&self, options: &ValidationOptions) -> (diags: Vec<Diagnostic>)
        requires
            self.attributes.visibility != Visibility::External,
        ensures
            !opt_has_kind(natspec_items(self.natspec), is_inheritdoc()) && !(options.inheritdoc
                && self.spec_requires_inheritdoc()) ==> diags_view(diags@) == self.spec_diags(*options),
    {
        let mut diags = Vec::new();
        match self.attributes.visibility {
            Visibility::Public => {
                let rules = options.variables.public;
                CheckNoticeAndDev::new(
                    &self.natspec,
                    rules.notice,
                    rules.dev,
                    options.notice_or_dev,
                    &self.span,
                ).check_into(&mut diags);
                let rets = vec![Identifier { name: None, span: copy_range(&self.span) }];
                assert(rets@ =~= seq![Identifier { name: None, span: self.span }]);
                CheckReturns::new(
                    &self.natspec,
                    rules.returns,
                    rets.as_slice(),
                    copy_range(&self.span),
                    true,
                ).check_into(&mut diags);
            },
            Visibility::Private => {
                let rules = options.variables.private;
                CheckNoticeAndDev::new(
                    &self.natspec,
                    rules.notice,
                    rules.dev,
                    options.notice_or_dev,
                    &self.span,
                ).check_into(&mut diags);
            },
            _ => {
                let rules = options.variables.internal;
                CheckNoticeAndDev::new(
                    &self.natspec,
                    rules.notice,
                    rules.dev,
                    options.notice_or_dev,
                    &self.span,
                ).check_into(&mut diags);
            },
        }
        assert(diags_view(diags@) =~= Seq::<DiagView>::empty() + diags_view(diags@));
        diags
    }
}

impl Validate for VariableDeclaration {
    fn validate(&self, options: &ValidationOptions) -> (out: ItemDiagnostics)
        ensures
            out.parent == self.parent,
            out.item_type == variable_item_type(self.attributes.visibility),
            out.name@ == self.name@,
            out.span == self.span,
            self.attributes.visibility != Visibility::External ==> diags_view(out.diags@)
                == self.spec_diags(*options),
    {
        let diags = if natspec_has_inheritdoc(&self.natspec) {
            let d = Vec::new();
            assert(diags_view(d@) =~= Seq::<DiagView>::empty());
            d
        } else if options.inheritdoc && self.requires_inheritdoc() {
            inheritdoc_missing_diags(&self.span)
        } else if self.attributes.visibility == Visibility::External {
            Vec::new()
        } else {
            self.check_rules(options)
        };
        let item_type = match self.attributes.visibility {
            Visibility::Private => ItemType::PrivateVariable,
            Visibility::Public => ItemType::PublicVariable,
            _ => ItemType::InternalVariable,
        };
        ItemDiagnostics {
            parent: clone_parent(&self.parent),
            item_type,
            name: self.name.clone(),
            span: copy_range(&self.span),
            diags,
        }
    }
}

/// A source item's definition
#[derive(Debug)]
pub enum Definition {
    Contract(ContractDefinition),
    Interface(InterfaceDefinition),
    Library(LibraryDefinition),
    Constructor(ConstructorDefinition),
    Enumeration(EnumDefinition),
    Error(ErrorDefinition),
    Event(EventDefinition),
    Function(FunctionDefinition),
    Modifier(ModifierDefinition),
    Struct(StructDefinition),
    Variable(VariableDeclaration),
    NatspecParsingError(Error),
}

/// The empty text range at the start of the source
pub open spec fn empty_range() -> TextRange {
    core::ops::Range {
        start: TextIndex { utf8: 0, utf16: 0, line: 0, column: 0 },
        end: TextIndex { utf8: 0, utf16: 0, line: 0, column: 0 },
    }
}

impl Definition {
    /// A definition that can be validated: state variables are never external
    pub open spec fn well_formed(&self) -> bool {
        match self {
            Definition::Variable(v) => v.attributes.visibility != Visibility::External,
            _ => true,
        }
    }

    /// The diagnostics of the definition under the given options
    pub open spec fn spec_item(&self, options: ValidationOptions) -> ItemDiagView {
        match self {
            Definition::Contract(d) => ItemDiagView {
                parent: None,
                item_type: ItemType::Contract,
                name: d.name@,
                span: d.span,
                diags: contract_like_diags(
                    natspec_items(d.natspec),
                    options.contracts,
                    options.notice_or_dev,
                    d.span,
                ),
            },
            Definition::Interface(d) => ItemDiagView {
                parent: None,
                item_type: ItemType::Interface,
                name: d.name@,
                span: d.span,
                diags: contract_like_diags(
                    natspec_items(d.natspec),
                    options.interfaces,
                    options.notice_or_dev,
                    d.span,
                ),
            },
            Definition::Library(d) => ItemDiagView {
                parent: None,
                item_type: ItemType::Library,
                name: d.name@,
                span: d.span,
                diags: contract_like_diags(
                    natspec_items(d.natspec),
                    options.libraries,
                    options.notice_or_dev,
                    d.span,
                ),
            },
            Definition::Constructor(d) => ItemDiagView {
                parent: d.parent,
                item_type: ItemType::Constructor,
                name: "constructor"@,
                span: d.span,
                diags: with_params_diags(
                    natspec_items(d.natspec),
                    options.constructors,
                    options.notice_or_dev,
                    d.params@,
                    d.span,
                ),
            },
            Definition::Enumeration(d) => ItemDiagView {
                parent: d.parent,
                item_type: ItemType::Enum,
                name: d.name@,
                span: d.span,
                diags: with_params_diags(
                    natspec_items(d.natspec),
                    options.enums,
                    options.notice_or_dev,
                    d.members@,
                    d.span,
                ),
            },
            Definition::Error(d) => ItemDiagView {
                parent: d.parent,
                item_type: ItemType::Error,
                name: d.name@,
                span: d.span,
                diags: with_params_diags(
                    natspec_items(d.natspec),
                    options.errors,
                    options.notice_or_dev,
                    d.params@,
                    d.span,
                ),
            },
            Definition::Event(d) => ItemDiagView {
                parent: d.parent,
                item_type: ItemType::Event,
                name: d.name@,
                span: d.span,
                diags: with_params_diags(
                    natspec_items(d.natspec),
                    options.events,
                    options.notice_or_dev,
                    d.params@,
                    d.span,
                ),
            },
            Definition::Function(d) => ItemDiagView {
                parent: d.parent,
                item_type: function_item_type(d.attributes.visibility),
                name: d.name@,
                span: d.span,
                diags: d.spec_diags(options),
            },
            Definition::Modifier(d) => ItemDiagView {
                parent: d.parent,
                item_type: ItemType::Modifier,
                name: d.name@,
                span: d.span,
                diags: d.spec_diags(options),
            },
            Definition::Struct(d) => ItemDiagView {
                parent: d.parent,
                item_type: ItemType::Struct,
                name: d.name@,
                span: d.span,
                diags: with_params_diags(
                    natspec_items(d.natspec),
                    options.structs,
                    options.notice_or_dev,
                    d.members@,
                    d.span,
                ),
            },
            Definition::Variable(d) => ItemDiagView {
                parent: d.parent,
                item_type: variable_item_type(d.attributes.visibility),
                name: d.name@,
                span: d.span,
                diags: d.spec_diags(options),
            },
            Definition::NatspecParsingError(e) => match e {
                Error::NatspecParsingError { parent, span, message } => ItemDiagView {
                    parent: *parent,
                    item_type: ItemType::ParsingError,
                    name: Seq::empty(),
                    span: *span,
                    diags: seq![diag(*span, message@)],
                },
                _ => ItemDiagView {
                    parent: None,
                    item_type: ItemType::ParsingError,
                    name: Seq::empty(),
                    span: empty_range(),
                    diags: seq![diag(empty_range(), error_message(*e))],
                },
            },
        }
    }

    /// The span of the definition, if any (errors other than `NatSpec` parsing errors have none)
    pub open spec fn spec_span(&self) -> Option<TextRange> {
        match self {
            Definition::Contract(d) => Some(d.span),
            Definition::Interface(d) => Some(d.span),
            Definition::Library(d) => Some(d.span),
            Definition::Constructor(d) => Some(d.span),
            Definition::Enumeration(d) => Some(d.span),
            Definition::Error(d) => Some(d.span),
            Definition::Event(d) => Some(d.span),
            Definition::Function(d) => Some(d.span),
            Definition::Modifier(d) => Some(d.span),
            Definition::Struct(d) => Some(d.span),
            Definition::Variable(d) => Some(d.span),
            Definition::NatspecParsingError(Error::NatspecParsingError { span, .. }) => Some(*span),
            Definition::NatspecParsingError(_) => None,
        }
    }

    /// Retrieve the span of a definition
    pub fn span(&self) -> (r: Option<TextRange>)
        ensures
            r == self.spec_span(),
    {
        match self {
            Definition::Contract(d) => Some(copy_range(&d.span)),
            Definition::Interface(d) => Some(copy_range(&d.span)),
            Definition::Library(d) => Some(copy_range(&d.span)),
            Definition::Constructor(d) => Some(copy_range(&d.span)),
            Definition::Enumeration(d) => Some(copy_range(&d.span)),
            Definition::Error(d) => Some(copy_range(&d.span)),
            Definition::Event(d) => Some(copy_range(&d.span)),
            Definition::Function(d) => Some(copy_range(&d.span)),
            Definition::Modifier(d) => Some(copy_range(&d.span)),
            Definition::Struct(d) => Some(copy_range(&d.span)),
            Definition::Variable(d) => Some(copy_range(&d.span)),
            Definition::NatspecParsingError(Error::NatspecParsingError { span, .. }) => Some(
                copy_range(span),
            ),
            Definition::NatspecParsingError(_) => None,
        }
    }

    /// Validate a definition and generate [`Diagnostic`]s for errors
    ///
    /// A `NatSpec` parsing error gives a single diagnostic with the error's message.
    pub fn validate(&self, options: &ValidationOptions) -> (out: ItemDiagnostics)
        requires
            self.well_formed(),
        ensures
            out@ == self.spec_item(*options),
    {
        match self {
            Definition::NatspecParsingError(error) => {
                let (parent, span, message) = match error {
                    Error::NatspecParsingError { parent, span, message } => (
                        clone_parent(parent),
                        copy_range(span),
                        message.clone(),
                    ),
                    _ => (None, core::ops::Range { start: TextIndex::zero(), end: TextIndex::zero() }, error.to_string()),
                };
                let mut diags = Vec::new();
                push_diag(&mut diags, Diagnostic { span: copy_range(&span), message });
                let out = ItemDiagnostics {
                    parent,
                    item_type: ItemType::ParsingError,
                    name: String::new(),
                    span,
                    diags,
                };
                assert(out@.diags =~= self.spec_item(*options).diags);
                assert(out@.name =~= self.spec_item(*options).name);
                out
            },
            Definition::Contract(def) => def.validate(options),
            Definition::Interface(def) => def.validate(options),
            Definition::Library(def) => def.validate(options),
            Definition::Constructor(def) => def.validate(options),
            Definition::Enumeration(def) => def.validate(options),
            Definition::Error(def) => def.validate(options),
            Definition::Event(def) => def.validate(options),
            Definition::Function(def) => def.validate(options),
            Definition::Modifier(def) => def.validate(options),
            Definition::Struct(def) => def.validate(options),
            Definition::Variable(def) => def.validate(options),
        }
    }
}

impl Definition {
    /// The inner value, if the definition is of that kind
    pub fn as_contract(&self) -> (r: Option<&ContractDefinition>)
        ensures
            match self {
                Definition::Contract(d) => r == Some(d),
                _ => r is None,
            },
    {
        match self {
            Definition::Contract(d) => Some(d),
            _ => None,
        }
    }

    /// The inner value, if the definition is of that kind
    pub fn to_contract(self) -> (r: Option<ContractDefinition>)
        ensures
            match self {
                Definition::Contract(d) => r == Some(d),
                _ => r is None,
            },
    {
        match self {
            Definition::Contract(d) => Some(d),
            _ => None,
        }
    }

    /// The inner value, if the definition is of that kind
    pub fn as_interface(&self) -> (r: Option<&InterfaceDefinition>)
        ensures
            match self {
                Definition::Interface(d) => r == Some(d),
                _ => r is None,
            },
    {
        match self {
            Definition::Interface(d) => Some(d),
            _ => None,
        }
    }

    /// The inner value, if the definition is of that kind
    pub fn to_interface(self) -> (r: Option<InterfaceDefinition>)
        ensures
            match self {
                Definition::Interface(d) => r == Some(d),
                _ => r is None,
            },
    {
        match self {
            Definition::Interface(d) => Some(d),
            _ => None,
        }
    }

    /// The inner value, if the definition is of that kind
    pub fn as_library(&self) -> (r: Option<&LibraryDefinition>)
        ensures
            match self {
                Definition::Library(d) => r == Some(d),
                _ => r is None,
            },
    {
        match self {
            Definition::Library(d) => Some(d),
            _ => None,
        }
    }

    /// The inner value, if the definition is of that kind
    pub fn to_library(self) -> (r: Option<LibraryDefinition>)
        ensures
            match self {
                Definition::Library(d) => r == Some(d),
                _ => r is None,
            },
    {
        match self {
            Definition::Library(d) => Some(d),
            _ => None,
        }
    }

    /// The inner value, if the definition is of that kind
    pub fn as_constructor(&self) -> (r: Option<&ConstructorDefinition>)
        ensures
            match self {
                Definition::Constructor(d) => r == Some(d),
                _ => r is None,
            },
    {
        match self {
            Definition::Constructor(d) => Some(d),
            _ => None,
        }
    }

    /// The inner value, if the definition is of that kind
    pub fn to_constructor(self) -> (r: Option<ConstructorDefinition>)
        ensures
            match self {
                Definition::Constructor(d) => r == Some(d),
                _ => r is None,
            },
    {
        match self {
            Definition::Constructor(d) => Some(d),
            _ => None,
        }
    }

    /// The inner value, if the definition is of that kind
    pub fn as_enum(&self) -> (r: Option<&EnumDefinition>)
        ensures
            match self {
                Definition::Enumeration(d) => r == Some(d),
                _ => r is None,
            },
    {
        match self {
            Definition::Enumeration(d) => Some(d),
            _ => None,
        }
    }

    /// The inner value, if the definition is of that kind
    pub fn to_enum(self) -> (r: Option<EnumDefinition>)
        ensures
            match self {
                Definition::Enumeration(d) => r == Some(d),
                _ => r is None,
            },
    {
        match self {
            Definition::Enumeration(d) => Some(d),
            _ => None,
        }
    }

    /// The inner value, if the definition is of that kind
    pub fn as_error(&self) -> (r: Option<&ErrorDefinition>)
        ensures
            match self {
                Definition::Error(d) => r == Some(d),
                _ => r is None,
            },
    {
        match self {
            Definition::Error(d) => Some(d),
            _ => None,
        }
    }

    /// The inner value, if the definition is of that kind
    pub fn to_error(self) -> (r: Option<ErrorDefinition>)
        ensures
            match self {
                Definition::Error(d) => r == Some(d),
                _ => r is None,
            },
    {
        match self {
            Definition::Error(d) => Some(d),
            _ => None,
        }
    }

    /// The inner value, if the definition is of that kind
    pub fn as_event(&self) -> (r: Option<&EventDefinition>)
        ensures
            match self {
                Definition::Event(d) => r == Some(d),
                _ => r is None,
            },
    {
        match self {
            Definition::Event(d) => Some(d),
            _ => None,
        }
    }

    /// The inner value, if the definition is of that kind
    pub fn to_event(self) -> (r: Option<EventDefinition>)
        ensures
            match self {
                Definition::Event(d) => r == Some(d),
                _ => r is None,
            },
    {
        match self {
            Definition::Event(d) => Some(d),
            _ => None,
        }
    }

    /// The inner value, if the definition is of that kind
    pub fn as_function(&self) -> (r: Option<&FunctionDefinition>)
        ensures
            match self {
                Definition::Function(d) => r == Some(d),
                _ => r is None,
            },
    {
        match self {
            Definition::Function(d) => Some(d),
            _ => None,
        }
    }

    /// The inner value, if the definition is of that kind
    pub fn to_function(self) -> (r: Option<FunctionDefinition>)
        ensures
            match self {
                Definition::Function(d) => r == Some(d),
                _ => r is None,
            },
    {
        match self {
            Definition::Function(d) => Some(d),
            _ => None,
        }
    }

    /// The inner value, if the definition is of that kind
    pub fn as_modifier(&self) -> (r: Option<&ModifierDefinition>)
        ensures
            match self {
                Definition::Modifier(d) => r == Some(d),
                _ => r is None,
            },
    {
        match self {
            Definition::Modifier(d) => Some(d),
            _ => None,
        }
    }

    /// The inner value, if the definition is of that kind
    pub fn to_modifier(self) -> (r: Option<ModifierDefinition>)
        ensures
            match self {
                Definition::Modifier(d) => r == Some(d),
                _ => r is None,
            },
    {
        match self {
            Definition::Modifier(d) => Some(d),
            _ => None,
        }
    }

    /// The inner value, if the definition is of that kind
    pub fn as_struct(&self) -> (r: Option<&StructDefinition>)
        ensures
            match self {
                Definition::Struct(d) => r == Some(d),
                _ => r is None,
            },
    {
        match self {
            Definition::Struct(d) => Some(d),
            _ => None,
        }
    }

    /// The inner value, if the definition is of that kind
    pub fn to_struct(self) -> (r: Option<StructDefinition>)
        ensures
            match self {
                Definition::Struct(d) => r == Some(d),
                _ => r is None,
            },
    {
        match self {
            Definition::Struct(d) => Some(d),
            _ => None,
        }
    }

    /// The inner value, if the definition is of that kind
    pub fn as_variable(&self) -> (r: Option<&VariableDeclaration>)
        ensures
            match self {
                Definition::Variable(d) => r == Some(d),
                _ => r is None,
            },
    {
        match self {
            Definition::Variable(d) => Some(d),
            _ => None,
        }
    }

    /// The inner value, if the definition is of that kind
    pub fn to_variable(self) -> (r: Option<VariableDeclaration>)
        ensures
            match self {
                Definition::Variable(d) => r == Some(d),
                _ => r is None,
            },
    {
        match self {
            Definition::Variable(d) => Some(d),
            _ => None,
        }
    }

    /// The inner value, if the definition is of that kind
    pub fn as_natspec_parsing_error(&self) -> (r: Option<&Error>)
        ensures
            match self {
                Definition::NatspecParsingError(d) => r == Some(d),
                _ => r is None,
            },
    {
        match self {
            Definition::NatspecParsingError(d) => Some(d),
            _ => None,
        }
    }

    /// The inner value, if the definition is of that kind
    pub fn to_natspec_parsing_error(self) -> (r: Option<Error>)
        ensures
            match self {
                Definition::NatspecParsingError(d) => r == Some(d),
                _ => r is None,
            },
    {
        match self {
            Definition::NatspecParsingError(d) => Some(d),
            _ => None,
        }
    }
}

/// Source-related information about a [`Definition`]
pub trait SourceItem {
    /// The item can be described: a state variable is never external
    spec fn is_describable(&self) -> bool;

    /// The type of the source item
    fn item_type(&self) -> ItemType
        requires
            self.is_describable(),
    ;

    /// Retrieve the parent contract, interface, or library's name
    fn parent(&self) -> Option<Parent>;

    /// Retrieve the name of the source item
    fn name(&self) -> String;

    /// Retrieve the span of the source item
    fn span(&self) -> TextRange;
}

impl SourceItem for ContractDefinition {
    open spec fn is_describable(&self) -> bool {
        true
    }

    fn item_type(&self) -> (r: ItemType)
        ensures
            r == ItemType::Contract,
    {
        ItemType::Contract
    }

    fn parent(&self) -> (r: Option<Parent>)
        ensures
            r is None,
    {
        None
    }

    fn name(&self) -> (r: String)
        ensures
            r@ == self.name@,
    {
        self.name.clone()
    }

    fn span(&self) -> (r: TextRange)
        ensures
            r == self.span,
    {
        copy_range(&self.span)
    }
}

impl SourceItem for InterfaceDefinition {
    open spec fn is_describable(&self) -> bool {
        true
    }

    fn item_type(&self) -> (r: ItemType)
        ensures
            r == ItemType::Interface,
    {
        ItemType::Interface
    }

    fn parent(&self) -> (r: Option<Parent>)
        ensures
            r is None,
    {
        None
    }

    fn name(&self) -> (r: String)
        ensures
            r@ == self.name@,
    {
        self.name.clone()
    }

    fn span(&self) -> (r: TextRange)
        ensures
            r == self.span,
    {
        copy_range(&self.span)
    }
}

impl SourceItem for LibraryDefinition {
    open spec fn is_describable(&self) -> bool {
        true
    }

    fn item_type(&self) -> (r: ItemType)
        ensures
            r == ItemType::Library,
    {
        ItemType::Library
    }

    fn parent(&self) -> (r: Option<Parent>)
        ensures
            r is None,
    {
        None
    }

    fn name(&self) -> (r: String)
        ensures
            r@ == self.name@,
    {
        self.name.clone()
    }

    fn span(&self) -> (r: TextRange)
        ensures
            r == self.span,
    {
        copy_range(&self.span)
    }
}

impl SourceItem for ConstructorDefinition {
    open spec fn is_describable(&self) -> bool {
        true
    }

    fn item_type(&self) -> (r: ItemType)
        ensures
            r == ItemType::Constructor,
    {
        ItemType::Constructor
    }

    fn parent(&self) -> (r: Option<Parent>)
        ensures
            r == self.parent,
    {
        clone_parent(&self.parent)
    }

    fn name(&self) -> (r: String)
        ensures
            r@ == "constructor"@,
    {
        "constructor".to_owned()
    }

    fn span(&self) -> (r: TextRange)
        ensures
            r == self.span,
    {
        copy_range(&self.span)
    }
}

impl SourceItem for EnumDefinition {
    open spec fn is_describable(&self) -> bool {
        true
    }

    fn item_type(&self) -> (r: ItemType)
        ensures
            r == ItemType::Enum,
    {
        ItemType::Enum
    }

    fn parent(&self) -> (r: Option<Parent>)
        ensures
            r == self.parent,
    {
        clone_parent(&self.parent)
    }

    fn name(&self) -> (r: String)
        ensures
            r@ == self.name@,
    {
        self.name.clone()
    }

    fn span(&self) -> (r: TextRange)
        ensures
            r == self.span,
    {
        copy_range(&self.span)
    }
}

impl SourceItem for ErrorDefinition {
    open spec fn is_describable(&self) -> bool {
        true
    }

    fn item_type(&self) -> (r: ItemType)
        ensures
            r == ItemType::Error,
    {
        ItemType::Error
    }

    fn parent(&self) -> (r: Option<Parent>)
        ensures
            r == self.parent,
    {
        clone_parent(&self.parent)
    }

    fn name(&self) -> (r: String)
        ensures
            r@ == self.name@,
    {
        self.name.clone()
    }

    fn span(&self) -> (r: TextRange)
        ensures
            r == self.span,
    {
        copy_range(&self.span)
    }
}

impl SourceItem for EventDefinition {
    open spec fn is_describable(&self) -> bool {
        true
    }

    fn item_type(&self) -> (r: ItemType)
        ensures
            r == ItemType::Event,
    {
        ItemType::Event
    }

    fn parent(&self) -> (r: Option<Parent>)
        ensures
            r == self.parent,
    {
        clone_parent(&self.parent)
    }

    fn name(&self) -> (r: String)
        ensures
            r@ == self.name@,
    {
        self.name.clone()
    }

    fn span(&self) -> (r: TextRange)
        ensures
            r == self.span,
    {
        copy_range(&self.span)
    }
}

impl SourceItem for ModifierDefinition {
    open spec fn is_describable(&self) -> bool {
        true
    }

    fn item_type(&self) -> (r: ItemType)
        ensures
            r == ItemType::Modifier,
    {
        ItemType::Modifier
    }

    fn parent(&self) -> (r: Option<Parent>)
        ensures
            r == self.parent,
    {
        clone_parent(&self.parent)
    }

    fn name(&self) -> (r: String)
        ensures
            r@ == self.name@,
    {
        self.name.clone()
    }

    fn span(&self) -> (r: TextRange)
        ensures
            r == self.span,
    {
        copy_range(&self.span)
    }
}

impl SourceItem for StructDefinition {
    open spec fn is_describable(&self) -> bool {
        true
    }

    fn item_type(&self) -> (r: ItemType)
        ensures
            r == ItemType::Struct,
    {
        ItemType::Struct
    }

    fn parent(&self) -> (r: Option<Parent>)
        ensures
            r == self.parent,
    {
        clone_parent(&self.parent)
    }

    fn name(&self) -> (r: String)
        ensures
            r@ == self.name@,
    {
        self.name.clone()
    }

    fn span(&self) -> (r: TextRange)
        ensures
            r == self.span,
    {
        copy_range(&self.span)
    }
}

impl SourceItem for FunctionDefinition {
    open spec fn is_describable(&self) -> bool {
        true
    }

    fn item_type(&self) -> (r: ItemType)
        ensures
            r == function_item_type(self.attributes.visibility),
    {
        match self.attributes.visibility {
            Visibility::External => ItemType::ExternalFunction,
            Visibility::Internal => ItemType::InternalFunction,
            Visibility::Private => ItemType::PrivateFunction,
            Visibility::Public => ItemType::PublicFunction,
        }
    }

    fn parent(&self) -> (r: Option<Parent>)
        ensures
            r == self.parent,
    {
        clone_parent(&self.parent)
    }

    fn name(&self) -> (r: String)
        ensures
            r@ == self.name@,
    {
        self.name.clone()
    }

    fn span(&self) -> (r: TextRange)
        ensures
            r == self.span,
    {
        copy_range(&self.span)
    }
}

impl SourceItem for VariableDeclaration {
    open spec fn is_describable(&self) -> bool {
        self.attributes.visibility != Visibility::External
    }

    fn item_type(&self) -> (r: ItemType)
        ensures
            r == variable_item_type(self.attributes.visibility),
    {
        match self.attributes.visibility {
            Visibility::Private => ItemType::PrivateVariable,
            Visibility::Public => ItemType::PublicVariable,
            _ => ItemType::InternalVariable,
        }
    }

    fn parent(&self) -> (r: Option<Parent>)
        ensures
            r == self.parent,
    {
        clone_parent(&self.parent)
    }

    fn name(&self) -> (r: String)
        ensures
            r@ == self.name@,
    {
        self.name.clone()
    }

    fn span(&self) -> (r: TextRange)
        ensures
            r == self.span,
    {
        copy_range(&self.span)
    }
}

/// Two definitions come from the same source node: same kind, and spans that start at the same index
///
/// Errors other than `NatSpec` parsing errors are compared by their message.
pub open spec fn same_node(a: Definition, b: Definition) -> bool {
    match (a, b) {
        (Definition::Contract(x), Definition::Contract(y)) => x.span.start == y.span.start,
        (Definition::Interface(x), Definition::Interface(y)) => x.span.start == y.span.start,
        (Definition::Library(x), Definition::Library(y)) => x.span.start == y.span.start,
        (Definition::Constructor(x), Definition::Constructor(y)) => x.span.start == y.span.start,
        (Definition::Enumeration(x), Definition::Enumeration(y)) => x.span.start == y.span.start,
        (Definition::Error(x), Definition::Error(y)) => x.span.start == y.span.start,
        (Definition::Event(x), Definition::Event(y)) => x.span.start == y.span.start,
        (Definition::Function(x), Definition::Function(y)) => x.span.start == y.span.start,
        (Definition::Modifier(x), Definition::Modifier(y)) => x.span.start == y.span.start,
        (Definition::Struct(x), Definition::Struct(y)) => x.span.start == y.span.start,
        (Definition::Variable(x), Definition::Variable(y)) => x.span.start == y.span.start,
        (Definition::NatspecParsingError(x), Definition::NatspecParsingError(y)) => match (x, y) {
            (
                Error::NatspecParsingError { span: sx, .. },
                Error::NatspecParsingError { span: sy, .. },
            ) => sx.start == sy.start,
            _ => error_message(x) == error_message(y),
        },
        _ => false,
    }
}

impl PartialEq for Definition {
    /// Compare two definitions based on their underlying node
    ///
    /// If two instances of the same node generate two definitions, this can be used to deduplicate them.
    fn eq(&self, other: &Self) -> (r: bool) {
        match (self, other) {
            (Definition::Contract(a), Definition::Contract(b)) => a.span.start == b.span.start,
            (Definition::Interface(a), Definition::Interface(b)) => a.span.start == b.span.start,
            (Definition::Library(a), Definition::Library(b)) => a.span.start == b.span.start,
            (Definition::Constructor(a), Definition::Constructor(b)) => a.span.start == b.span.start,
            (Definition::Enumeration(a), Definition::Enumeration(b)) => a.span.start == b.span.start,
            (Definition::Error(a), Definition::Error(b)) => a.span.start == b.span.start,
            (Definition::Event(a), Definition::Event(b)) => a.span.start == b.span.start,
            (Definition::Function(a), Definition::Function(b)) => a.span.start == b.span.start,
            (Definition::Modifier(a), Definition::Modifier(b)) => a.span.start == b.span.start,
            (Definition::Struct(a), Definition::Struct(b)) => a.span.start == b.span.start,
            (Definition::Variable(a), Definition::Variable(b)) => a.span.start == b.span.start,
            (Definition::NatspecParsingError(a), Definition::NatspecParsingError(b)) => match (a, b) {
                (
                    Error::NatspecParsingError { span: span_a, .. },
                    Error::NatspecParsingError { span: span_b, .. },
                ) => span_a.start == span_b.start,
                _ => {
                    let ma = a.to_string();
                    let mb = b.to_string();
                    ma == mb
                },
            },
            _ => false,
        }
    }
}

impl vstd::std_specs::cmp::PartialEqSpecImpl for Definition {
    open spec fn obeys_eq_spec() -> bool {
        true
    }

    open spec fn eq_spec(&self, other: &Definition) -> bool {
        same_node(*self, *other)
    }
}

} // verus!
