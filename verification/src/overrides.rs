//! Rule overrides given on the command line, applied on top of the configuration
use vstd::prelude::*;

use crate::config::{
    Config, ContractRules, FunctionRules, NoticeDevRules, Req, WithParamsRules, WithReturnsRules,
};
use crate::definitions::{ContractType, ItemType};

verus! {

/// The items for which a tag is ignored, required or forbidden, by contract type
pub struct ContractTypeLists {
    pub ignored: Vec<ContractType>,
    pub required: Vec<ContractType>,
    pub forbidden: Vec<ContractType>,
}

/// The items for which a tag is ignored, required or forbidden, by item type
pub struct ItemTypeLists {
    pub ignored: Vec<ItemType>,
    pub required: Vec<ItemType>,
    pub forbidden: Vec<ItemType>,
}

/// The rule resulting from the lists: forbidding takes precedence over requiring, which takes precedence over
/// ignoring; an item in no list keeps its rule
pub open spec fn override_req(old: Req, ignored: bool, required: bool, forbidden: bool) -> Req {
    if forbidden {
        Req::Forbidden
    } else if required {
        Req::Required
    } else if ignored {
        Req::Ignored
    } else {
        old
    }
}

impl ContractTypeLists {
    /// The rule for the contract type `t`
    pub open spec fn spec_apply(&self, old: Req, t: ContractType) -> Req {
        override_req(
            old,
            self.ignored@.contains(t),
            self.required@.contains(t),
            self.forbidden@.contains(t),
        )
    }

    /// The rule for the contract type `t`
    pub fn apply(&self, old: Req, t: ContractType) -> (r: Req)
        ensures
            r == self.spec_apply(old, t),
    {
        if contains_contract_type(&self.forbidden, t) {
            Req::Forbidden
        } else if contains_contract_type(&self.required, t) {
            Req::Required
        } else if contains_contract_type(&self.ignored, t) {
            Req::Ignored
        } else {
            old
        }
    }
}

impl ItemTypeLists {
    /// The rule for the item type `t`
    pub open spec fn spec_apply(&self, old: Req, t: ItemType) -> Req {
        override_req(
            old,
            self.ignored@.contains(t),
            self.required@.contains(t),
            self.forbidden@.contains(t),
        )
    }

    /// The rule for the item type `t`
    pub fn apply(&self, old: Req, t: ItemType) -> (r: Req)
        ensures
            r == self.spec_apply(old, t),
    {
        if contains_item_type(&self.forbidden, t) {
            Req::Forbidden
        } else if contains_item_type(&self.required, t) {
            Req::Required
        } else if contains_item_type(&self.ignored, t) {
            Req::Ignored
        } else {
            old
        }
    }
}

fn contains_contract_type(v: &Vec<ContractType>, t: ContractType) -> (b: bool)
    ensures
        b == v@.contains(t),
{
    let mut i: usize = 0;
    while i < v.len()
        invariant
            i <= v@.len(),
            forall|k: int| 0 <= k < i ==> v@[k] != t,
        decreases v@.len() - i,
    {
        if v[i] == t {
            assert(v@[i as int] == t);
            return true;
        }
        i = i + 1;
    }
    false
}

fn contains_item_type(v: &Vec<ItemType>, t: ItemType) -> (b: bool)
    ensures
        b == v@.contains(t),
{
    let mut i: usize = 0;
    while i < v.len()
        invariant
            i <= v@.len(),
            forall|k: int| 0 <= k < i ==> v@[k] != t,
        decreases v@.len() - i,
    {
        if v[i] == t {
            assert(v@[i as int] == t);
            return true;
        }
        i = i + 1;
    }
    false
}

/// The settings given on the command line, which take precedence over the configuration
pub struct CliOverrides {
    /// Paths to files and folders to analyze, added to the configured ones
    pub paths: Vec<String>,
    /// Paths to files and folders to exclude, added to the configured ones
    pub exclude: Vec<String>,
    /// Path to a file to write the output to
    pub out: Option<String>,
    pub inheritdoc: Option<bool>,
    pub inheritdoc_override: Option<bool>,
    pub notice_or_dev: Option<bool>,
    pub skip_version_detection: Option<bool>,
    pub json: Option<bool>,
    pub compact: Option<bool>,
    pub sort: Option<bool>,
    /// Items for which `@title` is ignored, required or forbidden
    pub title: ContractTypeLists,
    /// Items for which `@author` is ignored, required or forbidden
    pub author: ContractTypeLists,
    /// Items for which `@notice` is ignored, required or forbidden
    pub notice: ItemTypeLists,
    /// Items for which `@dev` is ignored, required or forbidden
    pub dev: ItemTypeLists,
    /// Items for which `@param` is ignored, required or forbidden (only items that have params)
    pub param: ItemTypeLists,
    /// Items for which `@return` is ignored, required or forbidden (only functions and public variables)
    pub returns: ItemTypeLists,
}

/// An optional setting, or the current value
pub open spec fn or_keep<T>(o: Option<T>, old: T) -> T {
    match o {
        Some(v) => v,
        None => old,
    }
}

/// The rules of a contract, interface or library after the overrides
pub open spec fn override_contract(r: ContractRules, ct: ContractType, it: ItemType, o: CliOverrides) -> ContractRules {
    ContractRules {
        title: o.title.spec_apply(r.title, ct),
        author: o.author.spec_apply(r.author, ct),
        notice: o.notice.spec_apply(r.notice, it),
        dev: o.dev.spec_apply(r.dev, it),
    }
}

/// The rules of an item with params after the overrides
pub open spec fn override_with_params(r: WithParamsRules, it: ItemType, o: CliOverrides) -> WithParamsRules {
    WithParamsRules {
        notice: o.notice.spec_apply(r.notice, it),
        dev: o.dev.spec_apply(r.dev, it),
        param: o.param.spec_apply(r.param, it),
    }
}

/// The rules of a function after the overrides
pub open spec fn override_function(r: FunctionRules, it: ItemType, o: CliOverrides) -> FunctionRules {
    FunctionRules {
        notice: o.notice.spec_apply(r.notice, it),
        dev: o.dev.spec_apply(r.dev, it),
        param: o.param.spec_apply(r.param, it),
        returns: o.returns.spec_apply(r.returns, it),
    }
}

/// The rules of a private or internal state variable after the overrides
pub open spec fn override_notice_dev(r: NoticeDevRules, it: ItemType, o: CliOverrides) -> NoticeDevRules {
    NoticeDevRules { notice: o.notice.spec_apply(r.notice, it), dev: o.dev.spec_apply(r.dev, it) }
}

/// The rules of a public state variable after the overrides
pub open spec fn override_with_returns(r: WithReturnsRules, it: ItemType, o: CliOverrides) -> WithReturnsRules {
    WithReturnsRules {
        notice: o.notice.spec_apply(r.notice, it),
        dev: o.dev.spec_apply(r.dev, it),
        returns: o.returns.spec_apply(r.returns, it),
    }
}

fn apply_contract(r: ContractRules, ct: ContractType, it: ItemType, o: &CliOverrides) -> (n: ContractRules)
    ensures
        n == override_contract(r, ct, it, *o),
{
    ContractRules {
        title: o.title.apply(r.title, ct),
        author: o.author.apply(r.author, ct),
        notice: o.notice.apply(r.notice, it),
        dev: o.dev.apply(r.dev, it),
    }
}

fn apply_with_params(r: WithParamsRules, it: ItemType, o: &CliOverrides) -> (n: WithParamsRules)
    ensures
        n == override_with_params(r, it, *o),
{
    WithParamsRules {
        notice: o.notice.apply(r.notice, it),
        dev: o.dev.apply(r.dev, it),
        param: o.param.apply(r.param, it),
    }
}

fn apply_function(r: FunctionRules, it: ItemType, o: &CliOverrides) -> (n: FunctionRules)
    ensures
        n == override_function(r, it, *o),
{
    FunctionRules {
        notice: o.notice.apply(r.notice, it),
        dev: o.dev.apply(r.dev, it),
        param: o.param.apply(r.param, it),
        returns: o.returns.apply(r.returns, it),
    }
}

fn apply_notice_dev(r: NoticeDevRules, it: ItemType, o: &CliOverrides) -> (n: NoticeDevRules)
    ensures
        n == override_notice_dev(r, it, *o),
{
    NoticeDevRules { notice: o.notice.apply(r.notice, it), dev: o.dev.apply(r.dev, it) }
}

fn apply_with_returns(r: WithReturnsRules, it: ItemType, o: &CliOverrides) -> (n: WithReturnsRules)
    ensures
        n == override_with_returns(r, it, *o),
{
    WithReturnsRules {
        notice: o.notice.apply(r.notice, it),
        dev: o.dev.apply(r.dev, it),
        returns: o.returns.apply(r.returns, it),
    }
}

/// The given setting, or the current one
fn keep_or(o: Option<bool>, old: bool) -> (r: bool)
    ensures
        r == or_keep(o, old),
{
    match o {
        Some(v) => v,
        None => old,
    }
}

/// Apply the command line settings on top of the configuration (read from the config file and environment)
///
/// Paths are added to the configured ones; other settings replace the configured ones when given. For each tag,
/// the items listed as forbidden get `Forbidden`, then those listed as required get `Required`, then those
/// listed as ignored get `Ignored`; the rules of other items are kept.
#[verifier::rlimit(30)]
pub fn apply_overrides(config: &mut Config, o: CliOverrides)
    ensures
        final(config).lintspec.paths@ == old(config).lintspec.paths@ + o.paths@,
        final(config).lintspec.exclude@ == old(config).lintspec.exclude@ + o.exclude@,
        final(config).output.out == (match o.out {
            Some(p) => Some(p),
            None => old(config).output.out,
        }),
        final(config).output.json == or_keep(o.json, old(config).output.json),
        final(config).output.compact == or_keep(o.compact, old(config).output.compact),
        final(config).output.sort == or_keep(o.sort, old(config).output.sort),
        final(config).lintspec.skip_version_detection == or_keep(
            o.skip_version_detection,
            old(config).lintspec.skip_version_detection,
        ),
        final(config).lintspec.inheritdoc == or_keep(o.inheritdoc, old(config).lintspec.inheritdoc),
        final(config).lintspec.inheritdoc_override == or_keep(
            o.inheritdoc_override,
            old(config).lintspec.inheritdoc_override,
        ),
        final(config).lintspec.notice_or_dev == or_keep(o.notice_or_dev, old(config).lintspec.notice_or_dev),
        final(config).contracts == override_contract(
            old(config).contracts,
            ContractType::Contract,
            ItemType::Contract,
            o,
        ),
        final(config).interfaces == override_contract(
            old(config).interfaces,
            ContractType::Interface,
            ItemType::Interface,
            o,
        ),
        final(config).libraries == override_contract(
            old(config).libraries,
            ContractType::Library,
            ItemType::Library,
            o,
        ),
        final(config).constructors == override_with_params(old(config).constructors, ItemType::Constructor, o),
        final(config).enums == override_with_params(old(config).enums, ItemType::Enum, o),
        final(config).errors == override_with_params(old(config).errors, ItemType::Error, o),
        final(config).events == override_with_params(old(config).events, ItemType::Event, o),
        final(config).modifiers == override_with_params(old(config).modifiers, ItemType::Modifier, o),
        final(config).structs == override_with_params(old(config).structs, ItemType::Struct, o),
        final(config).functions.private == override_function(
            old(config).functions.private,
            ItemType::PrivateFunction,
            o,
        ),
        final(config).functions.internal == override_function(
            old(config).functions.internal,
            ItemType::InternalFunction,
            o,
        ),
        final(config).functions.public == override_function(
            old(config).functions.public,
            ItemType::PublicFunction,
            o,
        ),
        final(config).functions.external == override_function(
            old(config).functions.external,
            ItemType::ExternalFunction,
            o,
        ),
        final(config).variables.private == override_notice_dev(
            old(config).variables.private,
            ItemType::PrivateVariable,
            o,
        ),
        final(config).variables.internal == override_notice_dev(
            old(config).variables.internal,
            ItemType::InternalVariable,
            o,
        ),
        final(config).variables.public == override_with_returns(
            old(config).variables.public,
            ItemType::PublicVariable,
            o,
        ),
{
    override_rules(config, &o);
    let CliOverrides {
        paths,
        exclude,
        out,
        inheritdoc,
        inheritdoc_override,
        notice_or_dev,
        skip_version_detection,
        json,
        compact,
        sort,
        ..
    } = o;
    let mut paths = paths;
    let mut exclude = exclude;
    config.lintspec.paths.append(&mut paths);
    config.lintspec.exclude.append(&mut exclude);
    if out.is_some() {
        config.output.out = out;
    }
    config.output.json = keep_or(json, config.output.json);
    config.output.compact = keep_or(compact, config.output.compact);
    config.output.sort = keep_or(sort, config.output.sort);
    config.lintspec.skip_version_detection = keep_or(
        skip_version_detection,
        config.lintspec.skip_version_detection,
    );
    config.lintspec.inheritdoc = keep_or(inheritdoc, config.lintspec.inheritdoc);
    config.lintspec.inheritdoc_override = keep_or(inheritdoc_override, config.lintspec.inheritdoc_override);
    config.lintspec.notice_or_dev = keep_or(notice_or_dev, config.lintspec.notice_or_dev);
}

/// Apply the rule overrides of `o`, leaving the other settings alone
#[verifier::rlimit(30)]
fn override_rules(config: &mut Config, o: &CliOverrides)
    ensures
        final(config).lintspec == old(config).lintspec,
        final(config).output == old(config).output,
        final(config).contracts == override_contract(
            old(config).contracts,
            ContractType::Contract,
            ItemType::Contract,
            *o,
        ),
        final(config).interfaces == override_contract(
            old(config).interfaces,
            ContractType::Interface,
            ItemType::Interface,
            *o,
        ),
        final(config).libraries == override_contract(
            old(config).libraries,
            ContractType::Library,
            ItemType::Library,
            *o,
        ),
        final(config).constructors == override_with_params(old(config).constructors, ItemType::Constructor, *o),
        final(config).enums == override_with_params(old(config).enums, ItemType::Enum, *o),
        final(config).errors == override_with_params(old(config).errors, ItemType::Error, *o),
        final(config).events == override_with_params(old(config).events, ItemType::Event, *o),
        final(config).modifiers == override_with_params(old(config).modifiers, ItemType::Modifier, *o),
        final(config).structs == override_with_params(old(config).structs, ItemType::Struct, *o),
        final(config).functions.private == override_function(
            old(config).functions.private,
            ItemType::PrivateFunction,
            *o,
        ),
        final(config).functions.internal == override_function(
            old(config).functions.internal,
            ItemType::InternalFunction,
            *o,
        ),
        final(config).functions.public == override_function(
            old(config).functions.public,
            ItemType::PublicFunction,
            *o,
        ),
        final(config).functions.external == override_function(
            old(config).functions.external,
            ItemType::ExternalFunction,
            *o,
        ),
        final(config).variables.private == override_notice_dev(
            old(config).variables.private,
            ItemType::PrivateVariable,
            *o,
        ),
        final(config).variables.internal == override_notice_dev(
            old(config).variables.internal,
            ItemType::InternalVariable,
            *o,
        ),
        final(config).variables.public == override_with_returns(
            old(config).variables.public,
            ItemType::PublicVariable,
            *o,
        ),
{
    config.contracts = apply_contract(config.contracts, ContractType::Contract, ItemType::Contract, o);
    config.interfaces = apply_contract(config.interfaces, ContractType::Interface, ItemType::Interface, o);
    config.libraries = apply_contract(config.libraries, ContractType::Library, ItemType::Library, o);
    config.constructors = apply_with_params(config.constructors, ItemType::Constructor, o);
    config.enums = apply_with_params(config.enums, ItemType::Enum, o);
    config.errors = apply_with_params(config.errors, ItemType::Error, o);
    config.events = apply_with_params(config.events, ItemType::Event, o);
    config.modifiers = apply_with_params(config.modifiers, ItemType::Modifier, o);
    config.structs = apply_with_params(config.structs, ItemType::Struct, o);
    config.functions.private = apply_function(config.functions.private, ItemType::PrivateFunction, o);
    config.functions.internal = apply_function(config.functions.internal, ItemType::InternalFunction, o);
    config.functions.public = apply_function(config.functions.public, ItemType::PublicFunction, o);
    config.functions.external = apply_function(config.functions.external, ItemType::ExternalFunction, o);
    config.variables.private = apply_notice_dev(config.variables.private, ItemType::PrivateVariable, o);
    config.variables.internal = apply_notice_dev(config.variables.internal, ItemType::InternalVariable, o);
    config.variables.public = apply_with_returns(config.variables.public, ItemType::PublicVariable, o);
}

/// The result of running the tool
#[derive(Debug, Clone, Copy, PartialEq, Eq, Structural)]
pub enum RunResult {
    NoDiagnostics,
    SomeDiagnostics,
}

} // verus!
