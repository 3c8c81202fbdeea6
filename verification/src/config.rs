//! Validation rules: which `NatSpec` tags each kind of source item must, may or must not carry.
use vstd::prelude::*;

verus! {

/// The requirement for a specific tag in the `NatSpec` comment
#[derive(Debug, Clone, Copy, PartialEq, Eq, Structural)]
pub enum Req {
    /// The tag is ignored, can be present or not
    Ignored,
    /// The tag is required, must be present
    Required,
    /// The tag is forbidden, must not be present
    Forbidden,
}

impl Default for Req {
    fn default() -> (r: Self)
        ensures
            r == Req::Ignored,
    {
        Req::Ignored
    }
}

impl Req {
    /// Check if the tag is required or ignored (not forbidden)
    pub fn is_required_or_ignored(&self) -> (b: bool)
        ensures
            b == (*self != Req::Forbidden),
    {
        match self {
            Req::Required | Req::Ignored => true,
            Req::Forbidden => false,
        }
    }

    /// Check if the tag is forbidden or ignored (not required)
    pub fn is_forbidden_or_ignored(&self) -> (b: bool)
        ensures
            b == (*self != Req::Required),
    {
        match self {
            Req::Forbidden | Req::Ignored => true,
            Req::Required => false,
        }
    }

    /// Whether the tag is ignored
    pub fn is_ignored(&self) -> (b: bool)
        ensures
            b == (*self == Req::Ignored),
    {
        matches!(self, Req::Ignored)
    }

    /// Whether the tag is required
    pub fn is_required(&self) -> (b: bool)
        ensures
            b == (*self == Req::Required),
    {
        matches!(self, Req::Required)
    }

    /// Whether the tag is forbidden
    pub fn is_forbidden(&self) -> (b: bool)
        ensures
            b == (*self == Req::Forbidden),
    {
        matches!(self, Req::Forbidden)
    }
}

/// Validation rules for contracts, interfaces and libraries
#[derive(Debug, Clone, Copy, PartialEq, Eq, Structural)]
pub struct ContractRules {
    /// Requirement for the `@title` tag
    pub title: Req,
    /// Requirement for the `@author` tag
    pub author: Req,
    /// Requirement for the `@notice` tag
    pub notice: Req,
    /// Requirement for the `@dev` tag
    pub dev: Req,
}

/// The default rules for contracts, interfaces and libraries: nothing is enforced
pub open spec fn spec_default_contract_rules() -> ContractRules {
    ContractRules { title: Req::Ignored, author: Req::Ignored, notice: Req::Ignored, dev: Req::Ignored }
}

impl Default for ContractRules {
    fn default() -> (r: Self)
        ensures
            r == spec_default_contract_rules(),
    {
        ContractRules {
            title: Req::Ignored,
            author: Req::Ignored,
            notice: Req::Ignored,
            dev: Req::Ignored,
        }
    }
}

/// Validation rules for a function `NatSpec` comment
#[derive(Debug, Clone, Copy, PartialEq, Eq, Structural)]
pub struct FunctionRules {
    /// Requirement for the `@notice` tag
    pub notice: Req,
    /// Requirement for the `@dev` tag
    pub dev: Req,
    /// Requirement for the `@param` tags
    pub param: Req,
    /// Requirement for the `@return` tags
    pub returns: Req,
}

impl Default for FunctionRules {
    fn default() -> (r: Self)
        ensures
            r == (FunctionRules {
                notice: Req::Required,
                dev: Req::Ignored,
                param: Req::Required,
                returns: Req::Required,
            }),
    {
        FunctionRules {
            notice: Req::Required,
            dev: Req::Ignored,
            param: Req::Required,
            returns: Req::Required,
        }
    }
}

/// Validation rules for each function visibility (private, internal, public, external)
#[derive(Debug, Clone, Copy, PartialEq, Eq, Structural)]
pub struct FunctionConfig {
    /// Rules for private functions
    pub private: FunctionRules,
    /// Rules for internal functions
    pub internal: FunctionRules,
    /// Rules for public functions
    pub public: FunctionRules,
    /// Rules for external functions
    pub external: FunctionRules,
}

impl Default for FunctionConfig {
    fn default() -> (r: Self)
        ensures
            r.private == spec_default_function_rules(),
            r.internal == spec_default_function_rules(),
            r.public == spec_default_function_rules(),
            r.external == spec_default_function_rules(),
    {
        FunctionConfig {
            private: FunctionRules::default(),
            internal: FunctionRules::default(),
            public: FunctionRules::default(),
            external: FunctionRules::default(),
        }
    }
}

/// The default rules for functions: `@notice`, `@param` and `@return` are required
pub open spec fn spec_default_function_rules() -> FunctionRules {
    FunctionRules {
        notice: Req::Required,
        dev: Req::Ignored,
        param: Req::Required,
        returns: Req::Required,
    }
}

/// Validation rules for items which have return values but no params (public state variables)
#[derive(Debug, Clone, Copy, PartialEq, Eq, Structural)]
pub struct WithReturnsRules {
    /// Requirement for the `@notice` tag
    pub notice: Req,
    /// Requirement for the `@dev` tag
    pub dev: Req,
    /// Requirement for the `@return` tags
    pub returns: Req,
}

impl Default for WithReturnsRules {
    fn default() -> (r: Self)
        ensures
            r == (WithReturnsRules { notice: Req::Required, dev: Req::Ignored, returns: Req::Required }),
    {
        WithReturnsRules { notice: Req::Required, dev: Req::Ignored, returns: Req::Required }
    }
}

/// Validation rules for items which have no return values and no params (private and internal
/// state variables)
#[derive(Debug, Clone, Copy, PartialEq, Eq, Structural)]
pub struct NoticeDevRules {
    /// Requirement for the `@notice` tag
    pub notice: Req,
    /// Requirement for the `@dev` tag
    pub dev: Req,
}

impl Default for NoticeDevRules {
    fn default() -> (r: Self)
        ensures
            r == (NoticeDevRules { notice: Req::Required, dev: Req::Ignored }),
    {
        NoticeDevRules { notice: Req::Required, dev: Req::Ignored }
    }
}

/// Validation rules for each state variable visibility (private, internal, public)
#[derive(Debug, Clone, Copy, PartialEq, Eq, Structural)]
pub struct VariableConfig {
    /// Rules for private state variables
    pub private: NoticeDevRules,
    /// Rules for internal state variables
    pub internal: NoticeDevRules,
    /// Rules for public state variables
    pub public: WithReturnsRules,
}

impl Default for VariableConfig {
    fn default() -> (r: Self)
        ensures
            r.private == (NoticeDevRules { notice: Req::Required, dev: Req::Ignored }),
            r.internal == (NoticeDevRules { notice: Req::Required, dev: Req::Ignored }),
            r.public == (WithReturnsRules {
                notice: Req::Required,
                dev: Req::Ignored,
                returns: Req::Required,
            }),
    {
        VariableConfig {
            private: NoticeDevRules::default(),
            internal: NoticeDevRules::default(),
            public: WithReturnsRules::default(),
        }
    }
}

/// Validation rules for items which have params but no returns (constructor, enum, error, event,
/// modifier, struct)
///
/// The default value does not enforce that `@param` is present, because it's not part of the
/// official spec for enums and structs.
#[derive(Debug, Clone, Copy, PartialEq, Eq, Structural)]
pub struct WithParamsRules {
    /// Requirement for the `@notice` tag
    pub notice: Req,
    /// Requirement for the `@dev` tag
    pub dev: Req,
    /// Requirement for the `@param` tags
    pub param: Req,
}

impl Default for WithParamsRules {
    fn default() -> (r: Self)
        ensures
            r == (WithParamsRules { notice: Req::Required, dev: Req::Ignored, param: Req::Ignored }),
    {
        WithParamsRules { notice: Req::Required, dev: Req::Ignored, param: Req::Ignored }
    }
}

impl WithParamsRules {
    /// A set of rules which enforces params (default for error, event, modifier)
    pub fn required() -> (r: Self)
        ensures
            r == (WithParamsRules { notice: Req::Required, dev: Req::Ignored, param: Req::Required }),
    {
        WithParamsRules { param: Req::Required, ..Default::default() }
    }

    /// The default set of rules for constructors (`@notice` is not enforced, but `@param` is)
    pub fn default_constructor() -> (r: Self)
        ensures
            r == (WithParamsRules { notice: Req::Ignored, dev: Req::Ignored, param: Req::Required }),
    {
        WithParamsRules { notice: Req::Ignored, param: Req::Required, ..Default::default() }
    }
}

/// General config for the tool
#[derive(Debug, Clone, PartialEq, Eq)]
pub struct BaseConfig {
    /// Paths to files and folders to analyze
    pub paths: Vec<String>,
    /// Paths to files and folders to exclude
    pub exclude: Vec<String>,
    /// Enforce that all public and external items have `@inheritdoc`
    pub inheritdoc: bool,
    /// Enforce that internal functions and modifiers which are `override` have `@inheritdoc`
    pub inheritdoc_override: bool,
    /// Do not distinguish between `@notice` and `@dev` when considering "required" validation rules
    pub notice_or_dev: bool,
    /// Skip the detection of the Solidity version and use the latest supported version
    pub skip_version_detection: bool,
}

impl Default for BaseConfig {
    fn default() -> (c: Self)
        ensures
            c.paths@ == Seq::<String>::empty(),
            c.exclude@ == Seq::<String>::empty(),
            c.inheritdoc,
            !c.inheritdoc_override,
            !c.notice_or_dev,
            !c.skip_version_detection,
    {
        BaseConfig {
            paths: Vec::new(),
            exclude: Vec::new(),
            inheritdoc: true,
            inheritdoc_override: false,
            notice_or_dev: false,
            skip_version_detection: false,
        }
    }
}

/// Output config for the tool
#[derive(Debug, Clone, PartialEq, Eq)]
pub struct OutputConfig {
    /// Path to a file to write the output to (instead of stderr)
    pub out: Option<String>,
    /// Output diagnostics in JSON format
    pub json: bool,
    /// Compact output (minified JSON or compact text representation)
    pub compact: bool,
    /// Sort the results by file path
    pub sort: bool,
}

impl Default for OutputConfig {
    fn default() -> (c: Self)
        ensures
            c.out is None,
            !c.json,
            !c.compact,
            !c.sort,
    {
        OutputConfig { out: None, json: false, compact: false, sort: false }
    }
}

/// The parsed and validated config for the tool
#[derive(Debug, Clone, PartialEq, Eq)]
pub struct Config {
    /// General config for the tool
    pub lintspec: BaseConfig,
    /// Output config for the tool
    pub output: OutputConfig,
    /// Validation rules for contracts
    pub contracts: ContractRules,
    /// Validation rules for interfaces
    pub interfaces: ContractRules,
    /// Validation rules for libraries
    pub libraries: ContractRules,
    /// Validation rules for constructors
    pub constructors: WithParamsRules,
    /// Validation rules for enums
    pub enums: WithParamsRules,
    /// Validation rules for errors
    pub errors: WithParamsRules,
    /// Validation rules for events
    pub events: WithParamsRules,
    /// Validation rules for functions
    pub functions: FunctionConfig,
    /// Validation rules for modifiers
    pub modifiers: WithParamsRules,
    /// Validation rules for structs
    pub structs: WithParamsRules,
    /// Validation rules for state variables
    pub variables: VariableConfig,
}

/// The default rules of each kind of source item
pub open spec fn is_default_rules(c: Config) -> bool {
    &&& c.contracts == spec_default_contract_rules()
    &&& c.interfaces == spec_default_contract_rules()
    &&& c.libraries == spec_default_contract_rules()
    &&& c.constructors == (WithParamsRules {
        notice: Req::Ignored,
        dev: Req::Ignored,
        param: Req::Required,
    })
    &&& c.enums == (WithParamsRules { notice: Req::Required, dev: Req::Ignored, param: Req::Ignored })
    &&& c.errors == (WithParamsRules { notice: Req::Required, dev: Req::Ignored, param: Req::Required })
    &&& c.events == (WithParamsRules { notice: Req::Required, dev: Req::Ignored, param: Req::Required })
    &&& c.functions == (FunctionConfig {
        private: spec_default_function_rules(),
        internal: spec_default_function_rules(),
        public: spec_default_function_rules(),
        external: spec_default_function_rules(),
    })
    &&& c.modifiers == (WithParamsRules {
        notice: Req::Required,
        dev: Req::Ignored,
        param: Req::Required,
    })
    &&& c.structs == (WithParamsRules { notice: Req::Required, dev: Req::Ignored, param: Req::Ignored })
    &&& c.variables == (VariableConfig {
        private: NoticeDevRules { notice: Req::Required, dev: Req::Ignored },
        internal: NoticeDevRules { notice: Req::Required, dev: Req::Ignored },
        public: WithReturnsRules { notice: Req::Required, dev: Req::Ignored, returns: Req::Required },
    })
}

/// The default config: no paths, `@inheritdoc` enforced, plain text output, and the default rules
pub open spec fn is_default_config(c: Config) -> bool {
    &&& c.lintspec.paths@ == Seq::<String>::empty()
    &&& c.lintspec.exclude@ == Seq::<String>::empty()
    &&& c.lintspec.inheritdoc
    &&& !c.lintspec.inheritdoc_override
    &&& !c.lintspec.notice_or_dev
    &&& !c.lintspec.skip_version_detection
    &&& c.output.out is None
    &&& !c.output.json
    &&& !c.output.compact
    &&& !c.output.sort
    &&& is_default_rules(c)
}

impl Default for Config {
    fn default() -> (c: Self)
        ensures
            is_default_config(c),
    {
        Config {
            lintspec: BaseConfig::default(),
            output: OutputConfig::default(),
            contracts: ContractRules::default(),
            interfaces: ContractRules::default(),
            libraries: ContractRules::default(),
            constructors: WithParamsRules::default_constructor(),
            enums: WithParamsRules::default(),
            errors: WithParamsRules::required(),
            events: WithParamsRules::required(),
            functions: FunctionConfig::default(),
            modifiers: WithParamsRules::required(),
            structs: WithParamsRules::default(),
            variables: VariableConfig::default(),
        }
    }
}

} // verus!
