//! Check the `NatSpec` documentation of a source item
//!
//! Each checker looks at one aspect of an item's `NatSpec` (its params, its rets, its notice, ...) and emits a
//! [`Diagnostic`] for each problem it finds, according to the configured [`Req`] rule.
use vstd::prelude::*;

use crate::config::{
    is_default_config, spec_default_contract_rules, spec_default_function_rules, Config, ContractRules, FunctionConfig, Req, VariableConfig, WithParamsRules, NoticeDevRules, WithReturnsRules,
};
use crate::definitions::{
    ident_name, item_type_display, parent_name, Definition, Identifier, ItemType, Parent,
};
use crate::parser::{DocumentId, ParsedDocument};
use crate::natspec::{
    count_kind, has_kind, is_author, is_dev, is_notice, is_param, is_param_named, is_return,
    is_return_named, is_title, is_unnamed_return, ItemView, KindView, NatSpec, NatSpecKind,
};
use crate::sort::{lemma_insert_at, stable_sort};
use crate::text::{concat3, decimal, push_str, usize_to_string};
use crate::textindex::{location_text, TextRange};

verus! {

/// A single diagnostic related to `NatSpec`.
#[derive(Debug)]
pub struct Diagnostic {
    /// The span (text range) related to the diagnostic
    ///
    /// If related to the item's `NatSpec` as a whole, this is the same as the item's span.
    /// For a missing param or return `NatSpec`, this is the span of the param or return item.
    pub span: TextRange,
    pub message: String,
}

/// The mathematical value of a [`Diagnostic`]
pub struct DiagView {
    pub span: TextRange,
    pub message: Seq<char>,
}

impl View for Diagnostic {
    type V = DiagView;

    open spec fn view(&self) -> DiagView {
        DiagView { span: self.span, message: self.message@ }
    }
}

/// The values of a sequence of diagnostics
pub open spec fn diags_view(v: Seq<Diagnostic>) -> Seq<DiagView> {
    v.map_values(|d: Diagnostic| d@)
}

/// A diagnostic value
pub open spec fn diag(span: TextRange, message: Seq<char>) -> DiagView {
    DiagView { span, message }
}

/// The items of an optional `NatSpec`
pub open spec fn natspec_items(natspec: Option<NatSpec>) -> Option<Seq<ItemView>> {
    match natspec {
        Some(n) => Some(n@),
        None => None,
    }
}

/// Whether the optional `NatSpec` has an item whose kind satisfies `f`
pub open spec fn opt_has_kind(natspec: Option<Seq<ItemView>>, f: spec_fn(KindView) -> bool) -> bool {
    match natspec {
        Some(items) => has_kind(items, f),
        None => false,
    }
}

/// The diagnostics are ordered by the byte offset where their span starts
pub open spec fn sorted_by_start(s: Seq<DiagView>) -> bool {
    forall|i: int, j: int| 0 <= i < j < s.len() ==> s[i].span.start.utf8 <= s[j].span.start.utf8
}

/// A copy of a text range
pub fn copy_range(r: &TextRange) -> (c: TextRange)
    ensures
        c == *r,
{
    core::ops::Range { start: r.start, end: r.end }
}

impl Clone for Diagnostic {
    fn clone(&self) -> (c: Self)
        ensures
            c@ == self@,
    {
        Diagnostic { span: copy_range(&self.span), message: self.message.clone() }
    }
}

proof fn lemma_diags_push(v: Seq<Diagnostic>, d: Diagnostic)
    ensures
        diags_view(v.push(d)) == diags_view(v).push(d@),
{
    assert(diags_view(v.push(d)) =~= diags_view(v).push(d@));
}

/// Push a diagnostic at the end of a vector
pub(crate) fn push_diag(out: &mut Vec<Diagnostic>, d: Diagnostic)
    ensures
        diags_view(final(out)@) == diags_view(old(out)@).push(d@),
{
    proof {
        lemma_diags_push(out@, d);
    }
    out.push(d);
}

/// The diagnostic of a single-kind rule (`@notice`, `@dev`, `@title`, `@author`), if any
///
/// A required kind must be present; a forbidden kind must be absent.
pub open spec fn kind_rule_diag(
    natspec: Option<Seq<ItemView>>,
    rule: Req,
    f: spec_fn(KindView) -> bool,
    span: TextRange,
    tag: Seq<char>,
) -> Option<DiagView> {
    match rule {
        Req::Ignored => None,
        Req::Required => if opt_has_kind(natspec, f) {
            None
        } else {
            Some(diag(span, tag + " is missing"@))
        },
        Req::Forbidden => if opt_has_kind(natspec, f) {
            Some(diag(span, tag + " is forbidden"@))
        } else {
            None
        },
    }
}

/// The values of an optional diagnostic, as a sequence
pub open spec fn opt_seq(d: Option<DiagView>) -> Seq<DiagView> {
    match d {
        Some(d) => seq![d],
        None => Seq::empty(),
    }
}

/// Push an optional diagnostic at the end of a vector
fn push_opt_diag(out: &mut Vec<Diagnostic>, d: Option<Diagnostic>)
    ensures
        diags_view(final(out)@) == diags_view(old(out)@) + opt_seq(
            match d {
                Some(x) => Some(x@),
                None => None,
            },
        ),
{
    match d {
        Some(x) => {
            push_diag(out, x);
            assert(diags_view(old(out)@).push(x@) =~= diags_view(old(out)@) + seq![x@]);
        },
        None => {
            assert(diags_view(old(out)@) =~= diags_view(old(out)@) + Seq::<DiagView>::empty());
        },
    }
}

/// The kind-presence query of a single-kind checker
enum KindTag {
    Notice,
    Dev,
    Title,
    Author,
}

impl KindTag {
    spec fn pred(&self) -> spec_fn(KindView) -> bool {
        match self {
            KindTag::Notice => is_notice(),
            KindTag::Dev => is_dev(),
            KindTag::Title => is_title(),
            KindTag::Author => is_author(),
        }
    }

    spec fn tag(&self) -> Seq<char> {
        match self {
            KindTag::Notice => "@notice"@,
            KindTag::Dev => "@dev"@,
            KindTag::Title => "@title"@,
            KindTag::Author => "@author"@,
        }
    }

    fn present(&self, natspec: &Option<NatSpec>) -> (b: bool)
        ensures
            b == opt_has_kind(natspec_items(*natspec), self.pred()),
    {
        match natspec {
            Some(n) => match self {
                KindTag::Notice => n.has_notice(),
                KindTag::Dev => n.has_dev(),
                KindTag::Title => n.has_title(),
                KindTag::Author => n.has_author(),
            },
            None => false,
        }
    }

    fn message(&self, missing: bool) -> (s: String)
        ensures
            s@ == self.tag() + (if missing {
                " is missing"@
            } else {
                " is forbidden"@
            }),
    {
        let suffix = if missing {
            " is missing"
        } else {
            " is forbidden"
        };
        let tag = match self {
            KindTag::Notice => "@notice",
            KindTag::Dev => "@dev",
            KindTag::Title => "@title",
            KindTag::Author => "@author",
        };
        let mut s = tag.to_owned();
        push_str(&mut s, suffix);
        s
    }

    /// Check the presence of the kind against the rule
    fn check(&self, natspec: &Option<NatSpec>, rule: Req, span: &TextRange) -> (d: Option<Diagnostic>)
        ensures
            match d {
                Some(x) => Some(x@),
                None => None,
            } == kind_rule_diag(natspec_items(*natspec), rule, self.pred(), *span, self.tag()),
    {
        match rule {
            Req::Ignored => None,
            Req::Required => {
                if self.present(natspec) {
                    None
                } else {
                    let m = self.message(true);
                    assert(m@ =~= self.tag() + " is missing"@);
                    Some(Diagnostic { span: copy_range(span), message: m })
                }
            },
            Req::Forbidden => {
                if self.present(natspec) {
                    let m = self.message(false);
                    assert(m@ =~= self.tag() + " is forbidden"@);
                    Some(Diagnostic { span: copy_range(span), message: m })
                } else {
                    None
                }
            },
        }
    }
}

/// Notice `NatSpec` checker.
pub struct CheckNotice<'a> {
    /// The parsed [`NatSpec`], if any
    pub natspec: &'a Option<NatSpec>,
    /// The rule to apply for `@notice`
    pub rule: Req,
    /// The span of the source item
    pub span: &'a TextRange,
}

impl<'a> CheckNotice<'a> {
    /// Create a checker for `@notice`
    pub fn new(natspec: &'a Option<NatSpec>, rule: Req, span: &'a TextRange) -> (c: Self)
        ensures
            c.natspec == natspec,
            c.rule == rule,
            c.span == span,
    {
        CheckNotice { natspec, rule, span }
    }

    /// Check if the `@notice` presence matches the requirements (`Req::Required` or `Req::Forbidden`) and generate a
    /// diagnostic if it doesn't.
    pub fn check(&self) -> (d: Option<Diagnostic>)
        ensures
            match d {
                Some(x) => Some(x@),
                None => None,
            } == kind_rule_diag(
                natspec_items(*self.natspec),
                self.rule,
                is_notice(),
                *self.span,
                "@notice"@,
            ),
    {
        KindTag::Notice.check(self.natspec, self.rule, self.span)
    }

    /// Check `@notice`, appending a diagnostic to the provided vector if needed.
    pub fn check_into(&self, out: &mut Vec<Diagnostic>)
        ensures
            diags_view(final(out)@) == diags_view(old(out)@) + opt_seq(
                kind_rule_diag(
                    natspec_items(*self.natspec),
                    self.rule,
                    is_notice(),
                    *self.span,
                    "@notice"@,
                ),
            ),
    {
        let d = self.check();
        push_opt_diag(out, d);
    }
}

/// Dev `NatSpec` checker.
pub struct CheckDev<'a> {
    /// The parsed [`NatSpec`], if any
    pub natspec: &'a Option<NatSpec>,
    /// The rule to apply for `@dev`
    pub rule: Req,
    /// The span of the source item
    pub span: &'a TextRange,
}

impl<'a> CheckDev<'a> {
    /// Create a checker for `@dev`
    pub fn new(natspec: &'a Option<NatSpec>, rule: Req, span: &'a TextRange) -> (c: Self)
        ensures
            c.natspec == natspec,
            c.rule == rule,
            c.span == span,
    {
        CheckDev { natspec, rule, span }
    }

    /// Check if the `@dev` presence matches the requirements (`Req::Required` or `Req::Forbidden`) and generate a
    /// diagnostic if it doesn't.
    pub fn check(&self) -> (d: Option<Diagnostic>)
        ensures
            match d {
                Some(x) => Some(x@),
                None => None,
            } == kind_rule_diag(
                natspec_items(*self.natspec),
                self.rule,
                is_dev(),
                *self.span,
                "@dev"@,
            ),
    {
        KindTag::Dev.check(self.natspec, self.rule, self.span)
    }

    /// Check `@dev`, appending a diagnostic to the provided vector if needed.
    pub fn check_into(&self, out: &mut Vec<Diagnostic>)
        ensures
            diags_view(final(out)@) == diags_view(old(out)@) + opt_seq(
                kind_rule_diag(natspec_items(*self.natspec), self.rule, is_dev(), *self.span, "@dev"@),
            ),
    {
        let d = self.check();
        push_opt_diag(out, d);
    }
}

/// Title `NatSpec` checker.
pub struct CheckTitle<'a> {
    /// The parsed [`NatSpec`], if any
    pub natspec: &'a Option<NatSpec>,
    /// The rule to apply for `@title`
    pub rule: Req,
    /// The span of the source item
    pub span: &'a TextRange,
}

impl<'a> CheckTitle<'a> {
    /// Create a checker for `@title`
    pub fn new(natspec: &'a Option<NatSpec>, rule: Req, span: &'a TextRange) -> (c: Self)
        ensures
            c.natspec == natspec,
            c.rule == rule,
            c.span == span,
    {
        CheckTitle { natspec, rule, span }
    }

    /// Check if the `@title` presence matches the requirements (`Req::Required` or `Req::Forbidden`) and generate a
    /// diagnostic if it doesn't.
    pub fn check(&self) -> (d: Option<Diagnostic>)
        ensures
            match d {
                Some(x) => Some(x@),
                None => None,
            } == kind_rule_diag(
                natspec_items(*self.natspec),
                self.rule,
                is_title(),
                *self.span,
                "@title"@,
            ),
    {
        KindTag::Title.check(self.natspec, self.rule, self.span)
    }

    /// Check `@title`, appending a diagnostic to the provided vector if needed.
    pub fn check_into(&self, out: &mut Vec<Diagnostic>)
        ensures
            diags_view(final(out)@) == diags_view(old(out)@) + opt_seq(
                kind_rule_diag(
                    natspec_items(*self.natspec),
                    self.rule,
                    is_title(),
                    *self.span,
                    "@title"@,
                ),
            ),
    {
        let d = self.check();
        push_opt_diag(out, d);
    }
}

/// Author `NatSpec` checker.
pub struct CheckAuthor<'a> {
    /// The parsed [`NatSpec`], if any
    pub natspec: &'a Option<NatSpec>,
    /// The rule to apply for `@author`
    pub rule: Req,
    /// The span of the source item
    pub span: &'a TextRange,
}

impl<'a> CheckAuthor<'a> {
    /// Create a checker for `@author`
    pub fn new(natspec: &'a Option<NatSpec>, rule: Req, span: &'a TextRange) -> (c: Self)
        ensures
            c.natspec == natspec,
            c.rule == rule,
            c.span == span,
    {
        CheckAuthor { natspec, rule, span }
    }

    /// Check if the `@author` presence matches the requirements (`Req::Required` or `Req::Forbidden`) and generate
    /// a diagnostic if it doesn't.
    pub fn check(&self) -> (d: Option<Diagnostic>)
        ensures
            match d {
                Some(x) => Some(x@),
                None => None,
            } == kind_rule_diag(
                natspec_items(*self.natspec),
                self.rule,
                is_author(),
                *self.span,
                "@author"@,
            ),
    {
        KindTag::Author.check(self.natspec, self.rule, self.span)
    }

    /// Check `@author`, appending a diagnostic to the provided vector if needed.
    pub fn check_into(&self, out: &mut Vec<Diagnostic>)
        ensures
            diags_view(final(out)@) == diags_view(old(out)@) + opt_seq(
                kind_rule_diag(
                    natspec_items(*self.natspec),
                    self.rule,
                    is_author(),
                    *self.span,
                    "@author"@,
                ),
            ),
    {
        let d = self.check();
        push_opt_diag(out, d);
    }
}

/// The message for an undocumented param
pub open spec fn param_missing_msg(name: Seq<char>) -> Seq<char> {
    "@param "@ + name + " is missing"@
}

/// The message for a param documented more than once
pub open spec fn param_repeated_msg(name: Seq<char>) -> Seq<char> {
    "@param "@ + name + " is present more than once"@
}

/// The message for a documented param that the item does not have
pub open spec fn param_extra_msg(name: Seq<char>) -> Seq<char> {
    "extra @param "@ + name
}

/// Some identifier of `idents` has the name `name`
pub open spec fn has_ident_named(idents: Seq<Identifier>, name: Seq<char>) -> bool {
    exists|k: int| 0 <= k < idents.len() && ident_name(#[trigger] idents[k]) == Some(name)
}

/// When no `NatSpec` is present: one diagnostic per named param, in order
pub open spec fn missing_param_diags(params: Seq<Identifier>) -> Seq<DiagView>
    decreases params.len(),
{
    if params.len() == 0 {
        Seq::empty()
    } else {
        let rest = missing_param_diags(params.drop_last());
        match ident_name(params.last()) {
            Some(n) => rest.push(diag(params.last().span, param_missing_msg(n))),
            None => rest,
        }
    }
}

/// One diagnostic for each `@param` item of `items` whose name is not a param of the item, in order
pub open spec fn extra_param_diags(
    items: Seq<ItemView>,
    params: Seq<Identifier>,
    default_span: TextRange,
) -> Seq<DiagView>
    decreases items.len(),
{
    if items.len() == 0 {
        Seq::empty()
    } else {
        let rest = extra_param_diags(items.drop_last(), params, default_span);
        match items.last().kind {
            KindView::Param { name } => if has_ident_named(params, name) {
                rest
            } else {
                rest.push(diag(default_span, param_extra_msg(name)))
            },
            _ => rest,
        }
    }
}

/// The diagnostic of a named param that is documented no time or more than once
///
/// An unnamed param cannot be documented with `@param`, and gets no diagnostic.
pub open spec fn param_count_diag(items: Seq<ItemView>, p: Identifier) -> Option<DiagView> {
    match ident_name(p) {
        None => None,
        Some(n) => {
            let c = count_kind(items, is_param_named(n));
            if c == 0 {
                Some(diag(p.span, param_missing_msg(n)))
            } else if c == 1 {
                None
            } else {
                Some(diag(p.span, param_repeated_msg(n)))
            }
        },
    }
}

/// The count diagnostics of all params, in order
pub open spec fn count_param_diags(items: Seq<ItemView>, params: Seq<Identifier>) -> Seq<DiagView>
    decreases params.len(),
{
    if params.len() == 0 {
        Seq::empty()
    } else {
        count_param_diags(items, params.drop_last()) + opt_seq(
            param_count_diag(items, params.last()),
        )
    }
}

/// The diagnostics of the `@param` rule, before sorting
pub open spec fn params_diags(
    natspec: Option<Seq<ItemView>>,
    rule: Req,
    params: Seq<Identifier>,
    default_span: TextRange,
) -> Seq<DiagView> {
    match rule {
        Req::Ignored => Seq::empty(),
        Req::Required => match natspec {
            None => missing_param_diags(params),
            Some(items) => extra_param_diags(items, params, default_span) + count_param_diags(
                items,
                params,
            ),
        },
        Req::Forbidden => if opt_has_kind(natspec, is_param()) {
            seq![diag(default_span, "@param is forbidden"@)]
        } else {
            Seq::empty()
        },
    }
}

/// Params `NatSpec` checker.
pub struct CheckParams<'a> {
    /// The parsed [`NatSpec`], if any
    pub natspec: &'a Option<NatSpec>,
    /// The rule to apply for `@param`
    pub rule: Req,
    /// The list of actual params/members
    pub params: &'a [Identifier],
    /// The span of the source item, used for diagnostics which don't refer to a specific param
    pub default_span: TextRange,
}

impl<'a> CheckParams<'a> {
    /// Create a checker for `@param`
    pub fn new(
        natspec: &'a Option<NatSpec>,
        rule: Req,
        params: &'a [Identifier],
        default_span: TextRange,
    ) -> (c: Self)
        ensures
            c.natspec == natspec,
            c.rule == rule,
            c.params == params,
            c.default_span == default_span,
    {
        CheckParams { natspec, rule, params, default_span }
    }

    /// The diagnostics of this checker, in the order in which they are found
    pub open spec fn spec_diags(&self) -> Seq<DiagView> {
        params_diags(natspec_items(*self.natspec), self.rule, self.params@, self.default_span)
    }

    /// Check a list of params to see if they are documented with a corresponding item in the [`NatSpec`], and
    /// generate a diagnostic for each missing one or if there are more than 1 entry per param.
    ///
    /// If the rule is [`Req::Forbidden`], it checks if `@param` is present in the [`NatSpec`] and generates a
    /// diagnostic if it is. The diagnostics come out ordered by the start of their span.
    pub fn check(&self) -> (res: Vec<Diagnostic>)
        ensures
            diags_view(res@) == stable_sort(self.spec_diags(), start_key()),
    {
        let mut res = Vec::new();
        self.check_into(&mut res);
        assert(diags_view(res@) =~= self.spec_diags());
        sort_by_start(res)
    }

    /// Check a list of params, appending diagnostics to the provided vector.
    pub fn check_into(&self, out: &mut Vec<Diagnostic>)
        ensures
            diags_view(final(out)@) == diags_view(old(out)@) + self.spec_diags(),
    {
        match self.rule {
            Req::Ignored => {
                assert(diags_view(out@) =~= diags_view(out@) + Seq::<DiagView>::empty());
            },
            Req::Required => self.check_required(out),
            Req::Forbidden => self.check_forbidden(out),
        }
    }

    /// Check params in case the rule is [`Req::Required`]
    fn check_required(&self, out: &mut Vec<Diagnostic>)
        requires
            self.rule == Req::Required,
        ensures
            diags_view(final(out)@) == diags_view(old(out)@) + self.spec_diags(),
    {
        match self.natspec {
            None => self.missing_diags(out),
            Some(natspec) => {
                self.extra_diags(natspec, out);
                self.count_diags(natspec, out);
                assert(diags_view(out@) =~= diags_view(old(out)@) + self.spec_diags());
            },
        }
    }

    /// Check params in case the rule is [`Req::Forbidden`]
    fn check_forbidden(&self, out: &mut Vec<Diagnostic>)
        requires
            self.rule == Req::Forbidden,
        ensures
            diags_view(final(out)@) == diags_view(old(out)@) + self.spec_diags(),
    {
        let forbidden = match self.natspec {
            Some(natspec) => natspec.has_param(),
            None => false,
        };
        if forbidden {
            let d = Diagnostic {
                span: copy_range(&self.default_span),
                message: "@param is forbidden".to_owned(),
            };
            push_diag(out, d);
            assert(diags_view(out@) =~= diags_view(old(out)@) + self.spec_diags());
        } else {
            assert(diags_view(out@) =~= diags_view(old(out)@) + self.spec_diags());
        }
    }

    /// Generate missing param diags if `@param` is required and there is no `NatSpec`
    fn missing_diags(&self, out: &mut Vec<Diagnostic>)
        ensures
            diags_view(final(out)@) == diags_view(old(out)@) + missing_param_diags(self.params@),
    {
        let mut i: usize = 0;
        while i < self.params.len()
            invariant
                i <= self.params@.len(),
                diags_view(out@) == diags_view(old(out)@) + missing_param_diags(
                    self.params@.take(i as int),
                ),
            decreases self.params@.len() - i,
        {
            let p = &self.params[i];
            proof {
                assert(self.params@.take(i + 1).drop_last() =~= self.params@.take(i as int));
            }
            match &p.name {
                Some(name) => {
                    let d = Diagnostic {
                        span: copy_range(&p.span),
                        message: concat3("@param ", name.as_str(), " is missing"),
                    };
                    push_diag(out, d);
                },
                None => {},
            }
            i = i + 1;
        }
        proof {
            assert(self.params@.take(self.params@.len() as int) =~= self.params@);
        }
    }

    /// Whether some param has the name `name`
    fn has_param_named(&self, name: &String) -> (b: bool)
        ensures
            b == has_ident_named(self.params@, name@),
    {
        let mut i: usize = 0;
        while i < self.params.len()
            invariant
                i <= self.params@.len(),
                forall|k: int| 0 <= k < i ==> ident_name(#[trigger] self.params@[k]) != Some(name@),
            decreases self.params@.len() - i,
        {
            match &self.params[i].name {
                Some(n) => {
                    if *n == *name {
                        assert(ident_name(self.params@[i as int]) == Some(name@));
                        return true;
                    }
                },
                None => {},
            }
            i = i + 1;
        }
        false
    }

    /// Generate extra param diags if `@param` is required
    ///
    /// The items carry no span of their own, so these diagnostics point at the whole source item.
    fn extra_diags(&self, natspec: &NatSpec, out: &mut Vec<Diagnostic>)
        ensures
            diags_view(final(out)@) == diags_view(old(out)@) + extra_param_diags(
                natspec@,
                self.params@,
                self.default_span,
            ),
    {
        let mut i: usize = 0;
        while i < natspec.items.len()
            invariant
                i <= natspec@.len(),
                diags_view(out@) == diags_view(old(out)@) + extra_param_diags(
                    natspec@.take(i as int),
                    self.params@,
                    self.default_span,
                ),
            decreases natspec@.len() - i,
        {
            proof {
                assert(natspec@.take(i + 1).drop_last() =~= natspec@.take(i as int));
            }
            match &natspec.items[i].kind {
                NatSpecKind::Param { name } => {
                    if !self.has_param_named(name) {
                        let mut message = "extra @param ".to_owned();
                        push_str(&mut message, name.as_str());
                        let d = Diagnostic { span: copy_range(&self.default_span), message };
                        push_diag(out, d);
                    }
                },
                _ => {},
            }
            i = i + 1;
        }
        proof {
            assert(natspec@.take(natspec@.len() as int) =~= natspec@);
        }
    }

    /// Generate diagnostics for wrong number of `@param` comments (missing or more than one)
    fn count_diags(&self, natspec: &NatSpec, out: &mut Vec<Diagnostic>)
        ensures
            diags_view(final(out)@) == diags_view(old(out)@) + count_param_diags(
                natspec@,
                self.params@,
            ),
    {
        let mut i: usize = 0;
        while i < self.params.len()
            invariant
                i <= self.params@.len(),
                diags_view(out@) == diags_view(old(out)@) + count_param_diags(
                    natspec@,
                    self.params@.take(i as int),
                ),
            decreases self.params@.len() - i,
        {
            let p = &self.params[i];
            proof {
                assert(self.params@.take(i + 1).drop_last() =~= self.params@.take(i as int));
            }
            let count = natspec.count_param(p);
            let name = match &p.name {
                Some(n) => n.as_str(),
                None => "",
            };
            let d = if p.name.is_none() {
                None
            } else if count == 0 {
                Some(
                    Diagnostic {
                        span: copy_range(&p.span),
                        message: concat3("@param ", name, " is missing"),
                    },
                )
            } else if count == 1 {
                None
            } else {
                Some(
                    Diagnostic {
                        span: copy_range(&p.span),
                        message: concat3("@param ", name, " is present more than once"),
                    },
                )
            };
            push_opt_diag(out, d);
            proof {
                assert(diags_view(out@) =~= diags_view(old(out)@) + count_param_diags(
                    natspec@,
                    self.params@.take(i + 1),
                ));
            }
            i = i + 1;
        }
        proof {
            assert(self.params@.take(self.params@.len() as int) =~= self.params@);
        }
    }
}

/// The key by which diagnostics are ordered: the byte offset where their span starts
pub open spec fn start_key() -> spec_fn(DiagView) -> int {
    |d: DiagView| d.span.start.utf8 as int
}

/// Sort diagnostics by the start of their span, keeping the order of those that start at the same offset
pub fn sort_by_start(v: Vec<Diagnostic>) -> (r: Vec<Diagnostic>)
    ensures
        diags_view(r@) == stable_sort(diags_view(v@), start_key()),
{
    let ghost orig = diags_view(v@);
    let mut v = v;
    let mut r: Vec<Diagnostic> = Vec::new();
    let mut k: usize = 0;
    let n = v.len();
    proof {
        assert(orig.take(0) =~= Seq::<DiagView>::empty());
        assert(diags_view(r@) =~= Seq::<DiagView>::empty());
        assert(orig.skip(0) =~= orig);
    }
    while v.len() > 0
        invariant
            k <= orig.len(),
            orig.len() == n,
            k + v@.len() == n,
            diags_view(r@) == stable_sort(orig.take(k as int), start_key()),
            diags_view(v@) == orig.skip(k as int),
        decreases v@.len(),
    {
        let ghost v_before = v@;
        let d = v.remove(0);
        proof {
            assert(d@ == diags_view(v_before)[0]);
            assert(diags_view(v@) =~= diags_view(v_before).drop_first());
            assert(orig.take(k + 1).drop_last() =~= orig.take(k as int));
            assert(orig.take(k + 1).last() == d@);
            assert(orig.skip(k + 1) =~= orig.skip(k as int).drop_first());
        }
        let key = d.span.start.utf8;
        let mut pos: usize = 0;
        while pos < r.len() && r[pos].span.start.utf8 <= key
            invariant
                pos <= r@.len(),
                forall|j: int| 0 <= j < pos ==> #[trigger] r@[j].span.start.utf8 <= key,
            decreases r@.len() - pos,
        {
            pos = pos + 1;
        }
        let ghost r_before = diags_view(r@);
        proof {
            assert forall|j: int| 0 <= j < pos implies (start_key())(#[trigger] r_before[j]) <= (
            start_key())(d@) by {
                assert(r_before[j] == r@[j]@);
            }
            if pos < r_before.len() {
                assert(r_before[pos as int] == r@[pos as int]@);
            }
            lemma_insert_at(r_before, d@, start_key(), pos as int);
        }
        r.insert(pos, d);
        proof {
            assert(diags_view(r@) =~= r_before.insert(pos as int, d@));
        }
        k = k + 1;
    }
    proof {
        assert(orig.take(k as int) =~= orig);
    }
    r
}

/// The diagnostics of the `@notice` and `@dev` rules
///
/// When `notice_or_dev` is set and one or both are required (and none is forbidden), either of them is enough.
pub open spec fn notice_dev_diags(
    natspec: Option<Seq<ItemView>>,
    notice_rule: Req,
    dev_rule: Req,
    notice_or_dev: bool,
    span: TextRange,
) -> Seq<DiagView> {
    if notice_or_dev && ((notice_rule == Req::Required && dev_rule != Req::Forbidden) || (
    notice_rule == Req::Ignored && dev_rule == Req::Required)) {
        if opt_has_kind(natspec, is_notice()) || opt_has_kind(natspec, is_dev()) {
            Seq::empty()
        } else {
            seq![diag(span, "@notice or @dev is missing"@)]
        }
    } else if notice_or_dev && notice_rule == Req::Ignored && dev_rule == Req::Ignored {
        Seq::empty()
    } else {
        opt_seq(kind_rule_diag(natspec, notice_rule, is_notice(), span, "@notice"@)) + opt_seq(
            kind_rule_diag(natspec, dev_rule, is_dev(), span, "@dev"@),
        )
    }
}

/// Notice and Dev `NatSpec` checker.
pub struct CheckNoticeAndDev<'a> {
    /// The parsed [`NatSpec`], if any
    pub natspec: &'a Option<NatSpec>,
    /// The rule to apply for `@notice`
    pub notice_rule: Req,
    /// The rule to apply for `@dev`
    pub dev_rule: Req,
    /// Whether to enforce either `@notice` or `@dev` if either or both are required
    pub notice_or_dev: bool,
    /// The span of the source item
    pub span: &'a TextRange,
}

impl<'a> CheckNoticeAndDev<'a> {
    /// Create a checker for `@notice` and `@dev`
    pub fn new(
        natspec: &'a Option<NatSpec>,
        notice_rule: Req,
        dev_rule: Req,
        notice_or_dev: bool,
        span: &'a TextRange,
    ) -> (c: Self)
        ensures
            c.natspec == natspec,
            c.notice_rule == notice_rule,
            c.dev_rule == dev_rule,
            c.notice_or_dev == notice_or_dev,
            c.span == span,
    {
        CheckNoticeAndDev { natspec, notice_rule, dev_rule, notice_or_dev, span }
    }

    /// The diagnostics of this checker
    pub open spec fn spec_diags(&self) -> Seq<DiagView> {
        notice_dev_diags(
            natspec_items(*self.natspec),
            self.notice_rule,
            self.dev_rule,
            self.notice_or_dev,
            *self.span,
        )
    }

    /// Check if the `@notice` or `@dev` presence matches the requirements (`Req::Required` or `Req::Forbidden`)
    /// and generate diagnostics if they don't.
    ///
    /// If the `notice_or_dev` option is enabled and one or both are required, either `@notice` or `@dev` must be
    /// present. If either is forbidden, or the `notice_or_dev` option is disabled, `@notice` and `@dev` are checked
    /// separately according to their respective rules.
    pub fn check(&self) -> (res: Vec<Diagnostic>)
        ensures
            diags_view(res@) == self.spec_diags(),
    {
        let mut res = Vec::new();
        self.check_into(&mut res);
        assert(diags_view(res@) =~= self.spec_diags());
        res
    }

    /// Check `@notice` and `@dev`, appending diagnostics to the provided vector.
    pub fn check_into(&self, out: &mut Vec<Diagnostic>)
        ensures
            diags_view(final(out)@) == diags_view(old(out)@) + self.spec_diags(),
    {
        match (self.notice_or_dev, self.notice_rule, self.dev_rule) {
            (true, Req::Required, Req::Ignored)
            | (true, Req::Required, Req::Required)
            | (true, Req::Ignored, Req::Required) => self.check_notice_or_dev_into(out),
            (true, Req::Ignored, Req::Ignored) => {
                assert(diags_view(out@) =~= diags_view(out@) + Seq::<DiagView>::empty());
            },
            _ => {
                self.check_separately(out);
            },
        }
    }

    /// Check that either `@notice` or `@dev` is present
    fn check_notice_or_dev_into(&self, out: &mut Vec<Diagnostic>)
        ensures
            diags_view(final(out)@) == diags_view(old(out)@) + (if opt_has_kind(
                natspec_items(*self.natspec),
                is_notice(),
            ) || opt_has_kind(natspec_items(*self.natspec), is_dev()) {
                Seq::<DiagView>::empty()
            } else {
                seq![diag(*self.span, "@notice or @dev is missing"@)]
            }),
    {
        let present = match self.natspec {
            Some(natspec) => natspec.has_notice() || natspec.has_dev(),
            None => false,
        };
        if present {
            assert(diags_view(out@) =~= diags_view(out@) + Seq::<DiagView>::empty());
        } else {
            let d = Diagnostic {
                span: copy_range(self.span),
                message: "@notice or @dev is missing".to_owned(),
            };
            push_diag(out, d);
            assert(diags_view(out@) =~= diags_view(old(out)@) + seq![
                diag(*self.span, "@notice or @dev is missing"@),
            ]);
        }
    }

    /// Check `@notice` and `@dev` separately according to their respective rules
    fn check_separately(&self, out: &mut Vec<Diagnostic>)
        ensures
            diags_view(final(out)@) == diags_view(old(out)@) + opt_seq(
                kind_rule_diag(
                    natspec_items(*self.natspec),
                    self.notice_rule,
                    is_notice(),
                    *self.span,
                    "@notice"@,
                ),
            ) + opt_seq(
                kind_rule_diag(
                    natspec_items(*self.natspec),
                    self.dev_rule,
                    is_dev(),
                    *self.span,
                    "@dev"@,
                ),
            ),
    {
        CheckNotice::new(self.natspec, self.notice_rule, self.span).check_into(out);
        CheckDev::new(self.natspec, self.dev_rule, self.span).check_into(out);
    }
}

/// The message for an undocumented named return
pub open spec fn return_missing_msg(name: Seq<char>) -> Seq<char> {
    "@return "@ + name + " is missing"@
}

/// The message for a named return documented more than once
pub open spec fn return_repeated_msg(name: Seq<char>) -> Seq<char> {
    "@return "@ + name + " is present more than once"@
}

/// The message for the undocumented unnamed return at position `idx` (from zero)
///
/// A state variable has a single, unnamed return.
pub open spec fn unnamed_return_msg(is_var: bool, idx: nat) -> Seq<char> {
    if is_var {
        "@return is missing"@
    } else {
        "@return missing for unnamed return #"@ + decimal(idx + 1)
    }
}

/// The message for the return `r` at position `idx`, when it is not documented
pub open spec fn return_undocumented_msg(r: Identifier, idx: nat, is_var: bool) -> Seq<char> {
    match ident_name(r) {
        Some(n) => return_missing_msg(n),
        None => unnamed_return_msg(is_var, idx),
    }
}

/// When no `NatSpec` is present: one diagnostic per return, in order
pub open spec fn missing_return_diags(rets: Seq<Identifier>, is_var: bool) -> Seq<DiagView>
    decreases rets.len(),
{
    if rets.len() == 0 {
        Seq::empty()
    } else {
        let idx = (rets.len() - 1) as nat;
        missing_return_diags(rets.drop_last(), is_var).push(
            diag(rets.last().span, return_undocumented_msg(rets.last(), idx, is_var)),
        )
    }
}

/// The diagnostic of the return `r` at position `idx`, if any
///
/// A named return must be documented exactly once; an unnamed one is taken as documented when there are more
/// `@return` items than its position.
pub open spec fn return_diag(items: Seq<ItemView>, idx: nat, r: Identifier, is_var: bool) -> Option<
    DiagView,
> {
    match ident_name(r) {
        Some(n) => {
            let c = count_kind(items, is_return_named(n));
            if c == 0 {
                Some(diag(r.span, return_missing_msg(n)))
            } else if c == 1 {
                None
            } else {
                Some(diag(r.span, return_repeated_msg(n)))
            }
        },
        None => if idx + 1 > count_kind(items, is_return()) {
            Some(diag(r.span, unnamed_return_msg(is_var, idx)))
        } else {
            None
        },
    }
}

/// The diagnostics of all rets, in order
pub open spec fn return_count_diags(items: Seq<ItemView>, rets: Seq<Identifier>, is_var: bool) -> Seq<
    DiagView,
>
    decreases rets.len(),
{
    if rets.len() == 0 {
        Seq::empty()
    } else {
        return_count_diags(items, rets.drop_last(), is_var) + opt_seq(
            return_diag(items, (rets.len() - 1) as nat, rets.last(), is_var),
        )
    }
}

/// The number of unnamed returns
pub open spec fn count_unnamed(rets: Seq<Identifier>) -> nat
    decreases rets.len(),
{
    if rets.len() == 0 {
        0
    } else {
        count_unnamed(rets.drop_last()) + if rets.last().name is None {
            1nat
        } else {
            0nat
        }
    }
}

/// The diagnostic for more unnamed `@return` items than unnamed rets, if any
///
/// It points at the last return, or at the whole item when there is no return.
pub open spec fn extra_unnamed_diag(
    items: Seq<ItemView>,
    rets: Seq<Identifier>,
    default_span: TextRange,
) -> Option<DiagView> {
    if count_kind(items, is_unnamed_return()) > count_unnamed(rets) {
        Some(
            diag(
                if rets.len() > 0 {
                    rets.last().span
                } else {
                    default_span
                },
                "too many unnamed returns"@,
            ),
        )
    } else {
        None
    }
}

/// The diagnostics of the `@return` rule
pub open spec fn returns_diags(
    natspec: Option<Seq<ItemView>>,
    rule: Req,
    rets: Seq<Identifier>,
    default_span: TextRange,
    is_var: bool,
) -> Seq<DiagView> {
    match rule {
        Req::Ignored => Seq::empty(),
        Req::Required => match natspec {
            None => missing_return_diags(rets, is_var),
            Some(items) => return_count_diags(items, rets, is_var) + opt_seq(
                extra_unnamed_diag(items, rets, default_span),
            ),
        },
        Req::Forbidden => if opt_has_kind(natspec, is_return()) {
            seq![diag(default_span, "@return is forbidden"@)]
        } else {
            Seq::empty()
        },
    }
}

/// Returns `NatSpec` checker.
pub struct CheckReturns<'a> {
    /// The parsed [`NatSpec`], if any
    pub natspec: &'a Option<NatSpec>,
    /// The rule to apply for `@return`
    pub rule: Req,
    /// The list of actual return values
    pub returns: &'a [Identifier],
    /// The span of the source item, used for diagnostics which don't refer to a specific return
    pub default_span: TextRange,
    /// Whether this is a state variable (affects diagnostic messages)
    pub is_var: bool,
}

impl<'a> CheckReturns<'a> {
    /// Create a checker for `@return`
    pub fn new(
        natspec: &'a Option<NatSpec>,
        rule: Req,
        rets: &'a [Identifier],
        default_span: TextRange,
        is_var: bool,
    ) -> (c: Self)
        ensures
            c.natspec == natspec,
            c.rule == rule,
            c.returns == rets,
            c.default_span == default_span,
            c.is_var == is_var,
    {
        CheckReturns { natspec, rule, returns: rets, default_span, is_var }
    }

    /// The diagnostics of this checker
    pub open spec fn spec_diags(&self) -> Seq<DiagView> {
        returns_diags(
            natspec_items(*self.natspec),
            self.rule,
            self.returns@,
            self.default_span,
            self.is_var,
        )
    }

    /// Check a list of returns to see if they are documented with a corresponding item in the [`NatSpec`], and
    /// generate a diagnostic for each missing one or if there are more than 1 entry per param.
    ///
    /// If the rule is [`Req::Forbidden`], it checks if `@return` is present in the [`NatSpec`] and generates a
    /// diagnostic if it is.
    pub fn check(&self) -> (res: Vec<Diagnostic>)
        ensures
            diags_view(res@) == self.spec_diags(),
    {
        let mut res = Vec::new();
        self.check_into(&mut res);
        assert(diags_view(res@) =~= self.spec_diags());
        res
    }

    /// Check a list of rets, appending diagnostics to the provided vector.
    pub fn check_into(&self, out: &mut Vec<Diagnostic>)
        ensures
            diags_view(final(out)@) == diags_view(old(out)@) + self.spec_diags(),
    {
        match self.rule {
            Req::Ignored => {
                assert(diags_view(out@) =~= diags_view(out@) + Seq::<DiagView>::empty());
            },
            Req::Required => match self.natspec {
                None => self.missing_diags(out),
                Some(natspec) => {
                    self.return_diags(natspec, out);
                    self.extra_unnamed_diags(natspec, out);
                    assert(diags_view(out@) =~= diags_view(old(out)@) + self.spec_diags());
                },
            },
            Req::Forbidden => {
                let forbidden = match self.natspec {
                    Some(natspec) => natspec.has_return(),
                    None => false,
                };
                if forbidden {
                    let d = Diagnostic {
                        span: copy_range(&self.default_span),
                        message: "@return is forbidden".to_owned(),
                    };
                    push_diag(out, d);
                }
                assert(diags_view(out@) =~= diags_view(old(out)@) + self.spec_diags());
            },
        }
    }

    /// The message for the undocumented return `r` at position `idx`
    fn undocumented_msg(&self, r: &Identifier, idx: usize) -> (s: String)
        requires
            idx < usize::MAX,
        ensures
            s@ == return_undocumented_msg(*r, idx as nat, self.is_var),
    {
        match &r.name {
            Some(name) => concat3("@return ", name.as_str(), " is missing"),
            None => self.unnamed_msg(idx),
        }
    }

    /// The message for the undocumented unnamed return at position `idx`
    fn unnamed_msg(&self, idx: usize) -> (s: String)
        requires
            idx < usize::MAX,
        ensures
            s@ == unnamed_return_msg(self.is_var, idx as nat),
    {
        if self.is_var {
            "@return is missing".to_owned()
        } else {
            let num = usize_to_string(idx + 1);
            let mut s = "@return missing for unnamed return #".to_owned();
            push_str(&mut s, num.as_str());
            s
        }
    }

    /// Generate missing return diags if `@return` is required and there's no `NatSpec`
    fn missing_diags(&self, out: &mut Vec<Diagnostic>)
        ensures
            diags_view(final(out)@) == diags_view(old(out)@) + missing_return_diags(
                self.returns@,
                self.is_var,
            ),
    {
        let mut i: usize = 0;
        while i < self.returns.len()
            invariant
                i <= self.returns@.len(),
                diags_view(out@) == diags_view(old(out)@) + missing_return_diags(
                    self.returns@.take(i as int),
                    self.is_var,
                ),
            decreases self.returns@.len() - i,
        {
            let r = &self.returns[i];
            proof {
                assert(self.returns@.take(i + 1).drop_last() =~= self.returns@.take(i as int));
            }
            let d = Diagnostic { span: copy_range(&r.span), message: self.undocumented_msg(r, i) };
            push_diag(out, d);
            proof {
                assert(diags_view(out@) =~= diags_view(old(out)@) + missing_return_diags(
                    self.returns@.take(i + 1),
                    self.is_var,
                ));
            }
            i = i + 1;
        }
        proof {
            assert(self.returns@.take(self.returns@.len() as int) =~= self.returns@);
        }
    }

    /// The diagnostic of the return `r` at position `idx`, if any
    fn return_diag(
        &self,
        natspec: &NatSpec,
        returns_count: usize,
        idx: usize,
        r: &Identifier,
    ) -> (d: Option<Diagnostic>)
        requires
            idx < usize::MAX,
            returns_count == count_kind(natspec@, is_return()),
        ensures
            match d {
                Some(x) => Some(x@),
                None => None,
            } == return_diag(natspec@, idx as nat, *r, self.is_var),
    {
        match &r.name {
            Some(name) => {
                let c = natspec.count_return(r);
                if c == 0 {
                    Some(
                        Diagnostic {
                            span: copy_range(&r.span),
                            message: concat3("@return ", name.as_str(), " is missing"),
                        },
                    )
                } else if c == 1 {
                    None
                } else {
                    Some(
                        Diagnostic {
                            span: copy_range(&r.span),
                            message: concat3("@return ", name.as_str(), " is present more than once"),
                        },
                    )
                }
            },
            None => {
                if idx + 1 > returns_count {
                    Some(Diagnostic { span: copy_range(&r.span), message: self.unnamed_msg(idx) })
                } else {
                    None
                }
            },
        }
    }

    /// Generate diagnostics for all returns (both named and unnamed) in order
    fn return_diags(&self, natspec: &NatSpec, out: &mut Vec<Diagnostic>)
        ensures
            diags_view(final(out)@) == diags_view(old(out)@) + return_count_diags(
                natspec@,
                self.returns@,
                self.is_var,
            ),
    {
        let returns_count = natspec.count_all_returns();
        let mut i: usize = 0;
        while i < self.returns.len()
            invariant
                i <= self.returns@.len(),
                returns_count == count_kind(natspec@, is_return()),
                diags_view(out@) == diags_view(old(out)@) + return_count_diags(
                    natspec@,
                    self.returns@.take(i as int),
                    self.is_var,
                ),
            decreases self.returns@.len() - i,
        {
            let r = &self.returns[i];
            proof {
                assert(self.returns@.take(i + 1).drop_last() =~= self.returns@.take(i as int));
            }
            let d = self.return_diag(natspec, returns_count, i, r);
            push_opt_diag(out, d);
            proof {
                assert(diags_view(out@) =~= diags_view(old(out)@) + return_count_diags(
                    natspec@,
                    self.returns@.take(i + 1),
                    self.is_var,
                ));
            }
            i = i + 1;
        }
        proof {
            assert(self.returns@.take(self.returns@.len() as int) =~= self.returns@);
        }
    }

    /// The number of unnamed returns
    fn unnamed_count(&self) -> (c: usize)
        ensures
            c == count_unnamed(self.returns@),
    {
        let mut c: usize = 0;
        let mut i: usize = 0;
        while i < self.returns.len()
            invariant
                i <= self.returns@.len(),
                c <= i,
                c == count_unnamed(self.returns@.take(i as int)),
            decreases self.returns@.len() - i,
        {
            proof {
                assert(self.returns@.take(i + 1).drop_last() =~= self.returns@.take(i as int));
            }
            if self.returns[i].name.is_none() {
                c = c + 1;
            }
            i = i + 1;
        }
        proof {
            assert(self.returns@.take(self.returns@.len() as int) =~= self.returns@);
        }
        c
    }

    /// Generate diagnostic for too many unnamed returns in `NatSpec`
    fn extra_unnamed_diags(&self, natspec: &NatSpec, out: &mut Vec<Diagnostic>)
        ensures
            diags_view(final(out)@) == diags_view(old(out)@) + opt_seq(
                extra_unnamed_diag(natspec@, self.returns@, self.default_span),
            ),
    {
        let unnamed_returns = self.unnamed_count();
        let d = if natspec.count_unnamed_returns() > unnamed_returns {
            let n = self.returns.len();
            let span = if n > 0 {
                copy_range(&self.returns[n - 1].span)
            } else {
                copy_range(&self.default_span)
            };
            Some(Diagnostic { span, message: "too many unnamed returns".to_owned() })
        } else {
            None
        };
        push_opt_diag(out, d);
    }
}

/// Validation options to control which lints generate a diagnostic
#[derive(Debug, Clone, Copy, PartialEq, Eq, Structural)]
pub struct ValidationOptions {
    /// Whether public and external functions should have an `@inheritdoc`
    pub inheritdoc: bool,
    /// Whether `override` internal functions and modifiers should have an `@inheritdoc`
    pub inheritdoc_override: bool,
    /// Whether to enforce either `@notice` or `@dev` if either or both are required
    pub notice_or_dev: bool,
    /// Validation options for contracts
    pub contracts: ContractRules,
    /// Validation options for interfaces
    pub interfaces: ContractRules,
    /// Validation options for libraries
    pub libraries: ContractRules,
    /// Validation options for constructors
    pub constructors: WithParamsRules,
    /// Validation options for enums
    pub enums: WithParamsRules,
    /// Validation options for errors
    pub errors: WithParamsRules,
    /// Validation options for events
    pub events: WithParamsRules,
    /// Validation options for functions
    pub functions: FunctionConfig,
    /// Validation options for modifiers
    pub modifiers: WithParamsRules,
    /// Validation options for structs
    pub structs: WithParamsRules,
    /// Validation options for state variables
    pub variables: VariableConfig,
}

/// The validation options taken from a config
pub open spec fn options_of(c: Config) -> ValidationOptions {
    ValidationOptions {
        inheritdoc: c.lintspec.inheritdoc,
        inheritdoc_override: c.lintspec.inheritdoc_override,
        notice_or_dev: c.lintspec.notice_or_dev,
        contracts: c.contracts,
        interfaces: c.interfaces,
        libraries: c.libraries,
        constructors: c.constructors,
        enums: c.enums,
        errors: c.errors,
        events: c.events,
        functions: c.functions,
        modifiers: c.modifiers,
        structs: c.structs,
        variables: c.variables,
    }
}

/// The default validation options
pub open spec fn spec_default_options() -> ValidationOptions {
    ValidationOptions {
        inheritdoc: true,
        inheritdoc_override: false,
        notice_or_dev: false,
        contracts: spec_default_contract_rules(),
        interfaces: spec_default_contract_rules(),
        libraries: spec_default_contract_rules(),
        constructors: WithParamsRules { notice: Req::Ignored, dev: Req::Ignored, param: Req::Required },
        enums: WithParamsRules { notice: Req::Required, dev: Req::Ignored, param: Req::Ignored },
        errors: WithParamsRules { notice: Req::Required, dev: Req::Ignored, param: Req::Required },
        events: WithParamsRules { notice: Req::Required, dev: Req::Ignored, param: Req::Required },
        functions: FunctionConfig {
            private: spec_default_function_rules(),
            internal: spec_default_function_rules(),
            public: spec_default_function_rules(),
            external: spec_default_function_rules(),
        },
        modifiers: WithParamsRules { notice: Req::Required, dev: Req::Ignored, param: Req::Required },
        structs: WithParamsRules { notice: Req::Required, dev: Req::Ignored, param: Req::Ignored },
        variables: VariableConfig {
            private: NoticeDevRules { notice: Req::Required, dev: Req::Ignored },
            internal: NoticeDevRules { notice: Req::Required, dev: Req::Ignored },
            public: WithReturnsRules {
                notice: Req::Required,
                dev: Req::Ignored,
                returns: Req::Required,
            },
        },
    }
}

impl Default for ValidationOptions {
    /// Get default validation options
    ///
    /// These match the default values of the [`Config`] struct.
    fn default() -> (o: Self)
        ensures
            o == spec_default_options(),
    {
        ValidationOptions {
            inheritdoc: true,
            inheritdoc_override: false,
            notice_or_dev: false,
            contracts: ContractRules::default(),
            interfaces: ContractRules::default(),
            libraries: ContractRules::default(),
            constructors: WithParamsRules::default_constructor(),
            enums: WithParamsRules::default(),
            errors: WithParamsRules::required(),
            events: WithParamsRules::required(),
            functions: FunctionConfig::default(),
            modifiers: WithParamsRules::required(),
            structs: WithParamsRules::default(),
            variables: VariableConfig::default(),
        }
    }
}

/// Create a [`ValidationOptions`] from a [`Config`] reference
impl From<&Config> for ValidationOptions {
    fn from(value: &Config) -> (o: Self) {
        ValidationOptions {
            inheritdoc: value.lintspec.inheritdoc,
            inheritdoc_override: value.lintspec.inheritdoc_override,
            notice_or_dev: value.lintspec.notice_or_dev,
            contracts: value.contracts,
            interfaces: value.interfaces,
            libraries: value.libraries,
            constructors: value.constructors,
            enums: value.enums,
            errors: value.errors,
            events: value.events,
            functions: value.functions,
            modifiers: value.modifiers,
            structs: value.structs,
            variables: value.variables,
        }
    }
}

/// Create a [`ValidationOptions`] from a [`Config`]
impl From<Config> for ValidationOptions {
    fn from(value: Config) -> (o: Self) {
        ValidationOptions::from(&value)
    }
}

impl vstd::std_specs::convert::FromSpecImpl<Config> for ValidationOptions {
    open spec fn obeys_from_spec() -> bool {
        true
    }

    open spec fn from_spec(value: Config) -> ValidationOptions {
        options_of(value)
    }
}

impl vstd::std_specs::convert::FromSpecImpl<&Config> for ValidationOptions {
    open spec fn obeys_from_spec() -> bool {
        true
    }

    open spec fn from_spec(value: &Config) -> ValidationOptions {
        options_of(*value)
    }
}

/// The options taken from the default config are the default options
pub proof fn lemma_default_config_options(c: Config)
    requires
        is_default_config(c),
    ensures
        options_of(c) == spec_default_options(),
{
}

/// Diagnostics for a single source item (function, struct, etc.)
#[derive(Debug)]
pub struct ItemDiagnostics {
    /// The parent contract, interface or library's name, if any
    pub parent: Option<Parent>,
    /// The type of this source item (function, struct, etc.)
    pub item_type: ItemType,
    /// The name of the item
    pub name: String,
    /// The span of the item (for function-like items, only the declaration without the body)
    pub span: TextRange,
    /// The diagnostics related to this item
    pub diags: Vec<Diagnostic>,
}

/// The mathematical value of an [`ItemDiagnostics`]
pub struct ItemDiagView {
    pub parent: Option<Parent>,
    pub item_type: ItemType,
    pub name: Seq<char>,
    pub span: TextRange,
    pub diags: Seq<DiagView>,
}

impl View for ItemDiagnostics {
    type V = ItemDiagView;

    open spec fn view(&self) -> ItemDiagView {
        ItemDiagView {
            parent: self.parent,
            item_type: self.item_type,
            name: self.name@,
            span: self.span,
            diags: diags_view(self.diags@),
        }
    }
}

/// A trait implemented by [`Definition`][crate::definitions::Definition] to validate the related `NatSpec`
pub trait Validate {
    /// Validate the definition and extract the relevant diagnostics
    fn validate(&self, options: &ValidationOptions) -> ItemDiagnostics;
}

/// The diagnostics of an item: those of `before` in order, then those of `sortable` ordered by the start of
/// their span, then those of `after` in order
pub open spec fn item_diags(
    before: Seq<DiagView>,
    sortable: Seq<DiagView>,
    after: Seq<DiagView>,
) -> Seq<DiagView> {
    before + stable_sort(sortable, start_key()) + after
}

proof fn lemma_diags_concat(a: Seq<Diagnostic>, b: Seq<Diagnostic>)
    ensures
        diags_view(a + b) == diags_view(a) + diags_view(b),
{
    assert(diags_view(a + b) =~= diags_view(a) + diags_view(b));
}

/// Move the diagnostics of `other` at the end of `out`
pub(crate) fn append_diags(out: &mut Vec<Diagnostic>, other: Vec<Diagnostic>)
    ensures
        diags_view(final(out)@) == diags_view(old(out)@) + diags_view(other@),
{
    let mut other = other;
    proof {
        lemma_diags_concat(out@, other@);
    }
    out.append(&mut other);
}

/// The values of a sequence of item diagnostics
pub open spec fn items_diag_view(v: Seq<ItemDiagnostics>) -> Seq<ItemDiagView> {
    v.map_values(|i: ItemDiagnostics| i@)
}

/// The key by which items are ordered: the byte offset where their span starts
pub open spec fn item_key() -> spec_fn(ItemDiagView) -> int {
    |i: ItemDiagView| i.span.start.utf8 as int
}

/// An item with its diagnostics ordered by the start of their span
pub open spec fn with_sorted_diags(item: ItemDiagView) -> ItemDiagView {
    ItemDiagView { diags: stable_sort(item.diags, start_key()), ..item }
}

/// The items of the definitions that have diagnostics, in order, each with its diagnostics ordered by span
pub open spec fn kept_items(defs: Seq<Definition>, options: ValidationOptions) -> Seq<ItemDiagView>
    decreases defs.len(),
{
    if defs.len() == 0 {
        Seq::empty()
    } else {
        let rest = kept_items(defs.drop_last(), options);
        let item = defs.last().spec_item(options);
        if item.diags.len() == 0 {
            rest
        } else {
            rest.push(with_sorted_diags(item))
        }
    }
}

/// The diagnostics of a document: the items that have diagnostics, ordered by the start of their span
pub open spec fn lint_items(defs: Seq<Definition>, options: ValidationOptions) -> Seq<ItemDiagView> {
    stable_sort(kept_items(defs, options), item_key())
}

/// Sort items by the start of their span, keeping the order of those that start at the same offset
pub fn sort_items_by_start(v: Vec<ItemDiagnostics>) -> (r: Vec<ItemDiagnostics>)
    ensures
        items_diag_view(r@) == stable_sort(items_diag_view(v@), item_key()),
{
    let ghost orig = items_diag_view(v@);
    let mut v = v;
    let mut r: Vec<ItemDiagnostics> = Vec::new();
    let mut k: usize = 0;
    let n = v.len();
    proof {
        assert(orig.take(0) =~= Seq::<ItemDiagView>::empty());
        assert(items_diag_view(r@) =~= Seq::<ItemDiagView>::empty());
        assert(orig.skip(0) =~= orig);
    }
    while v.len() > 0
        invariant
            k <= orig.len(),
            orig.len() == n,
            k + v@.len() == n,
            items_diag_view(r@) == stable_sort(orig.take(k as int), item_key()),
            items_diag_view(v@) == orig.skip(k as int),
        decreases v@.len(),
    {
        let ghost v_before = v@;
        let d = v.remove(0);
        proof {
            assert(d@ == items_diag_view(v_before)[0]);
            assert(items_diag_view(v@) =~= items_diag_view(v_before).drop_first());
            assert(orig.take(k + 1).drop_last() =~= orig.take(k as int));
            assert(orig.take(k + 1).last() == d@);
            assert(orig.skip(k + 1) =~= orig.skip(k as int).drop_first());
        }
        let key = d.span.start.utf8;
        let mut pos: usize = 0;
        while pos < r.len() && r[pos].span.start.utf8 <= key
            invariant
                pos <= r@.len(),
                forall|j: int| 0 <= j < pos ==> #[trigger] r@[j].span.start.utf8 <= key,
            decreases r@.len() - pos,
        {
            pos = pos + 1;
        }
        let ghost r_before = items_diag_view(r@);
        proof {
            assert forall|j: int| 0 <= j < pos implies (item_key())(#[trigger] r_before[j]) <= (
            item_key())(d@) by {
                assert(r_before[j] == r@[j]@);
            }
            if pos < r_before.len() {
                assert(r_before[pos as int] == r@[pos as int]@);
            }
            lemma_insert_at(r_before, d@, item_key(), pos as int);
        }
        r.insert(pos, d);
        proof {
            assert(items_diag_view(r@) =~= r_before.insert(pos as int, d@));
        }
        k = k + 1;
    }
    proof {
        assert(orig.take(k as int) =~= orig);
    }
    r
}

/// Validate each definition, keep the items that have diagnostics and order them (and their diagnostics) by
/// the start of their span
pub fn lint_definitions(definitions: Vec<Definition>, options: &ValidationOptions) -> (items: Vec<
    ItemDiagnostics,
>)
    requires
        forall|i: int| 0 <= i < definitions@.len() ==> #[trigger] definitions@[i].well_formed(),
    ensures
        items_diag_view(items@) == lint_items(definitions@, *options),
{
    let ghost defs = definitions@;
    let mut rest = definitions;
    let mut kept: Vec<ItemDiagnostics> = Vec::new();
    let n = rest.len();
    let mut k: usize = 0;
    proof {
        assert(defs.skip(0) =~= defs);
        assert(items_diag_view(kept@) =~= kept_items(defs.take(0), *options));
    }
    while rest.len() > 0
        invariant
            k + rest@.len() == n,
            n == defs.len(),
            rest@ == defs.skip(k as int),
            forall|i: int| 0 <= i < defs.len() ==> #[trigger] defs[i].well_formed(),
            items_diag_view(kept@) == kept_items(defs.take(k as int), *options),
        decreases rest@.len(),
    {
        let ghost before = rest@;
        let def = rest.remove(0);
        proof {
            assert(def == defs[k as int]);
            assert(rest@ =~= defs.skip(k + 1));
            assert(defs.take(k + 1).drop_last() =~= defs.take(k as int));
            assert(defs.take(k + 1).last() == def);
        }
        let item = def.validate(options);
        if item.diags.len() > 0 {
            let ItemDiagnostics { parent, item_type, name, span, diags } = item;
            let sorted = sort_by_start(diags);
            let ghost kept_before = items_diag_view(kept@);
            let it = ItemDiagnostics { parent, item_type, name, span, diags: sorted };
            kept.push(it);
            proof {
                assert(items_diag_view(kept@) =~= kept_before.push(it@));
                assert(it@ == with_sorted_diags(def.spec_item(*options)));
            }
        } else {
            proof {
                assert(def.spec_item(*options).diags.len() == 0);
            }
        }
        k = k + 1;
    }
    proof {
        assert(defs.take(k as int) =~= defs);
    }
    sort_items_by_start(kept)
}

/// Diagnostics for a single Solidity file
#[derive(Debug)]
pub struct FileDiagnostics {
    /// Path to the file
    pub path: String,
    /// A unique ID for the document given by the parser
    pub document_id: DocumentId,
    /// Diagnostics, grouped by source item (function, struct, etc.)
    pub items: Vec<ItemDiagnostics>,
}

/// Lint a parsed document: validate its definitions and group the diagnostics by source item
///
/// There is no result when no item has any diagnostic.
pub fn lint_document(path: String, document: ParsedDocument, options: &ValidationOptions) -> (r: Option<
    FileDiagnostics,
>)
    requires
        forall|i: int|
            0 <= i < document.definitions@.len() ==> #[trigger] document.definitions@[i].well_formed(),
    ensures
        match r {
            Some(f) => {
                &&& f.path@ == path@
                &&& f.document_id == document.id
                &&& items_diag_view(f.items@) == lint_items(document.definitions@, *options)
                &&& f.items@.len() > 0
            },
            None => lint_items(document.definitions@, *options).len() == 0,
        },
{
    let ParsedDocument { id, definitions } = document;
    let items = lint_definitions(definitions, options);
    if items.len() == 0 {
        None
    } else {
        Some(FileDiagnostics { path, document_id: id, items })
    }
}

/// The lines of a list of diagnostics in the compact output: each message, indented by two spaces
pub open spec fn diag_lines(diags: Seq<DiagView>) -> Seq<char>
    decreases diags.len(),
{
    if diags.len() == 0 {
        Seq::empty()
    } else {
        diag_lines(diags.drop_last()) + "  "@ + diags.last().message + "\n"@
    }
}

/// The compact output for a source item: its location, its type, parent and name, and its diagnostics,
/// followed by an empty line
pub open spec fn compact_text(item: ItemDiagView, source_name: Seq<char>) -> Seq<char> {
    let header = match item.parent {
        Some(p) => item_type_display(item.item_type) + " "@ + parent_name(p) + "."@ + item.name,
        None => item_type_display(item.item_type) + " "@ + item.name,
    };
    source_name + ":"@ + location_text(item.span.start) + "\n"@ + header + "\n"@ + diag_lines(item.diags)
        + "\n"@
}

impl ItemDiagnostics {
    /// The diagnostics for a single source item in a compact format
    ///
    /// The `source_name` is the display name for the file (typically a relative path from the working
    /// directory).
    pub fn print_compact(&self, source_name: &str) -> (s: String)
        ensures
            s@ == compact_text(self@, source_name@),
    {
        let mut s = source_name.to_owned();
        push_str(&mut s, ":");
        let location = self.span.start.to_string();
        push_str(&mut s, location.as_str());
        push_str(&mut s, "\n");
        let kind = self.item_type.to_string();
        push_str(&mut s, kind.as_str());
        push_str(&mut s, " ");
        match &self.parent {
            Some(p) => {
                let parent = p.to_string();
                push_str(&mut s, parent.as_str());
                push_str(&mut s, ".");
            },
            None => {},
        }
        push_str(&mut s, self.name.as_str());
        push_str(&mut s, "\n");
        let ghost head = s@;
        let mut i: usize = 0;
        while i < self.diags.len()
            invariant
                i <= self.diags@.len(),
                s@ == head + diag_lines(diags_view(self.diags@).take(i as int)),
            decreases self.diags@.len() - i,
        {
            push_str(&mut s, "  ");
            push_str(&mut s, self.diags[i].message.as_str());
            push_str(&mut s, "\n");
            proof {
                let t = diags_view(self.diags@).take(i + 1);
                assert(t.drop_last() =~= diags_view(self.diags@).take(i as int));
                assert(t.last() == self.diags@[i as int]@);
                assert(s@ =~= head + diag_lines(t));
            }
            i = i + 1;
        }
        push_str(&mut s, "\n");
        proof {
            assert(diags_view(self.diags@).take(i as int) =~= diags_view(self.diags@));
            assert(s@ =~= compact_text(self@, source_name@));
        }
        s
    }
}

} // verus!
