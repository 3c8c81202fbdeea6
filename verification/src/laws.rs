//! Properties of the checks that hold for all inputs
use vstd::prelude::*;

use crate::comment::{
    block_item, block_items, kind_at, line_ending_at, more_block_items, parse_comment_spec, single_item,
    skip_spaces, CommentError, Delimiter,
};
use crate::config::Req;
use crate::definitions::{
    contract_type_name, ident_name, item_type_display, item_type_name, ContractType, Definition,
    FunctionDefinition, Identifier, ItemType, ModifierDefinition, Parent, VariableDeclaration, Visibility,
};
use crate::error::Error;
use crate::items::{describes, name_or, parent_at, SolItem, SolItemKind};
use crate::lint::{
    return_count_diags, return_diag, unnamed_return_msg, count_param_diags, diag, extra_param_diags, missing_param_diags, has_ident_named, item_key, kind_rule_diag, lint_items,
    natspec_items, notice_dev_diags, opt_has_kind, opt_seq, param_count_diag, params_diags,
    returns_diags, start_key, DiagView, ValidationOptions,
};
use crate::natspec::{
    first_word, trim_start, is_return, count_kind, is_inheritdoc, is_param_named, populate_return_spec, ItemView, KindView,
};
use crate::overrides::override_req;
use crate::sort::{lemma_stable_sort, sorted_by, stable_sort};
use crate::text::ascii_lower_codes;
use crate::textindex::TextRange;

verus! {

/// An ignored tag never gives a diagnostic: not for params, returns, or any single tag
pub proof fn lemma_ignored_rule(
    natspec: Option<Seq<ItemView>>,
    items: Seq<Identifier>,
    span: TextRange,
    is_var: bool,
    f: spec_fn(KindView) -> bool,
    tag: Seq<char>,
)
    ensures
        params_diags(natspec, Req::Ignored, items, span) == Seq::<DiagView>::empty(),
        returns_diags(natspec, Req::Ignored, items, span, is_var) == Seq::<DiagView>::empty(),
        kind_rule_diag(natspec, Req::Ignored, f, span, tag) is None,
{
}

/// Without any `NatSpec`, a forbidden tag never gives a diagnostic
pub proof fn lemma_forbidden_without_natspec(
    items: Seq<Identifier>,
    span: TextRange,
    is_var: bool,
    f: spec_fn(KindView) -> bool,
    tag: Seq<char>,
)
    ensures
        params_diags(None, Req::Forbidden, items, span) == Seq::<DiagView>::empty(),
        returns_diags(None, Req::Forbidden, items, span, is_var) == Seq::<DiagView>::empty(),
        kind_rule_diag(None, Req::Forbidden, f, span, tag) is None,
{
}

/// With `notice_or_dev`, when neither tag is forbidden and either is present, `@notice` and `@dev` give no
/// diagnostic
pub proof fn lemma_notice_or_dev(natspec: Option<Seq<ItemView>>, notice_rule: Req, dev_rule: Req, span: TextRange)
    requires
        notice_rule != Req::Forbidden,
        dev_rule != Req::Forbidden,
        opt_has_kind(natspec, crate::natspec::is_notice()) || opt_has_kind(natspec, crate::natspec::is_dev()),
    ensures
        notice_dev_diags(natspec, notice_rule, dev_rule, true, span) == Seq::<DiagView>::empty(),
{
}

/// With `notice_or_dev`, when either tag is required and neither is forbidden, an item with neither tag gets the
/// one diagnostic that asks for either
pub proof fn lemma_notice_or_dev_missing(
    natspec: Option<Seq<ItemView>>,
    notice_rule: Req,
    dev_rule: Req,
    span: TextRange,
)
    requires
        notice_rule == Req::Required || dev_rule == Req::Required,
        notice_rule != Req::Forbidden,
        dev_rule != Req::Forbidden,
        !opt_has_kind(natspec, crate::natspec::is_notice()),
        !opt_has_kind(natspec, crate::natspec::is_dev()),
    ensures
        notice_dev_diags(natspec, notice_rule, dev_rule, true, span) == seq![
            diag(span, "@notice or @dev is missing"@),
        ],
{
}

/// The `notice_or_dev` setting has no effect where `@notice` or `@dev` is forbidden
pub proof fn lemma_notice_or_dev_forbidden(
    natspec: Option<Seq<ItemView>>,
    notice_rule: Req,
    dev_rule: Req,
    span: TextRange,
)
    requires
        notice_rule == Req::Forbidden || dev_rule == Req::Forbidden,
    ensures
        notice_dev_diags(natspec, notice_rule, dev_rule, true, span) == notice_dev_diags(
            natspec,
            notice_rule,
            dev_rule,
            false,
            span,
        ),
{
}

/// A function with `@inheritdoc` gives no diagnostic, and neither do `receive` and `fallback`
pub proof fn lemma_function_no_diags(f: FunctionDefinition, options: ValidationOptions)
    requires
        opt_has_kind(natspec_items(f.natspec), is_inheritdoc()) || f.name@ == "receive"@ || f.name@
            == "fallback"@,
    ensures
        f.spec_diags(options) == Seq::<DiagView>::empty(),
{
}

/// A modifier or a state variable with `@inheritdoc` gives no diagnostic
pub proof fn lemma_inheritdoc_no_diags(
    m: ModifierDefinition,
    v: VariableDeclaration,
    options: ValidationOptions,
)
    ensures
        opt_has_kind(natspec_items(m.natspec), is_inheritdoc()) ==> m.spec_diags(options)
            == Seq::<DiagView>::empty(),
        opt_has_kind(natspec_items(v.natspec), is_inheritdoc()) ==> v.spec_diags(options)
            == Seq::<DiagView>::empty(),
{
}

/// The items reported for a document are ordered by the start of their span, each has at least one diagnostic,
/// and its diagnostics are ordered by the start of their span
pub proof fn lemma_lint_items(defs: Seq<Definition>, options: ValidationOptions)
    ensures
        sorted_by(lint_items(defs, options), item_key()),
        forall|i: int|
            0 <= i < lint_items(defs, options).len() ==> #[trigger] lint_items(defs, options)[i].diags.len()
                > 0 && sorted_by(lint_items(defs, options)[i].diags, start_key()),
    decreases defs.len(),
{
    broadcast use vstd::seq_lib::group_to_multiset_ensures;

    let kept = crate::lint::kept_items(defs, options);
    lemma_stable_sort(kept, item_key());
    lemma_kept_items(defs, options);
    let sorted = lint_items(defs, options);
    assert forall|i: int| 0 <= i < sorted.len() implies #[trigger] sorted[i].diags.len() > 0 && sorted_by(
        sorted[i].diags,
        start_key(),
    ) by {
        assert(sorted.to_multiset().count(sorted[i]) > 0);
        assert(kept.to_multiset().count(sorted[i]) > 0);
        assert(kept.contains(sorted[i]));
    }
}

proof fn lemma_kept_items(defs: Seq<Definition>, options: ValidationOptions)
    ensures
        forall|i: int|
            0 <= i < crate::lint::kept_items(defs, options).len() ==> #[trigger] crate::lint::kept_items(
                defs,
                options,
            )[i].diags.len() > 0 && sorted_by(
                crate::lint::kept_items(defs, options)[i].diags,
                start_key(),
            ),
    decreases defs.len(),
{
    if defs.len() > 0 {
        lemma_kept_items(defs.drop_last(), options);
        let item = defs.last().spec_item(options);
        lemma_stable_sort(item.diags, start_key());
        broadcast use vstd::seq_lib::group_to_multiset_ensures;

        assert(stable_sort(item.diags, start_key()).len() == item.diags.len());
    }
}

/// The names of the contract types are told apart regardless of the case of ASCII letters, so parsing the name
/// of a contract type gives it back
pub proof fn lemma_contract_type_names(t: ContractType, u: ContractType)
    ensures
        ascii_lower_codes(contract_type_name(t)) == ascii_lower_codes(contract_type_name(u)) ==> t == u,
{
    reveal_strlit("contract");
    reveal_strlit("interface");
    reveal_strlit("library");
    if ascii_lower_codes(contract_type_name(t)) == ascii_lower_codes(contract_type_name(u)) {
        assert(contract_type_name(t).len() == ascii_lower_codes(contract_type_name(t)).len());
        assert(contract_type_name(u).len() == ascii_lower_codes(contract_type_name(u)).len());
    }
}

/// Item types have distinct names, so parsing the name of an item type gives it back; the shown text of an
/// item type other than a function or a variable is its name
pub proof fn lemma_item_type_names(t: ItemType, u: ItemType)
    ensures
        item_type_name(t) == item_type_name(u) ==> t == u,
        !(t is PrivateFunction || t is InternalFunction || t is PublicFunction || t is ExternalFunction
            || t is PrivateVariable || t is InternalVariable || t is PublicVariable) ==> item_type_display(t)
            == item_type_name(t),
{
    reveal_strlit("contract");
    reveal_strlit("interface");
    reveal_strlit("library");
    reveal_strlit("constructor");
    reveal_strlit("enum");
    reveal_strlit("error");
    reveal_strlit("event");
    reveal_strlit("private_function");
    reveal_strlit("internal_function");
    reveal_strlit("public_function");
    reveal_strlit("external_function");
    reveal_strlit("modifier");
    reveal_strlit("parsing_error");
    reveal_strlit("struct");
    reveal_strlit("private_variable");
    reveal_strlit("internal_variable");
    reveal_strlit("public_variable");
    if item_type_name(t) == item_type_name(u) && t != u {
        let a = item_type_name(t);
        let b = item_type_name(u);
        assert(a.len() == b.len());
        assert(a[0] == b[0]);
        assert(a[1] == b[1]);
        assert(a[7] == b[7]);
        assert(a[8] == b[8]);
        assert(a[9] == b[9]);
    }
}

/// A command line list that forbids a tag takes precedence over one that requires it, which takes precedence
/// over one that ignores it
pub proof fn lemma_override_precedence(old: Req, ignored: bool, required: bool)
    ensures
        override_req(old, ignored, required, true) == Req::Forbidden,
        override_req(old, ignored, true, false) == Req::Required,
        override_req(old, true, false, false) == Req::Ignored,
        override_req(old, false, false, false) == old,
{
}

/// Four slashes or three stars do not start a doc-comment
pub proof fn lemma_parse_rejects_extra_delimiter(s: Seq<char>)
    ensures
        s.len() >= 4 && s.take(4) == "////"@ ==> parse_comment_spec(s) == Err::<
            (Seq<ItemView>, int),
            CommentError,
        >(CommentError::Delimiter(Delimiter::SingleLine)),
        s.len() >= 4 && s.take(4) == "/***"@ ==> parse_comment_spec(s) == Err::<
            (Seq<ItemView>, int),
            CommentError,
        >(CommentError::Delimiter(Delimiter::Block)),
{
    reveal_strlit("////");
    reveal_strlit("/***");
    reveal_strlit("///");
    reveal_strlit("/**");
    if s.len() >= 4 && s.take(4) == "////"@ {
        assert(s.take(4)[3] == s[3]);
        assert(s[3] == '/');
        assert(s.subrange(0, 3) =~= "///"@);
    }
    if s.len() >= 4 && s.take(4) == "/***"@ {
        assert(s.take(4)[3] == s[3]);
        assert(s.take(4)[2] == s[2]);
        assert(s[2] == '*');
        assert(s.subrange(0, 3)[2] == s[2]);
        assert(s.subrange(0, 3) != "///"@);
        assert(s.subrange(0, 3) =~= "/**"@);
        assert(s[3] == '*');
    }
}

/// A tag is never a named `@return`: the name of a return item is found afterwards
pub proof fn lemma_kind_return_unnamed(s: Seq<char>, p: int)
    ensures
        kind_at(s, p) matches Some((KindView::Return { name }, _)) ==> name is None,
{
}

/// Populating the returns keeps the other items as they are, and gives return items a name only when one of
/// the returns has it
pub proof fn lemma_populate_return(item: ItemView, rets: Seq<Identifier>)
    ensures
        !(item.kind is Return) ==> populate_return_spec(item, rets) == item,
        item.kind is Return ==> populate_return_spec(item, rets).kind is Return,
        populate_return_spec(item, rets).kind matches KindView::Return { name: Some(n) }
            ==> crate::lint::has_ident_named(rets, n),
{
}

/// An item whose params are all named, each documented exactly once, with no `@param` for anything else, gets
/// no `@param` diagnostic
pub proof fn lemma_params_documented(items: Seq<ItemView>, params: Seq<Identifier>, span: TextRange)
    requires
        forall|k: int| 0 <= k < params.len() ==> (#[trigger] params[k]).name is Some,
        forall|k: int|
            0 <= k < params.len() ==> count_kind(
                items,
                is_param_named(ident_name(#[trigger] params[k])->0),
            ) == 1,
        forall|j: int|
            0 <= j < items.len() ==> (#[trigger] items[j].kind matches KindView::Param { name }
                ==> has_ident_named(params, name)),
    ensures
        params_diags(Some(items), Req::Required, params, span) == Seq::<DiagView>::empty(),
{
    lemma_no_extra(items, params, span);
    lemma_no_count(items, params);
    assert(Seq::<DiagView>::empty() + Seq::<DiagView>::empty() =~= Seq::<DiagView>::empty());
}

proof fn lemma_no_extra(items: Seq<ItemView>, params: Seq<Identifier>, span: TextRange)
    requires
        forall|j: int|
            0 <= j < items.len() ==> (#[trigger] items[j].kind matches KindView::Param { name }
                ==> has_ident_named(params, name)),
    ensures
        extra_param_diags(items, params, span) == Seq::<DiagView>::empty(),
    decreases items.len(),
{
    if items.len() > 0 {
        assert forall|j: int| 0 <= j < items.drop_last().len() implies (
        #[trigger] items.drop_last()[j].kind matches KindView::Param { name } ==> has_ident_named(
            params,
            name,
        )) by {
            assert(items.drop_last()[j] == items[j]);
        }
        lemma_no_extra(items.drop_last(), params, span);
        assert(items.last() == items[items.len() - 1]);
    }
}

proof fn lemma_no_count(items: Seq<ItemView>, params: Seq<Identifier>)
    requires
        forall|k: int| 0 <= k < params.len() ==> (#[trigger] params[k]).name is Some,
        forall|k: int|
            0 <= k < params.len() ==> count_kind(
                items,
                is_param_named(ident_name(#[trigger] params[k])->0),
            ) == 1,
    ensures
        count_param_diags(items, params) == Seq::<DiagView>::empty(),
    decreases params.len(),
{
    if params.len() > 0 {
        let init = params.drop_last();
        assert forall|k: int| 0 <= k < init.len() implies (#[trigger] init[k]).name is Some by {
            assert(init[k] == params[k]);
        }
        assert forall|k: int| 0 <= k < init.len() implies count_kind(
            items,
            is_param_named(ident_name(#[trigger] init[k])->0),
        ) == 1 by {
            assert(init[k] == params[k]);
        }
        lemma_no_count(items, init);
        let p = params.last();
        assert(p == params[params.len() - 1]);
        assert(param_count_diag(items, p) is None);
        assert(Seq::<DiagView>::empty() + opt_seq(param_count_diag(items, p)) =~= Seq::<DiagView>::empty());
    }
}

proof fn lemma_item_return_unnamed(s: Seq<char>, p: int)
    ensures
        single_item(s, p) matches Some((item, _)) ==> (item.kind matches KindView::Return { name }
            ==> name is None),
        block_item(s, p) matches Some((item, _)) ==> (item.kind matches KindView::Return { name }
            ==> name is None),
{
}

proof fn lemma_more_block_items_unnamed(s: Seq<char>, p: int)
    ensures
        forall|i: int|
            0 <= i < more_block_items(s, p).0.len() ==> (#[trigger] more_block_items(s, p).0[i].kind matches KindView::Return {
                name,
            } ==> name is None),
    decreases s.len() - p,
{
    match line_ending_at(s, p) {
        None => {},
        Some(p2) => match block_item(s, p2) {
            None => {},
            Some((item, p3)) => {
                if !(p3 <= p || p3 > s.len()) {
                    lemma_item_return_unnamed(s, p2);
                    lemma_more_block_items_unnamed(s, p3);
                    let rest = more_block_items(s, p3).0;
                    let all = more_block_items(s, p).0;
                    assert(all == seq![item] + rest);
                    assert forall|i: int| 0 <= i < all.len() implies (#[trigger] all[i].kind matches KindView::Return {
                        name,
                    } ==> name is None) by {
                        if i > 0 {
                            assert(all[i] == rest[i - 1]);
                        }
                    }
                }
            },
        },
    }
}

/// The items that the parser gives carry no return name: the name of a return item is found afterwards
pub proof fn lemma_parse_returns_unnamed(s: Seq<char>)
    ensures
        parse_comment_spec(s) matches Ok((items, _)) ==> forall|i: int|
            0 <= i < items.len() ==> (#[trigger] items[i].kind matches KindView::Return { name }
                ==> name is None),
{
    lemma_item_return_unnamed(s, 3);
    let p = skip_spaces(s, 3);
    let p1 = match line_ending_at(s, p) {
        Some(q) => q,
        None => p,
    };
    lemma_item_return_unnamed(s, p1);
    match block_item(s, p1) {
        Some((item, e)) => {
            lemma_more_block_items_unnamed(s, e);
            let all = block_items(s, p1).0;
            let rest = more_block_items(s, e).0;
            assert(all == seq![item] + rest);
            assert forall|i: int| 0 <= i < all.len() implies (#[trigger] all[i].kind matches KindView::Return {
                name,
            } ==> name is None) by {
                if i > 0 {
                    assert(all[i] == rest[i - 1]);
                }
            }
        },
        None => {},
    }
}

/// Unnamed params cannot be documented with `@param`: they never get a missing or count diagnostic, with or
/// without a comment
pub proof fn lemma_unnamed_params_silent(items: Seq<ItemView>, params: Seq<Identifier>)
    requires
        forall|k: int| 0 <= k < params.len() ==> (#[trigger] params[k]).name is None,
    ensures
        count_param_diags(items, params) == Seq::<DiagView>::empty(),
        missing_param_diags(params) == Seq::<DiagView>::empty(),
    decreases params.len(),
{
    if params.len() > 0 {
        assert(params.last() == params[params.len() - 1]);
        lemma_unnamed_params_silent(items, params.drop_last());
        assert(opt_seq(param_count_diag(items, params.last())) =~= Seq::<DiagView>::empty());
        assert(Seq::<DiagView>::empty() + Seq::<DiagView>::empty() =~= Seq::<DiagView>::empty());
    }
}

/// With `inheritdoc` set, a public or external function of a contract (other than `receive` and `fallback`)
/// without an `@inheritdoc` item gets exactly one diagnostic: `@inheritdoc is missing`, over its span
pub proof fn lemma_public_external_function_needs_inheritdoc(f: FunctionDefinition, options: ValidationOptions)
    requires
        options.inheritdoc,
        f.parent matches Some(Parent::Contract(_)),
        f.attributes.visibility == Visibility::External || f.attributes.visibility == Visibility::Public,
        f.name@ != "receive"@,
        f.name@ != "fallback"@,
        !opt_has_kind(natspec_items(f.natspec), is_inheritdoc()),
    ensures
        f.spec_diags(options) == seq![diag(f.span, "@inheritdoc is missing"@)],
{
}

/// A diagnostic of one return is among the diagnostics of all the returns
proof fn lemma_return_diag_listed(items: Seq<ItemView>, rets: Seq<Identifier>, idx: int, is_var: bool)
    requires
        0 <= idx < rets.len(),
        return_diag(items, idx as nat, rets[idx], is_var) is Some,
    ensures
        return_count_diags(items, rets, is_var).contains(
            return_diag(items, idx as nat, rets[idx], is_var)->Some_0,
        ),
    decreases rets.len(),
{
    let d = return_diag(items, idx as nat, rets[idx], is_var)->Some_0;
    let front = return_count_diags(items, rets.drop_last(), is_var);
    let last = opt_seq(return_diag(items, (rets.len() - 1) as nat, rets.last(), is_var));
    assert(return_count_diags(items, rets, is_var) == front + last);
    if idx == rets.len() - 1 {
        assert(last == seq![d]);
        assert((front + last)[front.len() as int] == d);
    } else {
        assert(rets.drop_last()[idx] == rets[idx]);
        lemma_return_diag_listed(items, rets.drop_last(), idx, is_var);
        let j = choose|j: int| 0 <= j < front.len() && front[j] == d;
        assert((front + last)[j] == d);
    }
}

/// Where `@return` is required and a `NatSpec` is present, an unnamed return at position `idx` is reported as
/// undocumented whenever the `NatSpec` has at most `idx` `@return` items (so, without any `@return` item,
/// every unnamed return is reported)
pub proof fn lemma_unnamed_return_undocumented(
    items: Seq<ItemView>,
    rets: Seq<Identifier>,
    idx: int,
    span: TextRange,
    is_var: bool,
)
    requires
        0 <= idx < rets.len(),
        rets[idx].name is None,
        count_kind(items, is_return()) <= idx,
    ensures
        returns_diags(Some(items), Req::Required, rets, span, is_var).contains(
            diag(rets[idx].span, unnamed_return_msg(is_var, idx as nat)),
        ),
{
    lemma_return_diag_listed(items, rets, idx, is_var);
    let all = return_count_diags(items, rets, is_var);
    let d = diag(rets[idx].span, unnamed_return_msg(is_var, idx as nat));
    let j = choose|j: int| 0 <= j < all.len() && all[j] == d;
    let r = returns_diags(Some(items), Req::Required, rets, span, is_var);
    assert(r[j] == d);
}

/// An item whose parent is an abstract contract named `N` has the parent `Parent::Contract(N)`, as in a plain
/// contract; the function made from it has that parent
pub proof fn lemma_abstract_contract_parent(items: Seq<SolItem>, i: int, p: usize, d: Definition)
    requires
        0 <= i < items.len(),
        items[i].parent == Some(p),
        p < items.len(),
        items[p as int].kind == SolItemKind::AbstractContract,
        describes(items, i, d),
    ensures
        parent_at(items, i) == Some((SolItemKind::Contract, name_or(items[p as int].name, Seq::empty()))),
        contract_parent_of(d) matches Some(parent) ==> parent matches Some(Parent::Contract(n)) && n@
            == name_or(items[p as int].name, Seq::empty()),
        d is Function ==> contract_parent_of(d) is Some,
{
}

/// The parent of a definition of an item that can sit in a contract's body
pub open spec fn contract_parent_of(d: Definition) -> Option<Option<Parent>> {
    match d {
        Definition::Constructor(c) => Some(c.parent),
        Definition::Function(c) => Some(c.parent),
        Definition::Modifier(c) => Some(c.parent),
        Definition::Variable(c) => Some(c.parent),
        Definition::Struct(c) => Some(c.parent),
        Definition::Enumeration(c) => Some(c.parent),
        Definition::Error(c) => Some(c.parent),
        Definition::Event(c) => Some(c.parent),
        Definition::NatspecParsingError(Error::NatspecParsingError { parent, .. }) => Some(parent),
        _ => None,
    }
}

/// A block comment gives one item per line: after a line ending, the item of the next line (whatever it holds,
/// an empty one too) comes next, followed by the items of the lines after it
pub proof fn lemma_block_line_item(s: Seq<char>, p: int, p2: int, item: ItemView, p3: int)
    requires
        line_ending_at(s, p) == Some(p2),
        block_item(s, p2) == Some((item, p3)),
        p < p3 <= s.len(),
    ensures
        more_block_items(s, p).0 == seq![item] + more_block_items(s, p3).0,
        more_block_items(s, p).1 == more_block_items(s, p3).1,
{
}

/// The items of a block start with the item of its first line, followed by those of the next lines
pub proof fn lemma_block_first_item(s: Seq<char>, p: int, item: ItemView, p1: int)
    requires
        block_item(s, p) == Some((item, p1)),
    ensures
        block_items(s, p).0 == seq![item] + more_block_items(s, p1).0,
        block_items(s, p).1 == more_block_items(s, p1).1,
{
}

/// A `@return` item whose comment starts with the name of one of the returns (at any position) is named after
/// that return
pub proof fn lemma_return_named_by_any(item: ItemView, rets: Seq<Identifier>, j: int, w: Seq<char>)
    requires
        item.kind is Return,
        first_word(item.comment) == Some(w),
        0 <= j < rets.len(),
        ident_name(rets[j]) == Some(w),
    ensures
        populate_return_spec(item, rets).kind == (KindView::Return { name: Some(w) }),
        w.is_prefix_of(item.comment) ==> populate_return_spec(item, rets).comment == trim_start(
            item.comment.skip(w.len() as int),
        ),
{
    assert(has_ident_named(rets, w));
}

} // verus!
