//! `NatSpec` comments: their items, and the parser of Solidity doc-comments.
use vstd::prelude::*;

use crate::comment::{char_is_whitespace, ident_end, is_whitespace, items_view};
use crate::definitions::{ident_name, Identifier};
use crate::lint::has_ident_named;
use crate::text::push_char;
use crate::textindex::chars_of;

verus! {

/// The kind of a `NatSpec` item
#[derive(Debug, Clone, PartialEq, Eq)]
pub enum NatSpecKind {
    Title,
    Author,
    Notice,
    Dev,
    Param { name: String },
    /// For return items, [`parse_comment`] does not include the return name automatically. The
    /// [`NatSpecItem::populate_return`] function must be called to retrieve the name, if any.
    Return { name: Option<String> },
    Inheritdoc { parent: String },
    Custom { tag: String },
}

/// The mathematical value of a [`NatSpecKind`]
pub enum KindView {
    Title,
    Author,
    Notice,
    Dev,
    Param { name: Seq<char> },
    Return { name: Option<Seq<char>> },
    Inheritdoc { parent: Seq<char> },
    Custom { tag: Seq<char> },
}

impl View for NatSpecKind {
    type V = KindView;

    open spec fn view(&self) -> KindView {
        match self {
            NatSpecKind::Title => KindView::Title,
            NatSpecKind::Author => KindView::Author,
            NatSpecKind::Notice => KindView::Notice,
            NatSpecKind::Dev => KindView::Dev,
            NatSpecKind::Param { name } => KindView::Param { name: name@ },
            NatSpecKind::Return { name } => KindView::Return {
                name: match name {
                    Some(n) => Some(n@),
                    None => None,
                },
            },
            NatSpecKind::Inheritdoc { parent } => KindView::Inheritdoc { parent: parent@ },
            NatSpecKind::Custom { tag } => KindView::Custom { tag: tag@ },
        }
    }
}

/// A single `NatSpec` item
#[derive(Debug, Clone, PartialEq, Eq)]
pub struct NatSpecItem {
    /// The kind of `NatSpec` (notice, dev, param, etc.)
    pub kind: NatSpecKind,
    /// The comment associated with this `NatSpec` item
    pub comment: String,
}

/// The mathematical value of a [`NatSpecItem`]
pub struct ItemView {
    pub kind: KindView,
    pub comment: Seq<char>,
}

impl View for NatSpecItem {
    type V = ItemView;

    open spec fn view(&self) -> ItemView {
        ItemView { kind: self.kind@, comment: self.comment@ }
    }
}

/// A collection of `NatSpec` items corresponding to a source item (function, struct, etc.)
#[derive(Debug, Clone, PartialEq, Eq)]
pub struct NatSpec {
    pub items: Vec<NatSpecItem>,
}

impl View for NatSpec {
    type V = Seq<ItemView>;

    open spec fn view(&self) -> Seq<ItemView> {
        self.items@.map_values(|i: NatSpecItem| i@)
    }
}

impl Default for NatSpec {
    fn default() -> (n: NatSpec)
        ensures
            n@ == Seq::<ItemView>::empty(),
    {
        NatSpec { items: Vec::new() }
    }
}

/// Number of items of `items` whose kind satisfies `f`
pub open spec fn count_kind(items: Seq<ItemView>, f: spec_fn(KindView) -> bool) -> nat
    decreases items.len(),
{
    if items.len() == 0 {
        0
    } else {
        count_kind(items.drop_last(), f) + if f(items.last().kind) {
            1nat
        } else {
            0nat
        }
    }
}

/// Some item of `items` has a kind that satisfies `f`
pub open spec fn has_kind(items: Seq<ItemView>, f: spec_fn(KindView) -> bool) -> bool {
    exists|i: int| 0 <= i < items.len() && f(#[trigger] items[i].kind)
}

/// A `@param` item documenting `name`
pub open spec fn is_param_named(name: Seq<char>) -> spec_fn(KindView) -> bool {
    |k: KindView| k matches KindView::Param { name: n } && n == name
}

/// A `@return` item documenting the named return `name`
pub open spec fn is_return_named(name: Seq<char>) -> spec_fn(KindView) -> bool {
    |k: KindView| k matches KindView::Return { name: Some(n) } && n == name
}

/// A `@return` item without a name
pub open spec fn is_unnamed_return() -> spec_fn(KindView) -> bool {
    |k: KindView| k matches KindView::Return { name: None }
}

/// Any `@return` item
pub open spec fn is_return() -> spec_fn(KindView) -> bool {
    |k: KindView| k is Return
}

/// Any `@param` item
pub open spec fn is_param() -> spec_fn(KindView) -> bool {
    |k: KindView| k is Param
}

/// A `@notice` item
pub open spec fn is_notice() -> spec_fn(KindView) -> bool {
    |k: KindView| k is Notice
}

/// A `@dev` item
pub open spec fn is_dev() -> spec_fn(KindView) -> bool {
    |k: KindView| k is Dev
}

/// A `@title` item
pub open spec fn is_title() -> spec_fn(KindView) -> bool {
    |k: KindView| k is Title
}

/// An `@author` item
pub open spec fn is_author() -> spec_fn(KindView) -> bool {
    |k: KindView| k is Author
}

/// An `@inheritdoc` item
pub open spec fn is_inheritdoc() -> spec_fn(KindView) -> bool {
    |k: KindView| k is Inheritdoc
}

proof fn lemma_count_step(items: Seq<ItemView>, i: int, f: spec_fn(KindView) -> bool)
    requires
        0 <= i < items.len(),
    ensures
        count_kind(items.take(i + 1), f) == count_kind(items.take(i), f) + if f(items[i].kind) {
            1nat
        } else {
            0nat
        },
{
    assert(items.take(i + 1).drop_last() == items.take(i));
}

/// A predicate on the kind of items, evaluated while scanning a [`NatSpec`]
enum KindQuery<'a> {
    ParamNamed(&'a String),
    ReturnNamed(&'a String),
    UnnamedReturn,
    AnyReturn,
    AnyParam,
    Notice,
    Dev,
    Title,
    Author,
    Inheritdoc,
}

impl<'a> KindQuery<'a> {
    spec fn spec_fn(&self) -> spec_fn(KindView) -> bool {
        match self {
            KindQuery::ParamNamed(n) => is_param_named(n@),
            KindQuery::ReturnNamed(n) => is_return_named(n@),
            KindQuery::UnnamedReturn => is_unnamed_return(),
            KindQuery::AnyReturn => is_return(),
            KindQuery::AnyParam => is_param(),
            KindQuery::Notice => is_notice(),
            KindQuery::Dev => is_dev(),
            KindQuery::Title => is_title(),
            KindQuery::Author => is_author(),
            KindQuery::Inheritdoc => is_inheritdoc(),
        }
    }

    fn matches(&self, k: &NatSpecKind) -> (b: bool)
        ensures
            b == (self.spec_fn())(k@),
    {
        match (self, k) {
            (KindQuery::ParamNamed(n), NatSpecKind::Param { name }) => *name == **n,
            (KindQuery::ReturnNamed(n), NatSpecKind::Return { name: Some(name) }) => *name == **n,
            (KindQuery::UnnamedReturn, NatSpecKind::Return { name: None }) => true,
            (KindQuery::AnyReturn, NatSpecKind::Return { .. }) => true,
            (KindQuery::AnyParam, NatSpecKind::Param { .. }) => true,
            (KindQuery::Notice, NatSpecKind::Notice) => true,
            (KindQuery::Dev, NatSpecKind::Dev) => true,
            (KindQuery::Title, NatSpecKind::Title) => true,
            (KindQuery::Author, NatSpecKind::Author) => true,
            (KindQuery::Inheritdoc, NatSpecKind::Inheritdoc { .. }) => true,
            _ => false,
        }
    }
}

impl NatSpec {
    /// Count the items whose kind satisfies `f`
    fn count_where(&self, Ghost(f): Ghost<spec_fn(KindView) -> bool>, which: KindQuery) -> (c: usize)
        requires
            which.spec_fn() == f,
        ensures
            c == count_kind(self@, f),
    {
        let mut c: usize = 0;
        let mut i: usize = 0;
        while i < self.items.len()
            invariant
                i <= self.items@.len(),
                which.spec_fn() == f,
                c <= i,
                c == count_kind(self@.take(i as int), f),
            decreases self.items@.len() - i,
        {
            proof {
                lemma_count_step(self@, i as int, f);
            }
            if which.matches(&self.items[i].kind) {
                c = c + 1;
            }
            i = i + 1;
        }
        proof {
            assert(self@.take(self@.len() as int) == self@);
        }
        c
    }

    /// Whether some item's kind satisfies `f`
    fn has_where(&self, Ghost(f): Ghost<spec_fn(KindView) -> bool>, which: KindQuery) -> (b: bool)
        requires
            which.spec_fn() == f,
        ensures
            b == has_kind(self@, f),
    {
        let mut i: usize = 0;
        while i < self.items.len()
            invariant
                i <= self.items@.len(),
                which.spec_fn() == f,
                forall|j: int| 0 <= j < i ==> !f(#[trigger] self@[j].kind),
            decreases self.items@.len() - i,
        {
            if which.matches(&self.items[i].kind) {
                assert(f(self@[i as int].kind));
                return true;
            }
            i = i + 1;
        }
        false
    }
}


impl NatSpec {
    /// Append the items of another [`NatSpec`] to this one's items
    pub fn append(&mut self, other: &mut Self)
        ensures
            final(self)@ == old(self)@ + old(other)@,
            final(other)@ == Seq::<ItemView>::empty(),
    {
        self.items.append(&mut other.items);
        proof {
            assert(self@ == old(self)@ + old(other)@);
            assert(other@ == Seq::<ItemView>::empty());
        }
    }

    /// Count the number of `NatSpec` items corresponding to a given param identifier
    ///
    /// An unnamed identifier is never documented.
    pub fn count_param(&self, ident: &Identifier) -> (c: usize)
        ensures
            c == match ident_name(*ident) {
                Some(name) => count_kind(self@, is_param_named(name)),
                None => 0,
            },
    {
        match &ident.name {
            Some(name) => self.count_where(Ghost(is_param_named(name@)), KindQuery::ParamNamed(name)),
            None => 0,
        }
    }

    /// Count the number of `NatSpec` items corresponding to a given return identifier
    ///
    /// An unnamed identifier is never documented by name.
    pub fn count_return(&self, ident: &Identifier) -> (c: usize)
        ensures
            c == match ident_name(*ident) {
                Some(name) => count_kind(self@, is_return_named(name)),
                None => 0,
            },
    {
        match &ident.name {
            Some(name) => self.count_where(
                Ghost(is_return_named(name@)),
                KindQuery::ReturnNamed(name),
            ),
            None => 0,
        }
    }

    /// Count the number of `NatSpec` items corresponding to an unnamed return
    pub fn count_unnamed_returns(&self) -> (c: usize)
        ensures
            c == count_kind(self@, is_unnamed_return()),
    {
        self.count_where(Ghost(is_unnamed_return()), KindQuery::UnnamedReturn)
    }

    /// Count all the return `NatSpec` entries for this source item
    pub fn count_all_returns(&self) -> (c: usize)
        ensures
            c == count_kind(self@, is_return()),
    {
        self.count_where(Ghost(is_return()), KindQuery::AnyReturn)
    }

    /// Whether some item is a `@param`
    pub fn has_param(&self) -> (b: bool)
        ensures
            b == has_kind(self@, is_param()),
    {
        self.has_where(Ghost(is_param()), KindQuery::AnyParam)
    }

    /// Whether some item is a `@return`
    pub fn has_return(&self) -> (b: bool)
        ensures
            b == has_kind(self@, is_return()),
    {
        self.has_where(Ghost(is_return()), KindQuery::AnyReturn)
    }

    /// Whether some item is a `@notice`
    pub fn has_notice(&self) -> (b: bool)
        ensures
            b == has_kind(self@, is_notice()),
    {
        self.has_where(Ghost(is_notice()), KindQuery::Notice)
    }

    /// Whether some item is a `@dev`
    pub fn has_dev(&self) -> (b: bool)
        ensures
            b == has_kind(self@, is_dev()),
    {
        self.has_where(Ghost(is_dev()), KindQuery::Dev)
    }

    /// Whether some item is a `@title`
    pub fn has_title(&self) -> (b: bool)
        ensures
            b == has_kind(self@, is_title()),
    {
        self.has_where(Ghost(is_title()), KindQuery::Title)
    }

    /// Whether some item is an `@author`
    pub fn has_author(&self) -> (b: bool)
        ensures
            b == has_kind(self@, is_author()),
    {
        self.has_where(Ghost(is_author()), KindQuery::Author)
    }

    /// Whether some item is an `@inheritdoc`
    pub fn has_inheritdoc(&self) -> (b: bool)
        ensures
            b == has_kind(self@, is_inheritdoc()),
    {
        self.has_where(Ghost(is_inheritdoc()), KindQuery::Inheritdoc)
    }
}

impl NatSpecItem {
    /// Check if the item is empty (type is `@notice` - the default - and comment is empty)
    pub fn is_empty(&self) -> (b: bool)
        ensures
            b == (self@.kind is Notice && self@.comment.len() == 0),
    {
        match self.kind {
            NatSpecKind::Notice => self.comment.as_str().is_empty(),
            _ => false,
        }
    }
}

impl NatSpec {
    /// A `NatSpec` made of the single item `item`
    pub fn from(item: NatSpecItem) -> (n: NatSpec)
        ensures
            n@ == seq![item@],
    {
        let ghost v = item@;
        let n = NatSpec { items: vec![item] };
        assert(n@ =~= seq![v]);
        n
    }
}

/// The position of the first character at or after `p` that is not whitespace, or the end of the text
pub open spec fn skip_whitespace(s: Seq<char>, p: int) -> int
    decreases s.len() - p,
{
    if 0 <= p < s.len() && is_whitespace(s[p]) {
        skip_whitespace(s, p + 1)
    } else {
        p
    }
}

/// The first word of a text (as `str::split_whitespace`), if any
pub open spec fn first_word(s: Seq<char>) -> Option<Seq<char>> {
    let a = skip_whitespace(s, 0);
    if a < s.len() {
        Some(s.subrange(a, ident_end(s, a)))
    } else {
        None
    }
}

/// A text without its leading whitespace (as `str::trim_start`)
pub open spec fn trim_start(s: Seq<char>) -> Seq<char> {
    s.skip(skip_whitespace(s, 0))
}

/// A return item with its name taken out of its comment
///
/// The first word of the comment is the name when one of the returns has that name. The name is then removed
/// from the start of the comment, along with the whitespace after it. Other items are left alone.
pub open spec fn populate_return_spec(item: ItemView, rets: Seq<Identifier>) -> ItemView {
    if item.kind is Return {
        let name = match first_word(item.comment) {
            Some(w) => if has_ident_named(rets, w) {
                Some(w)
            } else {
                None
            },
            None => None,
        };
        let comment = match name {
            Some(n) => if n.is_prefix_of(item.comment) {
                trim_start(item.comment.skip(n.len() as int))
            } else {
                item.comment
            },
            None => item.comment,
        };
        ItemView { kind: KindView::Return { name }, comment }
    } else {
        item
    }
}

fn skip_whitespace_from(cs: &Vec<char>, p: usize) -> (q: usize)
    requires
        p <= cs@.len(),
    ensures
        q == skip_whitespace(cs@, p as int),
        p <= q <= cs@.len(),
{
    let mut q = p;
    while q < cs.len() && char_is_whitespace(cs[q])
        invariant
            p <= q <= cs@.len(),
            skip_whitespace(cs@, q as int) == skip_whitespace(cs@, p as int),
        decreases cs@.len() - q,
    {
        q = q + 1;
    }
    q
}

fn word_end_from(cs: &Vec<char>, p: usize) -> (q: usize)
    requires
        p <= cs@.len(),
    ensures
        q == ident_end(cs@, p as int),
        p <= q <= cs@.len(),
{
    let mut q = p;
    while q < cs.len() && !char_is_whitespace(cs[q])
        invariant
            p <= q <= cs@.len(),
            ident_end(cs@, q as int) == ident_end(cs@, p as int),
        decreases cs@.len() - q,
    {
        q = q + 1;
    }
    q
}

/// The characters of `cs` between `a` and `b`, as a `String`
fn chars_to_string(cs: &Vec<char>, a: usize, b: usize) -> (s: String)
    requires
        a <= b <= cs@.len(),
    ensures
        s@ == cs@.subrange(a as int, b as int),
{
    let mut s = String::new();
    let mut i = a;
    while i < b
        invariant
            a <= i <= b <= cs@.len(),
            s@ == cs@.subrange(a as int, i as int),
        decreases b - i,
    {
        push_char(&mut s, cs[i]);
        assert(cs@.subrange(a as int, i + 1) =~= cs@.subrange(a as int, i as int).push(cs@[i as int]));
        i = i + 1;
    }
    s
}

/// Whether some identifier has the name `name`
fn any_ident_named(idents: &[Identifier], name: &String) -> (b: bool)
    ensures
        b == has_ident_named(idents@, name@),
{
    let mut i: usize = 0;
    while i < idents.len()
        invariant
            i <= idents@.len(),
            forall|k: int| 0 <= k < i ==> ident_name(#[trigger] idents@[k]) != Some(name@),
        decreases idents@.len() - i,
    {
        match &idents[i].name {
            Some(n) => {
                if *n == *name {
                    assert(ident_name(idents@[i as int]) == Some(name@));
                    return true;
                }
            },
            None => {},
        }
        i = i + 1;
    }
    false
}

impl NatSpecItem {
    /// Populate a return `NatSpec` item with its name if available
    ///
    /// For non-return items, this function has no effect.
    pub fn populate_return(&mut self, rets: &[Identifier])
        ensures
            final(self)@ == populate_return_spec(old(self)@, rets@),
    {
        match self.kind {
            NatSpecKind::Return { .. } => {},
            _ => {
                return;
            },
        }
        let cs = chars_of(self.comment.as_str());
        let a = skip_whitespace_from(&cs, 0);
        let name = if a < cs.len() {
            let e = word_end_from(&cs, a);
            let word = chars_to_string(&cs, a, e);
            if any_ident_named(rets, &word) {
                Some((word, a, e))
            } else {
                None
            }
        } else {
            None
        };
        match name {
            Some((word, a, e)) => {
                let ghost w = word@;
                if a == 0 {
                    let b = skip_whitespace_from(&cs, e);
                    proof {
                        assert(w.is_prefix_of(cs@));
                        let rest = cs@.skip(w.len() as int);
                        assert forall|k: int| 0 <= k <= cs@.len() - e implies skip_whitespace(rest, k)
                            + e == skip_whitespace(cs@, k + e) by {
                            lemma_skip_whitespace_shift(cs@, e as int, k);
                        }
                        assert(rest.skip(skip_whitespace(rest, 0)) =~= cs@.subrange(b as int, cs@.len() as int));
                    }
                    self.comment = chars_to_string(&cs, b, cs.len());
                } else {
                    proof {
                        lemma_skip_whitespace_stops(cs@, 0);
                        assert(is_whitespace(cs@[0]));
                        assert(!is_whitespace(cs@[a as int]));
                        lemma_ident_end_bounds(cs@, a + 1);
                        assert(e > a);
                        assert(w[0] == cs@[a as int]);
                        if w.is_prefix_of(cs@) {
                            assert(cs@[0] == w[0]);
                        }
                    }
                }
                self.kind = NatSpecKind::Return { name: Some(word) };
            },
            None => {
                self.kind = NatSpecKind::Return { name: None };
            },
        }
    }
}

proof fn lemma_ident_end_bounds(s: Seq<char>, p: int)
    requires
        0 <= p <= s.len(),
    ensures
        p <= ident_end(s, p) <= s.len(),
    decreases s.len() - p,
{
    if p < s.len() && !is_whitespace(s[p]) {
        lemma_ident_end_bounds(s, p + 1);
    }
}

proof fn lemma_skip_whitespace_stops(s: Seq<char>, p: int)
    requires
        0 <= p <= s.len(),
    ensures
        p <= skip_whitespace(s, p) <= s.len(),
        skip_whitespace(s, p) < s.len() ==> !is_whitespace(s[skip_whitespace(s, p)]),
        forall|k: int| p <= k < skip_whitespace(s, p) ==> is_whitespace(#[trigger] s[k]),
    decreases s.len() - p,
{
    if p < s.len() && is_whitespace(s[p]) {
        lemma_skip_whitespace_stops(s, p + 1);
    }
}

proof fn lemma_skip_whitespace_shift(s: Seq<char>, e: int, k: int)
    requires
        0 <= e <= s.len(),
        0 <= k <= s.len() - e,
    ensures
        skip_whitespace(s.skip(e), k) + e == skip_whitespace(s, k + e),
    decreases s.len() - e - k,
{
    if k < s.len() - e {
        assert(s.skip(e)[k] == s[k + e]);
        if is_whitespace(s[k + e]) {
            lemma_skip_whitespace_shift(s, e, k + 1);
        }
    }
}

impl NatSpec {
    /// Populate the return `NatSpec` items with their identifiers (which could be named `None` for unnamed returns)
    pub fn populate_returns(self, rets: &[Identifier]) -> (r: Self)
        ensures
            r@ == self@.map_values(|i: ItemView| populate_return_spec(i, rets@)),
    {
        let ghost orig = self@;
        let mut rest = self.items;
        let mut done: Vec<NatSpecItem> = Vec::new();
        let n = rest.len();
        let mut k: usize = 0;
        while rest.len() > 0
            invariant
                k + rest@.len() == n,
                n == orig.len(),
                items_view(rest@) == orig.skip(k as int),
                items_view(done@) == orig.take(k as int).map_values(
                    |i: ItemView| populate_return_spec(i, rets@),
                ),
            decreases rest@.len(),
        {
            let ghost before = rest@;
            let mut item = rest.remove(0);
            proof {
                assert(item@ == items_view(before)[0]);
                assert(items_view(rest@) =~= items_view(before).drop_first());
                assert(orig.skip(k + 1) =~= orig.skip(k as int).drop_first());
            }
            let ghost old_item = item@;
            item.populate_return(rets);
            let ghost done_before = items_view(done@);
            done.push(item);
            proof {
                assert(items_view(done@) =~= done_before.push(item@));
                assert(orig.take(k + 1) =~= orig.take(k as int).push(old_item));
                assert(orig.take(k + 1).map_values(|i: ItemView| populate_return_spec(i, rets@))
                    =~= orig.take(k as int).map_values(|i: ItemView| populate_return_spec(i, rets@)).push(
                    populate_return_spec(old_item, rets@),
                ));
            }
            k = k + 1;
        }
        let r = NatSpec { items: done };
        proof {
            assert(orig.take(k as int) =~= orig);
            assert(r@ =~= items_view(done@));
        }
        r
    }
}

} // verus!
