//! The schema of a command enum, as its declaration gives it.
//!
//! A command enum is declared with attributes: `#[command(code = "..")]` and
//! `#[command(handle = "..")]` on each variant, `#[command(handler = "..")]`
//! on the enum, `#[command(flatten)]` on a field that is a sub-record.  This
//! module reads such a declaration, checks it, and says for each variant
//! what its code and its handler method are and which of its fields are
//! flattened.  The declaration comes as plain values: what is written is
//! kept, what a position in the source was is an index.

use crate::text::text_eq;
use vstd::prelude::*;
use vstd::string::*;

verus! {

/// A string literal: what it holds, and what came of reading that as an
/// identifier and as a path, an error with its message.
#[derive(Debug)]
pub struct LitStr {
    pub value: String,
    pub ident: Result<(), String>,
    pub path: Result<(), String>,
}

/// A literal: a string, or anything else.
#[derive(Debug)]
pub enum Lit {
    Str(LitStr),
    Other,
}

/// What stands between the brackets of an attribute, between two commas.
#[derive(Debug)]
pub enum NestedMeta {
    /// A word, as in `command(flatten)`.
    Path(String),
    /// A key and a literal, as in `command(code = "HI")`.
    NameValue(String, Lit),
    /// Anything else.
    Other,
}

/// An attribute.
#[derive(Debug)]
pub enum Meta {
    /// A name and a list in brackets, as in `command(..)`.
    List(String, Vec<NestedMeta>),
    /// Anything else.
    Other,
}

/// A field of a variant or of a struct.
#[derive(Debug)]
pub struct Field {
    pub ident: Option<String>,
    pub attrs: Vec<Meta>,
}

/// The fields of a variant or of a struct.
#[derive(Debug)]
pub enum Fields {
    Named(Vec<Field>),
    Unnamed(Vec<Field>),
    Unit,
}

/// A variant of an enum.
#[derive(Debug)]
pub struct Variant {
    pub ident: String,
    pub attrs: Vec<Meta>,
    pub fields: Fields,
}

/// The declaration of an enum.
#[derive(Debug)]
pub struct ItemEnum {
    pub ident: String,
    pub attrs: Vec<Meta>,
    pub variants: Vec<Variant>,
}

/// The declaration of a struct.
#[derive(Debug)]
pub struct ItemStruct {
    pub ident: String,
    pub fields: Fields,
}

/// How a field of a struct is named: by its name, or by its position.
#[derive(Debug)]
pub enum Member {
    Named(String),
    Unnamed(usize),
}

/// What is wrong with one item of a `command(..)` list; `nested` is the
/// position of the item in the list.
#[derive(Debug)]
pub enum OptError {
    /// The value of a key is no string literal.
    ExpectedStringLiteral { nested: usize },
    /// The value of a key is no identifier, or no path, where one is needed.
    Invalid { message: String, nested: usize },
    /// The key was given before.
    Repeated { nested: usize },
}

/// An [`OptError`] with its text as a sequence of characters.
pub ghost enum OptErrorView {
    ExpectedStringLiteral { nested: int },
    Invalid { message: Seq<char>, nested: int },
    Repeated { nested: int },
}

impl View for OptError {
    type V = OptErrorView;

    open spec fn view(&self) -> OptErrorView {
        match self {
            OptError::ExpectedStringLiteral { nested } => OptErrorView::ExpectedStringLiteral {
                nested: *nested as int,
            },
            OptError::Invalid { message, nested } => OptErrorView::Invalid {
                message: message@,
                nested: *nested as int,
            },
            OptError::Repeated { nested } => OptErrorView::Repeated { nested: *nested as int },
        }
    }
}

/// Why a declaration is no schema; `variant` and `attr` are positions in the
/// declaration.
#[derive(Debug)]
pub enum DeriveError {
    /// An attribute of the enum is wrong.
    Handler { attr: usize, error: OptError },
    /// An attribute of a variant is wrong.
    Variant { variant: usize, attr: usize, error: OptError },
    /// A variant has the attribute `command(skip)`, which is no longer taken.
    SkipDeprecated { variant: usize, attr: usize },
    /// A variant has no code.
    NoCode { variant: usize },
    /// The enum has a handler and a variant has no handler method.
    NoHandle { variant: usize },
    /// The variant at `second` has the code of the variant at `first`.
    DuplicateCode { first: usize, second: usize },
}

/// A [`DeriveError`] with its text as a sequence of characters.
pub ghost enum DeriveErrorView {
    Handler { attr: int, error: OptErrorView },
    Variant { variant: int, attr: int, error: OptErrorView },
    SkipDeprecated { variant: int, attr: int },
    NoCode { variant: int },
    NoHandle { variant: int },
    DuplicateCode { first: int, second: int },
}

impl View for DeriveError {
    type V = DeriveErrorView;

    open spec fn view(&self) -> DeriveErrorView {
        match self {
            DeriveError::Handler { attr, error } => DeriveErrorView::Handler {
                attr: *attr as int,
                error: error@,
            },
            DeriveError::Variant { variant, attr, error } => DeriveErrorView::Variant {
                variant: *variant as int,
                attr: *attr as int,
                error: error@,
            },
            DeriveError::SkipDeprecated { variant, attr } => DeriveErrorView::SkipDeprecated {
                variant: *variant as int,
                attr: *attr as int,
            },
            DeriveError::NoCode { variant } => DeriveErrorView::NoCode { variant: *variant as int },
            DeriveError::NoHandle { variant } => DeriveErrorView::NoHandle {
                variant: *variant as int,
            },
            DeriveError::DuplicateCode { first, second } => DeriveErrorView::DuplicateCode {
                first: *first as int,
                second: *second as int,
            },
        }
    }
}

// ---------------------------------------------------------------------------
// Identifiers and paths
// ---------------------------------------------------------------------------

/// Reads the text as a Rust identifier.
///
/// Trusted: stands for `syn::parse_str::<syn::Ident>`.  Nothing is said of
/// what it answers: the message of its error is kept as it comes.
#[verifier::external_body]
fn parse_ident(text: &str) -> (r: Result<(), String>) {
    match syn::parse_str::<syn::Ident>(text) {
        Ok(_) => Ok(()),
        Err(e) => Err(e.to_string()),
    }
}

/// Reads the text as a Rust path.
///
/// Trusted: stands for `syn::parse_str::<syn::Path>`.  Nothing is said of
/// what it answers: the message of its error is kept as it comes.
#[verifier::external_body]
fn parse_path(text: &str) -> (r: Result<(), String>) {
    match syn::parse_str::<syn::Path>(text) {
        Ok(_) => Ok(()),
        Err(e) => Err(e.to_string()),
    }
}

impl LitStr {
    /// The string literal that holds `value`, read as an identifier and as
    /// a path.  Whatever the reading gives is kept with the literal; what is
    /// made of it is decided where the literal is used.
    pub fn new(value: String) -> (r: LitStr)
        ensures
            r.value@ == value@,
    {
        let ident = parse_ident(value.as_str());
        let path = parse_path(value.as_str());
        LitStr { value, ident, path }
    }
}

// ---------------------------------------------------------------------------
// `key = "value"`
// ---------------------------------------------------------------------------

/// What a value is read as.
#[derive(Clone, Copy, Debug, PartialEq, Eq, Structural)]
pub enum ValueKind {
    /// Any text.
    Text,
    /// An identifier.
    Ident,
    /// A path.
    Path,
}

impl ValueKind {
    /// What came of reading the literal as a value of this kind.  Any text
    /// is a text.
    pub open spec fn outcome(self, lit: LitStr) -> Result<(), String> {
        match self {
            ValueKind::Text => Ok(()),
            ValueKind::Ident => lit.ident,
            ValueKind::Path => lit.path,
        }
    }
}

/// What an outcome of reading a value says of the item at position
/// `nested`: nothing where the value was read, and that the value is
/// invalid, with the message of the reading, where it was not.
pub open spec fn outcome_error(outcome: Result<(), String>, nested: int) -> Option<OptErrorView> {
    match outcome {
        Ok(_) => None,
        Err(message) => Some(OptErrorView::Invalid { message: message@, nested }),
    }
}

/// What an outcome of reading a value says of the item at position
/// `nested`.
pub fn check_outcome(outcome: &Result<(), String>, nested: usize) -> (r: Result<(), OptError>)
    ensures
        match r {
            Ok(_) => outcome_error(*outcome, nested as int) is None,
            Err(e) => outcome_error(*outcome, nested as int) == Some(e@),
        },
{
    match outcome {
        Ok(_) => Ok(()),
        Err(message) => Err(OptError::Invalid { message: message.clone(), nested }),
    }
}

/// Reads `key = "value"` for one key.
#[derive(Clone, Copy)]
pub struct ParseAssign<'a>(pub &'a str);

/// What the item assigns to the key: an error where the value is no string
/// literal, nothing where the item is no assignment to the key.
pub open spec fn assigned(key: Seq<char>, value: NestedMeta) -> Result<Option<LitStr>, ()> {
    match value {
        NestedMeta::NameValue(path, lit) => if path@ == key {
            match lit {
                Lit::Str(text) => Ok(Some(text)),
                Lit::Other => Err(()),
            }
        } else {
            Ok(None)
        },
        _ => Ok(None),
    }
}

/// What the item assigns to the key, read as a value of the kind: an error
/// where the value is no string literal, or where reading it as a value of
/// the kind gave an error.
pub open spec fn assigned_as(key: Seq<char>, kind: ValueKind, value: NestedMeta, nested: int)
    -> Result<Option<Seq<char>>, OptErrorView> {
    match assigned(key, value) {
        Err(_) => Err(OptErrorView::ExpectedStringLiteral { nested }),
        Ok(None) => Ok(None),
        Ok(Some(lit)) => match outcome_error(kind.outcome(lit), nested) {
            None => Ok(Some(lit.value@)),
            Some(e) => Err(e),
        },
    }
}

impl<'a> ParseAssign<'a> {
    /// What the item assigns to the key, if it is an assignment to it.
    pub fn parse_str<'b>(self, value: &'b NestedMeta) -> (r: Result<Option<&'b LitStr>, ()>)
        ensures
            match r {
                Ok(Some(text)) => assigned(self.0@, *value) == Ok::<Option<LitStr>, ()>(
                    Some(*text),
                ),
                Ok(None) => assigned(self.0@, *value) == Ok::<Option<LitStr>, ()>(None),
                Err(_) => assigned(self.0@, *value) is Err,
            },
    {
        let (path, lit) = match value {
            NestedMeta::NameValue(path, lit) => (path, lit),
            _ => return Ok(None),
        };
        if !text_eq(path.as_str(), self.0) {
            return Ok(None);
        }
        match lit {
            Lit::Str(text) => Ok(Some(text)),
            Lit::Other => Err(()),
        }
    }

    /// What the item at position `nested` assigns to the key, read as a
    /// value of the kind: the literal says what came of reading it so.
    pub fn parse_arg(self, kind: ValueKind, value: &NestedMeta, nested: usize) -> (r: Result<
        Option<String>,
        OptError,
    >)
        ensures
            match r {
                Ok(Some(text)) => assigned_as(self.0@, kind, *value, nested as int) == Ok::<
                    Option<Seq<char>>,
                    OptErrorView,
                >(Some(text@)),
                Ok(None) => assigned_as(self.0@, kind, *value, nested as int) == Ok::<
                    Option<Seq<char>>,
                    OptErrorView,
                >(None),
                Err(e) => assigned_as(self.0@, kind, *value, nested as int) == Err::<
                    Option<Seq<char>>,
                    OptErrorView,
                >(e@),
            },
    {
        let lit = match self.parse_str(value) {
            Ok(Some(lit)) => lit,
            Ok(None) => return Ok(None),
            Err(_) => return Err(OptError::ExpectedStringLiteral { nested }),
        };
        let checked = match kind {
            ValueKind::Text => Ok(()),
            ValueKind::Ident => check_outcome(&lit.ident, nested),
            ValueKind::Path => check_outcome(&lit.path, nested),
        };
        match checked {
            Ok(_) => Ok(Some(lit.value.clone())),
            Err(e) => Err(e),
        }
    }
}

// ---------------------------------------------------------------------------
// `command(word)`
// ---------------------------------------------------------------------------

/// Recognises the attribute `command(word)` for one word.
#[derive(Clone, Copy)]
pub struct CommandMarker<'a>(pub &'a str);

/// The attribute is `command(word)`: a list named `command` of the one
/// word.
pub open spec fn marks(word: Seq<char>, value: Meta) -> bool {
    match value {
        Meta::List(path, nested) => path@ == "command"@ && nested@.len() == 1 && match nested@[0] {
            NestedMeta::Path(inner) => inner@ == word,
            _ => false,
        },
        Meta::Other => false,
    }
}

impl<'a> CommandMarker<'a> {
    /// Whether the attribute is `command(word)` for this marker's word.
    pub fn validate(self, value: &Meta) -> (r: Result<Self, ()>)
        ensures
            r is Ok == marks(self.0@, *value),
            r matches Ok(marker) ==> marker.0@ == self.0@,
    {
        let (path, nested) = match value {
            Meta::List(path, nested) => (path, nested),
            _ => return Err(()),
        };
        if !text_eq(path.as_str(), "command") {
            return Err(());
        }
        if nested.len() != 1 {
            return Err(());
        }
        match &nested[0] {
            NestedMeta::Path(inner) => {
                if !text_eq(inner.as_str(), self.0) {
                    return Err(());
                }
            },
            _ => return Err(()),
        }
        Ok(self)
    }
}

/// The position of the first attribute that is `command(word)`, or the
/// number of attributes where none is.
pub open spec fn first_marked(word: Seq<char>, attrs: Seq<Meta>) -> int
    decreases attrs.len(),
{
    if attrs.len() == 0 {
        0
    } else if first_marked(word, attrs.drop_last()) < attrs.len() - 1 {
        first_marked(word, attrs.drop_last())
    } else if marks(word, attrs.last()) {
        attrs.len() - 1
    } else {
        attrs.len() as int
    }
}

/// The position of the first attribute that is `command(word)`, if one is.
pub fn find_marked(word: &str, attrs: &Vec<Meta>) -> (r: Option<usize>)
    ensures
        match r {
            Some(i) => i < attrs.len() && first_marked(word@, attrs@) == i,
            None => first_marked(word@, attrs@) == attrs.len(),
        },
{
    let marker = CommandMarker(word);
    let mut i: usize = 0;
    assert(attrs@.take(0) =~= Seq::<Meta>::empty());
    while i < attrs.len()
        invariant
            i <= attrs.len(),
            marker.0@ == word@,
            first_marked(word@, attrs@.take(i as int)) == i,
        decreases attrs.len() - i,
    {
        proof {
            let upto = attrs@.take(i + 1);
            assert(upto.drop_last() =~= attrs@.take(i as int));
            assert(upto.last() == attrs@[i as int]);
        }
        if marker.validate(&attrs[i]).is_ok() {
            proof {
                lemma_first_marked_found(word@, attrs@, i + 1);
            }
            return Some(i);
        }
        i = i + 1;
    }
    assert(attrs@.take(i as int) =~= attrs@);
    None
}

/// Once an attribute is marked in a prefix, the first marked attribute of
/// the whole list is that of the prefix.
pub proof fn lemma_first_marked_found(word: Seq<char>, attrs: Seq<Meta>, k: int)
    requires
        0 <= k <= attrs.len(),
        first_marked(word, attrs.take(k)) < k,
    ensures
        first_marked(word, attrs) == first_marked(word, attrs.take(k)),
    decreases attrs.len() - k,
{
    if k < attrs.len() {
        assert(attrs.drop_last().take(k) =~= attrs.take(k));
        lemma_first_marked_found(word, attrs.drop_last(), k);
    } else {
        assert(attrs.take(k) =~= attrs);
    }
}

// ---------------------------------------------------------------------------
// The options of a variant
// ---------------------------------------------------------------------------

/// What the attributes of a variant give: its code and its handler method.
#[derive(Debug)]
pub struct VariantOpts {
    pub code: Option<String>,
    pub handle: Option<String>,
}

/// [`VariantOpts`] with its texts as sequences of characters.
pub ghost struct VariantOptsView {
    pub code: Option<Seq<char>>,
    pub handle: Option<Seq<char>>,
}

/// The text of an optional string.
pub open spec fn text_of(value: Option<String>) -> Option<Seq<char>> {
    match value {
        Some(text) => Some(text@),
        None => None,
    }
}

impl View for VariantOpts {
    type V = VariantOptsView;

    open spec fn view(&self) -> VariantOptsView {
        VariantOptsView { code: text_of(self.code), handle: text_of(self.handle) }
    }
}

/// The options after one more item of a `command(..)` list: a key that the
/// item assigns is set, unless it was set before, which is an error.
pub open spec fn variant_step(state: VariantOptsView, value: NestedMeta, nested: int) -> Result<
    VariantOptsView,
    OptErrorView,
> {
    match assigned_as("code"@, ValueKind::Text, value, nested) {
        Err(e) => Err(e),
        Ok(code) => match assigned_as("handle"@, ValueKind::Ident, value, nested) {
            Err(e) => Err(e),
            Ok(handle) => if (handle is Some && state.handle is Some) || (code is Some
                && state.code is Some) {
                Err(OptErrorView::Repeated { nested })
            } else {
                Ok(
                    VariantOptsView {
                        code: if code is Some {
                            code
                        } else {
                            state.code
                        },
                        handle: if handle is Some {
                            handle
                        } else {
                            state.handle
                        },
                    },
                )
            },
        },
    }
}

/// The options after the items of a `command(..)` list, taken in order; the
/// first item that is wrong decides the error.
pub open spec fn variant_fold(state: VariantOptsView, items: Seq<NestedMeta>) -> Result<
    VariantOptsView,
    OptErrorView,
>
    decreases items.len(),
{
    if items.len() == 0 {
        Ok(state)
    } else {
        match variant_fold(state, items.drop_last()) {
            Err(e) => Err(e),
            Ok(before) => variant_step(before, items.last(), items.len() - 1),
        }
    }
}

/// The options after one more attribute: a `command(..)` list is read,
/// anything else is passed over.
pub open spec fn variant_opts(state: VariantOptsView, value: Meta) -> Result<
    VariantOptsView,
    OptErrorView,
> {
    match value {
        Meta::List(path, nested) => if path@ == "command"@ {
            variant_fold(state, nested@)
        } else {
            Ok(state)
        },
        Meta::Other => Ok(state),
    }
}

/// An error in a prefix of the items is the error of them all.
pub proof fn lemma_variant_fold_fails(state: VariantOptsView, items: Seq<NestedMeta>, k: int)
    requires
        0 <= k <= items.len(),
        variant_fold(state, items.take(k)) is Err,
    ensures
        variant_fold(state, items) == variant_fold(state, items.take(k)),
    decreases items.len() - k,
{
    if k < items.len() {
        assert(items.drop_last().take(k) =~= items.take(k));
        lemma_variant_fold_fails(state, items.drop_last(), k);
    } else {
        assert(items.take(k) =~= items);
    }
}

impl Default for VariantOpts {
    fn default() -> (r: Self)
        ensures
            r@ == (VariantOptsView { code: None, handle: None }),
    {
        VariantOpts { code: None, handle: None }
    }
}

impl VariantOpts {
    /// The options after one more attribute.
    pub fn parse_from_meta(self, value: &Meta) -> (r: Result<Self, OptError>)
        ensures
            match r {
                Ok(opts) => variant_opts(self@, *value) == Ok::<VariantOptsView, OptErrorView>(
                    opts@,
                ),
                Err(e) => variant_opts(self@, *value) == Err::<VariantOptsView, OptErrorView>(e@),
            },
    {
        let (path, nested) = match value {
            Meta::List(path, nested) => (path, nested),
            _ => return Ok(self),
        };
        if !text_eq(path.as_str(), "command") {
            return Ok(self);
        }
        let ghost start = self@;
        let mut status = self;
        let mut i: usize = 0;
        assert(nested@.take(0) =~= Seq::<NestedMeta>::empty());
        while i < nested.len()
            invariant
                i <= nested.len(),
                start == self@,
                variant_opts(start, *value) == variant_fold(start, nested@),
                variant_fold(start, nested@.take(i as int)) == Ok::<VariantOptsView, OptErrorView>(
                    status@,
                ),
            decreases nested.len() - i,
        {
            proof {
                let upto = nested@.take(i + 1);
                assert(upto.drop_last() =~= nested@.take(i as int));
                assert(upto.last() == nested@[i as int]);
            }
            let code_opt = match ParseAssign("code").parse_arg(ValueKind::Text, &nested[i], i) {
                Ok(code) => code,
                Err(e) => {
                    proof {
                        lemma_variant_fold_fails(start, nested@, i + 1);
                    }
                    return Err(e);
                },
            };
            let handle_opt = match ParseAssign("handle").parse_arg(
                ValueKind::Ident,
                &nested[i],
                i,
            ) {
                Ok(handle) => handle,
                Err(e) => {
                    proof {
                        lemma_variant_fold_fails(start, nested@, i + 1);
                    }
                    return Err(e);
                },
            };
            status = match (handle_opt, code_opt, status) {
                (Some(handle), Some(code), VariantOpts { handle: None, code: None }) => {
                    VariantOpts { handle: Some(handle), code: Some(code) }
                },
                (Some(handle), None, VariantOpts { handle: None, code }) => {
                    VariantOpts { handle: Some(handle), code }
                },
                (None, Some(code), VariantOpts { handle, code: None }) => {
                    VariantOpts { handle, code: Some(code) }
                },
                (None, None, VariantOpts { handle, code }) => VariantOpts { handle, code },
                _ => {
                    proof {
                        lemma_variant_fold_fails(start, nested@, i + 1);
                    }
                    return Err(OptError::Repeated { nested: i });
                },
            };
            i = i + 1;
        }
        assert(nested@.take(i as int) =~= nested@);
        Ok(status)
    }
}

// ---------------------------------------------------------------------------
// The handler of an enum
// ---------------------------------------------------------------------------

/// What the attributes of an enum give: the type that handles its commands.
#[derive(Debug)]
pub struct HandlerOpt {
    pub handler: Option<String>,
}

/// The handler after one more item of a `command(..)` list.
pub open spec fn handler_step(state: Option<Seq<char>>, value: NestedMeta, nested: int) -> Result<
    Option<Seq<char>>,
    OptErrorView,
> {
    match assigned_as("handler"@, ValueKind::Path, value, nested) {
        Err(e) => Err(e),
        Ok(handler) => if handler is Some && state is Some {
            Err(OptErrorView::Repeated { nested })
        } else if handler is Some {
            Ok(handler)
        } else {
            Ok(state)
        },
    }
}

/// The handler after the items of a `command(..)` list, taken in order.
pub open spec fn handler_fold(state: Option<Seq<char>>, items: Seq<NestedMeta>) -> Result<
    Option<Seq<char>>,
    OptErrorView,
>
    decreases items.len(),
{
    if items.len() == 0 {
        Ok(state)
    } else {
        match handler_fold(state, items.drop_last()) {
            Err(e) => Err(e),
            Ok(before) => handler_step(before, items.last(), items.len() - 1),
        }
    }
}

/// The handler after one more attribute.
pub open spec fn handler_opt(state: Option<Seq<char>>, value: Meta) -> Result<
    Option<Seq<char>>,
    OptErrorView,
> {
    match value {
        Meta::List(path, nested) => if path@ == "command"@ {
            handler_fold(state, nested@)
        } else {
            Ok(state)
        },
        Meta::Other => Ok(state),
    }
}

/// An error in a prefix of the items is the error of them all.
pub proof fn lemma_handler_fold_fails(state: Option<Seq<char>>, items: Seq<NestedMeta>, k: int)
    requires
        0 <= k <= items.len(),
        handler_fold(state, items.take(k)) is Err,
    ensures
        handler_fold(state, items) == handler_fold(state, items.take(k)),
    decreases items.len() - k,
{
    if k < items.len() {
        assert(items.drop_last().take(k) =~= items.take(k));
        lemma_handler_fold_fails(state, items.drop_last(), k);
    } else {
        assert(items.take(k) =~= items);
    }
}

impl Default for HandlerOpt {
    fn default() -> (r: Self)
        ensures
            r.handler is None,
    {
        HandlerOpt { handler: None }
    }
}

impl HandlerOpt {
    /// The handler after one more attribute.
    pub fn parse_from_meta(self, value: &Meta) -> (r: Result<Self, OptError>)
        ensures
            match r {
                Ok(opt) => handler_opt(text_of(self.handler), *value) == Ok::<
                    Option<Seq<char>>,
                    OptErrorView,
                >(text_of(opt.handler)),
                Err(e) => handler_opt(text_of(self.handler), *value) == Err::<
                    Option<Seq<char>>,
                    OptErrorView,
                >(e@),
            },
    {
        let (path, nested) = match value {
            Meta::List(path, nested) => (path, nested),
            _ => return Ok(self),
        };
        if !text_eq(path.as_str(), "command") {
            return Ok(self);
        }
        let ghost start = text_of(self.handler);
        let mut status = self;
        let mut i: usize = 0;
        assert(nested@.take(0) =~= Seq::<NestedMeta>::empty());
        while i < nested.len()
            invariant
                i <= nested.len(),
                start == text_of(self.handler),
                handler_opt(start, *value) == handler_fold(start, nested@),
                handler_fold(start, nested@.take(i as int)) == Ok::<
                    Option<Seq<char>>,
                    OptErrorView,
                >(text_of(status.handler)),
            decreases nested.len() - i,
        {
            proof {
                let upto = nested@.take(i + 1);
                assert(upto.drop_last() =~= nested@.take(i as int));
                assert(upto.last() == nested@[i as int]);
            }
            let handler_opt = match ParseAssign("handler").parse_arg(
                ValueKind::Path,
                &nested[i],
                i,
            ) {
                Ok(handler) => handler,
                Err(e) => {
                    proof {
                        lemma_handler_fold_fails(start, nested@, i + 1);
                    }
                    return Err(e);
                },
            };
            status = match (handler_opt, status) {
                (handler, HandlerOpt { handler: None }) => HandlerOpt { handler },
                (None, HandlerOpt { handler }) => HandlerOpt { handler },
                (Some(_), _) => {
                    proof {
                        lemma_handler_fold_fails(start, nested@, i + 1);
                    }
                    return Err(OptError::Repeated { nested: i });
                },
            };
            i = i + 1;
        }
        assert(nested@.take(i as int) =~= nested@);
        Ok(status)
    }
}

// ---------------------------------------------------------------------------
// The schema of an enum
// ---------------------------------------------------------------------------

/// What the declaration says of one variant.
#[derive(Debug)]
pub struct VariantPlan {
    /// The wire code.
    pub code: String,
    /// The handler method, if one is named.
    pub handle: Option<String>,
    /// For each field, in order, whether it is a sub-record whose fields
    /// stand in its place.
    pub flatten: Vec<bool>,
}

/// [`VariantPlan`] with its texts as sequences of characters.
pub ghost struct VariantPlanView {
    pub code: Seq<char>,
    pub handle: Option<Seq<char>>,
    pub flatten: Seq<bool>,
}

impl View for VariantPlan {
    type V = VariantPlanView;

    open spec fn view(&self) -> VariantPlanView {
        VariantPlanView { code: self.code@, handle: text_of(self.handle), flatten: self.flatten@ }
    }
}

/// What the declaration says of an enum: its handler, if it has one, and its
/// variants in the order of their declaration.
#[derive(Debug)]
pub struct CommandPlan {
    pub handler: Option<String>,
    pub variants: Vec<VariantPlan>,
}

/// [`CommandPlan`] with its texts as sequences of characters.
pub ghost struct CommandPlanView {
    pub handler: Option<Seq<char>>,
    pub variants: Seq<VariantPlanView>,
}

/// The views of a list of plans.
pub open spec fn plan_views(plans: Seq<VariantPlan>) -> Seq<VariantPlanView> {
    Seq::new(plans.len(), |i: int| plans[i]@)
}

impl View for CommandPlan {
    type V = CommandPlanView;

    open spec fn view(&self) -> CommandPlanView {
        CommandPlanView { handler: text_of(self.handler), variants: plan_views(self.variants@) }
    }
}

/// The options of a variant after its attributes, taken in order; an error
/// comes with the position of the attribute that is wrong.
pub open spec fn variant_attrs(state: VariantOptsView, attrs: Seq<Meta>) -> Result<
    VariantOptsView,
    (int, OptErrorView),
>
    decreases attrs.len(),
{
    if attrs.len() == 0 {
        Ok(state)
    } else {
        match variant_attrs(state, attrs.drop_last()) {
            Err(e) => Err(e),
            Ok(before) => match variant_opts(before, attrs.last()) {
                Ok(after) => Ok(after),
                Err(e) => Err((attrs.len() - 1, e)),
            },
        }
    }
}

/// The handler of an enum after its attributes, taken in order.
pub open spec fn handler_attrs(state: Option<Seq<char>>, attrs: Seq<Meta>) -> Result<
    Option<Seq<char>>,
    (int, OptErrorView),
>
    decreases attrs.len(),
{
    if attrs.len() == 0 {
        Ok(state)
    } else {
        match handler_attrs(state, attrs.drop_last()) {
            Err(e) => Err(e),
            Ok(before) => match handler_opt(before, attrs.last()) {
                Ok(after) => Ok(after),
                Err(e) => Err((attrs.len() - 1, e)),
            },
        }
    }
}

/// The field has the attribute `command(flatten)`.
pub open spec fn is_flattened(field: Field) -> bool {
    first_marked("flatten"@, field.attrs@) < field.attrs@.len()
}

/// For each field, in order, whether it is flattened.
pub open spec fn flatten_flags(fields: Fields) -> Seq<bool> {
    match fields {
        Fields::Named(list) => Seq::new(list@.len(), |i: int| is_flattened(list@[i])),
        Fields::Unnamed(list) => Seq::new(list@.len(), |i: int| is_flattened(list@[i])),
        Fields::Unit => Seq::empty(),
    }
}

/// What the declaration says of the variant at position `index`, or what is
/// wrong with it: a `command(skip)` first, then an attribute that is wrong,
/// then a missing code, then a missing handler method where the enum has a
/// handler.
pub open spec fn variant_plan(variant: Variant, index: int, has_handler: bool) -> Result<
    VariantPlanView,
    DeriveErrorView,
> {
    let skip = first_marked("skip"@, variant.attrs@);
    if skip < variant.attrs@.len() {
        Err(DeriveErrorView::SkipDeprecated { variant: index, attr: skip })
    } else {
        match variant_attrs(VariantOptsView { code: None, handle: None }, variant.attrs@) {
            Err((attr, error)) => Err(DeriveErrorView::Variant { variant: index, attr, error }),
            Ok(opts) => match opts.code {
                None => Err(DeriveErrorView::NoCode { variant: index }),
                Some(code) => if opts.handle is None && has_handler {
                    Err(DeriveErrorView::NoHandle { variant: index })
                } else {
                    Ok(
                        VariantPlanView {
                            code,
                            handle: opts.handle,
                            flatten: flatten_flags(variant.fields),
                        },
                    )
                },
            },
        }
    }
}

/// What the declaration says of the variants, in order; the first variant
/// that is wrong decides the error.
pub open spec fn plan_variants(variants: Seq<Variant>, has_handler: bool) -> Result<
    Seq<VariantPlanView>,
    DeriveErrorView,
>
    decreases variants.len(),
{
    if variants.len() == 0 {
        Ok(Seq::empty())
    } else {
        match plan_variants(variants.drop_last(), has_handler) {
            Err(e) => Err(e),
            Ok(plans) => match variant_plan(variants.last(), variants.len() - 1, has_handler) {
                Ok(plan) => Ok(plans.push(plan)),
                Err(e) => Err(e),
            },
        }
    }
}

/// What the declaration says of the enum, or the first thing that is wrong
/// with it: the attributes of the enum come first, then the variants in
/// order, then a code that two variants have.
pub open spec fn derived(item: ItemEnum) -> Result<CommandPlanView, DeriveErrorView> {
    match handler_attrs(None, item.attrs@) {
        Err((attr, error)) => Err(DeriveErrorView::Handler { attr, error }),
        Ok(handler) => match plan_variants(item.variants@, handler is Some) {
            Err(e) => Err(e),
            Ok(variants) => match duplicate(variants) {
                Some((first, second)) => Err(DeriveErrorView::DuplicateCode { first, second }),
                None => Ok(CommandPlanView { handler, variants }),
            },
        },
    }
}

/// An error in a prefix of the attributes is the error of them all.
pub proof fn lemma_variant_attrs_fails(state: VariantOptsView, attrs: Seq<Meta>, k: int)
    requires
        0 <= k <= attrs.len(),
        variant_attrs(state, attrs.take(k)) is Err,
    ensures
        variant_attrs(state, attrs) == variant_attrs(state, attrs.take(k)),
    decreases attrs.len() - k,
{
    if k < attrs.len() {
        assert(attrs.drop_last().take(k) =~= attrs.take(k));
        lemma_variant_attrs_fails(state, attrs.drop_last(), k);
    } else {
        assert(attrs.take(k) =~= attrs);
    }
}

/// An error in a prefix of the attributes is the error of them all.
pub proof fn lemma_handler_attrs_fails(state: Option<Seq<char>>, attrs: Seq<Meta>, k: int)
    requires
        0 <= k <= attrs.len(),
        handler_attrs(state, attrs.take(k)) is Err,
    ensures
        handler_attrs(state, attrs) == handler_attrs(state, attrs.take(k)),
    decreases attrs.len() - k,
{
    if k < attrs.len() {
        assert(attrs.drop_last().take(k) =~= attrs.take(k));
        lemma_handler_attrs_fails(state, attrs.drop_last(), k);
    } else {
        assert(attrs.take(k) =~= attrs);
    }
}

/// An error in a prefix of the variants is the error of them all.
pub proof fn lemma_plan_variants_fails(variants: Seq<Variant>, has_handler: bool, k: int)
    requires
        0 <= k <= variants.len(),
        plan_variants(variants.take(k), has_handler) is Err,
    ensures
        plan_variants(variants, has_handler) == plan_variants(variants.take(k), has_handler),
    decreases variants.len() - k,
{
    if k < variants.len() {
        assert(variants.drop_last().take(k) =~= variants.take(k));
        lemma_plan_variants_fails(variants.drop_last(), has_handler, k);
    } else {
        assert(variants.take(k) =~= variants);
    }
}

/// For each field, in order, whether it has the attribute
/// `command(flatten)`.
fn flags_of(fields: &Fields) -> (r: Vec<bool>)
    ensures
        r@ == flatten_flags(*fields),
{
    let mut flags: Vec<bool> = Vec::new();
    let list = match fields {
        Fields::Named(list) => list,
        Fields::Unnamed(list) => list,
        Fields::Unit => {
            assert(flags@ =~= flatten_flags(*fields));
            return flags;
        },
    };
    let mut i: usize = 0;
    while i < list.len()
        invariant
            i <= list.len(),
            flags.len() == i,
            forall|j: int| 0 <= j < i ==> flags@[j] == is_flattened(list@[j]),
        decreases list.len() - i,
    {
        let flattened = find_marked("flatten", &list[i].attrs).is_some();
        flags.push(flattened);
        i = i + 1;
    }
    assert(flags@ =~= flatten_flags(*fields));
    flags
}

/// What the declaration says of the variant at position `index`.
fn plan_variant(variant: &Variant, index: usize, has_handler: bool) -> (r: Result<
    VariantPlan,
    DeriveError,
>)
    ensures
        match r {
            Ok(plan) => variant_plan(*variant, index as int, has_handler) == Ok::<
                VariantPlanView,
                DeriveErrorView,
            >(plan@),
            Err(e) => variant_plan(*variant, index as int, has_handler) == Err::<
                VariantPlanView,
                DeriveErrorView,
            >(e@),
        },
{
    if let Some(attr) = find_marked("skip", &variant.attrs) {
        return Err(DeriveError::SkipDeprecated { variant: index, attr });
    }
    let ghost start = VariantOptsView { code: None, handle: None };
    let mut opts = VariantOpts::default();
    let mut i: usize = 0;
    assert(variant.attrs@.take(0) =~= Seq::<Meta>::empty());
    while i < variant.attrs.len()
        invariant
            i <= variant.attrs.len(),
            start == (VariantOptsView { code: None, handle: None }),
            first_marked("skip"@, variant.attrs@) == variant.attrs@.len(),
            variant_attrs(start, variant.attrs@.take(i as int)) == Ok::<
                VariantOptsView,
                (int, OptErrorView),
            >(opts@),
        decreases variant.attrs.len() - i,
    {
        proof {
            let upto = variant.attrs@.take(i + 1);
            assert(upto.drop_last() =~= variant.attrs@.take(i as int));
            assert(upto.last() == variant.attrs@[i as int]);
        }
        opts = match opts.parse_from_meta(&variant.attrs[i]) {
            Ok(opts) => opts,
            Err(error) => {
                proof {
                    lemma_variant_attrs_fails(start, variant.attrs@, i + 1);
                }
                return Err(DeriveError::Variant { variant: index, attr: i, error });
            },
        };
        i = i + 1;
    }
    assert(variant.attrs@.take(i as int) =~= variant.attrs@);
    let VariantOpts { code, handle } = opts;
    let code = match code {
        Some(code) => code,
        None => return Err(DeriveError::NoCode { variant: index }),
    };
    if handle.is_none() && has_handler {
        return Err(DeriveError::NoHandle { variant: index });
    }
    Ok(VariantPlan { code, handle, flatten: flags_of(&variant.fields) })
}

/// Reads the declaration of a command enum: the handler of the enum, and
/// for each variant its code, its handler method and which of its fields are
/// flattened.  Fails on the first thing that is wrong; two variants with one
/// code are wrong.
pub fn command_derive(input: &ItemEnum) -> (r: Result<CommandPlan, DeriveError>)
    ensures
        match r {
            Ok(plan) => derived(*input) == Ok::<CommandPlanView, DeriveErrorView>(plan@),
            Err(e) => derived(*input) == Err::<CommandPlanView, DeriveErrorView>(e@),
        },
{
    let mut handler_opt = HandlerOpt::default();
    let mut a: usize = 0;
    assert(input.attrs@.take(0) =~= Seq::<Meta>::empty());
    while a < input.attrs.len()
        invariant
            a <= input.attrs.len(),
            handler_attrs(None, input.attrs@.take(a as int)) == Ok::<
                Option<Seq<char>>,
                (int, OptErrorView),
            >(text_of(handler_opt.handler)),
        decreases input.attrs.len() - a,
    {
        proof {
            let upto = input.attrs@.take(a + 1);
            assert(upto.drop_last() =~= input.attrs@.take(a as int));
            assert(upto.last() == input.attrs@[a as int]);
        }
        handler_opt = match handler_opt.parse_from_meta(&input.attrs[a]) {
            Ok(opt) => opt,
            Err(error) => {
                proof {
                    lemma_handler_attrs_fails(None, input.attrs@, a + 1);
                }
                return Err(DeriveError::Handler { attr: a, error });
            },
        };
        a = a + 1;
    }
    assert(input.attrs@.take(a as int) =~= input.attrs@);
    let handler = handler_opt.handler;
    let has_handler = handler.is_some();
    let mut variants: Vec<VariantPlan> = Vec::new();
    let mut v: usize = 0;
    assert(input.variants@.take(0) =~= Seq::<Variant>::empty());
    assert(plan_views(variants@) =~= Seq::<VariantPlanView>::empty());
    while v < input.variants.len()
        invariant
            v <= input.variants.len(),
            has_handler == (handler is Some),
            handler_attrs(None, input.attrs@) == Ok::<Option<Seq<char>>, (int, OptErrorView)>(
                text_of(handler),
            ),
            plan_variants(input.variants@.take(v as int), has_handler) == Ok::<
                Seq<VariantPlanView>,
                DeriveErrorView,
            >(plan_views(variants@)),
        decreases input.variants.len() - v,
    {
        proof {
            let upto = input.variants@.take(v + 1);
            assert(upto.drop_last() =~= input.variants@.take(v as int));
            assert(upto.last() == input.variants@[v as int]);
        }
        match plan_variant(&input.variants[v], v, has_handler) {
            Ok(plan) => {
                let ghost before = plan_views(variants@);
                variants.push(plan);
                assert(plan_views(variants@) =~= before.push(plan@));
            },
            Err(e) => {
                proof {
                    lemma_plan_variants_fails(input.variants@, has_handler, v + 1);
                }
                return Err(e);
            },
        }
        v = v + 1;
    }
    assert(input.variants@.take(v as int) =~= input.variants@);
    let plan = CommandPlan { handler, variants };
    match duplicate_code(&plan) {
        Some((first, second)) => Err(DeriveError::DuplicateCode { first, second }),
        None => Ok(plan),
    }
}

/// No two variants have the same code.
pub open spec fn codes_distinct(variants: Seq<VariantPlanView>) -> bool {
    forall|i: int, j: int| 0 <= i < j < variants.len() ==> variants[i].code != variants[j].code
}

/// The variant at `j` is the first that has the code of an earlier one, and
/// the first that has it before is the variant at `i`.
pub open spec fn first_duplicate(variants: Seq<VariantPlanView>, i: int, j: int) -> bool {
    &&& 0 <= i < j < variants.len()
    &&& variants[i].code == variants[j].code
    &&& codes_distinct(variants.take(j))
    &&& forall|k: int| 0 <= k < i ==> variants[k].code != variants[j].code
}

/// The first variant that has the code of an earlier one, with the first
/// that has it before; none where no two variants have the same code.
pub open spec fn duplicate(variants: Seq<VariantPlanView>) -> Option<(int, int)> {
    if codes_distinct(variants) {
        None
    } else {
        Some(choose|pair: (int, int)| first_duplicate(variants, pair.0, pair.1))
    }
}

/// There is one first duplicate at most.
pub proof fn lemma_first_duplicate(variants: Seq<VariantPlanView>, i: int, j: int)
    requires
        first_duplicate(variants, i, j),
    ensures
        duplicate(variants) == Some((i, j)),
{
    assert(!codes_distinct(variants));
    let pair = choose|pair: (int, int)| first_duplicate(variants, pair.0, pair.1);
    assert(first_duplicate(variants, (i, j).0, (i, j).1));
    let (i2, j2) = pair;
    assert(first_duplicate(variants, i2, j2));
    if j2 < j {
        assert(variants.take(j)[i2].code != variants.take(j)[j2].code);
    } else if j < j2 {
        assert(variants.take(j2)[i].code != variants.take(j2)[j].code);
    }
}

/// Looks for two variants with the same code: the first variant that has
/// the code of an earlier one, with the first that has it before.
pub fn duplicate_code(plan: &CommandPlan) -> (r: Option<(usize, usize)>)
    ensures
        match r {
            Some((i, j)) => first_duplicate(plan@.variants, i as int, j as int) && duplicate(
                plan@.variants,
            ) == Some((i as int, j as int)),
            None => codes_distinct(plan@.variants) && duplicate(plan@.variants) is None,
        },
{
    let mut j: usize = 0;
    while j < plan.variants.len()
        invariant
            j <= plan.variants.len(),
            codes_distinct(plan@.variants.take(j as int)),
        decreases plan.variants.len() - j,
    {
        let mut i: usize = 0;
        while i < j
            invariant
                i <= j < plan.variants.len(),
                codes_distinct(plan@.variants.take(j as int)),
                forall|k: int|
                    0 <= k < i ==> plan@.variants[k].code != plan@.variants[j as int].code,
            decreases j - i,
        {
            if text_eq(plan.variants[i].code.as_str(), plan.variants[j].code.as_str()) {
                proof {
                    lemma_first_duplicate(plan@.variants, i as int, j as int);
                }
                return Some((i, j));
            }
            i = i + 1;
        }
        proof {
            let upto = plan@.variants.take(j + 1);
            assert forall|a: int, b: int| 0 <= a < b < upto.len() implies upto[a].code
                != upto[b].code by {
                if b < j {
                    assert(plan@.variants.take(j as int)[a].code != plan@.variants.take(
                        j as int,
                    )[b].code);
                }
            }
        }
        j = j + 1;
    }
    assert(plan@.variants.take(j as int) =~= plan@.variants);
    None
}

// ---------------------------------------------------------------------------
// The fields of a sub-record
// ---------------------------------------------------------------------------

/// Every named field has a name.
pub open spec fn well_named(fields: Fields) -> bool {
    fields matches Fields::Named(list) ==> forall|i: int|
        0 <= i < list@.len() ==> (#[trigger] list@[i]).ident is Some
}

/// How the field at position `i` is named.
pub open spec fn member_at(fields: Fields, i: int) -> MemberView {
    match fields {
        Fields::Named(list) => MemberView::Named(list@[i].ident->Some_0@),
        _ => MemberView::Unnamed(i),
    }
}

/// The number of fields.
pub open spec fn field_count(fields: Fields) -> nat {
    match fields {
        Fields::Named(list) => list@.len(),
        Fields::Unnamed(list) => list@.len(),
        Fields::Unit => 0,
    }
}

/// A [`Member`] with its text as a sequence of characters.
pub ghost enum MemberView {
    Named(Seq<char>),
    Unnamed(int),
}

impl View for Member {
    type V = MemberView;

    open spec fn view(&self) -> MemberView {
        match self {
            Member::Named(name) => MemberView::Named(name@),
            Member::Unnamed(index) => MemberView::Unnamed(*index as int),
        }
    }
}

/// Reads the declaration of a sub-record: how its fields are named, in the
/// order in which they are read from and written to the arguments.
pub fn with_str_iter_derive(input: &ItemStruct) -> (r: Vec<Member>)
    requires
        well_named(input.fields),
    ensures
        r@.len() == field_count(input.fields),
        forall|i: int| 0 <= i < r@.len() ==> (#[trigger] r@[i])@ == member_at(input.fields, i),
{
    let mut members: Vec<Member> = Vec::new();
    match &input.fields {
        Fields::Named(list) => {
            let mut i: usize = 0;
            while i < list.len()
                invariant
                    i <= list.len(),
                    input.fields == Fields::Named(*list),
                    well_named(input.fields),
                    members.len() == i,
                    forall|j: int|
                        0 <= j < i ==> (#[trigger] members@[j])@ == member_at(input.fields, j),
                decreases list.len() - i,
            {
                assert(list@[i as int].ident is Some);
                match &list[i].ident {
                    Some(name) => members.push(Member::Named(name.clone())),
                    None => {},
                }
                i = i + 1;
            }
        },
        Fields::Unnamed(list) => {
            let mut i: usize = 0;
            while i < list.len()
                invariant
                    i <= list.len(),
                    input.fields == Fields::Unnamed(*list),
                    members.len() == i,
                    forall|j: int|
                        0 <= j < i ==> (#[trigger] members@[j])@ == member_at(input.fields, j),
                decreases list.len() - i,
            {
                members.push(Member::Unnamed(i));
                i = i + 1;
            }
        },
        Fields::Unit => {},
    }
    members
}

// ---------------------------------------------------------------------------
// Messages
// ---------------------------------------------------------------------------

impl OptErrorView {
    /// The text of the message for this error; `repeated` is what is said
    /// of a key that was given before.
    pub open spec fn message_text(self, repeated: Seq<char>) -> Seq<char> {
        match self {
            OptErrorView::ExpectedStringLiteral { .. } =>
                "Expected string literal in `key = value` assignment"@,
            OptErrorView::Invalid { message, .. } => message,
            OptErrorView::Repeated { .. } => repeated,
        }
    }
}

impl OptError {
    /// A human-readable description of the error; `repeated` is what is
    /// said of a key that was given before.
    pub fn message(&self, repeated: &str) -> (r: String)
        ensures
            r@ == self@.message_text(repeated@),
    {
        match self {
            OptError::ExpectedStringLiteral { .. } => String::from_str(
                "Expected string literal in `key = value` assignment",
            ),
            OptError::Invalid { message, .. } => message.clone(),
            OptError::Repeated { .. } => String::from_str(repeated),
        }
    }
}

/// The name of the variant at the position, empty where there is none.
pub open spec fn variant_name(item: ItemEnum, variant: int) -> Seq<char> {
    if 0 <= variant < item.variants@.len() {
        item.variants@[variant].ident@
    } else {
        Seq::empty()
    }
}

impl DeriveErrorView {
    /// The text of the message for this error in the declaration `item`.
    pub open spec fn message_text(self, item: ItemEnum) -> Seq<char> {
        match self {
            DeriveErrorView::Handler { error, .. } => error.message_text(
                "`handler` specified multiply times"@,
            ),
            DeriveErrorView::Variant { error, .. } => error.message_text(
                "Keys can't be repeated"@,
            ),
            DeriveErrorView::SkipDeprecated { .. } =>
                "#[command(skip)] was hard-deprecated, sorry"@,
            DeriveErrorView::NoCode { variant } => "No code parameter on "@ + item.ident@ + "::"@
                + variant_name(item, variant),
            DeriveErrorView::NoHandle { variant } => "No handle parameter on "@ + item.ident@
                + "::"@ + variant_name(item, variant),
            DeriveErrorView::DuplicateCode { first, second } => "Codes can't be repeated: "@
                + item.ident@ + "::"@ + variant_name(item, first) + " and "@ + item.ident@ + "::"@
                + variant_name(item, second),
        }
    }
}

impl DeriveError {
    /// A human-readable description of the error in the declaration
    /// `input`.
    pub fn message(&self, input: &ItemEnum) -> (r: String)
        ensures
            r@ == self@.message_text(*input),
    {
        match self {
            DeriveError::Handler { error, .. } => error.message(
                "`handler` specified multiply times",
            ),
            DeriveError::Variant { error, .. } => error.message("Keys can't be repeated"),
            DeriveError::SkipDeprecated { .. } => String::from_str(
                "#[command(skip)] was hard-deprecated, sorry",
            ),
            DeriveError::NoCode { variant } => {
                let mut text = String::from_str("No code parameter on ");
                text.append(input.ident.as_str());
                text.append("::");
                if *variant < input.variants.len() {
                    text.append(input.variants[*variant].ident.as_str());
                }
                assert(text@ =~= self@.message_text(*input));
                text
            },
            DeriveError::NoHandle { variant } => {
                let mut text = String::from_str("No handle parameter on ");
                text.append(input.ident.as_str());
                text.append("::");
                if *variant < input.variants.len() {
                    text.append(input.variants[*variant].ident.as_str());
                }
                assert(text@ =~= self@.message_text(*input));
                text
            },
            DeriveError::DuplicateCode { first, second } => {
                let mut text = String::from_str("Codes can't be repeated: ");
                text.append(input.ident.as_str());
                text.append("::");
                if *first < input.variants.len() {
                    text.append(input.variants[*first].ident.as_str());
                }
                text.append(" and ");
                text.append(input.ident.as_str());
                text.append("::");
                if *second < input.variants.len() {
                    text.append(input.variants[*second].ident.as_str());
                }
                assert(text@ =~= self@.message_text(*input));
                text
            },
        }
    }
}

} // verus!
