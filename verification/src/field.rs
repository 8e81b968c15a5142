//! Typed field values and the text they travel as.
//!
//! A command's arguments are a list of scalar values, each of one of five
//! types.  This module reads such a list from a list of texts and writes it
//! back, one text per value, in order.

use crate::error::{Error, ErrorView};
use crate::text::{
    lemma_bool_round_trip, lemma_int_round_trip, parse_bool, parse_int, read_flag, read_i32,
    read_u32, read_u8, render_bool, render_flag, render_i32, render_int, render_u32, render_u8,
    ParseError,
};
use vstd::prelude::*;

verus! {

/// The type of a scalar field.
#[derive(Clone, Copy, Debug, PartialEq, Eq, Structural)]
pub enum FieldType {
    /// Text, taken as it is.
    Text,
    /// An unsigned 32-bit integer in decimal.
    U32,
    /// A signed 32-bit integer in decimal.
    I32,
    /// An unsigned 8-bit integer in decimal.
    U8,
    /// `true` or `false`.
    Bool,
}

/// The value of a scalar field.
#[derive(Debug)]
pub enum Value {
    Text(String),
    U32(u32),
    I32(i32),
    U8(u8),
    Bool(bool),
}

/// A [`Value`] with its text as a sequence of characters.
pub ghost enum FieldValue {
    Text(Seq<char>),
    U32(u32),
    I32(i32),
    U8(u8),
    Bool(bool),
}

impl View for Value {
    type V = FieldValue;

    open spec fn view(&self) -> FieldValue {
        match self {
            Value::Text(s) => FieldValue::Text(s@),
            Value::U32(n) => FieldValue::U32(*n),
            Value::I32(n) => FieldValue::I32(*n),
            Value::U8(n) => FieldValue::U8(*n),
            Value::Bool(b) => FieldValue::Bool(*b),
        }
    }
}

impl FieldValue {
    /// The type that this value is of.
    pub open spec fn field_type(self) -> FieldType {
        match self {
            FieldValue::Text(_) => FieldType::Text,
            FieldValue::U32(_) => FieldType::U32,
            FieldValue::I32(_) => FieldType::I32,
            FieldValue::U8(_) => FieldType::U8,
            FieldValue::Bool(_) => FieldType::Bool,
        }
    }

    /// The text that this value is written as.
    pub open spec fn rendered(self) -> Seq<char> {
        match self {
            FieldValue::Text(s) => s,
            FieldValue::U32(n) => render_int(n as int),
            FieldValue::I32(n) => render_int(n as int),
            FieldValue::U8(n) => render_int(n as int),
            FieldValue::Bool(b) => render_bool(b),
        }
    }
}

/// What reading `s` as a value of type `t` gives.
pub open spec fn parse_field(t: FieldType, s: Seq<char>) -> Result<FieldValue, ParseError> {
    match t {
        FieldType::Text => Ok(FieldValue::Text(s)),
        FieldType::U32 => match parse_int(s, false, 0, 0xffff_ffff) {
            Ok(n) => Ok(FieldValue::U32(n as u32)),
            Err(e) => Err(e),
        },
        FieldType::I32 => match parse_int(s, true, -0x8000_0000, 0x7fff_ffff) {
            Ok(n) => Ok(FieldValue::I32(n as i32)),
            Err(e) => Err(e),
        },
        FieldType::U8 => match parse_int(s, false, 0, 255) {
            Ok(n) => Ok(FieldValue::U8(n as u8)),
            Err(e) => Err(e),
        },
        FieldType::Bool => match parse_bool(s) {
            Ok(b) => Ok(FieldValue::Bool(b)),
            Err(e) => Err(e),
        },
    }
}

/// A type whose values travel as one argument: it says which type of field
/// it is, and its values are read and written as fields of that type are.
pub trait Scalar: Sized {
    /// The type of field that values of this type are.
    spec fn field_type() -> FieldType;

    /// This value as the value of a field.
    spec fn value(&self) -> FieldValue;

    /// Reads a value from text.
    fn read(text: &str) -> (r: Result<Self, ParseError>)
        ensures
            match r {
                Ok(v) => parse_field(Self::field_type(), text@) == Ok::<FieldValue, ParseError>(
                    v.value(),
                ),
                Err(e) => parse_field(Self::field_type(), text@) == Err::<FieldValue, ParseError>(
                    e,
                ),
            },
    ;

    /// Writes the value as text.
    fn render(&self) -> (r: String)
        ensures
            r@ == self.value().rendered(),
    ;
}

impl Scalar for String {
    open spec fn field_type() -> FieldType {
        FieldType::Text
    }

    open spec fn value(&self) -> FieldValue {
        FieldValue::Text(self@)
    }

    fn read(text: &str) -> (r: Result<Self, ParseError>) {
        let r = text.to_owned();
        assert(Self::field_type() == FieldType::Text);
        assert(parse_field(FieldType::Text, text@) == Ok::<FieldValue, ParseError>(r.value()));
        Ok(r)
    }

    fn render(&self) -> (r: String) {
        self.clone()
    }
}

impl Scalar for u32 {
    open spec fn field_type() -> FieldType {
        FieldType::U32
    }

    open spec fn value(&self) -> FieldValue {
        FieldValue::U32(*self)
    }

    fn read(text: &str) -> (r: Result<Self, ParseError>) {
        let r = read_u32(text);
        assert(Self::field_type() == FieldType::U32);
        assert(r matches Ok(v) ==> parse_field(FieldType::U32, text@) == Ok::<
            FieldValue,
            ParseError,
        >(v.value()));
        assert(r matches Err(e) ==> parse_field(FieldType::U32, text@) == Err::<
            FieldValue,
            ParseError,
        >(e));
        r
    }

    fn render(&self) -> (r: String) {
        render_u32(*self)
    }
}

impl Scalar for i32 {
    open spec fn field_type() -> FieldType {
        FieldType::I32
    }

    open spec fn value(&self) -> FieldValue {
        FieldValue::I32(*self)
    }

    fn read(text: &str) -> (r: Result<Self, ParseError>) {
        let r = read_i32(text);
        assert(Self::field_type() == FieldType::I32);
        assert(r matches Ok(v) ==> parse_field(FieldType::I32, text@) == Ok::<
            FieldValue,
            ParseError,
        >(v.value()));
        assert(r matches Err(e) ==> parse_field(FieldType::I32, text@) == Err::<
            FieldValue,
            ParseError,
        >(e));
        r
    }

    fn render(&self) -> (r: String) {
        render_i32(*self)
    }
}

impl Scalar for u8 {
    open spec fn field_type() -> FieldType {
        FieldType::U8
    }

    open spec fn value(&self) -> FieldValue {
        FieldValue::U8(*self)
    }

    fn read(text: &str) -> (r: Result<Self, ParseError>) {
        let r = read_u8(text);
        assert(Self::field_type() == FieldType::U8);
        assert(r matches Ok(v) ==> parse_field(FieldType::U8, text@) == Ok::<
            FieldValue,
            ParseError,
        >(v.value()));
        assert(r matches Err(e) ==> parse_field(FieldType::U8, text@) == Err::<
            FieldValue,
            ParseError,
        >(e));
        r
    }

    fn render(&self) -> (r: String) {
        render_u8(*self)
    }
}

impl Scalar for bool {
    open spec fn field_type() -> FieldType {
        FieldType::Bool
    }

    open spec fn value(&self) -> FieldValue {
        FieldValue::Bool(*self)
    }

    fn read(text: &str) -> (r: Result<Self, ParseError>) {
        let r = read_flag(text);
        assert(Self::field_type() == FieldType::Bool);
        assert(r matches Ok(v) ==> parse_field(FieldType::Bool, text@) == Ok::<
            FieldValue,
            ParseError,
        >(v.value()));
        assert(r matches Err(e) ==> parse_field(FieldType::Bool, text@) == Err::<
            FieldValue,
            ParseError,
        >(e));
        r
    }

    fn render(&self) -> (r: String) {
        render_flag(*self)
    }
}

/// The texts of a list of strings.
pub open spec fn texts(strings: Seq<String>) -> Seq<Seq<char>> {
    Seq::new(strings.len(), |i: int| strings[i]@)
}

/// The views of a list of values.
pub open spec fn views(values: Seq<Value>) -> Seq<FieldValue> {
    Seq::new(values.len(), |i: int| values[i]@)
}

/// The types of a list of values.
pub open spec fn types_of(values: Seq<FieldValue>) -> Seq<FieldType> {
    Seq::new(values.len(), |i: int| values[i].field_type())
}

/// The texts that a list of values is written as, one per value, in order.
pub open spec fn render_fields(values: Seq<FieldValue>) -> Seq<Seq<char>> {
    Seq::new(values.len(), |i: int| values[i].rendered())
}

/// What reading the first `types.len()` arguments as values of these types
/// gives.
///
/// The fields are read in order, one argument each.  The first field that
/// finds no argument, or one that is no value of its type, decides the error.
pub open spec fn read_fields(types: Seq<FieldType>, args: Seq<Seq<char>>) -> Result<
    Seq<FieldValue>,
    ErrorView,
>
    decreases types.len(),
{
    if types.len() == 0 {
        Ok(Seq::empty())
    } else {
        let last = types.len() - 1;
        match read_fields(types.drop_last(), args) {
            Err(e) => Err(e),
            Ok(values) => if last >= args.len() {
                Err(ErrorView::NotEnoughArgs)
            } else {
                match parse_field(types[last], args[last]) {
                    Ok(v) => Ok(values.push(v)),
                    Err(e) => Err(ErrorView::Parse(e)),
                }
            },
        }
    }
}

/// When reading succeeds: there is an argument for every field, and value
/// `i` is what argument `i` reads as under type `i`.
pub proof fn lemma_read_fields_ok(
    types: Seq<FieldType>,
    args: Seq<Seq<char>>,
    values: Seq<FieldValue>,
)
    ensures
        read_fields(types, args) == Ok::<Seq<FieldValue>, ErrorView>(values) <==> {
            &&& values.len() == types.len()
            &&& types.len() <= args.len()
            &&& forall|i: int|
                0 <= i < types.len() ==> parse_field(#[trigger] types[i], args[i]) == Ok::<
                    FieldValue,
                    ParseError,
                >(values[i])
        },
    decreases types.len(),
{
    if types.len() == 0 {
        assert(values.len() == 0 ==> values =~= Seq::<FieldValue>::empty());
    } else {
        let last = types.len() - 1;
        let front = types.drop_last();
        if values.len() == types.len() {
            lemma_read_fields_ok(front, args, values.drop_last());
            if read_fields(types, args) == Ok::<Seq<FieldValue>, ErrorView>(values) {
                let head = read_fields(front, args)->Ok_0;
                lemma_read_fields_ok(front, args, head);
                assert(head =~= values.drop_last());
                assert forall|i: int| 0 <= i < types.len() implies parse_field(
                    #[trigger] types[i],
                    args[i],
                ) == Ok::<FieldValue, ParseError>(values[i]) by {
                    if i < last {
                        assert(front[i] == types[i]);
                        assert(values.drop_last()[i] == values[i]);
                    }
                }
            }
            if types.len() <= args.len() && (forall|i: int|
                0 <= i < types.len() ==> parse_field(#[trigger] types[i], args[i]) == Ok::<
                    FieldValue,
                    ParseError,
                >(values[i])) {
                assert forall|i: int| 0 <= i < front.len() implies parse_field(
                    #[trigger] front[i],
                    args[i],
                ) == Ok::<FieldValue, ParseError>(values.drop_last()[i]) by {
                    assert(front[i] == types[i]);
                }
                assert(parse_field(types[last], args[last]) == Ok::<FieldValue, ParseError>(
                    values[last],
                ));
                assert(values.drop_last().push(values[last]) =~= values);
            }
        } else {
            if read_fields(types, args) is Ok {
                let head = read_fields(front, args)->Ok_0;
                lemma_read_fields_ok(front, args, head);
            }
        }
    }
}

/// What is read under a type is a value of that type.
pub proof fn lemma_parse_field_type(t: FieldType, s: Seq<char>)
    ensures
        parse_field(t, s) matches Ok(v) ==> v.field_type() == t,
{
}

/// A value reads back from its own text under its own type.
pub proof fn lemma_field_round_trip(v: FieldValue)
    ensures
        parse_field(v.field_type(), v.rendered()) == Ok::<FieldValue, ParseError>(v),
{
    match v {
        FieldValue::Text(_) => {},
        FieldValue::U32(n) => lemma_int_round_trip(n as int, false, 0, 0xffff_ffff),
        FieldValue::I32(n) => lemma_int_round_trip(n as int, true, -0x8000_0000, 0x7fff_ffff),
        FieldValue::U8(n) => lemma_int_round_trip(n as int, false, 0, 255),
        FieldValue::Bool(b) => lemma_bool_round_trip(b),
    }
}

/// Reading what was written gives the values back: for every list of
/// values, `read_fields(types_of(values), render_fields(values)) ==
/// Ok(values)`.
pub proof fn lemma_fields_round_trip(values: Seq<FieldValue>)
    ensures
        read_fields(types_of(values), render_fields(values)) == Ok::<Seq<FieldValue>, ErrorView>(
            values,
        ),
{
    let types = types_of(values);
    let args = render_fields(values);
    assert forall|i: int| 0 <= i < types.len() implies parse_field(#[trigger] types[i], args[i])
        == Ok::<FieldValue, ParseError>(values[i]) by {
        lemma_field_round_trip(values[i]);
    }
    lemma_read_fields_ok(types, args, values);
}

/// Fields that lie inside a longer list read as they do alone: where a list
/// of types reads `values` from `args`, the `m` types from position `k` on
/// read the values `k .. k + m` from the arguments `k .. k + m`.
pub proof fn lemma_read_fields_slice(
    types: Seq<FieldType>,
    args: Seq<Seq<char>>,
    values: Seq<FieldValue>,
    k: int,
    m: int,
)
    requires
        read_fields(types, args) == Ok::<Seq<FieldValue>, ErrorView>(values),
        0 <= k,
        0 <= m,
        k + m <= types.len(),
    ensures
        read_fields(types.subrange(k, k + m), args.subrange(k, k + m)) == Ok::<
            Seq<FieldValue>,
            ErrorView,
        >(values.subrange(k, k + m)),
{
    lemma_read_fields_ok(types, args, values);
    let sub_types = types.subrange(k, k + m);
    let sub_args = args.subrange(k, k + m);
    let sub_values = values.subrange(k, k + m);
    assert forall|i: int| 0 <= i < sub_types.len() implies parse_field(
        #[trigger] sub_types[i],
        sub_args[i],
    ) == Ok::<FieldValue, ParseError>(sub_values[i]) by {
        assert(sub_types[i] == types[k + i]);
    }
    lemma_read_fields_ok(sub_types, sub_args, sub_values);
}

/// Writes a value as text.
pub fn render_value(v: &Value) -> (r: String)
    ensures
        r@ == v@.rendered(),
{
    match v {
        Value::Text(s) => s.render(),
        Value::U32(n) => n.render(),
        Value::I32(n) => n.render(),
        Value::U8(n) => n.render(),
        Value::Bool(b) => b.render(),
    }
}

/// Reads a value of type `t` from text.
pub fn read_value(t: FieldType, s: &str) -> (r: Result<Value, ParseError>)
    ensures
        match r {
            Ok(v) => parse_field(t, s@) == Ok::<FieldValue, ParseError>(v@),
            Err(e) => parse_field(t, s@) == Err::<FieldValue, ParseError>(e),
        },
{
    match t {
        FieldType::Text => match <String as Scalar>::read(s) {
            Ok(text) => Ok(Value::Text(text)),
            Err(e) => Err(e),
        },
        FieldType::U32 => match <u32 as Scalar>::read(s) {
            Ok(n) => Ok(Value::U32(n)),
            Err(e) => Err(e),
        },
        FieldType::I32 => match <i32 as Scalar>::read(s) {
            Ok(n) => Ok(Value::I32(n)),
            Err(e) => Err(e),
        },
        FieldType::U8 => match <u8 as Scalar>::read(s) {
            Ok(n) => Ok(Value::U8(n)),
            Err(e) => Err(e),
        },
        FieldType::Bool => match <bool as Scalar>::read(s) {
            Ok(b) => Ok(Value::Bool(b)),
            Err(e) => Err(e),
        },
    }
}

/// Writes a list of values, one text per value, in order.
pub fn render_values(values: &Vec<Value>) -> (r: Vec<String>)
    ensures
        texts(r@) == render_fields(views(values@)),
{
    let mut out: Vec<String> = Vec::new();
    let mut i: usize = 0;
    while i < values.len()
        invariant
            i <= values.len(),
            out.len() == i,
            forall|j: int| 0 <= j < i ==> out@[j]@ == values@[j]@.rendered(),
        decreases values.len() - i,
    {
        let text = render_value(&values[i]);
        out.push(text);
        i = i + 1;
    }
    assert(texts(out@) =~= render_fields(views(values@)));
    out
}

/// Reads one value per type from the arguments, in order.  Arguments after
/// the last field are left unread.
pub fn read_values(types: &[FieldType], args: &[String]) -> (r: Result<Vec<Value>, Error>)
    ensures
        match r {
            Ok(values) => read_fields(types@, texts(args@)) == Ok::<Seq<FieldValue>, ErrorView>(
                views(values@),
            ),
            Err(e) => read_fields(types@, texts(args@)) == Err::<Seq<FieldValue>, ErrorView>(e@),
        },
{
    let mut out: Vec<Value> = Vec::new();
    let mut i: usize = 0;
    assert(types@.take(0) =~= Seq::<FieldType>::empty());
    assert(views(out@) =~= Seq::<FieldValue>::empty());
    while i < types.len()
        invariant
            i <= types.len(),
            out.len() == i,
            read_fields(types@.take(i as int), texts(args@)) == Ok::<Seq<FieldValue>, ErrorView>(
                views(out@),
            ),
        decreases types.len() - i,
    {
        let ghost upto = types@.take(i + 1);
        proof {
            assert(upto.drop_last() =~= types@.take(i as int));
            assert(upto[i as int] == types@[i as int]);
        }
        if i >= args.len() {
            proof {
                lemma_read_fields_fails(types@, texts(args@), i + 1);
            }
            return Err(Error::NotEnoughArgs);
        }
        match read_value(types[i], args[i].as_str()) {
            Ok(v) => {
                let ghost before = views(out@);
                out.push(v);
                assert(views(out@) =~= before.push(v@));
            },
            Err(e) => {
                proof {
                    lemma_read_fields_fails(types@, texts(args@), i + 1);
                }
                return Err(Error::Parse(e));
            },
        }
        i = i + 1;
    }
    assert(types@.take(i as int) =~= types@);
    Ok(out)
}

/// An error in reading a prefix of the fields is the error of reading them
/// all.
pub proof fn lemma_read_fields_fails(types: Seq<FieldType>, args: Seq<Seq<char>>, k: int)
    requires
        0 <= k <= types.len(),
        read_fields(types.take(k), args) is Err,
    ensures
        read_fields(types, args) == read_fields(types.take(k), args),
    decreases types.len() - k,
{
    if k < types.len() {
        let front = types.drop_last();
        assert(front.take(k) =~= types.take(k));
        lemma_read_fields_fails(front, args, k);
    } else {
        assert(types.take(k) =~= types);
    }
}

} // verus!
