//! The command model: what every command enum has in common.
//!
//! A command is one variant of a closed set.  Each variant has a wire code
//! and an ordered list of typed fields; a field that is a sub-record stands
//! for the fields of that record, in place.  A command is written as its
//! code and one text per field, and read back from a code and a list of
//! texts.

use crate::error::{Error, ErrorView};
use crate::field::{
    lemma_read_fields_slice, read_fields, read_values, texts, views, FieldType, FieldValue, Value,
};
use crate::text::push_char;
use vstd::prelude::*;
use vstd::string::*;

verus! {

/// A message: which variant it is, and the values of its fields in the order
/// of their declaration, sub-records expanded in place.
pub ghost struct Message<K> {
    pub kind: K,
    pub fields: Seq<FieldValue>,
}

/// The arguments as they stand in a message: each followed by `#`.
pub open spec fn joined(args: Seq<Seq<char>>) -> Seq<char>
    decreases args.len(),
{
    if args.len() == 0 {
        Seq::empty()
    } else {
        joined(args.drop_last()) + args.last() + seq!['#']
    }
}

/// The text of a message: the code, `#`, each argument followed by `#`, and
/// a closing `%`.
pub open spec fn message_text(code: Seq<char>, args: Seq<Seq<char>>) -> Seq<char> {
    code + seq!['#'] + joined(args) + seq!['%']
}

/// What reading a message gives, for a code that names the variant `kind`
/// (or none) with fields of the given types: the unknown code is the first
/// error, then the first field that cannot be read, then arguments that are
/// left over.
pub open spec fn decode_message<K>(
    kind: Option<K>,
    types: Seq<FieldType>,
    code: Seq<char>,
    args: Seq<Seq<char>>,
) -> Result<Message<K>, ErrorView> {
    match kind {
        None => Err(ErrorView::UnknownCode(code)),
        Some(kind) => match read_fields(types, args) {
            Err(e) => Err(e),
            Ok(fields) => if args.len() > types.len() {
                Err(ErrorView::TooManyArgs)
            } else {
                Ok(Message { kind, fields })
            },
        },
    }
}

/// A sub-record that stands in place of a field is read as it is read
/// alone: where a message is read from its arguments, the `m` fields from
/// position `k` on are what their types read from the arguments `k .. k + m`.
pub proof fn lemma_flattened_fields<K>(
    kind: K,
    types: Seq<FieldType>,
    code: Seq<char>,
    args: Seq<Seq<char>>,
    message: Message<K>,
    k: int,
    m: int,
)
    requires
        decode_message(Some(kind), types, code, args) == Ok::<Message<K>, ErrorView>(message),
        0 <= k,
        0 <= m,
        k + m <= types.len(),
    ensures
        read_fields(types.subrange(k, k + m), args.subrange(k, k + m)) == Ok::<
            Seq<FieldValue>,
            ErrorView,
        >(message.fields.subrange(k, k + m)),
{
    lemma_read_fields_slice(types, args, message.fields, k, m);
}

/// A closed set of commands that travel as a code and a list of texts.
pub trait Command: Sized {
    /// The wire code of this command.
    spec fn code(&self) -> Seq<char>;

    /// The texts of this command's fields, in order.
    spec fn args(&self) -> Seq<Seq<char>>;

    /// Reads a command from its code and its arguments.  What is read has
    /// the code that was given; each set of commands says what it reads.
    fn from_protocol(code: &str, args: Vec<String>) -> (r: Result<Self, Error>)
        ensures
            r matches Ok(command) ==> command.code() == code@,
    ;

    /// The wire code of this command.
    fn ident(&self) -> (r: &str)
        ensures
            r@ == self.code(),
    ;

    /// The texts of this command's fields, in order.
    fn extract_args(&self) -> (r: Vec<String>)
        ensures
            texts(r@) == self.args(),
    ;

    /// The command as the text of one message.
    fn to_message(&self) -> (r: String)
        ensures
            r@ == message_text(self.code(), self.args()),
    {
        let mut out = String::from_str(self.ident());
        push_char(&mut out, '#');
        let args = self.extract_args();
        let mut i: usize = 0;
        assert(texts(args@).take(0) =~= Seq::<Seq<char>>::empty());
        while i < args.len()
            invariant
                i <= args.len(),
                out@ == self.code() + seq!['#'] + joined(texts(args@).take(i as int)),
            decreases args.len() - i,
        {
            proof {
                let upto = texts(args@).take(i + 1);
                assert(upto.drop_last() =~= texts(args@).take(i as int));
                assert(upto.last() == args@[i as int]@);
            }
            out.append(args[i].as_str());
            push_char(&mut out, '#');
            i = i + 1;
            assert(out@ =~= self.code() + seq!['#'] + joined(texts(args@).take(i as int)));
        }
        assert(texts(args@).take(i as int) =~= texts(args@));
        push_char(&mut out, '%');
        assert(out@ =~= message_text(self.code(), self.args()));
        out
    }
}

/// A record whose fields stand in place of one field of a command.
pub trait FromStrIter: Sized {
    /// The types of the record's fields, in order.
    spec fn types() -> Seq<FieldType>;

    /// The values of the record's fields, in order.
    spec fn fields(&self) -> Seq<FieldValue>;

    /// The number of arguments that the record takes: one per field.
    fn arity() -> (r: usize)
        ensures
            r == Self::types().len(),
    ;

    /// Reads the record from the first arguments of `args`, one per field;
    /// what follows them is left unread.
    fn from_str_iter(args: &[String]) -> (r: Result<Self, Error>)
        ensures
            match r {
                Ok(record) => read_fields(Self::types(), texts(args@)) == Ok::<
                    Seq<FieldValue>,
                    ErrorView,
                >(record.fields()),
                Err(e) => read_fields(Self::types(), texts(args@)) == Err::<
                    Seq<FieldValue>,
                    ErrorView,
                >(e@),
            },
    ;
}

/// Reads the fields of a variant from all of `args`: one value per type, and
/// nothing left over.
pub fn read_message(types: &[FieldType], args: &[String]) -> (r: Result<Vec<Value>, Error>)
    ensures
        match r {
            Ok(values) => {
                &&& read_fields(types@, texts(args@)) == Ok::<Seq<FieldValue>, ErrorView>(
                    views(values@),
                )
                &&& args@.len() <= types@.len()
            },
            Err(e) => match read_fields(types@, texts(args@)) {
                Ok(_) => args@.len() > types@.len() && e@ == ErrorView::TooManyArgs,
                Err(f) => e@ == f,
            },
        },
{
    let values = read_values(types, args)?;
    if args.len() > types.len() {
        return Err(Error::TooManyArgs);
    }
    Ok(values)
}

/// Takes the last value of the list, which is a text.
pub(crate) fn take_text(values: &mut Vec<Value>) -> (r: String)
    requires
        old(values).len() > 0,
        old(values)@.last()@ is Text,
    ensures
        final(values)@ == old(values)@.drop_last(),
        old(values)@.last()@ == FieldValue::Text(r@),
{
    match values.pop() {
        Some(Value::Text(s)) => s,
        _ => vstd::pervasive::unreached(),
    }
}

/// Takes the last value of the list, which is a `u32`.
pub(crate) fn take_u32(values: &mut Vec<Value>) -> (r: u32)
    requires
        old(values).len() > 0,
        old(values)@.last()@ is U32,
    ensures
        final(values)@ == old(values)@.drop_last(),
        old(values)@.last()@ == FieldValue::U32(r),
{
    match values.pop() {
        Some(Value::U32(n)) => n,
        _ => vstd::pervasive::unreached(),
    }
}

/// Takes the last value of the list, which is an `i32`.
pub(crate) fn take_i32(values: &mut Vec<Value>) -> (r: i32)
    requires
        old(values).len() > 0,
        old(values)@.last()@ is I32,
    ensures
        final(values)@ == old(values)@.drop_last(),
        old(values)@.last()@ == FieldValue::I32(r),
{
    match values.pop() {
        Some(Value::I32(n)) => n,
        _ => vstd::pervasive::unreached(),
    }
}

/// Takes the last value of the list, which is a `u8`.
pub(crate) fn take_u8(values: &mut Vec<Value>) -> (r: u8)
    requires
        old(values).len() > 0,
        old(values)@.last()@ is U8,
    ensures
        final(values)@ == old(values)@.drop_last(),
        old(values)@.last()@ == FieldValue::U8(r),
{
    match values.pop() {
        Some(Value::U8(n)) => n,
        _ => vstd::pervasive::unreached(),
    }
}

/// Takes the last value of the list, which is a boolean.
pub(crate) fn take_bool(values: &mut Vec<Value>) -> (r: bool)
    requires
        old(values).len() > 0,
        old(values)@.last()@ is Bool,
    ensures
        final(values)@ == old(values)@.drop_last(),
        old(values)@.last()@ == FieldValue::Bool(r),
{
    match values.pop() {
        Some(Value::Bool(b)) => b,
        _ => vstd::pervasive::unreached(),
    }
}

} // verus!
