//! The sub-records that commands carry in place of several fields.

use crate::command::{take_bool, take_text, FromStrIter};
use crate::error::Error;
use crate::field::{
    lemma_read_fields_ok, read_values, render_fields, render_values, texts, views, FieldType,
    FieldValue, Value,
};
use vstd::prelude::*;

verus! {

/// A piece of evidence: its name, its description and the name of its image.
#[derive(Debug, PartialEq)]
pub struct EvidenceArgs {
    pub name: String,
    pub description: String,
    pub image: String,
}

/// The roles that a player is willing to take in a case.
#[derive(Debug, PartialEq)]
pub struct CasePreferences {
    pub cm: bool,
    pub def: bool,
    pub pro: bool,
    pub judge: bool,
    pub jury: bool,
    pub steno: bool,
}

impl EvidenceArgs {
    /// The types of the record's fields as a list.
    pub fn field_types() -> (r: Vec<FieldType>)
        ensures
            r@ == <Self as FromStrIter>::types(),
    {
        let r = vec![FieldType::Text, FieldType::Text, FieldType::Text];
        assert(r@ =~= <Self as FromStrIter>::types());
        r
    }

    /// Appends the record's values to `out`, in the order of its fields.
    pub fn push_values(&self, out: &mut Vec<Value>)
        ensures
            views(final(out)@) == views(old(out)@) + self.fields(),
    {
        out.push(Value::Text(self.name.clone()));
        out.push(Value::Text(self.description.clone()));
        out.push(Value::Text(self.image.clone()));
        assert(views(out@) =~= views(old(out)@) + self.fields());
    }

    /// Takes the record's values from the end of `values`.
    pub(crate) fn take_values(values: &mut Vec<Value>) -> (r: Self)
        requires
            old(values).len() >= 3,
            forall|i: int|
                #![trigger old(values)@[i]]
                old(values).len() - 3 <= i < old(values).len() ==> old(values)@[i]@ is Text,
        ensures
            final(values)@ == old(values)@.take(old(values).len() - 3),
            r.fields() == views(old(values)@).skip(old(values).len() - 3),
    {
        let image = take_text(values);
        let description = take_text(values);
        let name = take_text(values);
        let r = EvidenceArgs { name, description, image };
        assert(values@ =~= old(values)@.take(old(values).len() - 3));
        assert(r.fields() =~= views(old(values)@).skip(old(values).len() - 3));
        r
    }

    /// The texts of the record's fields, in order.
    pub fn into_iter(&self) -> (r: Vec<String>)
        ensures
            texts(r@) == render_fields(self.fields()),
    {
        let r = vec![self.name.clone(), self.description.clone(), self.image.clone()];
        assert(texts(r@) =~= render_fields(self.fields()));
        r
    }
}

impl FromStrIter for EvidenceArgs {
    open spec fn types() -> Seq<FieldType> {
        seq![FieldType::Text, FieldType::Text, FieldType::Text]
    }

    open spec fn fields(&self) -> Seq<FieldValue> {
        seq![
            FieldValue::Text(self.name@),
            FieldValue::Text(self.description@),
            FieldValue::Text(self.image@),
        ]
    }

    fn arity() -> (r: usize) {
        3
    }

    fn from_str_iter(args: &[String]) -> (r: Result<Self, Error>) {
        let types = Self::field_types();
        let mut values = read_values(types.as_slice(), args)?;
        proof {
            lemma_read_fields_ok(Self::types(), texts(args@), views(values@));
        }
        let ghost read = views(values@);
        let r = Self::take_values(&mut values);
        assert(r.fields() =~= read);
        Ok(r)
    }
}

impl CasePreferences {
    /// The types of the record's fields as a list.
    pub fn field_types() -> (r: Vec<FieldType>)
        ensures
            r@ == <Self as FromStrIter>::types(),
    {
        let r = vec![
            FieldType::Bool,
            FieldType::Bool,
            FieldType::Bool,
            FieldType::Bool,
            FieldType::Bool,
            FieldType::Bool,
        ];
        assert(r@ =~= <Self as FromStrIter>::types());
        r
    }

    /// Appends the record's values to `out`, in the order of its fields.
    pub fn push_values(&self, out: &mut Vec<Value>)
        ensures
            views(final(out)@) == views(old(out)@) + self.fields(),
    {
        out.push(Value::Bool(self.cm));
        out.push(Value::Bool(self.def));
        out.push(Value::Bool(self.pro));
        out.push(Value::Bool(self.judge));
        out.push(Value::Bool(self.jury));
        out.push(Value::Bool(self.steno));
        assert(views(out@) =~= views(old(out)@) + self.fields());
    }

    /// Takes the record's values from the end of `values`.
    pub(crate) fn take_values(values: &mut Vec<Value>) -> (r: Self)
        requires
            old(values).len() >= 6,
            forall|i: int|
                #![trigger old(values)@[i]]
                old(values).len() - 6 <= i < old(values).len() ==> old(values)@[i]@ is Bool,
        ensures
            final(values)@ == old(values)@.take(old(values).len() - 6),
            r.fields() == views(old(values)@).skip(old(values).len() - 6),
    {
        let steno = take_bool(values);
        let jury = take_bool(values);
        let judge = take_bool(values);
        let pro = take_bool(values);
        let def = take_bool(values);
        let cm = take_bool(values);
        let r = CasePreferences { cm, def, pro, judge, jury, steno };
        assert(values@ =~= old(values)@.take(old(values).len() - 6));
        assert(r.fields() =~= views(old(values)@).skip(old(values).len() - 6));
        r
    }
}

impl CasePreferences {
    /// The texts of the record's fields, in order.
    pub fn into_iter(&self) -> (r: Vec<String>)
        ensures
            texts(r@) == render_fields(self.fields()),
    {
        let mut values: Vec<Value> = Vec::new();
        assert(views(values@) =~= Seq::<FieldValue>::empty());
        self.push_values(&mut values);
        assert(views(values@) =~= self.fields());
        render_values(&values)
    }
}

impl FromStrIter for CasePreferences {
    open spec fn types() -> Seq<FieldType> {
        seq![
            FieldType::Bool,
            FieldType::Bool,
            FieldType::Bool,
            FieldType::Bool,
            FieldType::Bool,
            FieldType::Bool,
        ]
    }

    open spec fn fields(&self) -> Seq<FieldValue> {
        seq![
            FieldValue::Bool(self.cm),
            FieldValue::Bool(self.def),
            FieldValue::Bool(self.pro),
            FieldValue::Bool(self.judge),
            FieldValue::Bool(self.jury),
            FieldValue::Bool(self.steno),
        ]
    }

    fn arity() -> (r: usize) {
        6
    }

    fn from_str_iter(args: &[String]) -> (r: Result<Self, Error>) {
        let types = Self::field_types();
        let mut values = read_values(types.as_slice(), args)?;
        proof {
            lemma_read_fields_ok(Self::types(), texts(args@), views(values@));
        }
        let ghost read = views(values@);
        let r = Self::take_values(&mut values);
        assert(r.fields() =~= read);
        Ok(r)
    }
}

} // verus!
