//! The commands that the master directory sends.

use crate::command::{
    decode_message, read_message, Command, Message,
};
use crate::error::{Error, ErrorView};
use crate::field::{
    lemma_fields_round_trip, lemma_parse_field_type, lemma_read_fields_ok, render_fields,
    render_values, texts, types_of, views, FieldType, FieldValue, Value,
};
use crate::text::text_eq;
use crate::wire::wire_safe;
use vstd::prelude::*;

verus! {

/// The variants of [`MasterServerCommand`], in the order of their declaration.
#[derive(Clone, Copy, Debug, PartialEq, Eq, Structural)]
pub enum MasterServerKind {
    Check,
    Pong,
    NOSERV,
}

/// What the master directory sends to the server.
#[derive(Debug, PartialEq)]
pub enum MasterServerCommand {
    /// `CHECK#%`: the directory asks whether the server is there.
    Check,
    /// `PONG#%`: the directory answers a ping.
    Pong,
    /// `NOSERV#%`: the directory does not know the server.
    NOSERV,
}

impl MasterServerKind {
    /// The wire code of the variant.
    pub open spec fn code_text(self) -> Seq<char> {
        match self {
            MasterServerKind::Check => "CHECK"@,
            MasterServerKind::Pong => "PONG"@,
            MasterServerKind::NOSERV => "NOSERV"@,
        }
    }

    /// The wire code of the variant.
    pub fn code(self) -> (r: &'static str)
        ensures
            r@ == self.code_text(),
    {
        match self {
            MasterServerKind::Check => "CHECK",
            MasterServerKind::Pong => "PONG",
            MasterServerKind::NOSERV => "NOSERV",
        }
    }

    /// The variants in the order of their declaration.
    pub open spec fn declared() -> Seq<MasterServerKind> {
        seq![
            MasterServerKind::Check,
            MasterServerKind::Pong,
            MasterServerKind::NOSERV,
        ]
    }

    /// The variant at `i` is the first in the order of declaration that
    /// has the code.
    pub open spec fn first_with_code(code: Seq<char>, i: int) -> bool {
        &&& 0 <= i < Self::declared().len()
        &&& Self::declared()[i].code_text() == code
        &&& forall|j: int| 0 <= j < i ==> (#[trigger] Self::declared()[j]).code_text() != code
    }

    /// The variants in the order of their declaration.
    pub fn all() -> (r: Vec<MasterServerKind>)
        ensures
            r@ == Self::declared(),
    {
        let r = vec![
            MasterServerKind::Check,
            MasterServerKind::Pong,
            MasterServerKind::NOSERV,
        ];
        assert(r@ =~= Self::declared());
        r
    }

    /// The types of the variant's fields, in order, sub-records expanded in
    /// place.
    pub open spec fn types(self) -> Seq<FieldType> {
        match self {
            MasterServerKind::Check => Seq::empty(),
            MasterServerKind::Pong => Seq::empty(),
            MasterServerKind::NOSERV => Seq::empty(),
        }
    }

    /// The types of the variant's fields as a list.
    pub fn field_types(self) -> (r: Vec<FieldType>)
        ensures
            r@ == self.types(),
    {
        let mut r: Vec<FieldType> = Vec::new();
        match self {
            MasterServerKind::Check => {},
            MasterServerKind::Pong => {},
            MasterServerKind::NOSERV => {},
        }
        assert(r@ =~= self.types());
        r
    }

    /// The variant that a code names: the first in the order of declaration
    /// that has it.
    pub open spec fn of_code(code: Seq<char>) -> Option<MasterServerKind> {
        if code == "CHECK"@ {
            Some(MasterServerKind::Check)
        } else if code == "PONG"@ {
            Some(MasterServerKind::Pong)
        } else if code == "NOSERV"@ {
            Some(MasterServerKind::NOSERV)
        } else {
            None
        }
    }

    /// The variant that a code names, if any.
    pub fn from_code(code: &str) -> (r: Option<MasterServerKind>)
        ensures
            r == Self::of_code(code@),
    {
        if text_eq(code, "CHECK") {
            Some(MasterServerKind::Check)
        } else if text_eq(code, "PONG") {
            Some(MasterServerKind::Pong)
        } else if text_eq(code, "NOSERV") {
            Some(MasterServerKind::NOSERV)
        } else {
            None
        }
    }
}

impl View for MasterServerCommand {
    type V = Message<MasterServerKind>;

    open spec fn view(&self) -> Message<MasterServerKind> {
        Message { kind: self.kind_of(), fields: self.fields() }
    }
}

impl MasterServerCommand {
    /// Which variant this command is.
    pub open spec fn kind_of(&self) -> MasterServerKind {
        match self {
            MasterServerCommand::Check => MasterServerKind::Check,
            MasterServerCommand::Pong => MasterServerKind::Pong,
            MasterServerCommand::NOSERV => MasterServerKind::NOSERV,
        }
    }

    /// The values of this command's fields, in order, sub-records expanded
    /// in place.
    pub open spec fn fields(&self) -> Seq<FieldValue> {
        match self {
            MasterServerCommand::Check => Seq::empty(),
            MasterServerCommand::Pong => Seq::empty(),
            MasterServerCommand::NOSERV => Seq::empty(),
        }
    }

    /// What reading a command from a code and its arguments gives: the
    /// variant that the code names, with its fields read from the
    /// arguments.
    pub open spec fn decoded(code: Seq<char>, args: Seq<Seq<char>>) -> Result<
        Message<MasterServerKind>,
        ErrorView,
    > {
        match MasterServerKind::of_code(code) {
            None => decode_message(None, Seq::empty(), code, args),
            Some(kind) => decode_message(Some(kind), kind.types(), code, args),
        }
    }

    /// Which variant this command is.
    pub fn kind(&self) -> (r: MasterServerKind)
        ensures
            r == self@.kind,
    {
        match self {
            MasterServerCommand::Check => MasterServerKind::Check,
            MasterServerCommand::Pong => MasterServerKind::Pong,
            MasterServerCommand::NOSERV => MasterServerKind::NOSERV,
        }
    }

    /// The values of this command's fields, in order, sub-records expanded
    /// in place.
    pub fn values(&self) -> (r: Vec<Value>)
        ensures
            views(r@) == self@.fields,
    {
        let mut r: Vec<Value> = Vec::new();
        assert(views(r@) =~= Seq::<FieldValue>::empty());
        match self {
            MasterServerCommand::Check => {},
            MasterServerCommand::Pong => {},
            MasterServerCommand::NOSERV => {},
        }
        assert(views(r@) =~= self@.fields);
        r
    }

    /// The wire code of this command.
    pub fn ident(&self) -> (r: &'static str)
        ensures
            r@ == self@.kind.code_text(),
    {
        self.kind().code()
    }

    /// The texts of this command's fields, in order.
    pub fn extract_args(&self) -> (r: Vec<String>)
        ensures
            texts(r@) == render_fields(self@.fields),
    {
        let values = self.values();
        render_values(&values)
    }

    /// The command of the given variant with the given field values.
    fn from_values(kind: MasterServerKind, values: Vec<Value>) -> (r: Self)
        requires
            types_of(views(values@)) == kind.types(),
        ensures
            r@ == (Message { kind, fields: views(values@) }),
    {
        let mut values = values;
        let ghost given = views(values@);
        proof {
            assert(given.len() == types_of(given).len());
            assert forall|i: int|
                #![trigger values@[i]]
                0 <= i < given.len() implies values@[i]@.field_type() == kind.types()[i] by {
                assert(types_of(given)[i] == given[i].field_type());
            }
        }
        let r = match kind {
            MasterServerKind::Check => MasterServerCommand::Check,
            MasterServerKind::Pong => MasterServerCommand::Pong,
            MasterServerKind::NOSERV => MasterServerCommand::NOSERV,
        };
        assert(r@.fields =~= given);
        r
    }
}

impl Command for MasterServerCommand {
    open spec fn code(&self) -> Seq<char> {
        self@.kind.code_text()
    }

    open spec fn args(&self) -> Seq<Seq<char>> {
        render_fields(self@.fields)
    }

    fn from_protocol(code: &str, args: Vec<String>) -> (r: Result<Self, Error>)
        ensures
            match r {
                Ok(command) => Self::decoded(code@, texts(args@)) == Ok::<
                    Message<MasterServerKind>,
                    ErrorView,
                >(command@),
                Err(e) => Self::decoded(code@, texts(args@)) == Err::<
                    Message<MasterServerKind>,
                    ErrorView,
                >(e@),
            },
    {
        let kind = match MasterServerKind::from_code(code) {
            Some(kind) => kind,
            None => return Err(Error::UnknownCode(code.to_owned())),
        };
        let types = kind.field_types();
        let values = read_message(types.as_slice(), args.as_slice())?;
        proof {
            lemma_read_fields_ok(kind.types(), texts(args@), views(values@));
            assert(types_of(views(values@)) =~= kind.types()) by {
                assert forall|i: int| 0 <= i < kind.types().len() implies types_of(
                    views(values@),
                )[i] == kind.types()[i] by {
                    lemma_parse_field_type(kind.types()[i], texts(args@)[i]);
                }
            }
        }
        Ok(Self::from_values(kind, values))
    }

    fn ident(&self) -> (r: &str) {
        MasterServerCommand::ident(self)
    }

    fn extract_args(&self) -> (r: Vec<String>) {
        MasterServerCommand::extract_args(self)
    }
}

/// Every code is wire-safe, and names the variant that has it:
/// `of_code(kind.code_text()) == Some(kind)`.
pub proof fn lemma_codes(kind: MasterServerKind)
    ensures
        wire_safe(kind.code_text()),
        MasterServerKind::of_code(kind.code_text()) == Some(kind),
{
    reveal_strlit("CHECK");
    reveal_strlit("PONG");
    reveal_strlit("NOSERV");
    assert("CHECK"@.len() == 5 && "CHECK"@[0] == 'C' && "CHECK"@[1] == 'H');
    assert("PONG"@.len() == 4 && "PONG"@[0] == 'P' && "PONG"@[1] == 'O');
    assert("NOSERV"@.len() == 6 && "NOSERV"@[0] == 'N' && "NOSERV"@[1] == 'O');
}

/// The first variant that has a code wins: `of_code` names the first
/// variant in the order of declaration that has the code, and none
/// where no variant has it.
pub proof fn lemma_first_match(code: Seq<char>)
    ensures
        match MasterServerKind::of_code(code) {
            Some(kind) => exists|i: int|
                #![trigger MasterServerKind::first_with_code(code, i)]
                MasterServerKind::first_with_code(code, i) && MasterServerKind::declared()[i]
                    == kind,
            None => forall|i: int| !#[trigger] MasterServerKind::first_with_code(code, i),
        },
{
    let declared = MasterServerKind::declared();
    assert(declared[0] == MasterServerKind::Check);
    assert(declared[1] == MasterServerKind::Pong);
    assert(declared[2] == MasterServerKind::NOSERV);
    if code == "CHECK"@ {
        assert(MasterServerKind::first_with_code(code, 0));
    } else if code == "PONG"@ {
        assert(MasterServerKind::first_with_code(code, 1));
    } else if code == "NOSERV"@ {
        assert(MasterServerKind::first_with_code(code, 2));
    }
}

/// The field values of a command are of the types of its variant.
pub proof fn lemma_field_types(command: MasterServerCommand)
    ensures
        types_of(command@.fields) == command@.kind.types(),
{
    assert(types_of(command@.fields) =~= command@.kind.types());
}

/// A command reads back from its own code and arguments:
/// `decoded(command.code(), command.args()) == Ok(command@)`.
pub proof fn lemma_round_trip(command: MasterServerCommand)
    ensures
        MasterServerCommand::decoded(command.code(), command.args()) == Ok::<
            Message<MasterServerKind>,
            ErrorView,
        >(command@),
{
    lemma_codes(command@.kind);
    lemma_field_types(command);
    lemma_fields_round_trip(command@.fields);
}

} // verus!
