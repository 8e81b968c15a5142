//! The commands that the server sends.

use crate::command::{
    decode_message, read_message, take_text, take_u32, take_u8, Command, Message,
};
use crate::error::{Error, ErrorView};
use crate::field::{
    lemma_fields_round_trip, lemma_parse_field_type, lemma_read_fields_ok, render_fields,
    render_values, texts, types_of, views, FieldType, FieldValue, Value,
};
use crate::text::text_eq;
use crate::wire::wire_safe;
use vstd::prelude::*;

verus! {

/// The variants of [`ServerCommand`], in the order of their declaration.
#[derive(Clone, Copy, Debug, PartialEq, Eq, Structural)]
pub enum ServerKind {
    Handshake,
    KeepAlive,
    Decryptor,
    BanReason,
    ServerVersion,
    PlayerCount,
}

/// What the server sends to a client.
#[derive(Debug, PartialEq)]
pub enum ServerCommand {
    /// `HI#<hdid>#%`.
    Handshake(String),
    /// `CHECK#%`: the answer to a keep-alive.
    KeepAlive,
    /// `decryptor#<n>#%`: the preamble of every connection.
    Decryptor(u32),
    /// `BD#<reason>#%`: why the client is turned away.
    BanReason(String),
    /// `ID#<client_id>#<software>#<version>#%`.
    ServerVersion(u8, String, String),
    /// `PN#<player_count>#<max_players>#%`.
    PlayerCount(u8, u8),
}

impl ServerKind {
    /// The wire code of the variant.
    pub open spec fn code_text(self) -> Seq<char> {
        match self {
            ServerKind::Handshake => "HI"@,
            ServerKind::KeepAlive => "CHECK"@,
            ServerKind::Decryptor => "decryptor"@,
            ServerKind::BanReason => "BD"@,
            ServerKind::ServerVersion => "ID"@,
            ServerKind::PlayerCount => "PN"@,
        }
    }

    /// The wire code of the variant.
    pub fn code(self) -> (r: &'static str)
        ensures
            r@ == self.code_text(),
    {
        match self {
            ServerKind::Handshake => "HI",
            ServerKind::KeepAlive => "CHECK",
            ServerKind::Decryptor => "decryptor",
            ServerKind::BanReason => "BD",
            ServerKind::ServerVersion => "ID",
            ServerKind::PlayerCount => "PN",
        }
    }

    /// The variants in the order of their declaration.
    pub open spec fn declared() -> Seq<ServerKind> {
        seq![
            ServerKind::Handshake,
            ServerKind::KeepAlive,
            ServerKind::Decryptor,
            ServerKind::BanReason,
            ServerKind::ServerVersion,
            ServerKind::PlayerCount,
        ]
    }

    /// The variant at `i` is the first in the order of declaration that
    /// has the code.
    pub open spec fn first_with_code(code: Seq<char>, i: int) -> bool {
        &&& 0 <= i < Self::declared().len()
        &&& Self::declared()[i].code_text() == code
        &&& forall|j: int| 0 <= j < i ==> (#[trigger] Self::declared()[j]).code_text() != code
    }

    /// The variants in the order of their declaration.
    pub fn all() -> (r: Vec<ServerKind>)
        ensures
            r@ == Self::declared(),
    {
        let r = vec![
            ServerKind::Handshake,
            ServerKind::KeepAlive,
            ServerKind::Decryptor,
            ServerKind::BanReason,
            ServerKind::ServerVersion,
            ServerKind::PlayerCount,
        ];
        assert(r@ =~= Self::declared());
        r
    }

    /// The types of the variant's fields, in order, sub-records expanded in
    /// place.
    pub open spec fn types(self) -> Seq<FieldType> {
        match self {
            ServerKind::Handshake => seq![FieldType::Text],
            ServerKind::KeepAlive => Seq::empty(),
            ServerKind::Decryptor => seq![FieldType::U32],
            ServerKind::BanReason => seq![FieldType::Text],
            ServerKind::ServerVersion => seq![FieldType::U8, FieldType::Text, FieldType::Text],
            ServerKind::PlayerCount => seq![FieldType::U8, FieldType::U8],
        }
    }

    /// The types of the variant's fields as a list.
    pub fn field_types(self) -> (r: Vec<FieldType>)
        ensures
            r@ == self.types(),
    {
        let mut r: Vec<FieldType> = Vec::new();
        match self {
            ServerKind::Handshake => {
                r.push(FieldType::Text);
            },
            ServerKind::KeepAlive => {},
            ServerKind::Decryptor => {
                r.push(FieldType::U32);
            },
            ServerKind::BanReason => {
                r.push(FieldType::Text);
            },
            ServerKind::ServerVersion => {
                r.push(FieldType::U8);
                r.push(FieldType::Text);
                r.push(FieldType::Text);
            },
            ServerKind::PlayerCount => {
                r.push(FieldType::U8);
                r.push(FieldType::U8);
            },
        }
        assert(r@ =~= self.types());
        r
    }

    /// The variant that a code names: the first in the order of declaration
    /// that has it.
    pub open spec fn of_code(code: Seq<char>) -> Option<ServerKind> {
        if code == "HI"@ {
            Some(ServerKind::Handshake)
        } else if code == "CHECK"@ {
            Some(ServerKind::KeepAlive)
        } else if code == "decryptor"@ {
            Some(ServerKind::Decryptor)
        } else if code == "BD"@ {
            Some(ServerKind::BanReason)
        } else if code == "ID"@ {
            Some(ServerKind::ServerVersion)
        } else if code == "PN"@ {
            Some(ServerKind::PlayerCount)
        } else {
            None
        }
    }

    /// The variant that a code names, if any.
    pub fn from_code(code: &str) -> (r: Option<ServerKind>)
        ensures
            r == Self::of_code(code@),
    {
        if text_eq(code, "HI") {
            Some(ServerKind::Handshake)
        } else if text_eq(code, "CHECK") {
            Some(ServerKind::KeepAlive)
        } else if text_eq(code, "decryptor") {
            Some(ServerKind::Decryptor)
        } else if text_eq(code, "BD") {
            Some(ServerKind::BanReason)
        } else if text_eq(code, "ID") {
            Some(ServerKind::ServerVersion)
        } else if text_eq(code, "PN") {
            Some(ServerKind::PlayerCount)
        } else {
            None
        }
    }
}

impl View for ServerCommand {
    type V = Message<ServerKind>;

    open spec fn view(&self) -> Message<ServerKind> {
        Message { kind: self.kind_of(), fields: self.fields() }
    }
}

impl ServerCommand {
    /// Which variant this command is.
    pub open spec fn kind_of(&self) -> ServerKind {
        match self {
            ServerCommand::Handshake(..) => ServerKind::Handshake,
            ServerCommand::KeepAlive => ServerKind::KeepAlive,
            ServerCommand::Decryptor(..) => ServerKind::Decryptor,
            ServerCommand::BanReason(..) => ServerKind::BanReason,
            ServerCommand::ServerVersion(..) => ServerKind::ServerVersion,
            ServerCommand::PlayerCount(..) => ServerKind::PlayerCount,
        }
    }

    /// The values of this command's fields, in order, sub-records expanded
    /// in place.
    pub open spec fn fields(&self) -> Seq<FieldValue> {
        match self {
            ServerCommand::Handshake(x0) => seq![FieldValue::Text(x0@)],
            ServerCommand::KeepAlive => Seq::empty(),
            ServerCommand::Decryptor(x0) => seq![FieldValue::U32(*x0)],
            ServerCommand::BanReason(x0) => seq![FieldValue::Text(x0@)],
            ServerCommand::ServerVersion(x0, x1, x2) => seq![
                FieldValue::U8(*x0),
                FieldValue::Text(x1@),
                FieldValue::Text(x2@),
            ],
            ServerCommand::PlayerCount(x0, x1) => seq![FieldValue::U8(*x0), FieldValue::U8(*x1)],
        }
    }

    /// What reading a command from a code and its arguments gives: the
    /// variant that the code names, with its fields read from the
    /// arguments.
    pub open spec fn decoded(code: Seq<char>, args: Seq<Seq<char>>) -> Result<
        Message<ServerKind>,
        ErrorView,
    > {
        match ServerKind::of_code(code) {
            None => decode_message(None, Seq::empty(), code, args),
            Some(kind) => decode_message(Some(kind), kind.types(), code, args),
        }
    }

    /// Which variant this command is.
    pub fn kind(&self) -> (r: ServerKind)
        ensures
            r == self@.kind,
    {
        match self {
            ServerCommand::Handshake(..) => ServerKind::Handshake,
            ServerCommand::KeepAlive => ServerKind::KeepAlive,
            ServerCommand::Decryptor(..) => ServerKind::Decryptor,
            ServerCommand::BanReason(..) => ServerKind::BanReason,
            ServerCommand::ServerVersion(..) => ServerKind::ServerVersion,
            ServerCommand::PlayerCount(..) => ServerKind::PlayerCount,
        }
    }

    /// The values of this command's fields, in order, sub-records expanded
    /// in place.
    pub fn values(&self) -> (r: Vec<Value>)
        ensures
            views(r@) == self@.fields,
    {
        let mut r: Vec<Value> = Vec::new();
        assert(views(r@) =~= Seq::<FieldValue>::empty());
        match self {
            ServerCommand::Handshake(x0) => {
                r.push(Value::Text(x0.clone()));
            },
            ServerCommand::KeepAlive => {},
            ServerCommand::Decryptor(x0) => {
                r.push(Value::U32(*x0));
            },
            ServerCommand::BanReason(x0) => {
                r.push(Value::Text(x0.clone()));
            },
            ServerCommand::ServerVersion(x0, x1, x2) => {
                r.push(Value::U8(*x0));
                r.push(Value::Text(x1.clone()));
                r.push(Value::Text(x2.clone()));
            },
            ServerCommand::PlayerCount(x0, x1) => {
                r.push(Value::U8(*x0));
                r.push(Value::U8(*x1));
            },
        }
        assert(views(r@) =~= self@.fields);
        r
    }

    /// The wire code of this command.
    pub fn ident(&self) -> (r: &'static str)
        ensures
            r@ == self@.kind.code_text(),
    {
        self.kind().code()
    }

    /// The texts of this command's fields, in order.
    pub fn extract_args(&self) -> (r: Vec<String>)
        ensures
            texts(r@) == render_fields(self@.fields),
    {
        let values = self.values();
        render_values(&values)
    }

    /// The command of the given variant with the given field values.
    fn from_values(kind: ServerKind, values: Vec<Value>) -> (r: Self)
        requires
            types_of(views(values@)) == kind.types(),
        ensures
            r@ == (Message { kind, fields: views(values@) }),
    {
        let mut values = values;
        let ghost given = views(values@);
        proof {
            assert(given.len() == types_of(given).len());
            assert forall|i: int|
                #![trigger values@[i]]
                0 <= i < given.len() implies values@[i]@.field_type() == kind.types()[i] by {
                assert(types_of(given)[i] == given[i].field_type());
            }
        }
        let r = match kind {
            ServerKind::Handshake => {
                let x0 = take_text(&mut values);
                ServerCommand::Handshake(x0)
            },
            ServerKind::KeepAlive => ServerCommand::KeepAlive,
            ServerKind::Decryptor => {
                let x0 = take_u32(&mut values);
                ServerCommand::Decryptor(x0)
            },
            ServerKind::BanReason => {
                let x0 = take_text(&mut values);
                ServerCommand::BanReason(x0)
            },
            ServerKind::ServerVersion => {
                let x2 = take_text(&mut values);
                let x1 = take_text(&mut values);
                let x0 = take_u8(&mut values);
                ServerCommand::ServerVersion(x0, x1, x2)
            },
            ServerKind::PlayerCount => {
                let x1 = take_u8(&mut values);
                let x0 = take_u8(&mut values);
                ServerCommand::PlayerCount(x0, x1)
            },
        };
        assert(r@.fields =~= given);
        r
    }
}

impl Command for ServerCommand {
    open spec fn code(&self) -> Seq<char> {
        self@.kind.code_text()
    }

    open spec fn args(&self) -> Seq<Seq<char>> {
        render_fields(self@.fields)
    }

    fn from_protocol(code: &str, args: Vec<String>) -> (r: Result<Self, Error>)
        ensures
            match r {
                Ok(command) => Self::decoded(code@, texts(args@)) == Ok::<
                    Message<ServerKind>,
                    ErrorView,
                >(command@),
                Err(e) => Self::decoded(code@, texts(args@)) == Err::<
                    Message<ServerKind>,
                    ErrorView,
                >(e@),
            },
    {
        let kind = match ServerKind::from_code(code) {
            Some(kind) => kind,
            None => return Err(Error::UnknownCode(code.to_owned())),
        };
        let types = kind.field_types();
        let values = read_message(types.as_slice(), args.as_slice())?;
        proof {
            lemma_read_fields_ok(kind.types(), texts(args@), views(values@));
            assert(types_of(views(values@)) =~= kind.types()) by {
                assert forall|i: int| 0 <= i < kind.types().len() implies types_of(
                    views(values@),
                )[i] == kind.types()[i] by {
                    lemma_parse_field_type(kind.types()[i], texts(args@)[i]);
                }
            }
        }
        Ok(Self::from_values(kind, values))
    }

    fn ident(&self) -> (r: &str) {
        ServerCommand::ident(self)
    }

    fn extract_args(&self) -> (r: Vec<String>) {
        ServerCommand::extract_args(self)
    }
}

/// Every code is wire-safe, and names the variant that has it:
/// `of_code(kind.code_text()) == Some(kind)`.
pub proof fn lemma_codes(kind: ServerKind)
    ensures
        wire_safe(kind.code_text()),
        ServerKind::of_code(kind.code_text()) == Some(kind),
{
    reveal_strlit("HI");
    reveal_strlit("CHECK");
    reveal_strlit("decryptor");
    reveal_strlit("BD");
    reveal_strlit("ID");
    reveal_strlit("PN");
    assert("HI"@.len() == 2 && "HI"@[0] == 'H' && "HI"@[1] == 'I');
    assert("CHECK"@.len() == 5 && "CHECK"@[0] == 'C' && "CHECK"@[1] == 'H');
    assert("decryptor"@.len() == 9 && "decryptor"@[0] == 'd' && "decryptor"@[1] == 'e');
    assert("BD"@.len() == 2 && "BD"@[0] == 'B' && "BD"@[1] == 'D');
    assert("ID"@.len() == 2 && "ID"@[0] == 'I' && "ID"@[1] == 'D');
    assert("PN"@.len() == 2 && "PN"@[0] == 'P' && "PN"@[1] == 'N');
}

/// The first variant that has a code wins: `of_code` names the first
/// variant in the order of declaration that has the code, and none
/// where no variant has it.
pub proof fn lemma_first_match(code: Seq<char>)
    ensures
        match ServerKind::of_code(code) {
            Some(kind) => exists|i: int|
                #![trigger ServerKind::first_with_code(code, i)]
                ServerKind::first_with_code(code, i) && ServerKind::declared()[i] == kind,
            None => forall|i: int| !#[trigger] ServerKind::first_with_code(code, i),
        },
{
    let declared = ServerKind::declared();
    assert(declared[0] == ServerKind::Handshake);
    assert(declared[1] == ServerKind::KeepAlive);
    assert(declared[2] == ServerKind::Decryptor);
    assert(declared[3] == ServerKind::BanReason);
    assert(declared[4] == ServerKind::ServerVersion);
    assert(declared[5] == ServerKind::PlayerCount);
    if code == "HI"@ {
        assert(ServerKind::first_with_code(code, 0));
    } else if code == "CHECK"@ {
        assert(ServerKind::first_with_code(code, 1));
    } else if code == "decryptor"@ {
        assert(ServerKind::first_with_code(code, 2));
    } else if code == "BD"@ {
        assert(ServerKind::first_with_code(code, 3));
    } else if code == "ID"@ {
        assert(ServerKind::first_with_code(code, 4));
    } else if code == "PN"@ {
        assert(ServerKind::first_with_code(code, 5));
    }
}

/// The field values of a command are of the types of its variant.
pub proof fn lemma_field_types(command: ServerCommand)
    ensures
        types_of(command@.fields) == command@.kind.types(),
{
    assert(types_of(command@.fields) =~= command@.kind.types());
}

/// A command reads back from its own code and arguments:
/// `decoded(command.code(), command.args()) == Ok(command@)`.
pub proof fn lemma_round_trip(command: ServerCommand)
    ensures
        ServerCommand::decoded(command.code(), command.args()) == Ok::<
            Message<ServerKind>,
            ErrorView,
        >(command@),
{
    lemma_codes(command@.kind);
    lemma_field_types(command);
    lemma_fields_round_trip(command@.fields);
}

} // verus!
