//! The commands that clients send.

use crate::command::{
    decode_message, read_message, take_i32, take_text, take_u32, Command, FromStrIter, Message,
};
use crate::error::{Error, ErrorView};
use crate::field::{
    lemma_fields_round_trip, lemma_parse_field_type, lemma_read_fields_ok, render_fields,
    render_values, texts, types_of, views, FieldType, FieldValue, Value,
};
use crate::records::{CasePreferences, EvidenceArgs};
use crate::text::text_eq;
use crate::wire::wire_safe;
use vstd::prelude::*;

verus! {

/// The variants of [`ClientCommand`], in the order of their declaration.
#[derive(Clone, Copy, Debug, PartialEq, Eq, Structural)]
pub enum ClientKind {
    Handshake,
    ClientVersion,
    KeepAlive,
    AskListLengths,
    AskListCharacters,
    CharacterList,
    EvidenceList,
    MusicList,
    AO2CharacterList,
    AO2MusicList,
    AO2Ready,
    SelectCharacter,
    ICMessage,
    OOCMessage,
    PlaySong,
    WTCEButtons,
    SetCasePreferences,
    CaseAnnounce,
    Penalties,
    AddEvidence,
    DeleteEvidence,
    EditEvidence,
    CallModButton,
}

/// What a client sends to the server.
#[derive(Debug, PartialEq)]
pub enum ClientCommand {
    /// `HI#<hdid>#%`: the client names its hardware id.
    Handshake(String),
    /// `ID#<pv>#<software>#<version>#%`: the client names its software.
    ClientVersion(u32, String, String),
    /// `CH#<n>#%`: the client is still there.
    KeepAlive(i32),
    /// `askchaa#%`: asks for the lengths of the lists.
    AskListLengths,
    /// `askchar2#%`: asks for the list of characters.
    AskListCharacters,
    /// `AN#<page>#%`: asks for a page of the character list.
    CharacterList(u32),
    /// `AE#<page>#%`: asks for a page of the evidence list.
    EvidenceList(u32),
    /// `AM#<page>#%`: asks for a page of the music list.
    MusicList(u32),
    /// `AC#%`: asks for the whole character list.
    AO2CharacterList,
    /// `AM#%`: asks for the whole music list.
    AO2MusicList,
    /// `RD#%`: the client has loaded everything.
    AO2Ready,
    /// `CC#<client_id>#<char_id>#<hdid>#%`: picks a character.
    SelectCharacter(u32, u32, String),
    /// `MS#%`: an in-character message.
    ICMessage,
    /// `CT#<name>#<message>#%`: an out-of-character message.
    OOCMessage(String, String),
    /// `MC#<song>#<char_id>#%`: plays a song.
    PlaySong(u32, u32),
    /// `RT#<type>#%`: witness testimony or cross examination.
    WTCEButtons(String),
    /// `SETCASE#<cases>#<cm>#<def>#<pro>#<judge>#<jury>#<steno>#%`.
    SetCasePreferences(String, CasePreferences),
    /// `CASEA#<title>#<cm>#<def>#<pro>#<judge>#<jury>#<steno>#%`.
    CaseAnnounce(String, CasePreferences),
    /// `HP#<bar>#<value>#%`: sets a penalty bar.
    Penalties(u32, u32),
    /// `PE#<name>#<description>#<image>#%`: adds a piece of evidence.
    AddEvidence(EvidenceArgs),
    /// `DE#<id>#%`: removes a piece of evidence.
    DeleteEvidence(u32),
    /// `EE#<id>#<name>#<description>#<image>#%`: changes a piece of evidence.
    EditEvidence(u32, EvidenceArgs),
    /// `ZZ#<reason>#%`: calls a moderator.
    CallModButton(String),
}

impl ClientKind {
    /// The wire code of the variant.
    pub open spec fn code_text(self) -> Seq<char> {
        match self {
            ClientKind::Handshake => "HI"@,
            ClientKind::ClientVersion => "ID"@,
            ClientKind::KeepAlive => "CH"@,
            ClientKind::AskListLengths => "askchaa"@,
            ClientKind::AskListCharacters => "askchar2"@,
            ClientKind::CharacterList => "AN"@,
            ClientKind::EvidenceList => "AE"@,
            ClientKind::MusicList => "AM"@,
            ClientKind::AO2CharacterList => "AC"@,
            ClientKind::AO2MusicList => "AM"@,
            ClientKind::AO2Ready => "RD"@,
            ClientKind::SelectCharacter => "CC"@,
            ClientKind::ICMessage => "MS"@,
            ClientKind::OOCMessage => "CT"@,
            ClientKind::PlaySong => "MC"@,
            ClientKind::WTCEButtons => "RT"@,
            ClientKind::SetCasePreferences => "SETCASE"@,
            ClientKind::CaseAnnounce => "CASEA"@,
            ClientKind::Penalties => "HP"@,
            ClientKind::AddEvidence => "PE"@,
            ClientKind::DeleteEvidence => "DE"@,
            ClientKind::EditEvidence => "EE"@,
            ClientKind::CallModButton => "ZZ"@,
        }
    }

    /// The wire code of the variant.
    pub fn code(self) -> (r: &'static str)
        ensures
            r@ == self.code_text(),
    {
        match self {
            ClientKind::Handshake => "HI",
            ClientKind::ClientVersion => "ID",
            ClientKind::KeepAlive => "CH",
            ClientKind::AskListLengths => "askchaa",
            ClientKind::AskListCharacters => "askchar2",
            ClientKind::CharacterList => "AN",
            ClientKind::EvidenceList => "AE",
            ClientKind::MusicList => "AM",
            ClientKind::AO2CharacterList => "AC",
            ClientKind::AO2MusicList => "AM",
            ClientKind::AO2Ready => "RD",
            ClientKind::SelectCharacter => "CC",
            ClientKind::ICMessage => "MS",
            ClientKind::OOCMessage => "CT",
            ClientKind::PlaySong => "MC",
            ClientKind::WTCEButtons => "RT",
            ClientKind::SetCasePreferences => "SETCASE",
            ClientKind::CaseAnnounce => "CASEA",
            ClientKind::Penalties => "HP",
            ClientKind::AddEvidence => "PE",
            ClientKind::DeleteEvidence => "DE",
            ClientKind::EditEvidence => "EE",
            ClientKind::CallModButton => "ZZ",
        }
    }

    /// The name of the handler method that the variant is dispatched to.
    pub open spec fn handle_text(self) -> Seq<char> {
        match self {
            ClientKind::Handshake => "handle_handshake"@,
            ClientKind::ClientVersion => "handle_client_version"@,
            ClientKind::KeepAlive => "handle_keepalive"@,
            ClientKind::AskListLengths => "handle_ask_list_lengths"@,
            ClientKind::AskListCharacters => "handle_ask_list_characters"@,
            ClientKind::CharacterList => "handle_character_list"@,
            ClientKind::EvidenceList => "handle_evidence_list"@,
            ClientKind::MusicList => "handle_music_list"@,
            ClientKind::AO2CharacterList => "handle_ao2_character_list"@,
            ClientKind::AO2MusicList => "handle_ao2_music_list"@,
            ClientKind::AO2Ready => "handle_ao2_ready"@,
            ClientKind::SelectCharacter => "handle_select_character"@,
            ClientKind::ICMessage => "handle_ic_message"@,
            ClientKind::OOCMessage => "handle_ooc_message"@,
            ClientKind::PlaySong => "handle_play_song"@,
            ClientKind::WTCEButtons => "handle_wtce_buttons"@,
            ClientKind::SetCasePreferences => "handle_set_case_preferences"@,
            ClientKind::CaseAnnounce => "handle_case_announce"@,
            ClientKind::Penalties => "handle_penalties"@,
            ClientKind::AddEvidence => "handle_add_evidence"@,
            ClientKind::DeleteEvidence => "handle_delete_evidence"@,
            ClientKind::EditEvidence => "handle_edit_evidence"@,
            ClientKind::CallModButton => "handle_call_mod_button"@,
        }
    }

    /// The name of the handler method that the variant is dispatched to.
    pub fn handle(self) -> (r: &'static str)
        ensures
            r@ == self.handle_text(),
    {
        match self {
            ClientKind::Handshake => "handle_handshake",
            ClientKind::ClientVersion => "handle_client_version",
            ClientKind::KeepAlive => "handle_keepalive",
            ClientKind::AskListLengths => "handle_ask_list_lengths",
            ClientKind::AskListCharacters => "handle_ask_list_characters",
            ClientKind::CharacterList => "handle_character_list",
            ClientKind::EvidenceList => "handle_evidence_list",
            ClientKind::MusicList => "handle_music_list",
            ClientKind::AO2CharacterList => "handle_ao2_character_list",
            ClientKind::AO2MusicList => "handle_ao2_music_list",
            ClientKind::AO2Ready => "handle_ao2_ready",
            ClientKind::SelectCharacter => "handle_select_character",
            ClientKind::ICMessage => "handle_ic_message",
            ClientKind::OOCMessage => "handle_ooc_message",
            ClientKind::PlaySong => "handle_play_song",
            ClientKind::WTCEButtons => "handle_wtce_buttons",
            ClientKind::SetCasePreferences => "handle_set_case_preferences",
            ClientKind::CaseAnnounce => "handle_case_announce",
            ClientKind::Penalties => "handle_penalties",
            ClientKind::AddEvidence => "handle_add_evidence",
            ClientKind::DeleteEvidence => "handle_delete_evidence",
            ClientKind::EditEvidence => "handle_edit_evidence",
            ClientKind::CallModButton => "handle_call_mod_button",
        }
    }

    /// The variants in the order of their declaration.
    pub open spec fn declared() -> Seq<ClientKind> {
        seq![
            ClientKind::Handshake,
            ClientKind::ClientVersion,
            ClientKind::KeepAlive,
            ClientKind::AskListLengths,
            ClientKind::AskListCharacters,
            ClientKind::CharacterList,
            ClientKind::EvidenceList,
            ClientKind::MusicList,
            ClientKind::AO2CharacterList,
            ClientKind::AO2MusicList,
            ClientKind::AO2Ready,
            ClientKind::SelectCharacter,
            ClientKind::ICMessage,
            ClientKind::OOCMessage,
            ClientKind::PlaySong,
            ClientKind::WTCEButtons,
            ClientKind::SetCasePreferences,
            ClientKind::CaseAnnounce,
            ClientKind::Penalties,
            ClientKind::AddEvidence,
            ClientKind::DeleteEvidence,
            ClientKind::EditEvidence,
            ClientKind::CallModButton,
        ]
    }

    /// The variant at `i` is the first in the order of declaration that
    /// has the code.
    pub open spec fn first_with_code(code: Seq<char>, i: int) -> bool {
        &&& 0 <= i < Self::declared().len()
        &&& Self::declared()[i].code_text() == code
        &&& forall|j: int| 0 <= j < i ==> (#[trigger] Self::declared()[j]).code_text() != code
    }

    /// The variants in the order of their declaration.
    pub fn all() -> (r: Vec<ClientKind>)
        ensures
            r@ == Self::declared(),
    {
        let r = vec![
            ClientKind::Handshake,
            ClientKind::ClientVersion,
            ClientKind::KeepAlive,
            ClientKind::AskListLengths,
            ClientKind::AskListCharacters,
            ClientKind::CharacterList,
            ClientKind::EvidenceList,
            ClientKind::MusicList,
            ClientKind::AO2CharacterList,
            ClientKind::AO2MusicList,
            ClientKind::AO2Ready,
            ClientKind::SelectCharacter,
            ClientKind::ICMessage,
            ClientKind::OOCMessage,
            ClientKind::PlaySong,
            ClientKind::WTCEButtons,
            ClientKind::SetCasePreferences,
            ClientKind::CaseAnnounce,
            ClientKind::Penalties,
            ClientKind::AddEvidence,
            ClientKind::DeleteEvidence,
            ClientKind::EditEvidence,
            ClientKind::CallModButton,
        ];
        assert(r@ =~= Self::declared());
        r
    }

    /// The types of the variant's fields, in order, sub-records expanded in
    /// place.
    pub open spec fn types(self) -> Seq<FieldType> {
        match self {
            ClientKind::Handshake => seq![FieldType::Text],
            ClientKind::ClientVersion => seq![FieldType::U32, FieldType::Text, FieldType::Text],
            ClientKind::KeepAlive => seq![FieldType::I32],
            ClientKind::AskListLengths => Seq::empty(),
            ClientKind::AskListCharacters => Seq::empty(),
            ClientKind::CharacterList => seq![FieldType::U32],
            ClientKind::EvidenceList => seq![FieldType::U32],
            ClientKind::MusicList => seq![FieldType::U32],
            ClientKind::AO2CharacterList => Seq::empty(),
            ClientKind::AO2MusicList => Seq::empty(),
            ClientKind::AO2Ready => Seq::empty(),
            ClientKind::SelectCharacter => seq![FieldType::U32, FieldType::U32, FieldType::Text],
            ClientKind::ICMessage => Seq::empty(),
            ClientKind::OOCMessage => seq![FieldType::Text, FieldType::Text],
            ClientKind::PlaySong => seq![FieldType::U32, FieldType::U32],
            ClientKind::WTCEButtons => seq![FieldType::Text],
            ClientKind::SetCasePreferences => seq![FieldType::Text]
                + <CasePreferences as FromStrIter>::types(),
            ClientKind::CaseAnnounce => seq![FieldType::Text]
                + <CasePreferences as FromStrIter>::types(),
            ClientKind::Penalties => seq![FieldType::U32, FieldType::U32],
            ClientKind::AddEvidence => <EvidenceArgs as FromStrIter>::types(),
            ClientKind::DeleteEvidence => seq![FieldType::U32],
            ClientKind::EditEvidence => seq![FieldType::U32]
                + <EvidenceArgs as FromStrIter>::types(),
            ClientKind::CallModButton => seq![FieldType::Text],
        }
    }

    /// The types of the variant's fields as a list.
    pub fn field_types(self) -> (r: Vec<FieldType>)
        ensures
            r@ == self.types(),
    {
        let mut r: Vec<FieldType> = Vec::new();
        match self {
            ClientKind::Handshake => {
                r.push(FieldType::Text);
            },
            ClientKind::ClientVersion => {
                r.push(FieldType::U32);
                r.push(FieldType::Text);
                r.push(FieldType::Text);
            },
            ClientKind::KeepAlive => {
                r.push(FieldType::I32);
            },
            ClientKind::AskListLengths => {},
            ClientKind::AskListCharacters => {},
            ClientKind::CharacterList => {
                r.push(FieldType::U32);
            },
            ClientKind::EvidenceList => {
                r.push(FieldType::U32);
            },
            ClientKind::MusicList => {
                r.push(FieldType::U32);
            },
            ClientKind::AO2CharacterList => {},
            ClientKind::AO2MusicList => {},
            ClientKind::AO2Ready => {},
            ClientKind::SelectCharacter => {
                r.push(FieldType::U32);
                r.push(FieldType::U32);
                r.push(FieldType::Text);
            },
            ClientKind::ICMessage => {},
            ClientKind::OOCMessage => {
                r.push(FieldType::Text);
                r.push(FieldType::Text);
            },
            ClientKind::PlaySong => {
                r.push(FieldType::U32);
                r.push(FieldType::U32);
            },
            ClientKind::WTCEButtons => {
                r.push(FieldType::Text);
            },
            ClientKind::SetCasePreferences => {
                r.push(FieldType::Text);
                let mut record = CasePreferences::field_types();
                r.append(&mut record);
            },
            ClientKind::CaseAnnounce => {
                r.push(FieldType::Text);
                let mut record = CasePreferences::field_types();
                r.append(&mut record);
            },
            ClientKind::Penalties => {
                r.push(FieldType::U32);
                r.push(FieldType::U32);
            },
            ClientKind::AddEvidence => {
                let mut record = EvidenceArgs::field_types();
                r.append(&mut record);
            },
            ClientKind::DeleteEvidence => {
                r.push(FieldType::U32);
            },
            ClientKind::EditEvidence => {
                r.push(FieldType::U32);
                let mut record = EvidenceArgs::field_types();
                r.append(&mut record);
            },
            ClientKind::CallModButton => {
                r.push(FieldType::Text);
            },
        }
        assert(r@ =~= self.types());
        r
    }

    /// The variant that a code names: the first in the order of declaration
    /// that has it.
    pub open spec fn of_code(code: Seq<char>) -> Option<ClientKind> {
        if code == "HI"@ {
            Some(ClientKind::Handshake)
        } else if code == "ID"@ {
            Some(ClientKind::ClientVersion)
        } else if code == "CH"@ {
            Some(ClientKind::KeepAlive)
        } else if code == "askchaa"@ {
            Some(ClientKind::AskListLengths)
        } else if code == "askchar2"@ {
            Some(ClientKind::AskListCharacters)
        } else if code == "AN"@ {
            Some(ClientKind::CharacterList)
        } else if code == "AE"@ {
            Some(ClientKind::EvidenceList)
        } else if code == "AM"@ {
            Some(ClientKind::MusicList)
        } else if code == "AC"@ {
            Some(ClientKind::AO2CharacterList)
        } else if code == "AM"@ {
            Some(ClientKind::AO2MusicList)
        } else if code == "RD"@ {
            Some(ClientKind::AO2Ready)
        } else if code == "CC"@ {
            Some(ClientKind::SelectCharacter)
        } else if code == "MS"@ {
            Some(ClientKind::ICMessage)
        } else if code == "CT"@ {
            Some(ClientKind::OOCMessage)
        } else if code == "MC"@ {
            Some(ClientKind::PlaySong)
        } else if code == "RT"@ {
            Some(ClientKind::WTCEButtons)
        } else if code == "SETCASE"@ {
            Some(ClientKind::SetCasePreferences)
        } else if code == "CASEA"@ {
            Some(ClientKind::CaseAnnounce)
        } else if code == "HP"@ {
            Some(ClientKind::Penalties)
        } else if code == "PE"@ {
            Some(ClientKind::AddEvidence)
        } else if code == "DE"@ {
            Some(ClientKind::DeleteEvidence)
        } else if code == "EE"@ {
            Some(ClientKind::EditEvidence)
        } else if code == "ZZ"@ {
            Some(ClientKind::CallModButton)
        } else {
            None
        }
    }

    /// The variant that a code names, if any.
    pub fn from_code(code: &str) -> (r: Option<ClientKind>)
        ensures
            r == Self::of_code(code@),
    {
        if text_eq(code, "HI") {
            Some(ClientKind::Handshake)
        } else if text_eq(code, "ID") {
            Some(ClientKind::ClientVersion)
        } else if text_eq(code, "CH") {
            Some(ClientKind::KeepAlive)
        } else if text_eq(code, "askchaa") {
            Some(ClientKind::AskListLengths)
        } else if text_eq(code, "askchar2") {
            Some(ClientKind::AskListCharacters)
        } else if text_eq(code, "AN") {
            Some(ClientKind::CharacterList)
        } else if text_eq(code, "AE") {
            Some(ClientKind::EvidenceList)
        } else if text_eq(code, "AM") {
            Some(ClientKind::MusicList)
        } else if text_eq(code, "AC") {
            Some(ClientKind::AO2CharacterList)
        } else if text_eq(code, "AM") {
            Some(ClientKind::AO2MusicList)
        } else if text_eq(code, "RD") {
            Some(ClientKind::AO2Ready)
        } else if text_eq(code, "CC") {
            Some(ClientKind::SelectCharacter)
        } else if text_eq(code, "MS") {
            Some(ClientKind::ICMessage)
        } else if text_eq(code, "CT") {
            Some(ClientKind::OOCMessage)
        } else if text_eq(code, "MC") {
            Some(ClientKind::PlaySong)
        } else if text_eq(code, "RT") {
            Some(ClientKind::WTCEButtons)
        } else if text_eq(code, "SETCASE") {
            Some(ClientKind::SetCasePreferences)
        } else if text_eq(code, "CASEA") {
            Some(ClientKind::CaseAnnounce)
        } else if text_eq(code, "HP") {
            Some(ClientKind::Penalties)
        } else if text_eq(code, "PE") {
            Some(ClientKind::AddEvidence)
        } else if text_eq(code, "DE") {
            Some(ClientKind::DeleteEvidence)
        } else if text_eq(code, "EE") {
            Some(ClientKind::EditEvidence)
        } else if text_eq(code, "ZZ") {
            Some(ClientKind::CallModButton)
        } else {
            None
        }
    }
}

impl View for ClientCommand {
    type V = Message<ClientKind>;

    open spec fn view(&self) -> Message<ClientKind> {
        Message { kind: self.kind_of(), fields: self.fields() }
    }
}

impl ClientCommand {
    /// Which variant this command is.
    pub open spec fn kind_of(&self) -> ClientKind {
        match self {
            ClientCommand::Handshake(..) => ClientKind::Handshake,
            ClientCommand::ClientVersion(..) => ClientKind::ClientVersion,
            ClientCommand::KeepAlive(..) => ClientKind::KeepAlive,
            ClientCommand::AskListLengths => ClientKind::AskListLengths,
            ClientCommand::AskListCharacters => ClientKind::AskListCharacters,
            ClientCommand::CharacterList(..) => ClientKind::CharacterList,
            ClientCommand::EvidenceList(..) => ClientKind::EvidenceList,
            ClientCommand::MusicList(..) => ClientKind::MusicList,
            ClientCommand::AO2CharacterList => ClientKind::AO2CharacterList,
            ClientCommand::AO2MusicList => ClientKind::AO2MusicList,
            ClientCommand::AO2Ready => ClientKind::AO2Ready,
            ClientCommand::SelectCharacter(..) => ClientKind::SelectCharacter,
            ClientCommand::ICMessage => ClientKind::ICMessage,
            ClientCommand::OOCMessage(..) => ClientKind::OOCMessage,
            ClientCommand::PlaySong(..) => ClientKind::PlaySong,
            ClientCommand::WTCEButtons(..) => ClientKind::WTCEButtons,
            ClientCommand::SetCasePreferences(..) => ClientKind::SetCasePreferences,
            ClientCommand::CaseAnnounce(..) => ClientKind::CaseAnnounce,
            ClientCommand::Penalties(..) => ClientKind::Penalties,
            ClientCommand::AddEvidence(..) => ClientKind::AddEvidence,
            ClientCommand::DeleteEvidence(..) => ClientKind::DeleteEvidence,
            ClientCommand::EditEvidence(..) => ClientKind::EditEvidence,
            ClientCommand::CallModButton(..) => ClientKind::CallModButton,
        }
    }

    /// The values of this command's fields, in order, sub-records expanded
    /// in place.
    pub open spec fn fields(&self) -> Seq<FieldValue> {
        match self {
            ClientCommand::Handshake(x0) => seq![FieldValue::Text(x0@)],
            ClientCommand::ClientVersion(x0, x1, x2) => seq![
                FieldValue::U32(*x0),
                FieldValue::Text(x1@),
                FieldValue::Text(x2@),
            ],
            ClientCommand::KeepAlive(x0) => seq![FieldValue::I32(*x0)],
            ClientCommand::AskListLengths => Seq::empty(),
            ClientCommand::AskListCharacters => Seq::empty(),
            ClientCommand::CharacterList(x0) => seq![FieldValue::U32(*x0)],
            ClientCommand::EvidenceList(x0) => seq![FieldValue::U32(*x0)],
            ClientCommand::MusicList(x0) => seq![FieldValue::U32(*x0)],
            ClientCommand::AO2CharacterList => Seq::empty(),
            ClientCommand::AO2MusicList => Seq::empty(),
            ClientCommand::AO2Ready => Seq::empty(),
            ClientCommand::SelectCharacter(x0, x1, x2) => seq![
                FieldValue::U32(*x0),
                FieldValue::U32(*x1),
                FieldValue::Text(x2@),
            ],
            ClientCommand::ICMessage => Seq::empty(),
            ClientCommand::OOCMessage(x0, x1) => seq![FieldValue::Text(x0@), FieldValue::Text(x1@)],
            ClientCommand::PlaySong(x0, x1) => seq![FieldValue::U32(*x0), FieldValue::U32(*x1)],
            ClientCommand::WTCEButtons(x0) => seq![FieldValue::Text(x0@)],
            ClientCommand::SetCasePreferences(x0, x1) => seq![FieldValue::Text(x0@)] + x1.fields(),
            ClientCommand::CaseAnnounce(x0, x1) => seq![FieldValue::Text(x0@)] + x1.fields(),
            ClientCommand::Penalties(x0, x1) => seq![FieldValue::U32(*x0), FieldValue::U32(*x1)],
            ClientCommand::AddEvidence(x0) => x0.fields(),
            ClientCommand::DeleteEvidence(x0) => seq![FieldValue::U32(*x0)],
            ClientCommand::EditEvidence(x0, x1) => seq![FieldValue::U32(*x0)] + x1.fields(),
            ClientCommand::CallModButton(x0) => seq![FieldValue::Text(x0@)],
        }
    }

    /// What reading a command from a code and its arguments gives: the
    /// variant that the code names, with its fields read from the
    /// arguments.
    pub open spec fn decoded(code: Seq<char>, args: Seq<Seq<char>>) -> Result<
        Message<ClientKind>,
        ErrorView,
    > {
        match ClientKind::of_code(code) {
            None => decode_message(None, Seq::empty(), code, args),
            Some(kind) => decode_message(Some(kind), kind.types(), code, args),
        }
    }

    /// Which variant this command is.
    pub fn kind(&self) -> (r: ClientKind)
        ensures
            r == self@.kind,
    {
        match self {
            ClientCommand::Handshake(..) => ClientKind::Handshake,
            ClientCommand::ClientVersion(..) => ClientKind::ClientVersion,
            ClientCommand::KeepAlive(..) => ClientKind::KeepAlive,
            ClientCommand::AskListLengths => ClientKind::AskListLengths,
            ClientCommand::AskListCharacters => ClientKind::AskListCharacters,
            ClientCommand::CharacterList(..) => ClientKind::CharacterList,
            ClientCommand::EvidenceList(..) => ClientKind::EvidenceList,
            ClientCommand::MusicList(..) => ClientKind::MusicList,
            ClientCommand::AO2CharacterList => ClientKind::AO2CharacterList,
            ClientCommand::AO2MusicList => ClientKind::AO2MusicList,
            ClientCommand::AO2Ready => ClientKind::AO2Ready,
            ClientCommand::SelectCharacter(..) => ClientKind::SelectCharacter,
            ClientCommand::ICMessage => ClientKind::ICMessage,
            ClientCommand::OOCMessage(..) => ClientKind::OOCMessage,
            ClientCommand::PlaySong(..) => ClientKind::PlaySong,
            ClientCommand::WTCEButtons(..) => ClientKind::WTCEButtons,
            ClientCommand::SetCasePreferences(..) => ClientKind::SetCasePreferences,
            ClientCommand::CaseAnnounce(..) => ClientKind::CaseAnnounce,
            ClientCommand::Penalties(..) => ClientKind::Penalties,
            ClientCommand::AddEvidence(..) => ClientKind::AddEvidence,
            ClientCommand::DeleteEvidence(..) => ClientKind::DeleteEvidence,
            ClientCommand::EditEvidence(..) => ClientKind::EditEvidence,
            ClientCommand::CallModButton(..) => ClientKind::CallModButton,
        }
    }

    /// The values of this command's fields, in order, sub-records expanded
    /// in place.
    pub fn values(&self) -> (r: Vec<Value>)
        ensures
            views(r@) == self@.fields,
    {
        let mut r: Vec<Value> = Vec::new();
        assert(views(r@) =~= Seq::<FieldValue>::empty());
        match self {
            ClientCommand::Handshake(x0) => {
                r.push(Value::Text(x0.clone()));
            },
            ClientCommand::ClientVersion(x0, x1, x2) => {
                r.push(Value::U32(*x0));
                r.push(Value::Text(x1.clone()));
                r.push(Value::Text(x2.clone()));
            },
            ClientCommand::KeepAlive(x0) => {
                r.push(Value::I32(*x0));
            },
            ClientCommand::AskListLengths => {},
            ClientCommand::AskListCharacters => {},
            ClientCommand::CharacterList(x0) => {
                r.push(Value::U32(*x0));
            },
            ClientCommand::EvidenceList(x0) => {
                r.push(Value::U32(*x0));
            },
            ClientCommand::MusicList(x0) => {
                r.push(Value::U32(*x0));
            },
            ClientCommand::AO2CharacterList => {},
            ClientCommand::AO2MusicList => {},
            ClientCommand::AO2Ready => {},
            ClientCommand::SelectCharacter(x0, x1, x2) => {
                r.push(Value::U32(*x0));
                r.push(Value::U32(*x1));
                r.push(Value::Text(x2.clone()));
            },
            ClientCommand::ICMessage => {},
            ClientCommand::OOCMessage(x0, x1) => {
                r.push(Value::Text(x0.clone()));
                r.push(Value::Text(x1.clone()));
            },
            ClientCommand::PlaySong(x0, x1) => {
                r.push(Value::U32(*x0));
                r.push(Value::U32(*x1));
            },
            ClientCommand::WTCEButtons(x0) => {
                r.push(Value::Text(x0.clone()));
            },
            ClientCommand::SetCasePreferences(x0, x1) => {
                r.push(Value::Text(x0.clone()));
                let ghost before = views(r@);
                x1.push_values(&mut r);
                assert(views(r@) == before + x1.fields());
            },
            ClientCommand::CaseAnnounce(x0, x1) => {
                r.push(Value::Text(x0.clone()));
                let ghost before = views(r@);
                x1.push_values(&mut r);
                assert(views(r@) == before + x1.fields());
            },
            ClientCommand::Penalties(x0, x1) => {
                r.push(Value::U32(*x0));
                r.push(Value::U32(*x1));
            },
            ClientCommand::AddEvidence(x0) => {
                let ghost before = views(r@);
                x0.push_values(&mut r);
                assert(views(r@) == before + x0.fields());
            },
            ClientCommand::DeleteEvidence(x0) => {
                r.push(Value::U32(*x0));
            },
            ClientCommand::EditEvidence(x0, x1) => {
                r.push(Value::U32(*x0));
                let ghost before = views(r@);
                x1.push_values(&mut r);
                assert(views(r@) == before + x1.fields());
            },
            ClientCommand::CallModButton(x0) => {
                r.push(Value::Text(x0.clone()));
            },
        }
        assert(views(r@) =~= self@.fields);
        r
    }

    /// The wire code of this command.
    pub fn ident(&self) -> (r: &'static str)
        ensures
            r@ == self@.kind.code_text(),
    {
        self.kind().code()
    }

    /// The texts of this command's fields, in order.
    pub fn extract_args(&self) -> (r: Vec<String>)
        ensures
            texts(r@) == render_fields(self@.fields),
    {
        let values = self.values();
        render_values(&values)
    }

    /// The command of the given variant with the given field values.
    fn from_values(kind: ClientKind, values: Vec<Value>) -> (r: Self)
        requires
            types_of(views(values@)) == kind.types(),
        ensures
            r@ == (Message { kind, fields: views(values@) }),
    {
        let mut values = values;
        let ghost given = views(values@);
        proof {
            assert(given.len() == types_of(given).len());
            assert forall|i: int|
                #![trigger values@[i]]
                0 <= i < given.len() implies values@[i]@.field_type() == kind.types()[i] by {
                assert(types_of(given)[i] == given[i].field_type());
            }
        }
        let r = match kind {
            ClientKind::Handshake => {
                let x0 = take_text(&mut values);
                ClientCommand::Handshake(x0)
            },
            ClientKind::ClientVersion => {
                let x2 = take_text(&mut values);
                let x1 = take_text(&mut values);
                let x0 = take_u32(&mut values);
                ClientCommand::ClientVersion(x0, x1, x2)
            },
            ClientKind::KeepAlive => {
                let x0 = take_i32(&mut values);
                ClientCommand::KeepAlive(x0)
            },
            ClientKind::AskListLengths => ClientCommand::AskListLengths,
            ClientKind::AskListCharacters => ClientCommand::AskListCharacters,
            ClientKind::CharacterList => {
                let x0 = take_u32(&mut values);
                ClientCommand::CharacterList(x0)
            },
            ClientKind::EvidenceList => {
                let x0 = take_u32(&mut values);
                ClientCommand::EvidenceList(x0)
            },
            ClientKind::MusicList => {
                let x0 = take_u32(&mut values);
                ClientCommand::MusicList(x0)
            },
            ClientKind::AO2CharacterList => ClientCommand::AO2CharacterList,
            ClientKind::AO2MusicList => ClientCommand::AO2MusicList,
            ClientKind::AO2Ready => ClientCommand::AO2Ready,
            ClientKind::SelectCharacter => {
                let x2 = take_text(&mut values);
                let x1 = take_u32(&mut values);
                let x0 = take_u32(&mut values);
                ClientCommand::SelectCharacter(x0, x1, x2)
            },
            ClientKind::ICMessage => ClientCommand::ICMessage,
            ClientKind::OOCMessage => {
                let x1 = take_text(&mut values);
                let x0 = take_text(&mut values);
                ClientCommand::OOCMessage(x0, x1)
            },
            ClientKind::PlaySong => {
                let x1 = take_u32(&mut values);
                let x0 = take_u32(&mut values);
                ClientCommand::PlaySong(x0, x1)
            },
            ClientKind::WTCEButtons => {
                let x0 = take_text(&mut values);
                ClientCommand::WTCEButtons(x0)
            },
            ClientKind::SetCasePreferences => {
                let x1 = CasePreferences::take_values(&mut values);
                let x0 = take_text(&mut values);
                ClientCommand::SetCasePreferences(x0, x1)
            },
            ClientKind::CaseAnnounce => {
                let x1 = CasePreferences::take_values(&mut values);
                let x0 = take_text(&mut values);
                ClientCommand::CaseAnnounce(x0, x1)
            },
            ClientKind::Penalties => {
                let x1 = take_u32(&mut values);
                let x0 = take_u32(&mut values);
                ClientCommand::Penalties(x0, x1)
            },
            ClientKind::AddEvidence => {
                let x0 = EvidenceArgs::take_values(&mut values);
                ClientCommand::AddEvidence(x0)
            },
            ClientKind::DeleteEvidence => {
                let x0 = take_u32(&mut values);
                ClientCommand::DeleteEvidence(x0)
            },
            ClientKind::EditEvidence => {
                let x1 = EvidenceArgs::take_values(&mut values);
                let x0 = take_u32(&mut values);
                ClientCommand::EditEvidence(x0, x1)
            },
            ClientKind::CallModButton => {
                let x0 = take_text(&mut values);
                ClientCommand::CallModButton(x0)
            },
        };
        assert(r@.fields =~= given);
        r
    }
}

impl Command for ClientCommand {
    open spec fn code(&self) -> Seq<char> {
        self@.kind.code_text()
    }

    open spec fn args(&self) -> Seq<Seq<char>> {
        render_fields(self@.fields)
    }

    fn from_protocol(code: &str, args: Vec<String>) -> (r: Result<Self, Error>)
        ensures
            match r {
                Ok(command) => Self::decoded(code@, texts(args@)) == Ok::<
                    Message<ClientKind>,
                    ErrorView,
                >(command@),
                Err(e) => Self::decoded(code@, texts(args@)) == Err::<
                    Message<ClientKind>,
                    ErrorView,
                >(e@),
            },
    {
        let kind = match ClientKind::from_code(code) {
            Some(kind) => kind,
            None => return Err(Error::UnknownCode(code.to_owned())),
        };
        let types = kind.field_types();
        let values = read_message(types.as_slice(), args.as_slice())?;
        proof {
            lemma_read_fields_ok(kind.types(), texts(args@), views(values@));
            assert(types_of(views(values@)) =~= kind.types()) by {
                assert forall|i: int| 0 <= i < kind.types().len() implies types_of(
                    views(values@),
                )[i] == kind.types()[i] by {
                    lemma_parse_field_type(kind.types()[i], texts(args@)[i]);
                }
            }
        }
        Ok(Self::from_values(kind, values))
    }

    fn ident(&self) -> (r: &str) {
        ClientCommand::ident(self)
    }

    fn extract_args(&self) -> (r: Vec<String>) {
        ClientCommand::extract_args(self)
    }
}

/// Every code is wire-safe, and names the variant that has it, unless an
/// earlier variant has the same code:
/// `of_code(kind.code_text()) == Some(kind)`.
pub proof fn lemma_codes(kind: ClientKind)
    ensures
        wire_safe(kind.code_text()),
        kind != ClientKind::AO2MusicList ==> ClientKind::of_code(kind.code_text()) == Some(
            kind,
        ),
{
    reveal_strlit("HI");
    reveal_strlit("ID");
    reveal_strlit("CH");
    reveal_strlit("askchaa");
    reveal_strlit("askchar2");
    reveal_strlit("AN");
    reveal_strlit("AE");
    reveal_strlit("AM");
    reveal_strlit("AC");
    reveal_strlit("RD");
    reveal_strlit("CC");
    reveal_strlit("MS");
    reveal_strlit("CT");
    reveal_strlit("MC");
    reveal_strlit("RT");
    reveal_strlit("SETCASE");
    reveal_strlit("CASEA");
    reveal_strlit("HP");
    reveal_strlit("PE");
    reveal_strlit("DE");
    reveal_strlit("EE");
    reveal_strlit("ZZ");
    assert("HI"@.len() == 2 && "HI"@[0] == 'H' && "HI"@[1] == 'I');
    assert("ID"@.len() == 2 && "ID"@[0] == 'I' && "ID"@[1] == 'D');
    assert("CH"@.len() == 2 && "CH"@[0] == 'C' && "CH"@[1] == 'H');
    assert("askchaa"@.len() == 7 && "askchaa"@[0] == 'a' && "askchaa"@[1] == 's');
    assert("askchar2"@.len() == 8 && "askchar2"@[0] == 'a' && "askchar2"@[1] == 's');
    assert("AN"@.len() == 2 && "AN"@[0] == 'A' && "AN"@[1] == 'N');
    assert("AE"@.len() == 2 && "AE"@[0] == 'A' && "AE"@[1] == 'E');
    assert("AM"@.len() == 2 && "AM"@[0] == 'A' && "AM"@[1] == 'M');
    assert("AC"@.len() == 2 && "AC"@[0] == 'A' && "AC"@[1] == 'C');
    assert("RD"@.len() == 2 && "RD"@[0] == 'R' && "RD"@[1] == 'D');
    assert("CC"@.len() == 2 && "CC"@[0] == 'C' && "CC"@[1] == 'C');
    assert("MS"@.len() == 2 && "MS"@[0] == 'M' && "MS"@[1] == 'S');
    assert("CT"@.len() == 2 && "CT"@[0] == 'C' && "CT"@[1] == 'T');
    assert("MC"@.len() == 2 && "MC"@[0] == 'M' && "MC"@[1] == 'C');
    assert("RT"@.len() == 2 && "RT"@[0] == 'R' && "RT"@[1] == 'T');
    assert("SETCASE"@.len() == 7 && "SETCASE"@[0] == 'S' && "SETCASE"@[1] == 'E');
    assert("CASEA"@.len() == 5 && "CASEA"@[0] == 'C' && "CASEA"@[1] == 'A');
    assert("HP"@.len() == 2 && "HP"@[0] == 'H' && "HP"@[1] == 'P');
    assert("PE"@.len() == 2 && "PE"@[0] == 'P' && "PE"@[1] == 'E');
    assert("DE"@.len() == 2 && "DE"@[0] == 'D' && "DE"@[1] == 'E');
    assert("EE"@.len() == 2 && "EE"@[0] == 'E' && "EE"@[1] == 'E');
    assert("ZZ"@.len() == 2 && "ZZ"@[0] == 'Z' && "ZZ"@[1] == 'Z');
}

/// The first variant that has a code wins: `of_code` names the first
/// variant in the order of declaration that has the code, and none
/// where no variant has it.
pub proof fn lemma_first_match(code: Seq<char>)
    ensures
        match ClientKind::of_code(code) {
            Some(kind) => exists|i: int|
                #![trigger ClientKind::first_with_code(code, i)]
                ClientKind::first_with_code(code, i) && ClientKind::declared()[i] == kind,
            None => forall|i: int| !#[trigger] ClientKind::first_with_code(code, i),
        },
{
    let declared = ClientKind::declared();
    assert(declared[0] == ClientKind::Handshake);
    assert(declared[1] == ClientKind::ClientVersion);
    assert(declared[2] == ClientKind::KeepAlive);
    assert(declared[3] == ClientKind::AskListLengths);
    assert(declared[4] == ClientKind::AskListCharacters);
    assert(declared[5] == ClientKind::CharacterList);
    assert(declared[6] == ClientKind::EvidenceList);
    assert(declared[7] == ClientKind::MusicList);
    assert(declared[8] == ClientKind::AO2CharacterList);
    assert(declared[9] == ClientKind::AO2MusicList);
    assert(declared[10] == ClientKind::AO2Ready);
    assert(declared[11] == ClientKind::SelectCharacter);
    assert(declared[12] == ClientKind::ICMessage);
    assert(declared[13] == ClientKind::OOCMessage);
    assert(declared[14] == ClientKind::PlaySong);
    assert(declared[15] == ClientKind::WTCEButtons);
    assert(declared[16] == ClientKind::SetCasePreferences);
    assert(declared[17] == ClientKind::CaseAnnounce);
    assert(declared[18] == ClientKind::Penalties);
    assert(declared[19] == ClientKind::AddEvidence);
    assert(declared[20] == ClientKind::DeleteEvidence);
    assert(declared[21] == ClientKind::EditEvidence);
    assert(declared[22] == ClientKind::CallModButton);
    if code == "HI"@ {
        assert(ClientKind::first_with_code(code, 0));
    } else if code == "ID"@ {
        assert(ClientKind::first_with_code(code, 1));
    } else if code == "CH"@ {
        assert(ClientKind::first_with_code(code, 2));
    } else if code == "askchaa"@ {
        assert(ClientKind::first_with_code(code, 3));
    } else if code == "askchar2"@ {
        assert(ClientKind::first_with_code(code, 4));
    } else if code == "AN"@ {
        assert(ClientKind::first_with_code(code, 5));
    } else if code == "AE"@ {
        assert(ClientKind::first_with_code(code, 6));
    } else if code == "AM"@ {
        assert(ClientKind::first_with_code(code, 7));
    } else if code == "AC"@ {
        assert(ClientKind::first_with_code(code, 8));
    } else if code == "RD"@ {
        assert(ClientKind::first_with_code(code, 10));
    } else if code == "CC"@ {
        assert(ClientKind::first_with_code(code, 11));
    } else if code == "MS"@ {
        assert(ClientKind::first_with_code(code, 12));
    } else if code == "CT"@ {
        assert(ClientKind::first_with_code(code, 13));
    } else if code == "MC"@ {
        assert(ClientKind::first_with_code(code, 14));
    } else if code == "RT"@ {
        assert(ClientKind::first_with_code(code, 15));
    } else if code == "SETCASE"@ {
        assert(ClientKind::first_with_code(code, 16));
    } else if code == "CASEA"@ {
        assert(ClientKind::first_with_code(code, 17));
    } else if code == "HP"@ {
        assert(ClientKind::first_with_code(code, 18));
    } else if code == "PE"@ {
        assert(ClientKind::first_with_code(code, 19));
    } else if code == "DE"@ {
        assert(ClientKind::first_with_code(code, 20));
    } else if code == "EE"@ {
        assert(ClientKind::first_with_code(code, 21));
    } else if code == "ZZ"@ {
        assert(ClientKind::first_with_code(code, 22));
    }
}

/// The field values of a command are of the types of its variant.
pub proof fn lemma_field_types(command: ClientCommand)
    ensures
        types_of(command@.fields) == command@.kind.types(),
{
    assert(types_of(command@.fields) =~= command@.kind.types());
}

/// A command reads back from its own code and arguments:
/// `decoded(command.code(), command.args()) == Ok(command@)`, unless an
/// earlier variant has the same code.
pub proof fn lemma_round_trip(command: ClientCommand)
    requires
        command@.kind != ClientKind::AO2MusicList,
    ensures
        ClientCommand::decoded(command.code(), command.args()) == Ok::<
            Message<ClientKind>,
            ErrorView,
        >(command@),
{
    lemma_codes(command@.kind);
    lemma_field_types(command);
    lemma_fields_round_trip(command@.fields);
}

} // verus!
