//! What the two directions of the codec have to do with each other.
//!
//! A message that the encoder wrote is read back by the decoder as the
//! command that was written, whatever follows it in the buffer, provided the
//! texts in it keep clear of the bytes that frame a message.

use crate::client_command::{ClientCommand, ClientKind};
use crate::codec::{
    decoding, field_end, first_terminator, frame_args, frame_code, framing, joined_bytes,
    lemma_field_end, lemma_message_end_unique, lemma_without_replacement, lossy_text, lossy_texts,
    message_ends, pieces, terminator_at, utf8_text, wire_bytes, Decoding, Framing, END,
    MAX_MESSAGE_LEN, REPLACEMENT, SEPARATOR,
};
use crate::command::{Command, Message};
use crate::error::ErrorView;
use crate::field::{render_fields, FieldValue};
use crate::text::{decimal, is_digit, lemma_decimal, render_bool, render_int};
use vstd::prelude::*;
use vstd::utf8::{
    encode_scalar, encode_utf8, encode_utf8_decode_utf8, encode_utf8_valid_utf8,
    has_width_1_encoding, has_width_2_encoding, has_width_3_encoding, is_scalar,
};

verus! {

/// A text that the framing leaves as it is: it holds no `#` and no
/// replacement character, and does not begin with `%`.
pub open spec fn wire_safe(text: Seq<char>) -> bool {
    &&& forall|i: int| 0 <= i < text.len() ==> #[trigger] text[i] != '#' && text[i] != REPLACEMENT
    &&& text.len() > 0 ==> text[0] != '%'
}

/// Every text of the list is wire-safe.
pub open spec fn all_wire_safe(texts: Seq<Seq<char>>) -> bool {
    forall|i: int| 0 <= i < texts.len() ==> wire_safe(#[trigger] texts[i])
}

/// Every text among the field values is wire-safe.
pub open spec fn text_fields_wire_safe(fields: Seq<FieldValue>) -> bool {
    forall|i: int|
        0 <= i < fields.len() ==> (#[trigger] fields[i] matches FieldValue::Text(text)
            ==> wire_safe(text))
}

/// The bytes that encode a list of texts, text by text.
pub open spec fn encoded(texts: Seq<Seq<char>>) -> Seq<Seq<u8>> {
    Seq::new(texts.len(), |i: int| encode_utf8(texts[i]))
}

// ---------------------------------------------------------------------------
// UTF-8
// ---------------------------------------------------------------------------

/// A byte below 128 stands in the encoding of a scalar only as the scalar
/// itself.
proof fn lemma_scalar_ascii(v: u32)
    requires
        is_scalar(v),
    ensures
        encode_scalar(v).len() >= 1,
        forall|j: int|
            0 <= j < encode_scalar(v).len() && #[trigger] encode_scalar(v)[j] < 0x80 ==> v
                == encode_scalar(v)[j] as u32,
{
    if has_width_1_encoding(v) {
        assert((v & 0x7F) as u8 as u32 == v) by (bit_vector)
            requires
                v <= 0x7F,
        ;
    } else if has_width_2_encoding(v) {
        assert((0xC0u8 | ((v >> 6) & 0x1F) as u8) >= 0x80u8) by (bit_vector);
        assert((0x80u8 | (v & 0x3F) as u8) >= 0x80u8) by (bit_vector);
    } else if has_width_3_encoding(v) {
        assert((0xE0u8 | ((v >> 12) & 0x0F) as u8) >= 0x80u8) by (bit_vector);
        assert((0x80u8 | ((v >> 6) & 0x3F) as u8) >= 0x80u8) by (bit_vector);
        assert((0x80u8 | (v & 0x3F) as u8) >= 0x80u8) by (bit_vector);
    } else {
        assert((0xF0u8 | ((v >> 18) & 0x7) as u8) >= 0x80u8) by (bit_vector);
        assert((0x80u8 | ((v >> 12) & 0x3F) as u8) >= 0x80u8) by (bit_vector);
        assert((0x80u8 | ((v >> 6) & 0x3F) as u8) >= 0x80u8) by (bit_vector);
        assert((0x80u8 | (v & 0x3F) as u8) >= 0x80u8) by (bit_vector);
    }
}

/// A byte below 128 that no character of the text is does not stand in the
/// encoding of the text.
pub proof fn lemma_encoding_avoids(text: Seq<char>, avoided: char)
    requires
        (avoided as u32) < 0x80,
        forall|i: int| 0 <= i < text.len() ==> #[trigger] text[i] != avoided,
    ensures
        forall|j: int|
            0 <= j < encode_utf8(text).len() ==> #[trigger] encode_utf8(text)[j] != avoided as u8,
    decreases text.len(),
{
    let byte = avoided as u8;
    if text.len() > 0 {
        let head = encode_scalar(text[0] as u32);
        let tail = text.drop_first();
        vstd::utf8::char_is_scalar(text[0]);
        lemma_scalar_ascii(text[0] as u32);
        assert forall|i: int| 0 <= i < tail.len() implies #[trigger] tail[i] != avoided by {
            assert(tail[i] == text[i + 1]);
        }
        assert(text[0] != avoided);
        lemma_encoding_avoids(tail, avoided);
        assert forall|j: int| 0 <= j < encode_utf8(text).len() implies #[trigger] encode_utf8(
            text,
        )[j] != byte by {
            if j < head.len() {
                assert(encode_utf8(text)[j] == head[j]);
                if head[j] == byte {
                    assert(head[j] < 0x80);
                    assert(text[0] as u32 == head[j] as u32);
                    assert(byte as u32 == avoided as u32);
                    vstd::utf8::char_u32_cast(text[0], text[0] as u32);
                    vstd::utf8::char_u32_cast(avoided, avoided as u32);
                }
            } else {
                assert(encode_utf8(text)[j] == encode_utf8(tail)[j - head.len()]);
            }
        }
    }
}

/// The encoding of a text that does not begin with a given character below
/// 128 does not begin with that byte.
pub proof fn lemma_encoding_first(text: Seq<char>, avoided: char)
    requires
        (avoided as u32) < 0x80,
        text.len() > 0,
        text[0] != avoided,
    ensures
        encode_utf8(text).len() > 0,
        encode_utf8(text)[0] != avoided as u8,
{
    vstd::utf8::char_is_scalar(text[0]);
    lemma_scalar_ascii(text[0] as u32);
    let head = encode_scalar(text[0] as u32);
    assert(encode_utf8(text)[0] == head[0]);
    if head[0] == avoided as u8 {
        assert(head[0] < 0x80);
        assert(text[0] as u32 == head[0] as u32);
        assert((avoided as u8) as u32 == avoided as u32);
        vstd::utf8::char_u32_cast(text[0], text[0] as u32);
        vstd::utf8::char_u32_cast(avoided, avoided as u32);
    }
}

/// A text without replacement characters comes back from its own encoding.
pub proof fn lemma_lossy_round_trip(text: Seq<char>)
    requires
        forall|i: int| 0 <= i < text.len() ==> #[trigger] text[i] != REPLACEMENT,
    ensures
        lossy_text(encode_utf8(text)) == text,
{
    encode_utf8_valid_utf8(text);
    encode_utf8_decode_utf8(text);
    lemma_without_replacement(text);
}

// ---------------------------------------------------------------------------
// Frames
// ---------------------------------------------------------------------------

/// The bytes of the arguments, read from the front: the first argument, its
/// `#`, and the bytes of the others.
pub proof fn lemma_joined_front(args: Seq<Seq<char>>)
    requires
        args.len() > 0,
    ensures
        joined_bytes(args) == encode_utf8(args[0]) + seq![SEPARATOR] + joined_bytes(
            args.drop_first(),
        ),
    decreases args.len(),
{
    let tail = args.drop_first();
    if args.len() == 1 {
        assert(args.drop_last() =~= Seq::<Seq<char>>::empty());
        assert(tail =~= Seq::<Seq<char>>::empty());
        assert(joined_bytes(args) =~= encode_utf8(args[0]) + seq![SEPARATOR] + joined_bytes(tail));
    } else {
        let front = args.drop_last();
        lemma_joined_front(front);
        assert(front.drop_first() =~= tail.drop_last());
        assert(tail.last() == args.last());
        assert(front[0] == args[0]);
        assert(joined_bytes(args) =~= encode_utf8(args[0]) + seq![SEPARATOR] + joined_bytes(tail));
    }
}

/// The bytes of wire-safe arguments hold no `#%`, do not begin with `%`,
/// and end with `#`.
pub proof fn lemma_joined_no_terminator(args: Seq<Seq<char>>)
    requires
        all_wire_safe(args),
    ensures
        forall|j: int| !terminator_at(joined_bytes(args), j),
        args.len() > 0 ==> joined_bytes(args).len() > 0 && joined_bytes(args).last() == SEPARATOR
            && joined_bytes(args)[0] != END,
    decreases args.len(),
{
    if args.len() > 0 {
        let front = args.drop_last();
        let last = args.last();
        let before = joined_bytes(front);
        let bytes = encode_utf8(last);
        let all = joined_bytes(args);
        assert(all_wire_safe(front)) by {
            assert forall|i: int| 0 <= i < front.len() implies wire_safe(#[trigger] front[i]) by {
                assert(front[i] == args[i]);
            }
        }
        lemma_joined_no_terminator(front);
        assert(wire_safe(last));
        lemma_encoding_avoids(last, '#');
        if last.len() > 0 {
            lemma_encoding_first(last, '%');
        }
        assert(all =~= before + bytes + seq![SEPARATOR]);
        assert forall|j: int| !terminator_at(all, j) by {
            if terminator_at(all, j) {
                if j + 1 < before.len() {
                    assert(terminator_at(before, j));
                } else if j < before.len() {
                    assert(all[j + 1] == if bytes.len() > 0 {
                        bytes[0]
                    } else {
                        SEPARATOR
                    });
                } else if j < before.len() + bytes.len() {
                    assert(all[j] == bytes[j - before.len()]);
                }
            }
        }
        if front.len() > 0 {
            assert(all[0] == before[0]);
        } else {
            assert(before.len() == 0);
            assert(all[0] == if bytes.len() > 0 {
                bytes[0]
            } else {
                SEPARATOR
            });
        }
    }
}

/// The bytes of wire-safe arguments without their last `#` fall into the
/// encodings of the arguments, one piece each.
pub proof fn lemma_pieces_of_joined(args: Seq<Seq<char>>)
    requires
        all_wire_safe(args),
        args.len() > 0,
    ensures
        joined_bytes(args).len() > 0,
        pieces(joined_bytes(args).drop_last()) == encoded(args),
    decreases args.len(),
{
    let head = encode_utf8(args[0]);
    let tail = args.drop_first();
    let inner = joined_bytes(args).drop_last();
    lemma_joined_front(args);
    assert(wire_safe(args[0]));
    lemma_encoding_avoids(args[0], '#');
    if tail.len() == 0 {
        assert(joined_bytes(tail) =~= Seq::<u8>::empty());
        assert(inner =~= head);
        lemma_field_end(inner, inner.len() as int);
        assert(pieces(inner) =~= seq![inner]);
        assert(pieces(inner) =~= encoded(args));
    } else {
        assert(all_wire_safe(tail)) by {
            assert forall|i: int| 0 <= i < tail.len() implies wire_safe(#[trigger] tail[i]) by {
                assert(tail[i] == args[i + 1]);
            }
        }
        lemma_pieces_of_joined(tail);
        let rest = joined_bytes(tail).drop_last();
        assert(inner =~= head + seq![SEPARATOR] + rest);
        assert forall|j: int| 0 <= j < head.len() implies #[trigger] inner[j] != SEPARATOR by {
            assert(inner[j] == head[j]);
        }
        assert(inner[head.len() as int] == SEPARATOR);
        lemma_field_end(inner, head.len() as int);
        assert(inner.take(head.len() as int) =~= head);
        assert(inner.skip(head.len() as int + 1) =~= rest);
        assert(pieces(inner) == seq![head] + pieces(rest));
        assert(seq![head] + encoded(tail) =~= encoded(args)) by {
            assert forall|i: int| 0 <= i < args.len() implies (seq![head] + encoded(tail))[i]
                == encoded(args)[i] by {
                if i > 0 {
                    assert(tail[i - 1] == args[i]);
                }
            }
        }
    }
}

/// A message on the wire, whatever follows it: its end is the first `#%`, and
/// what stands before the end falls into the code and the arguments that
/// were written.
pub proof fn lemma_frame(code: Seq<char>, args: Seq<Seq<char>>, rest: Seq<u8>)
    requires
        wire_safe(code),
        all_wire_safe(args),
    ensures
        ({
            let buf = wire_bytes(code, args) + rest;
            let end = wire_bytes(code, args).len() - 2;
            &&& first_terminator(buf, end)
            &&& frame_code(buf.take(end)) == code
            &&& frame_args(buf.take(end)) == args
            &&& buf.skip(end + 2) == rest
        }),
{
    let head = encode_utf8(code);
    let joined = joined_bytes(args);
    let wire = wire_bytes(code, args);
    let buf = wire + rest;
    let end = wire.len() - 2;
    let frame = buf.take(end);
    lemma_encoding_avoids(code, '#');
    lemma_joined_no_terminator(args);
    assert(wire =~= head + seq![SEPARATOR] + joined + seq![END]);
    assert(end == head.len() + joined.len());
    assert(buf.skip(end + 2) =~= rest);
    // the bytes before the end
    assert forall|j: int| 0 <= j <= end + 1 implies buf[j] == if j < head.len() {
        head[j]
    } else if j == head.len() {
        SEPARATOR
    } else if j <= end {
        joined[j - head.len() - 1]
    } else {
        END
    } by {}
    assert(terminator_at(buf, end)) by {
        if joined.len() > 0 {
            assert(buf[end] == joined[joined.len() - 1]);
        }
    }
    assert forall|j: int| 0 <= j < end implies !terminator_at(buf, j) by {
        if terminator_at(buf, j) {
            if j < head.len() {
                assert(buf[j] == head[j]);
            } else if j == head.len() {
                assert(buf[j + 1] == joined[0]);
                assert(args.len() > 0);
            } else {
                assert(terminator_at(joined, j - head.len() - 1));
            }
        }
    }
    // the code
    assert forall|j: int| 0 <= j < head.len() implies #[trigger] frame[j] != SEPARATOR by {
        assert(frame[j] == head[j]);
    }
    if joined.len() > 0 {
        assert(frame[head.len() as int] == SEPARATOR);
    }
    lemma_field_end(frame, head.len() as int);
    assert(frame.take(head.len() as int) =~= head);
    lemma_lossy_round_trip(code);
    // the arguments
    if args.len() == 0 {
        assert(joined.len() == 0);
        assert(frame_args(frame) =~= args);
    } else {
        lemma_pieces_of_joined(args);
        assert(frame.skip(head.len() as int + 1) =~= joined.drop_last());
        assert(lossy_texts(encoded(args)) =~= args) by {
            assert forall|i: int| 0 <= i < args.len() implies lossy_texts(encoded(args))[i]
                == args[i] by {
                assert(wire_safe(args[i]));
                lemma_lossy_round_trip(args[i]);
            }
        }
    }
}

/// Taking a message off a buffer that begins with a message on the wire
/// gives the code and the arguments that were written, and leaves what
/// followed the message.
pub proof fn lemma_framing_of_message(code: Seq<char>, args: Seq<Seq<char>>, rest: Seq<u8>)
    requires
        wire_safe(code),
        all_wire_safe(args),
        wire_bytes(code, args).len() <= MAX_MESSAGE_LEN,
    ensures
        framing(wire_bytes(code, args) + rest) == (Framing {
            result: Ok(Some((code, args))),
            rest,
        }),
{
    let buf = wire_bytes(code, args) + rest;
    let end = wire_bytes(code, args).len() - 2;
    lemma_frame(code, args, rest);
    assert(message_ends(buf, end));
    lemma_message_end_unique(buf, end);
}

/// Decoding a buffer that begins with a message on the wire is reading the
/// command from the code and the arguments that were written, and leaves
/// what followed the message.
pub proof fn lemma_decoding_of_message(code: Seq<char>, args: Seq<Seq<char>>, rest: Seq<u8>)
    requires
        wire_safe(code),
        all_wire_safe(args),
        wire_bytes(code, args).len() <= MAX_MESSAGE_LEN,
    ensures
        decoding(wire_bytes(code, args) + rest) == (Decoding {
            result: match ClientCommand::decoded(code, args) {
                Ok(message) => Ok(Some(message)),
                Err(e) => Err(e),
            },
            rest,
        }),
{
    lemma_framing_of_message(code, args, rest);
}

/// A buffer without `#%` that is no longer than a message may be is left as
/// it is, and more bytes are awaited.
pub proof fn lemma_decoding_needs_more(buf: Seq<u8>)
    requires
        forall|i: int| !terminator_at(buf, i),
        buf.len() <= MAX_MESSAGE_LEN,
    ensures
        decoding(buf) == (Decoding { result: Ok(None), rest: buf }),
{
    assert forall|i: int| !message_ends(buf, i) by {
        assert(!terminator_at(buf, i));
    }
}

/// A buffer of more bytes than a message may have, of which the first
/// `MAX_MESSAGE_LEN` hold no whole message, is an error, and is left as it
/// is.
pub proof fn lemma_decoding_too_much(buf: Seq<u8>)
    requires
        forall|i: int| i + 2 <= MAX_MESSAGE_LEN ==> !terminator_at(buf, i),
        buf.len() > MAX_MESSAGE_LEN,
    ensures
        decoding(buf) == (Decoding { result: Err(ErrorView::TooMuchData), rest: buf }),
{
    assert forall|i: int| !message_ends(buf, i) by {
        if i + 2 <= MAX_MESSAGE_LEN {
            assert(!terminator_at(buf, i));
        }
    }
}

/// No text of a decoded command holds a replacement character.
pub proof fn lemma_decoded_texts_clean(buf: Seq<u8>, message: Message<ClientKind>, i: int)
    requires
        decoding(buf).result == Ok::<Option<Message<ClientKind>>, ErrorView>(Some(message)),
        0 <= i < message.fields.len(),
        message.fields[i] is Text,
    ensures
        forall|j: int|
            0 <= j < message.fields[i]->Text_0.len() ==> #[trigger] message.fields[i]->Text_0[j]
                != REPLACEMENT,
{
    let end = choose|end: int| message_ends(buf, end);
    let frame = buf.take(end);
    let code = frame_code(frame);
    let args = frame_args(frame);
    let kind = ClientKind::of_code(code)->Some_0;
    crate::field::lemma_read_fields_ok(kind.types(), args, message.fields);
    let n = field_end(frame) as int;
    assert(args[i] == lossy_text(pieces(frame.skip(n + 1))[i]));
    lemma_without_replacement(utf8_text(pieces(frame.skip(n + 1))[i]));
    crate::field::lemma_parse_field_type(kind.types()[i], args[i]);
}

// ---------------------------------------------------------------------------
// Fields on the wire
// ---------------------------------------------------------------------------

/// A number is written wire-safe.
pub proof fn lemma_int_wire_safe(v: int)
    ensures
        wire_safe(render_int(v)),
{
    let m: nat = if v < 0 {
        (-v) as nat
    } else {
        v as nat
    };
    lemma_decimal(m);
    let text = render_int(v);
    assert forall|i: int| 0 <= i < text.len() implies #[trigger] text[i] != '#' && text[i]
        != REPLACEMENT by {
        if v < 0 {
            if i > 0 {
                assert(text[i] == decimal(m)[i - 1]);
                assert(is_digit(decimal(m)[i - 1]));
            }
        } else {
            assert(is_digit(decimal(m)[i]));
        }
    }
    if v >= 0 {
        assert(is_digit(decimal(m)[0]));
    }
}

/// A boolean is written wire-safe.
pub proof fn lemma_bool_wire_safe(b: bool)
    ensures
        wire_safe(render_bool(b)),
{
    reveal_strlit("true");
    reveal_strlit("false");
}

/// Field values whose texts are wire-safe are written wire-safe.
pub proof fn lemma_rendered_wire_safe(fields: Seq<FieldValue>)
    requires
        text_fields_wire_safe(fields),
    ensures
        all_wire_safe(render_fields(fields)),
{
    assert forall|i: int| 0 <= i < fields.len() implies wire_safe(
        #[trigger] render_fields(fields)[i],
    ) by {
        match fields[i] {
            FieldValue::Text(_) => {},
            FieldValue::U32(n) => lemma_int_wire_safe(n as int),
            FieldValue::I32(n) => lemma_int_wire_safe(n as int),
            FieldValue::U8(n) => lemma_int_wire_safe(n as int),
            FieldValue::Bool(b) => lemma_bool_wire_safe(b),
        }
    }
}

// ---------------------------------------------------------------------------
// Commands on the wire
// ---------------------------------------------------------------------------

/// Decoding what was encoded gives the command back: where a buffer begins
/// with the message of a client command, one step of decoding yields that
/// command and leaves what followed the message.
///
/// The command must be one that its code names (`AO2MusicList` shares its
/// code with the earlier `MusicList`), its texts wire-safe, and its message
/// no longer than a message may be.
pub proof fn lemma_decode_encoded(command: ClientCommand, rest: Seq<u8>)
    requires
        command@.kind != ClientKind::AO2MusicList,
        text_fields_wire_safe(command@.fields),
        wire_bytes(command.code(), command.args()).len() <= MAX_MESSAGE_LEN,
    ensures
        decoding(wire_bytes(command.code(), command.args()) + rest) == (Decoding {
            result: Ok(Some(command@)),
            rest,
        }),
{
    crate::client_command::lemma_codes(command@.kind);
    crate::client_command::lemma_round_trip(command);
    lemma_rendered_wire_safe(command@.fields);
    lemma_decoding_of_message(command.code(), command.args(), rest);
}

/// Two messages in one buffer are decoded one after the other: the first
/// step yields the first command and leaves the message of the second, the
/// next step yields the second command and leaves nothing.
pub proof fn lemma_streaming(first: ClientCommand, second: ClientCommand)
    requires
        first@.kind != ClientKind::AO2MusicList,
        second@.kind != ClientKind::AO2MusicList,
        text_fields_wire_safe(first@.fields),
        text_fields_wire_safe(second@.fields),
        wire_bytes(first.code(), first.args()).len() <= MAX_MESSAGE_LEN,
        wire_bytes(second.code(), second.args()).len() <= MAX_MESSAGE_LEN,
    ensures
        ({
            let one = wire_bytes(first.code(), first.args());
            let two = wire_bytes(second.code(), second.args());
            &&& decoding(one + two) == (Decoding { result: Ok(Some(first@)), rest: two })
            &&& decoding(two) == (Decoding { result: Ok(Some(second@)), rest: Seq::empty() })
        }),
{
    let two = wire_bytes(second.code(), second.args());
    lemma_decode_encoded(first, two);
    lemma_decode_encoded(second, Seq::empty());
    assert(two + Seq::<u8>::empty() =~= two);
}

/// The encoding of a text that is put together of two is put together of
/// their encodings.
pub proof fn lemma_encoding_concat(a: Seq<char>, b: Seq<char>)
    ensures
        encode_utf8(a + b) == encode_utf8(a) + encode_utf8(b),
    decreases a.len(),
{
    if a.len() == 0 {
        assert(a + b =~= b);
        assert(encode_utf8(a) + encode_utf8(b) =~= encode_utf8(b));
    } else {
        lemma_encoding_concat(a.drop_first(), b);
        assert((a + b).drop_first() =~= a.drop_first() + b);
        assert((a + b)[0] == a[0]);
        assert(encode_utf8(a + b) =~= encode_utf8(a) + encode_utf8(b));
    }
}

/// The bytes of a message are the encoding of its text: what `encode`
/// appends is what `to_message` writes.
pub proof fn lemma_wire_bytes_of_text(code: Seq<char>, args: Seq<Seq<char>>)
    ensures
        wire_bytes(code, args) == encode_utf8(crate::command::message_text(code, args)),
{
    lemma_joined_of_text(args);
    let joined = crate::command::joined(args);
    lemma_encoding_one('#');
    lemma_encoding_one('%');
    lemma_encoding_concat(code, seq!['#']);
    lemma_encoding_concat(code + seq!['#'], joined);
    lemma_encoding_concat(code + seq!['#'] + joined, seq!['%']);
}

/// The encoding of one character below 128 is that one byte.
proof fn lemma_encoding_one(c: char)
    requires
        (c as u32) < 0x80,
    ensures
        encode_utf8(seq![c]) == seq![c as u8],
{
    let v = c as u32;
    assert((v & 0x7F) as u8 == v as u8) by (bit_vector)
        requires
            v < 0x80,
    ;
    let one = seq![c];
    assert(one.drop_first() =~= Seq::<char>::empty());
    assert(encode_utf8(one.drop_first()) =~= Seq::<u8>::empty());
    assert(one[0] as u32 == v);
    assert(encode_scalar(v) =~= seq![c as u8]);
    assert(encode_utf8(one) =~= encode_scalar(v) + encode_utf8(one.drop_first()));
}

/// The bytes of the arguments are the encoding of their text.
proof fn lemma_joined_of_text(args: Seq<Seq<char>>)
    ensures
        joined_bytes(args) == encode_utf8(crate::command::joined(args)),
    decreases args.len(),
{
    if args.len() > 0 {
        let front = crate::command::joined(args.drop_last());
        lemma_joined_of_text(args.drop_last());
        lemma_encoding_one('#');
        lemma_encoding_concat(front, args.last());
        lemma_encoding_concat(front + args.last(), seq!['#']);
    }
}

} // verus!
