//! The wire codec: bytes to client commands, server commands to bytes.
//!
//! A message is its code, then `#` and one argument for each field, then the
//! two bytes `#%`.  The decoder takes the first message off a buffer; the
//! encoder appends a message to one.

use crate::buffer::{
    buf_advance, buf_bytes, buf_len, buf_put_slice, buf_put_u8, buf_reserve, buf_split_to,
    contents,
};
use crate::client_command::{ClientCommand, ClientKind};
use crate::command::{Command, Message};
use crate::error::{Error, ErrorView};
use crate::field::texts;
use crate::server_command::ServerCommand;
use crate::text::push_char;
use bytes::BytesMut;
use vstd::prelude::*;
use vstd::slice::slice_subrange;
use vstd::string::*;
use vstd::utf8::{decode_utf8, encode_utf8, valid_utf8};

verus! {

/// The most bytes that a message may have, its end included.
pub const MAX_MESSAGE_LEN: usize = 8192;

/// The byte `#`, which stands before every argument.
pub const SEPARATOR: u8 = 35;

/// The byte `%`, which after a `#` ends a message.
pub const END: u8 = 37;

/// The character that stands for bytes that are no UTF-8.
pub const REPLACEMENT: char = '\u{fffd}';

// ---------------------------------------------------------------------------
// Text from bytes
// ---------------------------------------------------------------------------

/// The text that `String::from_utf8_lossy` makes of bytes that are no valid
/// UTF-8: what is valid is decoded, and each run of bytes that is not becomes
/// a replacement character.
pub uninterp spec fn utf8_lossy(bytes: Seq<u8>) -> Seq<char>;

/// The text that bytes are decoded as: the text that they encode where they
/// are valid UTF-8, and the lossy decoding of them where they are not.
pub open spec fn utf8_text(bytes: Seq<u8>) -> Seq<char> {
    if valid_utf8(bytes) {
        decode_utf8(bytes)
    } else {
        utf8_lossy(bytes)
    }
}

/// The text without its replacement characters.
pub open spec fn without_replacement(s: Seq<char>) -> Seq<char>
    decreases s.len(),
{
    if s.len() == 0 {
        Seq::empty()
    } else if s.last() == REPLACEMENT {
        without_replacement(s.drop_last())
    } else {
        without_replacement(s.drop_last()).push(s.last())
    }
}

/// The text of a field that arrived as the given bytes.
pub open spec fn lossy_text(bytes: Seq<u8>) -> Seq<char> {
    without_replacement(utf8_text(bytes))
}

/// The texts of fields that arrived as the given runs of bytes.
pub open spec fn lossy_texts(runs: Seq<Seq<u8>>) -> Seq<Seq<char>> {
    Seq::new(runs.len(), |i: int| lossy_text(runs[i]))
}

/// Decodes bytes as UTF-8, with a replacement character for what is none.
///
/// Trusted: stands for `String::from_utf8_lossy`.  On bytes that are valid
/// UTF-8 the result is the text that they encode; on other bytes it is named
/// `utf8_lossy`.
#[verifier::external_body]
fn decode_lossy(bytes: &[u8]) -> (r: String)
    ensures
        r@ == utf8_text(bytes@),
        !valid_utf8(bytes@) ==> r@ == utf8_lossy(bytes@),
{
    String::from_utf8_lossy(bytes).into_owned()
}

/// Stripping leaves no replacement character, and changes nothing where
/// there was none.
pub proof fn lemma_without_replacement(s: Seq<char>)
    ensures
        forall|i: int|
            0 <= i < without_replacement(s).len() ==> #[trigger] without_replacement(s)[i]
                != REPLACEMENT,
        (forall|i: int| 0 <= i < s.len() ==> #[trigger] s[i] != REPLACEMENT)
            ==> without_replacement(s) == s,
    decreases s.len(),
{
    if s.len() > 0 {
        let front = without_replacement(s.drop_last());
        lemma_without_replacement(s.drop_last());
        let stripped = without_replacement(s);
        assert forall|i: int| 0 <= i < stripped.len() implies #[trigger] stripped[i]
            != REPLACEMENT by {
            if i < front.len() {
                assert(stripped[i] == front[i]);
            }
        }
        if forall|i: int| 0 <= i < s.len() ==> #[trigger] s[i] != REPLACEMENT {
            assert forall|i: int| 0 <= i < s.drop_last().len() implies #[trigger] s.drop_last()[i]
                != REPLACEMENT by {
                assert(s.drop_last()[i] == s[i]);
            }
            assert(s.drop_last().push(s.last()) =~= s);
        }
    }
}

/// The text without its replacement characters.
pub fn strip_replacement(decoded: &str) -> (r: String)
    ensures
        r@ == without_replacement(decoded@),
        forall|i: int| 0 <= i < r@.len() ==> #[trigger] r@[i] != REPLACEMENT,
{
    let mut out = String::new();
    for c in iter: decoded.chars()
        invariant
            iter.seq() == decoded@,
            out@ == without_replacement(decoded@.take(iter.index())),
    {
        proof {
            let upto = decoded@.take(iter.index() + 1);
            assert(upto.drop_last() =~= decoded@.take(iter.index()));
            assert(upto.last() == c);
        }
        if c != REPLACEMENT {
            push_char(&mut out, c);
        }
    }
    proof {
        assert(decoded@.take(decoded@.len() as int) =~= decoded@);
        lemma_without_replacement(decoded@);
    }
    out
}

/// The text of a field that arrived as the given bytes: the bytes decoded as
/// UTF-8, without a character for what was none.
pub fn ignore_ill_utf8(v: &[u8]) -> (r: String)
    ensures
        r@ == lossy_text(v@),
        forall|i: int| 0 <= i < r@.len() ==> #[trigger] r@[i] != REPLACEMENT,
{
    let decoded = decode_lossy(v);
    strip_replacement(decoded.as_str())
}

// ---------------------------------------------------------------------------
// Frames
// ---------------------------------------------------------------------------

/// The two bytes `#%` stand at `i` and `i + 1`.
pub open spec fn terminator_at(buf: Seq<u8>, i: int) -> bool {
    0 <= i && i + 1 < buf.len() && buf[i] == SEPARATOR && buf[i + 1] == END
}

/// The first `#%` of the buffer stands at `i`.
pub open spec fn first_terminator(buf: Seq<u8>, i: int) -> bool {
    terminator_at(buf, i) && forall|j: int| 0 <= j < i ==> !terminator_at(buf, j)
}

/// The buffer begins with a whole message of at most `MAX_MESSAGE_LEN`
/// bytes that ends at `i + 2`.
pub open spec fn message_ends(buf: Seq<u8>, i: int) -> bool {
    first_terminator(buf, i) && i + 2 <= MAX_MESSAGE_LEN
}

/// The length of the run of bytes before the first `#`, or before the end.
pub open spec fn field_end(s: Seq<u8>) -> nat
    decreases s.len(),
{
    if s.len() == 0 || s[0] == SEPARATOR {
        0
    } else {
        1 + field_end(s.drop_first())
    }
}

/// The runs of bytes between the `#` of `s`; one more than there are `#`.
pub open spec fn pieces(s: Seq<u8>) -> Seq<Seq<u8>>
    decreases s.len(),
{
    let n = field_end(s) as int;
    if 0 <= n < s.len() {
        seq![s.take(n)] + pieces(s.skip(n + 1))
    } else {
        seq![s]
    }
}

/// The code of a message without its end: the text before the first `#`.
pub open spec fn frame_code(frame: Seq<u8>) -> Seq<char> {
    lossy_text(frame.take(field_end(frame) as int))
}

/// The arguments of a message without its end: the texts after each `#`.
pub open spec fn frame_args(frame: Seq<u8>) -> Seq<Seq<char>> {
    let n = field_end(frame) as int;
    if n < frame.len() {
        lossy_texts(pieces(frame.skip(n + 1)))
    } else {
        Seq::empty()
    }
}

/// What taking a message off the buffer gives, and what it leaves in the
/// buffer.
pub ghost struct Framing {
    pub result: Result<Option<(Seq<char>, Seq<Seq<char>>)>, ErrorView>,
    pub rest: Seq<u8>,
}

/// Taking a message off the buffer.
///
/// Where the buffer begins with a whole message of at most
/// `MAX_MESSAGE_LEN` bytes, the message is taken off the buffer and falls
/// into its code and its arguments.  Otherwise the buffer stays as it is:
/// with more than `MAX_MESSAGE_LEN` bytes that is an error, with fewer more
/// bytes are awaited.
pub open spec fn framing(buf: Seq<u8>) -> Framing {
    if exists|i: int| message_ends(buf, i) {
        let i = choose|i: int| message_ends(buf, i);
        Framing {
            result: Ok(Some((frame_code(buf.take(i)), frame_args(buf.take(i))))),
            rest: buf.skip(i + 2),
        }
    } else if buf.len() > MAX_MESSAGE_LEN {
        Framing { result: Err(ErrorView::TooMuchData), rest: buf }
    } else {
        Framing { result: Ok(None), rest: buf }
    }
}

/// What one step of decoding gives, and what it leaves in the buffer.
pub ghost struct Decoding {
    pub result: Result<Option<Message<ClientKind>>, ErrorView>,
    pub rest: Seq<u8>,
}

/// One step of decoding: a message is taken off the buffer and read as a
/// client command.
pub open spec fn decoding(buf: Seq<u8>) -> Decoding {
    Decoding {
        result: match framing(buf).result {
            Ok(Some((code, args))) => match ClientCommand::decoded(code, args) {
                Ok(message) => Ok(Some(message)),
                Err(e) => Err(e),
            },
            Ok(None) => Ok(None),
            Err(e) => Err(e),
        },
        rest: framing(buf).rest,
    }
}

/// A run of `k` bytes without `#` that ends the bytes or is followed by a
/// `#` is the run before the first `#`.
pub proof fn lemma_field_end(s: Seq<u8>, k: int)
    requires
        0 <= k <= s.len(),
        forall|j: int| 0 <= j < k ==> #[trigger] s[j] != SEPARATOR,
        k == s.len() || s[k] == SEPARATOR,
    ensures
        field_end(s) == k,
    decreases k,
{
    if k > 0 {
        let t = s.drop_first();
        assert forall|j: int| 0 <= j < k - 1 implies #[trigger] t[j] != SEPARATOR by {
            assert(t[j] == s[j + 1]);
        }
        lemma_field_end(t, k - 1);
    }
}

/// The position of the first `#%`, if there is one in the first
/// `MAX_MESSAGE_LEN` bytes.
fn find_message_end(bytes: &[u8]) -> (r: Option<usize>)
    ensures
        match r {
            Some(i) => message_ends(bytes@, i as int),
            None => forall|i: int| !message_ends(bytes@, i),
        },
{
    let limit: usize = if bytes.len() < MAX_MESSAGE_LEN {
        bytes.len()
    } else {
        MAX_MESSAGE_LEN
    };
    let mut i: usize = 0;
    while i + 1 < limit
        invariant
            limit <= bytes.len(),
            limit <= MAX_MESSAGE_LEN,
            i <= limit,
            forall|j: int| 0 <= j < i ==> !terminator_at(bytes@, j),
        decreases limit - i,
    {
        if bytes[i] == SEPARATOR && bytes[i + 1] == END {
            return Some(i);
        }
        i = i + 1;
    }
    assert forall|k: int| !message_ends(bytes@, k) by {
        if message_ends(bytes@, k) {
            assert(k + 2 <= limit);
            assert(!terminator_at(bytes@, k));
        }
    }
    None
}

/// The position of the first `#` at or after `from`, or the length.
fn find_separator(bytes: &[u8], from: usize) -> (r: usize)
    requires
        from <= bytes.len(),
    ensures
        from <= r <= bytes.len(),
        r - from == field_end(bytes@.skip(from as int)),
{
    let mut i: usize = from;
    while i < bytes.len() && bytes[i] != SEPARATOR
        invariant
            from <= i <= bytes.len(),
            forall|j: int| from <= j < i ==> #[trigger] bytes@[j] != SEPARATOR,
        decreases bytes.len() - i,
    {
        i = i + 1;
    }
    proof {
        let rest = bytes@.skip(from as int);
        assert forall|j: int| 0 <= j < i - from implies #[trigger] rest[j] != SEPARATOR by {
            assert(rest[j] == bytes@[from + j]);
        }
        lemma_field_end(rest, i - from);
    }
    i
}

/// The code and the arguments of a message without its end.
fn split_frame(frame: &[u8]) -> (r: (String, Vec<String>))
    ensures
        r.0@ == frame_code(frame@),
        texts(r.1@) == frame_args(frame@),
{
    let code_end = find_separator(frame, 0);
    assert(frame@.skip(0) =~= frame@);
    let code = ignore_ill_utf8(slice_subrange(frame, 0, code_end));
    let mut args: Vec<String> = Vec::new();
    if code_end >= frame.len() {
        assert(texts(args@) =~= frame_args(frame@));
        return (code, args);
    }
    let ghost payload = frame@.skip(code_end + 1);
    let mut pos: usize = code_end + 1;
    let mut done = false;
    assert(lossy_texts(pieces(payload)) =~= texts(args@) + lossy_texts(
        pieces(frame@.skip(pos as int)),
    ));
    while !done
        invariant
            pos <= frame.len(),
            payload == frame@.skip(code_end + 1),
            !done ==> lossy_texts(pieces(payload)) == texts(args@) + lossy_texts(
                pieces(frame@.skip(pos as int)),
            ),
            done ==> lossy_texts(pieces(payload)) == texts(args@),
        decreases frame.len() - pos + if done { 0int } else { 1int },
    {
        let end = find_separator(frame, pos);
        let ghost rest = frame@.skip(pos as int);
        let ghost before = texts(args@);
        let piece = ignore_ill_utf8(slice_subrange(frame, pos, end));
        assert(rest.take(end - pos) =~= frame@.subrange(pos as int, end as int));
        args.push(piece);
        if end >= frame.len() {
            done = true;
            proof {
                assert(rest.take(end - pos) =~= rest);
                assert(lossy_texts(pieces(rest)) =~= seq![lossy_text(rest)]);
                assert(texts(args@) =~= before + lossy_texts(pieces(rest)));
            }
        } else {
            proof {
                assert(rest.skip(end - pos + 1) =~= frame@.skip(end + 1));
                let tail = pieces(frame@.skip(end + 1));
                assert(pieces(rest) == seq![rest.take(end - pos)] + tail);
                assert(lossy_texts(pieces(rest)) =~= seq![lossy_text(rest.take(end - pos))]
                    + lossy_texts(tail));
                assert(texts(args@) + lossy_texts(tail) =~= before + lossy_texts(pieces(rest)));
            }
            pos = end + 1;
        }
    }
    (code, args)
}

// ---------------------------------------------------------------------------
// Bytes from text
// ---------------------------------------------------------------------------

/// The bytes of the arguments as they stand in a message: each followed by
/// `#`.
pub open spec fn joined_bytes(args: Seq<Seq<char>>) -> Seq<u8>
    decreases args.len(),
{
    if args.len() == 0 {
        Seq::empty()
    } else {
        joined_bytes(args.drop_last()) + encode_utf8(args.last()) + seq![SEPARATOR]
    }
}

/// The bytes of a message: the code, `#`, each argument followed by `#`, and
/// a closing `%`.
pub open spec fn wire_bytes(code: Seq<char>, args: Seq<Seq<char>>) -> Seq<u8> {
    encode_utf8(code) + seq![SEPARATOR] + joined_bytes(args) + seq![END]
}

/// The arguments before some point take no more bytes than all of them.
pub proof fn lemma_joined_bytes_prefix(args: Seq<Seq<char>>, k: int)
    requires
        0 <= k <= args.len(),
    ensures
        joined_bytes(args.take(k)).len() <= joined_bytes(args).len(),
    decreases args.len() - k,
{
    if k < args.len() {
        assert(args.drop_last().take(k) =~= args.take(k));
        lemma_joined_bytes_prefix(args.drop_last(), k);
    } else {
        assert(args.take(k) =~= args);
    }
}

/// The number of bytes that the arguments take in a message, if a `usize`
/// holds it.
fn joined_len(args: &Vec<String>) -> (r: Option<usize>)
    ensures
        match r {
            Some(n) => n == joined_bytes(texts(args@)).len(),
            None => joined_bytes(texts(args@)).len() > usize::MAX,
        },
{
    let mut total: usize = 0;
    let mut i: usize = 0;
    assert(texts(args@).take(0) =~= Seq::<Seq<char>>::empty());
    while i < args.len()
        invariant
            i <= args.len(),
            total == joined_bytes(texts(args@).take(i as int)).len(),
        decreases args.len() - i,
    {
        proof {
            let upto = texts(args@).take(i + 1);
            assert(upto.drop_last() =~= texts(args@).take(i as int));
            assert(upto.last() == args@[i as int]@);
            lemma_joined_bytes_prefix(texts(args@), i + 1);
        }
        let with_separator = match args[i].as_str().as_bytes().len().checked_add(1) {
            Some(n) => n,
            None => return None,
        };
        total = match total.checked_add(with_separator) {
            Some(n) => n,
            None => return None,
        };
        i = i + 1;
    }
    assert(texts(args@).take(i as int) =~= texts(args@));
    Some(total)
}

/// The codec of the courtroom protocol.
pub struct AOMessageCodec;

impl AOMessageCodec {
    /// Takes the first message off the buffer, as its code and its
    /// arguments.
    ///
    /// `Ok(None)` says that the buffer holds no whole message yet.  On
    /// `Error::TooMuchData` and on `Ok(None)` the buffer is left as it was.
    pub fn split_message(&mut self, src: &mut BytesMut) -> (r: Result<
        Option<(String, Vec<String>)>,
        Error,
    >)
        ensures
            contents(*final(src)) == framing(contents(*old(src))).rest,
            match r {
                Ok(Some((code, args))) => framing(contents(*old(src))).result == Ok::<
                    Option<(Seq<char>, Seq<Seq<char>>)>,
                    ErrorView,
                >(Some((code@, texts(args@)))),
                Ok(None) => framing(contents(*old(src))).result == Ok::<
                    Option<(Seq<char>, Seq<Seq<char>>)>,
                    ErrorView,
                >(None),
                Err(e) => framing(contents(*old(src))).result == Err::<
                    Option<(Seq<char>, Seq<Seq<char>>)>,
                    ErrorView,
                >(e@),
            },
    {
        let ghost buf = contents(*src);
        let found = find_message_end(buf_bytes(src));
        let end = match found {
            Some(end) => end,
            None => {
                if buf_len(src) > MAX_MESSAGE_LEN {
                    return Err(Error::TooMuchData);
                }
                return Ok(None);
            },
        };
        proof {
            lemma_message_end_unique(buf, end as int);
        }
        let message = buf_split_to(src, end);
        buf_advance(src, 2);
        assert(contents(*src) =~= buf.skip(end + 2));
        Ok(Some(split_frame(buf_bytes(&message))))
    }

    /// Takes the first message off the buffer and reads it as a client
    /// command.
    ///
    /// `Ok(None)` says that the buffer holds no whole message yet.  On
    /// `Error::TooMuchData` and on `Ok(None)` the buffer is left as it was.
    pub fn decode(&mut self, src: &mut BytesMut) -> (r: Result<Option<ClientCommand>, Error>)
        ensures
            contents(*final(src)) == decoding(contents(*old(src))).rest,
            match r {
                Ok(Some(command)) => decoding(contents(*old(src))).result == Ok::<
                    Option<Message<ClientKind>>,
                    ErrorView,
                >(Some(command@)),
                Ok(None) => decoding(contents(*old(src))).result == Ok::<
                    Option<Message<ClientKind>>,
                    ErrorView,
                >(None),
                Err(e) => decoding(contents(*old(src))).result == Err::<
                    Option<Message<ClientKind>>,
                    ErrorView,
                >(e@),
            },
    {
        let (code, args) = match self.split_message(src) {
            Ok(Some(parts)) => parts,
            Ok(None) => return Ok(None),
            Err(e) => return Err(e),
        };
        match ClientCommand::from_protocol(code.as_str(), args) {
            Ok(command) => Ok(Some(command)),
            Err(e) => Err(e),
        }
    }

    /// Decodes at the end of the stream: as `decode`, but where no whole
    /// message is left, what is left is dropped.
    pub fn decode_eof(&mut self, buf: &mut BytesMut) -> (r: Result<Option<ClientCommand>, Error>)
        ensures
            match r {
                Ok(Some(command)) => {
                    &&& decoding(contents(*old(buf))).result == Ok::<
                        Option<Message<ClientKind>>,
                        ErrorView,
                    >(Some(command@))
                    &&& contents(*final(buf)) == decoding(contents(*old(buf))).rest
                },
                Ok(None) => {
                    &&& decoding(contents(*old(buf))).result == Ok::<
                        Option<Message<ClientKind>>,
                        ErrorView,
                    >(None)
                    &&& contents(*final(buf)) == Seq::<u8>::empty()
                },
                Err(e) => {
                    &&& decoding(contents(*old(buf))).result == Err::<
                        Option<Message<ClientKind>>,
                        ErrorView,
                    >(e@)
                    &&& contents(*final(buf)) == decoding(contents(*old(buf))).rest
                },
            },
    {
        match self.decode(buf) {
            Ok(Some(frame)) => Ok(Some(frame)),
            Ok(None) => {
                let left = buf_len(buf);
                buf_advance(buf, left);
                assert(contents(*buf) =~= Seq::<u8>::empty());
                Ok(None)
            },
            Err(e) => Err(e),
        }
    }

    /// Appends the message of a server command to the buffer.
    ///
    /// Fails, and leaves the buffer as it was, where the buffer would grow
    /// beyond `isize::MAX` bytes.
    pub fn encode(&mut self, item: ServerCommand, dst: &mut BytesMut) -> (r: Result<(), Error>)
        ensures
            match r {
                Ok(_) => {
                    &&& contents(*final(dst)) == contents(*old(dst)) + wire_bytes(
                        item.code(),
                        item.args(),
                    )
                    &&& contents(*final(dst)).len() <= isize::MAX
                },
                Err(e) => {
                    &&& e@ == ErrorView::MessageTooLong
                    &&& contents(*final(dst)) == contents(*old(dst))
                    &&& contents(*old(dst)).len() + wire_bytes(item.code(), item.args()).len()
                        > isize::MAX
                },
            },
    {
        let ghost before = contents(*dst);
        let ghost code = item.code();
        let ghost all = item.args();
        let args = item.extract_args();
        let ident = item.ident();
        let args_len = match joined_len(&args) {
            Some(n) => n,
            None => return Err(Error::MessageTooLong),
        };
        // the code, its `#`, every argument with its `#`, and the closing `%`
        let reserve_len = match ident.as_bytes().len().checked_add(2) {
            Some(n) => match n.checked_add(args_len) {
                Some(n) => n,
                None => return Err(Error::MessageTooLong),
            },
            None => return Err(Error::MessageTooLong),
        };
        let held = buf_len(dst);
        if held > isize::MAX as usize || reserve_len > isize::MAX as usize - held {
            return Err(Error::MessageTooLong);
        }
        buf_reserve(dst, reserve_len);
        buf_put_slice(dst, ident.as_bytes());
        buf_put_u8(dst, SEPARATOR);
        let mut i: usize = 0;
        assert(all.take(0) =~= Seq::<Seq<char>>::empty());
        assert(contents(*dst) =~= before + encode_utf8(code) + seq![SEPARATOR] + joined_bytes(
            all.take(0),
        ));
        while i < args.len()
            invariant
                i <= args.len(),
                all == texts(args@),
                before.len() + encode_utf8(code).len() + 2 + joined_bytes(all).len() <= isize::MAX,
                contents(*dst) == before + encode_utf8(code) + seq![SEPARATOR] + joined_bytes(
                    all.take(i as int),
                ),
            decreases args.len() - i,
        {
            proof {
                let upto = all.take(i + 1);
                assert(upto.drop_last() =~= all.take(i as int));
                assert(upto.last() == args@[i as int]@);
                lemma_joined_bytes_prefix(all, i + 1);
            }
            buf_put_slice(dst, args[i].as_str().as_bytes());
            buf_put_u8(dst, SEPARATOR);
            i = i + 1;
            assert(contents(*dst) =~= before + encode_utf8(code) + seq![SEPARATOR] + joined_bytes(
                all.take(i as int),
            ));
        }
        assert(all.take(i as int) =~= all);
        buf_put_u8(dst, END);
        assert(contents(*dst) =~= before + wire_bytes(code, all));
        Ok(())
    }
}

/// The first `#%` of a buffer stands in one place only.
pub proof fn lemma_message_end_unique(buf: Seq<u8>, i: int)
    requires
        message_ends(buf, i),
    ensures
        forall|j: int| message_ends(buf, j) ==> j == i,
        (choose|j: int| message_ends(buf, j)) == i,
{
    assert forall|j: int| message_ends(buf, j) implies j == i by {
        if j < i {
            assert(!terminator_at(buf, j));
        } else if i < j {
            assert(!terminator_at(buf, i));
        }
    }
}

} // verus!
