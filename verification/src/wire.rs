//! The wire protocol: one discriminant byte, then the payload texts in order.
//!
//! Every text is prefixed with its length in bytes. A length below 255 takes
//! one byte; any other length is written as the byte 255 followed by the
//! length in four bytes, big endian. Texts are UTF-8.

use vstd::prelude::*;
use vstd::slice::*;
use vstd::utf8::*;

verus! {

/// Discriminant of a request that creates an account.
pub const TAG_CREATE: u8 = 1;

/// Discriminant of a request that lists accounts.
pub const TAG_LIST: u8 = 2;

/// Discriminant of a request that queues a text for a recipient.
pub const TAG_SEND: u8 = 3;

/// Discriminant of a request that drains a recipient's queue.
pub const TAG_DELIVER: u8 = 4;

/// Discriminant of a request that deletes an account.
pub const TAG_DELETE: u8 = 5;

/// Discriminant of a successful response.
pub const TAG_RESPONSE_OK: u8 = 242;

/// Discriminant of a failed response.
pub const TAG_RESPONSE_ERR: u8 = 243;

/// Largest text length, in bytes, that the length prefix can carry.
pub const MAX_TEXT_LEN: usize = 0xffff_ffff;

/// A unified message type for client and server.
#[derive(Debug)]
pub enum Message {
    /// Create an account.
    Create(String),
    /// List accounts, optionally by text wildcard.
    List(String),
    /// Send message to a recipient.
    Send(String, String),
    /// Deliver undelivered messages to a particular user.
    Deliver(String),
    /// Delete an account (fails if it has queued messages).
    Delete(String),
    /// Returned by the server.
    Response(Result<String, String>),
}

/// What a [`Message`] is in contracts: the same variants over character sequences.
pub ghost enum MessageView {
    Create(Seq<char>),
    List(Seq<char>),
    Send(Seq<char>, Seq<char>),
    Deliver(Seq<char>),
    Delete(Seq<char>),
    Response(Result<Seq<char>, Seq<char>>),
}

impl View for Message {
    type V = MessageView;

    open spec fn view(&self) -> MessageView {
        match self {
            Message::Create(name) => MessageView::Create(name@),
            Message::List(filter) => MessageView::List(filter@),
            Message::Send(name, text) => MessageView::Send(name@, text@),
            Message::Deliver(name) => MessageView::Deliver(name@),
            Message::Delete(name) => MessageView::Delete(name@),
            Message::Response(Ok(text)) => MessageView::Response(Ok(text@)),
            Message::Response(Err(text)) => MessageView::Response(Err(text@)),
        }
    }
}

/// Why a byte stream could not be read as a message, or why a message was
/// not acceptable where it arrived.
#[derive(Clone, Copy, Debug, PartialEq, Eq, Structural)]
pub enum ProtocolError {
    /// The stream ended inside a message. The number says how many more bytes
    /// the reader has to wait for before anything further can be decided.
    Truncated(usize),
    /// The leading byte names no message variant.
    UnknownDiscriminant(u8),
    /// A text field is not valid UTF-8.
    InvalidText,
    /// The message is well formed but of the wrong shape for its direction.
    UnexpectedMessage,
}

impl ProtocolError {
    /// The words by which the error is reported.
    pub open spec fn spec_message(self) -> Seq<char> {
        match self {
            ProtocolError::Truncated(_) => "wire message was cut short"@,
            ProtocolError::UnknownDiscriminant(_) => "wire message had invalid type"@,
            ProtocolError::InvalidText => "wire message had invalid UTF-8"@,
            ProtocolError::UnexpectedMessage => "wire message of unexpected shape"@,
        }
    }

    /// The words by which the error is reported.
    pub fn message(&self) -> (r: String)
        ensures
            r@ == self.spec_message(),
    {
        match self {
            ProtocolError::Truncated(_) => "wire message was cut short".to_owned(),
            ProtocolError::UnknownDiscriminant(_) => "wire message had invalid type".to_owned(),
            ProtocolError::InvalidText => "wire message had invalid UTF-8".to_owned(),
            ProtocolError::UnexpectedMessage => "wire message of unexpected shape".to_owned(),
        }
    }
}

/// The value of four bytes read as a big-endian number.
pub open spec fn be32(b0: u8, b1: u8, b2: u8, b3: u8) -> nat {
    (b0 as nat) * 0x100_0000 + (b1 as nat) * 0x1_0000 + (b2 as nat) * 0x100 + (b3 as nat)
}

/// The bytes that announce a text of `len` bytes.
pub open spec fn spec_encode_len(len: nat) -> Seq<u8>
    recommends
        len <= MAX_TEXT_LEN,
{
    if len < 255 {
        seq![len as u8]
    } else {
        seq![
            255u8,
            (len / 0x100_0000) as u8,
            ((len / 0x1_0000) % 0x100) as u8,
            ((len / 0x100) % 0x100) as u8,
            (len % 0x100) as u8,
        ]
    }
}

/// The bytes of one text field: its length prefix, then its UTF-8 encoding.
pub open spec fn spec_encode_str(text: Seq<char>) -> Seq<u8> {
    spec_encode_len(encode_utf8(text).len()) + encode_utf8(text)
}

/// Whether a text is short enough for the length prefix.
pub open spec fn text_fits(text: Seq<char>) -> bool {
    encode_utf8(text).len() <= MAX_TEXT_LEN
}

impl MessageView {
    /// The leading byte of the message's encoding.
    pub open spec fn tag(self) -> u8 {
        match self {
            MessageView::Create(_) => TAG_CREATE,
            MessageView::List(_) => TAG_LIST,
            MessageView::Send(_, _) => TAG_SEND,
            MessageView::Deliver(_) => TAG_DELIVER,
            MessageView::Delete(_) => TAG_DELETE,
            MessageView::Response(Ok(_)) => TAG_RESPONSE_OK,
            MessageView::Response(Err(_)) => TAG_RESPONSE_ERR,
        }
    }

    /// The encoded text fields, in declared order.
    pub open spec fn payload(self) -> Seq<u8> {
        match self {
            MessageView::Create(name) => spec_encode_str(name),
            MessageView::List(filter) => spec_encode_str(filter),
            MessageView::Send(name, text) => spec_encode_str(name) + spec_encode_str(text),
            MessageView::Deliver(name) => spec_encode_str(name),
            MessageView::Delete(name) => spec_encode_str(name),
            MessageView::Response(Ok(text)) => spec_encode_str(text),
            MessageView::Response(Err(text)) => spec_encode_str(text),
        }
    }

    /// The message's encoding: the discriminant, then the payload.
    pub open spec fn encoding(self) -> Seq<u8> {
        seq![self.tag()] + self.payload()
    }

    /// A message is valid for the wire when every text fits the length prefix.
    pub open spec fn fits(self) -> bool {
        match self {
            MessageView::Create(name) => text_fits(name),
            MessageView::List(filter) => text_fits(filter),
            MessageView::Send(name, text) => text_fits(name) && text_fits(text),
            MessageView::Deliver(name) => text_fits(name),
            MessageView::Delete(name) => text_fits(name),
            MessageView::Response(Ok(text)) => text_fits(text),
            MessageView::Response(Err(text)) => text_fits(text),
        }
    }

    /// Whether the message is one of the five requests.
    pub open spec fn is_request(self) -> bool {
        !(self is Response)
    }
}

/// What a decoder returns in contracts: the value and the number of bytes it
/// took, or the reason for failure.
pub type Decoded<T> = Result<(T, nat), ProtocolError>;

/// Reads a length prefix from the front of `bytes`.
pub open spec fn spec_decode_len(bytes: Seq<u8>) -> Decoded<nat> {
    if bytes.len() < 1 {
        Err(ProtocolError::Truncated(1))
    } else if bytes[0] != 255 {
        Ok((bytes[0] as nat, 1))
    } else if bytes.len() < 5 {
        Err(ProtocolError::Truncated((5 - bytes.len()) as usize))
    } else {
        Ok((be32(bytes[1], bytes[2], bytes[3], bytes[4]), 5))
    }
}

/// Reads one text field from the front of `bytes`.
pub open spec fn spec_decode_str(bytes: Seq<u8>) -> Decoded<Seq<char>> {
    match spec_decode_len(bytes) {
        Err(e) => Err(e),
        Ok((len, used)) => {
            if bytes.len() - used < len {
                Err(ProtocolError::Truncated((len - (bytes.len() - used)) as usize))
            } else {
                let body = bytes.subrange(used as int, (used + len) as int);
                if valid_utf8(body) {
                    Ok((decode_utf8(body), used + len))
                } else {
                    Err(ProtocolError::InvalidText)
                }
            }
        },
    }
}

/// Whether a byte is the discriminant of some message variant.
pub open spec fn known_tag(tag: u8) -> bool {
    tag == TAG_CREATE || tag == TAG_LIST || tag == TAG_SEND || tag == TAG_DELIVER || tag
        == TAG_DELETE || tag == TAG_RESPONSE_OK || tag == TAG_RESPONSE_ERR
}

/// The message with discriminant `tag` and a single text field.
pub open spec fn single_text_message(tag: u8, text: Seq<char>) -> MessageView
    recommends
        known_tag(tag),
        tag != TAG_SEND,
{
    if tag == TAG_CREATE {
        MessageView::Create(text)
    } else if tag == TAG_LIST {
        MessageView::List(text)
    } else if tag == TAG_DELIVER {
        MessageView::Deliver(text)
    } else if tag == TAG_DELETE {
        MessageView::Delete(text)
    } else if tag == TAG_RESPONSE_OK {
        MessageView::Response(Ok(text))
    } else {
        MessageView::Response(Err(text))
    }
}

/// Reads one message from the front of `bytes`: the discriminant first, then
/// each text in turn, failing at the first field that cannot be read.
pub open spec fn spec_decode(bytes: Seq<u8>) -> Decoded<MessageView> {
    if bytes.len() < 1 {
        Err(ProtocolError::Truncated(1))
    } else if !known_tag(bytes[0]) {
        Err(ProtocolError::UnknownDiscriminant(bytes[0]))
    } else {
        match spec_decode_str(bytes.skip(1)) {
            Err(e) => Err(e),
            Ok((first, used)) => {
                if bytes[0] != TAG_SEND {
                    Ok((single_text_message(bytes[0], first), 1 + used))
                } else {
                    match spec_decode_str(bytes.skip(1 + used as int)) {
                        Err(e) => Err(e),
                        Ok((second, more)) => Ok((MessageView::Send(first, second), 1 + used + more)),
                    }
                }
            },
        }
    }
}

/// The outcome of an executable decoder, as contracts see it.
pub open spec fn decoded_message(r: Result<(Message, usize), ProtocolError>) -> Decoded<
    MessageView,
> {
    match r {
        Ok((m, used)) => Ok((m@, used as nat)),
        Err(e) => Err(e),
    }
}

/// The outcome of an executable text decoder, as contracts see it.
pub open spec fn decoded_text(r: Result<(String, usize), ProtocolError>) -> Decoded<Seq<char>> {
    match r {
        Ok((s, used)) => Ok((s@, used as nat)),
        Err(e) => Err(e),
    }
}

/// The outcome of an executable length decoder, as contracts see it.
pub open spec fn decoded_len(r: Result<(usize, usize), ProtocolError>) -> Decoded<nat> {
    match r {
        Ok((len, used)) => Ok((len as nat, used as nat)),
        Err(e) => Err(e),
    }
}

/// Calls `String::from_utf8`. The bytes become a string exactly when they are
/// valid UTF-8, and the string then holds the characters they encode.
#[verifier::external_body]
fn string_from_utf8(bytes: Vec<u8>) -> (r: Option<String>)
    ensures
        r is Some <==> valid_utf8(bytes@),
        r matches Some(s) ==> s@ == decode_utf8(bytes@),
{
    match String::from_utf8(bytes) {
        Ok(s) => Some(s),
        Err(_) => None,
    }
}

/// A length prefix is read back as the length it was written for, whatever
/// bytes follow it.
pub proof fn lemma_decode_encode_len(len: nat, rest: Seq<u8>)
    requires
        len <= MAX_TEXT_LEN,
    ensures
        spec_decode_len(spec_encode_len(len) + rest) == Ok::<(nat, nat), ProtocolError>(
            (len, spec_encode_len(len).len()),
        ),
{
    let prefix = spec_encode_len(len);
    let bytes = prefix + rest;
    if len < 255 {
        assert(bytes[0] == prefix[0]);
    } else {
        assert(bytes[0] == prefix[0]);
        assert(bytes[1] == prefix[1]);
        assert(bytes[2] == prefix[2]);
        assert(bytes[3] == prefix[3]);
        assert(bytes[4] == prefix[4]);
        assert(be32(prefix[1], prefix[2], prefix[3], prefix[4]) == len) by (nonlinear_arith)
            requires
                255 <= len <= 0xffff_ffff,
                prefix[1] == (len / 0x100_0000) as u8,
                prefix[2] == ((len / 0x1_0000) % 0x100) as u8,
                prefix[3] == ((len / 0x100) % 0x100) as u8,
                prefix[4] == (len % 0x100) as u8,
        ;
    }
}

/// A text field is read back as the text it was written for, whatever bytes
/// follow it.
pub proof fn lemma_decode_encode_str(text: Seq<char>, rest: Seq<u8>)
    requires
        text_fits(text),
    ensures
        spec_decode_str(spec_encode_str(text) + rest) == Ok::<(Seq<char>, nat), ProtocolError>(
            (text, spec_encode_str(text).len()),
        ),
{
    let body = encode_utf8(text);
    let prefix = spec_encode_len(body.len());
    let bytes = spec_encode_str(text) + rest;
    assert(bytes =~= prefix + (body + rest));
    lemma_decode_encode_len(body.len(), body + rest);
    let used = prefix.len();
    assert(bytes.subrange(used as int, (used + body.len()) as int) =~= body);
    encode_utf8_valid_utf8(text);
    encode_utf8_decode_utf8(text);
}

/// The round-trip law of the codec: decoding the bytes produced by encoding a
/// valid message reproduces that message exactly and takes exactly those
/// bytes, whatever follows them in the stream.
pub proof fn lemma_decode_encode(m: MessageView, rest: Seq<u8>)
    requires
        m.fits(),
    ensures
        spec_decode(m.encoding() + rest) == Ok::<(MessageView, nat), ProtocolError>(
            (m, m.encoding().len()),
        ),
{
    let bytes = m.encoding() + rest;
    assert(bytes[0] == m.tag());
    match m {
        MessageView::Send(name, text) => {
            let first = spec_encode_str(name);
            let second = spec_encode_str(text);
            assert(bytes.skip(1) =~= first + (second + rest));
            lemma_decode_encode_str(name, second + rest);
            assert(bytes.skip(1 + first.len() as int) =~= second + rest);
            lemma_decode_encode_str(text, rest);
        },
        MessageView::Create(t) | MessageView::List(t) | MessageView::Deliver(t)
        | MessageView::Delete(t) | MessageView::Response(Ok(t)) | MessageView::Response(Err(t)) => {
            assert(bytes.skip(1) =~= spec_encode_str(t) + rest);
            lemma_decode_encode_str(t, rest);
        },
    }
}

/// A text field that is cut short is reported as truncated, and the number
/// of bytes asked for never reaches beyond the end of the field.
pub proof fn lemma_decode_str_prefix(text: Seq<char>, cut: int)
    requires
        text_fits(text),
        0 <= cut < spec_encode_str(text).len(),
    ensures
        spec_decode_str(spec_encode_str(text).take(cut)) matches Err(ProtocolError::Truncated(k))
            && 0 < k <= spec_encode_str(text).len() - cut,
{
    let body = encode_utf8(text);
    let prefix = spec_encode_len(body.len());
    let whole = spec_encode_str(text);
    let part = whole.take(cut);
    if cut >= prefix.len() {
        assert(part =~= prefix + body.take(cut - prefix.len()));
        lemma_decode_encode_len(body.len(), body.take(cut - prefix.len()));
    } else if cut > 0 {
        assert(part[0] == prefix[0]);
    }
}

/// A message that is cut short is reported as truncated, and the number of
/// bytes asked for never reaches beyond the end of the message: a reader that
/// waits for just that many bytes takes nothing of what follows the message.
pub proof fn lemma_decode_prefix(m: MessageView, cut: int)
    requires
        m.fits(),
        0 <= cut < m.encoding().len(),
    ensures
        spec_decode(m.encoding().take(cut)) matches Err(ProtocolError::Truncated(k)) && 0 < k
            <= m.encoding().len() - cut,
{
    let whole = m.encoding();
    let part = whole.take(cut);
    if cut > 0 {
        assert(part[0] == m.tag());
        match m {
            MessageView::Send(name, text) => {
                let first = spec_encode_str(name);
                let second = spec_encode_str(text);
                if cut - 1 < first.len() {
                    assert(part.skip(1) =~= first.take(cut - 1));
                    lemma_decode_str_prefix(name, cut - 1);
                } else {
                    let more = cut - 1 - first.len();
                    assert(part.skip(1) =~= first + second.take(more));
                    lemma_decode_encode_str(name, second.take(more));
                    assert(part.skip(1 + first.len() as int) =~= second.take(more));
                    lemma_decode_str_prefix(text, more);
                }
            },
            MessageView::Create(t) | MessageView::List(t) | MessageView::Deliver(t)
            | MessageView::Delete(t) | MessageView::Response(Ok(t)) | MessageView::Response(
                Err(t),
            ) => {
                assert(part.skip(1) =~= spec_encode_str(t).take(cut - 1));
                lemma_decode_str_prefix(t, cut - 1);
            },
        }
    }
}

impl Message {
    /// Appends the length prefix for a text of `len` bytes.
    pub fn encode_len(stream: &mut Vec<u8>, len: usize)
        requires
            len <= MAX_TEXT_LEN,
        ensures
            final(stream)@ == old(stream)@ + spec_encode_len(len as nat),
    {
        if len < 255 {
            stream.push(len as u8);
            assert(stream@ =~= old(stream)@ + spec_encode_len(len as nat));
        } else {
            stream.push(255);
            stream.push((len / 0x100_0000) as u8);
            stream.push(((len / 0x1_0000) % 0x100) as u8);
            stream.push(((len / 0x100) % 0x100) as u8);
            stream.push((len % 0x100) as u8);
            assert(stream@ =~= old(stream)@ + spec_encode_len(len as nat));
        }
    }

    /// Appends one text field: length prefix, then the text's bytes.
    pub fn encode_str(stream: &mut Vec<u8>, s: &str)
        requires
            text_fits(s@),
        ensures
            final(stream)@ == old(stream)@ + spec_encode_str(s@),
    {
        let bytes = s.as_bytes();
        Self::encode_len(stream, bytes.len());
        let ghost mid = stream@;
        stream.extend_from_slice(bytes);
        assert(stream@ =~= mid + bytes@);
        assert(stream@ =~= old(stream)@ + spec_encode_str(s@));
    }

    /// Whether every text of the message is short enough for its length
    /// prefix, so that the message can be encoded.
    pub fn fits(&self) -> (r: bool)
        ensures
            r == self@.fits(),
    {
        match self {
            Message::Create(name) => name.as_str().as_bytes().len() <= MAX_TEXT_LEN,
            Message::List(filter) => filter.as_str().as_bytes().len() <= MAX_TEXT_LEN,
            Message::Send(name, text) => name.as_str().as_bytes().len() <= MAX_TEXT_LEN
                && text.as_str().as_bytes().len() <= MAX_TEXT_LEN,
            Message::Deliver(name) => name.as_str().as_bytes().len() <= MAX_TEXT_LEN,
            Message::Delete(name) => name.as_str().as_bytes().len() <= MAX_TEXT_LEN,
            Message::Response(Ok(resp)) => resp.as_str().as_bytes().len() <= MAX_TEXT_LEN,
            Message::Response(Err(err)) => err.as_str().as_bytes().len() <= MAX_TEXT_LEN,
        }
    }

    /// Encode a message onto the end of a byte stream.
    pub fn encode(&self, stream: &mut Vec<u8>)
        requires
            self@.fits(),
        ensures
            final(stream)@ == old(stream)@ + self@.encoding(),
    {
        match self {
            Message::Create(name) => {
                stream.push(TAG_CREATE);
                Self::encode_str(stream, name.as_str());
            },
            Message::List(filter) => {
                stream.push(TAG_LIST);
                Self::encode_str(stream, filter.as_str());
            },
            Message::Send(name, text) => {
                stream.push(TAG_SEND);
                Self::encode_str(stream, name.as_str());
                Self::encode_str(stream, text.as_str());
            },
            Message::Deliver(name) => {
                stream.push(TAG_DELIVER);
                Self::encode_str(stream, name.as_str());
            },
            Message::Delete(name) => {
                stream.push(TAG_DELETE);
                Self::encode_str(stream, name.as_str());
            },
            Message::Response(Ok(resp)) => {
                stream.push(TAG_RESPONSE_OK);
                Self::encode_str(stream, resp.as_str());
            },
            Message::Response(Err(err)) => {
                stream.push(TAG_RESPONSE_ERR);
                Self::encode_str(stream, err.as_str());
            },
        }
        assert(stream@ =~= old(stream)@ + self@.encoding());
    }

    /// Reads a length prefix from the front of `stream`.
    pub fn decode_len(stream: &[u8]) -> (r: Result<(usize, usize), ProtocolError>)
        ensures
            decoded_len(r) == spec_decode_len(stream@),
    {
        if stream.len() < 1 {
            return Err(ProtocolError::Truncated(1));
        }
        if stream[0] != 255 {
            return Ok((stream[0] as usize, 1));
        }
        if stream.len() < 5 {
            return Err(ProtocolError::Truncated(5 - stream.len()));
        }
        let len: u32 = (stream[1] as u32) * 0x100_0000 + (stream[2] as u32) * 0x1_0000 + (
        stream[3] as u32) * 0x100 + (stream[4] as u32);
        Ok((len as usize, 5))
    }

    /// Reads one text field from the front of `stream`.
    pub fn decode_str(stream: &[u8]) -> (r: Result<(String, usize), ProtocolError>)
        ensures
            decoded_text(r) == spec_decode_str(stream@),
    {
        let (len, used) = match Self::decode_len(stream) {
            Ok(pair) => pair,
            Err(e) => {
                return Err(e);
            },
        };
        let rest: usize = stream.len() - used;
        if rest < len {
            return Err(ProtocolError::Truncated(len - rest));
        }
        let body = slice_to_vec(slice_subrange(stream, used, used + len));
        match string_from_utf8(body) {
            Some(s) => Ok((s, used + len)),
            None => Err(ProtocolError::InvalidText),
        }
    }

    /// Decode the next message from the front of a byte stream. On success the
    /// second component says how many bytes the message took.
    pub fn decode(stream: &[u8]) -> (r: Result<(Message, usize), ProtocolError>)
        ensures
            decoded_message(r) == spec_decode(stream@),
    {
        if stream.len() < 1 {
            return Err(ProtocolError::Truncated(1));
        }
        let tag: u8 = stream[0];
        if !(tag == TAG_CREATE || tag == TAG_LIST || tag == TAG_SEND || tag == TAG_DELIVER || tag
            == TAG_DELETE || tag == TAG_RESPONSE_OK || tag == TAG_RESPONSE_ERR) {
            return Err(ProtocolError::UnknownDiscriminant(tag));
        }
        let after_tag = slice_subrange(stream, 1, stream.len());
        assert(after_tag@ =~= stream@.skip(1));
        let (first, used) = match Self::decode_str(after_tag) {
            Ok(pair) => pair,
            Err(e) => {
                return Err(e);
            },
        };
        if tag == TAG_CREATE {
            Ok((Message::Create(first), 1 + used))
        } else if tag == TAG_LIST {
            Ok((Message::List(first), 1 + used))
        } else if tag == TAG_DELIVER {
            Ok((Message::Deliver(first), 1 + used))
        } else if tag == TAG_DELETE {
            Ok((Message::Delete(first), 1 + used))
        } else if tag == TAG_RESPONSE_OK {
            Ok((Message::Response(Ok(first)), 1 + used))
        } else if tag == TAG_RESPONSE_ERR {
            Ok((Message::Response(Err(first)), 1 + used))
        } else {
            let after_first = slice_subrange(stream, 1 + used, stream.len());
            assert(after_first@ =~= stream@.skip(1 + used));
            match Self::decode_str(after_first) {
                Ok((second, more)) => Ok((Message::Send(first, second), 1 + used + more)),
                Err(e) => Err(e),
            }
        }
    }
}

} // verus!
