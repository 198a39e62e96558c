//! WebSocket messages as plain values, and the verdicts on them.

use vstd::prelude::*;
use vstd::string::*;
use vstd::utf8::{decode_utf8, encode_utf8, valid_utf8};
use crate::text::{
    chars_of, decimal_nat, extend_str, is_text, push_decimal, split_once, split_once_spec,
    string_of, utf8_string,
};

verus! {

/// The kinds of data frames.
#[derive(Clone, Copy, Debug, PartialEq, Eq, Structural)]
pub enum Data {
    Continue,
    Text,
    Binary,
}

/// The kinds of control frames.
#[derive(Clone, Copy, Debug, PartialEq, Eq, Structural)]
pub enum Control {
    Close,
    Ping,
    Pong,
}

/// The operation code of a frame.
#[derive(Clone, Copy, Debug, PartialEq, Eq, Structural)]
pub enum OpCode {
    Data(Data),
    Control(Control),
}

/// The lower case form of a text by the rules of Unicode.
pub uninterp spec fn lower_text(s: Seq<char>) -> Seq<char>;

/// Puts a text into lower case with `str::to_lowercase`.
#[verifier::external_body]
fn lower_case(s: &str) -> (r: String)
    ensures
        r@ == lower_text(s@),
{
    s.to_lowercase()
}

/// The two halves of an operation code's name: type and code. A name without
/// a colon stands for `data:continue`.
pub open spec fn opcode_halves(low: Seq<char>) -> (Seq<char>, Seq<char>) {
    match split_once_spec(low, ':') {
        Some(h) => h,
        None => ("data"@, "continue"@),
    }
}

/// The operation code that a lower case name stands for, or the complaint
/// about it.
pub open spec fn opcode_named(low: Seq<char>) -> Result<OpCode, Seq<char>> {
    let (typ, code) = opcode_halves(low);
    if typ == "data"@ {
        if code == "continue"@ {
            Ok(OpCode::Data(Data::Continue))
        } else if code == "text"@ {
            Ok(OpCode::Data(Data::Text))
        } else if code == "binary"@ {
            Ok(OpCode::Data(Data::Binary))
        } else {
            Err("<invalid data opcode>"@)
        }
    } else if typ == "control"@ {
        if code == "close"@ {
            Ok(OpCode::Control(Control::Close))
        } else if code == "ping"@ {
            Ok(OpCode::Control(Control::Ping))
        } else if code == "pong"@ {
            Ok(OpCode::Control(Control::Pong))
        } else {
            Err("<invalid control opcode>"@)
        }
    } else {
        Err("<invalid opcode type>"@)
    }
}

/// A result with the complaint as mathematical value.
pub open spec fn complaint_view<T>(r: Result<T, &'static str>) -> Result<T, Seq<char>> {
    match r {
        Ok(v) => Ok(v),
        Err(e) => Err(e@),
    }
}

/// The operation code that a name in lower case stands for.
pub fn opcode_of_lower(low: &str) -> (r: Result<OpCode, &'static str>)
    ensures
        complaint_view(r) == opcode_named(low@),
{
    let c = chars_of(low);
    let (typ, code) = match split_once(c.as_slice(), ':') {
        Some((a, b)) => (a, b),
        None => (chars_of("data"), chars_of("continue")),
    };
    assert((typ@, code@) == opcode_halves(low@));
    if is_text(typ.as_slice(), "data") {
        if is_text(code.as_slice(), "continue") {
            Ok(OpCode::Data(Data::Continue))
        } else if is_text(code.as_slice(), "text") {
            Ok(OpCode::Data(Data::Text))
        } else if is_text(code.as_slice(), "binary") {
            Ok(OpCode::Data(Data::Binary))
        } else {
            Err("<invalid data opcode>")
        }
    } else if is_text(typ.as_slice(), "control") {
        if is_text(code.as_slice(), "close") {
            Ok(OpCode::Control(Control::Close))
        } else if is_text(code.as_slice(), "ping") {
            Ok(OpCode::Control(Control::Ping))
        } else if is_text(code.as_slice(), "pong") {
            Ok(OpCode::Control(Control::Pong))
        } else {
            Err("<invalid control opcode>")
        }
    } else {
        Err("<invalid opcode type>")
    }
}

/// The operation code that a name stands for, in letters of either case.
pub fn to_opcode(opcode: &str) -> (r: Result<OpCode, &'static str>)
    ensures
        complaint_view(r) == opcode_named(lower_text(opcode@)),
{
    let low = lower_case(opcode);
    opcode_of_lower(low.as_str())
}

/// A frame mask: exactly four bytes.
pub fn to_mask(mask: Vec<u8>) -> (r: Result<[u8; 4], &'static str>)
    ensures
        match r {
            Ok(m) => mask@.len() == 4 && m@ == mask@,
            Err(e) => mask@.len() != 4 && e@ == "Expected a array of length 4"@,
        },
{
    if mask.len() != 4 {
        return Err("Expected a array of length 4");
    }
    let m: [u8; 4] = [mask[0], mask[1], mask[2], mask[3]];
    assert(m@ =~= mask@);
    Ok(m)
}

/// The header of a frame.
#[derive(Clone, Copy, Debug, PartialEq, Eq)]
pub struct JsFrameHeader {
    /// The frame is the last one of a message.
    pub is_final: bool,
    pub rsv1: bool,
    pub rsv2: bool,
    pub rsv3: bool,
    pub opcode: OpCode,
    pub mask: Option<[u8; 4]>,
}

impl JsFrameHeader {
    /// The header with the given flags, the operation code of the given name
    /// and the given mask, if any.
    pub fn new(
        is_final: bool,
        rsv1: bool,
        rsv2: bool,
        rsv3: bool,
        opcode: &str,
        mask: Option<Vec<u8>>,
    ) -> (r: Result<Self, &'static str>)
        ensures
            match r {
                Ok(h) => {
                    &&& opcode_named(lower_text(opcode@)) == Ok::<OpCode, Seq<char>>(h.opcode)
                    &&& h.is_final == is_final && h.rsv1 == rsv1 && h.rsv2 == rsv2 && h.rsv3
                        == rsv3
                    &&& match mask {
                        Some(m) => m@.len() == 4 && h.mask.is_some() && h.mask.unwrap()@ == m@,
                        None => h.mask.is_none(),
                    }
                },
                Err(e) => match opcode_named(lower_text(opcode@)) {
                    Err(c) => e@ == c,
                    Ok(_) => mask.is_some() && mask.unwrap()@.len() != 4 && e@
                        == "Expected a array of length 4"@,
                },
            },
    {
        let code = match to_opcode(opcode) {
            Ok(c) => c,
            Err(e) => {
                return Err(e);
            },
        };
        let mask = match mask {
            Some(v) => match to_mask(v) {
                Ok(m) => Some(m),
                Err(e) => {
                    return Err(e);
                },
            },
            None => None,
        };
        Ok(JsFrameHeader { is_final, rsv1, rsv2, rsv3, opcode: code, mask })
    }

    /// The number of bytes that the header takes before a payload of the
    /// given length.
    pub open spec fn encoded_len(self, payload: nat) -> nat {
        (2 + (if payload < 126 {
            0nat
        } else if payload < 65536 {
            2nat
        } else {
            8nat
        }) + (if self.mask.is_some() {
            4nat
        } else {
            0nat
        })) as nat
    }
}

/// Why a connection is closed.
pub struct CloseFrame {
    pub code: u16,
    pub reason: String,
}

/// A WebSocket message.
pub enum Message {
    Text(String),
    Binary(Vec<u8>),
    Ping(Vec<u8>),
    Pong(Vec<u8>),
    Close(Option<CloseFrame>),
    Frame(JsFrameHeader, Vec<u8>),
}

/// The bytes that a message carries.
pub open spec fn message_data(m: Message) -> Seq<u8> {
    match m {
        Message::Text(s) => encode_utf8(s@),
        Message::Binary(d) => d@,
        Message::Ping(d) => d@,
        Message::Pong(d) => d@,
        Message::Close(None) => Seq::<u8>::empty(),
        Message::Close(Some(f)) => encode_utf8(f.reason@),
        Message::Frame(_, p) => p@,
    }
}

/// The text that a message carries, where its bytes are UTF-8.
pub open spec fn message_text(m: Message) -> Option<Seq<char>> {
    match m {
        Message::Text(s) => Some(s@),
        Message::Close(None) => Some(Seq::<char>::empty()),
        Message::Close(Some(f)) => Some(f.reason@),
        _ => if valid_utf8(message_data(m)) {
            Some(decode_utf8(message_data(m)))
        } else {
            None
        },
    }
}

/// The length of a message in bytes; a raw frame counts with its header.
pub open spec fn message_len(m: Message) -> nat {
    match m {
        Message::Frame(h, p) => h.encoded_len(p@.len()) + p@.len(),
        _ => message_data(m).len(),
    }
}

/// The name of a message's kind.
pub open spec fn message_kind(m: Message) -> Seq<char> {
    match m {
        Message::Text(_) => "text"@,
        Message::Binary(_) => "binary"@,
        Message::Ping(_) => "ping"@,
        Message::Pong(_) => "pong"@,
        Message::Close(_) => "close"@,
        Message::Frame(_, _) => "frame"@,
    }
}

/// A message as it is shown: its text, or a note of its length where it has
/// none.
pub open spec fn message_shown(m: Message) -> Seq<char> {
    match message_text(m) {
        Some(t) => t,
        None => "Binary Data<length="@ + decimal_nat(message_len(m)) + ">"@,
    }
}

/// A message in the hands of decision logic.
pub struct JsMessage {
    pub msg: Message,
}

impl JsMessage {
    pub fn text(string: String) -> (r: JsMessage)
        ensures
            r.msg == Message::Text(string),
    {
        JsMessage { msg: Message::Text(string) }
    }

    pub fn binary(bin: Vec<u8>) -> (r: JsMessage)
        ensures
            r.msg == Message::Binary(bin),
    {
        JsMessage { msg: Message::Binary(bin) }
    }

    pub fn frame(header: JsFrameHeader, payload: Vec<u8>) -> (r: JsMessage)
        ensures
            r.msg == Message::Frame(header, payload),
    {
        JsMessage { msg: Message::Frame(header, payload) }
    }

    /// The name of the message's kind.
    pub fn kind(&self) -> (r: &'static str)
        ensures
            r@ == message_kind(self.msg),
    {
        match &self.msg {
            Message::Text(_) => "text",
            Message::Binary(_) => "binary",
            Message::Ping(_) => "ping",
            Message::Pong(_) => "pong",
            Message::Close(_) => "close",
            Message::Frame(_, _) => "frame",
        }
    }

    /// The bytes that the message carries.
    pub fn to_bytes(&self) -> (r: Vec<u8>)
        ensures
            r@ == message_data(self.msg),
    {
        match &self.msg {
            Message::Text(s) => s.as_str().as_bytes_vec(),
            Message::Binary(d) => d.clone(),
            Message::Ping(d) => d.clone(),
            Message::Pong(d) => d.clone(),
            Message::Close(None) => Vec::new(),
            Message::Close(Some(f)) => f.reason.as_str().as_bytes_vec(),
            Message::Frame(_, p) => p.clone(),
        }
    }

    /// The text that the message carries, or `None` where its bytes are not
    /// UTF-8.
    pub fn to_text(&self) -> (r: Option<String>)
        ensures
            match r {
                Some(s) => message_text(self.msg) == Some(s@),
                None => message_text(self.msg).is_none(),
            },
    {
        match &self.msg {
            Message::Text(s) => Some(s.clone()),
            Message::Close(None) => Some(String::new()),
            Message::Close(Some(f)) => Some(f.reason.clone()),
            Message::Binary(d) => utf8_string(d.clone()),
            Message::Ping(d) => utf8_string(d.clone()),
            Message::Pong(d) => utf8_string(d.clone()),
            Message::Frame(_, p) => utf8_string(p.clone()),
        }
    }

    /// The length of the message in bytes.
    pub fn len(&self) -> (r: u64)
        requires
            message_len(self.msg) <= u64::MAX,
        ensures
            r == message_len(self.msg),
    {
        match &self.msg {
            Message::Text(s) => s.as_str().as_bytes().len() as u64,
            Message::Binary(d) => d.len() as u64,
            Message::Ping(d) => d.len() as u64,
            Message::Pong(d) => d.len() as u64,
            Message::Close(None) => 0,
            Message::Close(Some(f)) => f.reason.as_str().as_bytes().len() as u64,
            Message::Frame(h, p) => {
                let n: u64 = p.len() as u64;
                let extra: u64 = if n < 126 {
                    0
                } else if n < 65536 {
                    2
                } else {
                    8
                };
                let mask: u64 = if h.mask.is_some() {
                    4
                } else {
                    0
                };
                2 + extra + mask + n
            },
        }
    }

    /// The message as it is shown.
    pub fn to_string(&self) -> (r: String)
        requires
            message_len(self.msg) <= u64::MAX,
        ensures
            r@ == message_shown(self.msg),
    {
        match self.to_text() {
            Some(s) => s,
            None => {
                let mut v: Vec<char> = Vec::new();
                extend_str(&mut v, "Binary Data<length=");
                push_decimal(&mut v, self.len());
                extend_str(&mut v, ">");
                string_of(v.as_slice())
            },
        }
    }

    /// A copy of the message.
    pub fn copy(&self) -> (r: JsMessage)
        ensures
            message_data(r.msg) == message_data(self.msg),
            message_kind(r.msg) == message_kind(self.msg),
            message_text(r.msg) == message_text(self.msg),
            message_len(r.msg) == message_len(self.msg),
    {
        let msg = match &self.msg {
            Message::Text(s) => Message::Text(s.clone()),
            Message::Binary(d) => Message::Binary(d.clone()),
            Message::Ping(d) => Message::Ping(d.clone()),
            Message::Pong(d) => Message::Pong(d.clone()),
            Message::Close(None) => Message::Close(None),
            Message::Close(Some(f)) => Message::Close(
                Some(CloseFrame { code: f.code, reason: f.reason.clone() }),
            ),
            Message::Frame(h, p) => Message::Frame(*h, p.clone()),
        };
        JsMessage { msg }
    }
}

/// The verdict on a message.
pub enum WsAction {
    /// No verdict. Decision logic never gives this one.
    Ignore,
    /// Send the message on after so many milliseconds.
    Delay(JsMessage, u64),
    /// Send this message back to where the first one came from.
    Respond(JsMessage),
    /// Send the message on.
    Release(JsMessage),
}

/// A verdict on a message, as decision logic hands it over.
pub struct JsWsAction {
    pub action: WsAction,
}

/// A verdict in one line.
pub open spec fn ws_action_shown(a: WsAction) -> Seq<char> {
    "WsAction::"@ + (match a {
        WsAction::Ignore => "Ignore()"@,
        WsAction::Delay(m, ms) => "Delay(msg:\""@ + message_shown(m.msg) + "\", ms:"@
            + decimal_nat(ms as nat) + ")"@,
        WsAction::Respond(m) => "Respond(msg:\""@ + message_shown(m.msg) + "\")"@,
        WsAction::Release(m) => "Release(msg:\""@ + message_shown(m.msg) + "\")"@,
    })
}

/// The message of a verdict, if it has one.
pub open spec fn action_message(a: WsAction) -> Option<JsMessage> {
    match a {
        WsAction::Ignore => None,
        WsAction::Delay(m, _) => Some(m),
        WsAction::Respond(m) => Some(m),
        WsAction::Release(m) => Some(m),
    }
}

impl JsWsAction {
    pub fn ignore() -> (r: Self)
        ensures
            r.action == WsAction::Ignore,
    {
        JsWsAction { action: WsAction::Ignore }
    }

    pub fn respond(msg: JsMessage) -> (r: Self)
        ensures
            r.action == WsAction::Respond(msg),
    {
        JsWsAction { action: WsAction::Respond(msg) }
    }

    pub fn release(msg: JsMessage) -> (r: Self)
        ensures
            r.action == WsAction::Release(msg),
    {
        JsWsAction { action: WsAction::Release(msg) }
    }

    pub fn delay(msg: JsMessage, ms: u64) -> (r: Self)
        ensures
            r.action == WsAction::Delay(msg, ms),
    {
        JsWsAction { action: WsAction::Delay(msg, ms) }
    }

    /// The name of the verdict.
    pub fn name(&self) -> (r: &'static str)
        ensures
            r@ == match self.action {
                WsAction::Delay(_, _) => "delay"@,
                WsAction::Ignore => "ignore"@,
                WsAction::Respond(_) => "respond"@,
                WsAction::Release(_) => "release"@,
            },
    {
        match &self.action {
            WsAction::Delay(_, _) => "delay",
            WsAction::Ignore => "ignore",
            WsAction::Respond(_) => "respond",
            WsAction::Release(_) => "release",
        }
    }

    /// The verdict in one line.
    pub fn to_string(&self) -> (r: String)
        requires
            action_message(self.action).is_some() ==> message_len(
                action_message(self.action).unwrap().msg,
            ) <= u64::MAX,
        ensures
            r@ == ws_action_shown(self.action),
    {
        let mut v: Vec<char> = Vec::new();
        extend_str(&mut v, "WsAction::");
        match &self.action {
            WsAction::Ignore => {
                extend_str(&mut v, "Ignore()");
            },
            WsAction::Delay(m, ms) => {
                extend_str(&mut v, "Delay(msg:\"");
                let s = m.to_string();
                extend_str(&mut v, s.as_str());
                extend_str(&mut v, "\", ms:");
                push_decimal(&mut v, *ms);
                extend_str(&mut v, ")");
            },
            WsAction::Respond(m) => {
                extend_str(&mut v, "Respond(msg:\"");
                let s = m.to_string();
                extend_str(&mut v, s.as_str());
                extend_str(&mut v, "\")");
            },
            WsAction::Release(m) => {
                extend_str(&mut v, "Release(msg:\"");
                let s = m.to_string();
                extend_str(&mut v, s.as_str());
                extend_str(&mut v, "\")");
            },
        }
        assert(v@ =~= ws_action_shown(self.action));
        string_of(v.as_slice())
    }
}

} // verus!
