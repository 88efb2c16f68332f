//! Messages from the Pusher channel that follows a cast spell, and the
//! steps of output that they build up.
//!
//! The socket, the terminal and the pause between reads stay outside the
//! library: the loop hands each decoded response to `Output::handle_response`
//! and acts on the `Reaction` it gets back.

use vstd::prelude::*;
use vstd::utf8::{valid_utf8, decode_utf8, encode_utf8};
use crate::text::{push_char, same_text};
use crate::decimal::{decimal, digit_char, push_decimal};
use crate::style::{
    paint_outcome, truecolor_outcome, green_code, bold_bright_white_code, paint_green,
    paint_bold_bright_white, paint_truecolor,
};

verus! {

// ---------------------------------------------------------------------------
// Blocks of step output

/// One step of a running spell, as shown in the terminal.
pub struct Block {
    pub name: String,
    pub body: String,
    pub step_num: u8,
    pub num_steps: u8,
    pub complete: bool,
}

/// The value of a block.
pub struct BlockView {
    pub name: Seq<char>,
    pub body: Seq<char>,
    pub step_num: u8,
    pub num_steps: u8,
    pub complete: bool,
}

impl View for Block {
    type V = BlockView;

    open spec fn view(&self) -> BlockView {
        BlockView {
            name: self.name@,
            body: self.body@,
            step_num: self.step_num,
            num_steps: self.num_steps,
            complete: self.complete,
        }
    }
}

/// The text of a block around its status mark, name and body:
/// `"{status} [{step}/{steps}] {name}\n\n{body}\n"`.
pub open spec fn block_layout(
    status: Seq<char>,
    step_num: u8,
    num_steps: u8,
    name: Seq<char>,
    body: Seq<char>,
) -> Seq<char> {
    status + seq![' ', '['] + decimal(step_num as nat) + seq!['/'] + decimal(num_steps as nat)
        + seq![']', ' '] + name + seq!['\n', '\n'] + body + seq!['\n']
}

/// The mark of a finished step.
pub open spec fn done_mark() -> Seq<char> {
    seq!['\u{2713}']
}

/// The mark of a running step.
pub open spec fn running_mark() -> Seq<char> {
    seq!['\u{1F3C3}']
}

/// `st` is a possible rendering of the status mark of a block.
pub open spec fn status_outcome(complete: bool, st: Seq<char>) -> bool {
    if complete {
        paint_outcome(done_mark(), green_code(), st)
    } else {
        st == running_mark()
    }
}

/// `t` is a possible terminal text of block `b`: its mark (green when
/// finished), its name in bold bright white and its body in grey, each
/// either styled or plain as the terminal allows.
pub open spec fn block_text_outcome(b: BlockView, t: Seq<char>) -> bool {
    exists|st: Seq<char>, nm: Seq<char>, bd: Seq<char>|
        #![trigger block_layout(st, b.step_num, b.num_steps, nm, bd)]
        status_outcome(b.complete, st) && paint_outcome(b.name, bold_bright_white_code(), nm)
            && truecolor_outcome(b.body, 155, 155, 155, bd) && t == block_layout(
            st,
            b.step_num,
            b.num_steps,
            nm,
            bd,
        )
}

/// Lays out the text of a block from its already styled parts.
pub fn terminal_layout(status: &str, step_num: u8, num_steps: u8, name: &str, body: &str) -> (r:
    String)
    ensures
        r@ == block_layout(status@, step_num, num_steps, name@, body@),
{
    let mut out = String::new();
    out.append(status);
    push_char(&mut out, ' ');
    push_char(&mut out, '[');
    push_decimal(&mut out, step_num);
    push_char(&mut out, '/');
    push_decimal(&mut out, num_steps);
    push_char(&mut out, ']');
    push_char(&mut out, ' ');
    out.append(name);
    push_char(&mut out, '\n');
    push_char(&mut out, '\n');
    out.append(body);
    push_char(&mut out, '\n');
    assert(out@ =~= block_layout(status@, step_num, num_steps, name@, body@));
    out
}

impl Block {
    /// Adds `string` at the end of the body.
    pub fn append_to_body(&mut self, string: &str)
        ensures
            final(self)@ == (BlockView { body: old(self)@.body + string@, ..old(self)@ }),
    {
        self.body.append(string);
    }

    /// The text that shows this block in the terminal.
    pub fn as_terminal_output(&self) -> (r: String)
        ensures
            block_text_outcome(self@, r@),
    {
        let mut mark = String::new();
        if self.complete {
            push_char(&mut mark, '\u{2713}');
        } else {
            push_char(&mut mark, '\u{1F3C3}');
        }
        let status = if self.complete {
            paint_green(mark.as_str())
        } else {
            mark
        };
        let name = paint_bold_bright_white(self.name.as_str());
        let body = paint_truecolor(self.body.as_str(), 155, 155, 155);
        let r = terminal_layout(status.as_str(), self.step_num, self.num_steps, name.as_str(),
            body.as_str());
        proof {
            let b = self@;
            assert(status_outcome(b.complete, status@));
            assert(paint_outcome(b.name, bold_bright_white_code(), name@));
            assert(truecolor_outcome(b.body, 155, 155, 155, body@));
            assert(r@ == block_layout(status@, b.step_num, b.num_steps, name@, body@));
        }
        r
    }
}

// ---------------------------------------------------------------------------
// The decoded data of a channel message

/// What the channel logic reads of the data of a message: its `message`
/// and `name` fields, where they are strings.
#[derive(Debug)]
pub struct PusherData {
    pub message: Option<String>,
    pub name: Option<String>,
}

/// The value of the data of a message.
pub struct PusherDataView {
    pub message: Option<Seq<char>>,
    pub name: Option<Seq<char>>,
}

/// The view of an optional string.
pub open spec fn opt_view(o: Option<String>) -> Option<Seq<char>> {
    match o {
        Some(s) => Some(s@),
        None => None,
    }
}

impl View for PusherData {
    type V = PusherDataView;

    open spec fn view(&self) -> PusherDataView {
        PusherDataView { message: opt_view(self.message), name: opt_view(self.name) }
    }
}

/// A response read from the channel: its event name and decoded data.
#[derive(Debug)]
pub struct PusherResponse {
    pub event: String,
    pub data: PusherData,
}

/// Why the data of a message could not be decoded.
#[derive(Debug, PartialEq, Eq, Structural)]
pub enum DataError {
    /// The data string is not JSON.
    InvalidJson,
    /// The Base64 message does not decode to UTF-8 text.
    InvalidUtf8,
}

/// What serde_json gives for `text` parsed as a JSON value, reading each of
/// `keys` as a string field: `None` when `text` is not JSON; otherwise, for
/// each key, the field's text when the value is an object whose field of
/// that name is a string, and `None` in every other case.
pub uninterp spec fn json_string_fields(text: Seq<char>, keys: Seq<Seq<char>>) -> Option<
    Seq<Option<Seq<char>>>,
>;

/// What data-encoding's `BASE64` (standard alphabet, with padding) decodes
/// `input` to, or `None` when it is no such encoding.
pub uninterp spec fn base64_decoding(input: Seq<u8>) -> Option<Seq<u8>>;

/// The views of a sequence of optional strings.
pub open spec fn opt_views(v: Seq<Option<String>>) -> Seq<Option<Seq<char>>> {
    v.map_values(|o: Option<String>| opt_view(o))
}

/// `serde_json::from_str` into a `serde_json::Value`, then each key's field
/// read with `Value::get` and `Value::as_str`. The result is the named
/// function of the text and the keys, with one entry for each key.
#[verifier::external_body]
fn json_string_fields_of(text: &str, keys: &Vec<String>) -> (r: Option<Vec<Option<String>>>)
    ensures
        json_string_fields(text@, crate::text::views(keys@)) == match r {
            Some(v) => Some(opt_views(v@)),
            None => None,
        },
        r matches Some(v) ==> v.len() == keys.len(),
{
    ureq::serde_json::from_str::<ureq::serde_json::Value>(text).ok().map(
        |v| keys.iter().map(|k| v.get(k.as_str()).and_then(|f| f.as_str()).map(String::from)).collect(),
    )
}

/// `BASE64.decode` of data-encoding: the named decoding of `input`.
#[verifier::external_body]
fn base64_decode(input: &[u8]) -> (r: Option<Vec<u8>>)
    ensures
        base64_decoding(input@) == match r {
            Some(v) => Some(v@),
            None => None,
        },
{
    data_encoding::BASE64.decode(input).ok()
}

/// `String::from_utf8` of std: the text that `bytes` encode, when they are
/// valid UTF-8, and nothing otherwise.
#[verifier::external_body]
fn string_from_utf8(bytes: Vec<u8>) -> (r: Option<String>)
    ensures
        r is Some <==> valid_utf8(bytes@),
        r matches Some(s) ==> s@ == decode_utf8(bytes@),
{
    String::from_utf8(bytes).ok()
}

/// The data once the Base64 decoding of the raw `message` field is known.
pub open spec fn data_after_base64(
    message: Seq<char>,
    decoded: Option<Seq<u8>>,
    name: Option<Seq<char>>,
) -> Result<PusherDataView, DataError> {
    match decoded {
        Some(bytes) => if valid_utf8(bytes) {
            Ok(PusherDataView { message: Some(decode_utf8(bytes)), name })
        } else {
            Err(DataError::InvalidUtf8)
        },
        None => Ok(PusherDataView { message: Some(message), name }),
    }
}

/// The data once its `message` and `name` fields are read.
pub open spec fn data_from_fields(message: Option<Seq<char>>, name: Option<Seq<char>>) -> Result<
    PusherDataView,
    DataError,
> {
    match message {
        Some(m) => data_after_base64(m, base64_decoding(encode_utf8(m)), name),
        None => Ok(PusherDataView { message: None, name }),
    }
}

/// The keys that the channel logic reads.
pub open spec fn data_keys() -> Seq<Seq<char>> {
    seq!["message"@, "name"@]
}

/// What the data string of a message decodes to.
pub open spec fn decoded_data(text: Seq<char>) -> Result<PusherDataView, DataError> {
    match json_string_fields(text, data_keys()) {
        Some(fields) => data_from_fields(fields[0], fields[1]),
        None => Err(DataError::InvalidJson),
    }
}

/// Finishes the data of a message whose `message` field is the string
/// `message`, given what that string decodes to as Base64: the decoded text
/// replaces it when there is one, the raw string stays otherwise.
pub fn data_with_decoded_message(
    message: String,
    decoded: Option<Vec<u8>>,
    name: Option<String>,
) -> (r: Result<PusherData, DataError>)
    ensures
        match r {
            Ok(d) => data_after_base64(
                message@,
                match decoded {
                    Some(v) => Some(v@),
                    None => None,
                },
                opt_view(name),
            ) == Ok::<PusherDataView, DataError>(d@),
            Err(e) => data_after_base64(
                message@,
                match decoded {
                    Some(v) => Some(v@),
                    None => None,
                },
                opt_view(name),
            ) == Err::<PusherDataView, DataError>(e),
        },
{
    match decoded {
        Some(bytes) => match string_from_utf8(bytes) {
            Some(text) => Ok(PusherData { message: Some(text), name }),
            None => Err(DataError::InvalidUtf8),
        },
        None => Ok(PusherData { message: Some(message), name }),
    }
}

/// Builds the data of a message from its `message` and `name` string
/// fields: a `message` that is Base64 is replaced by the text it encodes.
pub fn data_from_message_fields(message: Option<String>, name: Option<String>) -> (r: Result<
    PusherData,
    DataError,
>)
    ensures
        match r {
            Ok(d) => data_from_fields(opt_view(message), opt_view(name)) == Ok::<
                PusherDataView,
                DataError,
            >(d@),
            Err(e) => data_from_fields(opt_view(message), opt_view(name)) == Err::<
                PusherDataView,
                DataError,
            >(e),
        },
{
    match message {
        Some(m) => {
            let decoded = base64_decode(m.as_str().as_bytes());
            data_with_decoded_message(m, decoded, name)
        },
        None => Ok(PusherData { message: None, name }),
    }
}

/// Decodes the data string of a channel message, or says why it cannot be.
fn decode_data(json_str: &str) -> (r: Result<PusherData, DataError>)
    ensures
        match r {
            Ok(d) => decoded_data(json_str@) == Ok::<PusherDataView, DataError>(d@),
            Err(e) => decoded_data(json_str@) == Err::<PusherDataView, DataError>(e),
        },
{
    let mut keys: Vec<String> = Vec::new();
    keys.push(String::from_str("message"));
    keys.push(String::from_str("name"));
    assert(crate::text::views(keys@) =~= data_keys());
    match json_string_fields_of(json_str, &keys) {
        Some(fields) => {
            let mut fields = fields;
            assert(opt_views(fields@)[0] == opt_view(fields@[0]));
            assert(opt_views(fields@)[1] == opt_view(fields@[1]));
            let name = fields.pop().unwrap();
            let message = fields.pop().unwrap();
            data_from_message_fields(message, name)
        },
        None => Err(DataError::InvalidJson),
    }
}

/// Decodes the data string of a channel message. The string is JSON of its
/// own; when its `message` field is a string holding Base64, the data is
/// that message decoded together with the `name` field, and otherwise the
/// fields as they stand. The string must decode: it must be JSON, and a
/// Base64 message must encode UTF-8 text.
pub fn deserialize_double_encoded_json_data(json_str: &str) -> (r: PusherData)
    requires
        decoded_data(json_str@) is Ok,
    ensures
        decoded_data(json_str@) == Ok::<PusherDataView, DataError>(r@),
{
    match decode_data(json_str) {
        Ok(data) => data,
        Err(_) => {
            proof {
                assert(false);
            }
            PusherData { message: None, name: None }
        },
    }
}

/// Decodes the data string of a channel message when it can be decoded, as
/// `deserialize_double_encoded_json_data` does; otherwise says why not: the
/// string is not JSON, or its Base64 message does not encode UTF-8 text.
pub fn try_deserialize_double_encoded_json_data(json_str: &str) -> (r: Result<PusherData, DataError>)
    ensures
        match r {
            Ok(d) => decoded_data(json_str@) == Ok::<PusherDataView, DataError>(d@),
            Err(e) => decoded_data(json_str@) == Err::<PusherDataView, DataError>(e),
        },
{
    match decode_data(json_str) {
        Ok(_) => Ok(deserialize_double_encoded_json_data(json_str)),
        Err(e) => Err(e),
    }
}

// ---------------------------------------------------------------------------
// Subscribing to a channel

/// The lower-case hexadecimal digit of `d`, for `d` below sixteen.
pub open spec fn hex_lower(d: nat) -> char {
    if d < 10 {
        digit_char(d)
    } else if d == 10 {
        'a'
    } else if d == 11 {
        'b'
    } else if d == 12 {
        'c'
    } else if d == 13 {
        'd'
    } else if d == 14 {
        'e'
    } else {
        'f'
    }
}

/// How serde_json writes `c` inside a JSON string: `"` and `\` after a
/// backslash, the short escapes `\b \t \n \f \r`, every other control
/// character as `\u00xx`, and anything else as it is.
pub open spec fn json_escape(c: char) -> Seq<char> {
    if c == '"' {
        seq!['\\', '"']
    } else if c == '\\' {
        seq!['\\', '\\']
    } else if c == '\u{8}' {
        seq!['\\', 'b']
    } else if c == '\t' {
        seq!['\\', 't']
    } else if c == '\n' {
        seq!['\\', 'n']
    } else if c == '\u{c}' {
        seq!['\\', 'f']
    } else if c == '\r' {
        seq!['\\', 'r']
    } else if (c as nat) < 32 {
        seq!['\\', 'u', '0', '0', hex_lower((c as nat) / 16), hex_lower((c as nat) % 16)]
    } else {
        seq![c]
    }
}

/// Every character of `s` as serde_json writes it inside a string.
pub open spec fn json_escaped(s: Seq<char>) -> Seq<char>
    decreases s.len(),
{
    if s.len() == 0 {
        seq![]
    } else {
        json_escaped(s.drop_last()) + json_escape(s.last())
    }
}

/// The JSON string literal that serde_json writes for `s`.
pub open spec fn json_string_literal(s: Seq<char>) -> Seq<char> {
    seq!['"'] + json_escaped(s) + seq!['"']
}

/// `serde_json::to_string` of a `str`: the string in double quotes, each
/// character written as its escape table says. Writing a string into a
/// byte vector cannot fail, so the call always returns `Ok`.
#[verifier::external_body]
fn json_quote(s: &str) -> (r: String)
    ensures
        r@ == json_string_literal(s@),
{
    ureq::serde_json::to_string(s).expect("a string always serialises")
}

/// The frame that subscribes to `channel`: the compact JSON object
/// `{"data":{"channel":…},"event":"pusher:subscribe"}`, its keys in the
/// sorted order in which serde_json writes an object.
pub open spec fn subscribe_text(channel: Seq<char>) -> Seq<char> {
    "{\"data\":{\"channel\":"@ + json_string_literal(channel) + "},\"event\":\"pusher:subscribe\"}"@
}

/// The text of the frame that subscribes to `channel`.
pub fn subscribe_message(channel: &str) -> (r: String)
    ensures
        r@ == subscribe_text(channel@),
{
    let mut r = String::from_str("{\"data\":{\"channel\":");
    let quoted = json_quote(channel);
    r.append(quoted.as_str());
    r.append("},\"event\":\"pusher:subscribe\"}");
    r
}

/// `c` is a hexadecimal digit.
pub open spec fn is_hex(c: char) -> bool {
    ('0' <= c && c <= '9') || ('a' <= c && c <= 'f') || ('A' <= c && c <= 'F')
}

/// `t` is the body of one JSON string, as a JSON reader sees it: no bare
/// `"` that would end the string early, no raw control character, and every
/// backslash starts a valid escape.
pub open spec fn json_string_body(t: Seq<char>) -> bool
    decreases t.len(),
{
    if t.len() == 0 {
        true
    } else if t[0] == '"' || (t[0] as nat) < 32 {
        false
    } else if t[0] == '\\' {
        if t.len() >= 6 && t[1] == 'u' {
            is_hex(t[2]) && is_hex(t[3]) && is_hex(t[4]) && is_hex(t[5]) && json_string_body(
                t.skip(6),
            )
        } else {
            t.len() >= 2 && (t[1] == '"' || t[1] == '\\' || t[1] == '/' || t[1] == 'b' || t[1]
                == 'f' || t[1] == 'n' || t[1] == 'r' || t[1] == 't') && json_string_body(t.skip(2))
        }
    } else {
        json_string_body(t.drop_first())
    }
}

/// `json_escaped` read from the front.
proof fn lemma_json_escaped_front(s: Seq<char>)
    requires
        s.len() > 0,
    ensures
        json_escaped(s) == json_escape(s[0]) + json_escaped(s.drop_first()),
    decreases s.len(),
{
    if s.len() > 1 {
        lemma_json_escaped_front(s.drop_last());
        assert(s.drop_last().drop_first() == s.drop_first().drop_last());
        assert(s.drop_first().last() == s.last());
        assert(s.drop_last()[0] == s[0]);
    } else {
        assert(s.drop_last().len() == 0);
        assert(s.drop_first().len() == 0);
        assert(json_escaped(s.drop_last()) == Seq::<char>::empty());
        assert(json_escaped(s.drop_first()) == Seq::<char>::empty());
    }
    assert(json_escaped(s) =~= json_escape(s[0]) + json_escaped(s.drop_first()));
}

/// One escaped character reads as one piece of a string body.
proof fn lemma_escape_reads(c: char, rest: Seq<char>)
    ensures
        json_string_body(json_escape(c) + rest) == json_string_body(rest),
{
    let t = json_escape(c) + rest;
    if c == '"' || c == '\\' || c == '\u{8}' || c == '\t' || c == '\n' || c == '\u{c}' || c
        == '\r' {
        assert(t.skip(2) =~= rest);
        assert(t[1] != 'u');
    } else if (c as nat) < 32 {
        let n = c as nat;
        assert(n / 16 < 16 && n % 16 < 16);
        assert(t.skip(6) =~= rest);
        assert(is_hex(hex_lower(n / 16)));
        assert(is_hex(hex_lower(n % 16)));
    } else {
        assert(t.drop_first() =~= rest);
    }
}

/// Whatever the channel's name, serde_json's literal for it is one JSON
/// string: its body never ends the string early nor holds a raw control
/// character. So the subscribe frame always has exactly its two keys, and
/// the name stays inside the value of `channel`.
pub proof fn law_channel_stays_in_string(channel: Seq<char>)
    ensures
        json_string_body(json_escaped(channel)),
        subscribe_text(channel) == "{\"data\":{\"channel\":"@ + seq!['"'] + json_escaped(channel)
            + seq!['"'] + "},\"event\":\"pusher:subscribe\"}"@,
    decreases channel.len(),
{
    if channel.len() > 0 {
        lemma_json_escaped_front(channel);
        law_channel_stays_in_string(channel.drop_first());
        lemma_escape_reads(channel[0], json_escaped(channel.drop_first()));
    } else {
        assert(json_escaped(channel).len() == 0);
    }
    assert(subscribe_text(channel) =~= "{\"data\":{\"channel\":"@ + seq!['"'] + json_escaped(
        channel,
    ) + seq!['"'] + "},\"event\":\"pusher:subscribe\"}"@);
}

// ---------------------------------------------------------------------------
// The output that the channel builds up

/// The steps shown so far.
pub struct Output {
    blocks: Vec<Block>,
}

/// What the loop does after a response has been handled.
#[derive(Debug, PartialEq, Eq, Structural)]
pub enum Reaction {
    /// Nothing to do: the connection or the subscription was confirmed.
    Ignored,
    /// The output changed: draw it again.
    Redraw,
    /// The event is not one the client knows: report it.
    UnknownEvent,
}

/// Why a `message` event could not be shown.
#[derive(Debug, PartialEq, Eq, Structural)]
pub enum StepError {
    /// The first message names no step.
    MissingName,
    /// The message holds no text.
    MissingMessage,
}

/// The step that stands before the first message: a finished example step.
pub open spec fn first_block() -> BlockView {
    BlockView {
        name: "Test first one"@,
        body: "Test body here \nHere is some more output: 1\nAnd more: 2\n"@,
        step_num: 1,
        num_steps: 2,
        complete: true,
    }
}

/// The running step that the first message opens.
pub open spec fn running_block(name: Seq<char>, message: Seq<char>) -> BlockView {
    BlockView { name, body: message, step_num: 2, num_steps: 2, complete: false }
}

/// The event that confirms the connection.
pub open spec fn connection_established() -> Seq<char> {
    "pusher:connection_established"@
}

/// The event that confirms the subscription.
pub open spec fn subscription_succeeded() -> Seq<char> {
    "pusher_internal:subscription_succeeded"@
}

/// The event that carries step output.
pub open spec fn message_event() -> Seq<char> {
    "message"@
}

/// The steps after one response, with what the loop does next; or why the
/// response could not be shown (the steps then stay as they were).
pub open spec fn next_state(blocks: Seq<BlockView>, event: Seq<char>, data: PusherDataView) -> Result<
    (Seq<BlockView>, Reaction),
    StepError,
> {
    if event == connection_established() || event == subscription_succeeded() {
        Ok((blocks, Reaction::Ignored))
    } else if event == message_event() {
        if blocks.len() == 0 {
            match data.name {
                None => Err(StepError::MissingName),
                Some(n) => match data.message {
                    None => Err(StepError::MissingMessage),
                    Some(m) => Ok((seq![first_block(), running_block(n, m)], Reaction::Redraw)),
                },
            }
        } else {
            match data.message {
                None => Err(StepError::MissingMessage),
                Some(m) => {
                    let last = blocks.last();
                    Ok(
                        (
                            blocks.update(
                                blocks.len() - 1,
                                BlockView { body: last.body + m, ..last },
                            ),
                            Reaction::Redraw,
                        ),
                    )
                },
            }
        }
    } else {
        Ok((blocks, Reaction::UnknownEvent))
    }
}

/// The steps are either none yet, or the example step followed by the
/// running step.
pub open spec fn wf_blocks(blocks: Seq<BlockView>) -> bool {
    ||| blocks.len() == 0
    ||| {
        &&& blocks.len() == 2
        &&& blocks[0] == first_block()
        &&& blocks[1].step_num == 2
        &&& blocks[1].num_steps == 2
        &&& !blocks[1].complete
    }
}

impl Output {
    /// Every output holds well-formed steps.
    #[verifier::type_invariant]
    spec fn inv(self) -> bool {
        wf_blocks(self@)
    }
}

impl View for Output {
    type V = Seq<BlockView>;

    closed spec fn view(&self) -> Seq<BlockView> {
        self.blocks@.map_values(|b: Block| b@)
    }
}

/// The concatenation of a sequence of texts.
pub open spec fn concat(ts: Seq<Seq<char>>) -> Seq<char>
    decreases ts.len(),
{
    if ts.len() == 0 {
        seq![]
    } else {
        concat(ts.drop_last()) + ts.last()
    }
}

impl Output {
    /// No steps yet.
    pub fn new() -> (r: Output)
        ensures
            r@ == Seq::<BlockView>::empty(),
            wf_blocks(r@),
    {
        Output { blocks: Vec::new() }
    }

    /// The steps shown so far.
    pub fn blocks(&self) -> (r: &Vec<Block>)
        ensures
            r@.map_values(|b: Block| b@) == self@,
    {
        &self.blocks
    }

    /// Handles one response from the channel: a confirmation changes
    /// nothing; the first `message` adds the example step and a running step
    /// named by the message; later messages add their text to the body of
    /// the last step; any other event is reported.
    pub fn handle_response(&mut self, response: &PusherResponse) -> (r: Result<Reaction, StepError>)
        ensures
            match next_state(old(self)@, response.event@, response.data@) {
                Ok((blocks, reaction)) => r == Ok::<Reaction, StepError>(reaction) && final(self)@
                    == blocks,
                Err(e) => r == Err::<Reaction, StepError>(e) && final(self)@ == old(self)@,
            },
            wf_blocks(final(self)@),
    {
        proof {
            use_type_invariant(&*self);
        }
        let event = response.event.as_str();
        if same_text(event, "pusher:connection_established") || same_text(
            event,
            "pusher_internal:subscription_succeeded",
        ) {
            return Ok(Reaction::Ignored);
        }
        if !same_text(event, "message") {
            return Ok(Reaction::UnknownEvent);
        }
        let ghost before = self@;
        if self.blocks.len() == 0 {
            match (&response.data.name, &response.data.message) {
                (Some(name), Some(message)) => {
                    let mut blocks: Vec<Block> = Vec::new();
                    blocks.push(
                        Block {
                            name: String::from_str("Test first one"),
                            body: String::from_str(
                                "Test body here \nHere is some more output: 1\nAnd more: 2\n",
                            ),
                            step_num: 1,
                            num_steps: 2,
                            complete: true,
                        },
                    );
                    blocks.push(
                        Block {
                            name: name.clone(),
                            body: message.clone(),
                            step_num: 2,
                            num_steps: 2,
                            complete: false,
                        },
                    );
                    assert(blocks@.map_values(|b: Block| b@) =~= seq![
                        first_block(),
                        running_block(name@, message@),
                    ]);
                    self.blocks = blocks;
                    Ok(Reaction::Redraw)
                },
                (None, _) => Err(StepError::MissingName),
                (Some(_), None) => Err(StepError::MissingMessage),
            }
        } else {
            match &response.data.message {
                Some(message) => {
                    let mut blocks: Vec<Block> = Vec::new();
                    std::mem::swap(&mut blocks, &mut self.blocks);
                    assert(blocks@.map_values(|b: Block| b@) == before);
                    let mut last = blocks.pop().unwrap();
                    last.append_to_body(message.as_str());
                    blocks.push(last);
                    let ghost after = before.update(
                        before.len() - 1,
                        BlockView { body: before.last().body + message@, ..before.last() },
                    );
                    assert(blocks@.map_values(|b: Block| b@) =~= after);
                    proof {
                        lemma_event_names_differ();
                        law_next_state_keeps_wf(before, response.event@, response.data@);
                    }
                    self.blocks = blocks;
                    Ok(Reaction::Redraw)
                },
                None => Err(StepError::MissingMessage),
            }
        }
    }

    /// The text that shows every step, one after the other.
    pub fn render(&self) -> (r: String)
        ensures
            exists|ts: Seq<Seq<char>>|
                #![trigger concat(ts)]
                ts.len() == self@.len() && r@ == concat(ts) && forall|i: int|
                    0 <= i < ts.len() ==> block_text_outcome(self@[i], #[trigger] ts[i]),
    {
        let mut out = String::new();
        let ghost mut ts: Seq<Seq<char>> = seq![];
        let mut i: usize = 0;
        while i < self.blocks.len()
            invariant
                i <= self.blocks.len(),
                ts.len() == i,
                out@ == concat(ts),
                forall|j: int| 0 <= j < i ==> block_text_outcome(self@[j], #[trigger] ts[j]),
            decreases self.blocks.len() - i,
        {
            let text = self.blocks[i].as_terminal_output();
            out.append(text.as_str());
            proof {
                assert(ts.push(text@).drop_last() == ts);
                ts = ts.push(text@);
            }
            i = i + 1;
        }
        out
    }
}

// ---------------------------------------------------------------------------
// Laws of the channel output

/// The three event names that the client knows are distinct.
proof fn lemma_event_names_differ()
    ensures
        message_event() != connection_established(),
        message_event() != subscription_succeeded(),
        connection_established() != subscription_succeeded(),
{
    reveal_strlit("message");
    reveal_strlit("pusher:connection_established");
    reveal_strlit("pusher_internal:subscription_succeeded");
    assert(message_event().len() != connection_established().len());
    assert(message_event().len() != subscription_succeeded().len());
    assert(connection_established().len() != subscription_succeeded().len());
}

/// Handling a response keeps the steps well formed: there are never more
/// than the example step and one running step.
pub proof fn law_next_state_keeps_wf(blocks: Seq<BlockView>, event: Seq<char>, data: PusherDataView)
    requires
        wf_blocks(blocks),
    ensures
        next_state(blocks, event, data) matches Ok((after, _)) ==> wf_blocks(after),
{
    if let Ok((after, _)) = next_state(blocks, event, data) {
        if event == message_event() && blocks.len() != 0 && !(event == connection_established()
            || event == subscription_succeeded()) {
            assert(after[0] == blocks[0]);
        }
    }
}

/// Any event but `message` leaves the steps as they are.
pub proof fn law_other_events_keep_steps(blocks: Seq<BlockView>, event: Seq<char>, data: PusherDataView)
    requires
        event != message_event(),
    ensures
        next_state(blocks, event, data) matches Ok((after, _)) && after == blocks,
{
}

/// The steps after a sequence of responses, starting from `blocks`, or the
/// first reason a response could not be shown.
pub open spec fn run(blocks: Seq<BlockView>, events: Seq<(Seq<char>, PusherDataView)>) -> Result<
    Seq<BlockView>,
    StepError,
>
    decreases events.len(),
{
    if events.len() == 0 {
        Ok(blocks)
    } else {
        match run(blocks, events.drop_last()) {
            Ok(b) => match next_state(b, events.last().0, events.last().1) {
                Ok((after, _)) => Ok(after),
                Err(e) => Err(e),
            },
            Err(e) => Err(e),
        }
    }
}

/// The texts of the `message` events of a sequence, one after the other.
pub open spec fn message_texts(events: Seq<(Seq<char>, PusherDataView)>) -> Seq<char>
    decreases events.len(),
{
    if events.len() == 0 {
        seq![]
    } else if events.last().0 == message_event() {
        message_texts(events.drop_last()) + events.last().1.message.unwrap()
    } else {
        message_texts(events.drop_last())
    }
}

/// The name carried by the first `message` event of a sequence, or `None`
/// when there is no `message` event.
pub open spec fn opening_name(events: Seq<(Seq<char>, PusherDataView)>) -> Option<
    Option<Seq<char>>,
>
    decreases events.len(),
{
    if events.len() == 0 {
        None
    } else {
        match opening_name(events.drop_last()) {
            Some(n) => Some(n),
            None => if events.last().0 == message_event() {
                Some(events.last().1.name)
            } else {
                None
            },
        }
    }
}

/// Every `message` event of the sequence carries text.
pub open spec fn messages_carry_text(events: Seq<(Seq<char>, PusherDataView)>) -> bool {
    forall|i: int|
        0 <= i < events.len() && (#[trigger] events[i]).0 == message_event() ==> events[i].1.message
            is Some
}

/// From no steps, responses with no `message` event among them show
/// nothing.
pub proof fn law_no_message_shows_nothing(events: Seq<(Seq<char>, PusherDataView)>)
    requires
        opening_name(events) is None,
    ensures
        run(seq![], events) == Ok::<Seq<BlockView>, StepError>(seq![]),
    decreases events.len(),
{
    if events.len() > 0 {
        law_no_message_shows_nothing(events.drop_last());
        law_other_events_keep_steps(seq![], events.last().0, events.last().1);
    }
}

/// From no steps, any sequence of responses in which every `message` event
/// carries text and the first one names the step shows the example step
/// and one running step of that name; its body is the text of every
/// message, in order. Other events in between change nothing, and the names
/// of later messages are not used.
pub proof fn law_messages_accumulate(events: Seq<(Seq<char>, PusherDataView)>, name: Seq<char>)
    requires
        opening_name(events) == Some(Some(name)),
        messages_carry_text(events),
    ensures
        run(seq![], events) == Ok::<Seq<BlockView>, StepError>(
            seq![first_block(), running_block(name, message_texts(events))],
        ),
    decreases events.len(),
{
    lemma_event_names_differ();
    let prefix = events.drop_last();
    let last = events.last();
    assert(events[events.len() - 1] == last);
    assert(messages_carry_text(prefix)) by {
        assert forall|i: int| 0 <= i < prefix.len() && (#[trigger] prefix[i]).0 == message_event()
            implies prefix[i].1.message is Some by {
            assert(prefix[i] == events[i]);
        }
    }
    match opening_name(prefix) {
        Some(_) => {
            law_messages_accumulate(prefix, name);
            let b = seq![first_block(), running_block(name, message_texts(prefix))];
            if last.0 == message_event() {
                assert(b.update(
                    1,
                    BlockView { body: b.last().body + last.1.message.unwrap(), ..b.last() },
                ) =~= seq![first_block(), running_block(name, message_texts(events))]);
            } else {
                law_other_events_keep_steps(b, last.0, last.1);
            }
        },
        None => {
            law_no_message_shows_nothing(prefix);
            assert(last.0 == message_event());
            assert(message_texts(prefix) == Seq::<char>::empty()) by {
                lemma_no_message_no_text(prefix);
            }
            assert(message_texts(events) =~= last.1.message.unwrap());
        },
    }
}

/// A sequence with no `message` event carries no message text.
proof fn lemma_no_message_no_text(events: Seq<(Seq<char>, PusherDataView)>)
    requires
        opening_name(events) is None,
    ensures
        message_texts(events) == Seq::<char>::empty(),
    decreases events.len(),
{
    if events.len() > 0 {
        lemma_no_message_no_text(events.drop_last());
    }
}

// ---------------------------------------------------------------------------
// Laws of each response

/// Every `message` event that is handled is drawn again: whatever the steps
/// and the data, a handled `message` asks for a redraw.
pub proof fn law_message_redraws(blocks: Seq<BlockView>, data: PusherDataView)
    ensures
        next_state(blocks, message_event(), data) matches Ok((_, reaction)) ==> reaction
            == Reaction::Redraw,
{
    lemma_event_names_differ();
}

/// A confirmation of the connection or of the subscription changes nothing
/// and asks for nothing.
pub proof fn law_confirmations_are_ignored(blocks: Seq<BlockView>, event: Seq<char>, data: PusherDataView)
    requires
        event == connection_established() || event == subscription_succeeded(),
    ensures
        next_state(blocks, event, data) == Ok::<(Seq<BlockView>, Reaction), StepError>(
            (blocks, Reaction::Ignored),
        ),
{
}

/// Any other event that is not a `message` changes nothing and is reported.
pub proof fn law_unknown_events_are_reported(blocks: Seq<BlockView>, event: Seq<char>, data: PusherDataView)
    requires
        event != connection_established(),
        event != subscription_succeeded(),
        event != message_event(),
    ensures
        next_state(blocks, event, data) == Ok::<(Seq<BlockView>, Reaction), StepError>(
            (blocks, Reaction::UnknownEvent),
        ),
{
}

/// The first `message` opens the example step and a running step named by
/// the message with the message as its body; without a name or a text it
/// is refused, the name being checked first.
pub proof fn law_first_message(data: PusherDataView)
    ensures
        data.name is None ==> next_state(seq![], message_event(), data) == Err::<
            (Seq<BlockView>, Reaction),
            StepError,
        >(StepError::MissingName),
        data.name is Some && data.message is None ==> next_state(seq![], message_event(), data)
            == Err::<(Seq<BlockView>, Reaction), StepError>(StepError::MissingMessage),
        data.name is Some && data.message is Some ==> (next_state(seq![], message_event(), data) matches Ok((after, _)) && after.len() == 2 && after[0] == first_block() && after[1].name
            == data.name.unwrap() && after[1].body == data.message.unwrap() && after[1].step_num == 2
            && after[1].num_steps == 2 && !after[1].complete),
{
    lemma_event_names_differ();
}

/// A later `message` with text adds that text to the end of the body of the
/// last step and changes nothing else; one without text is refused.
pub proof fn law_later_message_appends(blocks: Seq<BlockView>, data: PusherDataView)
    requires
        blocks.len() > 0,
    ensures
        data.message is None ==> next_state(blocks, message_event(), data) == Err::<
            (Seq<BlockView>, Reaction),
            StepError,
        >(StepError::MissingMessage),
        data.message is Some ==> (next_state(blocks, message_event(), data) matches Ok((after, _))
            && after.len() == blocks.len() && (forall|i: int|
            0 <= i < blocks.len() - 1 ==> after[i] == blocks[i]) && after.last().body
            == blocks.last().body + data.message.unwrap() && after.last().name == blocks.last().name
            && after.last().step_num == blocks.last().step_num && after.last().num_steps
            == blocks.last().num_steps && after.last().complete == blocks.last().complete),
{
    lemma_event_names_differ();
}

// ---------------------------------------------------------------------------
// Laws of decoding

/// The fields that serde_json reads from `t`, when `t` is JSON.
pub open spec fn read_fields(t: Seq<char>) -> Seq<Option<Seq<char>>> {
    json_string_fields(t, data_keys()).unwrap()
}

/// The `name` of decoded data is always the `name` string field of the
/// JSON, whatever the message is and however it decodes.
pub proof fn law_decoded_name(t: Seq<char>)
    ensures
        decoded_data(t) matches Ok(d) ==> json_string_fields(t, data_keys()) is Some && d.name
            == read_fields(t)[1],
{
}

/// Decoding fails for not being JSON exactly when serde_json cannot parse
/// the text.
pub proof fn law_invalid_json(t: Seq<char>)
    ensures
        (decoded_data(t) == Err::<PusherDataView, DataError>(DataError::InvalidJson))
            <==> json_string_fields(t, data_keys()) is None,
{
}

/// The `message` of decoded data: none when the field is no string; the
/// text that a Base64 message encodes, when it decodes as Base64 (and the
/// bytes are UTF-8, else decoding fails); and the raw string otherwise.
pub proof fn law_decoded_message(t: Seq<char>)
    requires
        json_string_fields(t, data_keys()) is Some,
    ensures
        read_fields(t)[0] is None ==> (decoded_data(t) matches Ok(d) && d.message is None),
        read_fields(t)[0] matches Some(m) ==> ({
            let decoded = base64_decoding(encode_utf8(m));
            &&& decoded is None ==> (decoded_data(t) matches Ok(d) && d.message == Some(m))
            &&& decoded matches Some(bytes) ==> (valid_utf8(bytes) ==> (decoded_data(t) matches Ok(
                d,
            ) && d.message == Some(decode_utf8(bytes))))
            &&& decoded matches Some(bytes) ==> (!valid_utf8(bytes) ==> decoded_data(t) == Err::<
                PusherDataView,
                DataError,
            >(DataError::InvalidUtf8))
        }),
{
}

/// Once the Base64 decoding of a message is known, the name handed in is
/// the name handed out, and the message is the decoded text when there is
/// one and the raw string otherwise.
pub proof fn law_data_after_base64(
    message: Seq<char>,
    decoded: Option<Seq<u8>>,
    name: Option<Seq<char>>,
)
    ensures
        data_after_base64(message, decoded, name) matches Ok(d) ==> d.name == name,
        decoded is None ==> (data_after_base64(message, decoded, name) matches Ok(d) && d.message
            == Some(message)),
        decoded matches Some(bytes) ==> (valid_utf8(bytes) ==> (data_after_base64(
            message,
            decoded,
            name,
        ) matches Ok(d) && d.message == Some(decode_utf8(bytes)))),
        decoded matches Some(bytes) ==> (!valid_utf8(bytes) ==> data_after_base64(
            message,
            decoded,
            name,
        ) is Err),
{
}

} // verus!
