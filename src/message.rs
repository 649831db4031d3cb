use vstd::prelude::*;

use crate::buffer::append_bytes;
use crate::codec::{be_bytes, encode_u32};
use crate::frontend::contains_null;
use std::num::ParseIntError;
use vstd::string::{StringExecFns, StringSliceAdditionalSpecFns};
use vstd::utf8::encode_utf8;

verus! {

/// std's `ParseIntError`, the error that `parse_u32` hands back, carried through
/// without being looked into.
#[verifier::external_type_specification]
#[verifier::external_body]
pub struct ExParseIntError(ParseIntError);

/// The protocol version 3.0, written in decimal.
pub const PROTOCOL: &'static str = "196608";

/// The character for the decimal digit `d`.
pub open spec fn digit_char(d: int) -> char {
    seq!['0', '1', '2', '3', '4', '5', '6', '7', '8', '9'][d]
}

/// The value of the decimal digit `c`.
pub open spec fn digit_value(c: char) -> int {
    c as int - '0' as int
}

/// `n` written in decimal, with no leading zeros.
pub open spec fn decimal(n: nat) -> Seq<char>
    decreases n,
{
    if n < 10 {
        seq![digit_char(n as int)]
    } else {
        decimal(n / 10).push(digit_char((n % 10) as int))
    }
}

/// The number that the decimal digits `s` spell.
pub open spec fn digits_value(s: Seq<char>) -> int
    decreases s.len(),
{
    if s.len() == 0 {
        0
    } else {
        digits_value(s.drop_last()) * 10 + digit_value(s.last())
    }
}

/// The digits of a text that may open with a `+` sign.
pub open spec fn unsigned_digits(s: Seq<char>) -> Seq<char> {
    if s.len() > 0 && s[0] == '+' {
        s.skip(1)
    } else {
        s
    }
}

/// `s` is an optional `+` followed by at least one decimal digit, spelling a
/// number that fits a `u32`.
pub open spec fn is_u32_text(s: Seq<char>) -> bool {
    let d = unsigned_digits(s);
    &&& d.len() > 0
    &&& forall|i: int| 0 <= i < d.len() ==> '0' <= #[trigger] d[i] <= '9'
    &&& digits_value(d) <= u32::MAX
}

/// Relies on `u32`'s `to_string`: the decimal digits of `v`, without leading zeros.
#[verifier::external_body]
fn u32_to_decimal(v: u32) -> (r: String)
    ensures
        r@ == decimal(v as nat),
{
    v.to_string()
}

/// Relies on `str::parse::<u32>`: an optional `+` and decimal digits are accepted
/// when their value fits, anything else is an error.
#[verifier::external_body]
fn parse_u32(s: &str) -> (r: Result<u32, ParseIntError>)
    ensures
        r is Ok <==> is_u32_text(s@),
        r is Ok ==> r->Ok_0 == digits_value(unsigned_digits(s@)),
{
    s.parse::<u32>()
}

/// A startup message held as its size, its protocol number and its parameter text.
#[derive(Debug, PartialEq)]
pub struct Message {
    pub size: u32,
    pub protocol: u32,
    pub message: String,
}

impl Message {
    /// The size and the protocol in decimal, followed by the parameter text.
    pub fn as_string(&self) -> (r: String)
        ensures
            r@ == decimal(self.size as nat) + decimal(self.protocol as nat) + self.message@,
    {
        let mut message = String::new();
        let size = u32_to_decimal(self.size);
        let protocol = u32_to_decimal(self.protocol);
        message.append(size.as_str());
        message.append(protocol.as_str());
        message.append(self.message.as_str());
        message
    }

    /// The wire form: size and protocol as big-endian `u32`s, then the UTF-8 bytes
    /// of the parameter text.
    pub fn as_bytes(&self) -> (r: Vec<u8>)
        ensures
            r@ == be_bytes(self.size) + be_bytes(self.protocol) + encode_utf8(self.message@),
    {
        let mut message_bytes: Vec<u8> = Vec::new();
        let size = encode_u32(self.size);
        let protocol = encode_u32(self.protocol);
        append_bytes(&mut message_bytes, size.as_slice());
        append_bytes(&mut message_bytes, protocol.as_slice());
        append_bytes(&mut message_bytes, self.message.as_str().as_bytes());
        message_bytes
    }
}

/// Why a startup message could not be assembled.
#[derive(Debug)]
pub enum MountError {
    /// The user name or the database name holds a 0x00 byte.
    EmbeddedNull,
    /// The protocol is not a decimal `u32`.
    Protocol(ParseIntError),
}

/// The parameters of a startup message before it is assembled.
#[derive(Debug, PartialEq)]
pub struct StartupMessage {
    pub protocol: String,
    pub username: String,
    pub database: Option<String>,
    pub message_size: Option<u32>,
}

/// The parameter text for `username` and `database`: both as key/value pairs
/// ended by 0x00, and a closing 0x00.
pub open spec fn body_text(username: Seq<char>, database: Seq<char>) -> Seq<char> {
    "user\0"@ + username + "\0database\0"@ + database + "\0\0"@
}

impl StartupMessage {
    /// The database asked for: the one set, else the user's own name.
    pub open spec fn database_name(&self) -> Seq<char> {
        match self.database {
            Some(db) => db@,
            None => self.username@,
        }
    }

    /// The user name or the database set holds a 0x00 byte.
    pub open spec fn has_null(&self) -> bool {
        encode_utf8(self.username@).contains(0) || (self.database is Some && encode_utf8(
            self.database->Some_0@,
        ).contains(0))
    }

    /// The parameter text of this message.
    pub open spec fn body(&self) -> Seq<char> {
        body_text(self.username@, self.database_name())
    }

    /// A message for `username` speaking `protocol`, with no database set and no
    /// size computed.
    pub fn new(username: &str, protocol: &str) -> (r: StartupMessage)
        ensures
            r.username@ == username@,
            r.protocol@ == protocol@,
            r.database is None,
            r.message_size is None,
    {
        StartupMessage {
            protocol: String::from_str(protocol),
            username: String::from_str(username),
            database: None,
            message_size: None,
        }
    }

    /// Names the database to connect to.
    pub fn set_database(&mut self, db: &str)
        ensures
            final(self).database is Some,
            final(self).database->Some_0@ == db@,
            final(self).username == old(self).username,
            final(self).protocol == old(self).protocol,
            final(self).message_size == old(self).message_size,
    {
        self.database = Some(String::from_str(db));
    }

    /// Assembles the message: parameter text, size counting the 8 header bytes,
    /// and the protocol parsed as a number.
    ///
    /// Fails with `EmbeddedNull`, changing nothing, when the user or database name
    /// holds a 0x00 byte; else with `Protocol` when the protocol is not a decimal
    /// `u32`.
    pub fn mount_message(&mut self) -> (r: Result<Message, MountError>)
        requires
            encode_utf8(old(self).body()).len() + 8 <= u32::MAX,
        ensures
            old(self).has_null() ==> r is Err && r->Err_0 is EmbeddedNull,
            old(self).has_null() ==> *final(self) == *old(self),
            !old(self).has_null() && !is_u32_text(old(self).protocol@) ==> r is Err
                && r->Err_0 is Protocol,
            !old(self).has_null() && is_u32_text(old(self).protocol@) ==> r is Ok,
            r is Ok ==> r->Ok_0.size == encode_utf8(old(self).body()).len() + 8,
            r is Ok ==> r->Ok_0.protocol == digits_value(unsigned_digits(old(self).protocol@)),
            r is Ok ==> r->Ok_0.message@ == old(self).body(),
            !old(self).has_null() ==> final(self).message_size == Some(
                encode_utf8(old(self).body()).len() as u32,
            ),
            final(self).username == old(self).username,
            final(self).protocol == old(self).protocol,
            final(self).database == old(self).database,
    {
        if contains_null(self.username.as_str().as_bytes()) {
            return Err(MountError::EmbeddedNull);
        }
        if let Some(db) = &self.database {
            if contains_null(db.as_str().as_bytes()) {
                return Err(MountError::EmbeddedNull);
            }
        }
        let body_message = self.define_body_messsage();
        self.set_size(&body_message);
        let size = self.message_total_size();
        let protocol = match parse_u32(self.protocol.as_str()) {
            Ok(p) => p,
            Err(e) => {
                return Err(MountError::Protocol(e));
            },
        };
        Ok(Message { size, protocol, message: body_message })
    }

    /// Whether the parameter text and the 8 header bytes fit the `u32` size field,
    /// as `mount_message` needs.
    pub fn body_fits_size_field(&self) -> (r: bool)
        ensures
            r == (encode_utf8(self.body()).len() + 8 <= u32::MAX),
    {
        let body = self.build_body();
        body.as_str().as_bytes().len() <= 0xFFFF_FFF7
    }

    /// The parameter text: the user, then the database set or else the user's
    /// name again.
    pub fn define_body_messsage(&mut self) -> (r: String)
        ensures
            r@ == old(self).body(),
            *final(self) == *old(self),
    {
        self.build_body()
    }

    fn build_body(&self) -> (r: String)
        ensures
            r@ == self.body(),
    {
        let mut body = String::from_str("user\0");
        body.append(self.username.as_str());
        body.append("\0database\0");
        match &self.database {
            Some(db) => body.append(db.as_str()),
            None => body.append(self.username.as_str()),
        }
        body.append("\0\0");
        body
    }

    /// Records the byte length of `message` as the parameter text's size.
    pub fn set_size(&mut self, message: &String)
        requires
            encode_utf8(message@).len() <= u32::MAX,
        ensures
            final(self).message_size == Some(encode_utf8(message@).len() as u32),
            final(self).username == old(self).username,
            final(self).protocol == old(self).protocol,
            final(self).database == old(self).database,
    {
        self.message_size = Some(message.as_str().len() as u32);
    }

    /// The recorded size plus the 8 header bytes.
    pub fn message_total_size(&self) -> (r: u32)
        requires
            self.message_size is Some,
            self.message_size->Some_0 + 8 <= u32::MAX,
        ensures
            r == self.message_size->Some_0 + 8,
    {
        match self.message_size {
            Some(size) => size + 8,
            None => 8,
        }
    }
}

} // verus!
