//! The primitive codec: fixed integers, strings, byte blobs and repeated
//! fields, read from a slice that is advanced and written to a vector that
//! grows.
//!
//! A failed read leaves the slice where it was, and a failed write leaves
//! the vector as it was.

use crate::error::Error;
use crate::error::Failure;
use crate::error::SbeError;
use crate::sbe::zb_protocol::lemma_parse_var_data;
use crate::sbe::zb_protocol::parse_var_data;
use crate::sbe::zb_protocol::var_data;
use crate::sbe::zb_protocol::MAX_VAR_DATA_LENGTH;
use crate::wire::get_i16;
use crate::wire::get_i32;
use crate::wire::get_i64;
use crate::wire::get_i8;
use crate::wire::get_u16;
use crate::wire::get_u32;
use crate::wire::get_u64;
use crate::wire::i16_bytes;
use crate::wire::i32_bytes;
use crate::wire::i64_bytes;
use crate::wire::i8_bytes;
use crate::wire::le_bytes;
use crate::wire::le_bytes_signed;
use crate::wire::le_int;
use crate::wire::le_nat;
use crate::wire::lemma_le_bytes_len;
use crate::wire::lemma_le_bytes_signed_len;
use crate::wire::lemma_le_int_of_le_bytes_signed;
use crate::wire::lemma_le_nat_bound;
use crate::wire::lemma_le_nat_of_le_bytes;
use crate::wire::lemma_pow256_values;
use crate::wire::u16_bytes;
use crate::wire::u32_bytes;
use crate::wire::u64_bytes;
use vstd::prelude::*;
use vstd::slice::slice_subrange;
use vstd::slice::slice_to_vec;
use vstd::std_specs::convert::FromSpecImpl;
use vstd::utf8::decode_utf8;
use vstd::utf8::encode_utf8;
use vstd::utf8::encode_utf8_decode_utf8;
use vstd::utf8::encode_utf8_valid_utf8;
use vstd::utf8::valid_utf8;

verus! {

/// The most items that a repeated field can hold: its count is one byte.
pub const MAX_GROUP_SIZE: usize = 255;

/// Values that can be read from bytes.
pub trait FromBytes: Sized {
    /// What a value says, as mathematics.
    type Model;

    /// What this value says.
    spec fn model(&self) -> Self::Model;

    /// What the start of `data` says, and how many bytes say it; or the
    /// reason why `data` does not start with a value.
    spec fn parse(data: Seq<u8>) -> Result<(Self::Model, nat), Error>;

    /// Reads a value from the front of `reader` and advances `reader` behind
    /// it. On failure `reader` stays where it was.
    fn from_bytes(reader: &mut &[u8]) -> (r: Result<Self, Error>)
        ensures
            match r {
                Ok(value) => {
                    &&& Self::parse(old(reader)@) is Ok
                    &&& Self::parse(old(reader)@)->Ok_0.0 == value.model()
                    &&& Self::parse(old(reader)@)->Ok_0.1 <= old(reader)@.len()
                    &&& final(reader)@ == old(reader)@.skip(
                        Self::parse(old(reader)@)->Ok_0.1 as int,
                    )
                },
                Err(error) => {
                    &&& Self::parse(old(reader)@) == Err::<(Self::Model, nat), Error>(error)
                    &&& final(reader)@ == old(reader)@
                },
            },
    ;
}

/// Values that can be written as bytes.
pub trait ToBytes {
    /// The bytes of this value on the wire.
    spec fn bytes(&self) -> Seq<u8>;

    /// Whether every slice of the value is short enough for its length
    /// prefix, so that the value can be written at all.
    spec fn fits(&self) -> bool;

    /// Appends the value to `writer`. Fails with
    /// `SliceIsLongerThanAllowedBySchema`, and leaves `writer` as it was,
    /// exactly when the value does not fit.
    fn to_bytes(&self, writer: &mut Vec<u8>) -> (r: Result<(), Error>)
        ensures
            match r {
                Ok(()) => self.fits() && final(writer)@ == old(writer)@ + self.bytes(),
                Err(error) => {
                    &&& !self.fits()
                    &&& error == Error::slice_too_long()
                    &&& final(writer)@ == old(writer)@
                },
            },
    ;
}

/// Values that read back as themselves.
pub trait RoundTrip: FromBytes + ToBytes {
    /// Whatever follows the bytes of a value that fits, reading them gives
    /// the value back and stops right behind them.
    proof fn lemma_round_trip(&self, rest: Seq<u8>)
        requires
            self.fits(),
        ensures
            Self::parse(self.bytes() + rest) == Ok::<(Self::Model, nat), Error>(
                (self.model(), self.bytes().len()),
            ),
    ;
}

/// Types with a fixed part of known size: for an integer its size, for a
/// message the size of its block.
pub trait HasBlockLength {
    spec fn spec_block_length() -> u16;

    fn block_length() -> (n: u16)
        ensures
            n == Self::spec_block_length(),
    ;
}

/// Types all of whose values take exactly the block length on the wire.
pub trait FixedLength: ToBytes + HasBlockLength {
    proof fn lemma_fixed_length(&self)
        ensures
            self.fits(),
            self.bytes().len() == Self::spec_block_length(),
    ;
}

/// The identity of a message template.
pub trait Message {
    spec fn spec_template_id() -> u16;

    spec fn spec_schema_id() -> u16;

    spec fn spec_version() -> u16;

    fn template_id() -> (id: u16)
        ensures
            id == Self::spec_template_id(),
    ;

    fn schema_id() -> (id: u16)
        ensures
            id == Self::spec_schema_id(),
    ;

    fn version() -> (version: u16)
        ensures
            version == Self::spec_version(),
    ;
}

/// Messages that carry a map payload.
pub trait HasData {
    spec fn spec_data(&self) -> Data;

    fn data(&self) -> (data: &Data)
        ensures
            *data == self.spec_data(),
    ;
}

/// Business objects that can be read from a map payload.
pub trait FromData: Sized + View {
    /// What the payload `data` says, or why it says nothing.
    spec fn parse_payload(data: Seq<u8>) -> Result<Self::V, Failure>;

    /// Reads an object from a payload. A missing field takes its default,
    /// and an unknown field is passed over.
    fn from_payload(data: &[u8]) -> (r: Result<Self, Error>)
        ensures
            match r {
                Ok(value) => Self::parse_payload(data@) == Ok::<Self::V, Failure>(value@),
                Err(error) => Self::parse_payload(data@) matches Err(failure)
                    && failure.reported_by(error),
            },
    ;

    /// Reads an object from the payload that a message carries.
    fn from_data<H: HasData>(has_data: &H) -> (r: Result<Self, Error>)
        ensures
            match r {
                Ok(value) => Self::parse_payload(has_data.spec_data()@) == Ok::<
                    Self::V,
                    Failure,
                >(value@),
                Err(error) => Self::parse_payload(has_data.spec_data()@) matches Err(failure)
                    && failure.reported_by(error),
            },
    {
        Self::from_payload(has_data.data().as_slice())
    }
}

/// Business objects that can be written as a map payload.
pub trait ToData {
    /// The payload of this object.
    spec fn payload_bytes(&self) -> Seq<u8>;

    /// Whether the object can be written: no collection in it has more
    /// items than a `u32` counts.
    spec fn encodable(&self) -> bool;

    /// Appends the payload of this object to `out`. Fails with
    /// `EncodeError` exactly when the object is not encodable.
    fn to_payload(&self, out: &mut Vec<u8>) -> (r: Result<(), Error>)
        ensures
            match r {
                Ok(()) => self.encodable() && final(out)@ == old(out)@ + self.payload_bytes(),
                Err(error) => !self.encodable() && error is EncodeError,
            },
    ;

    /// The payload of this object, for a message to carry.
    fn to_data(&self) -> (r: Result<Data, Error>)
        ensures
            match r {
                Ok(data) => self.encodable() && data@ == self.payload_bytes(),
                Err(error) => !self.encodable() && error is EncodeError,
            },
    {
        let mut out: Vec<u8> = Vec::new();
        match self.to_payload(&mut out) {
            Ok(()) => {
                proof {
                    assert(out@ =~= self.payload_bytes());
                }
                Ok(Data(out))
            },
            Err(error) => Err(error),
        }
    }
}

/// Values that say how many bytes they take on the wire.
pub trait HasMessageLength: ToBytes {
    /// The number of bytes that the value takes on the wire, where the
    /// value fits.
    fn message_length(&self) -> (n: u32)
        ensures
            self.fits() ==> n == self.bytes().len(),
    ;
}

/// A blob of bytes; on the wire, a `u16` length and the bytes.
#[derive(Debug, PartialEq, Eq, Clone)]
pub struct Data(pub Vec<u8>);

impl View for Data {
    type V = Seq<u8>;

    open spec fn view(&self) -> Seq<u8> {
        self.0@
    }
}

impl Default for Data {
    fn default() -> (data: Data)
        ensures
            data@ == Seq::<u8>::empty(),
    {
        Data(Vec::new())
    }
}

impl Data {
    pub fn len(&self) -> (n: usize)
        ensures
            n == self@.len(),
    {
        self.0.len()
    }

    pub fn is_empty(&self) -> (empty: bool)
        ensures
            empty == (self@.len() == 0),
    {
        self.0.len() == 0
    }

    pub fn as_slice(&self) -> (bytes: &[u8])
        ensures
            bytes@ == self@,
    {
        self.0.as_slice()
    }

    pub fn to_vec(&self) -> (bytes: Vec<u8>)
        ensures
            bytes@ == self@,
    {
        slice_to_vec(self.0.as_slice())
    }
}

impl From<Data> for Vec<u8> {
    fn from(data: Data) -> (bytes: Vec<u8>) {
        data.0
    }
}

impl FromSpecImpl<Data> for Vec<u8> {
    open spec fn obeys_from_spec() -> bool {
        true
    }

    open spec fn from_spec(data: Data) -> Vec<u8> {
        data.0
    }
}

impl From<Vec<u8>> for Data {
    fn from(vec: Vec<u8>) -> (data: Data) {
        Data(vec)
    }
}

impl FromSpecImpl<Vec<u8>> for Data {
    open spec fn obeys_from_spec() -> bool {
        true
    }

    open spec fn from_spec(vec: Vec<u8>) -> Data {
        Data(vec)
    }
}

impl FromBytes for Data {
    type Model = Seq<u8>;

    open spec fn model(&self) -> Seq<u8> {
        self@
    }

    open spec fn parse(data: Seq<u8>) -> Result<(Seq<u8>, nat), Error> {
        match parse_var_data(data) {
            Some(bytes) => Ok((bytes, 2 + bytes.len())),
            None => Err(Error::not_enough_bytes()),
        }
    }

    fn from_bytes(reader: &mut &[u8]) -> (r: Result<Data, Error>) {
        match read_var_data(reader) {
            Ok(bytes) => Ok(Data(slice_to_vec(bytes))),
            Err(error) => Err(error),
        }
    }
}

impl ToBytes for Data {
    open spec fn bytes(&self) -> Seq<u8> {
        var_data(self@)
    }

    open spec fn fits(&self) -> bool {
        self@.len() <= MAX_VAR_DATA_LENGTH
    }

    fn to_bytes(&self, writer: &mut Vec<u8>) -> (r: Result<(), Error>) {
        write_var_data(writer, self.0.as_slice())
    }
}

impl RoundTrip for Data {
    proof fn lemma_round_trip(&self, rest: Seq<u8>) {
        lemma_parse_var_data(self@, rest);
    }
}

impl HasData for Data {
    open spec fn spec_data(&self) -> Data {
        *self
    }

    fn data(&self) -> (data: &Data) {
        self
    }
}

impl HasMessageLength for Data {
    fn message_length(&self) -> (n: u32) {
        proof {
            lemma_le_bytes_len(self@.len(), 2);
        }
        if self.0.len() > MAX_VAR_DATA_LENGTH {
            u32::MAX
        } else {
            (2 + self.0.len()) as u32
        }
    }
}

/// Reads a `u16` length and that many bytes from the front of `reader`.
pub fn read_var_data<'a>(reader: &mut &'a [u8]) -> (r: Result<&'a [u8], Error>)
    ensures
        match r {
            Ok(bytes) => {
                &&& parse_var_data(old(reader)@) == Some(bytes@)
                &&& 2 + bytes@.len() <= old(reader)@.len()
                &&& final(reader)@ == old(reader)@.skip(2 + bytes@.len() as int)
            },
            Err(error) => {
                &&& parse_var_data(old(reader)@) is None
                &&& error == Error::not_enough_bytes()
                &&& final(reader)@ == old(reader)@
            },
        },
{
    let data: &'a [u8] = *reader;
    if data.len() < 2 {
        return Err(Error::SbeError(SbeError::NotEnoughBytes));
    }
    let length = get_u16(data, 0) as usize;
    if data.len() - 2 < length {
        return Err(Error::SbeError(SbeError::NotEnoughBytes));
    }
    let bytes = slice_subrange(data, 2, 2 + length);
    *reader = slice_subrange(data, 2 + length, data.len());
    Ok(bytes)
}

/// Appends the length of `bytes` as a `u16`, then `bytes`.
pub fn write_var_data(writer: &mut Vec<u8>, bytes: &[u8]) -> (r: Result<(), Error>)
    ensures
        match r {
            Ok(()) => {
                &&& bytes@.len() <= MAX_VAR_DATA_LENGTH
                &&& final(writer)@ == old(writer)@ + var_data(bytes@)
            },
            Err(error) => {
                &&& bytes@.len() > MAX_VAR_DATA_LENGTH
                &&& error == Error::slice_too_long()
                &&& final(writer)@ == old(writer)@
            },
        },
{
    if bytes.len() > MAX_VAR_DATA_LENGTH {
        return Err(Error::SbeError(SbeError::SliceIsLongerThanAllowedBySchema));
    }
    let mut length = u16_bytes(bytes.len() as u16);
    writer.append(&mut length);
    crate::wire::append(writer, bytes);
    proof {
        assert(writer@ =~= old(writer)@ + var_data(bytes@));
    }
    Ok(())
}

/// `String::from_utf8` of std: the string that `bytes` spell, if they are
/// valid UTF-8, and nothing if they are not.
#[verifier::external_body]
pub(crate) fn string_from_utf8(bytes: Vec<u8>) -> (r: Option<String>)
    ensures
        r is Some <==> valid_utf8(bytes@),
        r matches Some(text) ==> text@ == decode_utf8(bytes@),
{
    match String::from_utf8(bytes) {
        Ok(text) => Some(text),
        Err(_) => None,
    }
}

impl FromBytes for String {
    type Model = Seq<char>;

    open spec fn model(&self) -> Seq<char> {
        self@
    }

    open spec fn parse(data: Seq<u8>) -> Result<(Seq<char>, nat), Error> {
        match parse_var_data(data) {
            Some(bytes) => if valid_utf8(bytes) {
                Ok((decode_utf8(bytes), 2 + bytes.len()))
            } else {
                Err(Error::InvalidUtf8)
            },
            None => Err(Error::not_enough_bytes()),
        }
    }

    fn from_bytes(reader: &mut &[u8]) -> (r: Result<String, Error>) {
        let mut ahead: &[u8] = *reader;
        let bytes = match read_var_data(&mut ahead) {
            Ok(bytes) => bytes,
            Err(error) => {
                return Err(error);
            },
        };
        match string_from_utf8(slice_to_vec(bytes)) {
            Some(text) => {
                *reader = ahead;
                Ok(text)
            },
            None => Err(Error::InvalidUtf8),
        }
    }
}

impl ToBytes for String {
    open spec fn bytes(&self) -> Seq<u8> {
        var_data(encode_utf8(self@))
    }

    open spec fn fits(&self) -> bool {
        encode_utf8(self@).len() <= MAX_VAR_DATA_LENGTH
    }

    fn to_bytes(&self, writer: &mut Vec<u8>) -> (r: Result<(), Error>) {
        write_var_data(writer, self.as_str().as_bytes())
    }
}

impl RoundTrip for String {
    proof fn lemma_round_trip(&self, rest: Seq<u8>) {
        lemma_parse_var_data(encode_utf8(self@), rest);
        encode_utf8_valid_utf8(self@);
        encode_utf8_decode_utf8(self@);
    }
}

impl HasMessageLength for String {
    fn message_length(&self) -> (n: u32) {
        proof {
            lemma_le_bytes_len(encode_utf8(self@).len(), 2);
        }
        let length = self.as_str().as_bytes().len();
        if length > MAX_VAR_DATA_LENGTH {
            u32::MAX
        } else {
            (2 + length) as u32
        }
    }
}

impl FromBytes for u8 {
    type Model = u8;

    open spec fn model(&self) -> u8 {
        *self
    }

    open spec fn parse(data: Seq<u8>) -> Result<(u8, nat), Error> {
        if data.len() < 1 {
            Err(Error::not_enough_bytes())
        } else {
            Ok((data[0], 1))
        }
    }

    fn from_bytes(reader: &mut &[u8]) -> (r: Result<u8, Error>) {
        if reader.len() < 1 {
            return Err(Error::SbeError(SbeError::NotEnoughBytes));
        }
        let value = reader[0];
        *reader = slice_subrange(*reader, 1, reader.len());
        Ok(value)
    }
}

impl ToBytes for u8 {
    open spec fn bytes(&self) -> Seq<u8> {
        seq![*self]
    }

    open spec fn fits(&self) -> bool {
        true
    }

    fn to_bytes(&self, writer: &mut Vec<u8>) -> (r: Result<(), Error>) {
        writer.push(*self);
        proof {
            assert(writer@ =~= old(writer)@ + self.bytes());
        }
        Ok(())
    }
}

impl RoundTrip for u8 {
    proof fn lemma_round_trip(&self, rest: Seq<u8>) {
        let all = self.bytes() + rest;
        lemma_pow256_values();
        assert(self.bytes().len() == 1);
        assert(all.take(1) =~= self.bytes());
        assert(all[0] == *self);
    }
}

impl HasBlockLength for u8 {
    open spec fn spec_block_length() -> u16 {
        1
    }

    fn block_length() -> (n: u16) {
        1
    }
}

impl HasMessageLength for u8 {
    fn message_length(&self) -> (n: u32) {
        proof {
            assert(self.bytes().len() == 1);
        }
        1
    }
}

impl FixedLength for u8 {
    proof fn lemma_fixed_length(&self) {
        assert(self.bytes().len() == 1);
    }
}

impl FromBytes for i8 {
    type Model = i8;

    open spec fn model(&self) -> i8 {
        *self
    }

    open spec fn parse(data: Seq<u8>) -> Result<(i8, nat), Error> {
        if data.len() < 1 {
            Err(Error::not_enough_bytes())
        } else {
            Ok((le_int(data.take(1)) as i8, 1))
        }
    }

    fn from_bytes(reader: &mut &[u8]) -> (r: Result<i8, Error>) {
        if reader.len() < 1 {
            return Err(Error::SbeError(SbeError::NotEnoughBytes));
        }
        proof {
            assert(reader@.subrange(0, 1) =~= reader@.take(1));
            lemma_le_nat_bound(reader@.take(1));
            lemma_pow256_values();
        }
        let value = get_i8(*reader, 0);
        *reader = slice_subrange(*reader, 1, reader.len());
        Ok(value)
    }
}

impl ToBytes for i8 {
    open spec fn bytes(&self) -> Seq<u8> {
        le_bytes_signed(*self as int, 1)
    }

    open spec fn fits(&self) -> bool {
        true
    }

    fn to_bytes(&self, writer: &mut Vec<u8>) -> (r: Result<(), Error>) {
        let mut bytes = i8_bytes(*self);
        writer.append(&mut bytes);
        Ok(())
    }
}

impl RoundTrip for i8 {
    proof fn lemma_round_trip(&self, rest: Seq<u8>) {
        let all = self.bytes() + rest;
        lemma_pow256_values();
        lemma_le_bytes_signed_len(*self as int, 1);
        assert(all.take(1) =~= self.bytes());
        lemma_le_int_of_le_bytes_signed(*self as int, 1);
    }
}

impl HasBlockLength for i8 {
    open spec fn spec_block_length() -> u16 {
        1
    }

    fn block_length() -> (n: u16) {
        1
    }
}

impl HasMessageLength for i8 {
    fn message_length(&self) -> (n: u32) {
        proof {
            lemma_le_bytes_signed_len(*self as int, 1);
        }
        1
    }
}

impl FixedLength for i8 {
    proof fn lemma_fixed_length(&self) {
        lemma_le_bytes_signed_len(*self as int, 1);
    }
}

impl FromBytes for u16 {
    type Model = u16;

    open spec fn model(&self) -> u16 {
        *self
    }

    open spec fn parse(data: Seq<u8>) -> Result<(u16, nat), Error> {
        if data.len() < 2 {
            Err(Error::not_enough_bytes())
        } else {
            Ok((le_nat(data.take(2)) as u16, 2))
        }
    }

    fn from_bytes(reader: &mut &[u8]) -> (r: Result<u16, Error>) {
        if reader.len() < 2 {
            return Err(Error::SbeError(SbeError::NotEnoughBytes));
        }
        proof {
            assert(reader@.subrange(0, 2) =~= reader@.take(2));
            lemma_le_nat_bound(reader@.take(2));
            lemma_pow256_values();
        }
        let value = get_u16(*reader, 0);
        *reader = slice_subrange(*reader, 2, reader.len());
        Ok(value)
    }
}

impl ToBytes for u16 {
    open spec fn bytes(&self) -> Seq<u8> {
        le_bytes(*self as nat, 2)
    }

    open spec fn fits(&self) -> bool {
        true
    }

    fn to_bytes(&self, writer: &mut Vec<u8>) -> (r: Result<(), Error>) {
        let mut bytes = u16_bytes(*self);
        writer.append(&mut bytes);
        Ok(())
    }
}

impl RoundTrip for u16 {
    proof fn lemma_round_trip(&self, rest: Seq<u8>) {
        let all = self.bytes() + rest;
        lemma_pow256_values();
        lemma_le_bytes_len(*self as nat, 2);
        assert(all.take(2) =~= self.bytes());
        lemma_le_nat_of_le_bytes(*self as nat, 2);
    }
}

impl HasBlockLength for u16 {
    open spec fn spec_block_length() -> u16 {
        2
    }

    fn block_length() -> (n: u16) {
        2
    }
}

impl HasMessageLength for u16 {
    fn message_length(&self) -> (n: u32) {
        proof {
            lemma_le_bytes_len(*self as nat, 2);
        }
        2
    }
}

impl FixedLength for u16 {
    proof fn lemma_fixed_length(&self) {
        lemma_le_bytes_len(*self as nat, 2);
    }
}

impl FromBytes for i16 {
    type Model = i16;

    open spec fn model(&self) -> i16 {
        *self
    }

    open spec fn parse(data: Seq<u8>) -> Result<(i16, nat), Error> {
        if data.len() < 2 {
            Err(Error::not_enough_bytes())
        } else {
            Ok((le_int(data.take(2)) as i16, 2))
        }
    }

    fn from_bytes(reader: &mut &[u8]) -> (r: Result<i16, Error>) {
        if reader.len() < 2 {
            return Err(Error::SbeError(SbeError::NotEnoughBytes));
        }
        proof {
            assert(reader@.subrange(0, 2) =~= reader@.take(2));
            lemma_le_nat_bound(reader@.take(2));
            lemma_pow256_values();
        }
        let value = get_i16(*reader, 0);
        *reader = slice_subrange(*reader, 2, reader.len());
        Ok(value)
    }
}

impl ToBytes for i16 {
    open spec fn bytes(&self) -> Seq<u8> {
        le_bytes_signed(*self as int, 2)
    }

    open spec fn fits(&self) -> bool {
        true
    }

    fn to_bytes(&self, writer: &mut Vec<u8>) -> (r: Result<(), Error>) {
        let mut bytes = i16_bytes(*self);
        writer.append(&mut bytes);
        Ok(())
    }
}

impl RoundTrip for i16 {
    proof fn lemma_round_trip(&self, rest: Seq<u8>) {
        let all = self.bytes() + rest;
        lemma_pow256_values();
        lemma_le_bytes_signed_len(*self as int, 2);
        assert(all.take(2) =~= self.bytes());
        lemma_le_int_of_le_bytes_signed(*self as int, 2);
    }
}

impl HasBlockLength for i16 {
    open spec fn spec_block_length() -> u16 {
        2
    }

    fn block_length() -> (n: u16) {
        2
    }
}

impl HasMessageLength for i16 {
    fn message_length(&self) -> (n: u32) {
        proof {
            lemma_le_bytes_signed_len(*self as int, 2);
        }
        2
    }
}

impl FixedLength for i16 {
    proof fn lemma_fixed_length(&self) {
        lemma_le_bytes_signed_len(*self as int, 2);
    }
}

impl FromBytes for u32 {
    type Model = u32;

    open spec fn model(&self) -> u32 {
        *self
    }

    open spec fn parse(data: Seq<u8>) -> Result<(u32, nat), Error> {
        if data.len() < 4 {
            Err(Error::not_enough_bytes())
        } else {
            Ok((le_nat(data.take(4)) as u32, 4))
        }
    }

    fn from_bytes(reader: &mut &[u8]) -> (r: Result<u32, Error>) {
        if reader.len() < 4 {
            return Err(Error::SbeError(SbeError::NotEnoughBytes));
        }
        proof {
            assert(reader@.subrange(0, 4) =~= reader@.take(4));
            lemma_le_nat_bound(reader@.take(4));
            lemma_pow256_values();
        }
        let value = get_u32(*reader, 0);
        *reader = slice_subrange(*reader, 4, reader.len());
        Ok(value)
    }
}

impl ToBytes for u32 {
    open spec fn bytes(&self) -> Seq<u8> {
        le_bytes(*self as nat, 4)
    }

    open spec fn fits(&self) -> bool {
        true
    }

    fn to_bytes(&self, writer: &mut Vec<u8>) -> (r: Result<(), Error>) {
        let mut bytes = u32_bytes(*self);
        writer.append(&mut bytes);
        Ok(())
    }
}

impl RoundTrip for u32 {
    proof fn lemma_round_trip(&self, rest: Seq<u8>) {
        let all = self.bytes() + rest;
        lemma_pow256_values();
        lemma_le_bytes_len(*self as nat, 4);
        assert(all.take(4) =~= self.bytes());
        lemma_le_nat_of_le_bytes(*self as nat, 4);
    }
}

impl HasBlockLength for u32 {
    open spec fn spec_block_length() -> u16 {
        4
    }

    fn block_length() -> (n: u16) {
        4
    }
}

impl HasMessageLength for u32 {
    fn message_length(&self) -> (n: u32) {
        proof {
            lemma_le_bytes_len(*self as nat, 4);
        }
        4
    }
}

impl FixedLength for u32 {
    proof fn lemma_fixed_length(&self) {
        lemma_le_bytes_len(*self as nat, 4);
    }
}

impl FromBytes for i32 {
    type Model = i32;

    open spec fn model(&self) -> i32 {
        *self
    }

    open spec fn parse(data: Seq<u8>) -> Result<(i32, nat), Error> {
        if data.len() < 4 {
            Err(Error::not_enough_bytes())
        } else {
            Ok((le_int(data.take(4)) as i32, 4))
        }
    }

    fn from_bytes(reader: &mut &[u8]) -> (r: Result<i32, Error>) {
        if reader.len() < 4 {
            return Err(Error::SbeError(SbeError::NotEnoughBytes));
        }
        proof {
            assert(reader@.subrange(0, 4) =~= reader@.take(4));
            lemma_le_nat_bound(reader@.take(4));
            lemma_pow256_values();
        }
        let value = get_i32(*reader, 0);
        *reader = slice_subrange(*reader, 4, reader.len());
        Ok(value)
    }
}

impl ToBytes for i32 {
    open spec fn bytes(&self) -> Seq<u8> {
        le_bytes_signed(*self as int, 4)
    }

    open spec fn fits(&self) -> bool {
        true
    }

    fn to_bytes(&self, writer: &mut Vec<u8>) -> (r: Result<(), Error>) {
        let mut bytes = i32_bytes(*self);
        writer.append(&mut bytes);
        Ok(())
    }
}

impl RoundTrip for i32 {
    proof fn lemma_round_trip(&self, rest: Seq<u8>) {
        let all = self.bytes() + rest;
        lemma_pow256_values();
        lemma_le_bytes_signed_len(*self as int, 4);
        assert(all.take(4) =~= self.bytes());
        lemma_le_int_of_le_bytes_signed(*self as int, 4);
    }
}

impl HasBlockLength for i32 {
    open spec fn spec_block_length() -> u16 {
        4
    }

    fn block_length() -> (n: u16) {
        4
    }
}

impl HasMessageLength for i32 {
    fn message_length(&self) -> (n: u32) {
        proof {
            lemma_le_bytes_signed_len(*self as int, 4);
        }
        4
    }
}

impl FixedLength for i32 {
    proof fn lemma_fixed_length(&self) {
        lemma_le_bytes_signed_len(*self as int, 4);
    }
}

impl FromBytes for u64 {
    type Model = u64;

    open spec fn model(&self) -> u64 {
        *self
    }

    open spec fn parse(data: Seq<u8>) -> Result<(u64, nat), Error> {
        if data.len() < 8 {
            Err(Error::not_enough_bytes())
        } else {
            Ok((le_nat(data.take(8)) as u64, 8))
        }
    }

    fn from_bytes(reader: &mut &[u8]) -> (r: Result<u64, Error>) {
        if reader.len() < 8 {
            return Err(Error::SbeError(SbeError::NotEnoughBytes));
        }
        proof {
            assert(reader@.subrange(0, 8) =~= reader@.take(8));
            lemma_le_nat_bound(reader@.take(8));
            lemma_pow256_values();
        }
        let value = get_u64(*reader, 0);
        *reader = slice_subrange(*reader, 8, reader.len());
        Ok(value)
    }
}

impl ToBytes for u64 {
    open spec fn bytes(&self) -> Seq<u8> {
        le_bytes(*self as nat, 8)
    }

    open spec fn fits(&self) -> bool {
        true
    }

    fn to_bytes(&self, writer: &mut Vec<u8>) -> (r: Result<(), Error>) {
        let mut bytes = u64_bytes(*self);
        writer.append(&mut bytes);
        Ok(())
    }
}

impl RoundTrip for u64 {
    proof fn lemma_round_trip(&self, rest: Seq<u8>) {
        let all = self.bytes() + rest;
        lemma_pow256_values();
        lemma_le_bytes_len(*self as nat, 8);
        assert(all.take(8) =~= self.bytes());
        lemma_le_nat_of_le_bytes(*self as nat, 8);
    }
}

impl HasBlockLength for u64 {
    open spec fn spec_block_length() -> u16 {
        8
    }

    fn block_length() -> (n: u16) {
        8
    }
}

impl HasMessageLength for u64 {
    fn message_length(&self) -> (n: u32) {
        proof {
            lemma_le_bytes_len(*self as nat, 8);
        }
        8
    }
}

impl FixedLength for u64 {
    proof fn lemma_fixed_length(&self) {
        lemma_le_bytes_len(*self as nat, 8);
    }
}

impl FromBytes for i64 {
    type Model = i64;

    open spec fn model(&self) -> i64 {
        *self
    }

    open spec fn parse(data: Seq<u8>) -> Result<(i64, nat), Error> {
        if data.len() < 8 {
            Err(Error::not_enough_bytes())
        } else {
            Ok((le_int(data.take(8)) as i64, 8))
        }
    }

    fn from_bytes(reader: &mut &[u8]) -> (r: Result<i64, Error>) {
        if reader.len() < 8 {
            return Err(Error::SbeError(SbeError::NotEnoughBytes));
        }
        proof {
            assert(reader@.subrange(0, 8) =~= reader@.take(8));
            lemma_le_nat_bound(reader@.take(8));
            lemma_pow256_values();
        }
        let value = get_i64(*reader, 0);
        *reader = slice_subrange(*reader, 8, reader.len());
        Ok(value)
    }
}

impl ToBytes for i64 {
    open spec fn bytes(&self) -> Seq<u8> {
        le_bytes_signed(*self as int, 8)
    }

    open spec fn fits(&self) -> bool {
        true
    }

    fn to_bytes(&self, writer: &mut Vec<u8>) -> (r: Result<(), Error>) {
        let mut bytes = i64_bytes(*self);
        writer.append(&mut bytes);
        Ok(())
    }
}

impl RoundTrip for i64 {
    proof fn lemma_round_trip(&self, rest: Seq<u8>) {
        let all = self.bytes() + rest;
        lemma_pow256_values();
        lemma_le_bytes_signed_len(*self as int, 8);
        assert(all.take(8) =~= self.bytes());
        lemma_le_int_of_le_bytes_signed(*self as int, 8);
    }
}

impl HasBlockLength for i64 {
    open spec fn spec_block_length() -> u16 {
        8
    }

    fn block_length() -> (n: u16) {
        8
    }
}

impl HasMessageLength for i64 {
    fn message_length(&self) -> (n: u32) {
        proof {
            lemma_le_bytes_signed_len(*self as int, 8);
        }
        8
    }
}

impl FixedLength for i64 {
    proof fn lemma_fixed_length(&self) {
        lemma_le_bytes_signed_len(*self as int, 8);
    }
}

/// What the items of a sequence say, one for one.
pub open spec fn models<T: FromBytes>(items: Seq<T>) -> Seq<T::Model> {
    Seq::new(items.len(), |i: int| items[i].model())
}

/// The bytes of the items of a sequence, one after the other.
pub open spec fn items_bytes<T: ToBytes>(items: Seq<T>) -> Seq<u8>
    decreases items.len(),
{
    if items.len() == 0 {
        Seq::empty()
    } else {
        items[0].bytes() + items_bytes(items.drop_first())
    }
}

/// What `count` blocks of `block_length` bytes each say, if each is read as
/// one item. Of a block that is longer than an item the rest is skipped.
pub open spec fn parse_items<T: FromBytes>(data: Seq<u8>, block_length: nat, count: nat) -> Result<
    Seq<T::Model>,
    Error,
>
    decreases count,
{
    if count == 0 {
        Ok(Seq::empty())
    } else if data.len() < block_length {
        Err(Error::not_enough_bytes())
    } else {
        match T::parse(data.take(block_length as int)) {
            Err(error) => Err(error),
            Ok((first, _)) => match parse_items::<T>(
                data.skip(block_length as int),
                block_length,
                (count - 1) as nat,
            ) {
                Err(error) => Err(error),
                Ok(others) => Ok(seq![first] + others),
            },
        }
    }
}

/// What a repeated field says: the length of a block as a `u16`, the number
/// of blocks as a `u8`, then the blocks.
pub open spec fn parse_group<T: FromBytes>(data: Seq<u8>) -> Result<(Seq<T::Model>, nat), Error> {
    if data.len() < 3 {
        Err(Error::not_enough_bytes())
    } else {
        match parse_items::<T>(data.skip(3), le_nat(data.subrange(0, 2)), data[2] as nat) {
            Err(error) => Err(error),
            Ok(items) => Ok((items, 3 + le_nat(data.subrange(0, 2)) * (data[2] as nat))),
        }
    }
}

/// `items` in front of what `parsed` says, where it says anything.
pub open spec fn in_front<M>(items: Seq<M>, parsed: Result<Seq<M>, Error>)
    -> Result<Seq<M>, Error> {
    match parsed {
        Ok(others) => Ok(items + others),
        Err(error) => Err(error),
    }
}

impl<T: FromBytes> FromBytes for Vec<T> {
    type Model = Seq<T::Model>;

    open spec fn model(&self) -> Seq<T::Model> {
        models(self@)
    }

    open spec fn parse(data: Seq<u8>) -> Result<(Seq<T::Model>, nat), Error> {
        parse_group::<T>(data)
    }

    fn from_bytes(reader: &mut &[u8]) -> (r: Result<Vec<T>, Error>) {
        let data: &[u8] = *reader;
        if data.len() < 3 {
            return Err(Error::SbeError(SbeError::NotEnoughBytes));
        }
        let block_length = get_u16(data, 0) as usize;
        let num_in_group = data[2] as usize;
        let mut group: Vec<T> = Vec::with_capacity(num_in_group);
        let mut pos: usize = 3;
        let mut i: usize = 0;
        let ghost whole = parse_items::<T>(
            data@.skip(3),
            block_length as nat,
            num_in_group as nat,
        );
        proof {
            assert(models(group@) =~= Seq::<T::Model>::empty());
            assert(in_front(
                models(group@),
                parse_items::<T>(data@.skip(3), block_length as nat, num_in_group as nat),
            ) =~= whole) by {
                match whole {
                    Ok(others) => {
                        assert(Seq::<T::Model>::empty() + others =~= others);
                    },
                    Err(_) => {},
                }
            }
        }
        while i < num_in_group
            invariant
                i <= num_in_group,
                reader@ == old(reader)@,
                data@ == old(reader)@,
                block_length == le_nat(data@.subrange(0, 2)),
                num_in_group == data@[2],
                3 <= pos <= data@.len(),
                pos == 3 + block_length * i,
                group@.len() == i,
                whole == parse_items::<T>(data@.skip(3), block_length as nat, num_in_group as nat),
                whole == in_front(
                    models(group@),
                    parse_items::<T>(
                        data@.skip(pos as int),
                        block_length as nat,
                        (num_in_group - i) as nat,
                    ),
                ),
            decreases num_in_group - i,
        {
            let ghost before = models(group@);
            let ghost rest = data@.skip(pos as int);
            if data.len() - pos < block_length {
                return Err(Error::SbeError(SbeError::NotEnoughBytes));
            }
            let mut block = slice_subrange(data, pos, pos + block_length);
            proof {
                assert(block@ =~= rest.take(block_length as int));
                assert(rest.skip(block_length as int) =~= data@.skip(pos + block_length));
            }
            match T::from_bytes(&mut block) {
                Ok(item) => {
                    group.push(item);
                },
                Err(error) => {
                    return Err(error);
                },
            }
            proof {
                let first = T::parse(rest.take(block_length as int))->Ok_0.0;
                assert(models(group@) =~= before + seq![first]);
                match parse_items::<T>(
                    data@.skip(pos + block_length),
                    block_length as nat,
                    (num_in_group - i - 1) as nat,
                ) {
                    Ok(others) => {
                        assert(before + (seq![first] + others) =~= (before + seq![first]) + others);
                    },
                    Err(_) => {},
                }
                assert(block_length * (i + 1) == block_length * i + block_length)
                    by (nonlinear_arith);
            }
            pos = pos + block_length;
            i = i + 1;
        }
        proof {
            match whole {
                Ok(others) => {
                    assert(models(group@) + Seq::<T::Model>::empty() =~= models(group@));
                },
                Err(_) => {},
            }
        }
        *reader = slice_subrange(data, pos, data.len());
        Ok(group)
    }
}

impl<T: ToBytes + HasBlockLength> ToBytes for Vec<T> {
    open spec fn bytes(&self) -> Seq<u8> {
        le_bytes(T::spec_block_length() as nat, 2) + seq![self@.len() as u8] + items_bytes(self@)
    }

    open spec fn fits(&self) -> bool {
        &&& self@.len() <= MAX_GROUP_SIZE
        &&& forall|i: int|
            0 <= i < self@.len() ==> (#[trigger] self@[i]).fits() && self@[i].bytes().len()
                == T::spec_block_length()
    }

    fn to_bytes(&self, writer: &mut Vec<u8>) -> (r: Result<(), Error>) {
        if self.len() > MAX_GROUP_SIZE {
            return Err(Error::SbeError(SbeError::SliceIsLongerThanAllowedBySchema));
        }
        let start = writer.len();
        let block_length = T::block_length();
        let mut header = u16_bytes(block_length);
        header.push(self.len() as u8);
        writer.append(&mut header);
        let ghost head = old(writer)@ + le_bytes(T::spec_block_length() as nat, 2)
            + seq![self@.len() as u8];
        proof {
            assert(writer@ =~= head + items_bytes(self@.take(0)));
        }
        let mut i: usize = 0;
        while i < self.len()
            invariant
                i <= self@.len(),
                start == old(writer)@.len(),
                block_length == T::spec_block_length(),
                head == old(writer)@ + le_bytes(T::spec_block_length() as nat, 2)
                    + seq![self@.len() as u8],
                writer@ == head + items_bytes(self@.take(i as int)),
                forall|j: int|
                    0 <= j < i ==> (#[trigger] self@[j]).fits() && self@[j].bytes().len()
                        == T::spec_block_length(),
            decreases self@.len() - i,
        {
            let before = writer.len();
            match self[i].to_bytes(writer) {
                Ok(()) => {},
                Err(error) => {
                    writer.truncate(start);
                    proof {
                        assert(writer@ =~= old(writer)@);
                    }
                    return Err(error);
                },
            }
            if writer.len() - before != block_length as usize {
                writer.truncate(start);
                proof {
                    assert(writer@ =~= old(writer)@);
                }
                return Err(Error::SbeError(SbeError::SliceIsLongerThanAllowedBySchema));
            }
            proof {
                lemma_items_bytes_push(self@.take(i as int), self@[i as int]);
                assert(self@.take(i + 1) =~= self@.take(i as int).push(self@[i as int]));
            }
            i = i + 1;
        }
        proof {
            assert(self@.take(self@.len() as int) =~= self@);
        }
        Ok(())
    }
}

/// The bytes of a sequence with one more item at its end.
pub proof fn lemma_items_bytes_push<T: ToBytes>(items: Seq<T>, last: T)
    ensures
        items_bytes(items.push(last)) == items_bytes(items) + last.bytes(),
    decreases items.len(),
{
    if items.len() == 0 {
        assert(items.push(last).drop_first() =~= Seq::<T>::empty());
        assert(items.push(last)[0] == last);
        assert(items_bytes(items.push(last).drop_first()) =~= Seq::<u8>::empty());
        assert(items_bytes(items) =~= Seq::<u8>::empty());
        assert(items_bytes(items.push(last)) =~= items_bytes(items) + last.bytes());
    } else {
        assert(items.push(last).drop_first() =~= items.drop_first().push(last));
        lemma_items_bytes_push(items.drop_first(), last);
        assert(items_bytes(items.push(last)) =~= items_bytes(items) + last.bytes());
    }
}

/// Items that each take a block of `block_length` bytes read back as
/// themselves, whatever follows them.
pub proof fn lemma_items_round_trip<T: RoundTrip>(items: Seq<T>, block_length: nat, rest: Seq<u8>)
    requires
        forall|i: int|
            0 <= i < items.len() ==> (#[trigger] items[i]).fits() && items[i].bytes().len()
                == block_length,
    ensures
        items_bytes(items).len() == block_length * items.len(),
        parse_items::<T>(items_bytes(items) + rest, block_length, items.len()) == Ok::<
            Seq<T::Model>,
            Error,
        >(models(items)),
    decreases items.len(),
{
    if items.len() == 0 {
        assert(models(items) =~= Seq::<T::Model>::empty());
    } else {
        let first = items[0];
        let others = items.drop_first();
        let all = items_bytes(items) + rest;
        assert(first.fits() && first.bytes().len() == block_length);
        assert forall|i: int| 0 <= i < others.len() implies (#[trigger] others[i]).fits()
            && others[i].bytes().len() == block_length by {
            assert(others[i] == items[i + 1]);
        }
        lemma_items_round_trip(others, block_length, rest);
        first.lemma_round_trip(Seq::empty());
        assert(all.take(block_length as int) =~= first.bytes() + Seq::<u8>::empty());
        assert(all.skip(block_length as int) =~= items_bytes(others) + rest);
        assert(seq![first.model()] + models(others) =~= models(items));
        assert(block_length * items.len() == block_length + block_length * others.len())
            by (nonlinear_arith)
            requires
                items.len() == others.len() + 1,
        ;
    }
}

impl<T: RoundTrip + HasBlockLength> RoundTrip for Vec<T> {
    proof fn lemma_round_trip(&self, rest: Seq<u8>) {
        let block_length = T::spec_block_length() as nat;
        let all = self.bytes() + rest;
        lemma_pow256_values();
        lemma_le_bytes_len(block_length, 2);
        lemma_le_nat_of_le_bytes(block_length, 2);
        lemma_items_round_trip(self@, block_length, rest);
        assert(all.subrange(0, 2) =~= le_bytes(block_length, 2));
        assert(all[2] == self@.len() as u8);
        assert(all.skip(3) =~= items_bytes(self@) + rest);
    }
}

/// A list of at most 255 items of fixed length fits a repeated field, so it
/// reads back as itself.
pub proof fn lemma_group_fits<T: FixedLength>(group: Vec<T>)
    requires
        group@.len() <= MAX_GROUP_SIZE,
    ensures
        group.fits(),
{
    assert forall|i: int| 0 <= i < group@.len() implies (#[trigger] group@[i]).fits()
        && group@[i].bytes().len() == T::spec_block_length() by {
        group@[i].lemma_fixed_length();
    }
}

} // verus!
