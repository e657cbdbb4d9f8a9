//! The map payload codec.
//!
//! Business objects travel inside SBE messages as maps in MessagePack: each
//! object is a map from field names, in camel case, to values. This module
//! holds what all objects share: the encodings of single values, which the
//! `rmp` crate provides, and a reader that splits a map into its fields.
//! The objects themselves are in the submodules.
//!
//! A reader takes a missing field for its default and passes over fields
//! that it does not know.

pub mod message;
pub mod task;
pub mod topic;
pub mod topology;

use crate::error::Error;
use crate::error::Failure;
use crate::io::string_from_utf8;
use crate::io::FromData;
use crate::io::ToData;
use serde::Deserialize;
use vstd::prelude::*;
use vstd::slice::slice_subrange;
use vstd::slice::slice_to_vec;
use vstd::string::StringExecFns;
use vstd::utf8::decode_utf8;
use vstd::utf8::valid_utf8;

verus! {

/// The encoding of a map without entries.
pub const EMPTY_MAP: u8 = 0x80;

/// The encoding of an array without items.
pub const EMPTY_ARRAY: u8 = 0x90;

/// The encoding of nil, which also stands for "no payload".
pub const NIL: u8 = 0xc0;

/// What `rmp::encode::write_map_len` writes for a map of `len` entries.
pub uninterp spec fn rmp_map_len(len: u32) -> Seq<u8>;

/// What `rmp::encode::write_array_len` writes for an array of `len` items.
pub uninterp spec fn rmp_array_len(len: u32) -> Seq<u8>;

/// What `rmp::encode::write_str` writes for `text`.
pub uninterp spec fn rmp_str(text: Seq<char>) -> Seq<u8>;

/// What `rmp::encode::write_bin` writes for `data`.
pub uninterp spec fn rmp_bin(data: Seq<u8>) -> Seq<u8>;

/// What `rmp::encode::write_sint` writes for `value`.
pub uninterp spec fn rmp_sint(value: i64) -> Seq<u8>;

/// What `rmp::encode::write_uint` writes for `value`.
pub uninterp spec fn rmp_uint(value: u64) -> Seq<u8>;

/// What `rmp::encode::write_bool` writes for `value`.
pub uninterp spec fn rmp_bool(value: bool) -> Seq<u8>;

/// What `rmp::decode::read_map_len` finds at the start of `data`: the
/// number of entries and the number of bytes that say it.
pub uninterp spec fn rmp_read_map_len(data: Seq<u8>) -> Option<(u32, usize)>;

/// What `rmp::decode::read_array_len` finds at the start of `data`: the
/// number of items and the number of bytes that say it.
pub uninterp spec fn rmp_read_array_len(data: Seq<u8>) -> Option<(u32, usize)>;

/// What `rmp::decode::read_str_len` finds at the start of `data`: the
/// number of bytes of the string and the number of bytes that say it.
pub uninterp spec fn rmp_read_str_len(data: Seq<u8>) -> Option<(u32, usize)>;

/// What `rmp::decode::read_bin_len` finds at the start of `data`: the
/// number of bytes of the blob and the number of bytes that say it.
pub uninterp spec fn rmp_read_bin_len(data: Seq<u8>) -> Option<(u32, usize)>;

/// What `rmp::decode::read_int` finds at the start of `data`: the integer
/// and the number of bytes that say it.
pub uninterp spec fn rmp_read_int(data: Seq<u8>) -> Option<(i128, usize)>;

/// What `rmp::decode::read_bool` finds at the start of `data`: the truth
/// value and the number of bytes that say it.
pub uninterp spec fn rmp_read_bool(data: Seq<u8>) -> Option<(bool, usize)>;

/// The number of bytes of the value at the start of `data`, of whatever
/// kind it is, as `rmp_serde` finds it when it reads the value without
/// keeping it.
pub uninterp spec fn rmp_value_len(data: Seq<u8>) -> Option<usize>;

/// `rmp::encode::write_map_len`: appends the header of a map of `len`
/// entries. Writing to a vector cannot fail.
#[verifier::external_body]
pub(crate) fn write_map_len(out: &mut Vec<u8>, len: u32)
    ensures
        final(out)@ == old(out)@ + rmp_map_len(len),
{
    let _ = rmp::encode::write_map_len(out, len);
}

/// `rmp::encode::write_array_len`: appends the header of an array of `len`
/// items. Writing to a vector cannot fail.
#[verifier::external_body]
pub(crate) fn write_array_len(out: &mut Vec<u8>, len: u32)
    ensures
        final(out)@ == old(out)@ + rmp_array_len(len),
{
    let _ = rmp::encode::write_array_len(out, len);
}

/// `rmp::encode::write_str`: appends `text` as a string. Writing to a
/// vector cannot fail.
#[verifier::external_body]
pub(crate) fn write_str(out: &mut Vec<u8>, text: &str)
    ensures
        final(out)@ == old(out)@ + rmp_str(text@),
{
    let _ = rmp::encode::write_str(out, text);
}

/// `rmp::encode::write_bin`: appends `data` as a blob. Writing to a vector
/// cannot fail.
#[verifier::external_body]
pub(crate) fn write_bin(out: &mut Vec<u8>, data: &[u8])
    ensures
        final(out)@ == old(out)@ + rmp_bin(data@),
{
    let _ = rmp::encode::write_bin(out, data);
}

/// `rmp::encode::write_sint`: appends `value` in the shortest form that
/// holds it. Writing to a vector cannot fail.
#[verifier::external_body]
pub(crate) fn write_sint(out: &mut Vec<u8>, value: i64)
    ensures
        final(out)@ == old(out)@ + rmp_sint(value),
{
    let _ = rmp::encode::write_sint(out, value);
}

/// `rmp::encode::write_uint`: appends `value` in the shortest form that
/// holds it. Writing to a vector cannot fail.
#[verifier::external_body]
pub(crate) fn write_uint(out: &mut Vec<u8>, value: u64)
    ensures
        final(out)@ == old(out)@ + rmp_uint(value),
{
    let _ = rmp::encode::write_uint(out, value);
}

/// `rmp::encode::write_bool`: appends `value`. Writing to a vector cannot
/// fail.
#[verifier::external_body]
pub(crate) fn write_bool(out: &mut Vec<u8>, value: bool)
    ensures
        final(out)@ == old(out)@ + rmp_bool(value),
{
    let _ = rmp::encode::write_bool(out, value);
}

/// `rmp::decode::read_map_len`: the number of entries of the map that
/// `data` starts with, and the number of bytes read, which the reader
/// counts; nothing if `data` starts with no map header.
#[verifier::external_body]
pub(crate) fn read_map_len(data: &[u8]) -> (r: Option<(u32, usize)>)
    ensures
        r == rmp_read_map_len(data@),
        r matches Some((_, n)) ==> n <= data@.len(),
{
    let mut reader = rmp::decode::Bytes::new(data);
    match rmp::decode::read_map_len(&mut reader) {
        Ok(len) => Some((len, reader.position() as usize)),
        Err(_) => None,
    }
}

/// `rmp::decode::read_array_len`: the number of items of the array that
/// `data` starts with, and the number of bytes read, which the reader
/// counts; nothing if `data` starts with no array header.
#[verifier::external_body]
pub(crate) fn read_array_len(data: &[u8]) -> (r: Option<(u32, usize)>)
    ensures
        r == rmp_read_array_len(data@),
        r matches Some((_, n)) ==> n <= data@.len(),
{
    let mut reader = rmp::decode::Bytes::new(data);
    match rmp::decode::read_array_len(&mut reader) {
        Ok(len) => Some((len, reader.position() as usize)),
        Err(_) => None,
    }
}

/// `rmp::decode::read_str_len`: the length in bytes of the string that
/// `data` starts with, and the number of bytes read, which the reader
/// counts; nothing if `data` starts with no string header.
#[verifier::external_body]
pub(crate) fn read_str_len(data: &[u8]) -> (r: Option<(u32, usize)>)
    ensures
        r == rmp_read_str_len(data@),
        r matches Some((_, n)) ==> n <= data@.len(),
{
    let mut reader = rmp::decode::Bytes::new(data);
    match rmp::decode::read_str_len(&mut reader) {
        Ok(len) => Some((len, reader.position() as usize)),
        Err(_) => None,
    }
}

/// `rmp::decode::read_bin_len`: the length of the blob that `data` starts
/// with, and the number of bytes read, which the reader counts; nothing if
/// `data` starts with no blob header.
#[verifier::external_body]
pub(crate) fn read_bin_len(data: &[u8]) -> (r: Option<(u32, usize)>)
    ensures
        r == rmp_read_bin_len(data@),
        r matches Some((_, n)) ==> n <= data@.len(),
{
    let mut reader = rmp::decode::Bytes::new(data);
    match rmp::decode::read_bin_len(&mut reader) {
        Ok(len) => Some((len, reader.position() as usize)),
        Err(_) => None,
    }
}

/// `rmp::decode::read_int`: the integer that `data` starts with, in
/// whatever integer form it is written, and the number of bytes read, which
/// the reader counts; nothing if `data` starts with no integer.
#[verifier::external_body]
pub(crate) fn read_int(data: &[u8]) -> (r: Option<(i128, usize)>)
    ensures
        r == rmp_read_int(data@),
        r matches Some((_, n)) ==> n <= data@.len(),
{
    let mut reader = rmp::decode::Bytes::new(data);
    match rmp::decode::read_int::<i128, _>(&mut reader) {
        Ok(value) => Some((value, reader.position() as usize)),
        Err(_) => None,
    }
}

/// `rmp::decode::read_bool`: the truth value that `data` starts with, and
/// the number of bytes read, which the reader counts; nothing if `data`
/// starts with no truth value.
#[verifier::external_body]
pub(crate) fn read_bool(data: &[u8]) -> (r: Option<(bool, usize)>)
    ensures
        r == rmp_read_bool(data@),
        r matches Some((_, n)) ==> n <= data@.len(),
{
    let mut reader = rmp::decode::Bytes::new(data);
    match rmp::decode::read_bool(&mut reader) {
        Ok(value) => Some((value, reader.position() as usize)),
        Err(_) => None,
    }
}

/// `serde::de::IgnoredAny` read through `rmp_serde::Deserializer`: the
/// number of bytes of the value that `data` starts with, as the position of
/// the deserializer's cursor gives it; nothing if `data` starts with no whole
/// value.
#[verifier::external_body]
pub(crate) fn value_len(data: &[u8]) -> (r: Option<usize>)
    ensures
        r == rmp_value_len(data@),
        r matches Some(n) ==> n <= data@.len(),
{
    let mut deserializer = rmp_serde::Deserializer::new(std::io::Cursor::new(data));
    match serde::de::IgnoredAny::deserialize(&mut deserializer) {
        Ok(_) => Some(deserializer.position() as usize),
        Err(_) => None,
    }
}

/// The error for bytes that are no map of the expected form: a
/// `DecodeError` whose text says so.
pub fn malformed() -> (error: Error)
    ensures
        Failure::Malformed.reported_by(error),
        error matches Error::DecodeError(text) && text@
            == "payload is not a map of the expected form"@,
{
    Error::DecodeError(String::from_str("payload is not a map of the expected form"))
}

/// The string that `data` starts with and the number of bytes it takes;
/// nothing if `data` starts with no string, the string is cut short or it
/// is not UTF-8.
pub open spec fn parse_str(data: Seq<u8>) -> Option<(Seq<char>, nat)> {
    match rmp_read_str_len(data) {
        None => None,
        Some((len, n)) => if n + len <= data.len() && valid_utf8(data.subrange(n as int, n + len)) {
            Some((decode_utf8(data.subrange(n as int, n + len)), (n + len) as nat))
        } else {
            None
        },
    }
}

/// Reads the string that `data` starts with.
pub fn read_str(data: &[u8]) -> (r: Option<(String, usize)>)
    ensures
        match r {
            Some((text, n)) => parse_str(data@) == Some((text@, n as nat)) && n <= data@.len(),
            None => parse_str(data@) is None,
        },
{
    let (len, n) = match read_str_len(data) {
        Some(header) => header,
        None => {
            return None;
        },
    };
    if len as usize > data.len() - n {
        return None;
    }
    let end = n + len as usize;
    match string_from_utf8(slice_to_vec(slice_subrange(data, n, end))) {
        Some(text) => Some((text, end)),
        None => None,
    }
}

/// The bytes of an optional slice.
pub open spec fn bytes_of(value: Option<&[u8]>) -> Option<Seq<u8>> {
    match value {
        Some(bytes) => Some(bytes@),
        None => None,
    }
}

/// A field of a map: its name and the bytes of its value.
pub type Field = (Seq<char>, Seq<u8>);

/// The `count` entries that start at `pos`.
pub open spec fn fields_at(data: Seq<u8>, pos: int, count: nat) -> Option<Seq<Field>>
    decreases count,
{
    if count == 0 {
        Some(Seq::empty())
    } else {
        match parse_str(data.skip(pos)) {
            None => None,
            Some((key, n)) => match rmp_value_len(data.skip(pos + n)) {
                None => None,
                Some(m) => match fields_at(data, pos + n + m, (count - 1) as nat) {
                    None => None,
                    Some(others) => Some(
                        seq![(key, data.subrange(pos + n, pos + n + m))] + others,
                    ),
                },
            },
        }
    }
}

/// The fields of the map that `data` starts with, in the order in which
/// they stand; nothing if `data` starts with no map whose keys are strings.
pub open spec fn parse_map(data: Seq<u8>) -> Option<Seq<Field>> {
    match rmp_read_map_len(data) {
        None => None,
        Some((count, n)) => fields_at(data, n as int, count as nat),
    }
}

/// The `count` items that start at `pos`.
pub open spec fn items_at(data: Seq<u8>, pos: int, count: nat) -> Option<Seq<Seq<u8>>>
    decreases count,
{
    if count == 0 {
        Some(Seq::empty())
    } else {
        match rmp_value_len(data.skip(pos)) {
            None => None,
            Some(m) => match items_at(data, pos + m, (count - 1) as nat) {
                None => None,
                Some(others) => Some(seq![data.subrange(pos, pos + m)] + others),
            },
        }
    }
}

/// The bytes of each item of the array that `data` starts with; nothing if
/// `data` starts with no array.
pub open spec fn parse_array(data: Seq<u8>) -> Option<Seq<Seq<u8>>> {
    match rmp_read_array_len(data) {
        None => None,
        Some((count, n)) => items_at(data, n as int, count as nat),
    }
}

/// The value of the first field called `key`.
pub open spec fn field(fields: Seq<Field>, key: Seq<char>) -> Option<Seq<u8>>
    decreases fields.len(),
{
    if fields.len() == 0 {
        None
    } else if fields[0].0 == key {
        Some(fields[0].1)
    } else {
        field(fields.drop_first(), key)
    }
}

/// `items` in front of what `parsed` holds, where it holds anything.
pub open spec fn in_front<T>(items: Seq<T>, parsed: Option<Seq<T>>) -> Option<Seq<T>> {
    match parsed {
        Some(others) => Some(items + others),
        None => None,
    }
}

/// A field of a map that was read: its name, and where its value lies.
#[derive(Debug)]
pub struct Entry {
    key: String,
    start: usize,
    end: usize,
}

/// The fields that `entries` mark in `data`.
pub closed spec fn fields_of(data: Seq<u8>, entries: Seq<Entry>) -> Seq<Field> {
    Seq::new(
        entries.len(),
        |i: int| (entries[i].key@, data.subrange(entries[i].start as int, entries[i].end as int)),
    )
}

/// Whether every entry lies inside `data`.
pub closed spec fn entries_in_range(data: Seq<u8>, entries: Seq<Entry>) -> bool {
    forall|i: int|
        0 <= i < entries.len() ==> (#[trigger] entries[i]).start <= entries[i].end <= data.len()
}

/// A map that was split into its fields.
#[derive(Debug)]
pub struct MapReader<'a> {
    data: &'a [u8],
    entries: Vec<Entry>,
}

impl<'a> MapReader<'a> {
    #[verifier::type_invariant]
    spec fn well_formed(&self) -> bool {
        entries_in_range(self.data@, self.entries@)
    }

    /// The fields of the map, in the order in which they stand.
    pub closed spec fn fields(&self) -> Seq<Field> {
        fields_of(self.data@, self.entries@)
    }

    /// Splits the map that `data` starts with into its fields.
    pub fn read(data: &'a [u8]) -> (r: Option<MapReader<'a>>)
        ensures
            match r {
                Some(map) => parse_map(data@) == Some(map.fields()),
                None => parse_map(data@) is None,
            },
    {
        let (count, n) = match read_map_len(data) {
            Some(header) => header,
            None => {
                return None;
            },
        };
        let mut entries: Vec<Entry> = Vec::new();
        let mut pos: usize = n;
        let mut i: u32 = 0;
        let ghost whole = fields_at(data@, n as int, count as nat);
        proof {
            assert(fields_of(data@, entries@) =~= Seq::<Field>::empty());
            match whole {
                Some(others) => {
                    assert(fields_of(data@, entries@) + others =~= others);
                },
                None => {},
            }
        }
        while i < count
            invariant
                i <= count,
                pos <= data@.len(),
                entries_in_range(data@, entries@),
                rmp_read_map_len(data@) == Some((count, n)),
                whole == fields_at(data@, n as int, count as nat),
                whole == in_front(
                    fields_of(data@, entries@),
                    fields_at(data@, pos as int, (count - i) as nat),
                ),
            decreases count - i,
        {
            let ghost before = fields_of(data@, entries@);
            let rest = slice_subrange(data, pos, data.len());
            proof {
                assert(rest@ =~= data@.skip(pos as int));
            }
            let (key, key_len) = match read_str(rest) {
                Some(key) => key,
                None => {
                    return None;
                },
            };
            let start = pos + key_len;
            let value = slice_subrange(data, start, data.len());
            proof {
                assert(value@ =~= data@.skip(pos + key_len));
            }
            let value_len = match value_len(value) {
                Some(value_len) => value_len,
                None => {
                    return None;
                },
            };
            let end = start + value_len;
            let ghost added = (key@, data@.subrange(start as int, end as int));
            entries.push(Entry { key, start, end });
            proof {
                assert(fields_of(data@, entries@) =~= before + seq![added]);
                match fields_at(data@, end as int, (count - i - 1) as nat) {
                    Some(others) => {
                        assert(before + (seq![added] + others) =~= (before + seq![added]) + others);
                    },
                    None => {},
                }
            }
            pos = end;
            i = i + 1;
        }
        proof {
            assert(fields_of(data@, entries@) + Seq::<Field>::empty() =~= fields_of(
                data@,
                entries@,
            ));
        }
        Some(MapReader { data, entries })
    }

    /// The number of fields.
    pub fn len(&self) -> (n: usize)
        ensures
            n == self.fields().len(),
    {
        self.entries.len()
    }

    /// The name of the field at `index` and the bytes of its value.
    pub fn at(&self, index: usize) -> (r: (&String, &'a [u8]))
        requires
            index < self.fields().len(),
        ensures
            r.0@ == self.fields()[index as int].0,
            r.1@ == self.fields()[index as int].1,
    {
        proof {
            use_type_invariant(self);
        }
        let entry = &self.entries[index];
        (&entry.key, slice_subrange(self.data, entry.start, entry.end))
    }

    /// The bytes of the value of the first field called `key`.
    pub fn get(&self, key: &str) -> (r: Option<&'a [u8]>)
        ensures
            bytes_of(r) == field(self.fields(), key@),
    {
        proof {
            use_type_invariant(self);
        }
        let wanted = String::from_str(key);
        let mut i: usize = 0;
        proof {
            assert(self.fields().skip(0) =~= self.fields());
        }
        while i < self.entries.len()
            invariant
                i <= self.entries@.len(),
                wanted@ == key@,
                entries_in_range(self.data@, self.entries@),
                field(self.fields(), key@) == field(self.fields().skip(i as int), key@),
            decreases self.entries@.len() - i,
        {
            let entry = &self.entries[i];
            proof {
                let rest = self.fields().skip(i as int);
                assert(rest[0] == self.fields()[i as int]);
                assert(rest.drop_first() =~= self.fields().skip(i + 1));
            }
            if entry.key == wanted {
                return Some(slice_subrange(self.data, entry.start, entry.end));
            }
            i = i + 1;
        }
        None
    }
}

/// The bytes of each item of the array that `data` starts with.
pub fn read_array<'a>(data: &'a [u8]) -> (r: Option<Vec<&'a [u8]>>)
    ensures
        match r {
            Some(items) => parse_array(data@) == Some(
                Seq::new(items@.len(), |i: int| items@[i]@),
            ),
            None => parse_array(data@) is None,
        },
{
    let (count, n) = match read_array_len(data) {
        Some(header) => header,
        None => {
            return None;
        },
    };
    let mut items: Vec<&'a [u8]> = Vec::new();
    let mut pos: usize = n;
    let mut i: u32 = 0;
    let ghost whole = items_at(data@, n as int, count as nat);
    proof {
        let views = Seq::new(items@.len(), |i: int| items@[i]@);
        assert(views =~= Seq::<Seq<u8>>::empty());
        match whole {
            Some(others) => {
                assert(views + others =~= others);
            },
            None => {},
        }
    }
    while i < count
        invariant
            i <= count,
            pos <= data@.len(),
            rmp_read_array_len(data@) == Some((count, n)),
            whole == items_at(data@, n as int, count as nat),
            whole == in_front(
                Seq::new(items@.len(), |i: int| items@[i]@),
                items_at(data@, pos as int, (count - i) as nat),
            ),
        decreases count - i,
    {
        let ghost before = Seq::new(items@.len(), |i: int| items@[i]@);
        let rest = slice_subrange(data, pos, data.len());
        proof {
            assert(rest@ =~= data@.skip(pos as int));
        }
        let len = match value_len(rest) {
            Some(len) => len,
            None => {
                return None;
            },
        };
        let end = pos + len;
        let item = slice_subrange(data, pos, end);
        items.push(item);
        proof {
            let after = Seq::new(items@.len(), |i: int| items@[i]@);
            assert(after =~= before + seq![item@]);
            match items_at(data@, end as int, (count - i - 1) as nat) {
                Some(others) => {
                    assert(before + (seq![item@] + others) =~= (before + seq![item@]) + others);
                },
                None => {},
            }
        }
        pos = end;
        i = i + 1;
    }
    proof {
        let views = Seq::new(items@.len(), |i: int| items@[i]@);
        assert(views + Seq::<Seq<u8>>::empty() =~= views);
    }
    Some(items)
}

/// The text of an optional field: empty where the field is missing, a
/// failure where its value is no string.
pub open spec fn text_or_empty(value: Option<Seq<u8>>) -> Result<Seq<char>, Failure> {
    match value {
        None => Ok(Seq::empty()),
        Some(bytes) => match parse_str(bytes) {
            Some((text, _)) => Ok(text),
            None => Err(Failure::Malformed),
        },
    }
}

/// Reads the text of an optional field.
pub fn get_text(value: Option<&[u8]>) -> (r: Result<String, Error>)
    ensures
        match r {
            Ok(text) => text_or_empty(bytes_of(value)) == Ok::<Seq<char>, Failure>(text@),
            Err(error) => text_or_empty(bytes_of(value)) matches Err(failure)
                && failure.reported_by(error),
        },
{
    match value {
        None => Ok(String::new()),
        Some(bytes) => match read_str(bytes) {
            Some((text, _)) => Ok(text),
            None => Err(malformed()),
        },
    }
}

/// The integer of an optional field: the default where the field is
/// missing, a failure where its value is no integer between `low` and `high`.
pub open spec fn integer_or(value: Option<Seq<u8>>, default: int, low: int, high: int) -> Result<
    int,
    Failure,
> {
    match value {
        None => Ok(default),
        Some(bytes) => match rmp_read_int(bytes) {
            Some((number, _)) => if low <= number <= high {
                Ok(number as int)
            } else {
                Err(Failure::Malformed)
            },
            None => Err(Failure::Malformed),
        },
    }
}

/// Reads the integer of an optional field.
pub fn get_integer(value: Option<&[u8]>, default: i128, low: i128, high: i128) -> (r: Result<
    i128,
    Error,
>)
    ensures
        match r {
            Ok(number) => integer_or(
                bytes_of(value),
                default as int,
                low as int,
                high as int,
            ) == Ok::<int, Failure>(number as int),
            Err(error) => integer_or(
                bytes_of(value),
                default as int,
                low as int,
                high as int,
            ) matches Err(failure) && failure.reported_by(error),
        },
{
    match value {
        None => Ok(default),
        Some(bytes) => match read_int(bytes) {
            Some((number, _)) => if low <= number && number <= high {
                Ok(number)
            } else {
                Err(malformed())
            },
            None => Err(malformed()),
        },
    }
}

/// The truth value of an optional field: the default where the field is
/// missing, a failure where its value is no truth value.
pub open spec fn truth_or(value: Option<Seq<u8>>, default: bool) -> Result<bool, Failure> {
    match value {
        None => Ok(default),
        Some(bytes) => match rmp_read_bool(bytes) {
            Some((truth, _)) => Ok(truth),
            None => Err(Failure::Malformed),
        },
    }
}

/// Reads the truth value of an optional field.
pub fn get_truth(value: Option<&[u8]>, default: bool) -> (r: Result<bool, Error>)
    ensures
        match r {
            Ok(truth) => truth_or(bytes_of(value), default) == Ok::<bool, Failure>(truth),
            Err(error) => truth_or(bytes_of(value), default) matches Err(failure)
                && failure.reported_by(error),
        },
{
    match value {
        None => Ok(default),
        Some(bytes) => match read_bool(bytes) {
            Some((truth, _)) => Ok(truth),
            None => Err(malformed()),
        },
    }
}

/// The blob of an optional field: the default where the field is missing,
/// a failure where its value is no blob or the blob is cut short.
pub open spec fn blob_or(value: Option<Seq<u8>>, default: Seq<u8>) -> Result<Seq<u8>, Failure> {
    match value {
        None => Ok(default),
        Some(bytes) => match rmp_read_bin_len(bytes) {
            Some((len, n)) => if n + len <= bytes.len() {
                Ok(bytes.subrange(n as int, n + len))
            } else {
                Err(Failure::Malformed)
            },
            None => Err(Failure::Malformed),
        },
    }
}

/// Reads the blob of an optional field.
pub fn get_blob(value: Option<&[u8]>, default: &[u8]) -> (r: Result<Vec<u8>, Error>)
    ensures
        match r {
            Ok(blob) => blob_or(bytes_of(value), default@) == Ok::<Seq<u8>, Failure>(blob@),
            Err(error) => blob_or(bytes_of(value), default@) matches Err(failure)
                && failure.reported_by(error),
        },
{
    match value {
        None => Ok(slice_to_vec(default)),
        Some(bytes) => match read_bin_len(bytes) {
            Some((len, n)) => if len as usize <= bytes.len() - n {
                Ok(slice_to_vec(slice_subrange(bytes, n, n + len as usize)))
            } else {
                Err(malformed())
            },
            None => Err(malformed()),
        },
    }
}

/// A pair of texts: an entry of a map from strings to strings.
pub type Pair = (Seq<char>, Seq<char>);

/// What pairs of strings say, one for one.
pub open spec fn pairs_view(pairs: Seq<(String, String)>) -> Seq<Pair> {
    Seq::new(pairs.len(), |i: int| (pairs[i].0@, pairs[i].1@))
}

/// `items` in front of what `parsed` holds, where it holds anything.
pub open spec fn in_front_ok<T>(items: Seq<T>, parsed: Result<Seq<T>, Failure>) -> Result<
    Seq<T>,
    Failure,
> {
    match parsed {
        Ok(others) => Ok(items + others),
        Err(failure) => Err(failure),
    }
}

/// The fields with their values read as strings.
pub open spec fn texts_of(fields: Seq<Field>) -> Result<Seq<Pair>, Failure>
    decreases fields.len(),
{
    if fields.len() == 0 {
        Ok(Seq::empty())
    } else {
        match parse_str(fields[0].1) {
            None => Err(Failure::Malformed),
            Some((text, _)) => match texts_of(fields.drop_first()) {
                Err(failure) => Err(failure),
                Ok(others) => Ok(seq![(fields[0].0, text)] + others),
            },
        }
    }
}

/// The map from strings to strings of an optional field: empty where the
/// field is missing, a failure where its value is no such map.
pub open spec fn pairs_or_empty(value: Option<Seq<u8>>) -> Result<Seq<Pair>, Failure> {
    match value {
        None => Ok(Seq::empty()),
        Some(bytes) => match parse_map(bytes) {
            None => Err(Failure::Malformed),
            Some(fields) => texts_of(fields),
        },
    }
}

/// Reads the map from strings to strings of an optional field, in the
/// order in which its entries stand.
pub fn get_pairs(value: Option<&[u8]>) -> (r: Result<Vec<(String, String)>, Error>)
    ensures
        match r {
            Ok(pairs) => pairs_or_empty(bytes_of(value)) == Ok::<Seq<Pair>, Failure>(
                pairs_view(pairs@),
            ),
            Err(error) => pairs_or_empty(bytes_of(value)) matches Err(failure)
                && failure.reported_by(error),
        },
{
    let mut pairs: Vec<(String, String)> = Vec::new();
    let bytes = match value {
        Some(bytes) => bytes,
        None => {
            proof {
                assert(pairs_view(pairs@) =~= Seq::<Pair>::empty());
            }
            return Ok(pairs);
        },
    };
    let map = match MapReader::read(bytes) {
        Some(map) => map,
        None => {
            return Err(malformed());
        },
    };
    let ghost whole = texts_of(map.fields());
    let mut i: usize = 0;
    proof {
        assert(pairs_view(pairs@) =~= Seq::<Pair>::empty());
        assert(map.fields().skip(0) =~= map.fields());
        match whole {
            Ok(others) => {
                assert(pairs_view(pairs@) + others =~= others);
            },
            Err(_) => {},
        }
    }
    while i < map.len()
        invariant
            i <= map.fields().len(),
            whole == texts_of(map.fields()),
            whole == pairs_or_empty(bytes_of(value)),
            whole == in_front_ok(pairs_view(pairs@), texts_of(map.fields().skip(i as int))),
        decreases map.fields().len() - i,
    {
        let ghost before = pairs_view(pairs@);
        let ghost rest = map.fields().skip(i as int);
        let (key, bytes) = map.at(i);
        proof {
            assert(rest[0] == map.fields()[i as int]);
            assert(rest.drop_first() =~= map.fields().skip(i + 1));
        }
        let text = match read_str(bytes) {
            Some((text, _)) => text,
            None => {
                return Err(malformed());
            },
        };
        let ghost added = (key@, text@);
        pairs.push((key.clone(), text));
        proof {
            assert(pairs_view(pairs@) =~= before + seq![added]);
            match texts_of(map.fields().skip(i + 1)) {
                Ok(others) => {
                    assert(before + (seq![added] + others) =~= (before + seq![added]) + others);
                },
                Err(_) => {},
            }
        }
        i = i + 1;
    }
    proof {
        assert(map.fields().skip(map.fields().len() as int) =~= Seq::<Field>::empty());
        assert(pairs_view(pairs@) + Seq::<Pair>::empty() =~= pairs_view(pairs@));
    }
    Ok(pairs)
}

/// The entries of a map from strings to strings, one after the other.
pub open spec fn pairs_body(pairs: Seq<Pair>) -> Seq<u8>
    decreases pairs.len(),
{
    if pairs.len() == 0 {
        Seq::empty()
    } else {
        pairs_body(pairs.drop_last()) + rmp_str(pairs.last().0) + rmp_str(pairs.last().1)
    }
}

/// A map from strings to strings: its header, then its entries.
pub open spec fn pairs_payload(pairs: Seq<Pair>) -> Seq<u8> {
    rmp_map_len(pairs.len() as u32) + pairs_body(pairs)
}

/// The error for a collection with more items than a `u32` counts: an
/// `EncodeError` whose text says so.
pub fn too_many() -> (error: Error)
    ensures
        error is EncodeError,
        error matches Error::EncodeError(text) && text@ == "collection has too many items"@,
{
    Error::EncodeError(String::from_str("collection has too many items"))
}

/// Appends a map from strings to strings. Fails with `EncodeError` exactly
/// when there are more pairs than a `u32` counts.
pub fn write_pairs(out: &mut Vec<u8>, pairs: &Vec<(String, String)>) -> (r: Result<(), Error>)
    ensures
        match r {
            Ok(()) => {
                &&& pairs@.len() <= u32::MAX
                &&& final(out)@ == old(out)@ + pairs_payload(pairs_view(pairs@))
            },
            Err(error) => pairs@.len() > u32::MAX && error is EncodeError,
        },
{
    if pairs.len() > u32::MAX as usize {
        return Err(too_many());
    }
    write_map_len(out, pairs.len() as u32);
    let ghost head = out@;
    let mut i: usize = 0;
    proof {
        assert(pairs_view(pairs@).take(0) =~= Seq::<Pair>::empty());
        assert(out@ =~= head + pairs_body(pairs_view(pairs@).take(0)));
    }
    while i < pairs.len()
        invariant
            i <= pairs@.len(),
            head == old(out)@ + rmp_map_len(pairs@.len() as u32),
            out@ == head + pairs_body(pairs_view(pairs@).take(i as int)),
        decreases pairs@.len() - i,
    {
        write_str(out, pairs[i].0.as_str());
        write_str(out, pairs[i].1.as_str());
        proof {
            let all = pairs_view(pairs@);
            assert(all.take(i + 1).drop_last() =~= all.take(i as int));
            assert(all.take(i + 1).last() == all[i as int]);
            assert(out@ =~= head + pairs_body(all.take(i + 1)));
        }
        i = i + 1;
    }
    proof {
        let all = pairs_view(pairs@);
        assert(all.take(all.len() as int) =~= all);
        assert(out@ =~= old(out)@ + pairs_payload(all));
    }
    Ok(())
}

/// What objects say, one for one.
pub open spec fn views<T: View>(items: Seq<T>) -> Seq<T::V> {
    Seq::new(items.len(), |i: int| items[i]@)
}

/// What each of `items` says if it is read as a payload of `T`.
pub open spec fn parse_each<T: FromData>(items: Seq<Seq<u8>>) -> Result<Seq<T::V>, Failure>
    decreases items.len(),
{
    if items.len() == 0 {
        Ok(Seq::empty())
    } else {
        match T::parse_payload(items[0]) {
            Err(failure) => Err(failure),
            Ok(first) => match parse_each::<T>(items.drop_first()) {
                Err(failure) => Err(failure),
                Ok(others) => Ok(seq![first] + others),
            },
        }
    }
}

/// The list of objects of an optional field: empty where the field is
/// missing, a failure where its value is no array of such objects.
pub open spec fn list_or_empty<T: FromData>(value: Option<Seq<u8>>) -> Result<Seq<T::V>, Failure> {
    match value {
        None => Ok(Seq::empty()),
        Some(bytes) => match parse_array(bytes) {
            None => Err(Failure::Malformed),
            Some(items) => parse_each::<T>(items),
        },
    }
}

/// Reads the list of objects of an optional field.
pub fn get_list<T: FromData>(value: Option<&[u8]>) -> (r: Result<Vec<T>, Error>)
    ensures
        match r {
            Ok(list) => list_or_empty::<T>(bytes_of(value)) == Ok::<Seq<T::V>, Failure>(
                views(list@),
            ),
            Err(error) => list_or_empty::<T>(bytes_of(value)) matches Err(failure)
                && failure.reported_by(error),
        },
{
    let mut list: Vec<T> = Vec::new();
    let bytes = match value {
        Some(bytes) => bytes,
        None => {
            proof {
                assert(views(list@) =~= Seq::<T::V>::empty());
            }
            return Ok(list);
        },
    };
    let items = match read_array(bytes) {
        Some(items) => items,
        None => {
            return Err(malformed());
        },
    };
    let ghost raw = Seq::new(items@.len(), |i: int| items@[i]@);
    let ghost whole = parse_each::<T>(raw);
    let mut i: usize = 0;
    proof {
        assert(views(list@) =~= Seq::<T::V>::empty());
        assert(raw.skip(0) =~= raw);
        match whole {
            Ok(others) => {
                assert(views(list@) + others =~= others);
            },
            Err(_) => {},
        }
    }
    while i < items.len()
        invariant
            i <= items@.len(),
            raw == Seq::new(items@.len(), |i: int| items@[i]@),
            whole == parse_each::<T>(raw),
            whole == list_or_empty::<T>(bytes_of(value)),
            whole == in_front_ok(views(list@), parse_each::<T>(raw.skip(i as int))),
        decreases items@.len() - i,
    {
        let ghost before = views(list@);
        let ghost rest = raw.skip(i as int);
        proof {
            assert(rest[0] == items@[i as int]@);
            assert(rest.drop_first() =~= raw.skip(i + 1));
        }
        let item = match T::from_payload(items[i]) {
            Ok(item) => item,
            Err(error) => {
                return Err(error);
            },
        };
        let ghost added = item@;
        list.push(item);
        proof {
            assert(views(list@) =~= before + seq![added]);
            match parse_each::<T>(raw.skip(i + 1)) {
                Ok(others) => {
                    assert(before + (seq![added] + others) =~= (before + seq![added]) + others);
                },
                Err(_) => {},
            }
        }
        i = i + 1;
    }
    proof {
        assert(raw.skip(raw.len() as int) =~= Seq::<Seq<u8>>::empty());
        assert(views(list@) + Seq::<T::V>::empty() =~= views(list@));
    }
    Ok(list)
}

/// The payloads of a list of objects, one after the other.
pub open spec fn list_body<T: ToData>(items: Seq<T>) -> Seq<u8>
    decreases items.len(),
{
    if items.len() == 0 {
        Seq::empty()
    } else {
        list_body(items.drop_last()) + items.last().payload_bytes()
    }
}

/// A list of objects: the header of an array, then the objects.
pub open spec fn list_payload<T: ToData>(items: Seq<T>) -> Seq<u8> {
    rmp_array_len(items.len() as u32) + list_body(items)
}

/// Whether a list of objects can be written.
pub open spec fn list_encodable<T: ToData>(items: Seq<T>) -> bool {
    &&& items.len() <= u32::MAX
    &&& forall|i: int| 0 <= i < items.len() ==> (#[trigger] items[i]).encodable()
}

/// Appends a list of objects. Fails with `EncodeError` exactly when the
/// list is not encodable.
pub fn write_list<T: ToData>(out: &mut Vec<u8>, items: &Vec<T>) -> (r: Result<(), Error>)
    ensures
        match r {
            Ok(()) => {
                &&& list_encodable(items@)
                &&& final(out)@ == old(out)@ + list_payload(items@)
            },
            Err(error) => !list_encodable(items@) && error is EncodeError,
        },
{
    if items.len() > u32::MAX as usize {
        return Err(too_many());
    }
    write_array_len(out, items.len() as u32);
    let ghost head = out@;
    let mut i: usize = 0;
    proof {
        assert(out@ =~= head + list_body(items@.take(0)));
    }
    while i < items.len()
        invariant
            i <= items@.len(),
            items@.len() <= u32::MAX,
            head == old(out)@ + rmp_array_len(items@.len() as u32),
            out@ == head + list_body(items@.take(i as int)),
            forall|j: int| 0 <= j < i ==> (#[trigger] items@[j]).encodable(),
        decreases items@.len() - i,
    {
        match items[i].to_payload(out) {
            Ok(()) => {},
            Err(error) => {
                return Err(error);
            },
        }
        proof {
            assert(items@.take(i + 1).drop_last() =~= items@.take(i as int));
            assert(items@.take(i + 1).last() == items@[i as int]);
            assert(out@ =~= head + list_body(items@.take(i + 1)));
        }
        i = i + 1;
    }
    proof {
        assert(items@.take(items@.len() as int) =~= items@);
        assert(out@ =~= old(out)@ + list_payload(items@));
    }
    Ok(())
}

/// The payload of a business object.
///
/// Fails with `EncodeError` exactly when the object is not encodable.
pub fn serialize<S: ToData>(data: &S) -> (r: Result<Vec<u8>, Error>)
    ensures
        match r {
            Ok(buffer) => data.encodable() && buffer@ == data.payload_bytes(),
            Err(error) => !data.encodable() && error is EncodeError,
        },
{
    let mut buffer: Vec<u8> = Vec::new();
    match data.to_payload(&mut buffer) {
        Ok(()) => {
            proof {
                assert(buffer@ =~= data.payload_bytes());
            }
            Ok(buffer)
        },
        Err(error) => Err(error),
    }
}

/// The business object that a payload says.
pub fn deserialize<D: FromData>(data: &[u8]) -> (r: Result<D, Error>)
    ensures
        match r {
            Ok(value) => D::parse_payload(data@) == Ok::<D::V, Failure>(value@),
            Err(error) => D::parse_payload(data@) matches Err(failure) && failure.reported_by(
                error,
            ),
        },
{
    D::from_payload(data)
}

} // verus!
