//! How values go into and come out of database records.

use std::borrow::Cow;
use vstd::bytes::*;
use vstd::prelude::*;
use vstd::slice::slice_to_vec;
use vstd::string::StringSliceAdditionalSpecFns;
use vstd::utf8::{encode_utf8, valid_utf8};

verus! {

/// Why a value could not be written to or read from a record.
#[derive(Clone, Copy, Debug, PartialEq, Eq, Structural)]
pub enum DatabaseValueError {
    /// The buffer is shorter than the value.
    InsufficientSpace,
    /// The record does not have the length of the type.
    IncorrectSize,
    /// The record is not valid UTF-8.
    InvalidUtf8,
}

impl DatabaseValueError {
    /// The message that goes with the error.
    pub fn message(&self) -> (message: &'static str)
        ensures
            message@ == (match self {
                DatabaseValueError::InsufficientSpace => "Insufficient space in buffer"@,
                DatabaseValueError::IncorrectSize => "Incorrect byte size for type"@,
                DatabaseValueError::InvalidUtf8 => "Invalid UTF-8 in record"@,
            }),
    {
        match self {
            DatabaseValueError::InsufficientSpace => "Insufficient space in buffer",
            DatabaseValueError::IncorrectSize => "Incorrect byte size for type",
            DatabaseValueError::InvalidUtf8 => "Invalid UTF-8 in record",
        }
    }
}

/// Whether `bytes` are the bytes of a 16-bit value in one of the two byte
/// orders that a machine can have.
pub open spec fn native_u16(value: u16, bytes: Seq<u8>) -> bool {
    bytes == spec_u16_to_le_bytes(value) || bytes == spec_u16_to_le_bytes(value).reverse()
}

/// Whether `bytes` are the bytes of a 32-bit value in one of the two byte
/// orders that a machine can have.
pub open spec fn native_u32(value: u32, bytes: Seq<u8>) -> bool {
    bytes == spec_u32_to_le_bytes(value) || bytes == spec_u32_to_le_bytes(value).reverse()
}

/// Whether `bytes` are the bytes of a 64-bit value in one of the two byte
/// orders that a machine can have.
pub open spec fn native_u64(value: u64, bytes: Seq<u8>) -> bool {
    bytes == spec_u64_to_le_bytes(value) || bytes == spec_u64_to_le_bytes(value).reverse()
}

/// Calls `u16::to_ne_bytes`. The byte order is the machine's, so the
/// contract only says that the bytes are the value's in one of the two
/// orders.
#[verifier::external_body]
fn u16_to_native(value: u16) -> (bytes: [u8; 2])
    ensures
        native_u16(value, bytes@),
{
    value.to_ne_bytes()
}

/// Calls `u32::to_ne_bytes`. The byte order is the machine's, so the
/// contract only says that the bytes are the value's in one of the two
/// orders.
#[verifier::external_body]
fn u32_to_native(value: u32) -> (bytes: [u8; 4])
    ensures
        native_u32(value, bytes@),
{
    value.to_ne_bytes()
}

/// Calls `u64::to_ne_bytes`. The byte order is the machine's, so the
/// contract only says that the bytes are the value's in one of the two
/// orders.
#[verifier::external_body]
fn u64_to_native(value: u64) -> (bytes: [u8; 8])
    ensures
        native_u64(value, bytes@),
{
    value.to_ne_bytes()
}

/// Calls `u32::from_ne_bytes`. The byte order is the machine's, so the
/// contract only says that the bytes are the value's in one of the two
/// orders.
#[verifier::external_body]
fn u32_from_native(bytes: [u8; 4]) -> (value: u32)
    ensures
        native_u32(value, bytes@),
{
    u32::from_ne_bytes(bytes)
}

/// Calls `u64::from_ne_bytes`. The byte order is the machine's, so the
/// contract only says that the bytes are the value's in one of the two
/// orders.
#[verifier::external_body]
fn u64_from_native(bytes: [u8; 8]) -> (value: u64)
    ensures
        native_u64(value, bytes@),
{
    u64::from_ne_bytes(bytes)
}

/// Calls `String::from_utf8`, which accepts exactly the byte strings that
/// are valid UTF-8 and then returns the string with those bytes.
#[verifier::external_body]
fn string_from_utf8(bytes: Vec<u8>) -> (text: Option<String>)
    ensures
        text is Some <==> valid_utf8(bytes@),
        text is Some ==> encode_utf8(text->0@) == bytes@,
{
    match String::from_utf8(bytes) {
        Ok(text) => Some(text),
        Err(_) => None,
    }
}

/// A value that can be copied into a record.
pub trait IntoDatabaseValue {
    /// The bytes that stand for the value.
    spec fn database_bytes(&self) -> Seq<u8>;

    /// The number of bytes that the value takes.
    fn database_byte_size(&self) -> (size: usize)
        ensures
            size == self.database_bytes().len(),
    ;

    /// Copies the value to the front of a buffer. A buffer that is too
    /// short stays as it is.
    fn copy_into_database(&self, bytes: &mut [u8]) -> (result: Result<(), DatabaseValueError>)
        ensures
            result is Err <==> old(bytes)@.len() < self.database_bytes().len(),
            result is Err ==> result == Err::<(), DatabaseValueError>(
                DatabaseValueError::InsufficientSpace,
            ) && final(bytes)@ == old(bytes)@,
            result is Ok ==> final(bytes)@ == self.database_bytes() + old(bytes)@.skip(
                self.database_bytes().len() as int,
            ),
    ;
}

/// A value that can be read from a record.
pub trait FromDatabaseValue: Sized {
    /// Whether the bytes stand for a value of the type.
    spec fn readable(bytes: Seq<u8>) -> bool;

    /// Whether the bytes stand for this value.
    spec fn read_as(bytes: Seq<u8>, value: &Self) -> bool;

    /// The error for bytes that stand for no value.
    spec fn unreadable() -> DatabaseValueError;

    /// Reads a value from a record.
    fn copy_from_database(bytes: &[u8]) -> (result: Result<Self, DatabaseValueError>)
        ensures
            result is Ok <==> Self::readable(bytes@),
            match result {
                Ok(value) => Self::read_as(bytes@, &value),
                Err(error) => error == Self::unreadable(),
            },
    ;
}

/// A value that can serve as a key or a record as it is.
pub trait AsDatabaseBytes {
    /// The bytes that stand for the value.
    spec fn is_key(&self, bytes: Seq<u8>) -> bool;

    /// The bytes that stand for the value.
    fn as_database_bytes(&self) -> (bytes: Cow<'_, [u8]>)
        ensures
            self.is_key(bytes@),
    ;
}

/// Copies a byte string to the front of a buffer that is long enough.
fn copy_front(source: &[u8], target: &mut [u8])
    requires
        source@.len() <= old(target)@.len(),
    ensures
        final(target)@ == source@ + old(target)@.skip(source@.len() as int),
{
    let mut i: usize = 0;
    while i < source.len()
        invariant
            i <= source@.len(),
            target@.len() == old(target)@.len(),
            source@.len() <= target@.len(),
            forall|j: int| 0 <= j < i ==> target@[j] == source@[j],
            forall|j: int| i <= j < target@.len() ==> target@[j] == old(target)@[j],
        decreases source@.len() - i,
    {
        target[i] = source[i];
        i += 1;
    }
    assert(target@ =~= source@ + old(target)@.skip(source@.len() as int));
}

impl IntoDatabaseValue for [u8] {
    open spec fn database_bytes(&self) -> Seq<u8> {
        self@
    }

    fn database_byte_size(&self) -> (size: usize) {
        self.len()
    }

    fn copy_into_database(&self, bytes: &mut [u8]) -> (result: Result<(), DatabaseValueError>) {
        if bytes.len() < self.len() {
            return Err(DatabaseValueError::InsufficientSpace);
        }
        copy_front(self, bytes);
        Ok(())
    }
}

impl IntoDatabaseValue for str {
    open spec fn database_bytes(&self) -> Seq<u8> {
        self.spec_bytes()
    }

    fn database_byte_size(&self) -> (size: usize) {
        self.as_bytes().len()
    }

    fn copy_into_database(&self, bytes: &mut [u8]) -> (result: Result<(), DatabaseValueError>) {
        let source = self.as_bytes();
        if bytes.len() < source.len() {
            return Err(DatabaseValueError::InsufficientSpace);
        }
        copy_front(source, bytes);
        Ok(())
    }
}

impl FromDatabaseValue for String {
    open spec fn readable(bytes: Seq<u8>) -> bool {
        valid_utf8(bytes)
    }

    open spec fn read_as(bytes: Seq<u8>, value: &String) -> bool {
        encode_utf8(value@) == bytes
    }

    open spec fn unreadable() -> DatabaseValueError {
        DatabaseValueError::InvalidUtf8
    }

    fn copy_from_database(bytes: &[u8]) -> (result: Result<String, DatabaseValueError>) {
        match string_from_utf8(slice_to_vec(bytes)) {
            Some(text) => Ok(text),
            None => Err(DatabaseValueError::InvalidUtf8),
        }
    }
}

impl FromDatabaseValue for u32 {
    open spec fn readable(bytes: Seq<u8>) -> bool {
        bytes.len() == 4
    }

    open spec fn read_as(bytes: Seq<u8>, value: &u32) -> bool {
        native_u32(*value, bytes)
    }

    open spec fn unreadable() -> DatabaseValueError {
        DatabaseValueError::IncorrectSize
    }

    fn copy_from_database(bytes: &[u8]) -> (result: Result<u32, DatabaseValueError>) {
        if bytes.len() != 4 {
            return Err(DatabaseValueError::IncorrectSize);
        }
        let array: [u8; 4] = crate::arrays::array_from_slice(bytes);
        Ok(u32_from_native(array))
    }
}

impl FromDatabaseValue for u64 {
    open spec fn readable(bytes: Seq<u8>) -> bool {
        bytes.len() == 8
    }

    open spec fn read_as(bytes: Seq<u8>, value: &u64) -> bool {
        native_u64(*value, bytes)
    }

    open spec fn unreadable() -> DatabaseValueError {
        DatabaseValueError::IncorrectSize
    }

    fn copy_from_database(bytes: &[u8]) -> (result: Result<u64, DatabaseValueError>) {
        if bytes.len() != 8 {
            return Err(DatabaseValueError::IncorrectSize);
        }
        let array: [u8; 8] = crate::arrays::array_from_slice(bytes);
        Ok(u64_from_native(array))
    }
}

impl FromDatabaseValue for Vec<u8> {
    open spec fn readable(bytes: Seq<u8>) -> bool {
        true
    }

    open spec fn read_as(bytes: Seq<u8>, value: &Vec<u8>) -> bool {
        value@ == bytes
    }

    open spec fn unreadable() -> DatabaseValueError {
        DatabaseValueError::IncorrectSize
    }

    fn copy_from_database(bytes: &[u8]) -> (result: Result<Vec<u8>, DatabaseValueError>) {
        Ok(slice_to_vec(bytes))
    }
}

impl AsDatabaseBytes for Vec<u8> {
    open spec fn is_key(&self, bytes: Seq<u8>) -> bool {
        bytes == self@
    }

    fn as_database_bytes(&self) -> (bytes: Cow<'_, [u8]>) {
        Cow::Borrowed(self.as_slice())
    }
}

impl AsDatabaseBytes for [u8] {
    open spec fn is_key(&self, bytes: Seq<u8>) -> bool {
        bytes == self@
    }

    fn as_database_bytes(&self) -> (bytes: Cow<'_, [u8]>) {
        Cow::Borrowed(self)
    }
}

impl AsDatabaseBytes for str {
    open spec fn is_key(&self, bytes: Seq<u8>) -> bool {
        bytes == self.spec_bytes()
    }

    fn as_database_bytes(&self) -> (bytes: Cow<'_, [u8]>) {
        Cow::Borrowed(self.as_bytes())
    }
}

impl AsDatabaseBytes for u8 {
    open spec fn is_key(&self, bytes: Seq<u8>) -> bool {
        bytes == seq![*self]
    }

    fn as_database_bytes(&self) -> (bytes: Cow<'_, [u8]>) {
        let mut owned: Vec<u8> = Vec::new();
        owned.push(*self);
        assert(owned@ =~= seq![*self]);
        Cow::Owned(owned)
    }
}

impl AsDatabaseBytes for u16 {
    open spec fn is_key(&self, bytes: Seq<u8>) -> bool {
        native_u16(*self, bytes)
    }

    fn as_database_bytes(&self) -> (bytes: Cow<'_, [u8]>) {
        let array = u16_to_native(*self);
        Cow::Owned(slice_to_vec(vstd::array::array_as_slice(&array)))
    }
}

impl AsDatabaseBytes for i16 {
    open spec fn is_key(&self, bytes: Seq<u8>) -> bool {
        native_u16(*self as u16, bytes)
    }

    fn as_database_bytes(&self) -> (bytes: Cow<'_, [u8]>) {
        let array = u16_to_native(*self as u16);
        Cow::Owned(slice_to_vec(vstd::array::array_as_slice(&array)))
    }
}

impl AsDatabaseBytes for i32 {
    open spec fn is_key(&self, bytes: Seq<u8>) -> bool {
        native_u32(*self as u32, bytes)
    }

    fn as_database_bytes(&self) -> (bytes: Cow<'_, [u8]>) {
        let array = u32_to_native(*self as u32);
        Cow::Owned(slice_to_vec(vstd::array::array_as_slice(&array)))
    }
}

impl AsDatabaseBytes for char {
    open spec fn is_key(&self, bytes: Seq<u8>) -> bool {
        native_u32(*self as u32, bytes)
    }

    fn as_database_bytes(&self) -> (bytes: Cow<'_, [u8]>) {
        let array = u32_to_native(*self as u32);
        Cow::Owned(slice_to_vec(vstd::array::array_as_slice(&array)))
    }
}

impl AsDatabaseBytes for u64 {
    open spec fn is_key(&self, bytes: Seq<u8>) -> bool {
        native_u64(*self, bytes)
    }

    fn as_database_bytes(&self) -> (bytes: Cow<'_, [u8]>) {
        let array = u64_to_native(*self);
        Cow::Owned(slice_to_vec(vstd::array::array_as_slice(&array)))
    }
}

impl AsDatabaseBytes for i64 {
    open spec fn is_key(&self, bytes: Seq<u8>) -> bool {
        native_u64(*self as u64, bytes)
    }

    fn as_database_bytes(&self) -> (bytes: Cow<'_, [u8]>) {
        let array = u64_to_native(*self as u64);
        Cow::Owned(slice_to_vec(vstd::array::array_as_slice(&array)))
    }
}

/// Whether `bytes` are the bytes of the items, one item of `width` bytes
/// after the other.
pub open spec fn concatenated<T: AsDatabaseBytes>(items: Seq<T>, bytes: Seq<u8>, width: int) -> bool
    decreases items.len(),
{
    if items.len() == 0 {
        bytes.len() == 0
    } else {
        &&& bytes.len() >= width
        &&& concatenated(items.drop_last(), bytes.take(bytes.len() - width), width)
        &&& items.last().is_key(bytes.skip(bytes.len() - width))
    }
}

/// The bytes of the items of a slice, one item after the other. Every
/// item of the type must take `width` bytes.
fn slice_database_bytes<T: AsDatabaseBytes>(items: &[T], Ghost(width): Ghost<int>) -> (bytes: Vec<u8>)
    requires
        forall|item: T, key: Seq<u8>| #[trigger] item.is_key(key) ==> key.len() == width,
    ensures
        concatenated(items@, bytes@, width),
{
    let mut bytes: Vec<u8> = Vec::new();
    let mut i: usize = 0;
    proof {
        assert(items@.take(0) =~= Seq::<T>::empty());
    }
    while i < items.len()
        invariant
            i <= items@.len(),
            forall|item: T, key: Seq<u8>| #[trigger] item.is_key(key) ==> key.len() == width,
            concatenated(items@.take(i as int), bytes@, width),
        decreases items@.len() - i,
    {
        let ghost before = bytes@;
        let item = items[i].as_database_bytes();
        let ghost key = item@;
        let mut more = match item {
            Cow::Borrowed(borrowed) => slice_to_vec(borrowed),
            Cow::Owned(owned) => owned,
        };
        let ghost added = more@;
        bytes.append(&mut more);
        proof {
            let next = items@.take(i + 1);
            let k = before.len() as int;
            assert(next.drop_last() =~= items@.take(i as int));
            assert(next.last() == items@[i as int]);
            assert(added == key);
            assert(items@[i as int].is_key(key));
            assert(key.len() == width);
            assert(bytes@.take(k) =~= before);
            assert(bytes@.skip(k) =~= added);
        }
        i += 1;
    }
    proof {
        assert(items@.take(i as int) =~= items@);
    }
    bytes
}

/// Keys of 16, 32 and 64 bits take two, four and eight bytes.
pub proof fn lemma_native_widths()
    ensures
        forall|value: u16, bytes: Seq<u8>| #[trigger] native_u16(value, bytes) ==> bytes.len() == 2,
        forall|value: u32, bytes: Seq<u8>| #[trigger] native_u32(value, bytes) ==> bytes.len() == 4,
        forall|value: u64, bytes: Seq<u8>| #[trigger] native_u64(value, bytes) ==> bytes.len() == 8,
{
    lemma_auto_spec_u16_to_from_le_bytes();
    lemma_auto_spec_u32_to_from_le_bytes();
    lemma_auto_spec_u64_to_from_le_bytes();
}

impl AsDatabaseBytes for [u16] {
    open spec fn is_key(&self, bytes: Seq<u8>) -> bool {
        concatenated(self@, bytes, 2)
    }

    fn as_database_bytes(&self) -> (bytes: Cow<'_, [u8]>) {
        proof {
            lemma_native_widths();
        }
        Cow::Owned(slice_database_bytes(self, Ghost(2)))
    }
}

impl AsDatabaseBytes for [i16] {
    open spec fn is_key(&self, bytes: Seq<u8>) -> bool {
        concatenated(self@, bytes, 2)
    }

    fn as_database_bytes(&self) -> (bytes: Cow<'_, [u8]>) {
        proof {
            lemma_native_widths();
        }
        Cow::Owned(slice_database_bytes(self, Ghost(2)))
    }
}

impl AsDatabaseBytes for [i32] {
    open spec fn is_key(&self, bytes: Seq<u8>) -> bool {
        concatenated(self@, bytes, 4)
    }

    fn as_database_bytes(&self) -> (bytes: Cow<'_, [u8]>) {
        proof {
            lemma_native_widths();
        }
        Cow::Owned(slice_database_bytes(self, Ghost(4)))
    }
}

impl AsDatabaseBytes for [u64] {
    open spec fn is_key(&self, bytes: Seq<u8>) -> bool {
        concatenated(self@, bytes, 8)
    }

    fn as_database_bytes(&self) -> (bytes: Cow<'_, [u8]>) {
        proof {
            lemma_native_widths();
        }
        Cow::Owned(slice_database_bytes(self, Ghost(8)))
    }
}

impl AsDatabaseBytes for [i64] {
    open spec fn is_key(&self, bytes: Seq<u8>) -> bool {
        concatenated(self@, bytes, 8)
    }

    fn as_database_bytes(&self) -> (bytes: Cow<'_, [u8]>) {
        proof {
            lemma_native_widths();
        }
        Cow::Owned(slice_database_bytes(self, Ghost(8)))
    }
}

impl AsDatabaseBytes for [char] {
    open spec fn is_key(&self, bytes: Seq<u8>) -> bool {
        concatenated(self@, bytes, 4)
    }

    fn as_database_bytes(&self) -> (bytes: Cow<'_, [u8]>) {
        proof {
            lemma_native_widths();
        }
        Cow::Owned(slice_database_bytes(self, Ghost(4)))
    }
}

} // verus!
