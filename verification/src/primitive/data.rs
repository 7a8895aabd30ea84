//! IDs, indices, addresses, padding and the low-level structs of data, reflexives and tag references.

use vstd::prelude::*;
use core::marker::PhantomData;
use crate::endian::{ByteOrder, spec_splice, lemma_u32_roundtrip, spec_u16_from_bytes, spec_u16_to_bytes, spec_u32_from_bytes, spec_u32_to_bytes};
use crate::error::{Error, OverflowCheck, RinghopperResult};
use vstd::string::StringExecFns;
use vstd::std_specs::convert::FromSpecImpl;
use crate::map::{CacheMap, DomainType, MapReadError, MapView, spec_map_view, lemma_view_data_at, ResourceMapType, spec_view_data_at, spec_domain_name, spec_map_error_is};
use crate::parse::{SimpleTagData, TagData, spec_fits, spec_read_bytes, spec_read_simple_map, spec_roundtrips, spec_tag_frame, fits};
use crate::text::{format_decimal, format_hex, spec_decimal_digits, spec_hex_padded};
use crate::primitive::group::{TagGroup, spec_group_fourcc, spec_group_from_fourcc};

verus! {

/// Reading a big or little endian `u32` at `at`.
pub open spec fn spec_u32_at(big: bool, data: Seq<u8>, at: int) -> RinghopperResult<u32> {
    spec_read_bytes(data, at, 4, |b: Seq<u8>| spec_u32_from_bytes(big, b))
}

/// 16-bit index type; `None` is stored as `0xFFFF`.
pub type Index = Option<u16>;

impl SimpleTagData for Option<u16> {
    open spec fn spec_simple_size() -> nat {
        2
    }

    open spec fn spec_read(big: bool, data: Seq<u8>, at: int, struct_end: int) -> RinghopperResult<Option<u16>> {
        spec_read_bytes(data, at, 2, |b: Seq<u8>| if spec_u16_from_bytes(big, b) == 0xFFFF {
            None
        } else {
            Some(spec_u16_from_bytes(big, b))
        })
    }

    open spec fn spec_encode(self, big: bool) -> RinghopperResult<Seq<u8>> {
        match self {
            Some(n) => if n == 0xFFFF {
                Err(Error::IndexLimitExceeded)
            } else {
                Ok(spec_u16_to_bytes(big, n))
            },
            None => Ok(spec_u16_to_bytes(big, 0xFFFF)),
        }
    }

    fn simple_size() -> (r: usize) {
        2
    }

    fn read<B: ByteOrder>(data: &[u8], at: usize, struct_end: usize) -> (r: RinghopperResult<Option<u16>>) {
        match u16::read::<B>(data, at, struct_end)? {
            0xFFFF => Ok(None),
            n => Ok(Some(n)),
        }
    }

    fn write<B: ByteOrder>(&self, data: &mut [u8], at: usize, struct_end: usize) -> (r: RinghopperResult<()>) {
        match self {
            Some(n) => if *n == 0xFFFF {
                Err(Error::IndexLimitExceeded)
            } else {
                n.write::<B>(data, at, struct_end)
            },
            None => 0xFFFFu16.write::<B>(data, at, struct_end),
        }
    }
}

/// The raw value of an ID built from an index and a salt.
pub open spec fn spec_id_new(index: u16, salt: u16) -> u32 {
    ((((salt ^ index) as u32) | 0x8000) << 16) | (index as u32)
}

/// The index of a raw ID value, `None` if null.
pub open spec fn spec_id_index(id: u32) -> Option<u16> {
    if id == 0xFFFFFFFF {
        None
    } else {
        Some((id & 0xFFFF) as u16)
    }
}

/// The salt of a raw ID value, `None` if null.
pub open spec fn spec_id_salt(id: u32) -> Option<u16> {
    match spec_id_index(id) {
        Some(index) => Some((((id ^ ((index as u32) << 16)) >> 16) as u16) & !0x8000u16),
        None => None,
    }
}

/// Nullable index for referring to an element in an array.
///
/// IDs are stored with a 16-bit salt and a 16-bit index. If both are `0xFFFF`, then the ID is null. Otherwise, the
/// salt is array-specific and used for uniquely identifying indices from different arrays (it is XOR'd with the index
/// and 0x8000), thus identical indices from different array types (e.g. script nodes vs. tags) will not equal each
/// other.
#[derive(Copy, Clone, PartialEq, Eq, Structural, Debug)]
pub struct ID {
    id: u32,
}

impl View for ID {
    type V = u32;

    closed spec fn view(&self) -> u32 {
        self.id
    }
}

impl ID {
    /// Construct an ID from a salt and index.
    pub fn new(index: Index, salt: u16) -> (r: ID)
        ensures
            r@ == match index {
                Some(i) => spec_id_new(i, salt),
                None => 0xFFFFFFFFu32,
            },
    {
        let index = match index {
            Some(n) => n,
            None => return ID::null(),
        };
        let id: u32 = ((((salt ^ index) as u32) | 0x8000) << 16) | (index as u32);
        ID { id }
    }

    /// Create a null ID.
    pub fn null() -> (r: ID)
        ensures
            r@ == 0xFFFFFFFFu32,
    {
        ID { id: 0xFFFFFFFF }
    }

    /// Get the index value of the ID, `None` if it is null.
    pub fn index(self) -> (r: Index)
        ensures
            r == spec_id_index(self@),
    {
        if self.is_null() {
            None
        } else {
            Some((self.id & 0xFFFF) as u16)
        }
    }

    /// Get the salt value of the ID.
    ///
    /// Returns `None` if the ID is null.
    pub fn salt(self) -> (r: Option<u16>)
        ensures
            r == spec_id_salt(self@),
    {
        match self.index() {
            Some(index) => Some((((self.id ^ ((index as u32) << 16)) >> 16) as u16) & !0x8000u16),
            None => None,
        }
    }

    /// Convert into a [`u32`].
    pub fn as_u32(self) -> (r: u32)
        ensures
            r == self@,
    {
        self.id
    }

    /// Convert from a [`u32`], failing with [`Error::InvalidID`] if the ID is not valid.
    pub fn from_u32_checked(id: u32) -> (r: RinghopperResult<ID>)
        ensures
            match r {
                Ok(v) => v@ == id && id & 0x80000000 != 0,
                Err(e) => e == Error::InvalidID && id & 0x80000000 == 0,
            },
    {
        let id = Self::from_u32(id);
        if id.is_valid() {
            Ok(id)
        } else {
            Err(Error::InvalidID)
        }
    }

    /// Convert from a [`u32`].
    pub fn from_u32(id: u32) -> (r: ID)
        ensures
            r@ == id,
    {
        ID { id }
    }

    /// Return `true` if the ID is null.
    pub fn is_null(self) -> (r: bool)
        ensures
            r == (self@ == 0xFFFFFFFF),
    {
        self.id == 0xFFFFFFFF
    }

    /// Return `true` if the ID is a valid ID (its highest bit is set).
    pub fn is_valid(self) -> (r: bool)
        ensures
            r == (self@ & 0x80000000 != 0),
    {
        (self.id & 0x80000000) != 0
    }

    /// The ID as it is displayed: `(id=null, salt=null)` if it is null, else its index and salt in decimal.
    pub fn to_string(self) -> (r: String)
        ensures
            r@ == spec_id_text(self@),
    {
        match (self.index(), self.salt()) {
            (Some(index), Some(salt)) => {
                let mut m = "(id=".to_owned();
                m.append(format_decimal(index as usize).as_str());
                m.append(", salt=");
                m.append(format_decimal(salt as usize).as_str());
                m.append(")");
                m
            },
            _ => "(id=null, salt=null)".to_owned(),
        }
    }
}

impl From<ID> for u32 {
    fn from(value: ID) -> (r: u32) {
        value.as_u32()
    }
}

impl FromSpecImpl<ID> for u32 {
    open spec fn obeys_from_spec() -> bool {
        true
    }

    open spec fn from_spec(v: ID) -> u32 {
        v@
    }
}

/// How an ID is displayed: its index and salt in decimal, or `null` for both.
pub open spec fn spec_id_text(id: u32) -> Seq<char> {
    match (spec_id_index(id), spec_id_salt(id)) {
        (Some(index), Some(salt)) => "(id="@ + spec_decimal_digits(index as nat) + ", salt="@ + spec_decimal_digits(
            salt as nat,
        ) + ")"@,
        _ => "(id=null, salt=null)"@,
    }
}

impl Default for ID {
    fn default() -> (r: ID)
        ensures
            r@ == 0xFFFFFFFFu32,
    {
        ID::null()
    }
}

/// Law: an ID built from an index and a salt gives back the index, and the salt without its highest bit, unless
/// the combination happens to be the null ID.
pub proof fn law_id_new_index_salt(index: u16, salt: u16)
    requires
        spec_id_new(index, salt) != 0xFFFFFFFF,
    ensures
        spec_id_index(spec_id_new(index, salt)) == Some(index),
        spec_id_salt(spec_id_new(index, salt)) == Some(salt & 0x7FFF),
        spec_id_new(index, salt) & 0x80000000 != 0,
{
    assert(((((salt ^ index) as u32) | 0x8000) << 16 | (index as u32)) & 0xFFFF == index as u32) by (bit_vector);
    assert((((((((salt ^ index) as u32) | 0x8000) << 16 | (index as u32)) ^ ((index as u32) << 16)) >> 16) as u16)
        & !0x8000u16 == salt & 0x7FFF) by (bit_vector);
    assert(((((salt ^ index) as u32) | 0x8000) << 16 | (index as u32)) & 0x80000000 != 0) by (bit_vector);
}

impl SimpleTagData for ID {
    open spec fn spec_simple_size() -> nat {
        4
    }

    open spec fn spec_read(big: bool, data: Seq<u8>, at: int, struct_end: int) -> RinghopperResult<ID> {
        match spec_u32_at(big, data, at) {
            Ok(v) => Ok(choose|id: ID| id@ == v),
            Err(e) => Err(e),
        }
    }

    open spec fn spec_encode(self, big: bool) -> RinghopperResult<Seq<u8>> {
        Ok(spec_u32_to_bytes(big, self@))
    }

    fn simple_size() -> (r: usize) {
        4
    }

    fn read<B: ByteOrder>(data: &[u8], at: usize, struct_end: usize) -> (r: RinghopperResult<ID>) {
        let v = u32::read::<B>(data, at, struct_end)?;
        let id = ID::from_u32(v);
        proof {
            lemma_id_view_injective(id);
        }
        Ok(id)
    }

    fn write<B: ByteOrder>(&self, data: &mut [u8], at: usize, struct_end: usize) -> (r: RinghopperResult<()>) {
        let raw = self.as_u32();
        assert(<ID as SimpleTagData>::spec_simple_size() == 4);
        assert(<u32 as SimpleTagData>::spec_simple_size() == 4);
        let r = raw.write::<B>(data, at, struct_end);
        assert(<u32 as SimpleTagData>::spec_encode(raw, B::is_big_endian()) == Ok::<Seq<u8>, Error>(
            crate::endian::spec_u32_to_bytes(B::is_big_endian(), raw),
        ));
        assert(<ID as SimpleTagData>::spec_encode(*self, B::is_big_endian()) == Ok::<Seq<u8>, Error>(
            crate::endian::spec_u32_to_bytes(B::is_big_endian(), raw),
        ));
        r
    }
}

/// Every raw value is the value of some ID.
pub proof fn lemma_id_exists(v: u32)
    ensures
        exists|id: ID| id@ == v,
{
    let id = ID { id: v };
    assert(id@ == v);
}

/// Two IDs with the same raw value are equal.
pub proof fn lemma_id_view_injective(a: ID)
    ensures
        forall|b: ID| b@ == a@ ==> b == a,
{
}

/// ID types used for salt values in IDs.
#[derive(Copy, Clone, PartialEq, Eq, Structural, Debug)]
pub enum IDType {
    Tag,
    ScriptNode,
}

impl IDType {
    /// Get the salt value for the ID type.
    pub fn salt(self) -> (r: u16)
        ensures
            r == match self {
                IDType::Tag => 0x6174u16,
                IDType::ScriptNode => 0x6373u16,
            },
    {
        match self {
            IDType::Tag => 0x6174,
            IDType::ScriptNode => 0x6373,
        }
    }
}

/// Represents an address for cache files.
#[derive(Clone, Copy, Default, Debug, PartialEq, Eq, Structural)]
pub struct Address {
    pub address: u32,
}

impl Address {
    /// The address as it is displayed: `0x` and eight uppercase hexadecimal digits.
    pub fn to_string(&self) -> (r: String)
        ensures
            r@ == "0x"@ + spec_hex_padded(self.address as nat, 8),
    {
        let mut m = "0x".to_owned();
        m.append(format_hex(self.address as usize, 8).as_str());
        m
    }
}

impl From<u32> for Address {
    fn from(value: u32) -> (r: Address) {
        Address { address: value }
    }
}

impl FromSpecImpl<u32> for Address {
    open spec fn obeys_from_spec() -> bool {
        true
    }

    open spec fn from_spec(v: u32) -> Address {
        Address { address: v }
    }
}

impl From<Address> for u32 {
    fn from(value: Address) -> (r: u32) {
        value.address
    }
}

impl FromSpecImpl<Address> for u32 {
    open spec fn obeys_from_spec() -> bool {
        true
    }

    open spec fn from_spec(v: Address) -> u32 {
        v.address
    }
}

impl From<Address> for usize {
    fn from(value: Address) -> (r: usize) {
        value.address as usize
    }
}

impl FromSpecImpl<Address> for usize {
    open spec fn obeys_from_spec() -> bool {
        true
    }

    open spec fn from_spec(v: Address) -> usize {
        v.address as usize
    }
}

impl SimpleTagData for Address {
    open spec fn spec_simple_size() -> nat {
        4
    }

    open spec fn spec_read(big: bool, data: Seq<u8>, at: int, struct_end: int) -> RinghopperResult<Address> {
        match spec_u32_at(big, data, at) {
            Ok(v) => Ok(Address { address: v }),
            Err(e) => Err(e),
        }
    }

    open spec fn spec_encode(self, big: bool) -> RinghopperResult<Seq<u8>> {
        Ok(spec_u32_to_bytes(big, self.address))
    }

    fn simple_size() -> (r: usize) {
        4
    }

    fn read<B: ByteOrder>(data: &[u8], at: usize, struct_end: usize) -> (r: RinghopperResult<Address>) {
        match u32::read::<B>(data, at, struct_end) {
            Ok(address) => {
                assert(<u32 as SimpleTagData>::spec_read(B::is_big_endian(), data@, at as int, struct_end as int) == Ok::<
                    u32,
                    Error,
                >(address));
                assert(<Address as SimpleTagData>::spec_read(B::is_big_endian(), data@, at as int, struct_end as int)
                    == Ok::<Address, Error>(Address { address }));
                Ok(Address { address })
            },
            Err(e) => {
                assert(<Address as SimpleTagData>::spec_read(B::is_big_endian(), data@, at as int, struct_end as int)
                    == Err::<Address, Error>(e));
                Err(e)
            },
        }
    }

    fn write<B: ByteOrder>(&self, data: &mut [u8], at: usize, struct_end: usize) -> (r: RinghopperResult<()>) {
        self.address.write::<B>(data, at, struct_end)
    }
}

/// Used to denote unused memory, stored as `00` bytes.
#[derive(Copy, Clone, Default, PartialEq, Eq, Structural, Debug)]
pub struct Padding {}

/// `n` zero bytes.
pub open spec fn spec_zeros(n: nat) -> Seq<u8> {
    Seq::new(n, |i: int| 0u8)
}

/// Checking `n` bytes of padding at `at`: only the end of the struct is checked; nothing is read.
pub open spec fn spec_read_padding(n: int, at: int, struct_end: int) -> RinghopperResult<Padding> {
    match spec_fits(n, at, struct_end) {
        Ok(_) => Ok(Padding {}),
        Err(e) => Err(e),
    }
}

impl Padding {
    /// Check that `n` bytes of padding at `at` lie within the struct.
    pub fn read(n: usize, at: usize, struct_end: usize) -> (r: RinghopperResult<Padding>)
        ensures
            r == spec_read_padding(n as int, at as int, struct_end as int),
    {
        fits(n, at, struct_end)?;
        Ok(Padding {})
    }

    /// Write `n` bytes of padding (zeros) at `at`.
    pub fn write(n: usize, data: &mut [u8], at: usize)
        requires
            at + n <= old(data)@.len(),
        ensures
            final(data)@ == spec_splice(old(data)@, at as int, spec_zeros(n as nat)),
    {
        let mut i: usize = 0;
        while i < n
            invariant
                i <= n,
                at + n <= data.len(),
                data@.len() == old(data)@.len(),
                data@ == spec_splice(old(data)@, at as int, spec_zeros(i as nat)),
            decreases n - i,
        {
            data[at + i] = 0;
            i = i + 1;
            proof {
                assert(data@ =~= spec_splice(old(data)@, at as int, spec_zeros(i as nat)));
            }
        }
    }
}

/// Writing `a` then `b` right after it is writing `a + b`.
pub proof fn lemma_splice_concat(data: Seq<u8>, at: int, a: Seq<u8>, b: Seq<u8>)
    requires
        0 <= at,
        at + a.len() + b.len() <= data.len(),
    ensures
        spec_splice(spec_splice(data, at, a), at + a.len(), b) == spec_splice(data, at, a + b),
        spec_splice(data, at, a + b).len() == data.len(),
{
    assert(spec_splice(spec_splice(data, at, a), at + a.len(), b) =~= spec_splice(data, at, a + b));
}

/// Lower level C implementation of tag data.
#[derive(Clone, Copy, Default, Debug, PartialEq, Eq, Structural)]
pub struct DataC {
    /// Length of the data in bytes.
    pub size: u32,

    /// Flags which are context-dependent; for example, whether or not the data is stored in sounds.map for a sound.
    pub flags: u32,

    /// File offset in bytes if not stored in tag data.
    pub file_offset: u32,

    /// Unused.
    pub padding: Padding,

    /// Memory address if stored in tag data.
    pub address: Address,
}

impl SimpleTagData for DataC {
    open spec fn spec_simple_size() -> nat {
        20
    }

    /// The address is read from offset 0xC.
    open spec fn spec_read(big: bool, data: Seq<u8>, at: int, struct_end: int) -> RinghopperResult<DataC> {
        match (spec_u32_at(big, data, at), spec_u32_at(big, data, at + 4), spec_u32_at(big, data, at + 8), spec_u32_at(big, data, at + 0xC)) {
            (Err(e), _, _, _) => Err(e),
            (_, Err(e), _, _) => Err(e),
            (_, _, Err(e), _) => Err(e),
            (_, _, _, Err(e)) => Err(e),
            (Ok(size), Ok(flags), Ok(file_offset), Ok(address)) => Ok(DataC {
                size,
                flags,
                file_offset,
                padding: Padding {},
                address: Address { address },
            }),
        }
    }

    open spec fn spec_encode(self, big: bool) -> RinghopperResult<Seq<u8>> {
        Ok(spec_u32_to_bytes(big, self.size) + spec_u32_to_bytes(big, self.flags) + spec_u32_to_bytes(big, self.file_offset)
            + spec_zeros(4) + spec_u32_to_bytes(big, self.address.address))
    }

    fn simple_size() -> (r: usize) {
        20
    }

    fn read<B: ByteOrder>(data: &[u8], at: usize, struct_end: usize) -> (r: RinghopperResult<DataC>) {
        let size = u32::read::<B>(data, at, struct_end)?;
        let flags = u32::read::<B>(data, at + 0x4, struct_end)?;
        let file_offset = u32::read::<B>(data, at + 0x8, struct_end)?;
        let address = Address::read::<B>(data, at + 0xC, struct_end)?;
        Ok(DataC { size, flags, file_offset, address, padding: Padding {} })
    }

    fn write<B: ByteOrder>(&self, data: &mut [u8], at: usize, struct_end: usize) -> (r: RinghopperResult<()>) {
        let ghost d0 = data@;
        let ghost big = B::is_big_endian();
        proof {
            lemma_u32_roundtrip(big, self.size);
            lemma_u32_roundtrip(big, self.flags);
            lemma_u32_roundtrip(big, self.file_offset);
            lemma_u32_roundtrip(big, self.address.address);
        }
        self.size.write::<B>(data, at, struct_end)?;
        self.flags.write::<B>(data, at + 0x4, struct_end)?;
        self.file_offset.write::<B>(data, at + 0x8, struct_end)?;
        Padding::write(4, data, at + 0xC);
        self.address.write::<B>(data, at + 0x10, struct_end)?;
        proof {
            let a = spec_u32_to_bytes(big, self.size);
            let b = spec_u32_to_bytes(big, self.flags);
            let c = spec_u32_to_bytes(big, self.file_offset);
            let z = spec_zeros(4);
            let e = spec_u32_to_bytes(big, self.address.address);
            lemma_splice_concat(d0, at as int, a, b);
            lemma_splice_concat(d0, at as int, a + b, c);
            lemma_splice_concat(d0, at as int, a + b + c, z);
            lemma_splice_concat(d0, at as int, a + b + c + z, e);
        }
        Ok(())
    }
}

/// Lower level C implementation of a reflexive.
///
/// `T` refers to the type of object that the reflexive is supposed to point to.
#[derive(Debug)]
pub struct ReflexiveC<T> {
    /// Number of elements in the reflexive.
    pub count: u32,

    /// Address in tag data of the first element of the reflexive if count > 0.
    pub address: Address,

    /// Unused.
    pub padding: Padding,

    /// Used for identifying the type being referred to.
    pub phantom: PhantomData<T>,
}

impl<T> ReflexiveC<T> {
    /// Convenience function for initializing a `ReflexiveC` instance with `count` and `address`.
    pub fn with_params(count: u32, address: Address) -> (r: ReflexiveC<T>)
        ensures
            r.count == count,
            r.address == address,
    {
        ReflexiveC { count, address, padding: Padding {}, phantom: PhantomData }
    }
}

impl<T> SimpleTagData for ReflexiveC<T> {
    open spec fn spec_simple_size() -> nat {
        12
    }

    open spec fn spec_read(big: bool, data: Seq<u8>, at: int, struct_end: int) -> RinghopperResult<ReflexiveC<T>> {
        match (spec_u32_at(big, data, at), spec_u32_at(big, data, at + 4)) {
            (Err(e), _) => Err(e),
            (_, Err(e)) => Err(e),
            (Ok(count), Ok(address)) => Ok(ReflexiveC { count, address: Address { address }, padding: Padding {}, phantom: PhantomData }),
        }
    }

    open spec fn spec_encode(self, big: bool) -> RinghopperResult<Seq<u8>> {
        Ok(spec_u32_to_bytes(big, self.count) + spec_u32_to_bytes(big, self.address.address) + spec_zeros(4))
    }

    fn simple_size() -> (r: usize) {
        12
    }

    fn read<B: ByteOrder>(data: &[u8], at: usize, struct_end: usize) -> (r: RinghopperResult<ReflexiveC<T>>) {
        let count = u32::read::<B>(data, at, struct_end)?;
        let address = Address::read::<B>(data, at + 0x4, struct_end)?;
        Ok(Self::with_params(count, address))
    }

    fn write<B: ByteOrder>(&self, data: &mut [u8], at: usize, struct_end: usize) -> (r: RinghopperResult<()>) {
        let ghost d0 = data@;
        let ghost big = B::is_big_endian();
        proof {
            lemma_u32_roundtrip(big, self.count);
            lemma_u32_roundtrip(big, self.address.address);
        }
        self.count.write::<B>(data, at, struct_end)?;
        self.address.write::<B>(data, at + 0x4, struct_end)?;
        Padding::write(4, data, at + 0x8);
        proof {
            let a = spec_u32_to_bytes(big, self.count);
            let b = spec_u32_to_bytes(big, self.address.address);
            lemma_splice_concat(d0, at as int, a, b);
            lemma_splice_concat(d0, at as int, a + b, spec_zeros(4));
        }
        Ok(())
    }
}

/// Calculate the amount of padding needed to pad to the next alignment.
pub fn calculate_padding_for_alignment(size: usize, alignment: usize) -> (r: usize)
    requires
        alignment != 0,
    ensures
        r == (alignment - size % alignment) % alignment as int,
        r < alignment,
        (size + r) % alignment as int == 0,
{
    proof {
        vstd::arithmetic::div_mod::lemma_mod_bound(size as int, alignment as int);
        assert((size + (alignment - size % alignment) % alignment as int) % alignment as int == 0) by (nonlinear_arith)
            requires alignment > 0;
    }
    (alignment - (size % alignment)) % alignment
}

/// The header of data with `size` bytes, as written to tag files: only the size is set.
pub open spec fn spec_data_header(size: u32) -> DataC {
    DataC { size, flags: 0, file_offset: 0, padding: Padding {}, address: Address { address: 0 } }
}

/// Reading data from a tag file: the header at `at`, then as many bytes as it says at the extra data cursor.
pub open spec fn spec_read_data_bytes(data: Seq<u8>, at: int, struct_end: int, cursor: int) -> RinghopperResult<(Seq<u8>, int)> {
    match DataC::spec_read(true, data, at, struct_end) {
        Err(e) => Err(e),
        Ok(c) => match spec_fits(c.size as int, cursor, data.len() as int) {
            Err(e) => Err(e),
            Ok(end) => Ok((data.subrange(cursor, end as int), end as int)),
        },
    }
}

/// Writing data to a tag file: its header at `at`, and its bytes at the end.
pub open spec fn spec_write_data_bytes(bytes: Seq<u8>, data: Seq<u8>, at: int) -> RinghopperResult<Seq<u8>> {
    if bytes.len() > u32::MAX {
        Err(Error::ArrayLimitExceeded)
    } else {
        match spec_data_header(bytes.len() as u32).spec_encode(true) {
            Ok(header) => Ok(spec_splice(data, at, header) + bytes),
            Err(e) => Err(e),
        }
    }
}

/// Data written to a tag file reads back from where it was written: its bytes follow what the file held before, so
/// the extra data cursor must start at the end of that.
pub proof fn law_data_roundtrip(bytes: Seq<u8>, data: Seq<u8>, at: int)
    requires
        0 <= at,
        at + 20 <= data.len(),
        bytes.len() <= u32::MAX,
        data.len() + bytes.len() <= usize::MAX,
    ensures
        spec_write_data_bytes(bytes, data, at) matches Ok(d) && spec_read_data_bytes(d, at, at + 20, data.len() as int)
            == Ok::<(Seq<u8>, int), Error>((bytes, (data.len() + bytes.len()) as int)),
{
    let size = bytes.len() as u32;
    let a = spec_u32_to_bytes(true, size);
    let z = spec_u32_to_bytes(true, 0);
    lemma_u32_roundtrip(true, size);
    lemma_u32_roundtrip(true, 0);
    let header = a + z + z + spec_zeros(4) + z;
    assert(spec_data_header(size).spec_encode(true) == Ok::<Seq<u8>, Error>(header));
    let d = spec_splice(data, at, header) + bytes;
    assert(d.subrange(at, at + 4) =~= a);
    assert(d.subrange(at + 4, at + 8) =~= z);
    assert(d.subrange(at + 8, at + 12) =~= z);
    assert(spec_u32_from_bytes(true, d.subrange(at + 12, at + 16)) == 0) by {
        assert(d.subrange(at + 12, at + 16) =~= spec_zeros(4));
        assert(spec_zeros(4) =~= z) by {
            assert(spec_u32_from_bytes(true, z) == 0);
        }
    }
    assert(d.subrange(data.len() as int, (data.len() + bytes.len()) as int) =~= bytes);
}

/// The struct bytes that data of `size` bytes is written to tag files with.
pub open spec fn spec_data_header_bytes(size: u32) -> Seq<u8> {
    spec_u32_to_bytes(true, size) + spec_u32_to_bytes(true, 0) + spec_u32_to_bytes(true, 0) + spec_zeros(4)
        + spec_u32_to_bytes(true, 0)
}

/// Where data with the header `s` at `o` and its bytes `e` at `c` reads back.
proof fn lemma_data_frame_read(bytes: Seq<u8>, x: Seq<u8>, o: int, c: int)
    requires
        bytes.len() <= u32::MAX,
        0 <= o,
        o + 20 <= x.len(),
        0 <= c,
        c + bytes.len() <= x.len(),
        x.len() <= usize::MAX,
        x.subrange(o, o + 20) == spec_data_header_bytes(bytes.len() as u32),
        x.subrange(c, c + bytes.len()) == bytes,
    ensures
        spec_read_data_bytes(x, o, o + 20, c) == Ok::<(Seq<u8>, int), Error>((bytes, c + bytes.len())),
{
    let size = bytes.len() as u32;
    let h = spec_data_header_bytes(size);
    lemma_u32_roundtrip(true, size);
    lemma_u32_roundtrip(true, 0);
    assert(x.subrange(o, o + 4) =~= h.subrange(0, 4));
    assert(x.subrange(o + 4, o + 8) =~= h.subrange(4, 8));
    assert(x.subrange(o + 8, o + 12) =~= h.subrange(8, 12));
    assert(x.subrange(o + 12, o + 16) =~= h.subrange(12, 16));
    assert(h.subrange(0, 4) =~= spec_u32_to_bytes(true, size));
    assert(h.subrange(4, 8) =~= spec_u32_to_bytes(true, 0));
    assert(h.subrange(8, 12) =~= spec_u32_to_bytes(true, 0));
    assert(h.subrange(12, 16) =~= spec_u32_to_bytes(true, 0));
}

/// Data whose length fits a `u32` reads back from a tag file as it was written: its struct holds its length, and its
/// bytes follow as extra data.
pub proof fn law_data_frame(bytes: Seq<u8>)
    requires
        bytes.len() <= u32::MAX,
    ensures
        spec_tag_frame::<Data>(bytes, spec_data_header_bytes(bytes.len() as u32), bytes),
        spec_roundtrips::<Data>(bytes),
{
    let s = spec_data_header_bytes(bytes.len() as u32);
    lemma_u32_roundtrip(true, bytes.len() as u32);
    lemma_u32_roundtrip(true, 0);
    assert(spec_data_header(bytes.len() as u32).spec_encode(true) == Ok::<Seq<u8>, Error>(s));
    assert forall|x: Seq<u8>, o: int, c: int|
        0 <= o && o + s.len() <= x.len() && 0 <= c && c + bytes.len() <= x.len() && x.len() <= usize::MAX && x.subrange(
            o,
            o + s.len(),
        ) == s && x.subrange(c, c + bytes.len()) == bytes implies #[trigger] <Data as TagData>::spec_read_tag(
        x,
        o,
        o + <Data as TagData>::spec_size(),
        c,
    ) == Ok::<(Seq<u8>, int), Error>((bytes, c + bytes.len())) by {
        lemma_data_frame_read(bytes, x, o, c);
    }
    assert(spec_tag_frame::<Data>(bytes, s, bytes));
    assert(spec_tag_frame::<Data>(bytes, (s, bytes).0, (s, bytes).1));
}

/// Read the bytes of data from a tag file.
pub(crate) fn read_data_bytes(data: &[u8], at: usize, struct_end: usize, extra_data_cursor: &mut usize) -> (r: RinghopperResult<Vec<u8>>)
    ensures
        match spec_read_data_bytes(data@, at as int, struct_end as int, *old(extra_data_cursor) as int) {
            Ok((b, c)) => (r matches Ok(v) && v@ == b) && *final(extra_data_cursor) == c,
            Err(e) => r == Err::<Vec<u8>, Error>(e),
        },
{
    let c_primitive = DataC::read_from_tag_file(data, at, struct_end, extra_data_cursor)?;
    let size = c_primitive.size as usize;
    let data_location = *extra_data_cursor;
    let end = fits(size, data_location, data.len())?;
    *extra_data_cursor = end;
    Ok(vstd::slice::slice_to_vec(vstd::slice::slice_subrange(data, data_location, end)))
}

/// Append `bytes` to `data`.
pub(crate) fn append_bytes(data: &mut Vec<u8>, bytes: &[u8])
    ensures
        final(data)@ == old(data)@ + bytes@,
{
    let mut i: usize = 0;
    while i < bytes.len()
        invariant
            i <= bytes@.len(),
            data@ == old(data)@ + bytes@.take(i as int),
        decreases bytes@.len() - i,
    {
        data.push(bytes[i]);
        proof {
            assert(bytes@.take(i + 1) =~= bytes@.take(i as int).push(bytes@[i as int]));
        }
        i = i + 1;
    }
    proof {
        assert(bytes@.take(i as int) =~= bytes@);
    }
}

/// Write the bytes of data to a tag file.
pub(crate) fn write_data_bytes(bytes: &[u8], data: &mut Vec<u8>, at: usize, struct_end: usize) -> (r: RinghopperResult<()>)
    requires
        at + 20 <= old(data)@.len(),
        at + 20 <= struct_end,
    ensures
        final(data)@.len() >= old(data)@.len(),
        match spec_write_data_bytes(bytes@, old(data)@, at as int) {
            Ok(d) => r is Ok && final(data)@ == d,
            Err(e) => r == Err::<(), Error>(e),
        },
{
    let size = match crate::parse::into_u32(bytes.len()) {
        Ok(s) => s,
        Err(e) => return Err(e),
    };
    let header = DataC { size, flags: 0, file_offset: 0, padding: Padding {}, address: Address { address: 0 } };
    header.write_to_tag_file(data, at, struct_end)?;
    append_bytes(data, bytes);
    Ok(())
}

/// Container of bytes for data that isn't structured tag data but is stored in tag data when built into a cache file
/// and uses a memory address pointer.
///
/// The number of bytes cannot exceed [`u32::MAX`] for the data to be stored in a tag file.
#[derive(Clone, Default, PartialEq, Debug)]
pub struct Data {
    pub bytes: Vec<u8>,
}

/// Container of bytes for data that is explicitly stored outside of tag data when built into a cache file and uses a
/// file offset.
///
/// The number of bytes cannot exceed [`u32::MAX`] for the data to be stored in a tag file.
#[derive(Clone, Default, PartialEq, Debug)]
pub struct FileData {
    pub bytes: Vec<u8>,
}

/// Container of bytes for data that is used for storing BSP vertex data.
///
/// The number of bytes cannot exceed [`u32::MAX`] for the data to be stored in a tag file.
#[derive(Clone, Default, PartialEq, Debug)]
pub struct BSPVertexData {
    pub bytes: Vec<u8>,
}

impl Data {
    /// Wrap bytes.
    pub fn new(bytes: Vec<u8>) -> (r: Data)
        ensures
            r.bytes@ == bytes@,
    {
        Data { bytes }
    }
}

impl FileData {
    /// Wrap bytes.
    pub fn new(bytes: Vec<u8>) -> (r: FileData)
        ensures
            r.bytes@ == bytes@,
    {
        FileData { bytes }
    }
}

impl BSPVertexData {
    /// Wrap bytes.
    pub fn new(bytes: Vec<u8>) -> (r: BSPVertexData)
        ensures
            r.bytes@ == bytes@,
    {
        BSPVertexData { bytes }
    }
}

/// Reading the bytes of data from a map: the header gives their address and length in the same domain.
pub open spec fn spec_read_data_from_map(map: MapView, address: int, domain: DomainType) -> Result<Seq<u8>, MapReadError> {
    match spec_read_simple_map::<DataC>(map, address, domain) {
        Err(e) => Err(e),
        Ok(c) => {
            let a = c.address.address as int;
            let length = c.size as int;
            if length == 0 {
                Ok(Seq::empty())
            } else {
                match spec_view_data_at(map, a, domain, length) {
                    Some(b) => Ok(b),
                    None => Err(MapReadError::OutOfBounds("can't read 0x"@ + spec_hex_padded(a as nat, 8) + "[0x"@
                        + spec_decimal_digits(length as nat) + "] bytes from "@ + spec_domain_name(domain))),
                }
            }
        },
    }
}

/// Reading the bytes of file data from a map: the header gives their file offset and length, in the sounds resource
/// map where bit 0 of its flags is set and in the map data otherwise.
pub open spec fn spec_read_file_data_from_map(map: MapView, address: int, domain: DomainType) -> Result<Seq<u8>, MapReadError> {
    match spec_read_simple_map::<DataC>(map, address, domain) {
        Err(e) => Err(e),
        Ok(c) => {
            let a = c.file_offset as int;
            let length = c.size as int;
            let domain_to_use = if (c.flags & 1) != 0 {
                DomainType::ResourceMapFile(ResourceMapType::Sounds)
            } else {
                DomainType::MapData
            };
            if length == 0 {
                Ok(Seq::empty())
            } else {
                match spec_view_data_at(map, a, domain_to_use, length) {
                    Some(b) => Ok(b),
                    None => Err(MapReadError::OutOfBounds("can't read 0x"@ + spec_hex_padded(a as nat, 8) + "["@
                        + spec_hex_padded(length as nat, 8) + "] bytes from "@ + spec_domain_name(domain_to_use))),
                }
            }
        },
    }
}

/// Read the header of data from a map.
fn read_data_header_from_map<M: CacheMap>(map: &M, address: usize, domain_type: &DomainType) -> (r: RinghopperResult<DataC>)
    ensures
        match spec_read_simple_map::<DataC>(spec_map_view(map), address as int, *domain_type) {
            Ok(c) => r == Ok::<DataC, Error>(c),
            Err(e) => r matches Err(x) && spec_map_error_is(x, e),
        },
{
    let r = DataC::read_from_map(map, address, domain_type);
    assert(<DataC as TagData>::spec_read_map(spec_map_view(map), address as int, *domain_type) == spec_read_simple_map::<DataC>(
        spec_map_view(map),
        address as int,
        *domain_type,
    ));
    r
}

/// The message for data of `length` bytes at `address` that is not in a domain.
fn cannot_read_message(address: usize, length: String, domain: &DomainType) -> (r: String)
    ensures
        r@ == "can't read 0x"@ + spec_hex_padded(address as nat, 8) + length@ + "] bytes from "@ + spec_domain_name(*domain),
{
    let mut m = "can't read 0x".to_owned();
    m.append(format_hex(address, 8).as_str());
    m.append(length.as_str());
    m.append("] bytes from ");
    m.append(domain.name().as_str());
    m
}

/// Read the bytes of data from a map.
pub(crate) fn read_data_from_map<M: CacheMap>(map: &M, address: usize, domain_type: &DomainType) -> (r: RinghopperResult<Vec<u8>>)
    ensures
        match spec_read_data_from_map(spec_map_view(map), address as int, *domain_type) {
            Ok(b) => r matches Ok(v) && v@ == b,
            Err(e) => r matches Err(x) && spec_map_error_is(x, e),
        },
{
    let c = match read_data_header_from_map(map, address, domain_type) {
        Ok(c) => c,
        Err(e) => return Err(e),
    };
    let data_address = c.address.address as usize;
    let length = c.size as usize;
    if length == 0 {
        return Ok(Vec::new());
    }
    proof {
        lemma_view_data_at(map, data_address as int, *domain_type, length as int);
    }
    match map.get_data_at_address(data_address, domain_type, length) {
        Some(n) => Ok(vstd::slice::slice_to_vec(n)),
        None => {
            let mut l = "[0x".to_owned();
            l.append(format_decimal(length).as_str());
            let m = cannot_read_message(data_address, l, domain_type);
            assert(m@ =~= "can't read 0x"@ + spec_hex_padded(data_address as nat, 8) + "[0x"@ + spec_decimal_digits(
                length as nat,
            ) + "] bytes from "@ + spec_domain_name(*domain_type));
            Err(Error::MapDataOutOfBounds(m))
        },
    }
}

/// Read the bytes of file data from a map.
fn read_file_data_from_map<M: CacheMap>(map: &M, address: usize, domain_type: &DomainType) -> (r: RinghopperResult<Vec<u8>>)
    ensures
        match spec_read_file_data_from_map(spec_map_view(map), address as int, *domain_type) {
            Ok(b) => r matches Ok(v) && v@ == b,
            Err(e) => r matches Err(x) && spec_map_error_is(x, e),
        },
{
    let c = match read_data_header_from_map(map, address, domain_type) {
        Ok(c) => c,
        Err(e) => return Err(e),
    };
    let data_address = c.file_offset as usize;
    let length = c.size as usize;
    if length == 0 {
        return Ok(Vec::new());
    }
    // If in a sounds.map file
    let domain_to_use = if (c.flags & 1) != 0 {
        DomainType::ResourceMapFile(ResourceMapType::Sounds)
    } else {
        DomainType::MapData
    };
    proof {
        lemma_view_data_at(map, data_address as int, domain_to_use, length as int);
    }
    match map.get_data_at_address(data_address, &domain_to_use, length) {
        Some(n) => Ok(vstd::slice::slice_to_vec(n)),
        None => {
            let mut l = "[".to_owned();
            l.append(format_hex(length, 8).as_str());
            let m = cannot_read_message(data_address, l, &domain_to_use);
            assert(m@ =~= "can't read 0x"@ + spec_hex_padded(data_address as nat, 8) + "["@ + spec_hex_padded(length as nat, 8)
                + "] bytes from "@ + spec_domain_name(domain_to_use));
            Err(Error::MapDataOutOfBounds(m))
        },
    }
}

/// The message for BSP vertex data (`what`: combined, render or lightmap) of `length` bytes at `address` that is not
/// in a map.
pub open spec fn spec_bsp_vertices_message(what: Seq<char>, address: int, length: int, domain: DomainType) -> Seq<char> {
    "can't read "@ + what + " BSP vertex data 0x"@ + spec_hex_padded(address as nat, 8) + "[0x"@ + spec_decimal_digits(
        length as nat,
    ) + "] bytes from "@ + spec_domain_name(domain)
}

/// Reading BSP vertex data from a map.
///
/// Nothing is read where the engine's models are not compressed as `compressed` says. Otherwise the header at
/// `address` is read, and the rendered vertices (32 bytes each if compressed, 56 otherwise) and lightmap vertices (8
/// bytes each if compressed, 20 otherwise) follow one another at the address it gives, in the same domain. Where the
/// engine keeps BSPs outside the map and that address is zero, the two are read instead from the BSP's vertices, at
/// the offsets given.
pub open spec fn spec_read_bsp_vertices(
    map: MapView,
    address: int,
    domain: DomainType,
    compressed: bool,
    rendered_count: int,
    rendered_offset: int,
    lightmap_count: int,
    lightmap_offset: int,
) -> Result<Seq<u8>, MapReadError> {
    if map.engine.compressed_models != compressed {
        Ok(Seq::empty())
    } else {
        match spec_read_simple_map::<DataC>(map, address, domain) {
            Err(e) => Err(e),
            Ok(c) => {
                let p_address = c.address.address as int;
                let p_length = c.size as int;
                let rendered_size = rendered_count * (if compressed { 32int } else { 56int });
                let lightmap_size = lightmap_count * (if compressed { 8int } else { 20int });
                if rendered_size > usize::MAX || lightmap_size > usize::MAX || rendered_size + lightmap_size > usize::MAX {
                    Err(MapReadError::Failed(Error::SizeLimitExceeded))
                } else if !map.engine.external_bsps || p_address != 0 {
                    match spec_view_data_at(map, p_address, domain, rendered_size + lightmap_size) {
                        Some(b) => Ok(b),
                        None => Err(MapReadError::OutOfBounds(
                            spec_bsp_vertices_message("combined"@, address, p_length, domain),
                        )),
                    }
                } else {
                    let vertices = DomainType::BSPVertices(domain->BSP_0);
                    match spec_view_data_at(map, rendered_offset, vertices, rendered_size) {
                        None => Err(MapReadError::OutOfBounds(
                            spec_bsp_vertices_message("render"@, rendered_offset, rendered_size, domain),
                        )),
                        Some(rendered) => match spec_view_data_at(map, lightmap_offset, vertices, lightmap_size) {
                            None => Err(MapReadError::OutOfBounds(
                                spec_bsp_vertices_message("lightmap"@, lightmap_offset, lightmap_size, domain),
                            )),
                            Some(lightmap) => Ok(rendered + lightmap),
                        },
                    }
                }
            },
        }
    }
}

/// The message for BSP vertex data that is not in a map.
fn bsp_vertices_message(what: &str, address: usize, length: usize, domain: &DomainType) -> (r: String)
    ensures
        r@ == spec_bsp_vertices_message(what@, address as int, length as int, *domain),
{
    let mut m = "can't read ".to_owned();
    m.append(what);
    m.append(" BSP vertex data 0x");
    m.append(format_hex(address, 8).as_str());
    m.append("[0x");
    m.append(format_decimal(length).as_str());
    m.append("] bytes from ");
    m.append(domain.name().as_str());
    m
}

impl BSPVertexData {
    /// Read BSP vertex data from a map, given the counts of rendered and lightmap vertices and, for engines that keep
    /// BSPs outside the map, their offsets in the BSP's vertices.
    ///
    /// `domain_type` is the BSP's domain.
    pub fn read_from_map_with_offset<M: CacheMap>(
        map: &M,
        address: usize,
        domain_type: &DomainType,
        compressed: bool,
        rendered_count: usize,
        rendered_offset: usize,
        lightmap_count: usize,
        lightmap_offset: usize,
    ) -> (r: RinghopperResult<BSPVertexData>)
        requires
            map.spec_engine().compressed_models == compressed && spec_read_simple_map::<DataC>(
                spec_map_view(map),
                address as int,
                *domain_type,
            ) is Ok ==> domain_type is BSP,
        ensures
            match spec_read_bsp_vertices(
                spec_map_view(map),
                address as int,
                *domain_type,
                compressed,
                rendered_count as int,
                rendered_offset as int,
                lightmap_count as int,
                lightmap_offset as int,
            ) {
                Ok(b) => r matches Ok(v) && v.bytes@ == b,
                Err(e) => r matches Err(x) && spec_map_error_is(x, e),
            },
    {
        if map.get_engine().compressed_models != compressed {
            return Ok(BSPVertexData { bytes: Vec::new() });
        }
        let c_primitive = match read_data_header_from_map(map, address, domain_type) {
            Ok(c) => c,
            Err(e) => return Err(e),
        };
        let p_address = c_primitive.address.address as usize;
        let p_length = c_primitive.size as usize;
        let bsp = match domain_type {
            DomainType::BSP(bsp) => *bsp,
            _ => {
                proof {
                    assert(false);
                }
                return Ok(BSPVertexData { bytes: Vec::new() });
            },
        };
        let rendered_size = rendered_count.mul_overflow_checked(if compressed { 32 } else { 56 })?;
        let lightmap_size = lightmap_count.mul_overflow_checked(if compressed { 8 } else { 20 })?;
        let total_size = rendered_size.add_overflow_checked(lightmap_size)?;
        let mut data: Vec<u8> = Vec::new();
        if !map.get_engine().external_bsps || p_address != 0 {
            proof {
                lemma_view_data_at(map, p_address as int, *domain_type, total_size as int);
            }
            match map.get_data_at_address(p_address, domain_type, total_size) {
                Some(n) => append_bytes(&mut data, n),
                None => {
                    return Err(
                        Error::MapDataOutOfBounds(bsp_vertices_message("combined", address, p_length, domain_type)),
                    )
                },
            }
        } else {
            let vertices = DomainType::BSPVertices(bsp);
            proof {
                lemma_view_data_at(map, rendered_offset as int, vertices, rendered_size as int);
                lemma_view_data_at(map, lightmap_offset as int, vertices, lightmap_size as int);
            }
            let rendered_data = match map.get_data_at_address(rendered_offset, &vertices, rendered_size) {
                Some(n) => n,
                None => {
                    return Err(
                        Error::MapDataOutOfBounds(
                            bsp_vertices_message("render", rendered_offset, rendered_size, domain_type),
                        ),
                    )
                },
            };
            let lightmap_data = match map.get_data_at_address(lightmap_offset, &vertices, lightmap_size) {
                Some(n) => n,
                None => {
                    return Err(
                        Error::MapDataOutOfBounds(
                            bsp_vertices_message("lightmap", lightmap_offset, lightmap_size, domain_type),
                        ),
                    )
                },
            };
            append_bytes(&mut data, rendered_data);
            append_bytes(&mut data, lightmap_data);
        }
        Ok(BSPVertexData { bytes: data })
    }
}

impl TagData for Data {
    type Model = Seq<u8>;

    open spec fn spec_read_map(map: MapView, address: int, domain: DomainType) -> Result<Seq<u8>, MapReadError> {
        spec_read_data_from_map(map, address, domain)
    }

    open spec fn spec_model(&self) -> Seq<u8> {
        self.bytes@
    }

    open spec fn spec_size() -> nat {
        20
    }

    open spec fn spec_read_tag(data: Seq<u8>, at: int, struct_end: int, cursor: int) -> RinghopperResult<(Seq<u8>, int)> {
        spec_read_data_bytes(data, at, struct_end, cursor)
    }

    open spec fn spec_write_tag(model: Seq<u8>, data: Seq<u8>, at: int, struct_end: int) -> RinghopperResult<Seq<u8>> {
        spec_write_data_bytes(model, data, at)
    }

    fn size() -> (r: usize) {
        20
    }

    fn read_from_tag_file(data: &[u8], at: usize, struct_end: usize, extra_data_cursor: &mut usize) -> (r: RinghopperResult<Data>) {
        Ok(Data { bytes: read_data_bytes(data, at, struct_end, extra_data_cursor)? })
    }

    fn write_to_tag_file(&self, data: &mut Vec<u8>, at: usize, struct_end: usize) -> (r: RinghopperResult<()>) {
        write_data_bytes(self.bytes.as_slice(), data, at, struct_end)
    }

    fn read_from_map<M: CacheMap>(map: &M, address: usize, domain_type: &DomainType) -> (r: RinghopperResult<Data>) {
        Ok(Data { bytes: read_data_from_map(map, address, domain_type)? })
    }
}

impl TagData for FileData {
    type Model = Seq<u8>;

    open spec fn spec_read_map(map: MapView, address: int, domain: DomainType) -> Result<Seq<u8>, MapReadError> {
        spec_read_file_data_from_map(map, address, domain)
    }

    open spec fn spec_model(&self) -> Seq<u8> {
        self.bytes@
    }

    open spec fn spec_size() -> nat {
        20
    }

    open spec fn spec_read_tag(data: Seq<u8>, at: int, struct_end: int, cursor: int) -> RinghopperResult<(Seq<u8>, int)> {
        spec_read_data_bytes(data, at, struct_end, cursor)
    }

    open spec fn spec_write_tag(model: Seq<u8>, data: Seq<u8>, at: int, struct_end: int) -> RinghopperResult<Seq<u8>> {
        spec_write_data_bytes(model, data, at)
    }

    fn size() -> (r: usize) {
        20
    }

    fn read_from_tag_file(data: &[u8], at: usize, struct_end: usize, extra_data_cursor: &mut usize) -> (r: RinghopperResult<FileData>) {
        Ok(FileData { bytes: read_data_bytes(data, at, struct_end, extra_data_cursor)? })
    }

    fn write_to_tag_file(&self, data: &mut Vec<u8>, at: usize, struct_end: usize) -> (r: RinghopperResult<()>) {
        write_data_bytes(self.bytes.as_slice(), data, at, struct_end)
    }

    fn read_from_map<M: CacheMap>(map: &M, address: usize, domain_type: &DomainType) -> (r: RinghopperResult<FileData>) {
        Ok(FileData { bytes: read_file_data_from_map(map, address, domain_type)? })
    }
}

impl TagData for BSPVertexData {
    type Model = Seq<u8>;

    open spec fn spec_read_map(map: MapView, address: int, domain: DomainType) -> Result<Seq<u8>, MapReadError> {
        Err(MapReadError::Other(
            "read_from_map is unimplemented for BSP vertex data; use read_from_map_with_offset instead"@,
        ))
    }

    open spec fn spec_model(&self) -> Seq<u8> {
        self.bytes@
    }

    open spec fn spec_size() -> nat {
        20
    }

    open spec fn spec_read_tag(data: Seq<u8>, at: int, struct_end: int, cursor: int) -> RinghopperResult<(Seq<u8>, int)> {
        spec_read_data_bytes(data, at, struct_end, cursor)
    }

    open spec fn spec_write_tag(model: Seq<u8>, data: Seq<u8>, at: int, struct_end: int) -> RinghopperResult<Seq<u8>> {
        spec_write_data_bytes(model, data, at)
    }

    fn size() -> (r: usize) {
        20
    }

    fn read_from_tag_file(data: &[u8], at: usize, struct_end: usize, extra_data_cursor: &mut usize) -> (r: RinghopperResult<BSPVertexData>) {
        Ok(BSPVertexData { bytes: read_data_bytes(data, at, struct_end, extra_data_cursor)? })
    }

    fn write_to_tag_file(&self, data: &mut Vec<u8>, at: usize, struct_end: usize) -> (r: RinghopperResult<()>) {
        write_data_bytes(self.bytes.as_slice(), data, at, struct_end)
    }

    /// BSP vertex data cannot be read on its own: [`BSPVertexData::read_from_map_with_offset`] reads it.
    fn read_from_map<M: CacheMap>(map: &M, address: usize, domain_type: &DomainType) -> (r: RinghopperResult<BSPVertexData>) {
        Err(Error::Other(
            "read_from_map is unimplemented for BSP vertex data; use read_from_map_with_offset instead".to_owned(),
        ))
    }
}

} // verus!
