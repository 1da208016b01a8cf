//! Byte planes of the deterministic host reference representation for the
//! research-only DA-LUC KV contract.
//!
//! A plane is a little byte buffer holding a stream of logical bits followed by
//! byte-tail padding bits and zero-filled alignment padding. Packed integer
//! planes store fixed-width fields back to back in that stream, in the
//! contract's bit order. This is an oracle and evidence surface only: it does
//! not define a runtime backend layout, train codebooks or dispatch GPU work.
use crate::arith::is_power_of_two;
use crate::research_da_luc::{
    DalucBitOrder, DalucCodebookScope, DalucRowOrder, DalucStorageTopology, DalucFloatDType, DalucKvViewContract, DalucKvViewError,
    DalucPaddingRule, DalucResidualIndexing, DalucResidualSemantics, DalucValueRepresentation,
    DalucZeroPointStorage,
};
use vstd::arithmetic::div_mod::{lemma_fundamental_div_mod, lemma_fundamental_div_mod_converse};
use vstd::prelude::*;

verus! {

/// Version of the host-only deterministic oracle payload semantics.
pub const DA_LUC_ORACLE_PAYLOAD_VERSION: u16 = 1;

/// One byte-backed oracle plane.
///
/// `logical_bits` excludes byte-tail and alignment padding. `bytes` includes both.
#[derive(Debug, PartialEq, Eq)]
pub struct DalucOraclePlane {
    bytes: Vec<u8>,
    logical_bits: usize,
    alignment_padding_bytes: usize,
}

#[derive(Debug, Clone, PartialEq, Eq)]
#[non_exhaustive]
pub enum DalucOracleError {
    Contract(DalucKvViewError),
    UnsupportedPayloadVersion { actual: u16, supported: u16 },
    LengthMismatch { what: &'static str, expected: usize, actual: usize },
    NonFinite { what: &'static str, index: usize },
    ArithmeticOverflow(&'static str),
    MalformedPayload(&'static str),
    InvalidPageTable(&'static str),
    ScaleUnderflow { row: usize, group: usize },
}

/// Bytes needed to hold `bits` bits.
pub open spec fn bytes_for_bits_spec(bits: int) -> int {
    (bits + 7) / 8
}

/// `value` rounded up to a multiple of `alignment`.
pub open spec fn round_up(value: int, alignment: int) -> int {
    ((value + alignment - 1) / alignment) * alignment
}

impl DalucOraclePlane {
    #[verifier::type_invariant]
    spec fn well_formed(self) -> bool {
        &&& self.logical_bits + 7 <= usize::MAX
        &&& self.bytes@.len() == bytes_for_bits_spec(self.logical_bits as int)
            + self.alignment_padding_bytes
    }

    pub closed spec fn spec_bytes(self) -> Seq<u8> {
        self.bytes@
    }

    pub closed spec fn spec_logical_bits(self) -> usize {
        self.logical_bits
    }

    pub closed spec fn spec_alignment_padding_bytes(self) -> usize {
        self.alignment_padding_bytes
    }

    pub fn bytes(&self) -> (bytes: &[u8])
        ensures
            bytes@ == self.spec_bytes(),
            self.spec_bytes().len() == bytes_for_bits_spec(self.spec_logical_bits() as int)
                + self.spec_alignment_padding_bytes(),
            self.spec_logical_bits() + 7 <= usize::MAX,
    {
        proof {
            use_type_invariant(self);
        }
        self.bytes.as_slice()
    }

    pub fn logical_bits(&self) -> (bits: usize)
        ensures
            bits == self.spec_logical_bits(),
    {
        self.logical_bits
    }

    pub fn logical_bytes(&self) -> (bytes: usize)
        ensures
            bytes == bytes_for_bits_spec(self.spec_logical_bits() as int),
    {
        proof {
            use_type_invariant(self);
        }
        (self.logical_bits + 7) / 8
    }

    pub fn alignment_padding_bytes(&self) -> (bytes: usize)
        ensures
            bytes == self.spec_alignment_padding_bytes(),
    {
        self.alignment_padding_bytes
    }

    /// Padding bits in the last logical byte.
    pub fn byte_tail_padding_bits(&self) -> (bits: usize)
        ensures
            bits == bytes_for_bits_spec(self.spec_logical_bits() as int) * 8
                - self.spec_logical_bits(),
    {
        proof {
            use_type_invariant(self);
        }
        self.logical_bytes() * 8 - self.logical_bits
    }

    pub fn total_bytes(&self) -> (bytes: usize)
        ensures
            bytes == self.spec_bytes().len(),
    {
        self.bytes.len()
    }

    /// The plane of an absent payload.
    pub fn empty() -> (plane: Self)
        ensures
            plane.spec_bytes().len() == 0,
            plane.spec_logical_bits() == 0,
            plane.spec_alignment_padding_bytes() == 0,
    {
        Self { bytes: Vec::new(), logical_bits: 0, alignment_padding_bytes: 0 }
    }
}

impl Clone for DalucOraclePlane {
    fn clone(&self) -> (copy: Self)
        ensures
            copy.spec_bytes() == self.spec_bytes(),
            copy.spec_logical_bits() == self.spec_logical_bits(),
            copy.spec_alignment_padding_bytes() == self.spec_alignment_padding_bytes(),
    {
        proof {
            use_type_invariant(self);
        }
        let bytes = self.bytes.clone();
        proof {
            assert(bytes@ =~= self.bytes@);
        }
        Self {
            bytes,
            logical_bits: self.logical_bits,
            alignment_padding_bytes: self.alignment_padding_bytes,
        }
    }
}

pub open spec fn bytes_for_bits_rule(bits: usize) -> Result<usize, DalucOracleError> {
    if bits == 0 {
        Ok(0)
    } else if bits + 7 > usize::MAX {
        Err(DalucOracleError::ArithmeticOverflow("bits to bytes"))
    } else {
        Ok(bytes_for_bits_spec(bits as int) as usize)
    }
}

fn bytes_for_bits(bits: usize) -> (r: Result<usize, DalucOracleError>)
    ensures
        r == bytes_for_bits_rule(bits),
{
    if bits == 0 {
        return Ok(0);
    }
    match bits.checked_add(7) {
        Some(v) => Ok(v / 8),
        None => Err(DalucOracleError::ArithmeticOverflow("bits to bytes")),
    }
}

pub open spec fn align_up_rule(value: usize, alignment: usize) -> Result<usize, DalucOracleError> {
    if value + (alignment - 1) > usize::MAX {
        Err(DalucOracleError::ArithmeticOverflow("alignment"))
    } else {
        Ok(round_up(value as int, alignment as int) as usize)
    }
}

fn align_up(value: usize, alignment: usize) -> (r: Result<usize, DalucOracleError>)
    requires
        alignment > 0,
        is_power_of_two(alignment as int),
    ensures
        r == align_up_rule(value, alignment),
{
    match value.checked_add(alignment - 1) {
        Some(v) => {
            proof {
                assert((v / alignment) * alignment == v - v % alignment) by (nonlinear_arith)
                    requires
                        alignment > 0,
                {
                }
            }
            Ok(v - v % alignment)
        },
        None => Err(DalucOracleError::ArithmeticOverflow("alignment")),
    }
}

/// Contracts whose zero-filled padding aligns to a non-zero power of two.
pub open spec fn alignment_is_power_of_two(contract: DalucKvViewContract) -> bool {
    contract.layout.plane_alignment_bytes > 0 && is_power_of_two(
        contract.layout.plane_alignment_bytes as int,
    )
}

/// Alignment padding that follows `logical_bytes` bytes of a plane.
pub open spec fn padding_rule(contract: DalucKvViewContract, logical_bytes: usize) -> Result<
    usize,
    DalucOracleError,
> {
    match contract.layout.padding {
        DalucPaddingRule::NoPadding => Ok(0),
        DalucPaddingRule::ZeroFilledToAlignment => if logical_bytes == 0 {
            Ok(0)
        } else {
            match align_up_rule(logical_bytes, contract.layout.plane_alignment_bytes) {
                Ok(aligned) => Ok((aligned - logical_bytes) as usize),
                Err(e) => Err(e),
            }
        },
    }
}

pub(crate) fn padding_bytes(contract: DalucKvViewContract, logical_bytes: usize) -> (r: Result<
    usize,
    DalucOracleError,
>)
    requires
        alignment_is_power_of_two(contract),
    ensures
        r == padding_rule(contract, logical_bytes),
        r matches Ok(p) ==> logical_bytes + p <= usize::MAX,
{
    match contract.layout.padding {
        DalucPaddingRule::NoPadding => Ok(0),
        DalucPaddingRule::ZeroFilledToAlignment => {
            if logical_bytes == 0 {
                Ok(0)
            } else {
                let aligned = align_up(logical_bytes, contract.layout.plane_alignment_bytes)?;
                proof {
                    let a = contract.layout.plane_alignment_bytes as int;
                    let v = logical_bytes + a - 1;
                    assert(logical_bytes <= round_up(logical_bytes as int, a) <= v) by (nonlinear_arith)
                        requires
                            a > 0,
                            v == logical_bytes + a - 1,
                            round_up(logical_bytes as int, a) == (v / a) * a,
                    {
                        assert(v == (v / a) * a + v % a);
                    }
                }
                Ok(aligned - logical_bytes)
            }
        },
    }
}

pub open spec fn length_rule(what: &'static str, actual: usize, expected: usize) -> Result<
    (),
    DalucOracleError,
> {
    if actual != expected {
        Err(DalucOracleError::LengthMismatch { what, expected, actual })
    } else {
        Ok(())
    }
}

fn require_len(what: &'static str, actual: usize, expected: usize) -> (r: Result<
    (),
    DalucOracleError,
>)
    ensures
        r == length_rule(what, actual, expected),
{
    if actual != expected {
        return Err(DalucOracleError::LengthMismatch { what, expected, actual });
    }
    Ok(())
}

/// Mask of the low `bits` bits, for widths 1..=32.
pub open spec fn width_mask_rule(bits: u8) -> Result<u32, DalucOracleError> {
    if 1 <= bits <= 31 {
        Ok(((1u32 << bits) - 1) as u32)
    } else if bits == 32 {
        Ok(u32::MAX)
    } else {
        Err(DalucOracleError::MalformedPayload("packed width outside 1..=32"))
    }
}

fn bit_mask(bits: u8) -> (r: Result<u32, DalucOracleError>)
    ensures
        r == width_mask_rule(bits),
{
    if 1 <= bits && bits <= 31 {
        assert(1u32 << bits >= 1) by (bit_vector)
            requires
                1 <= bits <= 31,
        ;
        Ok((1u32 << bits) - 1)
    } else if bits == 32 {
        Ok(u32::MAX)
    } else {
        Err(DalucOracleError::MalformedPayload("packed width outside 1..=32"))
    }
}

// ---------------------------------------------------------------------------
// Bit streams and packed integer fields.
// ---------------------------------------------------------------------------

/// Position inside its byte of stream bit `within` (0..8) of a byte.
pub open spec fn bit_position(within: int, order: DalucBitOrder) -> int {
    match order {
        DalucBitOrder::Lsb0 => within,
        DalucBitOrder::Msb0 => 7 - within,
    }
}

/// Stream bit `s` of `bytes`: bit `s % 8` of byte `s / 8`, counted in `order`.
pub open spec fn stream_bit(bytes: Seq<u8>, s: int, order: DalucBitOrder) -> bool {
    (bytes[s / 8] >> (bit_position(s % 8, order) as u8)) & 1u8 == 1u8
}

/// Bit `k` of `v`, least significant first.
pub open spec fn u32_bit(v: u32, k: int) -> bool {
    (v >> (k as u32)) & 1u32 == 1u32
}

/// Value bit held by the `b`-th stream bit of a `width`-bit field: the least
/// significant bit first for `Lsb0`, the most significant first for `Msb0`.
pub open spec fn source_bit(b: int, width: int, order: DalucBitOrder) -> int {
    match order {
        DalucBitOrder::Lsb0 => b,
        DalucBitOrder::Msb0 => width - 1 - b,
    }
}

/// Stream bit `s` of `values` packed back to back in `width`-bit fields.
pub open spec fn packed_bit(values: Seq<u32>, width: int, order: DalucBitOrder, s: int) -> bool {
    0 <= s < values.len() * width && u32_bit(values[s / width], source_bit(s % width, width, order))
}

/// `plane` is `values` packed in `width`-bit fields with `contract`'s padding:
/// every bit of every byte is the packed bit there, zero past the fields.
pub open spec fn packs(
    plane: DalucOraclePlane,
    contract: DalucKvViewContract,
    values: Seq<u32>,
    width: u8,
    order: DalucBitOrder,
) -> bool {
    let bits = values.len() * width;
    &&& plane.spec_logical_bits() == bits
    &&& padding_rule(contract, bytes_for_bits_spec(bits) as usize) == Ok::<usize, DalucOracleError>(
        plane.spec_alignment_padding_bytes(),
    )
    &&& plane.spec_bytes().len() == bytes_for_bits_spec(bits) + plane.spec_alignment_padding_bytes()
    &&& forall|s: int|
        0 <= s < 8 * plane.spec_bytes().len() ==> #[trigger] stream_bit(plane.spec_bytes(), s, order)
            == packed_bit(values, width as int, order, s)
}

/// Why `values` cannot be packed in `width`-bit fields, first failure first.
pub open spec fn pack_rule(
    contract: DalucKvViewContract,
    values: Seq<u32>,
    width: u8,
    order: DalucBitOrder,
) -> Result<(), DalucOracleError> {
    let bits = values.len() * width;
    if bits > usize::MAX {
        Err(DalucOracleError::ArithmeticOverflow("packed integer bits"))
    } else if bytes_for_bits_rule(bits as usize) is Err {
        Err(bytes_for_bits_rule(bits as usize)->Err_0)
    } else if width_mask_rule(width) is Err {
        Err(width_mask_rule(width)->Err_0)
    } else if exists|i: int| 0 <= i < values.len() && #[trigger] values[i] > width_mask_rule(width)->Ok_0 {
        Err(DalucOracleError::MalformedPayload("integer exceeds packed width"))
    } else if padding_rule(contract, bytes_for_bits_spec(bits) as usize) is Err {
        Err(padding_rule(contract, bytes_for_bits_spec(bits) as usize)->Err_0)
    } else {
        Ok(())
    }
}

/// The `width`-bit field starting at stream bit `start`, built from its low
/// `n` value bits.
pub open spec fn packed_field(
    bytes: Seq<u8>,
    start: int,
    width: int,
    order: DalucBitOrder,
    n: int,
) -> u32
    decreases n,
{
    if n <= 0 {
        0
    } else {
        let low = packed_field(bytes, start, width, order, n - 1);
        if stream_bit(bytes, start + source_bit(n - 1, width, order), order) {
            low | (1u32 << ((n - 1) as u32))
        } else {
            low
        }
    }
}

/// Field `index` of a plane of `width`-bit fields, or why it cannot be read.
pub open spec fn unpack_rule(plane: DalucOraclePlane, index: usize, width: u8, order: DalucBitOrder) -> Result<
    u32,
    DalucOracleError,
> {
    let start = index * width;
    if start > usize::MAX {
        Err(DalucOracleError::ArithmeticOverflow("packed integer offset"))
    } else if start + width > usize::MAX {
        Err(DalucOracleError::ArithmeticOverflow("packed integer end"))
    } else if start + width > plane.spec_logical_bits() {
        Err(DalucOracleError::MalformedPayload("packed integer read out of range"))
    } else {
        Ok(packed_field(plane.spec_bytes(), start, width as int, order, width as int))
    }
}

proof fn lemma_byte_bit_update(byte: u8, bit: u8, k: u8, value: bool)
    requires
        bit < 8,
        k < 8,
    ensures
        (((if value {
            byte | (1u8 << bit)
        } else {
            byte & !(1u8 << bit)
        }) >> k) & 1u8 == 1u8) == (if k == bit {
            value
        } else {
            (byte >> k) & 1u8 == 1u8
        }),
{
    if value {
        assert((((byte | (1u8 << bit)) >> k) & 1u8 == 1u8) == (if k == bit {
            true
        } else {
            (byte >> k) & 1u8 == 1u8
        })) by (bit_vector)
            requires
                bit < 8,
                k < 8,
        ;
    } else {
        assert((((byte & !(1u8 << bit)) >> k) & 1u8 == 1u8) == (if k == bit {
            false
        } else {
            (byte >> k) & 1u8 == 1u8
        })) by (bit_vector)
            requires
                bit < 8,
                k < 8,
        ;
    }
}

/// Set bit `position` of a bit stream read in `order` to `value`.
pub fn set_stream_bit(bytes: &mut Vec<u8>, position: usize, order: DalucBitOrder, value: bool) -> (r:
    Result<(), DalucOracleError>)
    ensures
        final(bytes)@.len() == old(bytes)@.len(),
        position / 8 >= old(bytes)@.len() ==> r == Err::<(), DalucOracleError>(
            DalucOracleError::MalformedPayload("bit write out of range"),
        ) && final(bytes)@ == old(bytes)@,
        position / 8 < old(bytes)@.len() ==> r is Ok && forall|t: int|
            0 <= t < 8 * old(bytes)@.len() ==> #[trigger] stream_bit(final(bytes)@, t, order) == if t
                == position {
                value
            } else {
                stream_bit(old(bytes)@, t, order)
            },
{
    let byte_index = position / 8;
    let within = position % 8;
    if byte_index >= bytes.len() {
        return Err(DalucOracleError::MalformedPayload("bit write out of range"));
    }
    let bit: u8 = match order {
        DalucBitOrder::Lsb0 => within as u8,
        DalucBitOrder::Msb0 => (7 - within) as u8,
    };
    let byte = bytes[byte_index];
    let updated = if value {
        byte | (1u8 << bit)
    } else {
        byte & !(1u8 << bit)
    };
    bytes.set(byte_index, updated);
    proof {
        assert forall|t: int| 0 <= t < 8 * old(bytes)@.len() implies #[trigger] stream_bit(
            bytes@,
            t,
            order,
        ) == if t == position {
            value
        } else {
            stream_bit(old(bytes)@, t, order)
        } by {
            if t / 8 == byte_index {
                lemma_byte_bit_update(byte, bit, bit_position(t % 8, order) as u8, value);
            }
        }
    }
    Ok(())
}

/// Bit `position` of a plane's logical bit stream read in `order`.
pub fn get_stream_bit(plane: &DalucOraclePlane, position: usize, order: DalucBitOrder) -> (r: Result<
    bool,
    DalucOracleError,
>)
    ensures
        position >= plane.spec_logical_bits() ==> r == Err::<bool, DalucOracleError>(
            DalucOracleError::MalformedPayload("bit read out of range"),
        ),
        position < plane.spec_logical_bits() ==> r == Ok::<bool, DalucOracleError>(
            stream_bit(plane.spec_bytes(), position as int, order),
        ),
{
    proof {
        use_type_invariant(plane);
    }
    if position >= plane.logical_bits {
        return Err(DalucOracleError::MalformedPayload("bit read out of range"));
    }
    let byte = plane.bytes[position / 8];
    let within = position % 8;
    let bit: u8 = match order {
        DalucBitOrder::Lsb0 => within as u8,
        DalucBitOrder::Msb0 => (7 - within) as u8,
    };
    Ok((byte >> bit) & 1 == 1)
}

proof fn lemma_zero_byte_bits(k: u8)
    requires
        k < 8,
    ensures
        (0u8 >> k) & 1u8 == 0u8,
{
    assert((0u8 >> k) & 1u8 == 0u8) by (bit_vector);
}

/// A plane whose logical bits are all of `raw`'s bytes, with the contract's
/// alignment padding.
pub fn finalize_byte_plane(contract: DalucKvViewContract, raw: Vec<u8>) -> (r: Result<
    DalucOraclePlane,
    DalucOracleError,
>)
    requires
        alignment_is_power_of_two(contract),
    ensures
        raw@.len() * 8 > usize::MAX ==> r == Err::<DalucOraclePlane, DalucOracleError>(
            DalucOracleError::ArithmeticOverflow("byte plane bits"),
        ),
        raw@.len() * 8 <= usize::MAX ==> match bytes_for_bits_rule((raw@.len() * 8) as usize) {
            Err(e) => r == Err::<DalucOraclePlane, DalucOracleError>(e),
            Ok(logical_bytes) => match padding_rule(contract, logical_bytes) {
                Err(e) => r == Err::<DalucOraclePlane, DalucOracleError>(e),
                Ok(padding) => r matches Ok(plane) && plane.spec_logical_bits() == raw@.len() * 8
                    && plane.spec_alignment_padding_bytes() == padding
                    && plane.spec_bytes().len() == logical_bytes + padding
                    && plane.spec_bytes().subrange(0, logical_bytes as int) == raw@
                    && forall|j: int|
                    logical_bytes <= j < logical_bytes + padding ==> #[trigger] plane.spec_bytes()[j]
                        == 0u8,
            },
        },
{
    let logical_bits = match raw.len().checked_mul(8) {
        Some(v) => v,
        None => return Err(DalucOracleError::ArithmeticOverflow("byte plane bits")),
    };
    proof {
        if logical_bits > 0 {
            assert(bytes_for_bits_spec(logical_bits as int) == raw@.len());
        }
    }
    finalize_bit_plane(contract, raw, logical_bits)
}

/// Turn raw logical bytes into a plane with the contract's alignment padding.
pub fn finalize_bit_plane(contract: DalucKvViewContract, raw: Vec<u8>, logical_bits: usize) -> (r: Result<
    DalucOraclePlane,
    DalucOracleError,
>)
    requires
        alignment_is_power_of_two(contract),
    ensures
        match bytes_for_bits_rule(logical_bits) {
            Err(e) => r == Err::<DalucOraclePlane, DalucOracleError>(e),
            Ok(logical_bytes) => if raw@.len() != logical_bytes {
                r == Err::<DalucOraclePlane, DalucOracleError>(
                    DalucOracleError::LengthMismatch {
                        what: "raw plane bytes",
                        expected: logical_bytes,
                        actual: raw@.len() as usize,
                    },
                )
            } else {
                match padding_rule(contract, logical_bytes) {
                    Err(e) => r == Err::<DalucOraclePlane, DalucOracleError>(e),
                    Ok(padding) => r matches Ok(plane) && plane.spec_logical_bits() == logical_bits
                        && plane.spec_alignment_padding_bytes() == padding
                        && plane.spec_bytes().len() == logical_bytes + padding
                        && plane.spec_bytes().subrange(0, logical_bytes as int) == raw@
                        && forall|j: int|
                        logical_bytes <= j < logical_bytes + padding ==> #[trigger] plane.spec_bytes()[j]
                            == 0u8,
                }
            },
        },
{
    let logical_bytes = bytes_for_bits(logical_bits)?;
    require_len("raw plane bytes", raw.len(), logical_bytes)?;
    let padding = padding_bytes(contract, logical_bytes)?;
    let mut bytes = raw;
    let total = logical_bytes + padding;
    while bytes.len() < total
        invariant
            logical_bytes <= bytes@.len() <= total,
            bytes@.subrange(0, logical_bytes as int) == raw@,
            forall|j: int| logical_bytes <= j < bytes@.len() ==> #[trigger] bytes@[j] == 0u8,
        decreases total - bytes@.len(),
    {
        bytes.push(0);
        proof {
            assert(bytes@.subrange(0, logical_bytes as int) =~= raw@);
        }
    }
    Ok(DalucOraclePlane { bytes, logical_bits, alignment_padding_bytes: padding })
}

/// Pack `values` into consecutive `width`-bit fields of one plane, in the
/// stream order `order`, with the contract's alignment padding.
pub fn pack_integer_plane(
    contract: DalucKvViewContract,
    values: &[u32],
    width: u8,
    order: DalucBitOrder,
) -> (r: Result<DalucOraclePlane, DalucOracleError>)
    requires
        alignment_is_power_of_two(contract),
    ensures
        match pack_rule(contract, values@, width, order) {
            Err(e) => r == Err::<DalucOraclePlane, DalucOracleError>(e),
            Ok(()) => r matches Ok(plane) && packs(plane, contract, values@, width, order),
        },
{
    let w = width as usize;
    let logical_bits = match values.len().checked_mul(w) {
        Some(bits) => bits,
        None => return Err(DalucOracleError::ArithmeticOverflow("packed integer bits")),
    };
    let byte_len = bytes_for_bits(logical_bits)?;
    let mut raw: Vec<u8> = vec![0u8; byte_len];
    let mask = bit_mask(width)?;
    proof {
        assert(w <= 32);
        assert forall|s: int| 0 <= s < 8 * raw@.len() implies !#[trigger] stream_bit(raw@, s, order) by {
            assert(raw@[s / 8] == 0u8);
            lemma_zero_byte_bits(bit_position(s % 8, order) as u8);
        }
    }
    let mut index: usize = 0;
    while index < values.len()
        invariant
            w == width as usize,
            0 < w <= 32,
            logical_bits == values@.len() * w,
            bytes_for_bits_rule(logical_bits) == Ok::<usize, DalucOracleError>(byte_len),
            byte_len == bytes_for_bits_spec(logical_bits as int),
            raw@.len() == byte_len,
            index <= values@.len(),
            mask == width_mask_rule(width)->Ok_0,
            width_mask_rule(width) is Ok,
            forall|i: int| 0 <= i < index ==> #[trigger] values@[i] <= mask,
            forall|s: int|
                0 <= s < 8 * raw@.len() ==> #[trigger] stream_bit(raw@, s, order) == (s < index * w
                    && packed_bit(values@, w as int, order, s)),
        decreases values@.len() - index,
    {
        let value = values[index];
        if value > mask {
            proof {
                assert(values@[index as int] > width_mask_rule(width)->Ok_0);
            }
            return Err(DalucOracleError::MalformedPayload("integer exceeds packed width"));
        }
        proof {
            assert((index + 1) * w <= logical_bits) by (nonlinear_arith)
                requires
                    index < values@.len(),
                    logical_bits == values@.len() * w,
            ;
            assert(index * w + w == (index + 1) * w) by (nonlinear_arith);
        }
        let base = index * w;
        let mut b: usize = 0;
        while b < w
            invariant
                w == width as usize,
                0 < w <= 32,
                index < values@.len(),
                value == values@[index as int],
                base == index * w,
                base + w <= logical_bits,
                logical_bits == values@.len() * w,
                byte_len == bytes_for_bits_spec(logical_bits as int),
                raw@.len() == byte_len,
                b <= w,
                forall|s: int|
                    0 <= s < 8 * raw@.len() ==> #[trigger] stream_bit(raw@, s, order) == (s < base + b
                        && packed_bit(values@, w as int, order, s)),
            decreases w - b,
        {
            let source: u32 = match order {
                DalucBitOrder::Lsb0 => b as u32,
                DalucBitOrder::Msb0 => (w - 1 - b) as u32,
            };
            let set = (value >> source) & 1 == 1;
            let ghost before = raw@;
            proof {
                lemma_fundamental_div_mod_converse((base + b) as int, w as int, index as int, b as int);
                assert(base + b < 8 * raw@.len());
            }
            let written = set_stream_bit(&mut raw, base + b, order, set);
            proof {
                assert forall|s: int| 0 <= s < 8 * raw@.len() implies #[trigger] stream_bit(
                    raw@,
                    s,
                    order,
                ) == (s < base + b + 1 && packed_bit(values@, w as int, order, s)) by {
                    assert(stream_bit(before, s, order) == (s < base + b && packed_bit(
                        values@,
                        w as int,
                        order,
                        s,
                    )));
                }
            }
            b += 1;
        }
        index += 1;
    }
    proof {
        assert forall|s: int| 0 <= s < 8 * raw@.len() implies #[trigger] stream_bit(raw@, s, order)
            == packed_bit(values@, w as int, order, s) by {}
    }
    let ghost packed = raw@;
    let plane = finalize_bit_plane(contract, raw, logical_bits)?;
    proof {
        let lb = byte_len as int;
        assert forall|s: int|
            0 <= s < 8 * plane.spec_bytes().len() implies #[trigger] stream_bit(
            plane.spec_bytes(),
            s,
            order,
        ) == packed_bit(values@, w as int, order, s) by {
            if s / 8 < lb {
                assert(plane.spec_bytes()[s / 8] == plane.spec_bytes().subrange(0, lb)[s / 8]);
                assert(stream_bit(packed, s, order) == packed_bit(values@, w as int, order, s));
            } else {
                assert(plane.spec_bytes()[s / 8] == 0u8);
                lemma_zero_byte_bits(bit_position(s % 8, order) as u8);
            }
        }
    }
    Ok(plane)
}

proof fn lemma_or_shifted_bit(x: u32, m: u32, k: u32)
    requires
        m < 32,
        k < 32,
    ensures
        (((x | (1u32 << m)) >> k) & 1u32 == 1u32) == (k == m || (x >> k) & 1u32 == 1u32),
{
    assert((((x | (1u32 << m)) >> k) & 1u32 == 1u32) == (k == m || (x >> k) & 1u32 == 1u32))
        by (bit_vector)
        requires
            m < 32,
            k < 32,
    ;
}

/// Bit `k` of a field built from its low `n` bits is the stream bit that
/// holds value bit `k`, for `k < n`, and clear above.
proof fn lemma_packed_field_bits(
    bytes: Seq<u8>,
    start: int,
    width: int,
    order: DalucBitOrder,
    n: int,
    k: int,
)
    requires
        0 <= n <= 32,
        0 <= k < 32,
    ensures
        u32_bit(packed_field(bytes, start, width, order, n), k) == (k < n && stream_bit(
            bytes,
            start + source_bit(k, width, order),
            order,
        )),
    decreases n,
{
    if n == 0 {
        let ku = k as u32;
        assert((0u32 >> ku) & 1u32 == 0u32) by (bit_vector);
    } else {
        lemma_packed_field_bits(bytes, start, width, order, n - 1, k);
        let low = packed_field(bytes, start, width, order, n - 1);
        if stream_bit(bytes, start + source_bit(n - 1, width, order), order) {
            lemma_or_shifted_bit(low, (n - 1) as u32, k as u32);
        }
    }
}

/// Read field `index` of a plane of `width`-bit fields.
pub fn unpack_integer(plane: &DalucOraclePlane, index: usize, width: u8, order: DalucBitOrder) -> (r:
    Result<u32, DalucOracleError>)
    requires
        width <= 32,
    ensures
        r == unpack_rule(*plane, index, width, order),
{
    let w = width as usize;
    let start = match index.checked_mul(w) {
        Some(start) => start,
        None => return Err(DalucOracleError::ArithmeticOverflow("packed integer offset")),
    };
    let end = match start.checked_add(w) {
        Some(end) => end,
        None => return Err(DalucOracleError::ArithmeticOverflow("packed integer end")),
    };
    if end > plane.logical_bits() {
        return Err(DalucOracleError::MalformedPayload("packed integer read out of range"));
    }
    let mut value: u32 = 0;
    let mut k: usize = 0;
    while k < w
        invariant
            w == width as usize,
            w <= 32,
            start == index * w,
            end == start + w,
            end <= plane.spec_logical_bits(),
            k <= w,
            value == packed_field(plane.spec_bytes(), start as int, w as int, order, k as int),
        decreases w - k,
    {
        let offset = match order {
            DalucBitOrder::Lsb0 => k,
            DalucBitOrder::Msb0 => w - 1 - k,
        };
        let set = match get_stream_bit(plane, start + offset, order) {
            Ok(set) => set,
            Err(error) => return Err(error),
        };
        if set {
            value = value | (1u32 << (k as u32));
        }
        k += 1;
    }
    Ok(value)
}

proof fn lemma_u32_bits_equal(x: u32, y: u32)
    requires
        forall|k: int| 0 <= k < 32 ==> u32_bit(x, k) == u32_bit(y, k),
    ensures
        x == y,
{
    assert(u32_bit(x, 0) == u32_bit(y, 0));
    assert(u32_bit(x, 1) == u32_bit(y, 1));
    assert(u32_bit(x, 2) == u32_bit(y, 2));
    assert(u32_bit(x, 3) == u32_bit(y, 3));
    assert(u32_bit(x, 4) == u32_bit(y, 4));
    assert(u32_bit(x, 5) == u32_bit(y, 5));
    assert(u32_bit(x, 6) == u32_bit(y, 6));
    assert(u32_bit(x, 7) == u32_bit(y, 7));
    assert(u32_bit(x, 8) == u32_bit(y, 8));
    assert(u32_bit(x, 9) == u32_bit(y, 9));
    assert(u32_bit(x, 10) == u32_bit(y, 10));
    assert(u32_bit(x, 11) == u32_bit(y, 11));
    assert(u32_bit(x, 12) == u32_bit(y, 12));
    assert(u32_bit(x, 13) == u32_bit(y, 13));
    assert(u32_bit(x, 14) == u32_bit(y, 14));
    assert(u32_bit(x, 15) == u32_bit(y, 15));
    assert(u32_bit(x, 16) == u32_bit(y, 16));
    assert(u32_bit(x, 17) == u32_bit(y, 17));
    assert(u32_bit(x, 18) == u32_bit(y, 18));
    assert(u32_bit(x, 19) == u32_bit(y, 19));
    assert(u32_bit(x, 20) == u32_bit(y, 20));
    assert(u32_bit(x, 21) == u32_bit(y, 21));
    assert(u32_bit(x, 22) == u32_bit(y, 22));
    assert(u32_bit(x, 23) == u32_bit(y, 23));
    assert(u32_bit(x, 24) == u32_bit(y, 24));
    assert(u32_bit(x, 25) == u32_bit(y, 25));
    assert(u32_bit(x, 26) == u32_bit(y, 26));
    assert(u32_bit(x, 27) == u32_bit(y, 27));
    assert(u32_bit(x, 28) == u32_bit(y, 28));
    assert(u32_bit(x, 29) == u32_bit(y, 29));
    assert(u32_bit(x, 30) == u32_bit(y, 30));
    assert(u32_bit(x, 31) == u32_bit(y, 31));
    assert(x == y) by (bit_vector)
        requires
            ((x >> 0u32) & 1u32 == 1u32) == ((y >> 0u32) & 1u32 == 1u32),
            ((x >> 1u32) & 1u32 == 1u32) == ((y >> 1u32) & 1u32 == 1u32),
            ((x >> 2u32) & 1u32 == 1u32) == ((y >> 2u32) & 1u32 == 1u32),
            ((x >> 3u32) & 1u32 == 1u32) == ((y >> 3u32) & 1u32 == 1u32),
            ((x >> 4u32) & 1u32 == 1u32) == ((y >> 4u32) & 1u32 == 1u32),
            ((x >> 5u32) & 1u32 == 1u32) == ((y >> 5u32) & 1u32 == 1u32),
            ((x >> 6u32) & 1u32 == 1u32) == ((y >> 6u32) & 1u32 == 1u32),
            ((x >> 7u32) & 1u32 == 1u32) == ((y >> 7u32) & 1u32 == 1u32),
            ((x >> 8u32) & 1u32 == 1u32) == ((y >> 8u32) & 1u32 == 1u32),
            ((x >> 9u32) & 1u32 == 1u32) == ((y >> 9u32) & 1u32 == 1u32),
            ((x >> 10u32) & 1u32 == 1u32) == ((y >> 10u32) & 1u32 == 1u32),
            ((x >> 11u32) & 1u32 == 1u32) == ((y >> 11u32) & 1u32 == 1u32),
            ((x >> 12u32) & 1u32 == 1u32) == ((y >> 12u32) & 1u32 == 1u32),
            ((x >> 13u32) & 1u32 == 1u32) == ((y >> 13u32) & 1u32 == 1u32),
            ((x >> 14u32) & 1u32 == 1u32) == ((y >> 14u32) & 1u32 == 1u32),
            ((x >> 15u32) & 1u32 == 1u32) == ((y >> 15u32) & 1u32 == 1u32),
            ((x >> 16u32) & 1u32 == 1u32) == ((y >> 16u32) & 1u32 == 1u32),
            ((x >> 17u32) & 1u32 == 1u32) == ((y >> 17u32) & 1u32 == 1u32),
            ((x >> 18u32) & 1u32 == 1u32) == ((y >> 18u32) & 1u32 == 1u32),
            ((x >> 19u32) & 1u32 == 1u32) == ((y >> 19u32) & 1u32 == 1u32),
            ((x >> 20u32) & 1u32 == 1u32) == ((y >> 20u32) & 1u32 == 1u32),
            ((x >> 21u32) & 1u32 == 1u32) == ((y >> 21u32) & 1u32 == 1u32),
            ((x >> 22u32) & 1u32 == 1u32) == ((y >> 22u32) & 1u32 == 1u32),
            ((x >> 23u32) & 1u32 == 1u32) == ((y >> 23u32) & 1u32 == 1u32),
            ((x >> 24u32) & 1u32 == 1u32) == ((y >> 24u32) & 1u32 == 1u32),
            ((x >> 25u32) & 1u32 == 1u32) == ((y >> 25u32) & 1u32 == 1u32),
            ((x >> 26u32) & 1u32 == 1u32) == ((y >> 26u32) & 1u32 == 1u32),
            ((x >> 27u32) & 1u32 == 1u32) == ((y >> 27u32) & 1u32 == 1u32),
            ((x >> 28u32) & 1u32 == 1u32) == ((y >> 28u32) & 1u32 == 1u32),
            ((x >> 29u32) & 1u32 == 1u32) == ((y >> 29u32) & 1u32 == 1u32),
            ((x >> 30u32) & 1u32 == 1u32) == ((y >> 30u32) & 1u32 == 1u32),
            ((x >> 31u32) & 1u32 == 1u32) == ((y >> 31u32) & 1u32 == 1u32),
    ;
}

proof fn lemma_masked_high_bit_clear(v: u32, width: u8, k: u32)
    requires
        1 <= width <= 31,
        width <= k < 32,
        v <= ((1u32 << width) - 1) as u32,
    ensures
        (v >> k) & 1u32 == 0u32,
{
    assert((v >> k) & 1u32 == 0u32) by (bit_vector)
        requires
            1 <= width <= 31,
            width <= k < 32,
            v <= ((1u32 << width) - 1) as u32,
    ;
}

/// Byte `j` (0..4) of `v` in little-endian order.
pub open spec fn le_byte(v: u32, j: int) -> u8 {
    ((v >> ((8 * j) as u32)) & 0xffu32) as u8
}

/// Serialize page-table entries as little-endian `u32` words in one byte plane.
/// An empty table gives the empty plane.
pub fn page_table_plane(contract: DalucKvViewContract, table: &[u32]) -> (r: Result<
    DalucOraclePlane,
    DalucOracleError,
>)
    requires
        alignment_is_power_of_two(contract),
    ensures
        table@.len() == 0 ==> (r matches Ok(plane) && plane.spec_bytes().len() == 0
            && plane.spec_logical_bits() == 0 && plane.spec_alignment_padding_bytes() == 0),
        table@.len() > 0 && table@.len() * 4 > usize::MAX ==> r == Err::<
            DalucOraclePlane,
            DalucOracleError,
        >(DalucOracleError::ArithmeticOverflow("page table serialization")),
        table@.len() > 0 && table@.len() * 4 <= usize::MAX && table@.len() * 32 > usize::MAX ==> r
            == Err::<DalucOraclePlane, DalucOracleError>(
            DalucOracleError::ArithmeticOverflow("byte plane bits"),
        ),
        table@.len() > 0 && table@.len() * 32 <= usize::MAX ==> match padding_rule(
            contract,
            (table@.len() * 4) as usize,
        ) {
            Err(e) => r == Err::<DalucOraclePlane, DalucOracleError>(e),
            Ok(padding) => r matches Ok(plane) && plane.spec_logical_bits() == table@.len() * 32
                && plane.spec_alignment_padding_bytes() == padding && plane.spec_bytes().len()
                == table@.len() * 4 + padding && (forall|i: int, j: int|
                0 <= i < table@.len() && 0 <= j < 4 ==> #[trigger] plane.spec_bytes()[4 * i + j]
                    == le_byte(table@[i], j)) && forall|k: int|
                table@.len() * 4 <= k < plane.spec_bytes().len() ==> #[trigger] plane.spec_bytes()[k]
                    == 0u8,
        },
{
    if table.len() == 0 {
        return Ok(DalucOraclePlane::empty());
    }
    let capacity = match table.len().checked_mul(4) {
        Some(capacity) => capacity,
        None => return Err(DalucOracleError::ArithmeticOverflow("page table serialization")),
    };
    let mut raw: Vec<u8> = Vec::new();
    let mut i: usize = 0;
    while i < table.len()
        invariant
            i <= table@.len(),
            capacity == table@.len() * 4,
            raw@.len() == 4 * i,
            forall|e: int, j: int|
                0 <= e < i && 0 <= j < 4 ==> #[trigger] raw@[4 * e + j] == le_byte(table@[e], j),
        decreases table@.len() - i,
    {
        let entry = table[i];
        raw.push((entry & 0xff) as u8);
        raw.push(((entry >> 8) & 0xff) as u8);
        raw.push(((entry >> 16) & 0xff) as u8);
        raw.push(((entry >> 24) & 0xff) as u8);
        proof {
            assert(entry >> 0u32 == entry) by (bit_vector);
            assert forall|e: int, j: int| 0 <= e < i + 1 && 0 <= j < 4 implies #[trigger] raw@[4 * e + j]
                == le_byte(table@[e], j) by {
                if e == i {
                    assert(j == 0 || j == 1 || j == 2 || j == 3);
                }
            }
        }
        i += 1;
    }
    let logical_bits = match raw.len().checked_mul(8) {
        Some(bits) => bits,
        None => return Err(DalucOracleError::ArithmeticOverflow("byte plane bits")),
    };
    let ghost bytes = raw@;
    let plane = finalize_bit_plane(contract, raw, logical_bits)?;
    proof {
        assert forall|i: int, j: int| 0 <= i < table@.len() && 0 <= j < 4 implies #[trigger] plane.spec_bytes()[4
            * i + j] == le_byte(table@[i], j) by {
            assert(plane.spec_bytes()[4 * i + j] == plane.spec_bytes().subrange(
                0,
                (table@.len() * 4) as int,
            )[4 * i + j]);
            assert(bytes[4 * i + j] == le_byte(table@[i], j));
        }
    }
    Ok(plane)
}

proof fn lemma_le_byte_bit(v: u32, j: u32, m: u8)
    requires
        j < 4,
        m < 8,
    ensures
        ((((v >> (8 * j)) & 0xffu32) as u8 >> m) & 1u8 == 1u8) == ((v >> (8 * j + m as u32)) & 1u32
            == 1u32),
{
    assert(((((v >> (8 * j)) & 0xffu32) as u8 >> m) & 1u8 == 1u8) == ((v >> (8 * j + m as u32))
        & 1u32 == 1u32)) by (bit_vector)
        requires
            j < 4,
            m < 8,
    ;
}

// ---------------------------------------------------------------------------
// Laws.
// ---------------------------------------------------------------------------

/// Reading field `i` of a plane that packs `values` gives back `values[i]`.
pub proof fn lemma_pack_unpack_round_trip(
    plane: DalucOraclePlane,
    contract: DalucKvViewContract,
    values: Seq<u32>,
    width: u8,
    order: DalucBitOrder,
    i: int,
)
    requires
        packs(plane, contract, values, width, order),
        width_mask_rule(width) is Ok,
        forall|j: int| 0 <= j < values.len() ==> #[trigger] values[j] <= width_mask_rule(width)->Ok_0,
        values.len() * width <= usize::MAX,
        0 <= i < values.len(),
    ensures
        unpack_rule(plane, i as usize, width, order) == Ok::<u32, DalucOracleError>(values[i]),
{
    let w = width as int;
    assert(1 <= w <= 32);
    assert(values.len() <= values.len() * w) by (nonlinear_arith)
        requires
            w >= 1,
    ;
    assert(i * w + w <= values.len() * w) by (nonlinear_arith)
        requires
            0 <= i < values.len(),
            w > 0,
    ;
    assert(0 <= i * w) by (nonlinear_arith)
        requires
            0 <= i,
            w > 0,
    ;
    let start = i * w;
    let field = packed_field(plane.spec_bytes(), start, w, order, w);
    assert forall|k: int| 0 <= k < 32 implies u32_bit(field, k) == u32_bit(values[i], k) by {
        lemma_packed_field_bits(plane.spec_bytes(), start, w, order, w, k);
        if k < w {
            let b = source_bit(k, w, order);
            let s = start + b;
            lemma_fundamental_div_mod_converse(s, w, i, b);
            assert(s < 8 * plane.spec_bytes().len());
            assert(stream_bit(plane.spec_bytes(), s, order) == packed_bit(values, w, order, s));
        } else {
            assert(values[i] <= width_mask_rule(width)->Ok_0);
            lemma_masked_high_bit_clear(values[i], width, k as u32);
        }
    }
    lemma_u32_bits_equal(field, values[i]);
    assert((i as usize) * width == start);
    assert(start + width <= plane.spec_logical_bits());
}


/// A serialized page table read back as 32-bit `Lsb0` fields gives the table.
#[verifier::spinoff_prover]
#[verifier::rlimit(40)]
pub proof fn lemma_page_table_reads_back(
    plane: DalucOraclePlane,
    contract: DalucKvViewContract,
    table: Seq<u32>,
    i: int,
)
    requires
        table.len() * 32 <= usize::MAX,
        padding_rule(contract, (table.len() * 4) as usize) == Ok::<usize, DalucOracleError>(
            plane.spec_alignment_padding_bytes(),
        ),
        plane.spec_logical_bits() == table.len() * 32,
        plane.spec_bytes().len() == table.len() * 4 + plane.spec_alignment_padding_bytes(),
        forall|e: int, j: int|
            0 <= e < table.len() && 0 <= j < 4 ==> #[trigger] plane.spec_bytes()[4 * e + j] == le_byte(
                table[e],
                j,
            ),
        forall|k: int|
            table.len() * 4 <= k < plane.spec_bytes().len() ==> #[trigger] plane.spec_bytes()[k] == 0u8,
        0 <= i < table.len(),
    ensures
        unpack_rule(plane, i as usize, 32, DalucBitOrder::Lsb0) == Ok::<u32, DalucOracleError>(table[i]),
{
    let order = DalucBitOrder::Lsb0;
    assert forall|s: int|
        0 <= s < 8 * plane.spec_bytes().len() implies #[trigger] stream_bit(plane.spec_bytes(), s, order)
        == packed_bit(table, 32, order, s) by {
        if s < table.len() * 32 {
            let e = s / 32;
            let j = (s / 8) % 4;
            let m = s % 8;
            assert(s / 8 == 4 * e + j);
            assert(s % 32 == 8 * j + m);
            lemma_le_byte_bit(table[e], j as u32, m as u8);
        } else {
            assert(plane.spec_bytes()[s / 8] == 0u8);
            lemma_zero_byte_bits((s % 8) as u8);
        }
    }
    assert(bytes_for_bits_spec((table.len() * 32) as int) == table.len() * 4);
    assert(forall|j: int| 0 <= j < table.len() ==> #[trigger] table[j] <= u32::MAX);
    lemma_pack_unpack_round_trip(plane, contract, table, 32, order, i);
}


/// Logical bit lengths of the ten planes of an oracle payload.
#[derive(Debug, Clone, Copy, PartialEq, Eq, Structural)]
pub struct DalucPlaneBits {
    pub key_codebook: usize,
    pub key_indices: usize,
    pub key_residual_values: usize,
    pub key_residual_indexing: usize,
    pub values: usize,
    pub value_scales: usize,
    pub value_zero_points: usize,
    pub value_residual_values: usize,
    pub value_residual_indexing: usize,
    pub page_table: usize,
}

/// Bits of one stored float of `dtype`.
pub open spec fn dtype_bits(dtype: DalucFloatDType) -> int {
    match dtype {
        DalucFloatDType::F32 => 32,
        _ => 16,
    }
}

/// `a * b`, or the overflow of that product reported under `label`.
pub open spec fn product2(label: &'static str, a: int, b: int) -> Result<int, DalucOracleError> {
    if a * b > usize::MAX {
        Err(DalucOracleError::ArithmeticOverflow(label))
    } else {
        Ok(a * b)
    }
}

/// `a * b * c` multiplied left to right, or the overflow of a partial product.
pub open spec fn product3(label: &'static str, a: int, b: int, c: int) -> Result<int, DalucOracleError> {
    if a * b > usize::MAX || a * b * c > usize::MAX {
        Err(DalucOracleError::ArithmeticOverflow(label))
    } else {
        Ok(a * b * c)
    }
}

/// A plane's logical bits must equal the expected bits, once those exist.
pub open spec fn bits_rule(what: &'static str, actual: usize, expected: Result<int, DalucOracleError>) -> Result<
    (),
    DalucOracleError,
> {
    if expected is Err {
        Err(expected->Err_0)
    } else {
        length_rule(what, actual, expected->Ok_0 as usize)
    }
}

pub open spec fn first_error(
    first: Result<(), DalucOracleError>,
    second: Result<(), DalucOracleError>,
) -> Result<(), DalucOracleError> {
    if first is Err {
        first
    } else {
        second
    }
}

/// Feature dimension and residual semantics of the K side or the V side.
pub open spec fn side_residual(contract: DalucKvViewContract, key_side: bool) -> (usize, DalucResidualSemantics) {
    if key_side {
        (contract.shape.key_head_dim, contract.keys.residual)
    } else {
        match contract.values {
            DalucValueRepresentation::Dense { .. } => (
                contract.shape.value_head_dim,
                DalucResidualSemantics::NoResidual,
            ),
            DalucValueRepresentation::GroupwiseAffine { residual, .. } => (
                contract.shape.value_head_dim,
                residual,
            ),
        }
    }
}

/// Expected lengths of one side's residual value and indexing planes over
/// `rows` physical vectors.
pub open spec fn residual_lengths_rule(
    contract: DalucKvViewContract,
    rows: usize,
    key_side: bool,
    values_bits: usize,
    indexing_bits: usize,
) -> Result<(), DalucOracleError> {
    let (dimension, semantics) = side_residual(contract, key_side);
    match semantics {
        DalucResidualSemantics::NoResidual => first_error(
            length_rule("residual values", values_bits, 0),
            length_rule("residual indexing", indexing_bits, 0),
        ),
        DalucResidualSemantics::Sparse(residual) => {
            let value_bits = product3(
                "residual value bits",
                rows as int,
                residual.max_entries_per_vector as int,
                dtype_bits(residual.value_dtype),
            );
            let index_bits = match residual.indexing {
                DalucResidualIndexing::Coordinates { index_bits, .. } => product3(
                    "residual coordinate bits",
                    rows as int,
                    residual.max_entries_per_vector as int,
                    index_bits as int,
                ),
                DalucResidualIndexing::Bitmap { .. } => product2(
                    "residual bitmap bits",
                    rows as int,
                    dimension as int,
                ),
            };
            if value_bits is Err {
                Err(value_bits->Err_0)
            } else if index_bits is Err {
                Err(index_bits->Err_0)
            } else {
                first_error(
                    bits_rule("residual values", values_bits, value_bits),
                    bits_rule("residual indexing", indexing_bits, index_bits),
                )
            }
        },
    }
}

/// Codebook scalars: one codebook per scope, one table per subspace.
pub open spec fn codebook_elements_rule(contract: DalucKvViewContract) -> Result<int, DalucOracleError> {
    let scopes: int = match contract.keys.codebook_scope {
        DalucCodebookScope::SharedAcrossKvHeads => 1,
        DalucCodebookScope::PerKvHead => contract.shape.kv_heads as int,
    };
    let subspaces = contract.shape.key_head_dim / contract.keys.subspace_dim;
    let entries = contract.keys.codebook_entries as int;
    if scopes * subspaces > usize::MAX || scopes * subspaces * entries > usize::MAX || scopes
        * subspaces * entries * contract.keys.subspace_dim > usize::MAX {
        Err(DalucOracleError::ArithmeticOverflow("codebook elements"))
    } else {
        Ok(scopes * subspaces * entries * contract.keys.subspace_dim)
    }
}

/// Expected lengths of the V planes: dense values with empty scale and
/// zero-point planes, or packed values with one scale (and zero point) per
/// group.
pub open spec fn value_lengths_rule(contract: DalucKvViewContract, rows: usize, planes: DalucPlaneBits) -> Result<
    (),
    DalucOracleError,
> {
    let vd = contract.shape.value_head_dim as int;
    match contract.values {
        DalucValueRepresentation::Dense { dtype } => {
            let bits = product3("dense V bits", rows as int, vd, dtype_bits(dtype));
            if bits is Err {
                Err(bits->Err_0)
            } else {
                first_error(
                    bits_rule("V plane", planes.values, bits),
                    first_error(
                        length_rule("V scale plane", planes.value_scales, 0),
                        length_rule("V zero-point plane", planes.value_zero_points, 0),
                    ),
                )
            }
        },
        DalucValueRepresentation::GroupwiseAffine { storage_bits, group_size, scale_dtype, zero_point, .. } => {
            let groups = vd / (group_size as int);
            let zp: int = match zero_point {
                DalucZeroPointStorage::NoZeroPoint => 0,
                DalucZeroPointStorage::U8 => 8,
                DalucZeroPointStorage::U16 => 16,
            };
            let value_bits = product3("V packed bits", rows as int, vd, storage_bits as int);
            let scale_bits = product3("V scale bits", rows as int, groups, dtype_bits(scale_dtype));
            let zp_bits = product3("V zero-point bits", rows as int, groups, zp);
            if value_bits is Err {
                Err(value_bits->Err_0)
            } else if scale_bits is Err {
                Err(scale_bits->Err_0)
            } else if zp_bits is Err {
                Err(zp_bits->Err_0)
            } else {
                first_error(
                    bits_rule("V plane", planes.values, value_bits),
                    first_error(
                        bits_rule("V scale plane", planes.value_scales, scale_bits),
                        bits_rule("V zero-point plane", planes.value_zero_points, zp_bits),
                    ),
                )
            }
        },
    }
}

/// Every plane-length check of a payload with `rows` physical vectors per
/// side and `page_entries` page-table entries, first failure first.
pub open spec fn plane_lengths_rule(
    contract: DalucKvViewContract,
    rows: usize,
    page_entries: usize,
    planes: DalucPlaneBits,
) -> Result<(), DalucOracleError> {
    let subspaces = contract.shape.key_head_dim / contract.keys.subspace_dim;
    let key_index_bits = product3(
        "K index bits",
        rows as int,
        subspaces as int,
        contract.keys.index_bits as int,
    );
    let codebook = codebook_elements_rule(contract);
    let codebook_bits = if codebook is Err {
        codebook
    } else {
        product2("codebook bits", codebook->Ok_0, dtype_bits(contract.keys.codebook_dtype))
    };
    if bits_rule("K index plane", planes.key_indices, key_index_bits) is Err {
        bits_rule("K index plane", planes.key_indices, key_index_bits)
    } else if bits_rule("K codebook plane", planes.key_codebook, codebook_bits) is Err {
        bits_rule("K codebook plane", planes.key_codebook, codebook_bits)
    } else if residual_lengths_rule(
        contract,
        rows,
        true,
        planes.key_residual_values,
        planes.key_residual_indexing,
    ) is Err {
        residual_lengths_rule(
            contract,
            rows,
            true,
            planes.key_residual_values,
            planes.key_residual_indexing,
        )
    } else if residual_lengths_rule(
        contract,
        rows,
        false,
        planes.value_residual_values,
        planes.value_residual_indexing,
    ) is Err {
        residual_lengths_rule(
            contract,
            rows,
            false,
            planes.value_residual_values,
            planes.value_residual_indexing,
        )
    } else if value_lengths_rule(contract, rows, planes) is Err {
        value_lengths_rule(contract, rows, planes)
    } else {
        bits_rule("page table", planes.page_table, product2("page metadata bits", page_entries as int, 32))
    }
}

fn product3_exec(label: &'static str, a: usize, b: usize, c: usize) -> (r: Result<usize, DalucOracleError>)
    ensures
        match product3(label, a as int, b as int, c as int) {
            Ok(v) => r == Ok::<usize, DalucOracleError>(v as usize),
            Err(e) => r == Err::<usize, DalucOracleError>(e),
        },
{
    let ab = match a.checked_mul(b) {
        Some(v) => v,
        None => return Err(DalucOracleError::ArithmeticOverflow(label)),
    };
    match ab.checked_mul(c) {
        Some(v) => Ok(v),
        None => Err(DalucOracleError::ArithmeticOverflow(label)),
    }
}

fn dtype_bits_exec(dtype: DalucFloatDType) -> (bits: usize)
    ensures
        bits == dtype_bits(dtype),
{
    match dtype {
        DalucFloatDType::F32 => 32,
        _ => 16,
    }
}

fn validate_residual_plane_lengths(
    contract: DalucKvViewContract,
    rows: usize,
    key_side: bool,
    values_bits: usize,
    indexing_bits: usize,
) -> (r: Result<(), DalucOracleError>)
    ensures
        r == residual_lengths_rule(contract, rows, key_side, values_bits, indexing_bits),
{
    let (dimension, semantics) = if key_side {
        (contract.shape.key_head_dim, contract.keys.residual)
    } else {
        match contract.values {
            DalucValueRepresentation::Dense { .. } => (
                contract.shape.value_head_dim,
                DalucResidualSemantics::NoResidual,
            ),
            DalucValueRepresentation::GroupwiseAffine { residual, .. } => (
                contract.shape.value_head_dim,
                residual,
            ),
        }
    };
    match semantics {
        DalucResidualSemantics::NoResidual => {
            require_len("residual values", values_bits, 0)?;
            require_len("residual indexing", indexing_bits, 0)
        },
        DalucResidualSemantics::Sparse(residual) => {
            let value_bits = product3_exec(
                "residual value bits",
                rows,
                residual.max_entries_per_vector,
                dtype_bits_exec(residual.value_dtype),
            )?;
            let index_bits = match residual.indexing {
                DalucResidualIndexing::Coordinates { index_bits, .. } => product3_exec(
                    "residual coordinate bits",
                    rows,
                    residual.max_entries_per_vector,
                    index_bits as usize,
                )?,
                DalucResidualIndexing::Bitmap { .. } => match rows.checked_mul(dimension) {
                    Some(v) => v,
                    None => return Err(DalucOracleError::ArithmeticOverflow("residual bitmap bits")),
                },
            };
            require_len("residual values", values_bits, value_bits)?;
            require_len("residual indexing", indexing_bits, index_bits)
        },
    }
}

fn validate_value_plane_lengths(contract: DalucKvViewContract, rows: usize, planes: DalucPlaneBits) -> (r:
    Result<(), DalucOracleError>)
    requires
        contract.values matches DalucValueRepresentation::GroupwiseAffine { group_size, .. }
            ==> group_size > 0,
    ensures
        r == value_lengths_rule(contract, rows, planes),
{
    let vd = contract.shape.value_head_dim;
    match contract.values {
        DalucValueRepresentation::Dense { dtype } => {
            let bits = product3_exec("dense V bits", rows, vd, dtype_bits_exec(dtype))?;
            require_len("V plane", planes.values, bits)?;
            require_len("V scale plane", planes.value_scales, 0)?;
            require_len("V zero-point plane", planes.value_zero_points, 0)
        },
        DalucValueRepresentation::GroupwiseAffine {
            storage_bits,
            group_size,
            scale_dtype,
            zero_point,
            ..
        } => {
            let value_bits = product3_exec("V packed bits", rows, vd, storage_bits as usize)?;
            let groups = vd / group_size;
            let scale_bits = product3_exec(
                "V scale bits",
                rows,
                groups,
                dtype_bits_exec(scale_dtype),
            )?;
            let zp: usize = match zero_point {
                DalucZeroPointStorage::NoZeroPoint => 0,
                DalucZeroPointStorage::U8 => 8,
                DalucZeroPointStorage::U16 => 16,
            };
            let zp_bits = product3_exec("V zero-point bits", rows, groups, zp)?;
            require_len("V plane", planes.values, value_bits)?;
            require_len("V scale plane", planes.value_scales, scale_bits)?;
            require_len("V zero-point plane", planes.value_zero_points, zp_bits)
        },
    }
}

/// Checks that every plane of a payload has exactly the logical bit length
/// its contract implies, for `rows` physical vectors per side and
/// `page_entries` page-table entries.
pub fn validate_expected_plane_lengths(
    contract: DalucKvViewContract,
    rows: usize,
    page_entries: usize,
    planes: DalucPlaneBits,
) -> (r: Result<(), DalucOracleError>)
    requires
        contract.keys.subspace_dim > 0,
        contract.values matches DalucValueRepresentation::GroupwiseAffine { group_size, .. }
            ==> group_size > 0,
    ensures
        r == plane_lengths_rule(contract, rows, page_entries, planes),
{
    let subspaces = contract.shape.key_head_dim / contract.keys.subspace_dim;
    let key_index_bits = product3_exec(
        "K index bits",
        rows,
        subspaces,
        contract.keys.index_bits as usize,
    )?;
    require_len("K index plane", planes.key_indices, key_index_bits)?;
    let scopes: usize = match contract.keys.codebook_scope {
        DalucCodebookScope::SharedAcrossKvHeads => 1,
        DalucCodebookScope::PerKvHead => contract.shape.kv_heads,
    };
    let tables = match scopes.checked_mul(subspaces) {
        Some(v) => v,
        None => return Err(DalucOracleError::ArithmeticOverflow("codebook elements")),
    };
    let entries = match tables.checked_mul(contract.keys.codebook_entries) {
        Some(v) => v,
        None => return Err(DalucOracleError::ArithmeticOverflow("codebook elements")),
    };
    let elements = match entries.checked_mul(contract.keys.subspace_dim) {
        Some(v) => v,
        None => return Err(DalucOracleError::ArithmeticOverflow("codebook elements")),
    };
    let codebook_bits = match elements.checked_mul(dtype_bits_exec(contract.keys.codebook_dtype)) {
        Some(v) => v,
        None => return Err(DalucOracleError::ArithmeticOverflow("codebook bits")),
    };
    require_len("K codebook plane", planes.key_codebook, codebook_bits)?;
    validate_residual_plane_lengths(
        contract,
        rows,
        true,
        planes.key_residual_values,
        planes.key_residual_indexing,
    )?;
    validate_residual_plane_lengths(
        contract,
        rows,
        false,
        planes.value_residual_values,
        planes.value_residual_indexing,
    )?;
    validate_value_plane_lengths(contract, rows, planes)?;
    let page_bits = match page_entries.checked_mul(32) {
        Some(v) => v,
        None => return Err(DalucOracleError::ArithmeticOverflow("page metadata bits")),
    };
    require_len("page table", planes.page_table, page_bits)
}


/// Entry `k` maps to the same physical page as an earlier entry of its batch,
/// whose entries start at `start`.
pub open spec fn aliases_earlier(table: Seq<u32>, start: int, k: int) -> bool {
    exists|j: int| start <= j < k && table[j] == table[k]
}

/// Why entry `k` of a page table with `logical_pages` entries per batch is
/// rejected, if it is.
pub open spec fn page_entry_failure(
    table: Seq<u32>,
    logical_pages: usize,
    physical_pages: usize,
    k: int,
) -> Option<&'static str> {
    let start = (k / (logical_pages as int)) * logical_pages;
    if table[k] >= physical_pages {
        Some("physical page out of range")
    } else if aliases_earlier(table, start, k) {
        Some("logical pages alias one physical page")
    } else {
        None
    }
}

/// The first rejected entry at or after `k` and before `n`, in batch order.
pub open spec fn first_page_failure(
    table: Seq<u32>,
    logical_pages: usize,
    physical_pages: usize,
    k: int,
    n: int,
) -> Option<&'static str>
    decreases n - k,
{
    if k < 0 || k >= n {
        None
    } else if page_entry_failure(table, logical_pages, physical_pages, k) is Some {
        page_entry_failure(table, logical_pages, physical_pages, k)
    } else {
        first_page_failure(table, logical_pages, physical_pages, k + 1, n)
    }
}

/// A page table of `batch` runs of `logical_pages` entries is accepted when
/// every entry names a physical page below `physical_pages` and no two
/// entries of one batch name the same page.
pub open spec fn page_table_rule(
    table: Seq<u32>,
    batch: usize,
    logical_pages: usize,
    physical_pages: usize,
) -> Result<(), DalucOracleError> {
    let entries = batch * logical_pages;
    if entries > usize::MAX {
        Err(DalucOracleError::ArithmeticOverflow("page table validation entries"))
    } else if table.len() != entries {
        Err(
            DalucOracleError::LengthMismatch {
                what: "page table",
                expected: entries as usize,
                actual: table.len() as usize,
            },
        )
    } else if first_page_failure(table, logical_pages, physical_pages, 0, entries) is Some {
        Err(
            DalucOracleError::InvalidPageTable(
                first_page_failure(table, logical_pages, physical_pages, 0, entries)->Some_0,
            ),
        )
    } else {
        Ok(())
    }
}

proof fn lemma_batch_of_entry(b: int, lp: int, i: int)
    requires
        lp > 0,
        b >= 0,
        0 <= i < lp,
    ensures
        ((b * lp + i) / lp) * lp == b * lp,
{
    lemma_fundamental_div_mod_converse(b * lp + i, lp, b, i);
}

/// Validates a page table: `batch` runs of `logical_pages` entries, each an
/// in-range physical page, no page used twice within one batch.
pub fn validate_page_table(
    table: &[u32],
    batch: usize,
    logical_pages: usize,
    physical_pages: usize,
) -> (r: Result<(), DalucOracleError>)
    ensures
        r == page_table_rule(table@, batch, logical_pages, physical_pages),
{
    let entries = match batch.checked_mul(logical_pages) {
        Some(v) => v,
        None => {
            return Err(DalucOracleError::ArithmeticOverflow("page table validation entries"))
        },
    };
    require_len("page table", table.len(), entries)?;
    let ghost n = entries as int;
    let mut b: usize = 0;
    while b < batch
        invariant
            entries == batch * logical_pages,
            table@.len() == entries,
            b <= batch,
            first_page_failure(table@, logical_pages, physical_pages, 0, n) == first_page_failure(
                table@,
                logical_pages,
                physical_pages,
                b * logical_pages,
                n,
            ),
            n == entries,
        decreases batch - b,
    {
        proof {
            assert(b * logical_pages + logical_pages <= batch * logical_pages) by (nonlinear_arith)
                requires
                    b < batch,
            ;
        }
        let start = b * logical_pages;
        let mut seen: Vec<bool> = Vec::new();
        while seen.len() < physical_pages
            invariant
                seen@.len() <= physical_pages,
                forall|p: int| 0 <= p < seen@.len() ==> !#[trigger] seen@[p],
            decreases physical_pages - seen.len(),
        {
            seen.push(false);
        }
        let mut i: usize = 0;
        while i < logical_pages
            invariant
                entries == batch * logical_pages,
                table@.len() == entries,
                b < batch,
                start == b * logical_pages,
                start + logical_pages <= entries,
                i <= logical_pages,
                n == entries,
                seen@.len() == physical_pages,
                forall|p: int|
                    0 <= p < physical_pages ==> (#[trigger] seen@[p] <==> exists|j: int|
                        start <= j < start + i && table@[j] == p),
                first_page_failure(table@, logical_pages, physical_pages, 0, n)
                    == first_page_failure(table@, logical_pages, physical_pages, start + i, n),
            decreases logical_pages - i,
        {
            let k = start + i;
            proof {
                lemma_batch_of_entry(b as int, logical_pages as int, i as int);
            }
            let page = table[k] as usize;
            if page >= physical_pages {
                return Err(DalucOracleError::InvalidPageTable("physical page out of range"));
            }
            if seen[page] {
                proof {
                    let j = choose|j: int| start <= j < start + i && table@[j] == page;
                    assert(aliases_earlier(table@, start as int, k as int));
                }
                return Err(DalucOracleError::InvalidPageTable("logical pages alias one physical page"));
            }
            proof {
                assert(!aliases_earlier(table@, start as int, k as int)) by {
                    if aliases_earlier(table@, start as int, k as int) {
                        let j = choose|j: int| start <= j < k && table@[j] == table@[k as int];
                        assert(seen@[page as int]);
                    }
                }
            }
            seen.set(page, true);
            proof {
                assert forall|p: int| 0 <= p < physical_pages implies (#[trigger] seen@[p] <==> exists|
                    j: int,
                | start <= j < start + i + 1 && table@[j] == p) by {
                    if p == page as int {
                        assert(table@[k as int] == p);
                    } else {
                        if exists|j: int| start <= j < start + i + 1 && table@[j] == p {
                            let j = choose|j: int| start <= j < start + i + 1 && table@[j] == p;
                            assert(j != k);
                        }
                    }
                }
            }
            i = i + 1;
        }
        proof {
            assert(start + logical_pages == (b + 1) * logical_pages) by (nonlinear_arith)
                requires
                    start == b * logical_pages,
            ;
        }
        b = b + 1;
    }
    proof {
        assert(b * logical_pages == n);
    }
    Ok(())
}


/// Physical geometry of an oracle payload: token capacity per (batch, KV
/// head), physical vector rows per side, logical pages per batch and the
/// page table (empty for contiguous storage). The table's serialized plane
/// is [`page_table_plane`] of it.
#[derive(Debug, Clone, PartialEq, Eq)]
pub struct DalucOracleGeometry {
    pub capacity_tokens: usize,
    pub physical_rows: usize,
    pub logical_pages_per_batch: usize,
    pub page_table: Vec<u32>,
}

/// The identity map of `batch` runs of `logical_pages` pages.
pub open spec fn identity_page_table(batch: usize, logical_pages: usize) -> Seq<u32> {
    Seq::new((batch * logical_pages) as nat, |k: int| (k % (logical_pages as int)) as u32)
}

/// `ceil(value / divisor)` computed as `(value + divisor - 1) / divisor`.
pub open spec fn ceil_div_rule(value: usize, divisor: usize) -> Result<int, DalucOracleError> {
    if value + divisor - 1 > usize::MAX {
        Err(DalucOracleError::ArithmeticOverflow("ceil division"))
    } else {
        Ok((value + divisor - 1) / (divisor as int))
    }
}

/// Capacity, logical pages per batch and page table of the storage
/// topology, or why there are none.
pub open spec fn topology_rule(contract: DalucKvViewContract, supplied: Option<Seq<u32>>) -> Result<
    (int, int, Seq<u32>),
    DalucOracleError,
> {
    match contract.layout.topology {
        DalucStorageTopology::Contiguous { capacity_tokens } => if supplied is Some
            && supplied->Some_0.len() > 0 {
            Err(DalucOracleError::InvalidPageTable("contiguous topology does not carry a page table"))
        } else {
            Ok((capacity_tokens as int, 0int, Seq::empty()))
        },
        DalucStorageTopology::Paged { page_size, physical_pages_per_batch } => {
            let pages = ceil_div_rule(contract.shape.kv_len, page_size);
            let lp = pages->Ok_0;
            let entries = contract.shape.batch * lp;
            let table = if supplied is Some {
                supplied->Some_0
            } else {
                identity_page_table(contract.shape.batch, lp as usize)
            };
            if pages is Err {
                Err(pages->Err_0)
            } else if entries > usize::MAX {
                Err(DalucOracleError::ArithmeticOverflow("page entries"))
            } else if supplied is Some && supplied->Some_0.len() != entries {
                Err(
                    DalucOracleError::LengthMismatch {
                        what: "page table",
                        expected: entries as usize,
                        actual: supplied->Some_0.len() as usize,
                    },
                )
            } else if supplied is None && lp > physical_pages_per_batch {
                Err(DalucOracleError::InvalidPageTable("identity map exceeds physical page capacity"))
            } else if supplied is None && contract.shape.batch > 0 && lp > u32::MAX + 1 {
                Err(DalucOracleError::InvalidPageTable("page index exceeds u32"))
            } else if page_table_rule(
                table,
                contract.shape.batch,
                lp as usize,
                physical_pages_per_batch,
            ) is Err {
                Err(
                    page_table_rule(
                        table,
                        contract.shape.batch,
                        lp as usize,
                        physical_pages_per_batch,
                    )->Err_0,
                )
            } else if page_size * physical_pages_per_batch > usize::MAX {
                Err(DalucOracleError::ArithmeticOverflow("paged capacity"))
            } else {
                Ok(((page_size * physical_pages_per_batch) as int, lp, table))
            }
        },
    }
}

/// The geometry of a contract with an optional caller-supplied page table.
pub open spec fn geometry_rule(contract: DalucKvViewContract, supplied: Option<Seq<u32>>) -> Result<
    (int, int, int, Seq<u32>),
    DalucOracleError,
> {
    let topology = topology_rule(contract, supplied);
    let (capacity, lp, table) = topology->Ok_0;
    let s = contract.shape;
    if topology is Err {
        Err(topology->Err_0)
    } else if s.batch * s.kv_heads > usize::MAX || s.batch * s.kv_heads * capacity > usize::MAX {
        Err(DalucOracleError::ArithmeticOverflow("physical rows"))
    } else {
        Ok((capacity, s.batch * s.kv_heads * capacity, lp, table))
    }
}

fn copy_table(table: &[u32]) -> (copy: Vec<u32>)
    ensures
        copy@ == table@,
{
    let mut copy: Vec<u32> = Vec::new();
    let mut i: usize = 0;
    while i < table.len()
        invariant
            i <= table@.len(),
            copy@ == table@.subrange(0, i as int),
        decreases table.len() - i,
    {
        copy.push(table[i]);
        i = i + 1;
        proof {
            assert(copy@ =~= table@.subrange(0, i as int));
        }
    }
    proof {
        assert(copy@ =~= table@);
    }
    copy
}

fn identity_table(batch: usize, logical_pages: usize, entries: usize) -> (r: Result<
    Vec<u32>,
    DalucOracleError,
>)
    requires
        entries == batch * logical_pages,
    ensures
        batch > 0 && logical_pages > u32::MAX + 1 ==> r == Err::<Vec<u32>, DalucOracleError>(
            DalucOracleError::InvalidPageTable("page index exceeds u32"),
        ),
        !(batch > 0 && logical_pages > u32::MAX + 1) ==> r == Ok::<Vec<u32>, DalucOracleError>(
            r->Ok_0,
        ) && r->Ok_0@ == identity_page_table(batch, logical_pages),
{
    let mut table: Vec<u32> = Vec::new();
    let mut b: usize = 0;
    while b < batch
        invariant
            entries == batch * logical_pages,
            b <= batch,
            table@.len() == b * logical_pages,
            logical_pages <= u32::MAX + 1 || b == 0,
            forall|k: int| 0 <= k < table@.len() ==> #[trigger] table@[k] == (k % (logical_pages as int)) as u32,
        decreases batch - b,
    {
        let mut page: usize = 0;
        while page < logical_pages
            invariant
                entries == batch * logical_pages,
                b < batch,
                page <= logical_pages,
                page <= u32::MAX + 1 || logical_pages > u32::MAX + 1,
                logical_pages > u32::MAX + 1 ==> b == 0 && page <= u32::MAX + 1,
                table@.len() == b * logical_pages + page,
                forall|k: int| 0 <= k < table@.len() ==> #[trigger] table@[k] == (k % (logical_pages as int)) as u32,
            decreases logical_pages - page,
        {
            if page > 0xffff_ffffusize {
                return Err(DalucOracleError::InvalidPageTable("page index exceeds u32"));
            }
            proof {
                lemma_fundamental_div_mod_converse(
                    (b * logical_pages + page) as int,
                    logical_pages as int,
                    b as int,
                    page as int,
                );
                assert(b * logical_pages + page < batch * logical_pages) by (nonlinear_arith)
                    requires
                        b < batch,
                        page < logical_pages,
                ;
            }
            table.push(page as u32);
            page = page + 1;
        }
        proof {
            assert(b * logical_pages + logical_pages == (b + 1) * logical_pages) by (nonlinear_arith);
        }
        b = b + 1;
    }
    proof {
        assert(table@ =~= identity_page_table(batch, logical_pages));
    }
    Ok(table)
}

impl DalucOracleGeometry {
    /// Physical geometry of `contract`, with the caller's page table for paged
    /// storage or, when none is supplied, the identity map of each batch's
    /// logical pages onto its first physical pages.
    pub fn new(contract: DalucKvViewContract, supplied_page_table: Option<&[u32]>) -> (r: Result<
        Self,
        DalucOracleError,
    >)
        requires
            contract.layout.topology matches DalucStorageTopology::Paged { page_size, .. }
                ==> page_size > 0,
        ensures
            ({
                let supplied = match supplied_page_table {
                    Some(table) => Some(table@),
                    None => None,
                };
                match geometry_rule(contract, supplied) {
                    Err(e) => r == Err::<Self, DalucOracleError>(e),
                    Ok((capacity, rows, lp, table)) => r matches Ok(g) && {
                        &&& g.capacity_tokens == capacity
                        &&& g.physical_rows == rows
                        &&& g.logical_pages_per_batch == lp
                        &&& g.page_table@ == table
                    },
                }
            }),
    {
        let s = contract.shape;
        let (capacity_tokens, logical_pages_per_batch, page_table) = match contract.layout.topology {
            DalucStorageTopology::Contiguous { capacity_tokens } => {
                let carries = match supplied_page_table {
                    Some(table) => table.len() > 0,
                    None => false,
                };
                if carries {
                    return Err(
                        DalucOracleError::InvalidPageTable(
                            "contiguous topology does not carry a page table",
                        ),
                    );
                }
                (capacity_tokens, 0usize, Vec::new())
            },
            DalucStorageTopology::Paged { page_size, physical_pages_per_batch } => {
                let logical_pages = match s.kv_len.checked_add(page_size - 1) {
                    Some(v) => v / page_size,
                    None => return Err(DalucOracleError::ArithmeticOverflow("ceil division")),
                };
                let entries = match s.batch.checked_mul(logical_pages) {
                    Some(v) => v,
                    None => return Err(DalucOracleError::ArithmeticOverflow("page entries")),
                };
                let table = match supplied_page_table {
                    Some(table) => {
                        require_len("page table", table.len(), entries)?;
                        copy_table(table)
                    },
                    None => {
                        if logical_pages > physical_pages_per_batch {
                            return Err(
                                DalucOracleError::InvalidPageTable(
                                    "identity map exceeds physical page capacity",
                                ),
                            );
                        }
                        identity_table(s.batch, logical_pages, entries)?
                    },
                };
                validate_page_table(table.as_slice(), s.batch, logical_pages, physical_pages_per_batch)?;
                let capacity_tokens = match page_size.checked_mul(physical_pages_per_batch) {
                    Some(v) => v,
                    None => return Err(DalucOracleError::ArithmeticOverflow("paged capacity")),
                };
                (capacity_tokens, logical_pages, table)
            },
        };
        let heads = match s.batch.checked_mul(s.kv_heads) {
            Some(v) => v,
            None => return Err(DalucOracleError::ArithmeticOverflow("physical rows")),
        };
        let physical_rows = match heads.checked_mul(capacity_tokens) {
            Some(v) => v,
            None => return Err(DalucOracleError::ArithmeticOverflow("physical rows")),
        };
        Ok(DalucOracleGeometry { capacity_tokens, physical_rows, logical_pages_per_batch, page_table })
    }
}


/// Token slot of `token` of batch `batch` inside that batch's capacity: the
/// token itself for contiguous storage, else its page's physical page and
/// offset.
pub open spec fn physical_token_rule(
    g: DalucOracleGeometry,
    contract: DalucKvViewContract,
    batch: usize,
    token: usize,
) -> Result<int, DalucOracleError> {
    match contract.layout.topology {
        DalucStorageTopology::Contiguous { .. } => Ok(token as int),
        DalucStorageTopology::Paged { page_size, .. } => {
            let index = batch * g.logical_pages_per_batch + token / page_size;
            let page = g.page_table@[index] as int;
            if batch * g.logical_pages_per_batch > usize::MAX || index > usize::MAX {
                Err(DalucOracleError::ArithmeticOverflow("page table lookup"))
            } else if page * page_size > usize::MAX || page * page_size + token % page_size
                > usize::MAX {
                Err(DalucOracleError::ArithmeticOverflow("physical token"))
            } else {
                Ok(page * page_size + token % page_size)
            }
        },
    }
}

/// Physical row of vector (`batch`, `head`, `token`) under the contract's row
/// order, or why it has none.
pub open spec fn physical_row_rule(
    g: DalucOracleGeometry,
    contract: DalucKvViewContract,
    batch: usize,
    head: usize,
    token: usize,
) -> Result<int, DalucOracleError> {
    let slot = physical_token_rule(g, contract, batch, token);
    let pt = slot->Ok_0;
    let heads = contract.shape.kv_heads as int;
    let cap = g.capacity_tokens as int;
    let overflow = DalucOracleError::ArithmeticOverflow("physical row index");
    let row = match contract.layout.row_order {
        DalucRowOrder::BatchTokenHead => if batch * cap > usize::MAX || batch * cap + pt > usize::MAX
            || (batch * cap + pt) * heads > usize::MAX || (batch * cap + pt) * heads + head
            > usize::MAX {
            Err(overflow)
        } else {
            Ok((batch * cap + pt) * heads + head)
        },
        DalucRowOrder::BatchHeadToken => if batch * heads > usize::MAX || batch * heads + head
            > usize::MAX || (batch * heads + head) * cap > usize::MAX || (batch * heads + head) * cap
            + pt > usize::MAX {
            Err(overflow)
        } else {
            Ok((batch * heads + head) * cap + pt)
        },
    };
    if slot is Err {
        Err(slot->Err_0)
    } else if row is Err {
        row
    } else if row->Ok_0 >= g.physical_rows {
        Err(DalucOracleError::MalformedPayload("physical row outside capacity"))
    } else {
        row
    }
}

impl DalucOracleGeometry {
    /// Physical row holding vector (`batch`, `head`, `token`) in every
    /// per-side plane.
    pub fn physical_row(&self, contract: DalucKvViewContract, batch: usize, head: usize, token: usize) -> (r:
        Result<usize, DalucOracleError>)
        requires
            contract.layout.topology matches DalucStorageTopology::Paged { page_size, .. } ==> (
            page_size > 0 && batch * self.logical_pages_per_batch + token / page_size
                < self.page_table@.len()),
        ensures
            match physical_row_rule(*self, contract, batch, head, token) {
                Ok(row) => r == Ok::<usize, DalucOracleError>(row as usize),
                Err(e) => r == Err::<usize, DalucOracleError>(e),
            },
    {
        let physical_token = match contract.layout.topology {
            DalucStorageTopology::Contiguous { .. } => token,
            DalucStorageTopology::Paged { page_size, .. } => {
                let logical_page = token / page_size;
                let offset = token % page_size;
                let base = match batch.checked_mul(self.logical_pages_per_batch) {
                    Some(v) => v,
                    None => return Err(DalucOracleError::ArithmeticOverflow("page table lookup")),
                };
                let index = match base.checked_add(logical_page) {
                    Some(v) => v,
                    None => return Err(DalucOracleError::ArithmeticOverflow("page table lookup")),
                };
                let page = self.page_table[index] as usize;
                let start = match page.checked_mul(page_size) {
                    Some(v) => v,
                    None => return Err(DalucOracleError::ArithmeticOverflow("physical token")),
                };
                match start.checked_add(offset) {
                    Some(v) => v,
                    None => return Err(DalucOracleError::ArithmeticOverflow("physical token")),
                }
            },
        };
        let overflow = DalucOracleError::ArithmeticOverflow("physical row index");
        let heads = contract.shape.kv_heads;
        let capacity = self.capacity_tokens;
        let row = match contract.layout.row_order {
            DalucRowOrder::BatchTokenHead => {
                let a = match batch.checked_mul(capacity) {
                    Some(v) => v,
                    None => return Err(overflow),
                };
                let b = match a.checked_add(physical_token) {
                    Some(v) => v,
                    None => return Err(overflow),
                };
                let c = match b.checked_mul(heads) {
                    Some(v) => v,
                    None => return Err(overflow),
                };
                match c.checked_add(head) {
                    Some(v) => v,
                    None => return Err(overflow),
                }
            },
            DalucRowOrder::BatchHeadToken => {
                let a = match batch.checked_mul(heads) {
                    Some(v) => v,
                    None => return Err(overflow),
                };
                let b = match a.checked_add(head) {
                    Some(v) => v,
                    None => return Err(overflow),
                };
                let c = match b.checked_mul(capacity) {
                    Some(v) => v,
                    None => return Err(overflow),
                };
                match c.checked_add(physical_token) {
                    Some(v) => v,
                    None => return Err(overflow),
                }
            },
        };
        if row >= self.physical_rows {
            return Err(DalucOracleError::MalformedPayload("physical row outside capacity"));
        }
        Ok(row)
    }
}


/// Every entry from `k` on passes when no failure is found from `k` on.
proof fn lemma_no_page_failure(table: Seq<u32>, lp: usize, pp: usize, k: int, n: int, j: int)
    requires
        first_page_failure(table, lp, pp, k, n) is None,
        0 <= k <= j < n,
    ensures
        page_entry_failure(table, lp, pp, j) is None,
    decreases j - k,
{
    if k < j {
        lemma_no_page_failure(table, lp, pp, k + 1, n, j);
    }
}

/// `q * d + r` with `r < d` determines `q` and `r`.
proof fn lemma_radix_unique(d: int, q1: int, r1: int, q2: int, r2: int)
    requires
        d > 0,
        0 <= r1 < d,
        0 <= r2 < d,
        q1 * d + r1 == q2 * d + r2,
    ensures
        q1 == q2,
        r1 == r2,
{
    lemma_fundamental_div_mod_converse(q1 * d + r1, d, q1, r1);
    lemma_fundamental_div_mod_converse(q2 * d + r2, d, q2, r2);
}

/// In an accepted paged geometry the slot of token `t < kv_len` of batch
/// `b` lies below the capacity, and two tokens of one batch share a slot
/// only if they are the same token.
proof fn lemma_paged_slots(
    g: DalucOracleGeometry,
    contract: DalucKvViewContract,
    supplied: Option<Seq<u32>>,
    b: usize,
    t1: usize,
    t2: usize,
)
    requires
        geometry_rule(contract, supplied) == Ok::<(int, int, int, Seq<u32>), DalucOracleError>(
            (
                g.capacity_tokens as int,
                g.physical_rows as int,
                g.logical_pages_per_batch as int,
                g.page_table@,
            ),
        ),
        contract.layout.topology matches DalucStorageTopology::Paged { page_size, .. }
            && page_size > 0,
        b < contract.shape.batch,
        t1 < contract.shape.kv_len,
        t2 < contract.shape.kv_len,
        physical_token_rule(g, contract, b, t1) is Ok,
        physical_token_rule(g, contract, b, t2) is Ok,
    ensures
        physical_token_rule(g, contract, b, t1)->Ok_0 < g.capacity_tokens,
        physical_token_rule(g, contract, b, t1)->Ok_0 == physical_token_rule(g, contract, b, t2)->Ok_0
            ==> t1 == t2,
{
    let (ps, pp) = match contract.layout.topology {
        DalucStorageTopology::Paged { page_size, physical_pages_per_batch } => (
            page_size,
            physical_pages_per_batch,
        ),
        _ => (1usize, 0usize),
    };
    let lp = g.logical_pages_per_batch;
    let table = g.page_table@;
    let nb = contract.shape.batch;
    let n = nb * lp;
    assert(page_table_rule(table, nb, lp, pp) is Ok);
    assert(g.capacity_tokens == ps * pp);
    assert(table.len() == n);
    let kv = contract.shape.kv_len as int;
    lemma_fundamental_div_mod(kv + ps - 1, ps as int);
    lemma_fundamental_div_mod(t1 as int, ps as int);
    lemma_fundamental_div_mod(t2 as int, ps as int);
    assert(lp == (kv + ps - 1) / (ps as int));
    let l1 = t1 / ps;
    let l2 = t2 / ps;
    assert(l1 < lp && l2 < lp) by (nonlinear_arith)
        requires
            t1 == ps * l1 + t1 % ps,
            t2 == ps * l2 + t2 % ps,
            0 <= t1 % ps,
            0 <= t2 % ps,
            t1 < kv,
            t2 < kv,
            kv + ps - 1 == ps * lp + (kv + ps - 1) % (ps as int),
            (kv + ps - 1) % (ps as int) < ps,
            ps > 0,
    ;
    let k1 = b * lp + l1;
    let k2 = b * lp + l2;
    assert(k1 < n && k2 < n) by (nonlinear_arith)
        requires
            b < nb,
            l1 < lp,
            l2 < lp,
            k1 == b * lp + l1,
            k2 == b * lp + l2,
            n == nb * lp,
            l1 >= 0,
            l2 >= 0,
    ;
    lemma_no_page_failure(table, lp, pp, 0, n, k1);
    lemma_no_page_failure(table, lp, pp, 0, n, k2);
    lemma_batch_of_entry(b as int, lp as int, l1 as int);
    lemma_batch_of_entry(b as int, lp as int, l2 as int);
    let p1 = table[k1 as int] as int;
    let p2 = table[k2 as int] as int;
    assert(p1 < pp && p2 < pp);
    assert(p1 * ps + t1 % ps < ps * pp) by (nonlinear_arith)
        requires
            p1 < pp,
            0 <= t1 % ps < ps,
            p1 >= 0,
    ;
    if p1 * ps + t1 % ps == p2 * ps + t2 % ps {
        lemma_radix_unique(ps as int, p1, (t1 % ps) as int, p2, (t2 % ps) as int);
        if k1 < k2 {
            assert(aliases_earlier(table, b * lp, k2 as int));
        } else if k2 < k1 {
            assert(aliases_earlier(table, b * lp, k1 as int));
        }
        assert(l1 == l2);
    }
}

/// Distinct logical vectors never share a physical row: in a geometry built
/// from `contract` (with every logical token inside the capacity for
/// contiguous storage), two different (batch, KV head, token) triples whose
/// rows exist map to different rows.
pub proof fn lemma_physical_rows_distinct(
    g: DalucOracleGeometry,
    contract: DalucKvViewContract,
    supplied: Option<Seq<u32>>,
    b1: usize,
    h1: usize,
    t1: usize,
    b2: usize,
    h2: usize,
    t2: usize,
)
    requires
        geometry_rule(contract, supplied) == Ok::<(int, int, int, Seq<u32>), DalucOracleError>(
            (
                g.capacity_tokens as int,
                g.physical_rows as int,
                g.logical_pages_per_batch as int,
                g.page_table@,
            ),
        ),
        contract.layout.topology matches DalucStorageTopology::Paged { page_size, .. }
            ==> page_size > 0,
        contract.layout.topology matches DalucStorageTopology::Contiguous { capacity_tokens }
            ==> contract.shape.kv_len <= capacity_tokens,
        b1 < contract.shape.batch && b2 < contract.shape.batch,
        h1 < contract.shape.kv_heads && h2 < contract.shape.kv_heads,
        t1 < contract.shape.kv_len && t2 < contract.shape.kv_len,
        b1 != b2 || h1 != h2 || t1 != t2,
        physical_row_rule(g, contract, b1, h1, t1) is Ok,
        physical_row_rule(g, contract, b2, h2, t2) is Ok,
    ensures
        physical_row_rule(g, contract, b1, h1, t1)->Ok_0 != physical_row_rule(
            g,
            contract,
            b2,
            h2,
            t2,
        )->Ok_0,
{
    let cap = g.capacity_tokens as int;
    let heads = contract.shape.kv_heads as int;
    let pt1 = physical_token_rule(g, contract, b1, t1)->Ok_0;
    let pt2 = physical_token_rule(g, contract, b2, t2)->Ok_0;
    match contract.layout.topology {
        DalucStorageTopology::Paged { .. } => {
            lemma_paged_slots(g, contract, supplied, b1, t1, t1);
            lemma_paged_slots(g, contract, supplied, b2, t2, t2);
            if b1 == b2 {
                lemma_paged_slots(g, contract, supplied, b1, t1, t2);
            }
        },
        DalucStorageTopology::Contiguous { .. } => {},
    }
    assert(0 <= pt1 < cap && 0 <= pt2 < cap);
    assert(b1 == b2 && pt1 == pt2 ==> t1 == t2);
    let row1 = physical_row_rule(g, contract, b1, h1, t1)->Ok_0;
    let row2 = physical_row_rule(g, contract, b2, h2, t2)->Ok_0;
    if row1 == row2 {
        match contract.layout.row_order {
            DalucRowOrder::BatchTokenHead => {
                lemma_radix_unique(heads, b1 * cap + pt1, h1 as int, b2 * cap + pt2, h2 as int);
                lemma_radix_unique(cap, b1 as int, pt1, b2 as int, pt2);
            },
            DalucRowOrder::BatchHeadToken => {
                lemma_radix_unique(cap, b1 * heads + h1, pt1, b2 * heads + h2, pt2);
                lemma_radix_unique(heads, b1 as int, h1 as int, b2 as int, h2 as int);
            },
        }
    }
}


/// A plane's alignment padding has the contract's length and holds only zero
/// bytes.
pub open spec fn plane_padding_rule(contract: DalucKvViewContract, plane: DalucOraclePlane) -> Result<
    (),
    DalucOracleError,
> {
    let logical = bytes_for_bits_spec(plane.spec_logical_bits() as int);
    let bytes = plane.spec_bytes();
    match padding_rule(contract, logical as usize) {
        Err(e) => Err(e),
        Ok(expected) => if plane.spec_alignment_padding_bytes() != expected || bytes.len() != logical
            + expected {
            Err(DalucOracleError::MalformedPayload("alignment padding length mismatch"))
        } else if exists|k: int| logical <= k < bytes.len() && bytes[k] != 0u8 {
            Err(DalucOracleError::MalformedPayload("alignment padding is not zero-filled"))
        } else {
            Ok(())
        },
    }
}

/// Checks that `plane` carries exactly the contract's zero-filled alignment
/// padding after its logical bytes.
pub fn validate_plane_padding(contract: DalucKvViewContract, plane: &DalucOraclePlane) -> (r: Result<
    (),
    DalucOracleError,
>)
    requires
        alignment_is_power_of_two(contract),
    ensures
        r == plane_padding_rule(contract, *plane),
{
    let logical = plane.logical_bytes();
    let expected = padding_bytes(contract, logical)?;
    let bytes = plane.bytes();
    if plane.alignment_padding_bytes() != expected || bytes.len() != logical + expected {
        return Err(DalucOracleError::MalformedPayload("alignment padding length mismatch"));
    }
    let mut k: usize = logical;
    while k < bytes.len()
        invariant
            logical <= k <= bytes@.len(),
            bytes@ == plane.spec_bytes(),
            padding_rule(contract, logical) == Ok::<usize, DalucOracleError>(expected),
            plane.spec_alignment_padding_bytes() == expected,
            bytes@.len() == logical + expected,
            logical == bytes_for_bits_spec(plane.spec_logical_bits() as int),
            forall|j: int| logical <= j < k ==> bytes@[j] == 0u8,
        decreases bytes.len() - k,
    {
        if bytes[k] != 0 {
            proof {
                assert(logical <= k < bytes@.len() && bytes@[k as int] != 0u8);
            }
            return Err(DalucOracleError::MalformedPayload("alignment padding is not zero-filled"));
        }
        k = k + 1;
    }
    Ok(())
}


proof fn lemma_byte_zero_from_bits(b: u8)
    requires
        forall|m: u8| m < 8 ==> (#[trigger] (b >> m) & 1u8) != 1u8,
    ensures
        b == 0u8,
{
    assert((b >> 0u8) & 1u8 != 1u8);
    assert((b >> 1u8) & 1u8 != 1u8);
    assert((b >> 2u8) & 1u8 != 1u8);
    assert((b >> 3u8) & 1u8 != 1u8);
    assert((b >> 4u8) & 1u8 != 1u8);
    assert((b >> 5u8) & 1u8 != 1u8);
    assert((b >> 6u8) & 1u8 != 1u8);
    assert((b >> 7u8) & 1u8 != 1u8);
    assert(b == 0u8) by (bit_vector)
        requires
            (b >> 0u8) & 1u8 != 1u8,
            (b >> 1u8) & 1u8 != 1u8,
            (b >> 2u8) & 1u8 != 1u8,
            (b >> 3u8) & 1u8 != 1u8,
            (b >> 4u8) & 1u8 != 1u8,
            (b >> 5u8) & 1u8 != 1u8,
            (b >> 6u8) & 1u8 != 1u8,
            (b >> 7u8) & 1u8 != 1u8,
    ;
}

/// Every plane packed from integers carries exactly the contract's
/// zero-filled alignment padding, so the payload padding check accepts it.
pub proof fn lemma_packed_plane_padding_valid(
    plane: DalucOraclePlane,
    contract: DalucKvViewContract,
    values: Seq<u32>,
    width: u8,
    order: DalucBitOrder,
)
    requires
        packs(plane, contract, values, width, order),
    ensures
        plane_padding_rule(contract, plane) == Ok::<(), DalucOracleError>(()),
{
    let bits = values.len() * width;
    let logical = bytes_for_bits_spec(bits as int);
    let bytes = plane.spec_bytes();
    assert(8 * logical >= bits) by (nonlinear_arith)
        requires
            logical == (bits + 7) / 8,
            bits >= 0,
    ;
    assert forall|k: int| logical <= k < bytes.len() implies bytes[k] == 0u8 by {
        assert forall|m: u8| m < 8 implies (#[trigger] (bytes[k] >> m) & 1u8) != 1u8 by {
            let w: int = match order {
                DalucBitOrder::Lsb0 => m as int,
                DalucBitOrder::Msb0 => 7 - m as int,
            };
            let st = 8 * k + w;
            lemma_fundamental_div_mod_converse(st, 8, k, w);
            assert(bit_position(w, order) == m as int);
            assert(!packed_bit(values, width as int, order, st));
            assert(stream_bit(bytes, st, order) == packed_bit(values, width as int, order, st));
        }
        lemma_byte_zero_from_bits(bytes[k]);
    }
    assert(!(exists|k: int| logical <= k < bytes.len() && bytes[k] != 0u8));
}


/// Paged storage covers every live token: positive page size, a page table
/// entry for each logical page of each batch, and enough logical pages for
/// `kv_len` tokens. An accepted geometry satisfies it.
pub open spec fn geometry_covers_live(g: DalucOracleGeometry, contract: DalucKvViewContract) -> bool {
    contract.layout.topology matches DalucStorageTopology::Paged { page_size, .. } ==> {
        &&& page_size > 0
        &&& contract.shape.batch * g.logical_pages_per_batch <= g.page_table@.len()
        &&& contract.shape.kv_len <= g.logical_pages_per_batch * page_size
    }
}

/// In a geometry that covers the live tokens, token `t < kv_len` of batch `b`
/// has a page table entry.
pub(crate) proof fn lemma_page_entry_exists(g: DalucOracleGeometry, contract: DalucKvViewContract, b: usize, t: usize)
    requires
        geometry_covers_live(g, contract),
        b < contract.shape.batch,
        t < contract.shape.kv_len,
    ensures
        contract.layout.topology matches DalucStorageTopology::Paged { page_size, .. } ==> (
        page_size > 0 && b * g.logical_pages_per_batch + t / page_size < g.page_table@.len()),
{
    match contract.layout.topology {
        DalucStorageTopology::Paged { page_size, .. } => {
            let ps = page_size as int;
            let lp = g.logical_pages_per_batch as int;
            let nb = contract.shape.batch as int;
            let ti = t as int;
            lemma_fundamental_div_mod(ti, ps);
            let l = ti / ps;
            assert(l < lp) by (nonlinear_arith)
                requires
                    ti == ps * l + ti % ps,
                    0 <= ti % ps,
                    ti < contract.shape.kv_len,
                    contract.shape.kv_len <= lp * ps,
                    ps > 0,
            ;
            assert(b * lp + l < nb * lp) by (nonlinear_arith)
                requires
                    b < nb,
                    l < lp,
                    l >= 0,
            ;
        },
        DalucStorageTopology::Contiguous { .. } => {},
    }
}

/// An accepted geometry covers the live tokens of its contract.
pub proof fn lemma_accepted_geometry_covers_live(
    g: DalucOracleGeometry,
    contract: DalucKvViewContract,
    supplied: Option<Seq<u32>>,
)
    requires
        contract.layout.topology matches DalucStorageTopology::Paged { page_size, .. }
            ==> page_size > 0,
        geometry_rule(contract, supplied) == Ok::<(int, int, int, Seq<u32>), DalucOracleError>(
            (
                g.capacity_tokens as int,
                g.physical_rows as int,
                g.logical_pages_per_batch as int,
                g.page_table@,
            ),
        ),
    ensures
        geometry_covers_live(g, contract),
{
    match contract.layout.topology {
        DalucStorageTopology::Paged { page_size, physical_pages_per_batch } => {
            let ps = page_size as int;
            let kv = contract.shape.kv_len as int;
            let lp = g.logical_pages_per_batch as int;
            assert(lp == (kv + ps - 1) / ps);
            lemma_fundamental_div_mod(kv + ps - 1, ps);
            assert(kv <= lp * ps) by (nonlinear_arith)
                requires
                    kv + ps - 1 == ps * lp + (kv + ps - 1) % ps,
                    (kv + ps - 1) % ps < ps,
            ;
            let table = if supplied is Some {
                supplied->Some_0
            } else {
                identity_page_table(contract.shape.batch, lp as usize)
            };
            assert(g.page_table@ == table);
            assert(table.len() == contract.shape.batch * lp);
        },
        DalucStorageTopology::Contiguous { .. } => {},
    }
}

} // verus!
