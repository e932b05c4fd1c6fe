//! Tensor data in host memory, and the bytes that travel to and from the device.

use vstd::arithmetic::power::pow;
use vstd::prelude::*;

verus! {

/// The type of a tensor's elements.
#[derive(Clone, Copy, Debug, PartialEq, Eq, Structural)]
pub enum DType {
    U8,
    U32,
    I16,
    I32,
    I64,
    BF16,
    F16,
    F32,
    F64,
    F8E4M3,
    F6E2M3,
    F6E3M2,
    F4,
    F8E8M0,
}

/// Which end of a number comes first in memory.
#[derive(Clone, Copy, Debug, PartialEq, Eq, Structural)]
pub enum ByteOrder {
    LittleEndian,
    BigEndian,
}

/// Tensor data in host memory. Floating-point elements are held by their bits.
/// The formats below a byte are held as the bytes that they are packed into.
#[derive(Debug)]
pub enum CpuStorage {
    U8(Vec<u8>),
    U32(Vec<u32>),
    I16(Vec<i16>),
    I32(Vec<i32>),
    I64(Vec<i64>),
    BF16(Vec<u16>),
    F16(Vec<u16>),
    F32(Vec<u32>),
    F64(Vec<u64>),
    F8E4M3(Vec<u8>),
    F6E2M3(Vec<u8>),
    F6E3M2(Vec<u8>),
    F4(Vec<u8>),
    F8E8M0(Vec<u8>),
}

/// What a storage holds: the type of its elements, and each element's bits read
/// as an unsigned number.
#[verifier::ext_equal]
pub struct StorageModel {
    pub dtype: DType,
    pub bits: Seq<nat>,
}

impl DType {
    /// The number of bytes of one stored element.
    pub open spec fn width(self) -> nat {
        match self {
            DType::U32 | DType::I32 | DType::F32 => 4,
            DType::I64 | DType::F64 => 8,
            DType::I16 | DType::BF16 | DType::F16 => 2,
            _ => 1,
        }
    }

    /// The name of the type.
    pub open spec fn name_text(self) -> Seq<char> {
        match self {
            DType::U8 => "U8"@,
            DType::U32 => "U32"@,
            DType::I16 => "I16"@,
            DType::I32 => "I32"@,
            DType::I64 => "I64"@,
            DType::BF16 => "BF16"@,
            DType::F16 => "F16"@,
            DType::F32 => "F32"@,
            DType::F64 => "F64"@,
            DType::F8E4M3 => "F8E4M3"@,
            DType::F6E2M3 => "F6E2M3"@,
            DType::F6E3M2 => "F6E3M2"@,
            DType::F4 => "F4"@,
            DType::F8E8M0 => "F8E8M0"@,
        }
    }

    /// The name of the type.
    pub fn name(self) -> (name: &'static str)
        ensures
            name@ == self.name_text(),
    {
        match self {
            DType::U8 => "U8",
            DType::U32 => "U32",
            DType::I16 => "I16",
            DType::I32 => "I32",
            DType::I64 => "I64",
            DType::BF16 => "BF16",
            DType::F16 => "F16",
            DType::F32 => "F32",
            DType::F64 => "F64",
            DType::F8E4M3 => "F8E4M3",
            DType::F6E2M3 => "F6E2M3",
            DType::F6E3M2 => "F6E3M2",
            DType::F4 => "F4",
            DType::F8E8M0 => "F8E8M0",
        }
    }

    /// The number of bytes of one stored element.
    pub fn element_size(self) -> (size: usize)
        ensures
            size == self.width(),
    {
        match self {
            DType::U32 | DType::I32 | DType::F32 => 4,
            DType::I64 | DType::F64 => 8,
            DType::I16 | DType::BF16 | DType::F16 => 2,
            _ => 1,
        }
    }
}

impl View for CpuStorage {
    type V = StorageModel;

    open spec fn view(&self) -> StorageModel {
        match self {
            CpuStorage::U8(v) => StorageModel {
                dtype: DType::U8,
                bits: v@.map_values(|x: u8| x as nat),
            },
            CpuStorage::U32(v) => StorageModel {
                dtype: DType::U32,
                bits: v@.map_values(|x: u32| x as nat),
            },
            CpuStorage::I16(v) => StorageModel {
                dtype: DType::I16,
                bits: v@.map_values(|x: i16| (x as u16) as nat),
            },
            CpuStorage::I32(v) => StorageModel {
                dtype: DType::I32,
                bits: v@.map_values(|x: i32| (x as u32) as nat),
            },
            CpuStorage::I64(v) => StorageModel {
                dtype: DType::I64,
                bits: v@.map_values(|x: i64| (x as u64) as nat),
            },
            CpuStorage::BF16(v) => StorageModel {
                dtype: DType::BF16,
                bits: v@.map_values(|x: u16| x as nat),
            },
            CpuStorage::F16(v) => StorageModel {
                dtype: DType::F16,
                bits: v@.map_values(|x: u16| x as nat),
            },
            CpuStorage::F32(v) => StorageModel {
                dtype: DType::F32,
                bits: v@.map_values(|x: u32| x as nat),
            },
            CpuStorage::F64(v) => StorageModel {
                dtype: DType::F64,
                bits: v@.map_values(|x: u64| x as nat),
            },
            CpuStorage::F8E4M3(v) => StorageModel {
                dtype: DType::F8E4M3,
                bits: v@.map_values(|x: u8| x as nat),
            },
            CpuStorage::F6E2M3(v) => StorageModel {
                dtype: DType::F6E2M3,
                bits: v@.map_values(|x: u8| x as nat),
            },
            CpuStorage::F6E3M2(v) => StorageModel {
                dtype: DType::F6E3M2,
                bits: v@.map_values(|x: u8| x as nat),
            },
            CpuStorage::F4(v) => StorageModel {
                dtype: DType::F4,
                bits: v@.map_values(|x: u8| x as nat),
            },
            CpuStorage::F8E8M0(v) => StorageModel {
                dtype: DType::F8E8M0,
                bits: v@.map_values(|x: u8| x as nat),
            },
        }
    }
}

/// The `width` low bytes of `value`, the lowest first.
pub open spec fn little_endian(width: nat, value: nat) -> Seq<u8>
    decreases width,
{
    if width == 0 {
        seq![]
    } else {
        seq![(value % 256) as u8] + little_endian((width - 1) as nat, value / 256)
    }
}

/// The number that `bytes` spell, the lowest byte first.
pub open spec fn little_endian_value(bytes: Seq<u8>) -> nat
    decreases bytes.len(),
{
    if bytes.len() == 0 {
        0
    } else {
        bytes[0] as nat + 256 * little_endian_value(bytes.drop_first())
    }
}

impl ByteOrder {
    /// The `width` low bytes of `value` in this order.
    pub open spec fn encode(self, width: nat, value: nat) -> Seq<u8> {
        match self {
            ByteOrder::LittleEndian => little_endian(width, value),
            ByteOrder::BigEndian => little_endian(width, value).reverse(),
        }
    }

    /// The number that `bytes` spell in this order.
    pub open spec fn decode(self, bytes: Seq<u8>) -> nat {
        match self {
            ByteOrder::LittleEndian => little_endian_value(bytes),
            ByteOrder::BigEndian => little_endian_value(bytes.reverse()),
        }
    }

    /// The bytes of each value, one after the other.
    pub open spec fn encode_all(self, width: nat, values: Seq<nat>) -> Seq<u8>
        decreases values.len(),
    {
        if values.len() == 0 {
            seq![]
        } else {
            self.encode_all(width, values.drop_last()) + self.encode(width, values.last())
        }
    }

    /// The numbers that every `width` bytes of `bytes` spell, one after the other.
    pub open spec fn decode_all(self, width: nat, bytes: Seq<u8>) -> Seq<nat>
        recommends
            width > 0,
    {
        Seq::new(
            bytes.len() / width,
            |i: int| self.decode(bytes.subrange(i * width, i * width + width)),
        )
    }
}

impl StorageModel {
    /// The elements as they lie in memory.
    pub open spec fn bytes(self, order: ByteOrder) -> Seq<u8> {
        order.encode_all(self.dtype.width(), self.bits)
    }

    /// The number of bytes that the elements take.
    pub open spec fn byte_len(self) -> nat {
        self.bits.len() * self.dtype.width()
    }

    /// Every element's bits fit the width of its type.
    pub open spec fn wf(self) -> bool {
        forall|i: int|
            0 <= i < self.bits.len() ==> (#[trigger] self.bits[i]) < pow(
                256,
                self.dtype.width(),
            )
    }
}

impl CpuStorage {
    /// The type of the elements.
    pub fn dtype(&self) -> (dtype: DType)
        ensures
            dtype == self@.dtype,
    {
        match self {
            CpuStorage::U8(_) => DType::U8,
            CpuStorage::U32(_) => DType::U32,
            CpuStorage::I16(_) => DType::I16,
            CpuStorage::I32(_) => DType::I32,
            CpuStorage::I64(_) => DType::I64,
            CpuStorage::BF16(_) => DType::BF16,
            CpuStorage::F16(_) => DType::F16,
            CpuStorage::F32(_) => DType::F32,
            CpuStorage::F64(_) => DType::F64,
            CpuStorage::F8E4M3(_) => DType::F8E4M3,
            CpuStorage::F6E2M3(_) => DType::F6E2M3,
            CpuStorage::F6E3M2(_) => DType::F6E3M2,
            CpuStorage::F4(_) => DType::F4,
            CpuStorage::F8E8M0(_) => DType::F8E8M0,
        }
    }

    /// The number of elements.
    pub fn len(&self) -> (len: usize)
        ensures
            len == self@.bits.len(),
    {
        match self {
            CpuStorage::U8(v) => v.len(),
            CpuStorage::U32(v) => v.len(),
            CpuStorage::I16(v) => v.len(),
            CpuStorage::I32(v) => v.len(),
            CpuStorage::I64(v) => v.len(),
            CpuStorage::BF16(v) => v.len(),
            CpuStorage::F16(v) => v.len(),
            CpuStorage::F32(v) => v.len(),
            CpuStorage::F64(v) => v.len(),
            CpuStorage::F8E4M3(v) => v.len(),
            CpuStorage::F6E2M3(v) => v.len(),
            CpuStorage::F6E3M2(v) => v.len(),
            CpuStorage::F4(v) => v.len(),
            CpuStorage::F8E8M0(v) => v.len(),
        }
    }

    /// The bits of one element.
    fn element_bits(&self, i: usize) -> (bits: u64)
        requires
            i < self@.bits.len(),
        ensures
            bits == self@.bits[i as int],
    {
        match self {
            CpuStorage::U8(v) => v[i] as u64,
            CpuStorage::U32(v) => v[i] as u64,
            CpuStorage::I16(v) => v[i] as u16 as u64,
            CpuStorage::I32(v) => v[i] as u32 as u64,
            CpuStorage::I64(v) => v[i] as u64,
            CpuStorage::BF16(v) => v[i] as u64,
            CpuStorage::F16(v) => v[i] as u64,
            CpuStorage::F32(v) => v[i] as u64,
            CpuStorage::F64(v) => v[i],
            CpuStorage::F8E4M3(v) => v[i] as u64,
            CpuStorage::F6E2M3(v) => v[i] as u64,
            CpuStorage::F6E3M2(v) => v[i] as u64,
            CpuStorage::F4(v) => v[i] as u64,
            CpuStorage::F8E8M0(v) => v[i] as u64,
        }
    }

    /// Replaces one element by the one with these bits.
    fn set_element_bits(&mut self, i: usize, bits: u64)
        requires
            i < old(self)@.bits.len(),
            bits < pow(256, old(self)@.dtype.width()),
        ensures
            final(self)@.dtype == old(self)@.dtype,
            final(self)@.bits == old(self)@.bits.update(i as int, bits as nat),
    {
        proof {
            reveal_with_fuel(pow, 9);
            assert(bits <= 0xffff ==> bits as u16 as i16 as u16 == bits) by (bit_vector);
            assert(bits <= 0xffff_ffff ==> bits as u32 as i32 as u32 == bits) by (bit_vector);
            assert(bits as i64 as u64 == bits) by (bit_vector);
        }
        match self {
            CpuStorage::U8(v) => { v[i] = bits as u8; },
            CpuStorage::U32(v) => { v[i] = bits as u32; },
            CpuStorage::I16(v) => { v[i] = bits as u16 as i16; },
            CpuStorage::I32(v) => { v[i] = bits as u32 as i32; },
            CpuStorage::I64(v) => { v[i] = bits as i64; },
            CpuStorage::BF16(v) => { v[i] = bits as u16; },
            CpuStorage::F16(v) => { v[i] = bits as u16; },
            CpuStorage::F32(v) => { v[i] = bits as u32; },
            CpuStorage::F64(v) => { v[i] = bits; },
            CpuStorage::F8E4M3(v) => { v[i] = bits as u8; },
            CpuStorage::F6E2M3(v) => { v[i] = bits as u8; },
            CpuStorage::F6E3M2(v) => { v[i] = bits as u8; },
            CpuStorage::F4(v) => { v[i] = bits as u8; },
            CpuStorage::F8E8M0(v) => { v[i] = bits as u8; },
        }
        assert(self@.bits =~= old(self)@.bits.update(i as int, bits as nat));
    }
}

impl Clone for CpuStorage {
    fn clone(&self) -> (copy: Self)
        ensures
            copy@ == self@,
    {
        let copy = match self {
            CpuStorage::U8(v) => CpuStorage::U8(v.clone()),
            CpuStorage::U32(v) => CpuStorage::U32(v.clone()),
            CpuStorage::I16(v) => CpuStorage::I16(v.clone()),
            CpuStorage::I32(v) => CpuStorage::I32(v.clone()),
            CpuStorage::I64(v) => CpuStorage::I64(v.clone()),
            CpuStorage::BF16(v) => CpuStorage::BF16(v.clone()),
            CpuStorage::F16(v) => CpuStorage::F16(v.clone()),
            CpuStorage::F32(v) => CpuStorage::F32(v.clone()),
            CpuStorage::F64(v) => CpuStorage::F64(v.clone()),
            CpuStorage::F8E4M3(v) => CpuStorage::F8E4M3(v.clone()),
            CpuStorage::F6E2M3(v) => CpuStorage::F6E2M3(v.clone()),
            CpuStorage::F6E3M2(v) => CpuStorage::F6E3M2(v.clone()),
            CpuStorage::F4(v) => CpuStorage::F4(v.clone()),
            CpuStorage::F8E8M0(v) => CpuStorage::F8E8M0(v.clone()),
        };
        assert(copy@ =~= self@);
        copy
    }
}

/// Appends the `width` low bytes of `value` to `out`.
fn push_encoded(out: &mut Vec<u8>, order: ByteOrder, width: usize, value: u64)
    requires
        width <= 8,
    ensures
        final(out)@ == old(out)@ + order.encode(width as nat, value as nat),
{
    let ghost start = out@;
    let mut low: Vec<u8> = Vec::new();
    let mut rest: u64 = value;
    let mut j: usize = 0;
    while j < width
        invariant
            j <= width,
            low@.len() == j,
            little_endian(width as nat, value as nat) == low@ + little_endian(
                (width - j) as nat,
                rest as nat,
            ),
        decreases width - j,
    {
        let ghost before = low@;
        low.push((rest % 256) as u8);
        proof {
            let tail = little_endian((width - j - 1) as nat, (rest / 256) as nat);
            assert(before + (seq![(rest % 256) as u8] + tail) =~= low@ + tail);
        }
        rest = rest / 256;
        j += 1;
    }
    assert(low@ =~= little_endian(width as nat, value as nat));
    match order {
        ByteOrder::LittleEndian => {
            out.append(&mut low);
        },
        ByteOrder::BigEndian => {
            let mut left: usize = width;
            while left > 0
                invariant
                    left <= width,
                    low@.len() == width,
                    out@ == start + low@.reverse().take(width - left),
                decreases left,
            {
                left -= 1;
                let byte: u8 = low[left];
                out.push(byte);
                assert(low@.reverse().take(width - left) =~= low@.reverse().take(
                    width - left - 1,
                ).push(byte));
            }
            assert(low@.reverse().take(width as int) =~= low@.reverse());
        },
    }
}

/// The number that the `width` bytes from `start` on spell.
fn decoded(bytes: &Vec<u8>, order: ByteOrder, start: usize, width: usize) -> (value: u64)
    requires
        width <= 8,
        start + width <= bytes.len(),
    ensures
        value == order.decode(bytes@.subrange(start as int, start + width)),
{
    let ghost piece = bytes@.subrange(start as int, start + width);
    let ghost low_first = match order {
        ByteOrder::LittleEndian => piece,
        ByteOrder::BigEndian => piece.reverse(),
    };
    let mut value: u64 = 0;
    let mut left: usize = width;
    assert(low_first.skip(width as int) =~= seq![]);
    proof {
        reveal_with_fuel(pow, 9);
    }
    while left > 0
        invariant
            left <= width <= 8,
            start + width <= bytes.len(),
            piece == bytes@.subrange(start as int, start + width),
            low_first == (match order {
                ByteOrder::LittleEndian => piece,
                ByteOrder::BigEndian => piece.reverse(),
            }),
            value == little_endian_value(low_first.skip(left as int)),
            value < pow(256, (width - left) as nat),
        decreases left,
    {
        left -= 1;
        let at: usize = match order {
            ByteOrder::LittleEndian => start + left,
            ByteOrder::BigEndian => start + (width - 1 - left),
        };
        let byte: u8 = bytes[at];
        proof {
            assert(low_first[left as int] == byte);
            let longer = low_first.skip(left as int);
            assert(longer.drop_first() =~= low_first.skip(left + 1));
            let used = (width - left - 1) as nat;
            reveal_with_fuel(pow, 9);
            assert(pow(256, used) <= 0x100_0000_0000_0000);
        }
        value = value * 256 + byte as u64;
    }
    assert(low_first.skip(0) =~= low_first);
    value
}

/// The elements of `storage` as they lie in memory, in the given byte order.
pub fn cpu_storage_as_bytes(storage: &CpuStorage, order: ByteOrder) -> (bytes: Vec<u8>)
    ensures
        bytes@ == storage@.bytes(order),
{
    let len: usize = storage.len();
    let width: usize = storage.dtype().element_size();
    let mut bytes: Vec<u8> = Vec::new();
    let mut i: usize = 0;
    while i < len
        invariant
            i <= len,
            len == storage@.bits.len(),
            width == storage@.dtype.width(),
            bytes@ == order.encode_all(width as nat, storage@.bits.take(i as int)),
        decreases len - i,
    {
        push_encoded(&mut bytes, order, width, storage.element_bits(i));
        proof {
            let longer = storage@.bits.take(i + 1);
            assert(longer.drop_last() =~= storage@.bits.take(i as int));
        }
        i += 1;
    }
    assert(storage@.bits.take(len as int) =~= storage@.bits);
    bytes
}

/// The bytes that spell a value are as many as asked for.
proof fn lemma_encode_len(order: ByteOrder, width: nat, value: nat)
    ensures
        order.encode(width, value).len() == width,
        little_endian(width, value).len() == width,
    decreases width,
{
    if width > 0 {
        lemma_encode_len(order, (width - 1) as nat, value / 256);
    }
}

/// Bytes spell a number below the power of 256 that their count gives.
proof fn lemma_little_endian_value_bound(bytes: Seq<u8>)
    ensures
        little_endian_value(bytes) < pow(256, bytes.len()),
    decreases bytes.len(),
{
    reveal(pow);
    if bytes.len() > 0 {
        lemma_little_endian_value_bound(bytes.drop_first());
    }
}

/// Bytes spell a number below the power of 256 that their count gives.
proof fn lemma_decode_bound(order: ByteOrder, bytes: Seq<u8>)
    ensures
        order.decode(bytes) < pow(256, bytes.len()),
{
    lemma_little_endian_value_bound(bytes);
    lemma_little_endian_value_bound(bytes.reverse());
}

proof fn lemma_little_endian_of_value(bytes: Seq<u8>)
    ensures
        little_endian(bytes.len(), little_endian_value(bytes)) == bytes,
    decreases bytes.len(),
{
    if bytes.len() > 0 {
        let rest = bytes.drop_first();
        lemma_little_endian_of_value(rest);
        assert(bytes =~= seq![bytes[0]] + rest);
    } else {
        assert(bytes =~= seq![]);
    }
}

proof fn lemma_value_of_little_endian(width: nat, value: nat)
    requires
        value < pow(256, width),
    ensures
        little_endian_value(little_endian(width, value)) == value,
    decreases width,
{
    reveal(pow);
    if width > 0 {
        let rest = little_endian((width - 1) as nat, value / 256);
        lemma_value_of_little_endian((width - 1) as nat, value / 256);
        assert(little_endian(width, value).drop_first() =~= rest);
    }
}

/// Bytes that were decoded are encoded to the same bytes, and the other way round.
proof fn lemma_encode_decode(order: ByteOrder, width: nat, value: nat, bytes: Seq<u8>)
    ensures
        value < pow(256, width) ==> order.decode(order.encode(width, value)) == value,
        order.encode(bytes.len(), order.decode(bytes)) == bytes,
{
    lemma_little_endian_of_value(bytes);
    lemma_little_endian_of_value(bytes.reverse());
    assert(bytes.reverse().reverse() =~= bytes);
    lemma_encode_len(order, width, value);
    let low = little_endian(width, value);
    assert(low.reverse().reverse() =~= low);
    if value < pow(256, width) {
        lemma_value_of_little_endian(width, value);
    }
}

proof fn lemma_encode_all_len(order: ByteOrder, width: nat, values: Seq<nat>)
    ensures
        order.encode_all(width, values).len() == values.len() * width,
    decreases values.len(),
{
    if values.len() > 0 {
        lemma_encode_all_len(order, width, values.drop_last());
        lemma_encode_len(order, width, values.last());
        assert(values.len() * width == (values.len() - 1) * width + width) by (nonlinear_arith)
            requires
                values.len() > 0,
        ;
    } else {
        assert(0 * width == 0) by (nonlinear_arith);
    }
}

/// The `i`-th piece of encoded values is the `i`-th value encoded.
proof fn lemma_encode_all_piece(order: ByteOrder, width: nat, values: Seq<nat>, i: int)
    requires
        0 <= i < values.len(),
    ensures
        0 <= i * width,
        i * width + width <= order.encode_all(width, values).len(),
        order.encode_all(width, values).subrange(i * width, i * width + width) == order.encode(
            width,
            values[i],
        ),
    decreases values.len(),
{
    let init = values.drop_last();
    let head = order.encode_all(width, init);
    lemma_encode_all_len(order, width, values);
    lemma_encode_all_len(order, width, init);
    lemma_encode_len(order, width, values.last());
    assert(0 <= i * width) by (nonlinear_arith)
        requires
            0 <= i,
    ;
    if i < init.len() {
        lemma_encode_all_piece(order, width, init, i);
        assert(order.encode_all(width, values).subrange(i * width, i * width + width)
            =~= head.subrange(i * width, i * width + width));
    } else {
        assert(head.len() == i * width);
        assert(order.encode_all(width, values).subrange(i * width, i * width + width)
            =~= order.encode(width, values.last()));
    }
}

/// As many bytes travel as the elements take.
pub proof fn law_byte_len(model: StorageModel, order: ByteOrder)
    ensures
        model.bytes(order).len() == model.byte_len(),
        model.byte_len() == model.bits.len() * model.dtype.width(),
{
    lemma_encode_all_len(order, model.dtype.width(), model.bits);
}

/// A storage's elements fit the width of their type.
pub proof fn law_storage_is_well_formed(storage: CpuStorage)
    ensures
        storage@.wf(),
{
    reveal_with_fuel(pow, 9);
}

/// Reading back the bytes of some elements gives those elements.
pub proof fn law_bytes_round_trip(model: StorageModel, order: ByteOrder)
    requires
        model.wf(),
    ensures
        order.decode_all(model.dtype.width(), model.bytes(order)) == model.bits,
{
    let width = model.dtype.width();
    let bytes = model.bytes(order);
    law_byte_len(model, order);
    assert(bytes.len() / width == model.bits.len()) by {
        vstd::arithmetic::div_mod::lemma_div_by_multiple(model.bits.len() as int, width as int);
    }
    assert forall|i: int| 0 <= i < model.bits.len() implies order.decode_all(width, bytes)[i]
        == model.bits[i] by {
        lemma_encode_all_piece(order, width, model.bits, i);
        lemma_encode_decode(order, width, model.bits[i], seq![]);
    }
    assert(order.decode_all(width, bytes) =~= model.bits);
}

/// The elements that some bytes spell have those bytes.
pub proof fn law_elements_round_trip(bytes: Seq<u8>, width: nat, order: ByteOrder)
    requires
        width > 0,
        bytes.len() % width == 0,
    ensures
        order.encode_all(width, order.decode_all(width, bytes)) == bytes,
{
    let values = order.decode_all(width, bytes);
    let again = order.encode_all(width, values);
    vstd::arithmetic::div_mod::lemma_fundamental_div_mod(bytes.len() as int, width as int);
    vstd::arithmetic::mul::lemma_mul_is_commutative(width as int, values.len() as int);
    lemma_encode_all_len(order, width, values);
    assert forall|j: int| 0 <= j < bytes.len() implies again[j] == bytes[j] by {
        let i = j / width as int;
        vstd::arithmetic::div_mod::lemma_fundamental_div_mod(j, width as int);
        vstd::arithmetic::mul::lemma_mul_is_commutative(width as int, i);
        assert(i < values.len()) by (nonlinear_arith)
            requires
                i * width <= j,
                j < values.len() * width,
        ;
        lemma_encode_all_piece(order, width, values, i);
        assert(i * width + width <= bytes.len());
        let piece = bytes.subrange(i * width, i * width + width);
        lemma_encode_decode(order, width, 0, piece);
        assert(again.subrange(i * width, i * width + width)[j - i * width] == piece[j - i * width]);
    }
    assert(again =~= bytes);
}

/// Replaces the elements of `storage` by those that `bytes` spell.
pub fn cpu_storage_write_bytes(storage: &mut CpuStorage, order: ByteOrder, bytes: &Vec<u8>)
    requires
        bytes@.len() == old(storage)@.byte_len(),
    ensures
        final(storage)@ == (StorageModel {
            dtype: old(storage)@.dtype,
            bits: order.decode_all(old(storage)@.dtype.width(), bytes@),
        }),
        final(storage)@.bytes(order) == bytes@,
{
    let len: usize = storage.len();
    let width: usize = storage.dtype().element_size();
    let ghost wanted = order.decode_all(width as nat, bytes@);
    proof {
        vstd::arithmetic::div_mod::lemma_div_by_multiple(len as int, width as int);
        vstd::arithmetic::div_mod::lemma_mod_multiples_basic(len as int, width as int);
        assert(wanted.len() == len);
        law_elements_round_trip(bytes@, width as nat, order);
    }
    let mut i: usize = 0;
    let mut start: usize = 0;
    while i < len
        invariant
            i <= len,
            start == i * width,
            0 < width <= 8,
            bytes.len() == len * width,
            width == storage@.dtype.width(),
            storage@.dtype == old(storage)@.dtype,
            storage@.bits.len() == len,
            wanted == order.decode_all(width as nat, bytes@),
            wanted.len() == len,
            forall|j: int| 0 <= j < i ==> storage@.bits[j] == wanted[j],
        decreases len - i,
    {
        assert(start + width <= bytes.len()) by (nonlinear_arith)
            requires
                start == i * width,
                i < len,
                bytes.len() == len * width,
        ;
        let bits: u64 = decoded(bytes, order, start, width);
        proof {
            lemma_decode_bound(order, bytes@.subrange(start as int, start + width));
            assert((i + 1) * width == i * width + width) by (nonlinear_arith);
        }
        storage.set_element_bits(i, bits);
        i += 1;
        start += width;
    }
    assert(storage@.bits =~= wanted);
}

/// The bytes of a value are its digits to the base 256, the lowest first.
proof fn lemma_little_endian_at(width: nat, value: nat, j: int)
    requires
        0 <= j < width,
    ensures
        little_endian(width, value).len() == width,
        little_endian(width, value)[j] as int == (value as int / pow(256, j as nat)) % 256,
    decreases width,
{
    reveal(pow);
    lemma_encode_len(ByteOrder::LittleEndian, width, value);
    if j > 0 {
        let rest = little_endian((width - 1) as nat, value / 256);
        lemma_little_endian_at((width - 1) as nat, value / 256, j - 1);
        assert(little_endian(width, value)[j] == rest[j - 1]);
        vstd::arithmetic::power::lemma_pow_positive(256, (j - 1) as nat);
        vstd::arithmetic::div_mod::lemma_div_denominator(
            value as int,
            256,
            pow(256, (j - 1) as nat),
        );
    }
}

/// What travels is each element's own bytes, element by element: byte `j` of the
/// element number `i` is a digit of that element to the base 256, counted from
/// the low end or from the high end as the byte order says.
pub proof fn law_byte_at(model: StorageModel, order: ByteOrder, i: int, j: int)
    requires
        0 <= i < model.bits.len(),
        0 <= j < model.dtype.width(),
    ensures
        model.bytes(order).len() == model.bits.len() * model.dtype.width(),
        0 <= i * model.dtype.width() + j < model.bytes(order).len(),
        order == ByteOrder::LittleEndian ==> model.bytes(order)[i * model.dtype.width() + j] as int
            == (model.bits[i] as int / pow(256, j as nat)) % 256,
        order == ByteOrder::BigEndian ==> model.bytes(order)[i * model.dtype.width() + j] as int
            == (model.bits[i] as int / pow(256, (model.dtype.width() - 1 - j) as nat)) % 256,
{
    let width = model.dtype.width();
    let bytes = model.bytes(order);
    lemma_encode_all_len(order, width, model.bits);
    lemma_encode_all_piece(order, width, model.bits, i);
    let piece = order.encode(width, model.bits[i]);
    assert(bytes.subrange(i * width, i * width + width)[j] == bytes[i * width + j]);
    match order {
        ByteOrder::LittleEndian => {
            lemma_little_endian_at(width, model.bits[i], j);
        },
        ByteOrder::BigEndian => {
            lemma_little_endian_at(width, model.bits[i], width - 1 - j);
            assert(piece[j] == little_endian(width, model.bits[i])[width - 1 - j]);
        },
    }
}

/// How much memory an element of each type takes.
pub proof fn law_widths(dtype: DType)
    ensures
        dtype.width() == match dtype {
            DType::U8 => 1nat,
            DType::U32 => 4,
            DType::I16 => 2,
            DType::I32 => 4,
            DType::I64 => 8,
            DType::BF16 => 2,
            DType::F16 => 2,
            DType::F32 => 4,
            DType::F64 => 8,
            DType::F8E4M3 => 1,
            DType::F6E2M3 => 1,
            DType::F6E3M2 => 1,
            DType::F4 => 1,
            DType::F8E8M0 => 1,
        },
{
}

/// Types are told apart by their names, which are those of the variants.
pub proof fn law_type_names(dtype: DType)
    ensures
        dtype is U8 ==> dtype.name_text() == seq!['U', '8'],
        dtype is U32 ==> dtype.name_text() == seq!['U', '3', '2'],
        dtype is I16 ==> dtype.name_text() == seq!['I', '1', '6'],
        dtype is I32 ==> dtype.name_text() == seq!['I', '3', '2'],
        dtype is I64 ==> dtype.name_text() == seq!['I', '6', '4'],
        dtype is BF16 ==> dtype.name_text() == seq!['B', 'F', '1', '6'],
        dtype is F16 ==> dtype.name_text() == seq!['F', '1', '6'],
        dtype is F32 ==> dtype.name_text() == seq!['F', '3', '2'],
        dtype is F64 ==> dtype.name_text() == seq!['F', '6', '4'],
        dtype is F8E4M3 ==> dtype.name_text() == seq!['F', '8', 'E', '4', 'M', '3'],
        dtype is F6E2M3 ==> dtype.name_text() == seq!['F', '6', 'E', '2', 'M', '3'],
        dtype is F6E3M2 ==> dtype.name_text() == seq!['F', '6', 'E', '3', 'M', '2'],
        dtype is F4 ==> dtype.name_text() == seq!['F', '4'],
        dtype is F8E8M0 ==> dtype.name_text() == seq!['F', '8', 'E', '8', 'M', '0'],
{
    reveal_strlit("U8");
    reveal_strlit("U32");
    reveal_strlit("I16");
    reveal_strlit("I32");
    reveal_strlit("I64");
    reveal_strlit("BF16");
    reveal_strlit("F16");
    reveal_strlit("F32");
    reveal_strlit("F64");
    reveal_strlit("F8E4M3");
    reveal_strlit("F6E2M3");
    reveal_strlit("F6E3M2");
    reveal_strlit("F4");
    reveal_strlit("F8E8M0");
    match dtype {
        DType::U8 => assert(dtype.name_text() =~= seq!['U', '8']),
        DType::U32 => assert(dtype.name_text() =~= seq!['U', '3', '2']),
        DType::I16 => assert(dtype.name_text() =~= seq!['I', '1', '6']),
        DType::I32 => assert(dtype.name_text() =~= seq!['I', '3', '2']),
        DType::I64 => assert(dtype.name_text() =~= seq!['I', '6', '4']),
        DType::BF16 => assert(dtype.name_text() =~= seq!['B', 'F', '1', '6']),
        DType::F16 => assert(dtype.name_text() =~= seq!['F', '1', '6']),
        DType::F32 => assert(dtype.name_text() =~= seq!['F', '3', '2']),
        DType::F64 => assert(dtype.name_text() =~= seq!['F', '6', '4']),
        DType::F8E4M3 => assert(dtype.name_text() =~= seq!['F', '8', 'E', '4', 'M', '3']),
        DType::F6E2M3 => assert(dtype.name_text() =~= seq!['F', '6', 'E', '2', 'M', '3']),
        DType::F6E3M2 => assert(dtype.name_text() =~= seq!['F', '6', 'E', '3', 'M', '2']),
        DType::F4 => assert(dtype.name_text() =~= seq!['F', '4']),
        DType::F8E8M0 => assert(dtype.name_text() =~= seq!['F', '8', 'E', '8', 'M', '0']),
    }
}

/// The bits of a signed number are its value, or for a negative one that plus
/// two to the number of bits.
proof fn lemma_signed_bits()
    ensures
        forall|x: i16| (#[trigger] (x as u16)) as int == if x < 0 { x + 0x1_0000 } else { x as int },
        forall|x: i32|
            (#[trigger] (x as u32)) as int == if x < 0 { x + 0x1_0000_0000 } else { x as int },
        forall|x: i64|
            (#[trigger] (x as u64)) as int == if x < 0 {
                x + 0x1_0000_0000_0000_0000
            } else {
                x as int
            },
{
    assert forall|x: i16| (#[trigger] (x as u16)) as int == if x < 0 {
        x + 0x1_0000
    } else {
        x as int
    } by {
        assert(x < 0 ==> x as u16 == x + 0x1_0000) by (bit_vector);
        assert(x >= 0 ==> x as u16 == x) by (bit_vector);
    }
    assert forall|x: i32| (#[trigger] (x as u32)) as int == if x < 0 {
        x + 0x1_0000_0000
    } else {
        x as int
    } by {
        assert(x < 0 ==> x as u32 == x + 0x1_0000_0000) by (bit_vector);
        assert(x >= 0 ==> x as u32 == x) by (bit_vector);
    }
    assert forall|x: i64| (#[trigger] (x as u64)) as int == if x < 0 {
        x + 0x1_0000_0000_0000_0000
    } else {
        x as int
    } by {
        assert(x < 0 ==> x as u64 == x + 0x1_0000_0000_0000_0000) by (bit_vector);
        assert(x >= 0 ==> x as u64 == x) by (bit_vector);
    }
}

/// A storage is what it was made of: as many elements, of the type of its
/// variant, each with the bits that it was given.
pub proof fn law_storage_elements(storage: CpuStorage, i: int)
    ensures
        match storage {
            CpuStorage::U8(v) => storage@.dtype is U8 && storage@.bits.len() == v@.len()
                && (0 <= i < v@.len() ==> storage@.bits[i] == v@[i]),
            CpuStorage::U32(v) => storage@.dtype is U32 && storage@.bits.len() == v@.len()
                && (0 <= i < v@.len() ==> storage@.bits[i] == v@[i]),
            CpuStorage::I16(v) => storage@.dtype is I16 && storage@.bits.len() == v@.len()
                && (0 <= i < v@.len() ==> storage@.bits[i] == if v@[i] < 0 {
                v@[i] + 0x1_0000
            } else {
                v@[i] as int
            }),
            CpuStorage::I32(v) => storage@.dtype is I32 && storage@.bits.len() == v@.len()
                && (0 <= i < v@.len() ==> storage@.bits[i] == if v@[i] < 0 {
                v@[i] + 0x1_0000_0000
            } else {
                v@[i] as int
            }),
            CpuStorage::I64(v) => storage@.dtype is I64 && storage@.bits.len() == v@.len()
                && (0 <= i < v@.len() ==> storage@.bits[i] == if v@[i] < 0 {
                v@[i] + 0x1_0000_0000_0000_0000
            } else {
                v@[i] as int
            }),
            CpuStorage::BF16(v) => storage@.dtype is BF16 && storage@.bits.len() == v@.len()
                && (0 <= i < v@.len() ==> storage@.bits[i] == v@[i]),
            CpuStorage::F16(v) => storage@.dtype is F16 && storage@.bits.len() == v@.len()
                && (0 <= i < v@.len() ==> storage@.bits[i] == v@[i]),
            CpuStorage::F32(v) => storage@.dtype is F32 && storage@.bits.len() == v@.len()
                && (0 <= i < v@.len() ==> storage@.bits[i] == v@[i]),
            CpuStorage::F64(v) => storage@.dtype is F64 && storage@.bits.len() == v@.len()
                && (0 <= i < v@.len() ==> storage@.bits[i] == v@[i]),
            CpuStorage::F8E4M3(v) => storage@.dtype is F8E4M3 && storage@.bits.len() == v@.len()
                && (0 <= i < v@.len() ==> storage@.bits[i] == v@[i]),
            CpuStorage::F6E2M3(v) => storage@.dtype is F6E2M3 && storage@.bits.len() == v@.len()
                && (0 <= i < v@.len() ==> storage@.bits[i] == v@[i]),
            CpuStorage::F6E3M2(v) => storage@.dtype is F6E3M2 && storage@.bits.len() == v@.len()
                && (0 <= i < v@.len() ==> storage@.bits[i] == v@[i]),
            CpuStorage::F4(v) => storage@.dtype is F4 && storage@.bits.len() == v@.len()
                && (0 <= i < v@.len() ==> storage@.bits[i] == v@[i]),
            CpuStorage::F8E8M0(v) => storage@.dtype is F8E8M0 && storage@.bits.len() == v@.len()
                && (0 <= i < v@.len() ==> storage@.bits[i] == v@[i]),
        },
{
    lemma_signed_bits();
}

} // verus!
