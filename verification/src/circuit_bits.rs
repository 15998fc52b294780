//! Arranging the bits that go into a proof circuit: padding the bits of
//! curve points to whole bytes, packing bits into field elements and
//! unpacking them again, and turning the bit order within bytes around.
//!
//! The functions work on bits of any type, so that they serve for plain
//! booleans as well as for the boolean variables of a constraint system.
//! A bit of padding is a copy of a bit that the caller supplies.

use vstd::pervasive::cloned;
use vstd::prelude::*;

verus! {

/// Whether bits are laid out as planned: where the plan names a bit that
/// bit stands, and where it names none a copy of the padding bit stands.
pub open spec fn laid_out<T: Clone>(bits: Seq<T>, plan: Seq<Option<T>>, pad: T) -> bool {
    &&& bits.len() == plan.len()
    &&& forall|i: int|
        0 <= i < bits.len() ==> match #[trigger] plan[i] {
            Some(bit) => bits[i] == bit,
            None => cloned(pad, bits[i]),
        }
}

/// A plan of `n` bits of padding.
pub open spec fn padding_plan<T>(n: int) -> Seq<Option<T>> {
    Seq::new(n as nat, |i: int| None::<T>)
}

/// The plan that takes over bits as they are.
pub open spec fn taken<T>(bits: Seq<T>) -> Seq<Option<T>> {
    Seq::new(bits.len(), |i: int| Some(bits[i]))
}

/// The number of padding bits in front of a point of `point_len` bits,
/// so that point and padding fill whole bytes.
pub open spec fn point_padding(point_len: int) -> int {
    8 - point_len % 8
}

/// The plan for the serialization of points: the sign bit first; then
/// every point of `point_len` bits behind its padding, where the first
/// point has one bit of padding less, since the sign bit stands there.
pub open spec fn point_plan<T>(bits: Seq<T>, y_bit: T, point_len: int) -> Seq<Option<T>>
    decreases bits.len(),
{
    if point_len <= 0 || bits.len() < point_len {
        seq![Some(y_bit)]
    } else {
        let front = bits.take(bits.len() - point_len);
        let padding = if front.len() == 0 {
            point_padding(point_len) - 1
        } else {
            point_padding(point_len)
        };
        point_plan(front, y_bit, point_len) + padding_plan(padding) + taken(
            bits.skip(bits.len() - point_len),
        )
    }
}

/// The plan for packing bits into field elements of `size` bits: each
/// element takes up to `size - 1` bits and is filled up with padding.
pub open spec fn pack_plan<T>(input: Seq<T>, size: int) -> Seq<Seq<Option<T>>>
    decreases input.len(),
{
    if input.len() == 0 || size < 2 {
        Seq::empty()
    } else {
        let length = if input.len() < size - 1 {
            input.len() as int
        } else {
            size - 1
        };
        seq![taken(input.take(length)) + padding_plan(size - length)] + pack_plan(
            input.skip(length),
            size,
        )
    }
}

/// The bits of field elements without the last bit of each, one element
/// after the other.
pub open spec fn unpacked<T>(inputs: Seq<Seq<T>>) -> Seq<T>
    decreases inputs.len(),
{
    if inputs.len() == 0 {
        Seq::empty()
    } else {
        let first = if inputs[0].len() > 0 {
            inputs[0].drop_last()
        } else {
            inputs[0]
        };
        first + unpacked(inputs.drop_first())
    }
}

/// The value of little-endian bits.
pub open spec fn le_bits_value(bits: Seq<bool>) -> int
    decreases bits.len(),
{
    if bits.len() == 0 {
        0
    } else {
        (if bits[0] { 1int } else { 0int }) + 2 * le_bits_value(bits.drop_first())
    }
}

/// Two to the power of `n`.
pub open spec fn pow2(n: nat) -> int
    decreases n,
{
    if n == 0 {
        1
    } else {
        2 * pow2((n - 1) as nat)
    }
}

/// The value of little-endian bits is below two to the power of their number.
pub proof fn lemma_le_bits_value_bound(bits: Seq<bool>)
    ensures
        0 <= le_bits_value(bits) < pow2(bits.len()),
    decreases bits.len(),
{
    if bits.len() > 0 {
        lemma_le_bits_value_bound(bits.drop_first());
    }
}

/// Appending a bit adds its weight to the value.
pub proof fn lemma_le_bits_value_push(bits: Seq<bool>, bit: bool)
    ensures
        le_bits_value(bits.push(bit)) == le_bits_value(bits) + (if bit {
            pow2(bits.len())
        } else {
            0
        }),
    decreases bits.len(),
{
    let longer = bits.push(bit);
    if bits.len() == 0 {
        assert(longer.drop_first() =~= Seq::<bool>::empty());
        assert(le_bits_value(longer.drop_first()) == 0);
        assert(longer[0] == bit);
        assert(pow2(0) == 1);
    } else {
        assert(longer.drop_first() =~= bits.drop_first().push(bit));
        assert(longer[0] == bits[0]);
        lemma_le_bits_value_push(bits.drop_first(), bit);
        assert(pow2(bits.len()) == 2 * pow2((bits.len() - 1) as nat));
        assert(bits.drop_first().len() == bits.len() - 1);
    }
}

/// Turns up to eight little-endian bits into a byte.
pub fn byte_from_le_bits(bits: &[bool]) -> (byte: u8)
    requires
        bits@.len() <= 8,
    ensures
        byte == le_bits_value(bits@),
{
    let mut byte: u8 = 0;
    let mut base: u16 = 1;
    let mut i: usize = 0;
    proof {
        assert(bits@.take(0) =~= Seq::<bool>::empty());
    }
    while i < bits.len()
        invariant
            i <= bits@.len(),
            bits@.len() <= 8,
            base == pow2(i as nat),
            byte == le_bits_value(bits@.take(i as int)),
        decreases bits@.len() - i,
    {
        proof {
            lemma_le_bits_value_bound(bits@.take(i as int));
            lemma_le_bits_value_push(bits@.take(i as int), bits@[i as int]);
            assert(bits@.take(i as int).push(bits@[i as int]) =~= bits@.take(i + 1));
            lemma_pow2_small(i as nat);
        }
        if bits[i] {
            byte = byte + base as u8;
        }
        base = base * 2;
        i += 1;
    }
    proof {
        assert(bits@.take(i as int) =~= bits@);
    }
    byte
}

/// The powers of two up to the eighth.
pub proof fn lemma_pow2_small(n: nat)
    requires
        n <= 8,
    ensures
        pow2(n) <= 256,
        n < 8 ==> pow2(n) <= 128,
        pow2((n + 1) as nat) == 2 * pow2(n),
{
    reveal_with_fuel(pow2, 10);
    assert(pow2(0) == 1 && pow2(1) == 2 && pow2(2) == 4 && pow2(3) == 8 && pow2(4) == 16);
    assert(pow2(5) == 32 && pow2(6) == 64 && pow2(7) == 128 && pow2(8) == 256);
}

/// Turns the order of the bits within every byte around.
pub fn reverse_inner_byte_order<T: Clone>(data: &[T]) -> (reversed: Vec<T>)
    requires
        data@.len() % 8 == 0,
    ensures
        reversed@.len() == data@.len(),
        forall|i: int|
            0 <= i < data@.len() ==> cloned(data@[i - i % 8 + 7 - i % 8], #[trigger] reversed@[i]),
{
    let mut reversed: Vec<T> = Vec::new();
    let mut start: usize = 0;
    while start < data.len()
        invariant
            start <= data@.len(),
            start % 8 == 0,
            data@.len() % 8 == 0,
            reversed@.len() == start,
            forall|i: int|
                0 <= i < start ==> cloned(data@[i - i % 8 + 7 - i % 8], #[trigger] reversed@[i]),
        decreases data@.len() - start,
    {
        let mut k: usize = 0;
        while k < 8
            invariant
                k <= 8,
                start + 8 <= data@.len(),
                start % 8 == 0,
                reversed@.len() == start + k,
                forall|i: int|
                    0 <= i < start + k ==> cloned(
                        data@[i - i % 8 + 7 - i % 8],
                        #[trigger] reversed@[i],
                    ),
            decreases 8 - k,
        {
            let ghost before = reversed@;
            reversed.push(data[start + 7 - k].clone());
            proof {
                let i = start + k;
                assert(i % 8 == k);
                assert forall|j: int| 0 <= j < start + k + 1 implies cloned(
                    data@[j - j % 8 + 7 - j % 8],
                    #[trigger] reversed@[j],
                ) by {
                    if j < start + k {
                        assert(reversed@[j] == before[j]);
                    }
                }
            }
            k += 1;
        }
        start += 8;
    }
    reversed
}

/// Drops the last bit of every field element, which never carries data,
/// and strings the remaining bits together.
pub fn unpack_inputs<T>(inputs: Vec<Vec<T>>) -> (result: Vec<T>)
    ensures
        result@ == unpacked(Seq::new(inputs@.len(), |i: int| inputs@[i]@)),
{
    let ghost all = Seq::new(inputs@.len(), |i: int| inputs@[i]@);
    let mut inputs = inputs;
    let mut result: Vec<T> = Vec::new();
    proof {
        assert(Seq::new(inputs@.len(), |i: int| inputs@[i]@) =~= all);
    }
    while inputs.len() > 0
        invariant
            unpacked(all) == result@ + unpacked(Seq::new(inputs@.len(), |i: int| inputs@[i]@)),
        decreases inputs@.len(),
    {
        let ghost rest = Seq::new(inputs@.len(), |i: int| inputs@[i]@);
        let mut bits = inputs.remove(0);
        let ghost first = bits@;
        bits.pop();
        proof {
            assert(Seq::new(inputs@.len(), |i: int| inputs@[i]@) =~= rest.drop_first());
            assert(rest[0] == first);
            let trimmed = if first.len() > 0 {
                first.drop_last()
            } else {
                first
            };
            assert(bits@ =~= trimmed);
            assert(result@ + (trimmed + unpacked(rest.drop_first())) =~= (result@ + trimmed)
                + unpacked(rest.drop_first()));
        }
        result.append(&mut bits);
    }
    proof {
        assert(result@ + Seq::<T>::empty() =~= result@);
    }
    result
}

/// Appends `n` copies of the padding bit.
fn push_padding<T: Clone>(bits: &mut Vec<T>, pad: &T, n: usize)
    ensures
        final(bits)@.len() == old(bits)@.len() + n,
        forall|i: int| 0 <= i < old(bits)@.len() ==> final(bits)@[i] == old(bits)@[i],
        forall|i: int| old(bits)@.len() <= i < final(bits)@.len() ==> cloned(*pad, final(bits)@[i]),
{
    let mut k: usize = 0;
    while k < n
        invariant
            k <= n,
            bits@.len() == old(bits)@.len() + k,
            forall|i: int| 0 <= i < old(bits)@.len() ==> bits@[i] == old(bits)@[i],
            forall|i: int| old(bits)@.len() <= i < bits@.len() ==> cloned(*pad, bits@[i]),
        decreases n - k,
    {
        bits.push(pad.clone());
        k += 1;
    }
}

/// Packs bits into field elements of `size` bits: every element takes up
/// to `size - 1` bits, since its last bit cannot carry data, and is
/// filled up with padding.
pub fn pack_inputs<T: Clone>(input: Vec<T>, size: usize, pad: &T) -> (result: Vec<Vec<T>>)
    requires
        size >= 2,
    ensures
        result@.len() == pack_plan(input@, size as int).len(),
        forall|k: int|
            0 <= k < result@.len() ==> laid_out(
                (#[trigger] result@[k])@,
                pack_plan(input@, size as int)[k],
                *pad,
            ),
{
    let capacity = size - 1;
    let ghost all = pack_plan(input@, size as int);
    let mut input = input;
    let mut result: Vec<Vec<T>> = Vec::new();
    while input.len() > 0
        invariant
            size >= 2,
            capacity == size - 1,
            all.len() == result@.len() + pack_plan(input@, size as int).len(),
            forall|k: int| 0 <= k < result@.len() ==> laid_out((#[trigger] result@[k])@, all[k], *pad),
            forall|k: int|
                0 <= k < pack_plan(input@, size as int).len() ==> all[result@.len() + k]
                    == pack_plan(input@, size as int)[k],
        decreases input@.len(),
    {
        let ghost whole = input@;
        let ghost plan = pack_plan(whole, size as int);
        let length = if input.len() < capacity {
            input.len()
        } else {
            capacity
        };
        let padding = size - length;
        let new_input = input.split_off(length);
        let ghost head = input@;
        push_padding(&mut input, pad, padding);
        proof {
            assert(head =~= whole.take(length as int));
            assert(new_input@ =~= whole.skip(length as int));
            let row = taken(whole.take(length as int)) + padding_plan::<T>(size - length);
            assert(plan =~= seq![row] + pack_plan(whole.skip(length as int), size as int));
            assert(plan[0] == row);
            assert(laid_out(input@, row, *pad));
            assert forall|k: int|
                0 <= k < pack_plan(new_input@, size as int).len() implies all[result@.len() + 1
                + k] == pack_plan(new_input@, size as int)[k] by {
                assert(plan[k + 1] == pack_plan(new_input@, size as int)[k]);
            }
            assert(all[result@.len() as int] == row);
        }
        let ghost before = result@;
        result.push(input);
        proof {
            assert forall|k: int| 0 <= k < result@.len() implies laid_out(
                (#[trigger] result@[k])@,
                all[k],
                *pad,
            ) by {
                if k < before.len() {
                    assert(result@[k] == before[k]);
                }
            }
        }
        input = new_input;
    }
    result
}

/// Serializes the bits of curve points: the sign bit comes first, and
/// every point of `point_len` bits is padded in front to whole bytes,
/// the first point with one bit less because the sign bit stands there.
/// The bits must be those of whole points.
pub fn pad_point_bits<T: Clone>(bits: Vec<T>, y_bit: T, point_len: usize, pad: &T) -> (serialization:
    Vec<T>)
    requires
        point_len > 0,
        (bits@.len() as int) % (point_len as int) == 0,
    ensures
        laid_out(serialization@, point_plan(bits@, y_bit, point_len as int), *pad),
{
    let padding: usize = 8 - (point_len % 8);
    let ghost all = bits@;
    let mut bits = bits;
    let mut serialization: Vec<T> = Vec::new();
    serialization.push(y_bit);
    let mut first = true;
    let ghost done: int = 0;
    proof {
        assert(all.take(0) =~= Seq::<T>::empty());
        assert(all.skip(0) =~= all);
        assert(point_plan(all.take(0), y_bit, point_len as int) =~= seq![Some(y_bit)]);
    }
    while bits.len() > 0
        invariant
            point_len > 0,
            padding == point_padding(point_len as int),
            1 <= padding <= 8,
            0 <= done <= all.len(),
            first == (done == 0),
            bits@ == all.skip(done),
            (bits@.len() as int) % (point_len as int) == 0,
            laid_out(serialization@, point_plan(all.take(done), y_bit, point_len as int), *pad),
        decreases bits@.len(),
    {
        let padding_len = if first {
            first = false;
            padding - 1
        } else {
            padding
        };
        proof {
            lemma_whole_point(bits@.len() as int, point_len as int);
        }
        let ghost before = serialization@;
        let ghost plan_before = point_plan(all.take(done), y_bit, point_len as int);
        push_padding(&mut serialization, pad, padding_len);
        let new_bits = bits.split_off(point_len);
        let ghost chunk = bits@;
        let ghost padded = serialization@;
        serialization.append(&mut bits);
        proof {
            let next = all.take(done + point_len);
            assert(next.take(next.len() - point_len) =~= all.take(done));
            assert(next.skip(next.len() - point_len) =~= chunk);
            assert(new_bits@ =~= all.skip(done + point_len));
            let plan = point_plan(next, y_bit, point_len as int);
            assert(plan =~= plan_before + padding_plan::<T>(padding_len as int) + taken(chunk));
            assert(serialization@ =~= padded + chunk);
            assert forall|i: int| 0 <= i < serialization@.len() implies match #[trigger] plan[i] {
                Some(bit) => serialization@[i] == bit,
                None => cloned(*pad, serialization@[i]),
            } by {
                if i < before.len() {
                    assert(serialization@[i] == before[i]);
                    assert(plan[i] == plan_before[i]);
                } else if i < padded.len() {
                    assert(serialization@[i] == padded[i]);
                } else {
                    assert(serialization@[i] == chunk[i - padded.len()]);
                }
            }
            lemma_rest_whole(all.len() as int, done, point_len as int);
            done = done + point_len;
        }
        bits = new_bits;
    }
    proof {
        assert(all.take(done) =~= all);
    }
    serialization
}

/// A positive multiple of the point length holds at least one point.
pub proof fn lemma_whole_point(len: int, point_len: int)
    requires
        point_len > 0,
        len > 0,
        len % point_len == 0,
    ensures
        len >= point_len,
        (len - point_len) % point_len == 0,
{
    vstd::arithmetic::div_mod::lemma_fundamental_div_mod(len, point_len);
    let q = len / point_len;
    assert(len == point_len * q);
    assert(q >= 1) by (nonlinear_arith)
        requires
            len == point_len * q,
            len > 0,
            point_len > 0,
    ;
    assert(len >= point_len) by (nonlinear_arith)
        requires
            len == point_len * q,
            q >= 1,
            point_len > 0,
    ;
    assert(len - point_len == point_len * (q - 1)) by (nonlinear_arith)
        requires
            len == point_len * q,
    ;
    vstd::arithmetic::div_mod::lemma_mod_multiples_basic(q - 1, point_len);
    assert(point_len * (q - 1) == (q - 1) * point_len) by (nonlinear_arith);
}

/// While bits of whole points remain, at least one point remains.
pub proof fn lemma_rest_whole(len: int, done: int, point_len: int)
    requires
        point_len > 0,
        0 <= done,
        len - done > 0,
        (len - done) % point_len == 0,
    ensures
        done + point_len <= len,
{
    lemma_whole_point(len - done, point_len);
}

} // verus!
