//! Scalar and array field decoding on top of the payload cursor.
//!
//! A scalar is decoded by its type's [`ParseFromBuf`] impl. An array is
//! decoded either element by element, each element with its own bounds
//! check, or in bulk: one bounds check for the whole array, then every
//! element read from the range that was sliced off. Both give the same
//! values ([`lemma_elementwise_is_packed`]).

use vstd::prelude::*;
use crate::errors::ULogError;
use crate::message_buf::{MessageBuf, reads};
use crate::wire::{le_nat, le_int, le_limit, lemma_le_nat_bound, Float32, Float64};
use crate::wire::{read_le_u8, read_le_u16, read_le_u32, read_le_u64};
use crate::wire::{signed_8, signed_16, signed_32, signed_64};

verus! {

/// A value with a fixed-width encoding on the wire.
pub trait ParseFromBuf: Sized {
    /// The number of bytes that one value occupies.
    spec fn wire_width() -> nat;

    /// The value that exactly `wire_width()` bytes spell.
    spec fn from_wire(bytes: Seq<u8>) -> Self;

    /// Decodes one value at the cursor and moves past it. With too few
    /// bytes left the cursor stays where it is.
    fn parse_from_buf(buf: &mut MessageBuf) -> (r: Result<Self, ULogError>)
        ensures
            reads(
                old(buf)@,
                final(buf)@,
                Self::wire_width(),
                Self::from_wire(old(buf)@.take(Self::wire_width() as int)),
                r,
            ),
    ;

    /// `wire_width()`, at run time.
    fn width() -> (w: usize)
        ensures
            w == Self::wire_width(),
    ;

    /// Decodes the value that starts at `at` in a range whose bounds were
    /// checked before.
    fn read_at(bytes: &[u8], at: usize) -> (v: Self)
        requires
            at + Self::wire_width() <= bytes@.len(),
        ensures
            v == Self::from_wire(bytes@.subrange(at as int, at + Self::wire_width())),
    ;
}

impl ParseFromBuf for u8 {
    open spec fn wire_width() -> nat {
        1
    }

    open spec fn from_wire(bytes: Seq<u8>) -> u8 {
        le_nat(bytes) as u8
    }

    fn parse_from_buf(buf: &mut MessageBuf) -> (r: Result<Self, ULogError>) {
        buf.take_u8()
    }

    fn width() -> (w: usize) {
        1
    }

    fn read_at(bytes: &[u8], at: usize) -> (v: Self) {
        read_le_u8(bytes, at)
    }
}

impl ParseFromBuf for u16 {
    open spec fn wire_width() -> nat {
        2
    }

    open spec fn from_wire(bytes: Seq<u8>) -> u16 {
        le_nat(bytes) as u16
    }

    fn parse_from_buf(buf: &mut MessageBuf) -> (r: Result<Self, ULogError>) {
        buf.take_u16()
    }

    fn width() -> (w: usize) {
        2
    }

    fn read_at(bytes: &[u8], at: usize) -> (v: Self) {
        read_le_u16(bytes, at)
    }
}

impl ParseFromBuf for u32 {
    open spec fn wire_width() -> nat {
        4
    }

    open spec fn from_wire(bytes: Seq<u8>) -> u32 {
        le_nat(bytes) as u32
    }

    fn parse_from_buf(buf: &mut MessageBuf) -> (r: Result<Self, ULogError>) {
        buf.take_u32()
    }

    fn width() -> (w: usize) {
        4
    }

    fn read_at(bytes: &[u8], at: usize) -> (v: Self) {
        read_le_u32(bytes, at)
    }
}

impl ParseFromBuf for u64 {
    open spec fn wire_width() -> nat {
        8
    }

    open spec fn from_wire(bytes: Seq<u8>) -> u64 {
        le_nat(bytes) as u64
    }

    fn parse_from_buf(buf: &mut MessageBuf) -> (r: Result<Self, ULogError>) {
        buf.take_u64()
    }

    fn width() -> (w: usize) {
        8
    }

    fn read_at(bytes: &[u8], at: usize) -> (v: Self) {
        read_le_u64(bytes, at)
    }
}

impl ParseFromBuf for i8 {
    open spec fn wire_width() -> nat {
        1
    }

    open spec fn from_wire(bytes: Seq<u8>) -> i8 {
        le_int(bytes) as i8
    }

    fn parse_from_buf(buf: &mut MessageBuf) -> (r: Result<Self, ULogError>) {
        buf.take_i8()
    }

    fn width() -> (w: usize) {
        1
    }

    fn read_at(bytes: &[u8], at: usize) -> (v: Self) {
        proof {
            reveal_with_fuel(le_limit, 2);
        }
        signed_8(read_le_u8(bytes, at))
    }
}

impl ParseFromBuf for i16 {
    open spec fn wire_width() -> nat {
        2
    }

    open spec fn from_wire(bytes: Seq<u8>) -> i16 {
        le_int(bytes) as i16
    }

    fn parse_from_buf(buf: &mut MessageBuf) -> (r: Result<Self, ULogError>) {
        buf.take_i16()
    }

    fn width() -> (w: usize) {
        2
    }

    fn read_at(bytes: &[u8], at: usize) -> (v: Self) {
        proof {
            reveal_with_fuel(le_limit, 3);
        }
        signed_16(read_le_u16(bytes, at))
    }
}

impl ParseFromBuf for i32 {
    open spec fn wire_width() -> nat {
        4
    }

    open spec fn from_wire(bytes: Seq<u8>) -> i32 {
        le_int(bytes) as i32
    }

    fn parse_from_buf(buf: &mut MessageBuf) -> (r: Result<Self, ULogError>) {
        buf.take_i32()
    }

    fn width() -> (w: usize) {
        4
    }

    fn read_at(bytes: &[u8], at: usize) -> (v: Self) {
        proof {
            reveal_with_fuel(le_limit, 5);
        }
        signed_32(read_le_u32(bytes, at))
    }
}

impl ParseFromBuf for i64 {
    open spec fn wire_width() -> nat {
        8
    }

    open spec fn from_wire(bytes: Seq<u8>) -> i64 {
        le_int(bytes) as i64
    }

    fn parse_from_buf(buf: &mut MessageBuf) -> (r: Result<Self, ULogError>) {
        buf.take_i64()
    }

    fn width() -> (w: usize) {
        8
    }

    fn read_at(bytes: &[u8], at: usize) -> (v: Self) {
        proof {
            reveal_with_fuel(le_limit, 9);
        }
        signed_64(read_le_u64(bytes, at))
    }
}

impl ParseFromBuf for Float32 {
    open spec fn wire_width() -> nat {
        4
    }

    open spec fn from_wire(bytes: Seq<u8>) -> Float32 {
        Float32 { bits: le_nat(bytes) as u32 }
    }

    fn parse_from_buf(buf: &mut MessageBuf) -> (r: Result<Self, ULogError>) {
        buf.take_f32()
    }

    fn width() -> (w: usize) {
        4
    }

    fn read_at(bytes: &[u8], at: usize) -> (v: Self) {
        Float32 { bits: read_le_u32(bytes, at) }
    }
}

impl ParseFromBuf for Float64 {
    open spec fn wire_width() -> nat {
        8
    }

    open spec fn from_wire(bytes: Seq<u8>) -> Float64 {
        Float64 { bits: le_nat(bytes) as u64 }
    }

    fn parse_from_buf(buf: &mut MessageBuf) -> (r: Result<Self, ULogError>) {
        buf.take_f64()
    }

    fn width() -> (w: usize) {
        8
    }

    fn read_at(bytes: &[u8], at: usize) -> (v: Self) {
        Float64 { bits: read_le_u64(bytes, at) }
    }
}

/// A boolean is one byte: zero is false, anything else true.
impl ParseFromBuf for bool {
    open spec fn wire_width() -> nat {
        1
    }

    open spec fn from_wire(bytes: Seq<u8>) -> bool {
        le_nat(bytes) != 0
    }

    fn parse_from_buf(buf: &mut MessageBuf) -> (r: Result<Self, ULogError>) {
        proof {
            lemma_le_nat_bound(buf@.take(1));
            reveal_with_fuel(le_limit, 2);
        }
        Ok(buf.take_u8()? != 0)
    }

    fn width() -> (w: usize) {
        1
    }

    fn read_at(bytes: &[u8], at: usize) -> (v: Self) {
        read_le_u8(bytes, at) != 0
    }
}

/// A character is one byte, taken as the code point of that number.
impl ParseFromBuf for char {
    open spec fn wire_width() -> nat {
        1
    }

    open spec fn from_wire(bytes: Seq<u8>) -> char {
        (le_nat(bytes) as u8) as char
    }

    fn parse_from_buf(buf: &mut MessageBuf) -> (r: Result<Self, ULogError>) {
        Ok(buf.take_u8()? as char)
    }

    fn width() -> (w: usize) {
        1
    }

    fn read_at(bytes: &[u8], at: usize) -> (v: Self) {
        read_le_u8(bytes, at) as char
    }
}

/// Decodes one scalar of type `T` at the cursor.
pub fn parse_data_field<T: ParseFromBuf>(message_buf: &mut MessageBuf) -> (r: Result<T, ULogError>)
    ensures
        reads(
            old(message_buf)@,
            final(message_buf)@,
            T::wire_width(),
            T::from_wire(old(message_buf)@.take(T::wire_width() as int)),
            r,
        ),
{
    T::parse_from_buf(message_buf)
}

/// What an element parser may do in one call: the cursor's contents before,
/// its contents after, and what the call returned.
pub type ElementStep<T> = spec_fn(Seq<u8>, Seq<u8>, Result<T, ULogError>) -> bool;

/// Successive steps of `step`, each starting where the one before stopped:
/// `tails[i]` is the cursor before the step that gave `values[i]`.
pub open spec fn steps_chain<T>(step: ElementStep<T>, tails: Seq<Seq<u8>>, values: Seq<T>) -> bool {
    &&& tails.len() == values.len() + 1
    &&& forall|i: int|
        0 <= i < values.len() ==> step(tails[i], tails[i + 1], Ok::<T, ULogError>(#[trigger] values[i]))
}

/// The outcome of running `step` up to `count` times from `before`: either
/// all steps succeed and `r` holds their values in order, or the first
/// failure is returned, with the cursor as the failing step left it.
pub open spec fn steps_to<T>(
    step: ElementStep<T>,
    before: Seq<u8>,
    after: Seq<u8>,
    count: nat,
    r: Result<Vec<T>, ULogError>,
) -> bool {
    exists|tails: Seq<Seq<u8>>, values: Seq<T>|
        {
            &&& #[trigger] steps_chain(step, tails, values)
            &&& tails[0] == before
            &&& match r {
                Ok(v) => v@ == values && values.len() == count && after == tails.last(),
                Err(e) => values.len() < count && step(tails.last(), after, Err::<T, ULogError>(e)),
            }
        }
}

/// Decodes `array_size` elements, each with one call of `parse_element` on
/// the cursor as the call before left it, and stops at the first failure.
///
/// Whatever relation between a cursor before a call, the cursor after it and
/// the call's result `parse_element` guarantees, the array is a chain of
/// that relation.
pub fn parse_array<T, F>(
    array_size: usize,
    message_buf: &mut MessageBuf,
    mut parse_element: F,
) -> (r: Result<Vec<T>, ULogError>) where F: FnMut(&mut MessageBuf) -> Result<T, ULogError>
    requires
        forall|b: &mut MessageBuf| call_requires(parse_element, (b,)),
    ensures
        forall|step: ElementStep<T>|
            (forall|b: &mut MessageBuf, o: Result<T, ULogError>| #[trigger]
                call_ensures(parse_element, (b,), o) ==> step(b@, final(b)@, o)) ==> #[trigger] steps_to(
                step,
                old(message_buf)@,
                final(message_buf)@,
                array_size as nat,
                r,
            ),
{
    let mut vec: Vec<T> = Vec::new();
    let mut failure: Option<ULogError> = None;
    let mut i: usize = 0;
    let ghost mut tails: Seq<Seq<u8>> = seq![message_buf@];
    let ghost parser = parse_element;
    while i < array_size && failure.is_none()
        invariant
            parse_element == parser,
            forall|b: &mut MessageBuf| call_requires(parse_element, (b,)),
            i <= array_size,
            vec@.len() == i,
            tails.len() == i + 1,
            tails[0] == old(message_buf)@,
            failure is None ==> tails[i as int] == message_buf@,
            failure is Some ==> i < array_size,
            forall|step: ElementStep<T>|
                (forall|b: &mut MessageBuf, o: Result<T, ULogError>| #[trigger]
                    call_ensures(parse_element, (b,), o) ==> step(b@, final(b)@, o)) ==> {
                    &&& #[trigger] steps_chain(step, tails, vec@)
                    &&& failure matches Some(e) ==> step(
                        tails.last(),
                        message_buf@,
                        Err::<T, ULogError>(e),
                    )
                },
        decreases array_size - i, if failure is None { 1int } else { 0int },
    {
        let ghost old_tails = tails;
        let ghost old_values = vec@;
        match parse_element(message_buf) {
            Ok(element) => {
                vec.push(element);
                i += 1;
                proof {
                    tails = tails.push(message_buf@);
                    assert forall|step: ElementStep<T>|
                        (forall|b: &mut MessageBuf, o: Result<T, ULogError>| #[trigger]
                            call_ensures(parse_element, (b,), o) ==> step(
                                b@,
                                final(b)@,
                                o,
                            )) implies #[trigger] steps_chain(step, tails, vec@) by {
                        assert(steps_chain(step, old_tails, old_values));
                    }
                }
            },
            Err(e) => {
                failure = Some(e);
            },
        }
    }
    let r = match failure {
        Some(e) => Err(e),
        None => Ok(vec),
    };
    proof {
        assert forall|step: ElementStep<T>|
            (forall|b: &mut MessageBuf, o: Result<T, ULogError>| #[trigger]
                call_ensures(parse_element, (b,), o) ==> step(b@, final(b)@, o)) implies #[trigger] steps_to(
            step,
            old(message_buf)@,
            message_buf@,
            array_size as nat,
            r,
        ) by {
            assert(steps_chain(step, tails, vec@));
        }
    }
    r
}

/// One call of `T`'s scalar decoder, as a step of an array decode.
pub open spec fn scalar_step<T: ParseFromBuf>() -> ElementStep<T> {
    |before: Seq<u8>, after: Seq<u8>, o: Result<T, ULogError>|
        reads(before, after, T::wire_width(), T::from_wire(before.take(T::wire_width() as int)), o)
}

/// The `count` values of `T` that lie packed at the start of `bytes`.
pub open spec fn packed<T: ParseFromBuf>(bytes: Seq<u8>, count: nat) -> Seq<T> {
    Seq::new(
        count,
        |i: int| T::from_wire(bytes.subrange(i * T::wire_width(), i * T::wire_width() + T::wire_width())),
    )
}

/// The outcome of decoding an array of `count` values of `T` at a cursor.
///
/// With `count` whole elements left the array holds them in order and the
/// cursor has moved past exactly their bytes. A short array is an error and
/// never a shorter array; the cursor is then past the whole elements that
/// the payload still had.
pub open spec fn array_reads<T: ParseFromBuf>(
    before: Seq<u8>,
    after: Seq<u8>,
    count: nat,
    r: Result<Vec<T>, ULogError>,
) -> bool {
    let w = T::wire_width();
    if before.len() >= count * w {
        &&& r matches Ok(v)
        &&& v@ == packed::<T>(before, count)
        &&& after == before.skip((count * w) as int)
    } else {
        &&& r matches Err(e)
        &&& e == ULogError::UnexpectedEndOfPayload
        &&& after == before.skip(((before.len() / w) * w) as int)
    }
}

/// Where a chain of scalar decodes stands after `i` elements: `i` widths
/// into the payload, having decoded what lies packed there.
proof fn lemma_chain_positions<T: ParseFromBuf>(tails: Seq<Seq<u8>>, values: Seq<T>, i: nat)
    requires
        steps_chain(scalar_step::<T>(), tails, values),
        i <= values.len(),
    ensures
        tails[0].len() >= i * T::wire_width(),
        tails[i as int] == tails[0].skip((i * T::wire_width()) as int),
        forall|j: int| 0 <= j < i ==> #[trigger] values[j] == packed::<T>(tails[0], i)[j],
    decreases i,
{
    let w = T::wire_width();
    let first = tails[0];
    if i > 0 {
        let k = (i - 1) as nat;
        lemma_chain_positions::<T>(tails, values, k);
        assert((k + 1) * w == k * w + w) by (nonlinear_arith);
        assert(k * w >= 0) by (nonlinear_arith)
            requires
                k >= 0,
                w >= 0,
        ;
        let here = tails[k as int];
        assert(scalar_step::<T>()(here, tails[k as int + 1], Ok::<T, ULogError>(values[k as int])));
        assert(here.take(w as int) =~= first.subrange((k * w) as int, (k * w + w) as int));
        assert(forall|j: int| 0 <= j < k ==> #[trigger] values[j] == packed::<T>(first, k)[j]);
    }
}

/// Decoding an array element by element, each element with its own bounds
/// check, gives what the bulk policy gives: with enough bytes the packed
/// values, in order, and the cursor past them; otherwise the same error.
pub proof fn lemma_elementwise_is_packed<T: ParseFromBuf>(
    before: Seq<u8>,
    after: Seq<u8>,
    count: nat,
    r: Result<Vec<T>, ULogError>,
)
    requires
        steps_to(scalar_step::<T>(), before, after, count, r),
    ensures
        array_reads::<T>(before, after, count, r),
{
    let w = T::wire_width();
    let (tails, values): (Seq<Seq<u8>>, Seq<T>) = choose|tails: Seq<Seq<u8>>, values: Seq<T>|
        {
            &&& #[trigger] steps_chain(scalar_step::<T>(), tails, values)
            &&& tails[0] == before
            &&& match r {
                Ok(v) => v@ == values && values.len() == count && after == tails.last(),
                Err(e) => values.len() < count && scalar_step::<T>()(
                    tails.last(),
                    after,
                    Err::<T, ULogError>(e),
                ),
            }
        };
    let k = values.len();
    lemma_chain_positions::<T>(tails, values, k);
    match r {
        Ok(v) => {
            assert(v@ =~= packed::<T>(before, count));
        },
        Err(e) => {
            let len = before.len() as int;
            assert((k + 1) * w <= count * w) by (nonlinear_arith)
                requires
                    k + 1 <= count,
                    w >= 0,
            ;
            assert((k + 1) * w == k * w + w) by (nonlinear_arith);
            vstd::arithmetic::div_mod::lemma_fundamental_div_mod_converse(
                len,
                w as int,
                k as int,
                len - k * w,
            );
        },
    }
}

/// The packed values depend only on the bytes that they occupy.
proof fn lemma_packed_of_prefix<T: ParseFromBuf>(bytes: Seq<u8>, count: nat)
    requires
        bytes.len() >= count * T::wire_width(),
    ensures
        packed::<T>(bytes.take((count * T::wire_width()) as int), count) == packed::<T>(bytes, count),
{
    let w = T::wire_width();
    let prefix = bytes.take((count * w) as int);
    assert forall|i: int| 0 <= i < count implies packed::<T>(prefix, count)[i] == packed::<T>(
        bytes,
        count,
    )[i] by {
        assert(i * w + w <= count * w) by (nonlinear_arith)
            requires
                i + 1 <= count,
                w >= 0,
        ;
        assert(i * w >= 0) by (nonlinear_arith)
            requires
                i >= 0,
                w >= 0,
        ;
        assert(prefix.subrange(i * w, i * w + w) =~= bytes.subrange(i * w, i * w + w));
    }
}

/// Reads `count` values out of a range whose length was checked to be
/// exactly `count` widths: no element needs a bounds check of its own.
fn read_packed<T: ParseFromBuf>(bytes: &[u8], count: usize) -> (values: Vec<T>)
    requires
        bytes@.len() == count * T::wire_width(),
    ensures
        values@ == packed::<T>(bytes@, count as nat),
{
    let width = T::width();
    let mut values: Vec<T> = Vec::with_capacity(count);
    let mut i: usize = 0;
    let mut at: usize = 0;
    while i < count
        invariant
            i <= count,
            width == T::wire_width(),
            at == i * width,
            bytes@.len() == count * width,
            values@ == packed::<T>(bytes@, i as nat),
        decreases count - i,
    {
        proof {
            assert((i + 1) * width <= count * width) by (nonlinear_arith)
                requires
                    i + 1 <= count,
                    width >= 0,
            ;
            assert((i + 1) * width == i * width + width) by (nonlinear_arith);
            assert(bytes@.len() == bytes.len());
        }
        let value = T::read_at(bytes, at);
        values.push(value);
        at += width;
        i += 1;
    }
    values
}

/// Decodes an array of `array_size` values of `T` at the cursor.
///
/// When the payload holds the whole array, its byte range is taken with a
/// single bounds check and the elements are read out of it; otherwise the
/// elements are decoded one by one until the payload runs out. The result
/// does not depend on which way was taken.
pub fn parse_typed_array<T>(array_size: usize, message_buf: &mut MessageBuf) -> (r: Result<
    Vec<T>,
    ULogError,
>) where T: ParseFromBuf + 'static
    ensures
        array_reads::<T>(old(message_buf)@, final(message_buf)@, array_size as nat, r),
{
    let width = T::width();
    if width > 0 {
        if let Some(byte_size) = array_size.checked_mul(width) {
            if message_buf.len() >= byte_size {
                let bytes = message_buf.advance(byte_size)?;
                let values = read_packed::<T>(bytes, array_size);
                proof {
                    lemma_packed_of_prefix::<T>(old(message_buf)@, array_size as nat);
                }
                return Ok(values);
            }
        }
    }
    let r = parse_array(array_size, message_buf, parse_data_field::<T>);
    proof {
        lemma_elementwise_is_packed::<T>(old(message_buf)@, message_buf@, array_size as nat, r);
    }
    r
}

} // verus!
