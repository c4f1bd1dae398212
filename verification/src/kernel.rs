//! The call boundary: every action of sandboxed code on a frame is one
//! numbered call, with its input and its output in the shared byte form.

use crate::bucket::{
    borrow_result, burn_result, drop_result, mint, mint_result, new_result, put_result, released,
    take_result, Bucket, BucketRef,
};
use crate::codec::{
    conforms, decode, decoded, encode, encoded, lemma_decoded_conforms, payload_ok, tag_of,
    views, width_of, Field, TAG_ADDRESS,
};
use crate::component::{address_field, address_of, address_payload, read_address};
use crate::decimal::Decimal;
use crate::describe::{Describe, Shape, Type};
use crate::error::{DecodeError, RuntimeError};
use crate::frame::{Frame, FrameState};
use crate::types::{Address, BID, RID};
use vstd::bytes::{
    spec_u128_from_le_bytes, spec_u128_to_le_bytes, spec_u32_from_le_bytes, spec_u32_to_le_bytes,
    u128_from_le_bytes, u128_to_le_bytes, u32_from_le_bytes, u32_to_le_bytes,
};
use vstd::prelude::*;

verus! {

/// Call number: create an empty bucket. Input: an address. Output: a
/// bucket handle.
pub const CREATE_EMPTY_BUCKET: u32 = 0x30;

/// Call number: merge one bucket into another. Input: the handle of the
/// bucket that stays, then of the one that goes. Output: nothing.
pub const PUT_INTO_BUCKET: u32 = 0x31;

/// Call number: split an amount off a bucket. Input: a bucket handle and
/// an amount. Output: the handle of the new bucket.
pub const TAKE_FROM_BUCKET: u32 = 0x32;

/// Call number: read the amount in a bucket. Input: a bucket handle.
/// Output: an amount.
pub const GET_BUCKET_AMOUNT: u32 = 0x33;

/// Call number: read the resource of a bucket. Input: a bucket handle.
/// Output: an address.
pub const GET_BUCKET_RESOURCE: u32 = 0x34;

/// Call number: borrow a bucket. Input: a bucket handle. Output: a
/// reference handle.
pub const CREATE_REFERENCE: u32 = 0x35;

/// Call number: end a borrow. Input: a reference handle. Output: nothing.
pub const DROP_REFERENCE: u32 = 0x36;

/// Call number: mint. Input: the address of the resource, an amount, and
/// the reference handle of the badge. Output: the handle of the new bucket.
pub const MINT_RESOURCE: u32 = 0x37;

/// Call number: burn a bucket without presenting a badge. Input: a bucket
/// handle. Output: nothing.
pub const BURN_RESOURCE: u32 = 0x38;

/// Call number: burn a bucket under a badge. Input: a bucket handle and
/// the reference handle of the badge. Output: nothing.
pub const BURN_RESOURCE_WITH_AUTH: u32 = 0x39;

/// The schema of the input of a call; none for an unknown call number.
pub open spec fn input_schema(op: u32) -> Option<Shape> {
    if op == CREATE_EMPTY_BUCKET {
        Some(Shape::Tuple { elements: seq![Shape::Address] })
    } else if op == PUT_INTO_BUCKET {
        Some(Shape::Tuple { elements: seq![Shape::BID, Shape::BID] })
    } else if op == TAKE_FROM_BUCKET {
        Some(Shape::Tuple { elements: seq![Shape::BID, Shape::U128] })
    } else if op == GET_BUCKET_AMOUNT || op == GET_BUCKET_RESOURCE || op == CREATE_REFERENCE || op
        == BURN_RESOURCE {
        Some(Shape::Tuple { elements: seq![Shape::BID] })
    } else if op == DROP_REFERENCE {
        Some(Shape::Tuple { elements: seq![Shape::RID] })
    } else if op == MINT_RESOURCE {
        Some(Shape::Tuple { elements: seq![Shape::Address, Shape::U128, Shape::RID] })
    } else if op == BURN_RESOURCE_WITH_AUTH {
        Some(Shape::Tuple { elements: seq![Shape::BID, Shape::RID] })
    } else {
        None
    }
}

/// The handle that four bytes stand for.
pub open spec fn handle_of(payload: Seq<u8>) -> u32 {
    spec_u32_from_le_bytes(payload)
}

/// The field that holds a bucket handle.
pub open spec fn bid_field(bid: BID) -> (u8, Seq<u8>) {
    (0x83u8, spec_u32_to_le_bytes(bid.0))
}

/// The field that holds a reference handle.
pub open spec fn rid_field(rid: RID) -> (u8, Seq<u8>) {
    (0x84u8, spec_u32_to_le_bytes(rid.0))
}

/// The field that holds an amount.
pub open spec fn amount_field(amount: Decimal) -> (u8, Seq<u8>) {
    (0x0bu8, spec_u128_to_le_bytes(amount.0 as u128))
}

/// What a call does to a frame, given the fields of its input: the new
/// state and the fields of the output, or the error that ends the
/// transaction.
pub open spec fn outcome(s: FrameState, op: u32, f: Seq<(u8, Seq<u8>)>) -> Result<
    (FrameState, Seq<(u8, Seq<u8>)>),
    RuntimeError,
> {
    if op == CREATE_EMPTY_BUCKET {
        match new_result(s, address_of(f[0].1)) {
            Err(e) => Err(e),
            Ok(t) => Ok((t, seq![bid_field(BID(s.next_bid))])),
        }
    } else if op == PUT_INTO_BUCKET {
        match put_result(s, BID(handle_of(f[0].1)), BID(handle_of(f[1].1))) {
            Err(e) => Err(e),
            Ok(t) => Ok((t, Seq::empty())),
        }
    } else if op == TAKE_FROM_BUCKET {
        if spec_u128_from_le_bytes(f[1].1) > i128::MAX {
            Err(RuntimeError::InvalidRequest(DecodeError::InvalidValue(f[1].1[15])))
        } else {
            match take_result(
                s,
                BID(handle_of(f[0].1)),
                Decimal(spec_u128_from_le_bytes(f[1].1) as i128),
            ) {
                Err(e) => Err(e),
                Ok(t) => Ok((t, seq![bid_field(BID(s.next_bid))])),
            }
        }
    } else if op == GET_BUCKET_AMOUNT {
        if !s.has_bucket(BID(handle_of(f[0].1))) {
            Err(RuntimeError::BucketNotFound)
        } else {
            Ok((s, seq![amount_field(s.holding(BID(handle_of(f[0].1))).amount)]))
        }
    } else if op == GET_BUCKET_RESOURCE {
        if !s.has_bucket(BID(handle_of(f[0].1))) {
            Err(RuntimeError::BucketNotFound)
        } else {
            Ok(
                (
                    s,
                    seq![
                        (TAG_ADDRESS, address_payload(s.holding(BID(handle_of(f[0].1))).resource)),
                    ],
                ),
            )
        }
    } else if op == CREATE_REFERENCE {
        match borrow_result(s, BID(handle_of(f[0].1))) {
            Err(e) => Err(e),
            Ok(t) => Ok((t, seq![rid_field(RID(s.next_rid))])),
        }
    } else if op == DROP_REFERENCE {
        match drop_result(s, RID(handle_of(f[0].1))) {
            Err(e) => Err(e),
            Ok(t) => Ok((t, Seq::empty())),
        }
    } else if op == MINT_RESOURCE {
        if spec_u128_from_le_bytes(f[1].1) > i128::MAX {
            Err(RuntimeError::InvalidRequest(DecodeError::InvalidValue(f[1].1[15])))
        } else {
            match mint_result(
                s,
                address_of(f[0].1),
                Decimal(spec_u128_from_le_bytes(f[1].1) as i128),
                Some(RID(handle_of(f[2].1))),
            ) {
                Err(e) => Err(e),
                Ok(t) => Ok((t, seq![bid_field(BID(s.next_bid))])),
            }
        }
    } else if op == BURN_RESOURCE {
        match burn_result(s, BID(handle_of(f[0].1)), None) {
            Err(e) => Err(e),
            Ok(t) => Ok((t, Seq::empty())),
        }
    } else {
        match burn_result(s, BID(handle_of(f[0].1)), Some(RID(handle_of(f[1].1)))) {
            Err(e) => Err(e),
            Ok(t) => Ok((t, Seq::empty())),
        }
    }
}

/// Whether a call puts a new bucket into the frame, and so needs a free
/// bucket handle.
pub open spec fn makes_bucket(op: u32) -> bool {
    op == CREATE_EMPTY_BUCKET || op == TAKE_FROM_BUCKET || op == MINT_RESOURCE
}

/// Whether a call puts a new reference into the frame, and so needs a free
/// reference handle.
pub open spec fn makes_reference(op: u32) -> bool {
    op == CREATE_REFERENCE
}

/// The frame after a call that failed on decoded input: as it was, but
/// that the presentation of a badge to a mint or a burn has ended.
pub open spec fn after_failure(s: FrameState, op: u32, f: Seq<(u8, Seq<u8>)>) -> FrameState {
    if op == MINT_RESOURCE && spec_u128_from_le_bytes(f[1].1) <= i128::MAX {
        released(s, Some(RID(handle_of(f[2].1))))
    } else if op == BURN_RESOURCE_WITH_AUTH {
        released(s, Some(RID(handle_of(f[1].1))))
    } else {
        s
    }
}

/// The frame after a call that failed: as it was, but that the
/// presentation of a badge to a mint or a burn has ended.
pub open spec fn failed_call(s: FrameState, op: u32, input: Seq<u8>) -> FrameState {
    match input_schema(op) {
        None => s,
        Some(schema) => match decoded(schema, input) {
            Err(_) => s,
            Ok(f) => after_failure(s, op, f),
        },
    }
}

/// What a call does: an unknown call number is an invalid operation; an
/// input that does not decode under the call's schema is an invalid
/// request; otherwise the call's outcome, with the output encoded.
pub open spec fn call_result(s: FrameState, op: u32, input: Seq<u8>) -> Result<
    (FrameState, Seq<u8>),
    RuntimeError,
> {
    match input_schema(op) {
        None => Err(RuntimeError::InvalidOpCode(op)),
        Some(schema) => match decoded(schema, input) {
            Err(e) => Err(RuntimeError::InvalidRequest(e)),
            Ok(f) => match outcome(s, op, f) {
                Err(e) => Err(e),
                Ok(done) => Ok((done.0, encoded(done.1))),
            },
        },
    }
}

/// The schema of a tuple of one field.
fn single(ty: Type) -> (r: Type)
    ensures
        r@ == (Shape::Tuple { elements: seq![ty@] }),
{
    let mut elements: Vec<Type> = Vec::new();
    elements.push(ty);
    let r = Type::Tuple { elements };
    assert(r@->Tuple_elements =~= seq![ty@]);
    r
}

/// The input of every call is a tuple of fixed-width fields.
pub proof fn lemma_inputs_are_fixed_width(op: u32)
    requires
        input_schema(op) is Some,
    ensures
        input_schema(op)->Some_0 is Tuple,
        forall|i: int|
            0 <= i < input_schema(op)->Some_0->Tuple_elements.len() ==> tag_of(
                #[trigger] input_schema(op)->Some_0->Tuple_elements[i],
            ) is Some,
{
}

/// Whether a call needs a free bucket handle.
pub fn needs_bucket_handle(op: u32) -> (r: bool)
    ensures
        r == makes_bucket(op),
{
    op == CREATE_EMPTY_BUCKET || op == TAKE_FROM_BUCKET || op == MINT_RESOURCE
}

/// Whether a call needs a free reference handle.
pub fn needs_reference_handle(op: u32) -> (r: bool)
    ensures
        r == makes_reference(op),
{
    op == CREATE_REFERENCE
}

/// The schema of the input of a call.
pub fn schema_of(op: u32) -> (r: Option<Type>)
    ensures
        match r {
            Some(ty) => input_schema(op) == Some(ty@),
            None => input_schema(op) is None,
        },
{
    if op == CREATE_EMPTY_BUCKET {
        Some(single(Type::Address))
    } else if op == PUT_INTO_BUCKET {
        Some(<(BID, BID)>::describe())
    } else if op == TAKE_FROM_BUCKET {
        Some(<(BID, u128)>::describe())
    } else if op == GET_BUCKET_AMOUNT || op == GET_BUCKET_RESOURCE || op == CREATE_REFERENCE || op
        == BURN_RESOURCE {
        Some(single(Type::BID))
    } else if op == DROP_REFERENCE {
        Some(single(Type::RID))
    } else if op == MINT_RESOURCE {
        Some(<(Address, u128, RID)>::describe())
    } else if op == BURN_RESOURCE_WITH_AUTH {
        Some(<(BID, RID)>::describe())
    } else {
        None
    }
}

/// Reads a handle from the four bytes of its field.
fn read_handle(field: &Field) -> (h: u32)
    requires
        field.payload@.len() == 4,
    ensures
        h == handle_of(field.payload@),
{
    u32_from_le_bytes(field.payload.as_slice())
}

/// Reads an amount from the sixteen bytes of its field; an amount that
/// cannot be held is an invalid value.
fn read_amount(field: &Field) -> (r: Result<Decimal, RuntimeError>)
    requires
        field.payload@.len() == 16,
    ensures
        match r {
            Ok(d) => spec_u128_from_le_bytes(field.payload@) <= i128::MAX && d == Decimal(
                spec_u128_from_le_bytes(field.payload@) as i128,
            ),
            Err(e) => spec_u128_from_le_bytes(field.payload@) > i128::MAX && e
                == RuntimeError::InvalidRequest(DecodeError::InvalidValue(field.payload@[15])),
        },
{
    let raw = u128_from_le_bytes(field.payload.as_slice());
    if raw > 0x7fff_ffff_ffff_ffff_ffff_ffff_ffff_ffffu128 {
        Err(RuntimeError::InvalidRequest(DecodeError::InvalidValue(field.payload[15])))
    } else {
        Ok(Decimal(raw as i128))
    }
}

/// The output that holds one bucket handle.
fn bid_output(bid: BID) -> (out: Vec<Field>)
    ensures
        views(out@) == seq![bid_field(bid)],
        out@.len() == 1,
{
    let mut out: Vec<Field> = Vec::new();
    out.push(Field { tag: 0x83u8, payload: u32_to_le_bytes(bid.0) });
    assert(views(out@) =~= seq![bid_field(bid)]);
    out
}

/// The output that holds nothing.
fn no_output() -> (out: Vec<Field>)
    ensures
        views(out@) == Seq::<(u8, Seq<u8>)>::empty(),
        out@.len() == 0,
{
    let out: Vec<Field> = Vec::new();
    assert(views(out@) =~= Seq::<(u8, Seq<u8>)>::empty());
    out
}

/// Carries out a call whose input was decoded.
fn perform(frame: &mut Frame, op: u32, f: &Vec<Field>) -> (r: Result<Vec<Field>, RuntimeError>)
    requires
        old(frame)@.wf(),
        makes_bucket(op) ==> old(frame)@.next_bid < u32::MAX,
        makes_reference(op) ==> old(frame)@.next_rid < u32::MAX,
        input_schema(op) is Some,
        conforms(input_schema(op)->Some_0->Tuple_elements, views(f@)),
    ensures
        final(frame)@.wf(),
        old(frame)@.backed() ==> final(frame)@.backed(),
        match r {
            Ok(out) => outcome(old(frame)@, op, views(f@)) == Ok::<
                (FrameState, Seq<(u8, Seq<u8>)>),
                RuntimeError,
            >((final(frame)@, views(out@))) && out@.len() <= 1,
            Err(e) => outcome(old(frame)@, op, views(f@)) == Err::<
                (FrameState, Seq<(u8, Seq<u8>)>),
                RuntimeError,
            >(e) && final(frame)@ == after_failure(old(frame)@, op, views(f@)),
        },
{
    let ghost fv = views(f@);
    let ghost shapes = input_schema(op)->Some_0->Tuple_elements;
    assert(fv.len() == f@.len());
    assert(fv.len() > 0 ==> fv[0].1.len() == width_of(shapes[0]) && payload_ok(shapes[0], fv[0].1));
    assert(fv.len() > 1 ==> fv[1].1.len() == width_of(shapes[1]));
    assert(fv.len() > 2 ==> fv[2].1.len() == width_of(shapes[2]));
    assert(forall|i: int| 0 <= i < f@.len() ==> (#[trigger] fv[i]) == f@[i]@);
    if op == CREATE_EMPTY_BUCKET {
        assert(fv[0] == f@[0]@);
        let resource = read_address(&f[0].payload);
        match Bucket::new(frame, resource) {
            Err(e) => Err(e),
            Ok(b) => Ok(bid_output(b.bid())),
        }
    } else if op == PUT_INTO_BUCKET {
        assert(fv[0] == f@[0]@ && fv[1] == f@[1]@);
        let into = Bucket::from(BID(read_handle(&f[0])));
        let other = Bucket::from(BID(read_handle(&f[1])));
        match into.put(frame, other) {
            Err(e) => Err(e),
            Ok(()) => Ok(no_output()),
        }
    } else if op == TAKE_FROM_BUCKET {
        assert(fv[0] == f@[0]@ && fv[1] == f@[1]@);
        let from = Bucket::from(BID(read_handle(&f[0])));
        let amount = match read_amount(&f[1]) {
            Err(e) => { return Err(e); },
            Ok(amount) => amount,
        };
        match from.take(frame, amount) {
            Err(e) => Err(e),
            Ok(b) => Ok(bid_output(b.bid())),
        }
    } else if op == GET_BUCKET_AMOUNT {
        assert(fv[0] == f@[0]@);
        let bucket = Bucket::from(BID(read_handle(&f[0])));
        match bucket.amount(frame) {
            Err(e) => Err(e),
            Ok(amount) => {
                let mut out: Vec<Field> = Vec::new();
                out.push(Field { tag: 0x0bu8, payload: u128_to_le_bytes(amount.0 as u128) });
                assert(views(out@) =~= seq![amount_field(amount)]);
                Ok(out)
            },
        }
    } else if op == GET_BUCKET_RESOURCE {
        assert(fv[0] == f@[0]@);
        let bucket = Bucket::from(BID(read_handle(&f[0])));
        match bucket.resource(frame) {
            Err(e) => Err(e),
            Ok(resource) => {
                let mut out: Vec<Field> = Vec::new();
                out.push(address_field(resource));
                assert(views(out@) =~= seq![(TAG_ADDRESS, address_payload(resource))]);
                Ok(out)
            },
        }
    } else if op == CREATE_REFERENCE {
        assert(fv[0] == f@[0]@);
        let bucket = Bucket::from(BID(read_handle(&f[0])));
        match bucket.borrow(frame) {
            Err(e) => Err(e),
            Ok(reference) => {
                let mut out: Vec<Field> = Vec::new();
                out.push(Field { tag: 0x84u8, payload: u32_to_le_bytes(reference.rid().0) });
                assert(views(out@) =~= seq![rid_field(reference.id())]);
                Ok(out)
            },
        }
    } else if op == DROP_REFERENCE {
        assert(fv[0] == f@[0]@);
        let reference = BucketRef::from(RID(read_handle(&f[0])));
        match reference.drop(frame) {
            Err(e) => Err(e),
            Ok(()) => Ok(no_output()),
        }
    } else if op == MINT_RESOURCE {
        assert(fv[0] == f@[0]@ && fv[1] == f@[1]@ && fv[2] == f@[2]@);
        let resource = read_address(&f[0].payload);
        let amount = match read_amount(&f[1]) {
            Err(e) => { return Err(e); },
            Ok(amount) => amount,
        };
        let auth = Some(BucketRef::from(RID(read_handle(&f[2]))));
        match mint(frame, resource, amount, auth) {
            Err(e) => Err(e),
            Ok(b) => Ok(bid_output(b.bid())),
        }
    } else if op == BURN_RESOURCE {
        assert(fv[0] == f@[0]@);
        let bucket = Bucket::from(BID(read_handle(&f[0])));
        match bucket.burn(frame, None) {
            Err(e) => Err(e),
            Ok(()) => Ok(no_output()),
        }
    } else {
        assert(fv[0] == f@[0]@ && fv[1] == f@[1]@);
        let bucket = Bucket::from(BID(read_handle(&f[0])));
        let auth = Some(BucketRef::from(RID(read_handle(&f[1]))));
        match bucket.burn(frame, auth) {
            Err(e) => Err(e),
            Ok(()) => Ok(no_output()),
        }
    }
}

/// Carries out one call of sandboxed code on a frame.
///
/// Fails with `InvalidOpCode` on an unknown call number, with
/// `InvalidRequest` on an input that does not decode under the call's
/// schema, and otherwise as the call itself fails. On failure the frame is
/// left as it was, but that a reference presented to a mint or a burn is
/// live no longer. On success the output is the encoded result.
///
/// A free bucket handle is needed only by the calls that make a bucket, a
/// free reference handle only by the call that makes a reference.
pub fn call(frame: &mut Frame, op: u32, input: &[u8]) -> (r: Result<Vec<u8>, RuntimeError>)
    requires
        old(frame)@.wf(),
        makes_bucket(op) ==> old(frame)@.next_bid < u32::MAX,
        makes_reference(op) ==> old(frame)@.next_rid < u32::MAX,
    ensures
        final(frame)@.wf(),
        old(frame)@.backed() ==> final(frame)@.backed(),
        match r {
            Ok(output) => call_result(old(frame)@, op, input@) == Ok::<
                (FrameState, Seq<u8>),
                RuntimeError,
            >((final(frame)@, output@)),
            Err(e) => call_result(old(frame)@, op, input@) == Err::<
                (FrameState, Seq<u8>),
                RuntimeError,
            >(e) && final(frame)@ == failed_call(old(frame)@, op, input@),
        },
{
    let schema = match schema_of(op) {
        None => { return Err(RuntimeError::InvalidOpCode(op)); },
        Some(schema) => schema,
    };
    let fields = match decode(&schema, input) {
        Err(e) => { return Err(RuntimeError::InvalidRequest(e)); },
        Ok(fields) => fields,
    };
    proof {
        lemma_inputs_are_fixed_width(op);
        lemma_decoded_conforms(schema@->Tuple_elements, input@);
    }
    match perform(frame, op, &fields) {
        Err(e) => Err(e),
        Ok(out) => Ok(encode(&out)),
    }
}

} // verus!
