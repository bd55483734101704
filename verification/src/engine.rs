//! Handing a witness stream to the proving engine.
//!
//! The engine reads its input from a queue of field-element vectors. A page
//! becomes one vector that holds an element for each of its bytes, and a
//! field element becomes a vector of its own.
use vstd::prelude::*;
use openvm_stark_sdk::openvm_stark_backend::p3_field::PrimeCharacteristicRing;
use crate::witness::{StreamItem, StreamItemView, WitnessStream};

verus! {

/// The order of the engine's field.
pub const FIELD_ORDER: u32 = 2013265921;

/// The engine's input queue, an `openvm_sdk::StdIn`.
#[verifier::external_body]
pub struct EngineInput {
    pub stdin: openvm_sdk::StdIn,
}

/// The vectors that wait in the queue of `input`, first in first, each as the
/// canonical representatives of its field elements.
pub uninterp spec fn engine_buffer(input: EngineInput) -> Seq<Seq<u32>>;

/// Calls `StdIn::default`: taken on trust, the new queue is empty.
#[verifier::external_body]
fn empty_input() -> (input: EngineInput)
    ensures
        engine_buffer(input) == Seq::<Seq<u32>>::empty(),
{
    EngineInput { stdin: openvm_sdk::StdIn::default() }
}

/// Calls `StdIn::write_bytes`: taken on trust, one vector joins the end of the
/// queue, and it holds each byte of `page`, in order, as the field element of
/// that value.
#[verifier::external_body]
fn write_page(input: &mut EngineInput, page: &[u8])
    ensures
        engine_buffer(*final(input)) == engine_buffer(*old(input)).push(
            page@.map_values(|byte: u8| byte as u32),
        ),
{
    input.stdin.write_bytes(page)
}

/// Calls `StdIn::write_field` on the one element that `PrimeCharacteristicRing::from_u32`
/// makes of `value`: taken on trust, one vector joins the end of the queue,
/// and it holds the single element whose canonical representative is `value`
/// reduced by the order of the field.
#[verifier::external_body]
fn write_element(input: &mut EngineInput, value: u32)
    ensures
        engine_buffer(*final(input)) == engine_buffer(*old(input)).push(
            seq![(value % FIELD_ORDER) as u32],
        ),
{
    input.stdin.write_field(&[openvm_sdk::F::from_u32(value)])
}

/// The vector that stands for `item` in the engine's queue.
pub open spec fn queue_entry(item: StreamItemView) -> Seq<u32> {
    match item {
        StreamItemView::Page(bytes) => bytes.map_values(|byte: u8| byte as u32),
        StreamItemView::Element(element) => seq![(element.value % FIELD_ORDER) as u32],
    }
}

/// The queue that stands for `stream`.
pub open spec fn queue_of(stream: Seq<StreamItemView>) -> Seq<Seq<u32>> {
    stream.map_values(|item: StreamItemView| queue_entry(item))
}

/// Fills a new input queue with the items of `stream`, in their order.
pub fn feed(stream: &WitnessStream) -> (input: EngineInput)
    ensures
        engine_buffer(input) == queue_of(stream@),
{
    let mut input = empty_input();
    let mut index: usize = 0;
    while index < stream.items.len()
        invariant
            index <= stream.items@.len(),
            engine_buffer(input) == queue_of(stream@.take(index as int)),
        decreases stream.items@.len() - index,
    {
        match &stream.items[index] {
            StreamItem::Page(bytes) => {
                write_page(&mut input, bytes.as_slice());
            },
            StreamItem::Element(element) => {
                write_element(&mut input, element.value);
            },
        }
        index = index + 1;
        assert(stream@.take(index as int) =~= stream@.take(index - 1).push(stream@[index - 1]));
        assert(engine_buffer(input) =~= queue_of(stream@.take(index as int)));
    }
    assert(stream@.take(index as int) =~= stream@);
    input
}

} // verus!
