//! Channels.
use goscript::channel_obj::{ChannelObj, RecvStep, SendStep};
use goscript::heap::Heap;
use goscript::instruction::ValueType;
use goscript::value::GosValue;

fn num(n: u64) -> GosValue {
    GosValue::Scalar(ValueType::Int, n)
}

fn received(step: RecvStep) -> u64 {
    match step {
        RecvStep::Received(GosValue::Scalar(_, n)) => n,
        _ => panic!("nothing received"),
    }
}

#[test]
fn values_come_out_in_order() {
    let mut heap = Heap::new();
    let c = ChannelObj::new(2, GosValue::Nil, &mut heap);
    assert_eq!((c.len(&heap), c.cap(&heap)), (0, 2));
    assert!(matches!(c.recv(&mut heap), RecvStep::Empty));
    assert!(matches!(c.send(&num(1), &mut heap), SendStep::Sent));
    assert!(matches!(c.send(&num(2), &mut heap), SendStep::Sent));
    assert!(matches!(c.send(&num(3), &mut heap), SendStep::Full));
    assert_eq!(c.len(&heap), 2);
    assert_eq!(received(c.recv(&mut heap)), 1);
    assert!(matches!(c.send(&num(3), &mut heap), SendStep::Sent));
    assert_eq!(received(c.recv(&mut heap)), 2);
    assert_eq!(received(c.recv(&mut heap)), 3);
}

#[test]
fn a_closed_channel_runs_dry() {
    let mut heap = Heap::new();
    let c = ChannelObj::new(1, GosValue::Nil, &mut heap);
    c.send(&num(1), &mut heap);
    c.close(&mut heap);
    assert!(matches!(c.send(&num(2), &mut heap), SendStep::Closed));
    assert_eq!(received(c.recv(&mut heap)), 1);
    assert!(matches!(c.recv(&mut heap), RecvStep::Closed));
}

#[test]
fn a_channel_without_capacity_hands_over() {
    let mut heap = Heap::new();
    let c = ChannelObj::new(0, GosValue::Nil, &mut heap);
    assert!(matches!(c.send(&num(1), &mut heap), SendStep::Full));
    c.begin_wait(&mut heap);
    assert!(matches!(c.send(&num(1), &mut heap), SendStep::Sent));
    assert!(matches!(c.send(&num(2), &mut heap), SendStep::Full));
    assert_eq!(received(c.recv(&mut heap)), 1);
    c.end_wait(&mut heap);
    assert!(matches!(c.send(&num(2), &mut heap), SendStep::Full));
}

#[test]
fn channels_can_share_a_queue() {
    let mut heap = Heap::new();
    let a = ChannelObj::new(1, num(0), &mut heap);
    let b = ChannelObj::with_chan(a.chan, num(9));
    a.send(&num(5), &mut heap);
    assert_eq!(received(b.recv(&mut heap)), 5);
    assert!(matches!(b.recv_zero, GosValue::Scalar(_, 9)));
    let x = GosValue::Channel(heap.alloc_channel(a));
    let y = GosValue::Channel(heap.alloc_channel(b));
    assert!(x.eq(&x, &heap));
    assert!(!x.eq(&y, &heap));
}
