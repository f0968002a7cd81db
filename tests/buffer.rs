use eos_sensor::buffer::SampleBuffer;
use eos_sensor::sample::{Axes, Sample};

fn sample(t: u32) -> Sample {
    Sample {
        time: t,
        acceleration: Axes { x: t + 1, y: t + 2, z: t + 3 },
        gyroscope: Axes { x: t + 4, y: t + 5, z: t + 6 },
        magnetometer: Axes { x: t + 7, y: t + 8, z: t + 9 },
    }
}

fn times(v: &[Sample]) -> Vec<u32> {
    v.iter().map(|s| s.time).collect()
}

#[test]
fn new_buffer_is_empty() {
    let mut b = SampleBuffer::new(512);
    assert_eq!(b.len(), 0);
    assert_eq!(b.capacity(), 512);
    assert!(b.drain_up_to(10).is_empty());
}

#[test]
fn pushes_within_capacity_are_all_kept() {
    let mut b = SampleBuffer::new(4);
    for t in 0..4 {
        b.push(sample(t));
    }
    assert_eq!(b.len(), 4);
    assert_eq!(times(&b.drain_up_to(10)), vec![0, 1, 2, 3]);
}

#[test]
fn overflow_keeps_most_recent_in_order() {
    let mut b = SampleBuffer::new(3);
    for t in 0..8 {
        b.push(sample(t * 10));
    }
    assert_eq!(b.len(), 3);
    let out = b.drain_up_to(3);
    assert_eq!(times(&out), vec![50, 60, 70]);
    assert_eq!(out[0], sample(50));
}

#[test]
fn capacity_one_keeps_last() {
    let mut b = SampleBuffer::new(1);
    b.push(sample(1));
    b.push(sample(2));
    assert_eq!(b.drain_up_to(5), vec![sample(2)]);
}

#[test]
fn drain_all_when_fewer_than_asked() {
    let mut b = SampleBuffer::new(8);
    for t in 0..3 {
        b.push(sample(t));
    }
    assert_eq!(times(&b.drain_up_to(3)), vec![0, 1, 2]);
    assert_eq!(b.len(), 0);
    let mut c = SampleBuffer::new(8);
    c.push(sample(9));
    assert_eq!(times(&c.drain_up_to(32)), vec![9]);
    assert_eq!(c.len(), 0);
}

#[test]
fn drain_oldest_and_keep_newest() {
    let mut b = SampleBuffer::new(8);
    for t in 0..5 {
        b.push(sample(t));
    }
    assert_eq!(times(&b.drain_up_to(2)), vec![0, 1]);
    assert_eq!(b.len(), 3);
    assert_eq!(times(&b.drain_up_to(10)), vec![2, 3, 4]);
}

#[test]
fn drain_zero_takes_nothing() {
    let mut b = SampleBuffer::new(2);
    b.push(sample(1));
    assert!(b.drain_up_to(0).is_empty());
    assert_eq!(b.len(), 1);
}
