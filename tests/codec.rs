use eos_sensor::codec::{decode, encode, CodecError, MAX_BATCH_SAMPLES};
use eos_sensor::sample::{Axes, Sample};

fn axes(x: f32, y: f32, z: f32) -> Axes {
    Axes { x: x.to_bits(), y: y.to_bits(), z: z.to_bits() }
}

fn sample(t: f32) -> Sample {
    Sample {
        time: t.to_bits(),
        acceleration: axes(0.5, -1.25, 9.81),
        gyroscope: axes(t, -t, 0.0),
        magnetometer: axes(-0.0, f32::MAX, f32::MIN_POSITIVE),
    }
}

#[test]
fn empty_batch_is_a_header() {
    let bytes = encode(&[]).unwrap();
    assert_eq!(bytes, vec![1, 0, 0]);
    assert_eq!(decode(&bytes).unwrap(), vec![]);
}

#[test]
fn one_sample_layout() {
    let s = Sample {
        time: 0x0403_0201,
        acceleration: Axes { x: 5, y: 6, z: 7 },
        gyroscope: Axes { x: 8, y: 9, z: 10 },
        magnetometer: Axes { x: 11, y: 12, z: 0xdead_beef },
    };
    let bytes = encode(&[s]).unwrap();
    assert_eq!(bytes.len(), 3 + 40);
    assert_eq!(&bytes[..7], &[1, 1, 0, 1, 2, 3, 4]);
    assert_eq!(&bytes[7..11], &[5, 0, 0, 0]);
    assert_eq!(&bytes[39..43], &[0xef, 0xbe, 0xad, 0xde]);
}

#[test]
fn round_trip_keeps_samples_bit_for_bit() {
    let batch: Vec<Sample> = (0..50).map(|i| sample(i as f32 * 0.1)).collect();
    let bytes = encode(&batch).unwrap();
    assert_eq!(bytes[1], 50);
    assert_eq!(bytes[2], 0);
    let back = decode(&bytes).unwrap();
    assert_eq!(back, batch);
    assert_eq!(f32::from_bits(back[3].magnetometer.x).to_bits(), (-0.0f32).to_bits());
}

#[test]
fn round_trip_nan_payload() {
    let mut s = sample(1.0);
    s.gyroscope.z = 0x7fc0_1234;
    let back = decode(&encode(&[s, s]).unwrap()).unwrap();
    assert_eq!(back, vec![s, s]);
}

#[test]
fn count_uses_two_bytes() {
    let batch: Vec<Sample> = (0..300).map(|i| sample(i as f32)).collect();
    let bytes = encode(&batch).unwrap();
    assert_eq!(bytes[1], (300 % 256) as u8);
    assert_eq!(bytes[2], 1);
    assert_eq!(decode(&bytes).unwrap(), batch);
}

#[test]
fn too_many_samples_is_an_error() {
    let batch = vec![sample(0.0); MAX_BATCH_SAMPLES + 1];
    assert_eq!(encode(&batch), Err(CodecError::TooManySamples));
    let most = vec![sample(0.0); MAX_BATCH_SAMPLES];
    assert_eq!(decode(&encode(&most).unwrap()).unwrap().len(), MAX_BATCH_SAMPLES);
}

#[test]
fn decode_rejects_truncated() {
    assert_eq!(decode(&[]), Err(CodecError::Truncated));
    assert_eq!(decode(&[1, 0]), Err(CodecError::Truncated));
}

#[test]
fn decode_rejects_other_version() {
    assert_eq!(decode(&[2, 0, 0]), Err(CodecError::UnsupportedVersion));
}

#[test]
fn decode_rejects_length_mismatch() {
    let mut bytes = encode(&[sample(0.0)]).unwrap();
    bytes.pop();
    assert_eq!(decode(&bytes), Err(CodecError::LengthMismatch));
    assert_eq!(decode(&[1, 1, 0]), Err(CodecError::LengthMismatch));
    assert_eq!(decode(&[1, 0, 0, 7]), Err(CodecError::LengthMismatch));
}
