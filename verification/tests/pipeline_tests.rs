use iter_keccak::decode;
use iter_keccak::encode;
use iter_keccak::iterate;
use iter_keccak::keccak;

#[test]
fn decode_then_iterate_end_to_end() {
    let payload = b"input to the kernel";
    let blob = encode(4, payload);
    let (num_iter, data) = decode(&blob).unwrap();
    let digest = iterate(&data, num_iter);

    let expected = keccak(&keccak(&keccak(&keccak(payload))));
    assert_eq!(digest, expected);
}
