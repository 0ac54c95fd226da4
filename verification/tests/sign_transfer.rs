use collateral::sign_transfer::{SignTransfer, STError, EVM_ID};

fn account(first: u8) -> [u8; 32] {
    let mut a = [0u8; 32];
    for (i, b) in a.iter_mut().enumerate() {
        *b = first.wrapping_add(i as u8);
    }
    a
}

fn expected_input(from: [u8; 20], to: [u8; 20], id: u32) -> Vec<u8> {
    let mut v = vec![0x23, 0xb8, 0x72, 0xdd];
    v.extend_from_slice(&[0u8; 12]);
    v.extend_from_slice(&from);
    v.extend_from_slice(&[0u8; 12]);
    v.extend_from_slice(&to);
    v.extend_from_slice(&[0u8; 28]);
    v.extend_from_slice(&id.to_be_bytes());
    v
}

#[test]
fn h160_takes_first_twenty_bytes() {
    let a = account(1);
    let h = SignTransfer::h160(&a);
    assert_eq!(&h[..], &a[..20]);
}

#[test]
fn transfer_from_encode_matches_abi_layout() {
    let encoded = SignTransfer::transfer_from_encode([0x11; 20], [0x22; 20], 0x01020304);
    assert_eq!(encoded.len(), 100);
    assert_eq!(encoded, expected_input([0x11; 20], [0x22; 20], 0x01020304));
}

#[test]
fn transfer_from_encode_token_five() {
    let encoded = SignTransfer::transfer_from_encode([0xab; 20], [0xcd; 20], 5);
    assert_eq!(encoded[99], 5);
    assert_eq!(encoded[98], 0);
    assert_eq!(&encoded[0..4], &[0x23, 0xb8, 0x72, 0xdd]);
}

#[test]
fn transfer_builds_evm_call_from_caller_to_receiver() {
    let mut relay = SignTransfer::new();
    let caller = account(1);
    let to = account(100);
    let evm = [0x42u8; 20];
    let call = relay.transfer(caller, evm, to, 77, vec![9, 9]);
    assert_eq!(call.vm_id, EVM_ID);
    assert_eq!(call.vm_id, 0x0F);
    assert_eq!(call.target, evm.to_vec());
    let mut from20 = [0u8; 20];
    from20.copy_from_slice(&caller[..20]);
    let mut to20 = [0u8; 20];
    to20.copy_from_slice(&to[..20]);
    assert_eq!(call.input, expected_input(from20, to20, 77));
}

#[test]
fn transfer_result_maps_failure() {
    assert!(SignTransfer::transfer_result(true).is_ok());
    match SignTransfer::transfer_result(false) {
        Err(STError::Custom(m)) => assert_eq!(m, "transfer failed"),
        Ok(()) => panic!("expected an error"),
    }
}

#[test]
fn distinct_arguments_give_distinct_call_data() {
    let a = SignTransfer::transfer_from_encode([0x11; 20], [0x22; 20], 1);
    assert_ne!(a, SignTransfer::transfer_from_encode([0x11; 20], [0x22; 20], 256));
    assert_ne!(a, SignTransfer::transfer_from_encode([0x22; 20], [0x11; 20], 1));
    assert_ne!(a, SignTransfer::transfer_from_encode([0x11; 20], [0x23; 20], 1));
}
