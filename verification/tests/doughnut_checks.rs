use xpay::doughnut::{
    signed_message, validate, validate_permission, Certificate, Doughnut, DoughnutError,
};

fn doughnut(expires: u64, not_before: Option<u64>, permissions: Vec<(Vec<u8>, Vec<u8>)>) -> Doughnut {
    Doughnut {
        certificate: Certificate {
            expires,
            version: 0,
            holder: [1u8; 32],
            not_before,
            permissions,
            issuer: [2u8; 32],
        },
        signature: [3u8; 64],
        compact: Vec::new(),
    }
}

fn accept(_: &[u8; 64], _: &Vec<u8>, _: &[u8; 32]) -> bool {
    true
}

fn reject(_: &[u8; 64], _: &Vec<u8>, _: &[u8; 32]) -> bool {
    false
}

fn encoded_cennznet() -> Vec<u8> {
    let mut v = vec![32u8];
    v.extend_from_slice(b"cennznet");
    v
}

#[test]
fn valid_doughnut_with_good_signature_is_accepted() {
    assert_eq!(validate(doughnut(100, Some(10), vec![]), 50, accept), Ok(()));
    assert_eq!(validate(doughnut(100, None, vec![]), 0, accept), Ok(()));
    assert_eq!(validate(doughnut(100, Some(50), vec![]), 50, accept), Ok(()));
}

#[test]
fn bad_signature_is_refused() {
    assert_eq!(
        validate(doughnut(100, Some(10), vec![]), 50, reject),
        Err(DoughnutError::InvalidSignature)
    );
}

#[test]
fn expired_or_early_doughnut_is_invalid() {
    assert_eq!(validate(doughnut(100, None, vec![]), 100, accept), Err(DoughnutError::InvalidDoughnut));
    assert_eq!(validate(doughnut(100, None, vec![]), 150, reject), Err(DoughnutError::InvalidDoughnut));
    assert_eq!(
        validate(doughnut(100, Some(60), vec![]), 59, accept),
        Err(DoughnutError::InvalidDoughnut)
    );
}

#[test]
fn doughnut_valid_until_expiry() {
    let d = doughnut(100, Some(10), vec![]);
    assert_eq!(validate(d.clone(), 10, accept), Ok(()));
    assert_eq!(validate(d.clone(), 99, accept), Ok(()));
    assert_eq!(validate(d, 100, accept), Err(DoughnutError::InvalidDoughnut));
}

#[test]
fn permission_for_encoded_cennznet_domain() {
    let d = doughnut(100, None, vec![(b"other".to_vec(), vec![]), (encoded_cennznet(), vec![1])]);
    assert_eq!(validate_permission(d), Ok(()));
}

#[test]
fn raw_domain_name_is_no_permission() {
    let d = doughnut(100, None, vec![(b"cennznet".to_vec(), vec![])]);
    assert_eq!(validate_permission(d), Err(DoughnutError::NoPermission));
    assert_eq!(validate_permission(doughnut(100, None, vec![])), Err(DoughnutError::NoPermission));
}

#[test]
fn doughnut_error_messages() {
    assert_eq!(DoughnutError::InvalidSignature.message(), "invalid signature");
    assert_eq!(DoughnutError::InvalidDoughnut.message(), "invalid doughnut");
    assert_eq!(DoughnutError::NoPermission.message(), "no permission");
    assert_eq!(DoughnutError::ClockBeforeEpoch.message(), "SystemTime before UNIX EPOCH!");
}

#[test]
fn signed_message_is_field_encoding() {
    let d = doughnut(
        0x0102,
        Some(5),
        vec![(b"ab".to_vec(), vec![7u8])],
    );
    let mut expected: Vec<u8> = vec![0x02, 0x01, 0, 0, 0, 0, 0, 0];
    expected.extend_from_slice(&[0, 0, 0, 0]);
    expected.extend_from_slice(&[1u8; 32]);
    expected.extend_from_slice(&[1, 5, 0, 0, 0, 0, 0, 0, 0]);
    expected.extend_from_slice(&[4, 8, b'a', b'b', 4, 7]);
    expected.extend_from_slice(&[2u8; 32]);
    assert_eq!(signed_message(&d.certificate), expected);
    let without_start = doughnut(1, None, vec![]);
    let mut expected: Vec<u8> = vec![1, 0, 0, 0, 0, 0, 0, 0, 0, 0, 0, 0];
    expected.extend_from_slice(&[1u8; 32]);
    expected.extend_from_slice(&[0, 0]);
    expected.extend_from_slice(&[2u8; 32]);
    assert_eq!(signed_message(&without_start.certificate), expected);
}

#[test]
fn signature_is_checked_over_signed_message_with_issuer_key() {
    let d = doughnut(100, Some(10), vec![(b"x".to_vec(), vec![])]);
    let message = signed_message(&d.certificate);
    let check = |sig: &[u8; 64], m: &Vec<u8>, key: &[u8; 32]| {
        sig == &[3u8; 64] && m == &message && key == &[2u8; 32]
    };
    assert_eq!(validate(d.clone(), 50, check), Ok(()));
    let mut forged = d.clone();
    forged.certificate.expires = 101;
    assert_eq!(validate(forged, 50, check), Err(DoughnutError::InvalidSignature));
}
