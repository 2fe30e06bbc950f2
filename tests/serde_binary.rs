use decimal64::U2;
use signed_decimal64::SignedDecimalU64;

#[test]
fn binary_roundtrip() {
    let x = SignedDecimalU64::<U2>::from_str("-12.34").unwrap();
    let wire = x.into_unscaled_i128();
    assert_eq!(wire, -1234);
    let y = SignedDecimalU64::<U2>::try_from(wire).unwrap();
    assert_eq!(x, y);
}
