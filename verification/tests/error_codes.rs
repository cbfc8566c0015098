use zk_precompiles::error::Error;

#[test]
fn error_codes_are_stable() {
    assert_eq!(Error::Serialize.code(), 1);
    assert_eq!(Error::Deserialize.code(), 2);
    assert_eq!(Error::VerifyFail.code(), 3);
    assert_eq!(Error::Unknown.code(), 4);
}
