use soapdav::double;

#[test]
fn test_double() {
    let v = 4;
    assert_eq!(double(&v), 8);
}
