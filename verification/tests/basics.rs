use dpmaster_proto::codec::GameClientCodec;

#[test]
fn it_works() {
    assert_eq!(2 + 2, 4);
}

#[test]
fn lib_it_works() {
    let _codec = GameClientCodec::new();
    assert_eq!(2 + 2, 4);
}
