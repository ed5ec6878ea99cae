#[test]
pub fn test_spmc_try_send_recv_sequential() {
    let (sender, receiver) = ringbeam::spmc::bounded::<64, u8>();
    sender.try_send(10).unwrap();
    let res = receiver.try_recv().unwrap();
    assert_eq!(res, 10);
}
