use ringbeam::custom::modes::RelaxedTailSync;

#[test]
pub fn test_mpmc_rts_try_send_recv_sequential() {
    let (sender, receiver) =
        ringbeam::custom::bounded::<64, u8, RelaxedTailSync, RelaxedTailSync>();
    sender.try_send(10).unwrap();
    let res = receiver.try_recv().unwrap();
    assert_eq!(res, 10);
}
