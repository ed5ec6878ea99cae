use ringbeam::Error;

#[test]
pub fn test_spsc_try_send_recv_sequential() {
    let (sender, receiver) = ringbeam::spsc::bounded::<64, u8>();
    sender.try_send(10).unwrap();
    let res = receiver.try_recv().unwrap();
    assert_eq!(res, 10);
}

#[test]
fn spsc_is_empty_after_the_value_was_received() {
    let (sender, receiver) = ringbeam::spsc::bounded::<64, u8>();
    sender.try_send(10).unwrap();
    assert_eq!(receiver.try_recv(), Ok(10));
    assert_eq!(receiver.try_recv(), Err(Error::Empty));
}

#[test]
fn spsc_keeps_the_order_over_many_rounds() {
    let (sender, receiver) = ringbeam::spsc::bounded::<64, u8>();
    let mut sent = 0u8;
    let mut received = 0u8;
    while received < 100 {
        while sent < 100 {
            match sender.try_send(sent) {
                Ok(None) => sent += 1,
                Ok(Some(back)) => {
                    assert_eq!(back, sent);
                    break;
                }
                Err(err) => panic!("{err:?}"),
            }
        }
        loop {
            match receiver.try_recv() {
                Ok(val) => {
                    assert_eq!(val, received);
                    received += 1;
                }
                Err(Error::Empty) => break,
                Err(err) => panic!("{err:?}"),
            }
        }
    }
    assert_eq!(sent, 100);
}
