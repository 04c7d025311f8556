use wexing::future::{Context, Poll, Waker};
use wexing::sync::{
    oneshot, sync_channel, RecvError, RecvTimeoutError, SendError, TryRecvError, TrySendError,
};
use wexing::timer::Timer;

fn context(task: usize) -> Context {
    Context::new(Timer::new(), 0, Waker::Task(task))
}

#[test]
fn values_arrive_in_the_order_sent() {
    let (sender, mut receiver) = sync_channel::<u32>(3);
    let mut woken = Vec::new();
    for value in [4, 2, 9] {
        assert!(sender.try_send(&mut receiver, value, &mut woken).is_ok());
    }
    assert_eq!(receiver.len(), 3);
    assert_eq!(receiver.try_recv(&mut woken), Ok(4));
    assert_eq!(receiver.try_recv(&mut woken), Ok(2));
    assert!(sender.try_send(&mut receiver, 1, &mut woken).is_ok());
    assert_eq!(receiver.try_recv(&mut woken), Ok(9));
    assert_eq!(receiver.try_recv(&mut woken), Ok(1));
    assert_eq!(receiver.try_recv(&mut woken), Err(TryRecvError::Empty));
    assert!(woken.is_empty());
}

#[test]
fn a_full_channel_gives_the_value_back() {
    let (sender, mut receiver) = sync_channel::<u32>(1);
    let mut woken = Vec::new();
    assert!(!receiver.is_full());
    assert!(sender.try_send(&mut receiver, 1, &mut woken).is_ok());
    assert!(receiver.is_full());
    assert!(matches!(
        sender.try_send(&mut receiver, 2, &mut woken),
        Err(TrySendError::Full(2))
    ));
    assert_eq!(receiver.len(), 1);
}

#[test]
fn a_closed_channel_gives_the_value_back() {
    let (sender, mut receiver) = sync_channel::<u32>(2);
    let mut woken = Vec::new();
    assert!(sender.try_send(&mut receiver, 1, &mut woken).is_ok());
    assert!(receiver.is_open());
    receiver.close(&mut woken);
    assert!(!receiver.is_open());
    assert_eq!(receiver.len(), 0);
    assert!(matches!(
        sender.try_send(&mut receiver, 2, &mut woken),
        Err(TrySendError::Disconnected(2))
    ));
    assert!(matches!(sender.send(&mut receiver, 3, &mut woken), Err(SendError(3))));
}

#[test]
fn a_send_wakes_the_waiting_receiver() {
    let (sender, mut receiver) = sync_channel::<u32>(1);
    let mut cx = context(7);
    assert!(receiver.poll(&mut cx).is_pending());
    assert!(cx.woken.is_empty());

    let mut woken = Vec::new();
    assert!(sender.send(&mut receiver, 5, &mut woken).is_ok());
    assert_eq!(woken, vec![Waker::Task(7)]);
    assert!(matches!(receiver.poll(&mut cx), Poll::Ready(Ok(5))));

    woken.clear();
    assert!(sender.send(&mut receiver, 6, &mut woken).is_ok());
    assert!(woken.is_empty());
}

#[test]
fn the_receiver_keeps_only_its_latest_waker() {
    let (sender, mut receiver) = sync_channel::<u32>(1);
    assert!(receiver.poll(&mut context(1)).is_pending());
    assert!(receiver.poll(&mut context(2)).is_pending());
    let mut woken = Vec::new();
    assert!(sender.try_send(&mut receiver, 5, &mut woken).is_ok());
    assert_eq!(woken, vec![Waker::Task(2)]);
}

#[test]
fn a_receive_wakes_every_waiting_sender() {
    let (sender, mut receiver) = sync_channel::<u32>(1);
    let mut woken = Vec::new();
    assert!(sender.try_send(&mut receiver, 1, &mut woken).is_ok());

    let mut first = sender.async_send(2);
    let mut second = sender.async_send(3);
    assert!(first.poll(&mut receiver, &mut context(10)).is_pending());
    assert!(second.poll(&mut receiver, &mut context(11)).is_pending());
    assert_eq!(receiver.len(), 1);

    assert_eq!(receiver.try_recv(&mut woken), Ok(1));
    assert_eq!(woken, vec![Waker::Task(10), Waker::Task(11)]);

    let mut cx = context(10);
    assert!(matches!(first.poll(&mut receiver, &mut cx), Poll::Ready(Ok(()))));
    assert!(second.poll(&mut receiver, &mut context(11)).is_pending());
    woken.clear();
    assert_eq!(receiver.recv(&mut woken), Ok(2));
    assert_eq!(woken, vec![Waker::Task(11)]);
    assert!(matches!(second.poll(&mut receiver, &mut cx), Poll::Ready(Ok(()))));
    assert_eq!(receiver.recv(&mut woken), Ok(3));
}

#[test]
fn an_async_send_into_a_closed_channel_fails_with_the_value() {
    let (sender, mut receiver) = sync_channel::<String>(1);
    let mut woken = Vec::new();
    receiver.close(&mut woken);
    let mut send = sender.async_send("lost".to_string());
    match send.poll(&mut receiver, &mut context(1)) {
        Poll::Ready(Err(SendError(value))) => assert_eq!(value, "lost"),
        _ => panic!("the receiver is gone"),
    }
}

#[test]
fn closing_wakes_the_waiting_senders() {
    let (sender, mut receiver) = sync_channel::<u32>(1);
    let mut woken = Vec::new();
    assert!(sender.try_send(&mut receiver, 1, &mut woken).is_ok());
    let mut blocked = sender.async_send(2);
    assert!(blocked.poll(&mut receiver, &mut context(3)).is_pending());
    receiver.close(&mut woken);
    assert_eq!(woken, vec![Waker::Task(3)]);
    assert!(matches!(
        blocked.poll(&mut receiver, &mut context(3)),
        Poll::Ready(Err(SendError(2)))
    ));
}

#[test]
fn dropping_the_last_sender_disconnects_the_receiver() {
    let (sender, mut receiver) = sync_channel::<u32>(1);
    let second = sender.clone(&mut receiver);
    assert_eq!(receiver.sender_count(), 2);
    let mut cx = context(9);
    assert!(receiver.poll(&mut cx).is_pending());

    let mut woken = Vec::new();
    sender.drop(&mut receiver, &mut woken);
    assert_eq!(receiver.sender_count(), 1);
    assert!(woken.is_empty());
    assert!(receiver.poll(&mut cx).is_pending());

    second.drop(&mut receiver, &mut woken);
    assert_eq!(receiver.sender_count(), 0);
    assert_eq!(woken, vec![Waker::Task(9)]);
    assert!(matches!(receiver.poll(&mut cx), Poll::Ready(Err(RecvError))));
    assert_eq!(receiver.try_recv(&mut woken), Err(TryRecvError::Disconnected));
    assert!(matches!(
        receiver.recv_timeout(&mut woken, 0, 10),
        Poll::Ready(Err(RecvTimeoutError::Disconnected))
    ));
    assert!(matches!(
        receiver.recv_deadline(&mut woken, 0, 10),
        Poll::Ready(Err(RecvTimeoutError::Disconnected))
    ));
}

#[test]
fn queued_values_are_received_before_the_disconnection() {
    let (sender, mut receiver) = sync_channel::<u32>(2);
    let mut woken = Vec::new();
    assert!(sender.send(&mut receiver, 1, &mut woken).is_ok());
    assert!(sender.send(&mut receiver, 2, &mut woken).is_ok());
    sender.drop(&mut receiver, &mut woken);
    let mut cx = context(0);
    assert!(matches!(receiver.poll(&mut cx), Poll::Ready(Ok(1))));
    assert!(matches!(receiver.poll(&mut cx), Poll::Ready(Ok(2))));
    assert!(matches!(receiver.poll(&mut cx), Poll::Ready(Err(RecvError))));
}

#[test]
fn recv_timeout_times_out_at_an_empty_channel() {
    let (sender, mut receiver) = sync_channel::<u32>(1);
    let mut woken = Vec::new();
    assert!(receiver.recv_timeout(&mut woken, 0, 10).is_pending());
    assert!(receiver.recv_timeout(&mut woken, 9, 10).is_pending());
    assert!(matches!(
        receiver.recv_timeout(&mut woken, 10, 10),
        Poll::Ready(Err(RecvTimeoutError::Timeout))
    ));
    assert!(matches!(
        receiver.recv_timeout(&mut woken, 0, 0),
        Poll::Ready(Err(RecvTimeoutError::Timeout))
    ));
    assert!(sender.send(&mut receiver, 3, &mut woken).is_ok());
    assert!(matches!(receiver.recv_timeout(&mut woken, 0, 10), Poll::Ready(Ok(3))));
    assert!(sender.send(&mut receiver, 4, &mut woken).is_ok());
    assert!(matches!(receiver.recv_timeout(&mut woken, 11, 10), Poll::Ready(Ok(4))));
}

#[test]
fn recv_deadline_times_out_once_the_deadline_is_reached() {
    let (sender, mut receiver) = sync_channel::<u32>(1);
    let mut woken = Vec::new();
    assert!(receiver.recv_deadline(&mut woken, 99, 100).is_pending());
    assert!(matches!(
        receiver.recv_deadline(&mut woken, 100, 100),
        Poll::Ready(Err(RecvTimeoutError::Timeout))
    ));
    assert!(matches!(
        receiver.recv_deadline(&mut woken, 101, 100),
        Poll::Ready(Err(RecvTimeoutError::Timeout))
    ));
    assert!(sender.send(&mut receiver, 4, &mut woken).is_ok());
    assert!(matches!(receiver.recv_deadline(&mut woken, 101, 100), Poll::Ready(Ok(4))));
    assert!(receiver.recv_deadline(&mut woken, 0, 100).is_pending());
}

#[test]
fn try_iter_takes_what_is_there() {
    let (sender, mut receiver) = sync_channel::<u32>(3);
    let mut woken = Vec::new();
    assert_eq!(receiver.try_iter(&mut woken), Vec::<u32>::new());
    for value in [1, 2, 3] {
        assert!(sender.send(&mut receiver, value, &mut woken).is_ok());
    }
    let mut blocked = sender.async_send(4);
    assert!(blocked.poll(&mut receiver, &mut context(5)).is_pending());
    assert_eq!(receiver.try_iter(&mut woken), vec![1, 2, 3]);
    assert_eq!(woken, vec![Waker::Task(5)]);
    assert_eq!(receiver.len(), 0);
}

#[test]
fn iter_takes_everything_once_the_senders_are_gone() {
    let (sender, mut receiver) = sync_channel::<u32>(3);
    let mut woken = Vec::new();
    assert!(sender.send(&mut receiver, 1, &mut woken).is_ok());
    assert!(sender.send(&mut receiver, 2, &mut woken).is_ok());
    sender.drop(&mut receiver, &mut woken);
    assert_eq!(receiver.iter(&mut woken), vec![1, 2]);
    assert_eq!(receiver.try_recv(&mut woken), Err(TryRecvError::Disconnected));
}

#[test]
fn oneshot_delivers_one_value() {
    let (sender, mut receiver) = oneshot::<String>();
    assert_eq!(receiver.sender_count(), 1);
    let mut cx = context(2);
    assert!(receiver.poll(&mut cx).is_pending());
    let mut woken = Vec::new();
    assert!(sender.send(&mut receiver, "done".to_string(), &mut woken).is_ok());
    assert_eq!(woken, vec![Waker::Task(2)]);
    assert_eq!(receiver.sender_count(), 0);
    match receiver.poll(&mut cx) {
        Poll::Ready(Ok(value)) => assert_eq!(value, "done"),
        _ => panic!("the value was sent"),
    }
    assert!(matches!(receiver.poll(&mut cx), Poll::Ready(Err(RecvError))));
}

#[test]
fn oneshot_into_a_closed_channel_fails_with_the_value() {
    let (sender, mut receiver) = oneshot::<u32>();
    let mut woken = Vec::new();
    receiver.close(&mut woken);
    assert!(matches!(sender.send(&mut receiver, 8, &mut woken), Err(SendError(8))));
}

#[test]
fn oneshot_sender_dropped_wakes_the_receiver() {
    let (sender, mut receiver) = oneshot::<u32>();
    let mut cx = context(2);
    assert!(receiver.poll(&mut cx).is_pending());
    let mut woken = Vec::new();
    sender.drop(&mut receiver, &mut woken);
    assert_eq!(woken, vec![Waker::Task(2)]);
    assert!(matches!(receiver.poll(&mut cx), Poll::Ready(Err(RecvError))));
}
