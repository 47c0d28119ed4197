use heapswap::channel::{ChannelError, ChannelManager};

#[test]
fn handles_count_up() {
    let mut manager: ChannelManager<u32> = ChannelManager::new();
    assert_eq!(manager.handle(), 0);
    assert_eq!(manager.handle(), 1);
    assert_eq!(manager.create_oneshot(), 2);
    assert_eq!(manager.create_stream(), 3);
}

#[test]
fn kinds_are_tracked() {
    let mut manager: ChannelManager<u32> = ChannelManager::new();
    let oneshot = manager.create_oneshot();
    let stream = manager.create_stream();
    assert!(matches!(manager.handle_is_oneshot(&oneshot), Ok(true)));
    assert!(matches!(manager.handle_is_oneshot(&stream), Ok(false)));
    assert!(matches!(manager.handle_is_oneshot(&99), Err(ChannelError::HandleIsOneshotNotFound)));
    manager.delete_stream(&stream);
    assert!(matches!(manager.handle_is_oneshot(&stream), Err(ChannelError::HandleIsOneshotNotFound)));
    manager.finish_oneshot(&oneshot);
    assert!(matches!(manager.handle_is_oneshot(&oneshot), Err(ChannelError::HandleIsOneshotNotFound)));
}

#[test]
fn oneshot_delivers_once() {
    let mut manager: ChannelManager<u32> = ChannelManager::new();
    let h = manager.create_oneshot();
    assert!(manager.send_oneshot(&h, 7).is_ok());
    // The sender is used up.
    assert!(matches!(manager.send_oneshot(&h, 8), Err(ChannelError::HandleNotFound)));
    let rx = manager.take_oneshot_receiver(&h).unwrap();
    assert_eq!(rx.recv().unwrap(), 7);
    assert!(manager.take_oneshot_receiver(&h).is_none());
}

#[test]
fn oneshot_send_fails_without_a_receiver() {
    let mut manager: ChannelManager<u32> = ChannelManager::new();
    let h = manager.create_oneshot();
    drop(manager.take_oneshot_receiver(&h));
    match manager.send_oneshot(&h, 1) {
        Err(ChannelError::SendError(s)) => assert_eq!(s, "Failed to send oneshot message"),
        _ => panic!("the send should fail"),
    }
}

#[test]
fn stream_delivers_in_order() {
    let mut manager: ChannelManager<u32> = ChannelManager::new();
    let h = manager.create_stream();
    assert!(manager.send_stream(&h, 1).is_ok());
    assert!(manager.send_stream(&h, 2).is_ok());
    let mut rx = manager.take_stream_receiver(&h).unwrap();
    assert_eq!(rx.try_recv().unwrap(), 1);
    assert_eq!(rx.try_recv().unwrap(), 2);
    assert!(rx.try_recv().is_err());
    manager.restore_stream_receiver(&h, rx);
    assert!(manager.send_stream(&h, 3).is_ok());
    let mut rx = manager.take_stream_receiver(&h).unwrap();
    assert_eq!(rx.try_recv().unwrap(), 3);
}

#[test]
fn unknown_stream_is_refused() {
    let mut manager: ChannelManager<u32> = ChannelManager::new();
    assert!(matches!(manager.send_stream(&5, 1), Err(ChannelError::HandleNotFound)));
    let h = manager.create_stream();
    manager.delete_stream(&h);
    assert!(matches!(manager.send_stream(&h, 1), Err(ChannelError::HandleNotFound)));
    assert!(manager.take_stream_receiver(&h).is_none());
}

#[test]
fn explicit_handles() {
    let mut manager: ChannelManager<u32> = ChannelManager::new();
    manager.create_oneshot_with_handle(&40);
    manager.create_stream_with_handle(&41);
    assert!(matches!(manager.handle_is_oneshot(&40), Ok(true)));
    assert!(matches!(manager.handle_is_oneshot(&41), Ok(false)));
    assert_eq!(manager.handle(), 0);
}

#[test]
fn deleting_a_stream_leaves_the_others() {
    let mut manager: ChannelManager<u32> = ChannelManager::new();
    let a = manager.create_stream();
    let b = manager.create_stream();
    assert!(manager.send_stream(&b, 5).is_ok());
    manager.delete_stream(&a);
    manager.delete_stream(&a);
    assert!(matches!(manager.send_stream(&a, 1), Err(ChannelError::HandleNotFound)));
    assert!(matches!(manager.handle_is_oneshot(&b), Ok(false)));
    assert!(manager.send_stream(&b, 6).is_ok());
    let mut rx = manager.take_stream_receiver(&b).unwrap();
    assert_eq!(rx.try_recv().unwrap(), 5);
    assert_eq!(rx.try_recv().unwrap(), 6);
}
