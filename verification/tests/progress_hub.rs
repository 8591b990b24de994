use soro_fuzz::progress_hub::ProgressHub;

#[test]
fn subscribe_returns_none_before_any_publisher_exists() {
    let hub: ProgressHub<u32> = ProgressHub::new();
    assert!(hub.channel(7).is_none());
}

#[test]
fn close_drops_the_channel() {
    let mut hub: ProgressHub<u32> = ProgressHub::new();
    let _publisher = hub.publisher(7, || 1);
    assert!(hub.channel(7).is_some());
    hub.close(7);
    assert!(hub.channel(7).is_none());
}

#[test]
fn reopening_a_run_reuses_its_channel() {
    let mut hub: ProgressHub<u32> = ProgressHub::new();
    assert_eq!(hub.publisher(1, || 10), 10);
    assert_eq!(hub.publisher(1, || 20), 10);
    assert_eq!(hub.publisher(2, || 30), 30);
    hub.close(1);
    assert!(hub.channel(1).is_none());
    assert_eq!(hub.channel(2), Some(&30));
}
