use http_server::listener::{join_head_lines, ListenerConfig};
use http_server::queue::{
    on_message, shutdown_signals, RequestQueueOptions, SynchronisedQueue, ThreadPoolMessage,
};

#[test]
fn queue_drains_in_push_order() {
    let mut q: SynchronisedQueue<u64> = SynchronisedQueue::new();
    for k in 0..8u64 {
        q.push(k);
    }
    assert_eq!(q.len(), 8);
    for k in 0..8u64 {
        assert_eq!(q.pop(), Some(k), "The queue hands requests back first-in first-out");
    }
    assert!(q.is_empty());
    assert_eq!(q.pop(), None);
}

#[test]
fn queue_with_capacity_starts_empty() {
    let mut q: SynchronisedQueue<u64> = SynchronisedQueue::with_capacity(16);
    assert!(q.is_empty());
    q.push(7);
    assert_eq!(q.pop(), Some(7));
}

#[test]
fn workers_stop_on_every_shutdown_signal() {
    let signals: Vec<ThreadPoolMessage<u64>> = shutdown_signals(3);
    assert_eq!(signals.len(), 3);
    for msg in signals {
        assert_eq!(
            on_message(msg),
            None,
            "Every worker that takes a shutdown signal stops"
        );
    }
    assert_eq!(on_message(ThreadPoolMessage::Work(5u64)), Some(5));
}

#[test]
fn pool_sizing_follows_parallelism() {
    assert_eq!(RequestQueueOptions::for_parallelism(Some(8)).n_threads, 4);
    assert_eq!(RequestQueueOptions::for_parallelism(Some(7)).n_threads, 4);
    assert_eq!(RequestQueueOptions::for_parallelism(Some(1)).n_threads, 1);
    assert_eq!(RequestQueueOptions::for_parallelism(None).n_threads, 4);
    assert_eq!(RequestQueueOptions::default().n_threads, 4);
    assert_eq!(RequestQueueOptions::default().timeout_secs, 10);
}

#[test]
fn listener_default_timeout() {
    assert_eq!(ListenerConfig::default().timeout_secs, Some(10));
}

#[test]
fn head_lines_rejoin_with_crlf() {
    let lines = vec!["GET / HTTP/1.1".to_string(), "Host: x".to_string()];
    assert_eq!(join_head_lines(&lines), "GET / HTTP/1.1\r\nHost: x\r\n");
    let none: Vec<String> = vec![];
    assert_eq!(join_head_lines(&none), "");
}
