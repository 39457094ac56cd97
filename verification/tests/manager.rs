use kohakuriver_tunnel::connection::{
    handler_frame, ActiveConnection, ConnectionManager, LocalEvent,
};
use kohakuriver_tunnel::protocol::{
    build_close, build_connected, build_data, get_payload, Header, MsgType, Proto,
};

fn test_runtime() -> tokio::runtime::Runtime {
    tokio::runtime::Builder::new_current_thread()
        .enable_all()
        .build()
        .unwrap()
}

fn test_connection(
    rt: &tokio::runtime::Runtime,
) -> (ActiveConnection, tokio::sync::mpsc::Receiver<Vec<u8>>) {
    let (data_tx, data_rx) = tokio::sync::mpsc::channel::<Vec<u8>>(256);
    let handle = rt.spawn(async {});
    (ActiveConnection { data_tx, handle }, data_rx)
}

#[test]
fn connect_fresh_id_creates_exactly_one_entry() {
    let rt = test_runtime();
    let mut mgr = ConnectionManager::new();
    assert_eq!(mgr.len(), 0);
    assert!(!mgr.contains(7));

    let (conn, _rx) = test_connection(&rt);
    assert!(mgr.handle_connect(7, conn));
    assert_eq!(mgr.len(), 1);
    assert!(mgr.contains(7));
}

#[test]
fn duplicate_connect_is_a_no_op() {
    let rt = test_runtime();
    let mut mgr = ConnectionManager::new();

    let (first, _rx1) = test_connection(&rt);
    assert!(mgr.handle_connect(7, first));

    let (second, _rx2) = test_connection(&rt);
    assert!(!mgr.handle_connect(7, second));
    assert_eq!(mgr.len(), 1);
    assert!(mgr.contains(7));
}

#[test]
fn data_for_unknown_id_is_dropped() {
    let mgr = ConnectionManager::new();
    assert!(mgr.handle_data(42).is_none());
}

#[test]
fn data_for_live_id_reaches_its_channel() {
    let rt = test_runtime();
    let mut mgr = ConnectionManager::new();
    let (conn, mut rx) = test_connection(&rt);
    assert!(mgr.handle_connect(7, conn));

    let tx = mgr.handle_data(7).expect("id 7 is live");
    rt.block_on(async {
        tx.send(b"ping".to_vec()).await.unwrap();
    });
    let got = rt.block_on(async { rx.recv().await }).unwrap();
    assert_eq!(got, b"ping".to_vec());
}

#[test]
fn close_removes_id_so_later_data_is_unknown() {
    let rt = test_runtime();
    let mut mgr = ConnectionManager::new();
    let (conn, _rx) = test_connection(&rt);
    assert!(mgr.handle_connect(7, conn));
    assert!(mgr.handle_data(7).is_some());

    mgr.handle_close(7);
    assert!(!mgr.contains(7));
    assert!(mgr.handle_data(7).is_none());
    assert_eq!(mgr.len(), 0);
}

#[test]
fn close_unknown_id_is_a_no_op() {
    let rt = test_runtime();
    let mut mgr = ConnectionManager::new();
    let (conn, _rx) = test_connection(&rt);
    assert!(mgr.handle_connect(1, conn));

    mgr.handle_close(2);
    assert_eq!(mgr.len(), 1);
    assert!(mgr.contains(1));
}

#[test]
fn close_drops_the_inbound_channel() {
    let rt = test_runtime();
    let mut mgr = ConnectionManager::new();
    let (conn, mut rx) = test_connection(&rt);
    assert!(mgr.handle_connect(7, conn));

    mgr.handle_close(7);
    // The sender was dropped with the entry, so the channel reports closure.
    let got = rt.block_on(async { rx.recv().await });
    assert!(got.is_none());
}

#[test]
fn ping_is_answered_regardless_of_table_state() {
    let rt = test_runtime();
    let mut mgr = ConnectionManager::new();
    let expected = vec![0x07, 0x00, 0, 0, 0, 99, 0, 0];
    assert_eq!(mgr.handle_ping(99), expected);

    let (conn, _rx) = test_connection(&rt);
    assert!(mgr.handle_connect(99, conn));
    assert_eq!(mgr.handle_ping(99), expected);
}

#[test]
fn shutdown_empties_the_table() {
    let rt = test_runtime();
    let mut mgr = ConnectionManager::new();
    let (c1, mut rx1) = test_connection(&rt);
    let (c2, _rx2) = test_connection(&rt);
    assert!(mgr.handle_connect(1, c1));
    assert!(mgr.handle_connect(2, c2));
    assert_eq!(mgr.len(), 2);

    mgr.shutdown();
    assert_eq!(mgr.len(), 0);
    assert!(!mgr.contains(1));
    assert!(!mgr.contains(2));
    // Every dropped entry closed its channel.
    assert!(rt.block_on(async { rx1.recv().await }).is_none());
}

#[test]
fn handler_frames_match_the_builders() {
    let established = handler_frame(Proto::Tcp, 7, LocalEvent::Established);
    assert_eq!(established, build_connected(Proto::Tcp, 7));
    let h = Header::parse(&established).unwrap();
    assert_eq!(h.msg_type, MsgType::Connected);
    assert_eq!(h.client_id, 7);

    let data = handler_frame(
        Proto::Tcp,
        7,
        LocalEvent::DataRead { data: b"ping".to_vec() },
    );
    assert_eq!(data, build_data(Proto::Tcp, 7, b"ping"));
    assert_eq!(get_payload(&data), b"ping".as_slice());

    let closed = handler_frame(Proto::Tcp, 7, LocalEvent::ReadEnded);
    assert_eq!(closed, build_close(Proto::Tcp, 7));

    let failed = handler_frame(
        Proto::Tcp,
        3,
        LocalEvent::DialFailed {
            message: String::from("connection refused"),
        },
    );
    let h = Header::parse(&failed).unwrap();
    assert_eq!(h.msg_type, MsgType::Error);
    assert_eq!(h.proto, Proto::Tcp);
    assert_eq!(h.client_id, 3);
    assert!(!get_payload(&failed).is_empty());
}
