use itertools::Itertools;
use mintlayer::consensus::Config;
use mintlayer::error::{P2pError, PeerError, ProtocolError, PublishError, StateName};
use mintlayer::mempool::feerate::FeeRate;
use mintlayer::net::addr::{
    get_addr_from_multiaddr, parse_discovered_addr, parse_peers, AddrInfo, Discovered, Multiaddr,
    Protocol,
};
use mintlayer::net::backend::{
    publish_check, relay_mdns, Backend, ConnectedPoint, ConnectionErrorAction,
    Libp2pDiscoveryStrategy, PendingConnections,
};
use mintlayer::net::peer_info::parse_protocol;
use mintlayer::primitives::{Amount, BlockHeight, SemVer};
use mintlayer::rpc::address::{AddressVisitor, Error as AddressError};
use mintlayer::rpc::api::{retry_port, BindFailure, DenyUnsafe, RpcMethods, UnsafeRpcError};
use mintlayer::storage::transaction::{
    abort, commit, conclusion, finish_ro, finish_rw, Conclusion, Response, TransactionRo,
    TransactionRw,
};
use mintlayer::storage::traits::{Error as StorageError, SingleMap};
use std::cell::RefCell;
use std::collections::BTreeMap;
use mintlayer::sync::message::{Message, MessageType, PubSubMessage, PubSubTopic, SyncingMessage, SyncingRequest};
use mintlayer::sync::request::{
    ErrorAction, ErrorClass, RequestTracker, RequestType, TransportError, MAX_RETRIES,
};

fn addr(parts: &[Protocol]) -> Multiaddr {
    Multiaddr::new(parts.to_vec())
}

#[test]
fn discovered_addresses() {
    let ip4 = Protocol::Ip4(0x7f000001);
    let ip6 = Protocol::Ip6(1);
    let tcp = Protocol::Tcp(3031);
    assert_eq!(
        parse_discovered_addr(5, addr(&[ip4, tcp])),
        Some(addr(&[ip4, tcp, Protocol::P2p(5)]))
    );
    assert_eq!(
        parse_discovered_addr(5, addr(&[ip6, tcp, Protocol::P2p(9)])),
        Some(addr(&[ip6, tcp, Protocol::P2p(9)]))
    );
    assert_eq!(parse_discovered_addr(5, addr(&[])), None);
    assert_eq!(parse_discovered_addr(5, addr(&[tcp, ip4])), None);
    assert_eq!(parse_discovered_addr(5, addr(&[ip4])), None);
    assert_eq!(parse_discovered_addr(5, addr(&[ip4, Protocol::Other(7)])), None);
    assert_eq!(parse_discovered_addr(5, addr(&[ip4, tcp, Protocol::Other(7)])), None);
    assert_eq!(get_addr_from_multiaddr(&addr(&[ip6, tcp])), Some(ip6));
    assert_eq!(get_addr_from_multiaddr(&addr(&[])), None);
    assert_eq!(addr(&[ip4, tcp, Protocol::P2p(8)]).peer_id(), Some(8));
    assert_eq!(addr(&[ip4, tcp]).peer_id(), None);
}

#[test]
fn discovered_peers_are_grouped() {
    let ip4 = |n: u32| Protocol::Ip4(n);
    let ip6 = |n: u128| Protocol::Ip6(n);
    let tcp = Protocol::Tcp(1);
    let peers = vec![
        Discovered { peer_id: 9, addr: addr(&[ip4(1), tcp]) },
        Discovered { peer_id: 3, addr: addr(&[ip6(2), tcp]) },
        Discovered { peer_id: 9, addr: addr(&[tcp]) },
        Discovered { peer_id: 7, addr: addr(&[Protocol::Other(1)]) },
        Discovered { peer_id: 9, addr: addr(&[ip6(3), tcp, Protocol::P2p(9)]) },
        Discovered { peer_id: 3, addr: addr(&[ip4(4), tcp]) },
        Discovered { peer_id: 9, addr: addr(&[ip4(5), tcp]) },
    ];
    let infos = parse_peers(peers);
    assert_eq!(infos.len(), 2);
    let ids: Vec<u64> = infos.iter().map(|i| i.id).collect();
    assert_eq!(ids, vec![9u64, 3, 9, 9, 3, 9].into_iter().sorted().dedup().collect::<Vec<u64>>());
    assert_eq!(infos[0].id, 3);
    assert_eq!(infos[0].ip4, vec![addr(&[ip4(4), tcp, Protocol::P2p(3)])]);
    assert_eq!(infos[0].ip6, vec![addr(&[ip6(2), tcp, Protocol::P2p(3)])]);
    assert_eq!(infos[1].id, 9);
    assert_eq!(
        infos[1].ip4,
        vec![addr(&[ip4(1), tcp, Protocol::P2p(9)]), addr(&[ip4(5), tcp, Protocol::P2p(9)])]
    );
    assert_eq!(infos[1].ip6, vec![addr(&[ip6(3), tcp, Protocol::P2p(9)])]);
    assert!(parse_peers(vec![]).is_empty());
}

#[test]
fn protocol_text() {
    let info = parse_protocol("/mintlayer/0.1.0-13371338").unwrap();
    assert_eq!(info.version, SemVer::new(0, 1, 0));
    assert_eq!(info.magic_bytes, 0x13371338u32.to_le_bytes());
    let info = parse_protocol("/mintlayer/255.7.65535-Ff").unwrap();
    assert_eq!(info.version, SemVer::new(255, 7, 65535));
    assert_eq!(info.magic_bytes, [0xff, 0, 0, 0]);
    for bad in [
        "",
        "/mintlayer/",
        "/bitcoin/0.1.0-13371338",
        "mintlayer/0.1.0-13371338",
        "/mintlayer/0.1-13371338",
        "/mintlayer/256.1.0-13371338",
        "/mintlayer/0.1.65536-13371338",
        "/mintlayer/0.1.0-113371338",
        "/mintlayer/0.1.0-1337133g",
        "/mintlayer/0.1.0-",
        "/mintlayer/0.1.0-13371338 ",
        "/mintlayer/0..0-13371338",
        "/mintlayer/a.1.0-13371338",
    ] {
        assert_eq!(parse_protocol(bad), Err(ProtocolError::InvalidProtocol), "{}", bad);
    }
}

#[test]
fn pending_connections() {
    let a = addr(&[Protocol::Ip4(1), Protocol::Tcp(2)]);
    let mut pending = PendingConnections::new();
    assert_eq!(
        pending.on_connection_established(1, ConnectedPoint::Dialer),
        Err(P2pError::PeerError(PeerError::PeerDoesntExist))
    );
    pending.on_dialed(1, a.clone());
    assert_eq!(pending.on_connection_established(1, ConnectedPoint::Dialer), Ok(()));
    // established twice: the state is reported and the entry is gone
    assert_eq!(
        pending.on_connection_established(1, ConnectedPoint::Dialer),
        Err(P2pError::ProtocolError(ProtocolError::InvalidState(
            StateName::OutboundAccepted,
            StateName::Dialed
        )))
    );
    assert!(pending.pending_conns.is_empty());

    assert_eq!(
        pending.on_connection_established(2, ConnectedPoint::Listener { send_back_addr: a.clone() }),
        Ok(())
    );
    assert_eq!(
        pending.on_connection_established(2, ConnectedPoint::Dialer),
        Err(P2pError::ProtocolError(ProtocolError::InvalidState(
            StateName::InboundAccepted,
            StateName::Dialed
        )))
    );
    pending.on_dialed(3, a.clone());
    assert!(pending
        .on_connection_established(3, ConnectedPoint::Listener { send_back_addr: a.clone() })
        .is_err());
    assert!(pending.pending_conns.is_empty());

    pending.on_dialed(4, a.clone());
    assert_eq!(
        pending.on_outgoing_connection_error(Some(4)),
        ConnectionErrorAction::ReportRefused(a.clone())
    );
    assert_eq!(pending.on_outgoing_connection_error(Some(4)), ConnectionErrorAction::Propagate);
    assert_eq!(pending.on_outgoing_connection_error(None), ConnectionErrorAction::Ignore);
}

#[test]
fn publishing() {
    let block = mintlayer::chain::block::Block::V1(mintlayer::chain::block::BlockV1::new(
        mintlayer::chain::block::BlockHeader::new(
            mintlayer::primitives::BlockId::new(mintlayer::primitives::H256::zero()),
            mintlayer::primitives::H256::zero(),
            mintlayer::primitives::H256::zero(),
            0,
            vec![],
        ),
        vec![],
    ));
    let msg = Message { magic: [0; 4], msg: MessageType::PubSub(PubSubMessage::Block(block)) };
    assert_eq!(publish_check(&msg, 2 * 1024 * 1024), Ok(PubSubTopic::Blocks));
    assert_eq!(
        publish_check(&msg, 2 * 1024 * 1024 + 1),
        Err(P2pError::PublishError(PublishError::MessageTooLarge(2097153, 2097152)))
    );
    let request = Message {
        magic: [0; 4],
        msg: MessageType::Syncing(SyncingMessage::Request(SyncingRequest::GetHeaders {
            locator: vec![],
        })),
    };
    assert_eq!(
        publish_check(&request, 10),
        Err(P2pError::ProtocolError(ProtocolError::InvalidMessage))
    );
    assert!(P2pError::ChannelClosed.is_fatal());
    assert!(!P2pError::ProtocolError(ProtocolError::InvalidMessage).is_fatal());
}

#[test]
fn request_tracker() {
    let mut tracker = RequestTracker::new();
    assert_eq!(MAX_RETRIES, 3);
    assert_eq!(tracker.record(1, 10, RequestType::GetHeaders), Ok(()));
    assert!(tracker.record(2, 10, RequestType::GetHeaders).is_err());
    assert_eq!(tracker.record(2, 11, RequestType::GetBlocks(vec![])), Ok(()));
    assert_eq!(tracker.len(), 2);
    assert_eq!(tracker.find_by_peer(11), Some(2));
    assert_eq!(tracker.find_by_peer(12), None);

    let state = tracker.on_response(1).unwrap();
    assert_eq!(state.peer_id, 10);
    assert_eq!(state.retry_count, 0);
    assert_eq!(tracker.on_response(1), Err(P2pError::RequestDoesntExist));

    assert_eq!(
        tracker.on_error(2, TransportError::Timeout),
        ErrorAction::Resend { peer_id: 11, request_type: RequestType::GetBlocks(vec![]), retry_count: 1 }
    );
    assert_eq!(tracker.len(), 0);
    tracker.record_retry(3, 11, RequestType::GetHeaders, 3).unwrap();
    assert_eq!(tracker.on_error(3, TransportError::Timeout), ErrorAction::Disconnect { peer_id: 11 });
    tracker.record(4, 11, RequestType::GetHeaders).unwrap();
    assert_eq!(tracker.on_error(4, TransportError::ChannelClosed), ErrorAction::Shutdown);
    assert!(tracker.contains(4));
    assert_eq!(tracker.on_error(4, TransportError::Malformed), ErrorAction::Disconnect { peer_id: 11 });
    assert_eq!(tracker.on_error(4, TransportError::Malformed), ErrorAction::Ignore);
    tracker.record(5, 12, RequestType::GetHeaders).unwrap();
    tracker.remove_peer(12);
    assert_eq!(tracker.len(), 0);
    assert_eq!(TransportError::Timeout.class(), ErrorClass::Transient);
    assert_eq!(TransportError::UnconnectedHeaders.class(), ErrorClass::Protocol);
    assert_eq!(TransportError::ChannelClosed.class(), ErrorClass::Fatal);
    let mut one = RequestTracker::with_max_retries(1);
    one.record_retry(1, 1, RequestType::GetHeaders, 1).unwrap();
    assert_eq!(one.on_error(1, TransportError::TemporaryIo), ErrorAction::Disconnect { peer_id: 1 });
}

#[test]
fn fee_rates() {
    assert_eq!(FeeRate::div_up(10, 3), 4);
    assert_eq!(FeeRate::div_up(9, 3), 3);
    assert_eq!(FeeRate::div_up(0, 3), 0);
    assert_eq!(FeeRate::of_tx(Amount::from_atoms(1001), 1000).tokens_per_kb(), 2000);
    assert_eq!(FeeRate::of_tx(Amount::from_atoms(1000), 1000), FeeRate::new(1000));
    assert_eq!(FeeRate::new(1500).compute_fee(333), Amount::from_atoms(499));
    assert_eq!(FeeRate::new(1000).plus(FeeRate::new(500)), FeeRate::new(1500));
    assert_eq!(FeeRate::new(1000).divided_by(3), FeeRate::new(333));
    assert_eq!(FeeRate::incremental_relay_fee_rate(), FeeRate::new(1000));
    assert_eq!(FeeRate::incremental_relay_threshold(), FeeRate::new(500));
}

#[test]
fn unsafe_calls() {
    assert_eq!(DenyUnsafe::Yes.check_if_safe(), Err(UnsafeRpcError));
    assert_eq!(DenyUnsafe::No.check_if_safe(), Ok(()));
    assert_eq!(UnsafeRpcError.message(), "RPC call is unsafe to be called externally");
    assert_eq!(DenyUnsafe::for_server(true, RpcMethods::Auto), DenyUnsafe::No);
    assert_eq!(DenyUnsafe::for_server(false, RpcMethods::Auto), DenyUnsafe::Yes);
    assert_eq!(DenyUnsafe::for_server(false, RpcMethods::Unsafe), DenyUnsafe::No);
    assert_eq!(DenyUnsafe::for_server(true, RpcMethods::Safe), DenyUnsafe::Yes);
    assert_eq!(retry_port(BindFailure::AddrInUse), Some(0));
    assert_eq!(retry_port(BindFailure::PermissionDenied), Some(0));
    assert_eq!(retry_port(BindFailure::Other), None);
}

fn address_from_json(text: &str) -> String {
    let value: serde_json::Value = serde_json::from_str(text).unwrap();
    let field = value.get("address").unwrap().as_str().unwrap().to_owned();
    AddressVisitor.visit_str(&field).unwrap().address
}

#[test]
fn address_serialize() {
    let test = AddressVisitor.visit_str("1A1zP1eP5QGefi2DMPTfTL5SLmv7DivfNa").unwrap();
    let mut object = serde_json::Map::new();
    object.insert("address".to_string(), serde_json::Value::String(test.get().clone()));
    assert_eq!(
        serde_json::to_string(&serde_json::Value::Object(object)).unwrap(),
        r#"{"address":"1A1zP1eP5QGefi2DMPTfTL5SLmv7DivfNa"}"#
    );
}

#[test]
fn address_deserialize() {
    assert_eq!(
        address_from_json(r#"{"address":"1A1zP1eP5QGefi2DMPTfTL5SLmv7DivfNa"}"#),
        "1A1zP1eP5QGefi2DMPTfTL5SLmv7DivfNa".to_string()
    );
    assert_eq!(AddressVisitor.expecting(), "an address");
    assert_eq!(AddressError::FailedKeyGeneration.message(), "Key generation failed");
    assert_eq!(AddressError::InvalidChecksum.message(), "Invalid Checksum");
}

#[test]
fn transaction_responses() {
    assert_eq!(commit::<u32, ()>(5).unwrap().value(), 5);
    assert_eq!(abort::<u32, ()>(6).unwrap().value(), 6);
    assert!(commit::<u32, ()>(5).unwrap().is_commit());
    assert!(!abort::<u32, ()>(5).unwrap().is_commit());
    assert_eq!(conclusion(&commit::<u32, ()>(1)), Conclusion::Commit);
    assert_eq!(conclusion(&abort::<u32, ()>(1)), Conclusion::Abort);
    assert_eq!(conclusion::<u32, u8>(&Err(3)), Conclusion::Leave);
    assert_eq!(finish_rw::<u32, u8>(Ok(Response::Abort(7)), Ok(())), Ok(7));
    assert_eq!(finish_rw::<u32, u8>(Ok(Response::Commit(7)), Err(2)), Err(2));
    assert_eq!(finish_rw::<u32, u8>(Err(1), Ok(())), Err(1));
    assert_eq!(finish_ro::<u32, u8>(Ok(7), Ok(())), Ok(7));
    assert_eq!(finish_ro::<u32, u8>(Ok(7), Err(4)), Err(4));
    assert_eq!(finish_ro::<u32, u8>(Err(1), Ok(())), Err(1));
}

#[test]
fn pos_config() {
    let config = Config {
        max_num_of_validator_slots: 10,
        min_num_of_validators: 3,
        epoch_length: BlockHeight::new(100),
    };
    assert!(config.is_consistent());
    assert!(!Config { min_num_of_validators: 11, ..config }.is_consistent());
    assert!(!Config { epoch_length: BlockHeight::new(0), ..config }.is_consistent());
}

#[test]
fn backend_connections() {
    let a = addr(&[Protocol::Ip4(1), Protocol::Tcp(2)]);
    let mut backend = Backend::new();
    assert_eq!(
        backend.on_connection_established(1, ConnectedPoint::Listener { send_back_addr: a.clone() }),
        Ok(())
    );
    backend.on_connected(1);
    assert!(backend.on_connection_closed(1));
    assert!(!backend.on_connection_closed(1));
    assert_eq!(backend.on_outgoing_connection_error(Some(1)), ConnectionErrorAction::Propagate);
    assert!(relay_mdns(&vec![Libp2pDiscoveryStrategy::MulticastDns]));
    assert!(!relay_mdns(&vec![]));
}

#[test]
fn addresses_are_collected_by_their_first_component() {
    let tcp = Protocol::Tcp(3031);
    let a = addr(&[Protocol::Ip4(1), tcp, Protocol::P2p(4)]);
    let b = addr(&[Protocol::Ip6(2), tcp, Protocol::P2p(4)]);
    let c = addr(&[Protocol::Ip4(3), tcp, Protocol::P2p(6)]);
    let info = AddrInfo::from_iter(&vec![
        Discovered { peer_id: 4, addr: a.clone() },
        Discovered { peer_id: 4, addr: b.clone() },
        Discovered { peer_id: 6, addr: c.clone() },
    ]);
    // the entry is that of the last peer
    assert_eq!(info.id, 6);
    assert_eq!(info.ip4, vec![a, c]);
    assert_eq!(info.ip6, vec![b]);
}

#[test]
fn peers_without_a_supported_address_get_no_entry() {
    let tcp = Protocol::Tcp(1);
    let peers = vec![
        Discovered { peer_id: 8, addr: addr(&[tcp]) },
        Discovered { peer_id: 2, addr: addr(&[Protocol::Ip6(7), tcp]) },
        Discovered { peer_id: 8, addr: addr(&[Protocol::Ip4(7)]) },
        Discovered { peer_id: 2, addr: addr(&[Protocol::Ip6(5), tcp]) },
        Discovered { peer_id: 1, addr: addr(&[Protocol::Ip4(9), tcp, Protocol::P2p(1)]) },
    ];
    let infos = parse_peers(peers);
    assert_eq!(infos.len(), 2);
    assert_eq!(infos[0].id, 1);
    assert_eq!(infos[0].ip4, vec![addr(&[Protocol::Ip4(9), tcp, Protocol::P2p(1)])]);
    assert!(infos[0].ip6.is_empty());
    assert_eq!(infos[1].id, 2);
    assert!(infos[1].ip4.is_empty());
    assert_eq!(
        infos[1].ip6,
        vec![
            addr(&[Protocol::Ip6(7), tcp, Protocol::P2p(2)]),
            addr(&[Protocol::Ip6(5), tcp, Protocol::P2p(2)])
        ]
    );
}

/// A transaction that notes how it was concluded.
struct NotedTx<'a> {
    log: &'a RefCell<Vec<&'static str>>,
    fail_at_end: bool,
}

impl<'a> TransactionRo for NotedTx<'a> {
    type Error = u8;

    fn finalize(self) -> Result<(), u8> {
        self.log.borrow_mut().push("finalize");
        if self.fail_at_end {
            Err(9)
        } else {
            Ok(())
        }
    }
}

impl<'a> TransactionRw for NotedTx<'a> {
    type Error = u8;

    fn commit(self) -> Result<(), u8> {
        self.log.borrow_mut().push("commit");
        if self.fail_at_end {
            Err(9)
        } else {
            Ok(())
        }
    }

    fn abort(self) -> Result<(), u8> {
        self.log.borrow_mut().push("abort");
        Ok(())
    }
}

#[test]
fn transactions_are_run_and_concluded() {
    let log = RefCell::new(Vec::new());
    let tx = |fail_at_end| NotedTx { log: &log, fail_at_end };

    assert_eq!(TransactionRo::run(tx(false), |_| Ok(42)), Ok(42));
    assert_eq!(TransactionRo::run(tx(false), |_| Err::<u32, u8>(1)), Err(1));
    assert_eq!(TransactionRo::run(tx(true), |_| Ok(42)), Err(9));
    assert_eq!(*log.borrow(), vec!["finalize", "finalize", "finalize"]);
    log.borrow_mut().clear();

    assert_eq!(TransactionRw::run(tx(false), |_| commit(5)), Ok(5));
    assert_eq!(TransactionRw::run(tx(false), |_| abort(6)), Ok(6));
    assert_eq!(TransactionRw::run(tx(true), |_| commit(5)), Err(9));
    assert_eq!(TransactionRw::run(tx(true), |_| abort(6)), Ok(6));
    assert_eq!(
        TransactionRw::run(tx(false), |_| Err::<Response<u32>, u8>(3)),
        Err(3)
    );
    // after a failure of the body the transaction is neither committed nor aborted
    assert_eq!(*log.borrow(), vec!["commit", "abort", "commit", "abort"]);
}

/// A store in memory that is written through transactions.
#[derive(Default)]
struct MyStore {
    map: RefCell<BTreeMap<Vec<u8>, Vec<u8>>>,
}

/// A transaction that reads the store.
struct MyTxRo<'a> {
    store: &'a MyStore,
}

/// A transaction that holds its writes until it is committed.
struct MyTxRw<'a> {
    store: &'a MyStore,
    written: BTreeMap<Vec<u8>, Option<Vec<u8>>>,
}

impl MyStore {
    fn transaction_ro(&self) -> MyTxRo<'_> {
        MyTxRo { store: self }
    }

    fn transaction_rw(&self) -> MyTxRw<'_> {
        MyTxRw { store: self, written: BTreeMap::new() }
    }
}

impl<'a> MyTxRo<'a> {
    fn get(&self, key: &[u8]) -> Result<Option<Vec<u8>>, StorageError> {
        Ok(self.store.map.borrow().get(key).cloned())
    }
}

impl<'a> TransactionRo for MyTxRo<'a> {
    type Error = StorageError;

    fn finalize(self) -> Result<(), StorageError> {
        Ok(())
    }
}

impl<'a> SingleMap for MyTxRw<'a> {
    fn has_key(&self, key: &[u8]) -> Result<bool, StorageError> {
        Ok(self.get(key)?.is_some())
    }

    fn get(&self, key: &[u8]) -> Result<Option<Vec<u8>>, StorageError> {
        match self.written.get(key) {
            Some(v) => Ok(v.clone()),
            None => Ok(self.store.map.borrow().get(key).cloned()),
        }
    }

    fn put(&mut self, key: &[u8], val: &[u8]) -> Result<(), StorageError> {
        self.written.insert(key.to_vec(), Some(val.to_vec()));
        Ok(())
    }

    fn remove(&mut self, key: &[u8]) -> Result<(), StorageError> {
        self.written.insert(key.to_vec(), None);
        Ok(())
    }
}

impl<'a> TransactionRw for MyTxRw<'a> {
    type Error = StorageError;

    fn commit(self) -> Result<(), StorageError> {
        let mut map = self.store.map.borrow_mut();
        for (k, v) in self.written {
            match v {
                Some(v) => map.insert(k, v),
                None => map.remove(&k),
            };
        }
        Ok(())
    }

    fn abort(self) -> Result<(), StorageError> {
        Ok(())
    }
}

fn generic_aborted_write(store: &MyStore) -> Result<(), StorageError> {
    store.transaction_rw().run(|tx| {
        tx.put(b"hello", b"world")?;
        abort(())
    })
}

#[test]
fn test_abort() {
    let store = MyStore::default();

    let r = generic_aborted_write(&store);
    assert_eq!(r, Ok(()));

    let r = store.transaction_ro().run(|tx| Ok(tx.get(b"hello")?.is_some()));
    assert_eq!(r, Ok(false));
}

#[test]
fn committed_writes_are_kept() {
    let store = MyStore::default();
    let r = store.transaction_rw().run(|tx| {
        tx.put(b"foo", b"bar")?;
        assert_eq!(tx.get(b"foo")?, Some(b"bar".to_vec()));
        assert!(tx.has_key(b"foo")?);
        commit(())
    });
    assert_eq!(r, Ok(()));
    let r = store.transaction_rw().run(|tx| {
        tx.put(b"baz", b"xyz")?;
        abort(7)
    });
    assert_eq!(r, Ok(7));
    let r = store.transaction_rw().run(|tx| {
        tx.remove(b"foo")?;
        Err::<Response<()>, StorageError>(StorageError::Recoverable)
    });
    assert_eq!(r, Err(StorageError::Recoverable));
    assert_eq!(store.transaction_ro().run(|tx| tx.get(b"baz")), Ok(None));
    assert_eq!(store.transaction_ro().run(|tx| tx.get(b"foo")), Ok(Some(b"bar".to_vec())));
}
