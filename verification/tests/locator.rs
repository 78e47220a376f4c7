use mintlayer::chain::block::BlockHeader;
use mintlayer::error::ProtocolError;
use mintlayer::primitives::{BlockId, H256};
use mintlayer::sync::locator::{ChainView, IndexedHeader, MAX_HEADERS};

fn hash(n: u64) -> H256 {
    let mut b = [0u8; 32];
    b[..8].copy_from_slice(&n.to_be_bytes());
    H256::from_bytes(b)
}

fn bid(n: u64) -> BlockId {
    BlockId::new(hash(n))
}

fn header(n: u64, prev: u64) -> IndexedHeader {
    IndexedHeader::new(bid(n), BlockHeader::new(bid(prev), hash(0), hash(0), n as u32, vec![]))
}

// a chain with its tip at `height`, block `n` at height `n`
fn chain(height: u64) -> ChainView {
    let mut c = ChainView::new(header(0, u64::MAX));
    for n in 1..=height {
        assert!(c.extend(header(n, n - 1)));
    }
    c
}

fn ids(v: &[u64]) -> Vec<BlockId> {
    v.iter().map(|n| bid(*n)).collect()
}

#[test]
fn locator_of_short_chains() {
    assert_eq!(chain(0).build_locator(), ids(&[0]));
    assert_eq!(chain(1).build_locator(), ids(&[1, 0]));
    assert_eq!(chain(2).build_locator(), ids(&[2, 1, 0]));
    assert_eq!(chain(8).build_locator(), ids(&[8, 7, 6, 5, 4, 3, 2, 1, 0]));
}

#[test]
fn locator_is_dense_then_doubles() {
    // distances from the tip: 0..=10, then 12, 16, 24, 40, 72, and genesis last
    assert_eq!(
        chain(100).build_locator(),
        ids(&[100, 99, 98, 97, 96, 95, 94, 93, 92, 91, 90, 88, 84, 76, 60, 28, 0])
    );
    assert_eq!(
        chain(40).build_locator(),
        ids(&[40, 39, 38, 37, 36, 35, 34, 33, 32, 31, 30, 28, 24, 16, 0])
    );
    assert_eq!(
        chain(12).build_locator(),
        ids(&[12, 11, 10, 9, 8, 7, 6, 5, 4, 3, 2, 0])
    );
}

#[test]
fn full_chain_holds_nothing_unknown() {
    let c = chain(30);
    assert!(!c.build_locator().is_empty());
    let all: Vec<IndexedHeader> = (0..=30).map(|n| header(n, if n == 0 { u64::MAX } else { n - 1 })).collect();
    assert_eq!(c.filter_unknown(&all), Ok(vec![]));
    assert_eq!(c.filter_unknown(&vec![]), Ok(vec![]));
    // and the chain that built a locator owes nothing for it
    assert_eq!(c.get_headers(&c.build_locator()), vec![]);
}

#[test]
fn filter_unknown_cuts_at_the_first_unknown_header() {
    let c = chain(5);
    let list = vec![header(4, 3), header(5, 4), header(6, 5), header(7, 6)];
    assert_eq!(c.filter_unknown(&list), Ok(vec![header(6, 5), header(7, 6)]));
    // a branch off a block that is stored
    let list = vec![header(50, 2), header(51, 50)];
    assert_eq!(c.filter_unknown(&list), Ok(vec![header(50, 2), header(51, 50)]));
    // nothing connects
    let list = vec![header(60, 59), header(61, 60)];
    assert_eq!(c.filter_unknown(&list), Err(ProtocolError::UnconnectedHeaders));
    // what follows the cut does not follow each other
    let list = vec![header(6, 5), header(8, 7)];
    assert_eq!(c.filter_unknown(&list), Err(ProtocolError::UnconnectedHeaders));
}

#[test]
fn headers_for_a_locator() {
    let c = chain(20);
    // the first entry that is on the main chain decides
    let got = c.get_headers(&ids(&[99, 17, 3, 0]));
    assert_eq!(got, vec![header(18, 17), header(19, 18), header(20, 19)]);
    assert_eq!(got[0].header.hash_prev_block, bid(17));
    // no entry on the main chain: nothing
    assert_eq!(c.get_headers(&ids(&[99, 98])), vec![]);
    assert_eq!(c.get_headers(&vec![]), vec![]);
}

#[test]
fn headers_are_capped() {
    let c = chain(2500);
    let got = c.get_headers(&ids(&[0]));
    assert_eq!(got.len(), MAX_HEADERS);
    assert_eq!(got.len(), 2000);
    assert_eq!(got[0].id, bid(1));
    assert_eq!(got[1999].id, bid(2000));
    let got = c.get_headers(&ids(&[600]));
    assert_eq!(got.len(), 1900);
}

#[test]
fn chain_view_is_validated() {
    assert!(ChainView::from_parts(vec![], vec![]).is_none());
    assert!(ChainView::from_parts(vec![header(0, 9), header(1, 0)], vec![header(7, 0)]).is_some());
    // a header that does not build on the one below
    assert!(ChainView::from_parts(vec![header(0, 9), header(1, 5)], vec![]).is_none());
    // an id that occurs twice
    assert!(ChainView::from_parts(vec![header(0, 9), header(1, 0)], vec![header(1, 0)]).is_none());
    assert!(ChainView::from_parts(vec![header(0, 9)], vec![header(3, 0), header(3, 1)]).is_none());
    let mut c = chain(3);
    assert!(!c.extend(header(9, 1)));
    assert!(!c.extend(header(2, 3)));
    assert_eq!(c.height(), 3);
    assert_eq!(c.best_block_id(), bid(3));
    assert!(c.contains(&bid(2)) && !c.contains(&bid(4)));
    assert_eq!(c.main_chain_height(&bid(2)), Some(2));
}
