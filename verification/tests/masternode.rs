use drive_explorer::blockchain::masternode::{Masternode, MasternodeRegistry};

fn node(byte: u8) -> Masternode {
    Masternode { pro_tx_hash: [byte; 32] }
}

#[test]
fn new_random_many_makes_as_many_as_asked() {
    assert_eq!(Masternode::new_random_many(0).len(), 0);
    assert_eq!(Masternode::new_random_many(1).len(), 1);
    assert_eq!(Masternode::new_random_many(250).len(), 250);
}

#[test]
fn random_masternodes_differ() {
    let nodes = Masternode::new_random_many(50);
    for (i, a) in nodes.iter().enumerate() {
        for b in &nodes[i + 1..] {
            assert_ne!(a.pro_tx_hash, b.pro_tx_hash);
        }
    }
    assert_ne!(Masternode::new_random().pro_tx_hash, Masternode::new_random().pro_tx_hash);
}

#[test]
fn a_new_registry_is_empty() {
    let registry = MasternodeRegistry::new();
    assert_eq!(registry.len(), 0);
    assert_eq!(registry.get(0), None);
    assert_eq!(registry.random_masternode(), None);
}

#[test]
fn masternodes_join_in_order() {
    let mut registry = MasternodeRegistry::new();
    registry.insert(node(3));
    registry.insert(node(1));
    registry.insert(node(2));
    assert_eq!(registry.len(), 3);
    assert_eq!(registry.get(0), Some(&node(3)));
    assert_eq!(registry.get(1), Some(&node(1)));
    assert_eq!(registry.get(2), Some(&node(2)));
    assert_eq!(registry.get(3), None);
    assert_eq!(registry.get(usize::MAX), None);
}

#[test]
fn a_masternode_joins_once() {
    let mut registry = MasternodeRegistry::new();
    registry.insert(node(3));
    registry.insert(node(1));
    registry.insert(node(3));
    assert_eq!(registry.len(), 2);
    assert_eq!(registry.get(0), Some(&node(3)));
    assert_eq!(registry.get(1), Some(&node(1)));
    registry.insert_all(vec![node(1), node(7), node(7), node(3), node(8)]);
    assert_eq!(registry.len(), 4);
    assert_eq!(registry.get(2), Some(&node(7)));
    assert_eq!(registry.get(3), Some(&node(8)));
}

#[test]
fn add_masternodes_lets_as_many_join_as_asked() {
    let mut registry = MasternodeRegistry::new();
    registry.insert(node(1));
    assert_eq!(registry.add_masternodes(10), 11);
    assert_eq!(registry.len(), 11);
    assert_eq!(registry.get(0), Some(&node(1)));
    assert_eq!(registry.add_masternodes(0), 11);
    assert_eq!(registry.add_masternodes(10000), 10011);
    assert_eq!(registry.len(), 10011);
}

#[test]
fn a_random_masternode_is_a_member() {
    let mut registry = MasternodeRegistry::new();
    registry.insert_all(vec![node(1), node(2), node(3)]);
    let mut seen = [false; 3];
    for _ in 0..300 {
        let picked = registry.random_masternode().expect("a member");
        let place = (0..3).find(|&i| registry.get(i) == Some(picked)).expect("a member");
        seen[place] = true;
    }
    assert_eq!(seen, [true, true, true]);
    let mut single = MasternodeRegistry::new();
    single.insert(node(5));
    assert_eq!(single.random_masternode(), Some(&node(5)));
}
