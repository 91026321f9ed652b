use orml_location::asset::AssetId;
use orml_location::junction::{Junction, NetworkId};
use orml_location::multilocation::Junctions::{Here, X1, X2, X3};
use orml_location::multilocation::MultiLocation;
use orml_location::order::{asset_id_compare, junction_compare, location_compare, Order};

fn expected(o: std::cmp::Ordering) -> Order {
    match o {
        std::cmp::Ordering::Less => Order::Less,
        std::cmp::Ordering::Equal => Order::Equal,
        std::cmp::Ordering::Greater => Order::Greater,
    }
}

fn junctions() -> Vec<Junction> {
    let mut id = [0u8; 32];
    id[31] = 1;
    vec![
        Junction::Parachain(1),
        Junction::Parachain(2),
        Junction::AccountId32 { network: None, id: [0u8; 32] },
        Junction::AccountId32 { network: None, id },
        Junction::AccountId32 { network: Some(NetworkId::ByGenesis([1u8; 32])), id },
        Junction::AccountId32 { network: Some(NetworkId::Polkadot), id },
        Junction::AccountId32 { network: Some(NetworkId::Kusama), id: [0u8; 32] },
        Junction::AccountIndex64 { network: Some(NetworkId::Ethereum { chain_id: 1 }), index: 3 },
        Junction::AccountIndex64 { network: Some(NetworkId::Ethereum { chain_id: 2 }), index: 0 },
        Junction::AccountKey20 { network: None, key: [9u8; 20] },
        Junction::PalletInstance(4),
        Junction::GeneralIndex(1),
        Junction::GeneralIndex(u128::MAX),
        Junction::GeneralKey([0u8; 32]),
        Junction::GeneralKey(id),
        Junction::OnlyChild,
    ]
}

#[test]
fn junction_order_matches_derived_order() {
    let js = junctions();
    for a in &js {
        for b in &js {
            assert_eq!(junction_compare(a, b), expected(a.cmp(b)));
        }
    }
}

#[test]
fn location_and_asset_order_match_derived_order() {
    let js = junctions();
    let mut locations = vec![MultiLocation::here(), MultiLocation::parent(), MultiLocation::new(2, Here)];
    for (i, a) in js.iter().enumerate() {
        locations.push(MultiLocation::new(0, X1(*a)));
        locations.push(MultiLocation::new(1, X1(*a)));
        let b = js[(i + 3) % js.len()];
        locations.push(MultiLocation::new(1, X2(*a, b)));
        locations.push(MultiLocation::new(1, X3(b, *a, b)));
    }
    for a in &locations {
        for b in &locations {
            assert_eq!(location_compare(a, b), expected(a.cmp(b)));
        }
    }
    let mut ids: Vec<AssetId> = locations.iter().map(|l| AssetId::Concrete(*l)).collect();
    ids.push(AssetId::Abstract([0u8; 32]));
    ids.push(AssetId::Abstract([5u8; 32]));
    for a in &ids {
        for b in &ids {
            assert_eq!(asset_id_compare(a, b), expected(a.cmp(b)));
        }
    }
}

#[test]
fn parent_asset_comes_before_sibling_assets() {
    let relay = AssetId::Concrete(MultiLocation::parent());
    let sibling = AssetId::Concrete(MultiLocation::new(1, X1(Junction::Parachain(2))));
    assert_eq!(asset_id_compare(&relay, &sibling), Order::Less);
    assert_eq!(asset_id_compare(&sibling, &relay), Order::Greater);
    assert_eq!(asset_id_compare(&relay, &relay), Order::Equal);
}
