use orml_location::asset::{AssetId, Fungibility, MultiAsset};
use orml_location::junction::Junction::{self, GeneralIndex, GeneralKey, Parachain};
use orml_location::location::{Parse, Reserve};
use orml_location::multilocation::Junctions::{X1, X2};
use orml_location::multilocation::{Junctions, MultiLocation};

const PARACHAIN: Junction = Parachain(1);
const GENERAL_INDEX: Junction = GeneralIndex(1);

fn concrete_fungible(id: MultiLocation) -> MultiAsset {
    MultiAsset { id: AssetId::Concrete(id), fun: Fungibility::Fungible(1) }
}

fn key(name: &str) -> [u8; 32] {
    let mut key = [0u8; 32];
    for (i, byte) in name.as_bytes().iter().enumerate() {
        key[i] = *byte;
    }
    key
}

#[test]
fn parent_as_reserve_chain() {
    assert_eq!(
        concrete_fungible(MultiLocation { parents: 1, interior: X1(GENERAL_INDEX) }).reserve(),
        Some(MultiLocation::parent())
    );
}

#[test]
fn sibling_parachain_as_reserve_chain() {
    assert_eq!(
        concrete_fungible(MultiLocation { parents: 1, interior: X2(PARACHAIN, GENERAL_INDEX) })
            .reserve(),
        Some(MultiLocation::new(1, X1(PARACHAIN)))
    );
}

#[test]
fn child_parachain_as_reserve_chain() {
    assert_eq!(
        concrete_fungible(MultiLocation { parents: 0, interior: X2(PARACHAIN, GENERAL_INDEX) })
            .reserve(),
        Some(MultiLocation::new(0, X1(PARACHAIN)))
    );
}

#[test]
fn no_reserve_chain() {
    assert_eq!(
        concrete_fungible(MultiLocation { parents: 0, interior: X1(GeneralKey(key("DOT"))) })
            .reserve(),
        None
    );
}

#[test]
fn non_chain_part_works() {
    assert_eq!(MultiLocation::parent().non_chain_part(), None);
    assert_eq!(MultiLocation { parents: 1, interior: X1(PARACHAIN) }.non_chain_part(), None);

    assert_eq!(MultiLocation { parents: 0, interior: X1(PARACHAIN) }.non_chain_part(), None);

    assert_eq!(
        MultiLocation { parents: 1, interior: X1(GENERAL_INDEX) }.non_chain_part(),
        Some(MultiLocation { parents: 0, interior: X1(GENERAL_INDEX) })
    );

    assert_eq!(
        MultiLocation { parents: 1, interior: X2(GENERAL_INDEX, GENERAL_INDEX) }.non_chain_part(),
        Some(MultiLocation { parents: 0, interior: X2(GENERAL_INDEX, GENERAL_INDEX) })
    );

    assert_eq!(
        MultiLocation { parents: 1, interior: X2(PARACHAIN, GENERAL_INDEX) }.non_chain_part(),
        Some(MultiLocation { parents: 0, interior: X1(GENERAL_INDEX) })
    );

    assert_eq!(
        MultiLocation { parents: 0, interior: X2(PARACHAIN, GENERAL_INDEX) }.non_chain_part(),
        Some(MultiLocation { parents: 0, interior: X1(GENERAL_INDEX) })
    );
}

#[test]
fn parent_location_has_parent_as_chain_part() {
    assert_eq!(MultiLocation::parent().chain_part(), Some(MultiLocation::parent()));
    assert_eq!(MultiLocation::here().chain_part(), None);
    assert_eq!(MultiLocation { parents: 2, interior: X1(PARACHAIN) }.chain_part(), None);
    assert_eq!(MultiLocation { parents: 0, interior: X1(GENERAL_INDEX) }.chain_part(), None);
}

#[test]
fn non_chain_part_strips_every_leading_parachain() {
    let l = MultiLocation {
        parents: 1,
        interior: Junctions::X4(Parachain(1), Parachain(2), GENERAL_INDEX, Parachain(3)),
    };
    assert_eq!(
        l.non_chain_part(),
        Some(MultiLocation { parents: 0, interior: X2(GENERAL_INDEX, Parachain(3)) })
    );
    let n = l.non_chain_part().unwrap();
    assert_eq!(n.non_chain_part(), Some(n));
    assert_eq!(n.chain_part(), None);
}

#[test]
fn chain_and_non_chain_parts_recompose() {
    let l = MultiLocation { parents: 1, interior: X2(PARACHAIN, GENERAL_INDEX) };
    let c = l.chain_part().unwrap();
    let n = l.non_chain_part().unwrap();
    assert_eq!(c.parents, l.parents);
    assert_eq!(c.interior, X1(PARACHAIN));
    assert_eq!(n.interior, X1(GENERAL_INDEX));
}

#[test]
fn only_concrete_fungible_assets_have_a_reserve() {
    let nft = MultiAsset {
        id: AssetId::Concrete(MultiLocation { parents: 1, interior: X1(PARACHAIN) }),
        fun: Fungibility::NonFungible(orml_location::asset::AssetInstance::Index(1)),
    };
    assert_eq!(nft.reserve(), None);
    let abstract_asset = MultiAsset { id: AssetId::Abstract([1u8; 32]), fun: Fungibility::Fungible(5) };
    assert_eq!(abstract_asset.reserve(), None);
}

#[test]
fn take_first_interior_pops_the_outermost_junction() {
    let mut l = MultiLocation { parents: 1, interior: X2(PARACHAIN, GENERAL_INDEX) };
    assert_eq!(l.take_first_interior(), Some(PARACHAIN));
    assert_eq!(l, MultiLocation { parents: 1, interior: X1(GENERAL_INDEX) });
    assert_eq!(l.take_first_interior(), Some(GENERAL_INDEX));
    assert_eq!(l.take_first_interior(), None);
    assert_eq!(l, MultiLocation::parent());
}
