use orml_location::asset::{AssetId, Fungibility, MultiAsset};
use orml_location::junction::Junction::{GeneralKey, Parachain};
use orml_location::multilocation::Junctions::X1;
use orml_location::multilocation::MultiLocation;
use orml_location::support::{
    Convert, CurrencyIdConvert, IsNativeConcrete, MultiNativeAsset, TestCurrencyId,
};

type MatchesCurrencyId = IsNativeConcrete<TestCurrencyId, CurrencyIdConvert>;

fn key(name: &str) -> [u8; 32] {
    let mut key = [0u8; 32];
    let bytes: Vec<u8> = name.into();
    for (i, byte) in bytes.iter().enumerate() {
        key[i] = *byte;
    }
    key
}

#[test]
fn is_native_concrete_matches_native_currencies() {
    let token_a = key("TokenA");
    let token_b = key("TokenB");
    assert_eq!(MatchesCurrencyId::matches_fungible(&MultiAsset::parent_asset(100)), Some(100),);

    assert_eq!(
        MatchesCurrencyId::matches_fungible(&MultiAsset::sibling_parachain_asset(1, token_a, 100)),
        Some(100),
    );

    assert_eq!(
        MatchesCurrencyId::matches_fungible(&MultiAsset::sibling_parachain_asset(2, token_b, 100)),
        Some(100),
    );
}

#[test]
fn is_native_concrete_does_not_matches_non_native_currencies() {
    let token_c = key("TokenC");
    let token_b = key("TokenB");
    assert!(MatchesCurrencyId::matches_fungible(&MultiAsset::sibling_parachain_asset(
        2, token_c, 100
    ))
    .is_none());
    assert!(MatchesCurrencyId::matches_fungible(&MultiAsset::sibling_parachain_asset(
        1, token_b, 100
    ))
    .is_none());
    assert!(MatchesCurrencyId::matches_fungible(&MultiAsset {
        fun: Fungibility::Fungible(100),
        id: AssetId::Concrete(MultiLocation::new(1, X1(GeneralKey(token_b)))),
    })
    .is_none());
}

#[test]
fn multi_native_asset() {
    let token_a = key("TokenA");
    assert!(MultiNativeAsset::contains(
        &MultiAsset { fun: Fungibility::Fungible(10), id: AssetId::Concrete(MultiLocation::parent()) },
        &MultiLocation::parent(),
    ));
    assert!(MultiNativeAsset::contains(
        &MultiAsset::sibling_parachain_asset(1, token_a, 100),
        &MultiLocation::new(1, X1(Parachain(1))),
    ));
    assert!(!MultiNativeAsset::contains(
        &MultiAsset::sibling_parachain_asset(1, token_a, 100),
        &MultiLocation::parent(),
    ));
}

#[test]
fn currency_id_convert_names_the_test_currencies() {
    let token_a = key("TokenA");
    let token_b = key("TokenB");
    assert_eq!(CurrencyIdConvert::convert(MultiLocation::parent()), Some(TestCurrencyId::RelayChainToken));
    assert_eq!(
        CurrencyIdConvert::convert(MultiLocation::sibling_parachain_general_key(1, token_a)),
        Some(TestCurrencyId::TokenA)
    );
    assert_eq!(
        CurrencyIdConvert::convert(MultiLocation::sibling_parachain_general_key(2, token_b)),
        Some(TestCurrencyId::TokenB)
    );
    assert_eq!(CurrencyIdConvert::convert(MultiLocation::sibling_parachain_general_key(2, token_a)), None);
    assert_eq!(CurrencyIdConvert::convert(MultiLocation::here()), None);
}

#[test]
fn is_native_concrete_ignores_non_fungible_and_abstract_assets() {
    let nft = MultiAsset {
        id: AssetId::Concrete(MultiLocation::parent()),
        fun: Fungibility::NonFungible(orml_location::asset::AssetInstance::Undefined),
    };
    assert_eq!(MatchesCurrencyId::matches_fungible(&nft), None);
    let abstract_asset = MultiAsset { id: AssetId::Abstract([0u8; 32]), fun: Fungibility::Fungible(7) };
    assert_eq!(MatchesCurrencyId::matches_fungible(&abstract_asset), None);
}

#[test]
fn multi_native_asset_accepts_only_from_the_reserve() {
    let token_a = key("TokenA");
    let child = MultiAsset {
        id: AssetId::Concrete(MultiLocation::new(0, X1(Parachain(5)))),
        fun: Fungibility::Fungible(1),
    };
    assert!(MultiNativeAsset::contains(&child, &MultiLocation::new(0, X1(Parachain(5)))));
    assert!(!MultiNativeAsset::contains(
        &MultiAsset::sibling_parachain_asset(1, token_a, 100),
        &MultiLocation::new(1, X1(Parachain(2))),
    ));
    assert!(!MultiNativeAsset::contains(
        &MultiAsset { id: AssetId::Concrete(MultiLocation::here()), fun: Fungibility::Fungible(1) },
        &MultiLocation::here(),
    ));
}
