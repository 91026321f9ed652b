use orml_location::asset::{AssetId, AssetInstance, Assets, Fungibility, MultiAsset};
use orml_location::junction::Junction::{AccountId32, GeneralIndex, GeneralKey, Parachain};
use orml_location::multilocation::Junctions::{Here, X1, X2};
use orml_location::multilocation::MultiLocation;
use orml_location::relative_view::{
    AccountIdToMultiLocation, AllTokensAreCreatedEqualToWeight, ChannelInfo, ChannelStatus,
    CurrencyId, ParachainMinFee, ParentOrParachains, RelativeCurrencyIdConvert, XcmError,
};
use orml_location::support::Convert;

fn key(name: &str) -> [u8; 32] {
    let mut key = [0u8; 32];
    key[0..name.len()].copy_from_slice(name.as_bytes());
    key
}

type ParaA = RelativeCurrencyIdConvert<1>;
type ParaD = RelativeCurrencyIdConvert<4>;

fn to_location<C: Convert<CurrencyId, Option<MultiLocation>>>(id: CurrencyId) -> Option<MultiLocation> {
    C::convert(id)
}

fn to_currency<C: Convert<MultiLocation, Option<CurrencyId>>>(l: MultiLocation) -> Option<CurrencyId> {
    C::convert(l)
}

fn asset_currency<C: Convert<MultiAsset, Option<CurrencyId>>>(a: MultiAsset) -> Option<CurrencyId> {
    C::convert(a)
}

const ALL: [CurrencyId; 7] = [
    CurrencyId::R,
    CurrencyId::A,
    CurrencyId::A1,
    CurrencyId::B,
    CurrencyId::B1,
    CurrencyId::B2,
    CurrencyId::D,
];

#[test]
fn relative_currency_locations() {
    assert_eq!(to_location::<ParaA>(CurrencyId::R), Some(MultiLocation::parent()));
    assert_eq!(
        to_location::<ParaA>(CurrencyId::A),
        Some(MultiLocation::new(1, X2(Parachain(1), GeneralKey(key("A")))))
    );
    assert_eq!(
        to_location::<ParaA>(CurrencyId::A1),
        Some(MultiLocation::new(1, X2(Parachain(1), GeneralKey(key("A1")))))
    );
    assert_eq!(
        to_location::<ParaA>(CurrencyId::B),
        Some(MultiLocation::new(1, X2(Parachain(2), GeneralKey(key("B")))))
    );
    assert_eq!(
        to_location::<ParaA>(CurrencyId::B1),
        Some(MultiLocation::new(1, X2(Parachain(2), GeneralKey(key("B1")))))
    );
    assert_eq!(
        to_location::<ParaA>(CurrencyId::B2),
        Some(MultiLocation::new(1, X2(Parachain(2), GeneralKey(key("B2")))))
    );
    assert_eq!(
        to_location::<ParaA>(CurrencyId::D),
        Some(MultiLocation::new(0, X1(GeneralKey(key("D")))))
    );
}

#[test]
fn relative_currency_roundtrip() {
    for id in ALL {
        let l = to_location::<ParaA>(id).unwrap();
        assert_eq!(to_currency::<ParaA>(l), Some(id));
        assert_eq!(to_currency::<ParaD>(l), Some(id));
    }
}

#[test]
fn relative_locations_seen_from_the_chain_itself() {
    assert_eq!(
        to_currency::<ParaA>(MultiLocation::new(0, X1(GeneralKey(key("A"))))),
        Some(CurrencyId::A)
    );
    assert_eq!(
        to_currency::<ParaA>(MultiLocation::new(0, X1(GeneralKey(key("B2"))))),
        Some(CurrencyId::B2)
    );
    assert_eq!(
        to_currency::<ParaD>(MultiLocation::new(1, X2(Parachain(4), GeneralKey(key("D"))))),
        Some(CurrencyId::D)
    );
    assert_eq!(
        to_currency::<ParaA>(MultiLocation::new(1, X2(Parachain(4), GeneralKey(key("D"))))),
        None
    );
    assert_eq!(
        to_currency::<ParaA>(MultiLocation::new(1, X2(Parachain(2), GeneralKey(key("A"))))),
        None
    );
    assert_eq!(to_currency::<ParaA>(MultiLocation::new(0, X1(GeneralKey(key("C"))))), None);
    assert_eq!(to_currency::<ParaA>(MultiLocation::new(2, Here)), None);
    assert_eq!(to_currency::<ParaA>(MultiLocation::here()), None);
}

#[test]
fn relative_asset_conversion() {
    let a = MultiAsset {
        id: AssetId::Concrete(MultiLocation::new(1, X2(Parachain(2), GeneralKey(key("B1"))))),
        fun: Fungibility::Fungible(3),
    };
    assert_eq!(asset_currency::<ParaA>(a), Some(CurrencyId::B1));
    let nft = MultiAsset {
        id: AssetId::Concrete(MultiLocation::parent()),
        fun: Fungibility::NonFungible(AssetInstance::Index(0)),
    };
    assert_eq!(asset_currency::<ParaA>(nft), None);
    let abs = MultiAsset { id: AssetId::Abstract(key("A")), fun: Fungibility::Fungible(3) };
    assert_eq!(asset_currency::<ParaA>(abs), None);
}

#[test]
fn account_id_to_location() {
    let account = [7u8; 32];
    assert_eq!(
        AccountIdToMultiLocation::convert(account),
        MultiLocation::new(0, X1(AccountId32 { network: None, id: account }))
    );
}

#[test]
fn channel_info_is_always_ready() {
    assert_eq!(ChannelInfo::get_channel_status(1), ChannelStatus::Ready(10, 10));
    assert_eq!(ChannelInfo::get_channel_max(2), Some(usize::MAX));
}

#[test]
fn parent_or_parachains_filter() {
    let id = [1u8; 32];
    let account = AccountId32 { network: None, id };
    assert!(ParentOrParachains::contains(&MultiLocation::new(0, X1(account))));
    assert!(ParentOrParachains::contains(&MultiLocation::new(1, X1(account))));
    assert!(ParentOrParachains::contains(&MultiLocation::new(1, X2(Parachain(1), account))));
    assert!(ParentOrParachains::contains(&MultiLocation::new(1, X2(Parachain(100), account))));
    assert!(!ParentOrParachains::contains(&MultiLocation::new(1, X2(Parachain(5), account))));
    assert!(!ParentOrParachains::contains(&MultiLocation::new(2, X1(account))));
    assert!(!ParentOrParachains::contains(&MultiLocation::new(1, X1(GeneralIndex(1)))));
}

#[test]
fn parachain_min_fee() {
    assert_eq!(ParachainMinFee::get(&MultiLocation::new(1, X1(Parachain(2)))), 40);
    assert_eq!(
        ParachainMinFee::get(&MultiLocation::new(1, X2(Parachain(2), GeneralIndex(3)))),
        40
    );
    assert_eq!(ParachainMinFee::get(&MultiLocation::new(1, X1(Parachain(1)))), u128::MAX);
    assert_eq!(ParachainMinFee::get(&MultiLocation::parent()), u128::MAX);
    assert_eq!(ParachainMinFee::get(&MultiLocation::new(0, X1(Parachain(2)))), u128::MAX);
}

#[test]
fn trader_buys_weight_one_for_one() {
    let relay = AssetId::Concrete(MultiLocation::parent());
    let other = AssetId::Concrete(MultiLocation::new(1, X1(Parachain(2))));
    let mut trader = AllTokensAreCreatedEqualToWeight::new();
    assert_eq!(trader.0, MultiLocation::parent());

    // The holding lists the parent's asset first: it has the least asset identity.
    let payment = Assets { fungible: vec![(relay, 50), (other, 100)], non_fungible: vec![] };
    assert!(payment.is_well_formed());
    let unused = trader.buy_weight(30, payment).unwrap();
    assert_eq!(unused, Assets { fungible: vec![(relay, 20), (other, 100)], non_fungible: vec![] });
    assert_eq!(trader.0, MultiLocation::parent());

    assert_eq!(trader.refund_weight(0), None);
    assert_eq!(
        trader.refund_weight(12),
        Some(MultiAsset { id: relay, fun: Fungibility::Fungible(12) })
    );
}

#[test]
fn trader_pays_with_the_least_asset() {
    let relay = AssetId::Concrete(MultiLocation::parent());
    let other = AssetId::Concrete(MultiLocation::new(1, X1(Parachain(2))));
    let mut trader = AllTokensAreCreatedEqualToWeight::new();
    // Listing the sibling's asset first is not a well-formed holding.
    let unsorted = Assets { fungible: vec![(other, 100), (relay, 5)], non_fungible: vec![] };
    assert!(!unsorted.is_well_formed());
    // In order, the parent's asset is paid with, and 5 does not cover 30.
    let payment = Assets { fungible: vec![(relay, 5), (other, 100)], non_fungible: vec![] };
    assert!(payment.is_well_formed());
    assert_eq!(trader.buy_weight(30, payment), Err(XcmError::TooExpensive));
}

#[test]
fn trader_remembers_a_sibling_asset() {
    let other = AssetId::Concrete(MultiLocation::new(1, X1(Parachain(2))));
    let third = AssetId::Concrete(MultiLocation::new(1, X1(Parachain(3))));
    let mut trader = AllTokensAreCreatedEqualToWeight::new();
    let payment = Assets { fungible: vec![(other, 100), (third, 1)], non_fungible: vec![] };
    assert!(payment.is_well_formed());
    let unused = trader.buy_weight(30, payment).unwrap();
    assert_eq!(unused, Assets { fungible: vec![(other, 70), (third, 1)], non_fungible: vec![] });
    assert_eq!(trader.0, MultiLocation::new(1, X1(Parachain(2))));
    assert_eq!(trader.refund_weight(4), Some(MultiAsset { id: other, fun: Fungibility::Fungible(4) }));
}

#[test]
fn trader_removes_a_spent_asset() {
    let relay = AssetId::Concrete(MultiLocation::parent());
    let mut trader = AllTokensAreCreatedEqualToWeight::new();
    let payment = Assets { fungible: vec![(relay, 40)], non_fungible: vec![] };
    assert_eq!(
        trader.buy_weight(40, payment),
        Ok(Assets { fungible: vec![], non_fungible: vec![] })
    );
}

#[test]
fn trader_refuses_too_little_payment() {
    let relay = AssetId::Concrete(MultiLocation::parent());
    let mut trader = AllTokensAreCreatedEqualToWeight::new();
    let payment = Assets { fungible: vec![(relay, 9)], non_fungible: vec![] };
    assert_eq!(trader.buy_weight(10, payment), Err(XcmError::TooExpensive));
}

#[test]
fn trader_keeps_its_location_for_abstract_payment() {
    let mut trader = AllTokensAreCreatedEqualToWeight::new();
    let payment = Assets { fungible: vec![(AssetId::Abstract([3u8; 32]), 9)], non_fungible: vec![] };
    assert!(trader.buy_weight(4, payment).is_ok());
    assert_eq!(trader.0, MultiLocation::parent());
}

#[test]
fn holding_well_formedness() {
    let relay = AssetId::Concrete(MultiLocation::parent());
    let nft = (relay, AssetInstance::Index(9));
    assert!(Assets::new().is_well_formed());
    assert!(!Assets { fungible: vec![(relay, 1), (relay, 2)], non_fungible: vec![] }.is_well_formed());
    assert!(!Assets { fungible: vec![], non_fungible: vec![nft, nft] }.is_well_formed());
    assert!(Assets { fungible: vec![], non_fungible: vec![nft, (relay, AssetInstance::Index(8))] }
        .is_well_formed());
}

#[test]
fn holding_checked_sub() {
    let relay = AssetId::Concrete(MultiLocation::parent());
    let other = AssetId::Concrete(MultiLocation::new(1, X1(Parachain(2))));
    let nft = (relay, AssetInstance::Index(9));
    let holding = Assets { fungible: vec![(relay, 10), (other, 3)], non_fungible: vec![nft] };

    let after = Assets { fungible: vec![(relay, 10), (other, 3)], non_fungible: vec![nft] }
        .checked_sub(MultiAsset { id: other, fun: Fungibility::Fungible(3) });
    assert_eq!(after, Ok(Assets { fungible: vec![(relay, 10)], non_fungible: vec![nft] }));

    let too_much = Assets { fungible: vec![(relay, 10), (other, 3)], non_fungible: vec![nft] }
        .checked_sub(MultiAsset { id: other, fun: Fungibility::Fungible(4) });
    assert_eq!(too_much, Err(holding));

    let nft_taken = Assets { fungible: vec![(relay, 10)], non_fungible: vec![nft] }
        .checked_sub(MultiAsset { id: relay, fun: Fungibility::NonFungible(AssetInstance::Index(9)) });
    assert_eq!(nft_taken, Ok(Assets { fungible: vec![(relay, 10)], non_fungible: vec![] }));

    let missing = Assets::new().checked_sub(MultiAsset { id: relay, fun: Fungibility::Fungible(1) });
    assert_eq!(missing, Err(Assets::new()));
}
