use vstd::prelude::*;

use crate::asset::{
    lemma_fungible_position_facts, lemma_instance_position_facts, spec_checked_sub, AssetId,
    AssetsModel, Fungibility, MultiAsset,
};
use crate::junction::Junction;
use crate::keys::key_of;
use crate::location::{spec_chain_part, spec_reserve};
use crate::multilocation::{Junctions, MultiLocation};
use crate::relative_view::{
    account_location, asset_currency, currency_location, lemma_currency_keys_distinct,
    location_currency, spec_buy_weight, spec_parachain_min_fee, spec_parent_or_parachains,
    spec_refund_weight, CurrencyId, XcmError,
};
use crate::support::{Convert, CurrencyIdConvert, IsNativeConcrete, TestCurrencyId};

verus! {

/// The parent location, `(1, Here)`.
pub open spec fn relay() -> MultiLocation {
    MultiLocation { parents: 1, interior: Junctions::Here }
}

/// The location `(parents, X1(Parachain(id)))`.
pub open spec fn para(parents: u8, id: u32) -> MultiLocation {
    MultiLocation { parents, interior: Junctions::X1(Junction::Parachain(id)) }
}

/// The location `(parents, X2(Parachain(id), GeneralKey(key)))`.
pub open spec fn para_key(parents: u8, id: u32, key: [u8; 32]) -> MultiLocation {
    MultiLocation {
        parents,
        interior: Junctions::X2(Junction::Parachain(id), Junction::GeneralKey(key)),
    }
}

/// The location `(0, X1(GeneralKey(key)))`.
pub open spec fn here_key(key: [u8; 32]) -> MultiLocation {
    MultiLocation { parents: 0, interior: Junctions::X1(Junction::GeneralKey(key)) }
}

/// The chain part of a location, case by case: a location that starts with a parachain
/// (one level up, or here) has that parachain as its chain part, however long its
/// interior; any other location one level up has the parent; anything else has none.
pub proof fn law_chain_part_cases(l: MultiLocation, id: u32)
    ensures
        l.parents == 1 && l.interior.as_seq().len() > 0 && l.interior.as_seq()[0]
            == Junction::Parachain(id) ==> spec_chain_part(l) == Some(para(1, id)),
        l.parents == 0 && l.interior.as_seq().len() > 0 && l.interior.as_seq()[0]
            == Junction::Parachain(id) ==> spec_chain_part(l) == Some(para(0, id)),
        l.parents == 1 && (l.interior.as_seq().len() == 0 || !(l.interior.as_seq()[0] is Parachain))
            ==> spec_chain_part(l) == Some(relay()),
        l.parents == 0 && (l.interior.as_seq().len() == 0 || !(l.interior.as_seq()[0] is Parachain))
            ==> spec_chain_part(l) is None,
        l.parents >= 2 ==> spec_chain_part(l) is None,
{
}

/// The reserve of an asset is the chain part of its location when it is concrete and
/// fungible, and there is none otherwise; in particular a sibling parachain's fungible
/// asset has that parachain as its reserve.
pub proof fn law_reserve_cases(a: MultiAsset, l: MultiLocation, id: u32, amount: u128)
    ensures
        a.id == AssetId::Concrete(l) && a.fun == Fungibility::Fungible(amount) ==> spec_reserve(a)
            == spec_chain_part(l),
        !(a.id is Concrete) ==> spec_reserve(a) is None,
        !(a.fun is Fungible) ==> spec_reserve(a) is None,
        l.parents == 1 && l.interior.as_seq().len() > 0 && l.interior.as_seq()[0]
            == Junction::Parachain(id) ==> spec_reserve(
            MultiAsset { id: AssetId::Concrete(l), fun: Fungibility::Fungible(amount) },
        ) == Some(para(1, id)),
{
}

/// The bytes of `TokenA`.
pub open spec fn bytes_token_a() -> Seq<u8> {
    seq![0x54u8, 0x6fu8, 0x6bu8, 0x65u8, 0x6eu8, 0x41u8]
}

/// The bytes of `TokenB`.
pub open spec fn bytes_token_b() -> Seq<u8> {
    seq![0x54u8, 0x6fu8, 0x6bu8, 0x65u8, 0x6eu8, 0x42u8]
}

/// The test converter knows exactly three locations: the parent is the relay chain token,
/// `TokenA` on sibling parachain 1 and `TokenB` on sibling parachain 2; every other
/// location, including any seen from the chain itself, names no currency.
pub proof fn law_test_converter_locations(l: MultiLocation)
    ensures
        CurrencyIdConvert::spec_convert(relay()) == Some(TestCurrencyId::RelayChainToken),
        CurrencyIdConvert::spec_convert(para_key(1, 1, key_of(bytes_token_a()))) == Some(
            TestCurrencyId::TokenA,
        ),
        CurrencyIdConvert::spec_convert(para_key(1, 2, key_of(bytes_token_b()))) == Some(
            TestCurrencyId::TokenB,
        ),
        CurrencyIdConvert::spec_convert(l) is Some ==> (l == relay() || l == para_key(
            1,
            1,
            key_of(bytes_token_a()),
        ) || l == para_key(1, 2, key_of(bytes_token_b()))),
        l.parents != 1 ==> CurrencyIdConvert::spec_convert(l) is None,
{
}

/// A native asset matches with its whole amount exactly when it is a concrete fungible
/// asset whose location names a currency; nothing else matches.
pub proof fn law_native_match<C, Conv: Convert<MultiLocation, Option<C>>>(a: MultiAsset, l: MultiLocation, amount: u128)
    ensures
        IsNativeConcrete::<C, Conv>::spec_matches_fungible(a) matches Some(x) ==> (a.fun
            == Fungibility::Fungible(x) && (a.id is Concrete)),
        a.id == AssetId::Concrete(l) && a.fun == Fungibility::Fungible(amount) ==> (
        IsNativeConcrete::<C, Conv>::spec_matches_fungible(a) == (if Conv::spec_convert(l) is Some {
            Some(amount)
        } else {
            None
        })),
        !(a.fun is Fungible) || !(a.id is Concrete) ==> IsNativeConcrete::<
            C,
            Conv,
        >::spec_matches_fungible(a) is None,
{
}

/// The bytes of the currency names `A`, `A1`, `B`, `B1`, `B2`, `D`.
pub open spec fn currency_bytes(id: CurrencyId) -> Seq<u8> {
    match id {
        CurrencyId::A => seq![0x41u8],
        CurrencyId::A1 => seq![0x41u8, 0x31u8],
        CurrencyId::B => seq![0x42u8],
        CurrencyId::B1 => seq![0x42u8, 0x31u8],
        CurrencyId::B2 => seq![0x42u8, 0x32u8],
        CurrencyId::D => seq![0x44u8],
        CurrencyId::R => seq![],
    }
}

/// Each currency but the relay token, written as its general key in the chain itself,
/// converts to that currency on every chain; the relay token is the parent.
pub proof fn law_local_keys_convert(id: CurrencyId, self_para_id: u32)
    ensures
        id != CurrencyId::R ==> location_currency(here_key(key_of(currency_bytes(id))), self_para_id)
            == Some(id),
        location_currency(relay(), self_para_id) == Some(CurrencyId::R),
{
    lemma_currency_keys_distinct();
}

/// Seen through the parent, `A` and `A1` live on parachain 1, `B`, `B1` and `B2` on
/// parachain 2, and `D` on the chain itself; no other parachain holds a currency.
pub proof fn law_sibling_keys_convert(id: CurrencyId, self_para_id: u32, p: u32, key: [u8; 32])
    ensures
        id == CurrencyId::A || id == CurrencyId::A1 ==> location_currency(
            para_key(1, 1, key_of(currency_bytes(id))),
            self_para_id,
        ) == Some(id),
        id == CurrencyId::B || id == CurrencyId::B1 || id == CurrencyId::B2 ==> location_currency(
            para_key(1, 2, key_of(currency_bytes(id))),
            self_para_id,
        ) == Some(id),
        location_currency(para_key(1, self_para_id, key_of(currency_bytes(CurrencyId::D))), self_para_id)
            == Some(CurrencyId::D),
        p != 1 && p != 2 && p != self_para_id ==> location_currency(para_key(1, p, key), self_para_id)
            is None,
        location_currency(para_key(0, p, key), self_para_id) is None,
{
    lemma_currency_keys_distinct();
}

/// Any location that names a currency is at most one level up.
pub proof fn law_currency_locations_are_near(l: MultiLocation, self_para_id: u32)
    ensures
        location_currency(l, self_para_id) is Some ==> l.parents <= 1,
{
}

/// The para ids whose accounts transfers may reach.
pub open spec fn allowed_para_ids() -> Seq<u32> {
    seq![1u32, 2u32, 3u32, 4u32, 100u32]
}

/// Transfers may go to an account here or on the relay chain, and to an account on a
/// sibling parachain exactly when its para id is allowed; every allowed destination ends
/// in an account and is at most one level up.
pub proof fn law_transfer_destinations(
    l: MultiLocation,
    p: u32,
    network: Option<crate::junction::NetworkId>,
    id: [u8; 32],
)
    ensures
        spec_parent_or_parachains(
            MultiLocation {
                parents: 1,
                interior: Junctions::X2(
                    Junction::Parachain(p),
                    Junction::AccountId32 { network, id },
                ),
            },
        ) <==> allowed_para_ids().contains(p),
        spec_parent_or_parachains(
            MultiLocation {
                parents: 0,
                interior: Junctions::X1(Junction::AccountId32 { network, id }),
            },
        ),
        spec_parent_or_parachains(
            MultiLocation {
                parents: 1,
                interior: Junctions::X1(Junction::AccountId32 { network, id }),
            },
        ),
        spec_parent_or_parachains(l) ==> l.parents <= 1 && l.interior.as_seq().len() > 0
            && l.interior.as_seq().last() is AccountId32,
{
    let s = allowed_para_ids();
    if p == 1 {
        assert(s[0] == p);
    } else if p == 2 {
        assert(s[1] == p);
    } else if p == 3 {
        assert(s[2] == p);
    } else if p == 4 {
        assert(s[3] == p);
    } else if p == 100 {
        assert(s[4] == p);
    } else {
        assert(!s.contains(p));
    }
}

/// The least fee is 40 for destinations under sibling parachain 2 and unpayable
/// everywhere else.
pub proof fn law_min_fee(l: MultiLocation)
    ensures
        spec_parachain_min_fee(l) == 40 || spec_parachain_min_fee(l) == u128::MAX,
        spec_parachain_min_fee(l) == 40 <==> (l.parents == 1 && l.interior.as_seq().len() > 0
            && l.interior.as_seq()[0] == Junction::Parachain(2)),
{
}

/// A refund is nothing for no weight, and otherwise exactly `weight` units of the
/// trader's asset.
pub proof fn law_refund(trader: MultiLocation, weight: u64)
    ensures
        spec_refund_weight(trader, weight) is None <==> weight == 0,
        spec_refund_weight(trader, weight) matches Some(a) ==> a.id == AssetId::Concrete(trader)
            && a.fun == Fungibility::Fungible(weight as u128),
{
}

/// Taking an asset out of a holding succeeds only when the holding holds it: a fungible
/// asset needs an entry with at least the amount, which loses exactly that amount (the
/// entry goes when nothing is left); a non-fungible instance must be held, and exactly
/// one entry of it goes. Nothing else changes, and a refusal gives the holding back.
pub proof fn law_checked_sub(m: AssetsModel, asset: MultiAsset)
    ensures
        spec_checked_sub(m, asset) matches Err(y) ==> y == m,
        asset.fun matches Fungibility::Fungible(amount) ==> {
            &&& spec_checked_sub(m, asset) matches Ok(x) ==> exists|i: int|
                0 <= i < m.fungible.len() && #[trigger] m.fungible[i].0 == asset.id
                    && m.fungible[i].1 >= amount && x.non_fungible == m.non_fungible
                    && x.fungible == (if m.fungible[i].1 == amount {
                    m.fungible.remove(i)
                } else {
                    m.fungible.update(i, (asset.id, (m.fungible[i].1 - amount) as u128))
                })
            &&& (forall|i: int| 0 <= i < m.fungible.len() ==> #[trigger] m.fungible[i].0 != asset.id)
                ==> spec_checked_sub(m, asset) is Err
        },
        asset.fun matches Fungibility::NonFungible(instance) ==> {
            &&& (spec_checked_sub(m, asset) is Ok <==> m.non_fungible.contains((asset.id, instance)))
            &&& spec_checked_sub(m, asset) matches Ok(x) ==> {
                &&& x.fungible == m.fungible
                &&& x.non_fungible.len() + 1 == m.non_fungible.len()
                &&& exists|j: int|
                    0 <= j < m.non_fungible.len() && #[trigger] m.non_fungible[j] == (
                        asset.id,
                        instance,
                    ) && x.non_fungible == m.non_fungible.remove(j)
            }
        },
{
    lemma_fungible_position_facts(m.fungible, asset.id);
    match asset.fun {
        Fungibility::Fungible(amount) => {},
        Fungibility::NonFungible(instance) => {
            let item = (asset.id, instance);
            lemma_instance_position_facts(m.non_fungible, item);
            let j = crate::asset::instance_position(m.non_fungible, item);
            if m.non_fungible.contains(item) {
                let k = choose|k: int| 0 <= k < m.non_fungible.len() && m.non_fungible[k] == item;
                assert(j <= k);
            }
        },
    }
}

/// Where each currency lives: the relay token at the parent, `A` and `A1` as keys on
/// sibling parachain 1, `B`, `B1` and `B2` as keys on sibling parachain 2, and `D` as a
/// key on the chain itself.
pub proof fn law_currency_locations(id: CurrencyId)
    ensures
        currency_location(id) == (match id {
            CurrencyId::R => relay(),
            CurrencyId::A | CurrencyId::A1 => para_key(1, 1, key_of(currency_bytes(id))),
            CurrencyId::B | CurrencyId::B1 | CurrencyId::B2 => para_key(
                1,
                2,
                key_of(currency_bytes(id)),
            ),
            CurrencyId::D => here_key(key_of(currency_bytes(id))),
        }),
{
}

/// An asset names a currency only when it is concrete and fungible, and then it names
/// the currency of its location.
pub proof fn law_asset_currency(a: MultiAsset, l: MultiLocation, amount: u128, self_para_id: u32)
    ensures
        !(a.id is Concrete) || !(a.fun is Fungible) ==> asset_currency(a, self_para_id) is None,
        a.id == AssetId::Concrete(l) && a.fun == Fungibility::Fungible(amount) ==> asset_currency(
            a,
            self_para_id,
        ) == location_currency(l, self_para_id),
{
}

/// An account's location is the account itself, here, on no particular network.
pub proof fn law_account_location(account: [u8; 32])
    ensures
        account_location(account).parents == 0,
        account_location(account).interior.as_seq() == seq![
            Junction::AccountId32 { network: None, id: account },
        ],
{
    assert(account_location(account).interior.as_seq() =~= seq![
        Junction::AccountId32 { network: None, id: account },
    ]);
}

/// Buying weight leaves the trader at the location of the asset it took, when that asset
/// is concrete, and where it was otherwise; a refused purchase is `TooExpensive`.
pub proof fn law_buy_weight_trader(trader: MultiLocation, weight: u64, payment: AssetsModel, l: MultiLocation)
    requires
        payment.fungible.len() > 0,
    ensures
        payment.fungible[0].0 == AssetId::Concrete(l) ==> spec_buy_weight(trader, weight, payment).0
            == l,
        payment.fungible[0].0 is Abstract ==> spec_buy_weight(trader, weight, payment).0 == trader,
        spec_buy_weight(trader, weight, payment).1 matches Err(e) ==> e == XcmError::TooExpensive,
{
}

/// When the first entry for a fungible asset holds less than the amount asked for, taking
/// it out is refused.
pub proof fn law_checked_sub_short(m: AssetsModel, id: AssetId, amount: u128, i: int)
    requires
        0 <= i < m.fungible.len(),
        m.fungible[i].0 == id,
        forall|k: int| 0 <= k < i ==> m.fungible[k].0 != id,
        m.fungible[i].1 < amount,
    ensures
        spec_checked_sub(m, MultiAsset { id, fun: Fungibility::Fungible(amount) }) == Err::<
            AssetsModel,
            AssetsModel,
        >(m),
{
    lemma_fungible_position_facts(m.fungible, id);
}

} // verus!
