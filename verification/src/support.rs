use vstd::prelude::*;
use vstd::string::StringSliceAdditionalSpecFns;

use crate::asset::{AssetId, Fungibility, MultiAsset};
use crate::junction::Junction;
use crate::keys::{general_key, key_of, lemma_ascii_bytes, padded_key};
use crate::location::{spec_reserve, Reserve};
use crate::multilocation::{Junctions, MultiLocation};

verus! {

/// A conversion from one kind of value into another.
pub trait Convert<A, B>: Sized {
    /// What `convert` gives for `a`.
    spec fn spec_convert(a: A) -> B;

    fn convert(a: A) -> (b: B)
        ensures
            b == Self::spec_convert(a),
    ;
}

/// Matches a concrete fungible asset whose location names a currency of this chain.
pub struct IsNativeConcrete<CurrencyId, CurrencyIdConvert> {
    currency: core::marker::PhantomData<CurrencyId>,
    convert: core::marker::PhantomData<CurrencyIdConvert>,
}

impl<CurrencyId, CurrencyIdConvert: Convert<MultiLocation, Option<CurrencyId>>> IsNativeConcrete<
    CurrencyId,
    CurrencyIdConvert,
> {
    pub open spec fn spec_matches_fungible(a: MultiAsset) -> Option<u128> {
        match (a.fun, a.id) {
            (Fungibility::Fungible(amount), AssetId::Concrete(location)) => {
                if CurrencyIdConvert::spec_convert(location) is Some {
                    Some(amount)
                } else {
                    None
                }
            },
            _ => None,
        }
    }

    /// The amount of a concrete fungible asset whose location converts to a currency;
    /// none for any other asset.
    pub fn matches_fungible(a: &MultiAsset) -> (r: Option<u128>)
        ensures
            r == Self::spec_matches_fungible(*a),
    {
        if let (Fungibility::Fungible(amount), AssetId::Concrete(location)) = (&a.fun, &a.id) {
            if CurrencyIdConvert::convert(*location).is_some() {
                return Some(*amount);
            }
        }
        None
    }
}

/// Accepts an asset from an origin when the origin is the asset's reserve location.
pub struct MultiNativeAsset;

impl MultiNativeAsset {
    /// Whether `origin` is the reserve location of `asset`.
    pub fn contains(asset: &MultiAsset, origin: &MultiLocation) -> (r: bool)
        ensures
            r == (spec_reserve(*asset) == Some(*origin)),
    {
        if let Some(reserve) = asset.reserve() {
            if reserve.equals(origin) {
                return true;
            }
        }
        false
    }
}

/// The currencies known to the test converter.
#[derive(Clone, Copy, Debug, PartialEq, Eq, Structural)]
pub enum TestCurrencyId {
    TokenA,
    TokenB,
    RelayChainToken,
}

/// The bytes of the name `TokenA`.
pub open spec fn token_a_name() -> Seq<u8> {
    seq![84u8, 111u8, 107u8, 101u8, 110u8, 65u8]
}

/// The bytes of the name `TokenB`.
pub open spec fn token_b_name() -> Seq<u8> {
    seq![84u8, 111u8, 107u8, 101u8, 110u8, 66u8]
}

/// The general key of `TokenA`.
pub fn token_a_key() -> (k: [u8; 32])
    ensures
        k@ == padded_key(token_a_name()),
        k == key_of(token_a_name()),
{
    proof {
        reveal_strlit("TokenA");
        lemma_ascii_bytes("TokenA");
        assert("TokenA".spec_bytes() =~= token_a_name());
    }
    general_key("TokenA")
}

/// The general key of `TokenB`.
pub fn token_b_key() -> (k: [u8; 32])
    ensures
        k@ == padded_key(token_b_name()),
        k == key_of(token_b_name()),
{
    proof {
        reveal_strlit("TokenB");
        lemma_ascii_bytes("TokenB");
        assert("TokenB".spec_bytes() =~= token_b_name());
    }
    general_key("TokenB")
}

/// The location of the general key `key` on sibling parachain `para_id`.
pub open spec fn sibling_key_location(para_id: u32, key: [u8; 32]) -> MultiLocation {
    MultiLocation {
        parents: 1,
        interior: Junctions::X2(Junction::Parachain(para_id), Junction::GeneralKey(key)),
    }
}

/// Converts locations to test currencies: the parent is the relay chain token, `TokenA`
/// lives on sibling parachain 1 and `TokenB` on sibling parachain 2.
pub struct CurrencyIdConvert;

impl Convert<MultiLocation, Option<TestCurrencyId>> for CurrencyIdConvert {
    open spec fn spec_convert(l: MultiLocation) -> Option<TestCurrencyId> {
        if l == MultiLocation::spec_parent() {
            Some(TestCurrencyId::RelayChainToken)
        } else if l == sibling_key_location(1, key_of(token_a_name())) {
            Some(TestCurrencyId::TokenA)
        } else if l == sibling_key_location(2, key_of(token_b_name())) {
            Some(TestCurrencyId::TokenB)
        } else {
            None
        }
    }

    fn convert(l: MultiLocation) -> (r: Option<TestCurrencyId>) {
        let token_a = token_a_key();
        let token_b = token_b_key();

        if l.equals(&MultiLocation::parent()) {
            return Some(TestCurrencyId::RelayChainToken);
        }
        if l.equals(&MultiLocation::sibling_parachain_general_key(1, token_a)) {
            return Some(TestCurrencyId::TokenA);
        }
        if l.equals(&MultiLocation::sibling_parachain_general_key(2, token_b)) {
            return Some(TestCurrencyId::TokenB);
        }
        None
    }
}

/// The given amount of the asset named by `key` on sibling parachain `para_id`.
pub open spec fn sibling_asset(para_id: u32, key: [u8; 32], amount: u128) -> MultiAsset {
    MultiAsset {
        id: AssetId::Concrete(sibling_key_location(para_id, key)),
        fun: Fungibility::Fungible(amount),
    }
}

/// The given amount of the parent chain's asset.
pub open spec fn parent_asset(amount: u128) -> MultiAsset {
    MultiAsset {
        id: AssetId::Concrete(MultiLocation::spec_parent()),
        fun: Fungibility::Fungible(amount),
    }
}

/// An asset of a sibling parachain is accepted from that parachain and from no other
/// origin; the parent chain's asset is accepted from the parent and from no other origin.
pub proof fn lemma_native_asset_origins(para_id: u32, key: [u8; 32], amount: u128, origin: MultiLocation)
    ensures
        spec_reserve(sibling_asset(para_id, key, amount)) == Some(
            MultiLocation { parents: 1, interior: Junctions::X1(Junction::Parachain(para_id)) },
        ),
        spec_reserve(parent_asset(amount)) == Some(MultiLocation::spec_parent()),
        (spec_reserve(sibling_asset(para_id, key, amount)) == Some(origin)) <==> origin
            == (MultiLocation { parents: 1, interior: Junctions::X1(Junction::Parachain(para_id)) }),
        (spec_reserve(parent_asset(amount)) == Some(origin)) <==> origin
            == MultiLocation::spec_parent(),
{
}

/// The test converter matches the parent's asset, `TokenA` of sibling parachain 1 and
/// `TokenB` of sibling parachain 2, whatever the amount, and no other sibling asset.
pub proof fn lemma_native_currencies_match(para_id: u32, key: [u8; 32], amount: u128)
    ensures
        IsNativeConcrete::<TestCurrencyId, CurrencyIdConvert>::spec_matches_fungible(
            parent_asset(amount),
        ) == Some(amount),
        IsNativeConcrete::<TestCurrencyId, CurrencyIdConvert>::spec_matches_fungible(
            sibling_asset(para_id, key, amount),
        ) == (if (para_id == 1 && key == key_of(token_a_name())) || (para_id == 2 && key == key_of(
            token_b_name(),
        )) {
            Some(amount)
        } else {
            None
        }),
{
}

} // verus!
