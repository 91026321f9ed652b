use vstd::prelude::*;
use vstd::string::StringSliceAdditionalSpecFns;

use crate::asset::{
    fungible_position, holding_wf, spec_checked_sub, AssetId, Assets, AssetsModel, Fungibility,
    MultiAsset,
};
use crate::order::{order_asset_id, Order};
use crate::junction::{bytes_eq, Junction};
use crate::keys::{general_key, key_of, lemma_ascii_bytes, lemma_key_of_view};
use crate::multilocation::{Junctions, MultiLocation};
use crate::support::{sibling_key_location, Convert};

verus! {

/// The currencies of the chains in the relative-view test network.
#[derive(Clone, Copy, Debug, PartialEq, Eq, Structural)]
pub enum CurrencyId {
    R,
    A,
    A1,
    B,
    B1,
    B2,
    D,
}

/// The bytes of the name `A`.
pub open spec fn name_a() -> Seq<u8> {
    seq![65u8]
}

/// The bytes of the name `A1`.
pub open spec fn name_a1() -> Seq<u8> {
    seq![65u8, 49u8]
}

/// The bytes of the name `B`.
pub open spec fn name_b() -> Seq<u8> {
    seq![66u8]
}

/// The bytes of the name `B1`.
pub open spec fn name_b1() -> Seq<u8> {
    seq![66u8, 49u8]
}

/// The bytes of the name `B2`.
pub open spec fn name_b2() -> Seq<u8> {
    seq![66u8, 50u8]
}

/// The bytes of the name `D`.
pub open spec fn name_d() -> Seq<u8> {
    seq![68u8]
}

/// The general keys that name the currencies.
struct CurrencyKeys {
    a: [u8; 32],
    a1: [u8; 32],
    b: [u8; 32],
    b1: [u8; 32],
    b2: [u8; 32],
    d: [u8; 32],
}

/// Builds the general key of each currency from its name.
fn currency_keys() -> (keys: CurrencyKeys)
    ensures
        keys.a == key_of(name_a()),
        keys.a1 == key_of(name_a1()),
        keys.b == key_of(name_b()),
        keys.b1 == key_of(name_b1()),
        keys.b2 == key_of(name_b2()),
        keys.d == key_of(name_d()),
{
    proof {
        reveal_strlit("A");
        reveal_strlit("A1");
        reveal_strlit("B");
        reveal_strlit("B1");
        reveal_strlit("B2");
        reveal_strlit("D");
        lemma_ascii_bytes("A");
        lemma_ascii_bytes("A1");
        lemma_ascii_bytes("B");
        lemma_ascii_bytes("B1");
        lemma_ascii_bytes("B2");
        lemma_ascii_bytes("D");
        assert("A".spec_bytes() =~= name_a());
        assert("A1".spec_bytes() =~= name_a1());
        assert("B".spec_bytes() =~= name_b());
        assert("B1".spec_bytes() =~= name_b1());
        assert("B2".spec_bytes() =~= name_b2());
        assert("D".spec_bytes() =~= name_d());
    }
    let a = general_key("A");
    let a1 = general_key("A1");
    let b = general_key("B");
    let b1 = general_key("B1");
    let b2 = general_key("B2");
    let d = general_key("D");
    CurrencyKeys { a, a1, b, b1, b2, d }
}

/// The location of the general key `key` in the current consensus system.
pub open spec fn local_key_location(key: [u8; 32]) -> MultiLocation {
    MultiLocation { parents: 0, interior: Junctions::X1(Junction::GeneralKey(key)) }
}

/// Where each currency lives, as seen from the chains of the test network.
pub open spec fn currency_location(id: CurrencyId) -> MultiLocation {
    match id {
        CurrencyId::R => MultiLocation::spec_parent(),
        CurrencyId::A => sibling_key_location(1, key_of(name_a())),
        CurrencyId::A1 => sibling_key_location(1, key_of(name_a1())),
        CurrencyId::B => sibling_key_location(2, key_of(name_b())),
        CurrencyId::B1 => sibling_key_location(2, key_of(name_b1())),
        CurrencyId::B2 => sibling_key_location(2, key_of(name_b2())),
        CurrencyId::D => local_key_location(key_of(name_d())),
    }
}

/// The currency that a location names, seen from the chain with para id `self_para_id`.
pub open spec fn location_currency(l: MultiLocation, self_para_id: u32) -> Option<CurrencyId> {
    if l == MultiLocation::spec_parent() {
        Some(CurrencyId::R)
    } else if l.parents == 1 {
        if l == sibling_key_location(1, key_of(name_a())) {
            Some(CurrencyId::A)
        } else if l == sibling_key_location(1, key_of(name_a1())) {
            Some(CurrencyId::A1)
        } else if l == sibling_key_location(2, key_of(name_b())) {
            Some(CurrencyId::B)
        } else if l == sibling_key_location(2, key_of(name_b1())) {
            Some(CurrencyId::B1)
        } else if l == sibling_key_location(2, key_of(name_b2())) {
            Some(CurrencyId::B2)
        } else if l == sibling_key_location(self_para_id, key_of(name_d())) {
            Some(CurrencyId::D)
        } else {
            None
        }
    } else if l.parents == 0 {
        if l == local_key_location(key_of(name_a())) {
            Some(CurrencyId::A)
        } else if l == local_key_location(key_of(name_b())) {
            Some(CurrencyId::B)
        } else if l == local_key_location(key_of(name_a1())) {
            Some(CurrencyId::A1)
        } else if l == local_key_location(key_of(name_b1())) {
            Some(CurrencyId::B1)
        } else if l == local_key_location(key_of(name_b2())) {
            Some(CurrencyId::B2)
        } else if l == local_key_location(key_of(name_d())) {
            Some(CurrencyId::D)
        } else {
            None
        }
    } else {
        None
    }
}

/// Converts between currencies and locations for the chain whose para id is
/// `SELF_PARA_ID`: the relay token is the parent, `A`, `A1` live on sibling parachain 1,
/// `B`, `B1`, `B2` on sibling parachain 2, and `D` on the chain itself.
pub struct RelativeCurrencyIdConvert<const SELF_PARA_ID: u32>;

impl<const SELF_PARA_ID: u32> Convert<CurrencyId, Option<MultiLocation>> for RelativeCurrencyIdConvert<
    SELF_PARA_ID,
> {
    open spec fn spec_convert(id: CurrencyId) -> Option<MultiLocation> {
        Some(currency_location(id))
    }

    fn convert(id: CurrencyId) -> (r: Option<MultiLocation>) {
        let keys = currency_keys();
        match id {
            CurrencyId::R => Some(MultiLocation::parent()),
            CurrencyId::A => Some(MultiLocation::sibling_parachain_general_key(1, keys.a)),
            CurrencyId::A1 => Some(MultiLocation::sibling_parachain_general_key(1, keys.a1)),
            CurrencyId::B => Some(MultiLocation::sibling_parachain_general_key(2, keys.b)),
            CurrencyId::B1 => Some(MultiLocation::sibling_parachain_general_key(2, keys.b1)),
            CurrencyId::B2 => Some(MultiLocation::sibling_parachain_general_key(2, keys.b2)),
            CurrencyId::D => Some(
                MultiLocation::new(0, Junctions::X1(Junction::GeneralKey(keys.d))),
            ),
        }
    }
}

impl<const SELF_PARA_ID: u32> Convert<MultiLocation, Option<CurrencyId>> for RelativeCurrencyIdConvert<
    SELF_PARA_ID,
> {
    open spec fn spec_convert(l: MultiLocation) -> Option<CurrencyId> {
        location_currency(l, SELF_PARA_ID)
    }

    fn convert(l: MultiLocation) -> (r: Option<CurrencyId>) {
        let keys = currency_keys();
        let self_para_id: u32 = SELF_PARA_ID;
        if l.equals(&MultiLocation::parent()) {
            return Some(CurrencyId::R);
        }
        if l.parents == 1 {
            match l.interior {
                Junctions::X2(Junction::Parachain(para_id), Junction::GeneralKey(k)) => {
                    if para_id == 1 && bytes_eq(&k, &keys.a) {
                        Some(CurrencyId::A)
                    } else if para_id == 1 && bytes_eq(&k, &keys.a1) {
                        Some(CurrencyId::A1)
                    } else if para_id == 2 && bytes_eq(&k, &keys.b) {
                        Some(CurrencyId::B)
                    } else if para_id == 2 && bytes_eq(&k, &keys.b1) {
                        Some(CurrencyId::B1)
                    } else if para_id == 2 && bytes_eq(&k, &keys.b2) {
                        Some(CurrencyId::B2)
                    } else if bytes_eq(&k, &keys.d) && para_id == self_para_id {
                        Some(CurrencyId::D)
                    } else {
                        None
                    }
                },
                _ => None,
            }
        } else if l.parents == 0 {
            match l.interior {
                Junctions::X1(Junction::GeneralKey(k)) => {
                    if bytes_eq(&k, &keys.a) {
                        Some(CurrencyId::A)
                    } else if bytes_eq(&k, &keys.b) {
                        Some(CurrencyId::B)
                    } else if bytes_eq(&k, &keys.a1) {
                        Some(CurrencyId::A1)
                    } else if bytes_eq(&k, &keys.b1) {
                        Some(CurrencyId::B1)
                    } else if bytes_eq(&k, &keys.b2) {
                        Some(CurrencyId::B2)
                    } else if bytes_eq(&k, &keys.d) {
                        Some(CurrencyId::D)
                    } else {
                        None
                    }
                },
                _ => None,
            }
        } else {
            None
        }
    }
}

/// The currency of a concrete fungible asset, seen from the chain `self_para_id`.
pub open spec fn asset_currency(a: MultiAsset, self_para_id: u32) -> Option<CurrencyId> {
    match (a.fun, a.id) {
        (Fungibility::Fungible(_), AssetId::Concrete(id)) => location_currency(id, self_para_id),
        _ => None,
    }
}

impl<const SELF_PARA_ID: u32> Convert<MultiAsset, Option<CurrencyId>> for RelativeCurrencyIdConvert<
    SELF_PARA_ID,
> {
    open spec fn spec_convert(a: MultiAsset) -> Option<CurrencyId> {
        asset_currency(a, SELF_PARA_ID)
    }

    fn convert(a: MultiAsset) -> (r: Option<CurrencyId>) {
        if let (Fungibility::Fungible(_), AssetId::Concrete(id)) = (a.fun, a.id) {
            <RelativeCurrencyIdConvert<SELF_PARA_ID> as Convert<MultiLocation, Option<CurrencyId>>>::convert(id)
        } else {
            None
        }
    }
}

pub proof fn lemma_currency_keys_distinct()
    ensures
        key_of(name_a()) != key_of(name_a1()),
        key_of(name_a()) != key_of(name_b()),
        key_of(name_a()) != key_of(name_b1()),
        key_of(name_a()) != key_of(name_b2()),
        key_of(name_a()) != key_of(name_d()),
        key_of(name_a1()) != key_of(name_b()),
        key_of(name_a1()) != key_of(name_b1()),
        key_of(name_a1()) != key_of(name_b2()),
        key_of(name_a1()) != key_of(name_d()),
        key_of(name_b()) != key_of(name_b1()),
        key_of(name_b()) != key_of(name_b2()),
        key_of(name_b()) != key_of(name_d()),
        key_of(name_b1()) != key_of(name_b2()),
        key_of(name_b1()) != key_of(name_d()),
        key_of(name_b2()) != key_of(name_d()),
{
    lemma_key_of_view(name_a());
    lemma_key_of_view(name_a1());
    lemma_key_of_view(name_b());
    lemma_key_of_view(name_b1());
    lemma_key_of_view(name_b2());
    lemma_key_of_view(name_d());
    assert(key_of(name_a())@[0] == 65u8 && key_of(name_a())@[1] == 0u8);
    assert(key_of(name_a1())@[0] == 65u8 && key_of(name_a1())@[1] == 49u8);
    assert(key_of(name_b())@[0] == 66u8 && key_of(name_b())@[1] == 0u8);
    assert(key_of(name_b1())@[0] == 66u8 && key_of(name_b1())@[1] == 49u8);
    assert(key_of(name_b2())@[0] == 66u8 && key_of(name_b2())@[1] == 50u8);
    assert(key_of(name_d())@[0] == 68u8);
}

/// Converting a currency to its location and back gives the currency, on every chain.
pub proof fn lemma_currency_location_roundtrip(id: CurrencyId, self_para_id: u32)
    ensures
        location_currency(currency_location(id), self_para_id) == Some(id),
{
    lemma_currency_keys_distinct();
}

/// Converting a location to a currency and back gives the location when the location is
/// written as this chain writes that currency: through the parent for every currency
/// but `D`, and from the chain itself for `D`.
pub proof fn lemma_location_currency_roundtrip(l: MultiLocation, self_para_id: u32)
    ensures
        location_currency(l, self_para_id) matches Some(id) ==> ((l.parents == 1 && id
            != CurrencyId::D) || (l.parents == 0 && id == CurrencyId::D)) ==> currency_location(id)
            == l,
{
    lemma_currency_keys_distinct();
}

/// A concrete fungible asset is converted as its location is, whatever its amount.
pub proof fn lemma_asset_currency_ignores_amount(l: MultiLocation, x: u128, y: u128, self_para_id: u32)
    ensures
        asset_currency(
            MultiAsset { id: AssetId::Concrete(l), fun: Fungibility::Fungible(x) },
            self_para_id,
        ) == asset_currency(
            MultiAsset { id: AssetId::Concrete(l), fun: Fungibility::Fungible(y) },
            self_para_id,
        ),
        asset_currency(
            MultiAsset { id: AssetId::Concrete(l), fun: Fungibility::Fungible(x) },
            self_para_id,
        ) == location_currency(l, self_para_id),
{
}

/// Converts an account of the chain into its location: the account itself, on any network.
pub struct AccountIdToMultiLocation;

/// The location of a 32-byte account of the current consensus system.
pub open spec fn account_location(account: [u8; 32]) -> MultiLocation {
    MultiLocation {
        parents: 0,
        interior: Junctions::X1(Junction::AccountId32 { network: None, id: account }),
    }
}

impl Convert<[u8; 32], MultiLocation> for AccountIdToMultiLocation {
    open spec fn spec_convert(account: [u8; 32]) -> MultiLocation {
        account_location(account)
    }

    fn convert(account: [u8; 32]) -> (r: MultiLocation) {
        MultiLocation::new(0, Junctions::X1(Junction::AccountId32 { network: None, id: account }))
    }
}

/// The state of an outbound channel to a sibling parachain.
#[derive(Clone, Copy, Debug, PartialEq, Eq, Structural)]
pub enum ChannelStatus {
    /// The channel is closed.
    Closed,
    /// The channel is full.
    Full,
    /// The channel is ready: the largest message size and the largest total size
    /// of messages that may be sent now.
    Ready(usize, usize),
}

/// Channel information for the test network: every channel is ready and unbounded.
pub struct ChannelInfo;

impl ChannelInfo {
    /// Every channel is ready for messages of up to 10 bytes, 10 bytes in all.
    pub fn get_channel_status(_id: u32) -> (r: ChannelStatus)
        ensures
            r == ChannelStatus::Ready(10, 10),
    {
        ChannelStatus::Ready(10, 10)
    }

    /// Every channel takes messages of any size.
    pub fn get_channel_max(_id: u32) -> (r: Option<usize>)
        ensures
            r == Some(usize::MAX),
    {
        Some(usize::MAX)
    }
}

/// The destinations that the test network lets transfers go to: an account here or on
/// the relay chain, or an account on sibling parachain 1, 2, 3, 4 or 100.
pub open spec fn spec_parent_or_parachains(l: MultiLocation) -> bool {
    match (l.parents, l.interior) {
        (0, Junctions::X1(Junction::AccountId32 { .. })) => true,
        (1, Junctions::X1(Junction::AccountId32 { .. })) => true,
        (1, Junctions::X2(Junction::Parachain(p), Junction::AccountId32 { .. })) => p == 1 || p
            == 2 || p == 3 || p == 4 || p == 100,
        _ => false,
    }
}

/// Filters transfer destinations.
pub struct ParentOrParachains;

impl ParentOrParachains {
    /// Whether transfers may go to `l`.
    pub fn contains(l: &MultiLocation) -> (r: bool)
        ensures
            r == spec_parent_or_parachains(*l),
    {
        match (l.parents, &l.interior) {
            (0, Junctions::X1(Junction::AccountId32 { .. })) => true,
            (1, Junctions::X1(Junction::AccountId32 { .. })) => true,
            (1, Junctions::X2(Junction::Parachain(p), Junction::AccountId32 { .. })) => *p == 1
                || *p == 2 || *p == 3 || *p == 4 || *p == 100,
            _ => false,
        }
    }
}

/// The least fee for a transfer to `l`: 40 to sibling parachain 2, and no transfer
/// elsewhere can meet the fee.
pub open spec fn spec_parachain_min_fee(l: MultiLocation) -> u128 {
    if l.parents == 1 && l.interior.as_seq().len() > 0 && l.interior.as_seq()[0]
        == Junction::Parachain(2) {
        40
    } else {
        u128::MAX
    }
}

/// The least fee that a transfer must pay on its destination.
pub struct ParachainMinFee;

impl ParachainMinFee {
    /// The least fee for a transfer to `location`.
    pub fn get(location: &MultiLocation) -> (r: u128)
        ensures
            r == spec_parachain_min_fee(*location),
    {
        match (location.parents, location.first_interior()) {
            (1, Some(Junction::Parachain(2))) => 40,
            _ => u128::MAX,
        }
    }
}

/// The XCM errors that the trader raises.
#[derive(Clone, Copy, Debug, PartialEq, Eq, Structural)]
pub enum XcmError {
    /// The payment does not cover the weight.
    TooExpensive,
}

/// What `buy_weight` does: the trader takes `weight` units of the first fungible asset of
/// the payment, which in a well-formed holding is the one with the least asset identity
/// (and remembers that asset's location, when it has one), and hands back the rest.
pub open spec fn spec_buy_weight(trader: MultiLocation, weight: u64, payment: AssetsModel) -> (
    MultiLocation,
    Result<AssetsModel, XcmError>,
) {
    let asset_id = payment.fungible[0].0;
    let required = MultiAsset { id: asset_id, fun: Fungibility::Fungible(weight as u128) };
    let trader = match asset_id {
        AssetId::Concrete(id) => id,
        _ => trader,
    };
    (
        trader,
        match spec_checked_sub(payment, required) {
            Ok(unused) => Ok(unused),
            Err(_) => Err(XcmError::TooExpensive),
        },
    )
}

/// What `refund_weight` gives back: `weight` units of the last asset paid with.
pub open spec fn spec_refund_weight(trader: MultiLocation, weight: u64) -> Option<MultiAsset> {
    if weight == 0 {
        None
    } else {
        Some(MultiAsset { id: AssetId::Concrete(trader), fun: Fungibility::Fungible(weight as u128) })
    }
}

/// A trader who believes all tokens are created equal to "weight" of any chain,
/// which is not true, but good enough to mock the fee payment of XCM execution.
///
/// This mock will always trade `n` amount of weight to `n` amount of tokens.
pub struct AllTokensAreCreatedEqualToWeight(pub MultiLocation);

impl AllTokensAreCreatedEqualToWeight {
    /// A trader that has taken no payment yet: it refunds in the parent's token.
    pub fn new() -> (r: Self)
        ensures
            r.0 == MultiLocation::spec_parent(),
    {
        AllTokensAreCreatedEqualToWeight(MultiLocation::parent())
    }

    /// Buys `weight` with `payment`: takes `weight` units of the payment's least asset.
    pub fn buy_weight(&mut self, weight: u64, payment: Assets) -> (r: Result<Assets, XcmError>)
        requires
            payment.fungible@.len() > 0,
            payment.wf(),
        ensures
            ({
                let (trader, result) = spec_buy_weight(old(self).0, weight, payment@);
                &&& final(self).0 == trader
                &&& match (r, result) {
                    (Ok(x), Ok(y)) => x@ == y,
                    (Err(x), Err(y)) => x == y,
                    _ => false,
                }
            }),
            r matches Ok(x) ==> x.wf(),
    {
        let asset_id = payment.fungible[0].0;
        let required = MultiAsset { id: asset_id, fun: Fungibility::Fungible(weight as u128) };

        if let MultiAsset { fun: _, id: AssetId::Concrete(id) } = required {
            self.0 = id;
        }
        match payment.checked_sub(required) {
            Ok(unused) => Ok(unused),
            Err(_) => Err(XcmError::TooExpensive),
        }
    }

    /// Gives back `weight` units of the asset last paid with; nothing for no weight.
    pub fn refund_weight(&mut self, weight: u64) -> (r: Option<MultiAsset>)
        ensures
            r == spec_refund_weight(old(self).0, weight),
            final(self).0 == old(self).0,
    {
        if weight == 0 {
            None
        } else {
            Some(MultiAsset { id: AssetId::Concrete(self.0), fun: Fungibility::Fungible(weight as u128) })
        }
    }
}

/// In a well-formed holding the first fungible entry holds the least asset identity.
pub proof fn lemma_first_entry_is_least(payment: AssetsModel)
    requires
        holding_wf(payment),
        payment.fungible.len() > 0,
    ensures
        forall|i: int|
            0 < i < payment.fungible.len() ==> order_asset_id(
                payment.fungible[0].0,
                #[trigger] payment.fungible[i].0,
            ) == Order::Less,
{
}

/// The trader trades one unit of weight for one unit of the payment's least asset:
/// buying succeeds exactly when that asset's balance covers the weight, and then takes
/// exactly `weight` from it and leaves everything else.
pub proof fn lemma_buy_weight_one_for_one(trader: MultiLocation, weight: u64, payment: AssetsModel)
    requires
        holding_wf(payment),
        payment.fungible.len() > 0,
    ensures
        ({
            let (id, balance) = payment.fungible[0];
            let result = spec_buy_weight(trader, weight, payment).1;
            &&& forall|i: int|
                0 < i < payment.fungible.len() ==> order_asset_id(
                    id,
                    #[trigger] payment.fungible[i].0,
                ) == Order::Less
            &&& (result is Ok <==> balance >= weight)
            &&& result matches Ok(unused) ==> {
                &&& unused.non_fungible == payment.non_fungible
                &&& unused.fungible == (if balance == weight {
                    payment.fungible.drop_first()
                } else {
                    payment.fungible.update(0, (id, (balance - weight) as u128))
                })
            }
        }),
{
    lemma_first_entry_is_least(payment);
    assert(fungible_position(payment.fungible, payment.fungible[0].0) == 0);
    let (id, balance) = payment.fungible[0];
    if balance == weight {
        assert(payment.fungible.remove(0) =~= payment.fungible.drop_first());
    }
}

/// After paying with a holding whose least asset is concrete, refunds are made in that
/// asset, one unit of it for each unit of weight.
pub proof fn lemma_refund_in_asset_paid_with(
    trader: MultiLocation,
    weight: u64,
    payment: AssetsModel,
    refund: u64,
    l: MultiLocation,
)
    requires
        holding_wf(payment),
        payment.fungible.len() > 0,
        payment.fungible[0].0 == AssetId::Concrete(l),
        refund > 0,
    ensures
        spec_refund_weight(spec_buy_weight(trader, weight, payment).0, refund) == Some(
            MultiAsset { id: AssetId::Concrete(l), fun: Fungibility::Fungible(refund as u128) },
        ),
{
}

} // verus!
