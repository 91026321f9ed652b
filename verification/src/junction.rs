use vstd::prelude::*;

verus! {

broadcast use vstd::array::group_array_axioms;

/// A global consensus system that a junction may name.
#[derive(Clone, Copy, Debug, PartialEq, Eq, PartialOrd, Ord)]
pub enum NetworkId {
    ByGenesis([u8; 32]),
    Polkadot,
    Kusama,
    Westend,
    Rococo,
    Wococo,
    Ethereum { chain_id: u64 },
    BitcoinCore,
    BitcoinCash,
}

/// One step of a location's interior path.
#[derive(Clone, Copy, Debug, PartialEq, Eq, PartialOrd, Ord)]
pub enum Junction {
    /// A parachain, by its para id.
    Parachain(u32),
    /// A 32-byte account on an (optional) network.
    AccountId32 { network: Option<NetworkId>, id: [u8; 32] },
    /// An indexed account on an (optional) network.
    AccountIndex64 { network: Option<NetworkId>, index: u64 },
    /// A 20-byte account on an (optional) network.
    AccountKey20 { network: Option<NetworkId>, key: [u8; 20] },
    /// A pallet, by its index in the runtime.
    PalletInstance(u8),
    /// A nondescript index within the context location.
    GeneralIndex(u128),
    /// A nondescript 32-byte key within the context location.
    GeneralKey([u8; 32]),
    /// The unambiguous child.
    OnlyChild,
}

/// Byte-wise comparison of two fixed-size byte arrays.
pub fn bytes_eq<const N: usize>(a: &[u8; N], b: &[u8; N]) -> (r: bool)
    ensures
        r == (*a == *b),
{
    let mut i: usize = 0;
    while i < N
        invariant
            0 <= i <= N,
            a@.len() == N,
            b@.len() == N,
            forall|j: int| 0 <= j < i ==> a[j] == b[j],
        decreases N - i,
    {
        if a[i] != b[i] {
            return false;
        }
        i = i + 1;
    }
    assert(*a =~= *b);
    true
}

/// Equality of network identifiers.
pub fn network_eq(a: &NetworkId, b: &NetworkId) -> (r: bool)
    ensures
        r == (*a == *b),
{
    match (a, b) {
        (NetworkId::ByGenesis(x), NetworkId::ByGenesis(y)) => bytes_eq(x, y),
        (NetworkId::Polkadot, NetworkId::Polkadot) => true,
        (NetworkId::Kusama, NetworkId::Kusama) => true,
        (NetworkId::Westend, NetworkId::Westend) => true,
        (NetworkId::Rococo, NetworkId::Rococo) => true,
        (NetworkId::Wococo, NetworkId::Wococo) => true,
        (NetworkId::Ethereum { chain_id: x }, NetworkId::Ethereum { chain_id: y }) => *x == *y,
        (NetworkId::BitcoinCore, NetworkId::BitcoinCore) => true,
        (NetworkId::BitcoinCash, NetworkId::BitcoinCash) => true,
        _ => false,
    }
}

/// Equality of optional network identifiers.
pub fn opt_network_eq(a: &Option<NetworkId>, b: &Option<NetworkId>) -> (r: bool)
    ensures
        r == (*a == *b),
{
    match (a, b) {
        (Some(x), Some(y)) => network_eq(x, y),
        (None, None) => true,
        _ => false,
    }
}

/// Equality of junctions.
pub fn junction_eq(a: &Junction, b: &Junction) -> (r: bool)
    ensures
        r == (*a == *b),
{
    match (a, b) {
        (Junction::Parachain(x), Junction::Parachain(y)) => *x == *y,
        (
            Junction::AccountId32 { network: n1, id: x },
            Junction::AccountId32 { network: n2, id: y },
        ) => opt_network_eq(n1, n2) && bytes_eq(x, y),
        (
            Junction::AccountIndex64 { network: n1, index: x },
            Junction::AccountIndex64 { network: n2, index: y },
        ) => opt_network_eq(n1, n2) && *x == *y,
        (
            Junction::AccountKey20 { network: n1, key: x },
            Junction::AccountKey20 { network: n2, key: y },
        ) => opt_network_eq(n1, n2) && bytes_eq(x, y),
        (Junction::PalletInstance(x), Junction::PalletInstance(y)) => *x == *y,
        (Junction::GeneralIndex(x), Junction::GeneralIndex(y)) => *x == *y,
        (Junction::GeneralKey(x), Junction::GeneralKey(y)) => bytes_eq(x, y),
        (Junction::OnlyChild, Junction::OnlyChild) => true,
        _ => false,
    }
}

} // verus!
