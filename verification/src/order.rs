use vstd::prelude::*;

use crate::asset::AssetId;
use crate::junction::{Junction, NetworkId};
use crate::multilocation::{Junctions, MultiLocation};

verus! {

broadcast use vstd::array::group_array_axioms;

/// The outcome of comparing two values.
#[derive(Clone, Copy, Debug, PartialEq, Eq, Structural)]
pub enum Order {
    Less,
    Equal,
    Greater,
}

/// The order of two integers.
pub open spec fn order_int(a: int, b: int) -> Order {
    if a < b {
        Order::Less
    } else if a == b {
        Order::Equal
    } else {
        Order::Greater
    }
}

/// Lexicographic combination: the first comparison decides unless it is `Equal`.
pub open spec fn lex(first: Order, rest: Order) -> Order {
    if first is Equal {
        rest
    } else {
        first
    }
}

/// Lexicographic order of two sequences under an order of their elements;
/// a proper prefix comes first.
pub open spec fn order_seq<T>(a: Seq<T>, b: Seq<T>, c: spec_fn(T, T) -> Order) -> Order
    decreases a.len(),
{
    if a.len() == 0 {
        if b.len() == 0 {
            Order::Equal
        } else {
            Order::Less
        }
    } else if b.len() == 0 {
        Order::Greater
    } else {
        lex(c(a[0], b[0]), order_seq(a.drop_first(), b.drop_first(), c))
    }
}

/// The order of bytes.
pub open spec fn byte_order() -> spec_fn(u8, u8) -> Order {
    |x: u8, y: u8| order_int(x as int, y as int)
}

/// The lexicographic order of byte arrays.
pub open spec fn order_bytes(a: Seq<u8>, b: Seq<u8>) -> Order {
    order_seq(a, b, byte_order())
}

/// The position of a network identifier's variant in its declaration.
pub open spec fn network_index(n: NetworkId) -> int {
    match n {
        NetworkId::ByGenesis(_) => 0,
        NetworkId::Polkadot => 1,
        NetworkId::Kusama => 2,
        NetworkId::Westend => 3,
        NetworkId::Rococo => 4,
        NetworkId::Wococo => 5,
        NetworkId::Ethereum { .. } => 6,
        NetworkId::BitcoinCore => 7,
        NetworkId::BitcoinCash => 8,
    }
}

/// The order of network identifiers: by variant, then by the variant's fields.
pub open spec fn order_network(a: NetworkId, b: NetworkId) -> Order {
    lex(
        order_int(network_index(a), network_index(b)),
        match (a, b) {
            (NetworkId::ByGenesis(x), NetworkId::ByGenesis(y)) => order_bytes(x@, y@),
            (NetworkId::Ethereum { chain_id: x }, NetworkId::Ethereum { chain_id: y }) => order_int(
                x as int,
                y as int,
            ),
            _ => Order::Equal,
        },
    )
}

/// The order of optional network identifiers: none first.
pub open spec fn order_opt_network(a: Option<NetworkId>, b: Option<NetworkId>) -> Order {
    match (a, b) {
        (None, None) => Order::Equal,
        (None, Some(_)) => Order::Less,
        (Some(_), None) => Order::Greater,
        (Some(x), Some(y)) => order_network(x, y),
    }
}

/// The position of a junction's variant in its declaration.
pub open spec fn junction_index(j: Junction) -> int {
    match j {
        Junction::Parachain(_) => 0,
        Junction::AccountId32 { .. } => 1,
        Junction::AccountIndex64 { .. } => 2,
        Junction::AccountKey20 { .. } => 3,
        Junction::PalletInstance(_) => 4,
        Junction::GeneralIndex(_) => 5,
        Junction::GeneralKey(_) => 6,
        Junction::OnlyChild => 7,
    }
}

/// The order of junctions: by variant, then by the variant's fields in order.
pub open spec fn order_junction(a: Junction, b: Junction) -> Order {
    lex(
        order_int(junction_index(a), junction_index(b)),
        match (a, b) {
            (Junction::Parachain(x), Junction::Parachain(y)) => order_int(x as int, y as int),
            (
                Junction::AccountId32 { network: n1, id: x },
                Junction::AccountId32 { network: n2, id: y },
            ) => lex(order_opt_network(n1, n2), order_bytes(x@, y@)),
            (
                Junction::AccountIndex64 { network: n1, index: x },
                Junction::AccountIndex64 { network: n2, index: y },
            ) => lex(order_opt_network(n1, n2), order_int(x as int, y as int)),
            (
                Junction::AccountKey20 { network: n1, key: x },
                Junction::AccountKey20 { network: n2, key: y },
            ) => lex(order_opt_network(n1, n2), order_bytes(x@, y@)),
            (Junction::PalletInstance(x), Junction::PalletInstance(y)) => order_int(
                x as int,
                y as int,
            ),
            (Junction::GeneralIndex(x), Junction::GeneralIndex(y)) => order_int(x as int, y as int),
            (Junction::GeneralKey(x), Junction::GeneralKey(y)) => order_bytes(x@, y@),
            _ => Order::Equal,
        },
    )
}

/// The order of junctions, as a function value.
pub open spec fn junction_order() -> spec_fn(Junction, Junction) -> Order {
    |x: Junction, y: Junction| order_junction(x, y)
}

/// The order of interiors: by variant (that is, by the number of junctions), then by
/// the junctions in order.
pub open spec fn order_junctions(a: Junctions, b: Junctions) -> Order {
    lex(
        order_int(a.as_seq().len() as int, b.as_seq().len() as int),
        order_seq(a.as_seq(), b.as_seq(), junction_order()),
    )
}

/// The order of locations: by parents, then by interior.
pub open spec fn order_location(a: MultiLocation, b: MultiLocation) -> Order {
    lex(order_int(a.parents as int, b.parents as int), order_junctions(a.interior, b.interior))
}

/// The order of asset identities: concrete before abstract, then by the location or
/// by the name.
pub open spec fn order_asset_id(a: AssetId, b: AssetId) -> Order {
    match (a, b) {
        (AssetId::Concrete(x), AssetId::Concrete(y)) => order_location(x, y),
        (AssetId::Concrete(_), AssetId::Abstract(_)) => Order::Less,
        (AssetId::Abstract(_), AssetId::Concrete(_)) => Order::Greater,
        (AssetId::Abstract(x), AssetId::Abstract(y)) => order_bytes(x@, y@),
    }
}

/// One step of a lexicographic comparison.
pub proof fn lemma_order_seq_step<T>(a: Seq<T>, b: Seq<T>, i: int, c: spec_fn(T, T) -> Order)
    requires
        0 <= i < a.len(),
        i < b.len(),
    ensures
        order_seq(a.skip(i), b.skip(i), c) == lex(c(a[i], b[i]), order_seq(a.skip(i + 1), b.skip(i + 1), c)),
{
    assert(a.skip(i).drop_first() =~= a.skip(i + 1));
    assert(b.skip(i).drop_first() =~= b.skip(i + 1));
}

/// The order of two unsigned integers.
pub fn compare_u128(a: u128, b: u128) -> (r: Order)
    ensures
        r == order_int(a as int, b as int),
{
    if a < b {
        Order::Less
    } else if a == b {
        Order::Equal
    } else {
        Order::Greater
    }
}

/// Lexicographic order of two byte arrays.
pub fn bytes_compare<const N: usize>(a: &[u8; N], b: &[u8; N]) -> (r: Order)
    ensures
        r == order_bytes(a@, b@),
{
    assert(a@.skip(0) =~= a@);
    assert(b@.skip(0) =~= b@);
    let mut i: usize = 0;
    while i < N
        invariant
            0 <= i <= N,
            a@.len() == N,
            b@.len() == N,
            order_bytes(a@, b@) == order_seq(a@.skip(i as int), b@.skip(i as int), byte_order()),
        decreases N - i,
    {
        proof {
            lemma_order_seq_step(a@, b@, i as int, byte_order());
        }
        if a[i] < b[i] {
            return Order::Less;
        } else if a[i] > b[i] {
            return Order::Greater;
        }
        i = i + 1;
    }
    assert(a@.skip(N as int).len() == 0 && b@.skip(N as int).len() == 0);
    Order::Equal
}

fn lex_exec(first: Order, rest: Order) -> (r: Order)
    ensures
        r == lex(first, rest),
{
    match first {
        Order::Equal => rest,
        _ => first,
    }
}

fn network_index_exec(n: &NetworkId) -> (r: u128)
    ensures
        r == network_index(*n),
{
    match n {
        NetworkId::ByGenesis(_) => 0,
        NetworkId::Polkadot => 1,
        NetworkId::Kusama => 2,
        NetworkId::Westend => 3,
        NetworkId::Rococo => 4,
        NetworkId::Wococo => 5,
        NetworkId::Ethereum { .. } => 6,
        NetworkId::BitcoinCore => 7,
        NetworkId::BitcoinCash => 8,
    }
}

/// The order of network identifiers.
pub fn network_compare(a: &NetworkId, b: &NetworkId) -> (r: Order)
    ensures
        r == order_network(*a, *b),
{
    let first = compare_u128(network_index_exec(a), network_index_exec(b));
    let rest = match (a, b) {
        (NetworkId::ByGenesis(x), NetworkId::ByGenesis(y)) => bytes_compare(x, y),
        (NetworkId::Ethereum { chain_id: x }, NetworkId::Ethereum { chain_id: y }) => compare_u128(
            *x as u128,
            *y as u128,
        ),
        _ => Order::Equal,
    };
    lex_exec(first, rest)
}

/// The order of optional network identifiers.
pub fn opt_network_compare(a: &Option<NetworkId>, b: &Option<NetworkId>) -> (r: Order)
    ensures
        r == order_opt_network(*a, *b),
{
    match (a, b) {
        (None, None) => Order::Equal,
        (None, Some(_)) => Order::Less,
        (Some(_), None) => Order::Greater,
        (Some(x), Some(y)) => network_compare(x, y),
    }
}

fn junction_index_exec(j: &Junction) -> (r: u128)
    ensures
        r == junction_index(*j),
{
    match j {
        Junction::Parachain(_) => 0,
        Junction::AccountId32 { .. } => 1,
        Junction::AccountIndex64 { .. } => 2,
        Junction::AccountKey20 { .. } => 3,
        Junction::PalletInstance(_) => 4,
        Junction::GeneralIndex(_) => 5,
        Junction::GeneralKey(_) => 6,
        Junction::OnlyChild => 7,
    }
}

/// The order of junctions.
pub fn junction_compare(a: &Junction, b: &Junction) -> (r: Order)
    ensures
        r == order_junction(*a, *b),
{
    let first = compare_u128(junction_index_exec(a), junction_index_exec(b));
    let rest = match (a, b) {
        (Junction::Parachain(x), Junction::Parachain(y)) => compare_u128(*x as u128, *y as u128),
        (
            Junction::AccountId32 { network: n1, id: x },
            Junction::AccountId32 { network: n2, id: y },
        ) => lex_exec(opt_network_compare(n1, n2), bytes_compare(x, y)),
        (
            Junction::AccountIndex64 { network: n1, index: x },
            Junction::AccountIndex64 { network: n2, index: y },
        ) => lex_exec(opt_network_compare(n1, n2), compare_u128(*x as u128, *y as u128)),
        (
            Junction::AccountKey20 { network: n1, key: x },
            Junction::AccountKey20 { network: n2, key: y },
        ) => lex_exec(opt_network_compare(n1, n2), bytes_compare(x, y)),
        (Junction::PalletInstance(x), Junction::PalletInstance(y)) => compare_u128(
            *x as u128,
            *y as u128,
        ),
        (Junction::GeneralIndex(x), Junction::GeneralIndex(y)) => compare_u128(*x, *y),
        (Junction::GeneralKey(x), Junction::GeneralKey(y)) => bytes_compare(x, y),
        _ => Order::Equal,
    };
    lex_exec(first, rest)
}

/// The junctions of an interior, outermost first.
fn junctions_to_vec(j: &Junctions) -> (v: Vec<Junction>)
    ensures
        v@ == j.as_seq(),
{
    let mut v: Vec<Junction> = Vec::new();
    let mut rest = *j;
    while rest.len() > 0
        invariant
            v@ + rest.as_seq() == j.as_seq(),
        decreases rest.as_seq().len(),
    {
        let (r, first) = rest.split_first();
        let ghost old_rest = rest.as_seq();
        match first {
            Some(f) => {
                v.push(f);
            },
            None => {},
        }
        rest = r;
        assert(v@ + rest.as_seq() =~= j.as_seq()) by {
            assert(old_rest =~= seq![old_rest[0]] + old_rest.drop_first());
        }
    }
    assert(v@ =~= j.as_seq());
    v
}

/// The order of interiors.
pub fn junctions_compare(a: &Junctions, b: &Junctions) -> (r: Order)
    ensures
        r == order_junctions(*a, *b),
{
    let la = a.len();
    let lb = b.len();
    if la < lb {
        return Order::Less;
    } else if la > lb {
        return Order::Greater;
    }
    let va = junctions_to_vec(a);
    let vb = junctions_to_vec(b);
    assert(va@.skip(0) =~= va@);
    assert(vb@.skip(0) =~= vb@);
    let mut i: usize = 0;
    while i < la
        invariant
            0 <= i <= la,
            va@.len() == la,
            vb@.len() == la,
            va@ == a.as_seq(),
            vb@ == b.as_seq(),
            order_junctions(*a, *b) == order_seq(
                va@.skip(i as int),
                vb@.skip(i as int),
                junction_order(),
            ),
        decreases la - i,
    {
        proof {
            lemma_order_seq_step(va@, vb@, i as int, junction_order());
        }
        let c = junction_compare(&va[i], &vb[i]);
        assert(junction_order()(va@[i as int], vb@[i as int]) == c);
        match c {
            Order::Equal => {},
            _ => {
                return c;
            },
        }
        i = i + 1;
    }
    assert(va@.skip(la as int).len() == 0 && vb@.skip(la as int).len() == 0);
    Order::Equal
}

/// The order of locations.
pub fn location_compare(a: &MultiLocation, b: &MultiLocation) -> (r: Order)
    ensures
        r == order_location(*a, *b),
{
    lex_exec(compare_u128(a.parents as u128, b.parents as u128), junctions_compare(&a.interior, &b.interior))
}

/// The order of asset identities.
pub fn asset_id_compare(a: &AssetId, b: &AssetId) -> (r: Order)
    ensures
        r == order_asset_id(*a, *b),
{
    match (a, b) {
        (AssetId::Concrete(x), AssetId::Concrete(y)) => location_compare(x, y),
        (AssetId::Concrete(_), AssetId::Abstract(_)) => Order::Less,
        (AssetId::Abstract(_), AssetId::Concrete(_)) => Order::Greater,
        (AssetId::Abstract(x), AssetId::Abstract(y)) => bytes_compare(x, y),
    }
}

/// The outcome of comparing the other way round.
pub open spec fn flip(o: Order) -> Order {
    match o {
        Order::Less => Order::Greater,
        Order::Equal => Order::Equal,
        Order::Greater => Order::Less,
    }
}

proof fn lemma_order_seq_laws<T>(a: Seq<T>, b: Seq<T>, c: spec_fn(T, T) -> Order)
    requires
        forall|x: T| #[trigger] c(x, x) == Order::Equal,
        forall|x: T, y: T| #[trigger] c(x, y) == flip(c(y, x)),
    ensures
        order_seq(a, a, c) == Order::Equal,
        order_seq(a, b, c) == flip(order_seq(b, a, c)),
    decreases a.len(),
{
    if a.len() > 0 {
        lemma_order_seq_laws(a.drop_first(), a.drop_first(), c);
        if b.len() > 0 {
            lemma_order_seq_laws(a.drop_first(), b.drop_first(), c);
            assert(c(a[0], b[0]) == flip(c(b[0], a[0])));
        }
    }
}

proof fn lemma_byte_order_laws()
    ensures
        forall|x: u8| #[trigger] byte_order()(x, x) == Order::Equal,
        forall|x: u8, y: u8| #[trigger] byte_order()(x, y) == flip(byte_order()(y, x)),
{
}

proof fn lemma_bytes_laws(a: Seq<u8>, b: Seq<u8>)
    ensures
        order_bytes(a, a) == Order::Equal,
        order_bytes(a, b) == flip(order_bytes(b, a)),
{
    lemma_byte_order_laws();
    lemma_order_seq_laws(a, b, byte_order());
}

proof fn lemma_opt_network_laws(a: Option<NetworkId>, b: Option<NetworkId>)
    ensures
        order_opt_network(a, a) == Order::Equal,
        order_opt_network(a, b) == flip(order_opt_network(b, a)),
{
    if let (Some(NetworkId::ByGenesis(x)), Some(NetworkId::ByGenesis(y))) = (a, b) {
        lemma_bytes_laws(x@, y@);
    }
    if let Some(NetworkId::ByGenesis(x)) = a {
        lemma_bytes_laws(x@, x@);
    }
}

proof fn lemma_junction_laws(a: Junction, b: Junction)
    ensures
        order_junction(a, a) == Order::Equal,
        order_junction(a, b) == flip(order_junction(b, a)),
{
    match (a, b) {
        (
            Junction::AccountId32 { network: n1, id: x },
            Junction::AccountId32 { network: n2, id: y },
        ) => {
            lemma_opt_network_laws(n1, n2);
            lemma_bytes_laws(x@, y@);
        },
        (
            Junction::AccountIndex64 { network: n1, .. },
            Junction::AccountIndex64 { network: n2, .. },
        ) => {
            lemma_opt_network_laws(n1, n2);
        },
        (
            Junction::AccountKey20 { network: n1, key: x },
            Junction::AccountKey20 { network: n2, key: y },
        ) => {
            lemma_opt_network_laws(n1, n2);
            lemma_bytes_laws(x@, y@);
        },
        (Junction::GeneralKey(x), Junction::GeneralKey(y)) => {
            lemma_bytes_laws(x@, y@);
        },
        _ => {},
    }
    match a {
        Junction::AccountId32 { network: n, id: x } => {
            lemma_opt_network_laws(n, n);
            lemma_bytes_laws(x@, x@);
        },
        Junction::AccountIndex64 { network: n, .. } => {
            lemma_opt_network_laws(n, n);
        },
        Junction::AccountKey20 { network: n, key: x } => {
            lemma_opt_network_laws(n, n);
            lemma_bytes_laws(x@, x@);
        },
        Junction::GeneralKey(x) => {
            lemma_bytes_laws(x@, x@);
        },
        _ => {},
    }
}

/// The order of asset identities is reflexive and antisymmetric: every identity equals
/// itself, and comparing the other way round flips the outcome.
pub proof fn law_asset_id_order(a: AssetId, b: AssetId)
    ensures
        order_asset_id(a, a) == Order::Equal,
        order_asset_id(a, b) == flip(order_asset_id(b, a)),
{
    assert forall|x: Junction| #[trigger] junction_order()(x, x) == Order::Equal by {
        lemma_junction_laws(x, x);
    }
    assert forall|x: Junction, y: Junction| #[trigger] junction_order()(x, y) == flip(
        junction_order()(y, x),
    ) by {
        lemma_junction_laws(x, y);
    }
    match (a, b) {
        (AssetId::Concrete(x), AssetId::Concrete(y)) => {
            lemma_order_seq_laws(x.interior.as_seq(), y.interior.as_seq(), junction_order());
        },
        (AssetId::Abstract(x), AssetId::Abstract(y)) => {
            lemma_bytes_laws(x@, y@);
        },
        _ => {},
    }
    match a {
        AssetId::Concrete(x) => {
            lemma_order_seq_laws(x.interior.as_seq(), x.interior.as_seq(), junction_order());
        },
        AssetId::Abstract(x) => {
            lemma_bytes_laws(x@, x@);
        },
    }
}

/// Concrete assets come before abstract ones; a location with fewer parents comes first;
/// with equal parents, one with fewer junctions comes first; so the parent's asset comes
/// before the asset of any sibling parachain.
pub proof fn law_asset_id_order_shape(l1: MultiLocation, l2: MultiLocation, name: [u8; 32], p: u32)
    ensures
        order_asset_id(AssetId::Concrete(l1), AssetId::Abstract(name)) == Order::Less,
        l1.parents < l2.parents ==> order_asset_id(AssetId::Concrete(l1), AssetId::Concrete(l2))
            == Order::Less,
        l1.parents == l2.parents && l1.interior.as_seq().len() < l2.interior.as_seq().len()
            ==> order_asset_id(AssetId::Concrete(l1), AssetId::Concrete(l2)) == Order::Less,
        order_asset_id(
            AssetId::Concrete(MultiLocation { parents: 1, interior: Junctions::Here }),
            AssetId::Concrete(
                MultiLocation { parents: 1, interior: Junctions::X1(Junction::Parachain(p)) },
            ),
        ) == Order::Less,
{
}

} // verus!
