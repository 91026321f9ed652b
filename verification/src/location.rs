use vstd::prelude::*;

use crate::asset::{AssetId, Fungibility, MultiAsset};
use crate::junction::Junction;
use crate::multilocation::{lemma_junctions_seq_roundtrip, Junctions, MultiLocation};

verus! {

/// Whether a junction names a chain (a parachain).
pub open spec fn is_chain(j: Junction) -> bool {
    j is Parachain
}

/// The path left once the leading chain junctions are dropped.
pub open spec fn strip_chain_prefix(s: Seq<Junction>) -> Seq<Junction>
    decreases s.len(),
{
    if s.len() > 0 && is_chain(s[0]) {
        strip_chain_prefix(s.drop_first())
    } else {
        s
    }
}

/// The "chain" part of a location: the parent, a sibling parachain or a child parachain.
/// Every location with exactly one parent has a chain part (the parent itself when no
/// sibling parachain is named), so that an asset of the parent chain has the parent as
/// its reserve.
pub open spec fn spec_chain_part(l: MultiLocation) -> Option<MultiLocation> {
    let s = l.interior.as_seq();
    if l.parents == 0 && s.len() > 0 && s[0] is Parachain {
        Some(MultiLocation { parents: 0, interior: Junctions::X1(s[0]) })
    } else if l.parents == 1 && s.len() > 0 && s[0] is Parachain {
        Some(MultiLocation { parents: 1, interior: Junctions::X1(s[0]) })
    } else if l.parents == 1 {
        Some(MultiLocation::spec_parent())
    } else {
        None
    }
}

/// The "non-chain" part of a location: what is left of the interior once the leading
/// chain junctions are dropped, as a location with no parents; none when nothing is left.
pub open spec fn spec_non_chain_part(l: MultiLocation) -> Option<MultiLocation> {
    let rest = strip_chain_prefix(l.interior.as_seq());
    if rest.len() > 0 {
        Some(MultiLocation { parents: 0, interior: Junctions::from_seq(rest) })
    } else {
        None
    }
}

/// The reserve location of an asset: the chain part of a concrete fungible asset's location.
pub open spec fn spec_reserve(a: MultiAsset) -> Option<MultiLocation> {
    match (a.id, a.fun) {
        (AssetId::Concrete(id), Fungibility::Fungible(_)) => spec_chain_part(id),
        _ => None,
    }
}

pub trait Parse {
    /// Returns the "chain" location part. It could be parent, sibling
    /// parachain, or child parachain.
    fn chain_part(&self) -> Option<MultiLocation>;

    /// Returns "non-chain" location part.
    fn non_chain_part(&self) -> Option<MultiLocation>;
}

/// Whether the given junction (if any) is a chain junction.
pub fn is_chain_junction(junction: Option<&Junction>) -> (r: bool)
    ensures
        r == (junction matches Some(j) && is_chain(*j)),
{
    matches!(junction, Some(Junction::Parachain(_)))
}

proof fn lemma_interior_len(j: Junctions)
    ensures
        j.as_seq().len() <= 8,
{
}

impl Parse for MultiLocation {
    fn chain_part(&self) -> (r: Option<MultiLocation>)
        ensures
            r == spec_chain_part(*self),
    {
        match (self.parent_count(), self.first_interior()) {
            (0, Some(Junction::Parachain(id))) => Some(
                MultiLocation::new(0, Junctions::X1(Junction::Parachain(*id))),
            ),
            (1, Some(Junction::Parachain(id))) => Some(
                MultiLocation::new(1, Junctions::X1(Junction::Parachain(*id))),
            ),
            (1, _) => Some(MultiLocation::parent()),
            _ => None,
        }
    }

    fn non_chain_part(&self) -> (r: Option<MultiLocation>)
        ensures
            r == spec_non_chain_part(*self),
    {
        let mut location = *self;
        while is_chain_junction(location.first_interior())
            invariant
                strip_chain_prefix(location.interior.as_seq()) == strip_chain_prefix(
                    self.interior.as_seq(),
                ),
            decreases location.interior.as_seq().len(),
        {
            let _ = location.take_first_interior();
        }
        proof {
            lemma_interior_len(location.interior);
            lemma_junctions_seq_roundtrip(location.interior, location.interior.as_seq());
        }
        if location.first_interior().is_some() {
            Some(MultiLocation { parents: 0, interior: location.interior })
        } else {
            None
        }
    }
}

impl MultiLocation {
    /// The location of a general key on a sibling parachain:
    /// one parent, then the parachain, then the key.
    pub fn sibling_parachain_general_key(para_id: u32, general_key: [u8; 32]) -> (r: MultiLocation)
        ensures
            r == (MultiLocation {
                parents: 1,
                interior: Junctions::X2(
                    Junction::Parachain(para_id),
                    Junction::GeneralKey(general_key),
                ),
            }),
    {
        MultiLocation::new(
            1,
            Junctions::X2(Junction::Parachain(para_id), Junction::GeneralKey(general_key)),
        )
    }
}

impl MultiAsset {
    /// The given amount of the parent chain's native asset.
    pub fn parent_asset(amount: u128) -> (r: MultiAsset)
        ensures
            r == (MultiAsset {
                id: AssetId::Concrete(MultiLocation::spec_parent()),
                fun: Fungibility::Fungible(amount),
            }),
    {
        MultiAsset { id: AssetId::Concrete(MultiLocation::parent()), fun: Fungibility::Fungible(amount) }
    }

    /// The given amount of the asset that a general key names on a sibling parachain.
    pub fn sibling_parachain_asset(para_id: u32, general_key: [u8; 32], amount: u128) -> (r:
        MultiAsset)
        ensures
            r == (MultiAsset {
                id: AssetId::Concrete(
                    MultiLocation {
                        parents: 1,
                        interior: Junctions::X2(
                            Junction::Parachain(para_id),
                            Junction::GeneralKey(general_key),
                        ),
                    },
                ),
                fun: Fungibility::Fungible(amount),
            }),
    {
        MultiAsset {
            id: AssetId::Concrete(MultiLocation::sibling_parachain_general_key(para_id, general_key)),
            fun: Fungibility::Fungible(amount),
        }
    }
}

pub trait Reserve {
    /// Returns assets reserve location.
    fn reserve(&self) -> Option<MultiLocation>;
}

impl Reserve for MultiAsset {
    fn reserve(&self) -> (r: Option<MultiLocation>)
        ensures
            r == spec_reserve(*self),
    {
        match (&self.id, &self.fun) {
            (AssetId::Concrete(id), Fungibility::Fungible(_)) => id.chain_part(),
            _ => None,
        }
    }
}


/// The number of chain junctions at the head of a path.
pub open spec fn leading_chain_count(s: Seq<Junction>) -> nat
    decreases s.len(),
{
    if s.len() > 0 && is_chain(s[0]) {
        1 + leading_chain_count(s.drop_first())
    } else {
        0
    }
}

proof fn lemma_strip_chain_prefix(s: Seq<Junction>)
    ensures
        leading_chain_count(s) <= s.len(),
        strip_chain_prefix(s) == s.skip(leading_chain_count(s) as int),
        forall|i: int| 0 <= i < leading_chain_count(s) ==> is_chain(#[trigger] s[i]),
        leading_chain_count(s) < s.len() ==> !is_chain(s[leading_chain_count(s) as int]),
    decreases s.len(),
{
    if s.len() > 0 && is_chain(s[0]) {
        let t = s.drop_first();
        lemma_strip_chain_prefix(t);
        assert(s.skip(leading_chain_count(s) as int) =~= t.skip(leading_chain_count(t) as int));
        assert forall|i: int| 0 <= i < leading_chain_count(s) implies is_chain(#[trigger] s[i]) by {
            if i > 0 {
                assert(s[i] == t[i - 1]);
            }
        }
    } else {
        assert(s.skip(0) =~= s);
    }
}

/// The chain part of a location is a prefix of it: it keeps the parents and
/// at most the first junction of the interior.
pub proof fn lemma_chain_part_is_prefix(l: MultiLocation)
    ensures
        spec_chain_part(l) matches Some(c) ==> {
            &&& c.parents == l.parents
            &&& c.parents <= 1
            &&& c.interior.as_seq().len() <= 1
            &&& c.interior.as_seq() == l.interior.as_seq().take(c.interior.as_seq().len() as int)
        },
{
    if let Some(c) = spec_chain_part(l) {
        assert(c.interior.as_seq() =~= l.interior.as_seq().take(
            c.interior.as_seq().len() as int,
        ));
    }
}

/// The non-chain part of a location drops the parents and exactly the leading chain
/// junctions of the interior; it is there precisely when some other junction is left.
pub proof fn lemma_non_chain_part_is_suffix(l: MultiLocation)
    ensures
        ({
            let s = l.interior.as_seq();
            let k = leading_chain_count(s);
            &&& k <= s.len()
            &&& forall|i: int| 0 <= i < k ==> is_chain(#[trigger] s[i])
            &&& (spec_non_chain_part(l) is None <==> k == s.len())
            &&& spec_non_chain_part(l) matches Some(n) ==> {
                &&& n.parents == 0
                &&& n.interior.as_seq() == s.skip(k as int)
                &&& !is_chain(n.interior.as_seq()[0])
            }
        }),
{
    let s = l.interior.as_seq();
    lemma_strip_chain_prefix(s);
    lemma_interior_len(l.interior);
    lemma_junctions_seq_roundtrip(l.interior, strip_chain_prefix(s));
}

/// Taking the non-chain part twice gives the same as taking it once.
pub proof fn lemma_non_chain_part_idempotent(l: MultiLocation)
    ensures
        spec_non_chain_part(l) matches Some(n) ==> spec_non_chain_part(n) == Some(n),
{
    lemma_non_chain_part_is_suffix(l);
    if let Some(n) = spec_non_chain_part(l) {
        lemma_non_chain_part_is_suffix(n);
        lemma_junctions_seq_roundtrip(n.interior, n.interior.as_seq());
        assert(n.interior.as_seq().skip(0) =~= n.interior.as_seq());
    }
}

/// The non-chain part of a location has no chain part.
pub proof fn lemma_non_chain_part_has_no_chain_part(l: MultiLocation)
    ensures
        spec_non_chain_part(l) matches Some(n) ==> spec_chain_part(n) is None,
{
    lemma_non_chain_part_is_suffix(l);
}

/// A location with at most one parent and at most one leading chain junction is its
/// chain part followed by its non-chain part, when it has both.
pub proof fn lemma_chain_and_non_chain_parts_recompose(l: MultiLocation)
    requires
        l.parents <= 1,
        leading_chain_count(l.interior.as_seq()) <= 1,
    ensures
        (spec_chain_part(l), spec_non_chain_part(l)) matches (Some(c), Some(n)) ==> {
            &&& c.parents == l.parents
            &&& c.interior.as_seq() + n.interior.as_seq() == l.interior.as_seq()
        },
{
    let s = l.interior.as_seq();
    lemma_non_chain_part_is_suffix(l);
    if let (Some(c), Some(n)) = (spec_chain_part(l), spec_non_chain_part(l)) {
        assert(c.interior.as_seq() + n.interior.as_seq() =~= s);
    }
}

} // verus!
