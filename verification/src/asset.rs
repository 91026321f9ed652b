use vstd::prelude::*;

use crate::junction::bytes_eq;
use crate::order::{asset_id_compare, order_asset_id, Order};
use crate::multilocation::MultiLocation;

verus! {

/// How an asset is identified.
#[derive(Clone, Copy, Debug, PartialEq, Eq, PartialOrd, Ord)]
pub enum AssetId {
    /// By the location of its definition.
    Concrete(MultiLocation),
    /// By an abstract 32-byte name.
    Abstract([u8; 32]),
}

/// Which instance of a non-fungible asset class.
#[derive(Clone, Copy, Debug, PartialEq, Eq, PartialOrd, Ord)]
pub enum AssetInstance {
    Undefined,
    Index(u128),
    Array4([u8; 4]),
    Array8([u8; 8]),
    Array16([u8; 16]),
    Array32([u8; 32]),
}

/// Whether an asset is fungible (with an amount) or a single non-fungible instance.
#[derive(Clone, Copy, Debug, PartialEq, Eq)]
pub enum Fungibility {
    Fungible(u128),
    NonFungible(AssetInstance),
}

/// A single asset: its identity and how much of it (or which instance).
#[derive(Clone, Copy, Debug, PartialEq, Eq)]
pub struct MultiAsset {
    pub id: AssetId,
    pub fun: Fungibility,
}

/// Equality of asset identities.
pub fn asset_id_eq(a: &AssetId, b: &AssetId) -> (r: bool)
    ensures
        r == (*a == *b),
{
    match (a, b) {
        (AssetId::Concrete(x), AssetId::Concrete(y)) => x.equals(y),
        (AssetId::Abstract(x), AssetId::Abstract(y)) => bytes_eq(x, y),
        _ => false,
    }
}

/// Equality of non-fungible instances.
pub fn asset_instance_eq(a: &AssetInstance, b: &AssetInstance) -> (r: bool)
    ensures
        r == (*a == *b),
{
    match (a, b) {
        (AssetInstance::Undefined, AssetInstance::Undefined) => true,
        (AssetInstance::Index(x), AssetInstance::Index(y)) => *x == *y,
        (AssetInstance::Array4(x), AssetInstance::Array4(y)) => bytes_eq(x, y),
        (AssetInstance::Array8(x), AssetInstance::Array8(y)) => bytes_eq(x, y),
        (AssetInstance::Array16(x), AssetInstance::Array16(y)) => bytes_eq(x, y),
        (AssetInstance::Array32(x), AssetInstance::Array32(y)) => bytes_eq(x, y),
        _ => false,
    }
}

/// What a holding of assets contains.
pub struct AssetsModel {
    pub fungible: Seq<(AssetId, u128)>,
    pub non_fungible: Seq<(AssetId, AssetInstance)>,
}

/// A holding of assets: the balance of each fungible asset (in the holding's order of
/// asset identities) and the non-fungible instances.
#[derive(Debug, PartialEq, Eq)]
pub struct Assets {
    pub fungible: Vec<(AssetId, u128)>,
    pub non_fungible: Vec<(AssetId, AssetInstance)>,
}

impl View for Assets {
    type V = AssetsModel;

    open spec fn view(&self) -> AssetsModel {
        AssetsModel { fungible: self.fungible@, non_fungible: self.non_fungible@ }
    }
}

/// The index of the first fungible entry for `id`, or the length when there is none.
pub open spec fn fungible_position(f: Seq<(AssetId, u128)>, id: AssetId) -> int
    decreases f.len(),
{
    if f.len() == 0 {
        0
    } else if f[0].0 == id {
        0
    } else {
        1 + fungible_position(f.drop_first(), id)
    }
}

/// The index of the first occurrence of `item`, or the length when there is none.
pub open spec fn instance_position(
    s: Seq<(AssetId, AssetInstance)>,
    item: (AssetId, AssetInstance),
) -> int
    decreases s.len(),
{
    if s.len() == 0 {
        0
    } else if s[0] == item {
        0
    } else {
        1 + instance_position(s.drop_first(), item)
    }
}

/// The holding left once `asset` is taken out of `m`, or `m` itself when `m` does not
/// hold enough of it.
pub open spec fn spec_checked_sub(m: AssetsModel, asset: MultiAsset) -> Result<AssetsModel, AssetsModel> {
    match asset.fun {
        Fungibility::Fungible(amount) => {
            let i = fungible_position(m.fungible, asset.id);
            if i < m.fungible.len() && m.fungible[i].1 >= amount {
                let balance = m.fungible[i].1;
                Ok(AssetsModel {
                    fungible: if balance == amount {
                        m.fungible.remove(i)
                    } else {
                        m.fungible.update(i, (asset.id, (balance - amount) as u128))
                    },
                    non_fungible: m.non_fungible,
                })
            } else {
                Err(m)
            }
        },
        Fungibility::NonFungible(instance) => {
            let j = instance_position(m.non_fungible, (asset.id, instance));
            if j < m.non_fungible.len() {
                Ok(AssetsModel { fungible: m.fungible, non_fungible: m.non_fungible.remove(j) })
            } else {
                Err(m)
            }
        },
    }
}

/// The fungible entries are in strictly increasing order of asset identity.
pub open spec fn fungible_sorted(f: Seq<(AssetId, u128)>) -> bool {
    forall|i: int, j: int|
        0 <= i < j < f.len() ==> order_asset_id(#[trigger] f[i].0, #[trigger] f[j].0)
            == Order::Less
}

/// No non-fungible instance appears twice.
pub open spec fn instances_distinct(nf: Seq<(AssetId, AssetInstance)>) -> bool {
    forall|i: int, j: int| 0 <= i < j < nf.len() ==> #[trigger] nf[i] != #[trigger] nf[j]
}

/// A holding is well formed when its fungible entries are in strictly increasing order of
/// asset identity and no non-fungible instance appears twice.
pub open spec fn holding_wf(m: AssetsModel) -> bool {
    &&& fungible_sorted(m.fungible)
    &&& instances_distinct(m.non_fungible)
}

impl Assets {
    /// The fungible entries are in strictly increasing order of asset identity (so the
    /// first entry holds the least asset), and no non-fungible instance is held twice.
    pub open spec fn wf(&self) -> bool {
        holding_wf(self@)
    }

    /// Whether the holding is well formed.
    pub fn is_well_formed(&self) -> (r: bool)
        ensures
            r == self.wf(),
    {
        let n = self.fungible.len();
        let mut i: usize = 0;
        while i < n
            invariant
                n == self.fungible@.len(),
                0 <= i <= n,
                forall|a: int, b: int|
                    0 <= a < i && a < b < n ==> order_asset_id(
                        #[trigger] self.fungible@[a].0,
                        #[trigger] self.fungible@[b].0,
                    ) == Order::Less,
            decreases n - i,
        {
            let mut j: usize = i + 1;
            while j < n
                invariant
                    n == self.fungible@.len(),
                    0 <= i < n,
                    i + 1 <= j <= n,
                    forall|a: int, b: int|
                        0 <= a < i && a < b < n ==> order_asset_id(
                            #[trigger] self.fungible@[a].0,
                            #[trigger] self.fungible@[b].0,
                        ) == Order::Less,
                    forall|b: int|
                        i < b < j ==> order_asset_id(
                            self.fungible@[i as int].0,
                            #[trigger] self.fungible@[b].0,
                        ) == Order::Less,
                decreases n - j,
            {
                match asset_id_compare(&self.fungible[i].0, &self.fungible[j].0) {
                    Order::Less => {},
                    _ => {
                        return false;
                    },
                }
                j = j + 1;
            }
            i = i + 1;
        }
        let m = self.non_fungible.len();
        let mut i: usize = 0;
        while i < m
            invariant
                m == self.non_fungible@.len(),
                0 <= i <= m,
                forall|a: int, b: int|
                    0 <= a < i && a < b < m ==> #[trigger] self.non_fungible@[a]
                        != #[trigger] self.non_fungible@[b],
            decreases m - i,
        {
            let mut j: usize = i + 1;
            while j < m
                invariant
                    m == self.non_fungible@.len(),
                    0 <= i < m,
                    i + 1 <= j <= m,
                    forall|a: int, b: int|
                        0 <= a < i && a < b < m ==> #[trigger] self.non_fungible@[a]
                            != #[trigger] self.non_fungible@[b],
                    forall|b: int|
                        i < b < j ==> self.non_fungible@[i as int]
                            != #[trigger] self.non_fungible@[b],
                decreases m - j,
            {
                let (id1, inst1) = self.non_fungible[i];
                let (id2, inst2) = self.non_fungible[j];
                if asset_id_eq(&id1, &id2) && asset_instance_eq(&inst1, &inst2) {
                    assert(self@.non_fungible[i as int] == self@.non_fungible[j as int]);
                    return false;
                }
                j = j + 1;
            }
            i = i + 1;
        }
        true
    }

    /// The empty holding.
    pub fn new() -> (r: Assets)
        ensures
            r@.fungible == Seq::<(AssetId, u128)>::empty(),
            r@.non_fungible == Seq::<(AssetId, AssetInstance)>::empty(),
            r.wf(),
    {
        Assets { fungible: Vec::new(), non_fungible: Vec::new() }
    }

    /// Takes `asset` out of the holding; gives the holding back unchanged when it does
    /// not hold enough of it.
    pub fn checked_sub(self, asset: MultiAsset) -> (r: Result<Assets, Assets>)
        ensures
            (match r {
                Ok(x) => Ok(x@),
                Err(x) => Err(x@),
            }) == spec_checked_sub(self@, asset),
            self.wf() ==> (r matches Ok(x) ==> x.wf()),
    {
        proof {
            if self.wf() {
                lemma_checked_sub_keeps_wf(self@, asset);
            }
        }
        let mut this = self;
        match asset.fun {
            Fungibility::Fungible(amount) => {
                let mut i: usize = 0;
                while i < this.fungible.len()
                    invariant
                        this@ == self@,
                        0 <= i <= self.fungible@.len(),
                        forall|j: int| 0 <= j < i ==> self.fungible@[j].0 != asset.id,
                    ensures
                        this@ == self@,
                        0 <= i <= self.fungible@.len(),
                        forall|j: int| 0 <= j < i ==> self.fungible@[j].0 != asset.id,
                        i < self.fungible@.len() ==> self.fungible@[i as int].0 == asset.id,
                    decreases self.fungible@.len() - i,
                {
                    if asset_id_eq(&this.fungible[i].0, &asset.id) {
                        break;
                    }
                    i = i + 1;
                }
                proof {
                    lemma_fungible_position(self.fungible@, asset.id, i as int);
                }
                if i == this.fungible.len() {
                    return Err(this);
                }
                let balance = this.fungible[i].1;
                if balance < amount {
                    return Err(this);
                }
                if balance == amount {
                    this.fungible.remove(i);
                } else {
                    this.fungible.set(i, (asset.id, balance - amount));
                }
                Ok(this)
            },
            Fungibility::NonFungible(instance) => {
                let mut j: usize = 0;
                while j < this.non_fungible.len()
                    invariant
                        this@ == self@,
                        0 <= j <= self.non_fungible@.len(),
                        forall|k: int| 0 <= k < j ==> self.non_fungible@[k] != (asset.id, instance),
                    ensures
                        this@ == self@,
                        0 <= j <= self.non_fungible@.len(),
                        forall|k: int| 0 <= k < j ==> self.non_fungible@[k] != (asset.id, instance),
                        j < self.non_fungible@.len() ==> self.non_fungible@[j as int] == (
                            asset.id,
                            instance,
                        ),
                    decreases self.non_fungible@.len() - j,
                {
                    let (id, inst) = this.non_fungible[j];
                    if asset_id_eq(&id, &asset.id) && asset_instance_eq(&inst, &instance) {
                        break;
                    }
                    j = j + 1;
                }
                proof {
                    lemma_instance_position(self.non_fungible@, (asset.id, instance), j as int);
                }
                if j == this.non_fungible.len() {
                    return Err(this);
                }
                this.non_fungible.remove(j);
                Ok(this)
            },
        }
    }
}

proof fn lemma_fungible_position(f: Seq<(AssetId, u128)>, id: AssetId, i: int)
    requires
        0 <= i <= f.len(),
        forall|j: int| 0 <= j < i ==> f[j].0 != id,
        i < f.len() ==> f[i].0 == id,
    ensures
        fungible_position(f, id) == i,
    decreases f.len(),
{
    if f.len() > 0 && i > 0 {
        let t = f.drop_first();
        assert forall|j: int| 0 <= j < i - 1 implies t[j].0 != id by {
            assert(t[j] == f[j + 1]);
        }
        lemma_fungible_position(t, id, i - 1);
    }
}

proof fn lemma_instance_position(
    s: Seq<(AssetId, AssetInstance)>,
    item: (AssetId, AssetInstance),
    j: int,
)
    requires
        0 <= j <= s.len(),
        forall|k: int| 0 <= k < j ==> s[k] != item,
        j < s.len() ==> s[j] == item,
    ensures
        instance_position(s, item) == j,
    decreases s.len(),
{
    if s.len() > 0 && j > 0 {
        let t = s.drop_first();
        assert forall|k: int| 0 <= k < j - 1 implies t[k] != item by {
            assert(t[k] == s[k + 1]);
        }
        lemma_instance_position(t, item, j - 1);
    }
}

proof fn lemma_remove_keeps_sorted(f: Seq<(AssetId, u128)>, i: int)
    requires
        fungible_sorted(f),
        0 <= i < f.len(),
    ensures
        fungible_sorted(f.remove(i)),
{
    let x = f.remove(i);
    assert forall|a: int, b: int| 0 <= a < b < x.len() implies order_asset_id(
        #[trigger] x[a].0,
        #[trigger] x[b].0,
    ) == Order::Less by {
        let a0 = if a < i { a } else { a + 1 };
        let b0 = if b < i { b } else { b + 1 };
        assert(x[a] == f[a0]);
        assert(x[b] == f[b0]);
    }
}

proof fn lemma_update_keeps_sorted(f: Seq<(AssetId, u128)>, i: int, v: (AssetId, u128))
    requires
        fungible_sorted(f),
        0 <= i < f.len(),
        v.0 == f[i].0,
    ensures
        fungible_sorted(f.update(i, v)),
{
    let x = f.update(i, v);
    assert forall|a: int, b: int| 0 <= a < b < x.len() implies order_asset_id(
        #[trigger] x[a].0,
        #[trigger] x[b].0,
    ) == Order::Less by {
        assert(x[a].0 == f[a].0);
        assert(x[b].0 == f[b].0);
    }
}

proof fn lemma_remove_keeps_distinct(nf: Seq<(AssetId, AssetInstance)>, j: int)
    requires
        instances_distinct(nf),
        0 <= j < nf.len(),
    ensures
        instances_distinct(nf.remove(j)),
{
    let x = nf.remove(j);
    assert forall|a: int, b: int| 0 <= a < b < x.len() implies #[trigger] x[a] != #[trigger] x[b] by {
        let a0 = if a < j { a } else { a + 1 };
        let b0 = if b < j { b } else { b + 1 };
        assert(x[a] == nf[a0]);
        assert(x[b] == nf[b0]);
    }
}

/// Taking an asset out of a well-formed holding leaves a well-formed holding.
pub proof fn lemma_checked_sub_keeps_wf(m: AssetsModel, asset: MultiAsset)
    requires
        holding_wf(m),
    ensures
        spec_checked_sub(m, asset) matches Ok(x) ==> holding_wf(x),
{
    if spec_checked_sub(m, asset) is Ok {
        match asset.fun {
            Fungibility::Fungible(amount) => {
                let i = fungible_position(m.fungible, asset.id);
                lemma_fungible_position_found(m.fungible, asset.id, i);
                let balance = m.fungible[i].1;
                if balance == amount {
                    lemma_remove_keeps_sorted(m.fungible, i);
                } else {
                    lemma_update_keeps_sorted(m.fungible, i, (asset.id, (balance - amount) as u128));
                }
            },
            Fungibility::NonFungible(instance) => {
                let j = instance_position(m.non_fungible, (asset.id, instance));
                lemma_instance_position_nonneg(m.non_fungible, (asset.id, instance));
                lemma_remove_keeps_distinct(m.non_fungible, j);
            },
        }
    }
}

/// The entry that `fungible_position` finds, when it finds one, is for the asked asset.
proof fn lemma_fungible_position_found(f: Seq<(AssetId, u128)>, id: AssetId, i: int)
    requires
        i == fungible_position(f, id),
        i < f.len(),
    ensures
        0 <= i,
        f[i].0 == id,
    decreases f.len(),
{
    if f.len() > 0 && f[0].0 != id {
        lemma_fungible_position_found(f.drop_first(), id, i - 1);
    }
}

proof fn lemma_instance_position_nonneg(
    s: Seq<(AssetId, AssetInstance)>,
    item: (AssetId, AssetInstance),
)
    ensures
        0 <= instance_position(s, item) <= s.len(),
    decreases s.len(),
{
    if s.len() > 0 && s[0] != item {
        lemma_instance_position_nonneg(s.drop_first(), item);
    }
}

/// Where `fungible_position` points: at the first entry for `id`, or past the end when
/// there is none.
pub proof fn lemma_fungible_position_facts(f: Seq<(AssetId, u128)>, id: AssetId)
    ensures
        0 <= fungible_position(f, id) <= f.len(),
        fungible_position(f, id) < f.len() ==> f[fungible_position(f, id)].0 == id,
        forall|i: int| 0 <= i < fungible_position(f, id) ==> f[i].0 != id,
    decreases f.len(),
{
    if f.len() > 0 && f[0].0 != id {
        let t = f.drop_first();
        lemma_fungible_position_facts(t, id);
        assert forall|i: int| 0 <= i < fungible_position(f, id) implies f[i].0 != id by {
            if i > 0 {
                assert(f[i] == t[i - 1]);
            }
        }
    }
}

/// Where `instance_position` points: at the first occurrence of `item`, or past the end
/// when there is none.
pub proof fn lemma_instance_position_facts(
    s: Seq<(AssetId, AssetInstance)>,
    item: (AssetId, AssetInstance),
)
    ensures
        0 <= instance_position(s, item) <= s.len(),
        instance_position(s, item) < s.len() ==> s[instance_position(s, item)] == item,
        forall|i: int| 0 <= i < instance_position(s, item) ==> s[i] != item,
    decreases s.len(),
{
    if s.len() > 0 && s[0] != item {
        let t = s.drop_first();
        lemma_instance_position_facts(t, item);
        assert forall|i: int| 0 <= i < instance_position(s, item) implies s[i] != item by {
            if i > 0 {
                assert(s[i] == t[i - 1]);
            }
        }
    }
}

} // verus!
