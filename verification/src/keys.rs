use vstd::prelude::*;
use vstd::string::StringSliceAdditionalSpecFns;

verus! {

/// The 32-byte general key whose leading bytes are `name` and whose remaining bytes are zero.
pub open spec fn padded_key(name: Seq<u8>) -> Seq<u8> {
    Seq::new(32, |i: int| if i < name.len() { name[i] } else { 0u8 })
}

/// Builds the general key that holds the bytes of `name`, padded with zeros to 32 bytes.
pub fn general_key(name: &str) -> (key: [u8; 32])
    requires
        name.spec_bytes().len() <= 32,
    ensures
        key@ == padded_key(name.spec_bytes()),
        key == key_of(name.spec_bytes()),
{
    let bytes = name.as_bytes();
    let mut key = [0u8; 32];
    let mut i: usize = 0;
    while i < bytes.len()
        invariant
            bytes@ == name.spec_bytes(),
            bytes@.len() <= 32,
            0 <= i <= bytes@.len(),
            key@.len() == 32,
            forall|j: int| 0 <= j < i ==> key@[j] == bytes@[j],
            forall|j: int| i <= j < 32 ==> key@[j] == 0u8,
        decreases bytes@.len() - i,
    {
        key[i] = bytes[i];
        i = i + 1;
    }
    assert(key@ =~= padded_key(name.spec_bytes()));
    proof {
        lemma_key_of(key, name.spec_bytes());
    }
    key
}

/// The bytes of an ASCII string are its characters, one byte each.
pub proof fn lemma_ascii_bytes(s: &str)
    requires
        vstd::string::is_ascii(s),
    ensures
        s.spec_bytes() =~= Seq::new(s@.len(), |i| s@[i] as u8),
{
    vstd::string::is_ascii_spec_bytes(s);
}

/// The 32-byte key whose first `n` bytes are those of `name` and whose other bytes are zero.
pub open spec fn key_prefix(name: Seq<u8>, n: nat) -> [u8; 32]
    decreases n,
{
    if n == 0 {
        vstd::array::spec_array_fill_for_copy_type::<u8, 32>(0u8)
    } else {
        vstd::array::spec_array_update(key_prefix(name, (n - 1) as nat), n - 1, name[n - 1])
    }
}

/// The 32-byte general key whose bytes are `name` padded with zeros.
pub open spec fn key_of(name: Seq<u8>) -> [u8; 32] {
    key_prefix(name, name.len())
}

proof fn lemma_key_prefix_view(name: Seq<u8>, n: nat)
    requires
        n <= name.len() <= 32,
    ensures
        key_prefix(name, n)@ =~= Seq::new(32, |i: int| if i < n { name[i] } else { 0u8 }),
    decreases n,
{
    if n == 0 {
        let k = vstd::array::spec_array_fill_for_copy_type::<u8, 32>(0u8);
        assert(k@.len() == 32);
    } else {
        lemma_key_prefix_view(name, (n - 1) as nat);
    }
}

/// The bytes of `key_of(name)` are those of `name`, padded with zeros.
pub proof fn lemma_key_of_view(name: Seq<u8>)
    requires
        name.len() <= 32,
    ensures
        key_of(name)@ == padded_key(name),
{
    lemma_key_prefix_view(name, name.len());
}

/// A 32-byte key is determined by its bytes; in particular a key built from `name`
/// is `key_of(name)`.
pub proof fn lemma_key_of(key: [u8; 32], name: Seq<u8>)
    requires
        name.len() <= 32,
        key@ == padded_key(name),
    ensures
        key_of(name) == key,
{
    lemma_key_of_view(name);
    assert(key_of(name) =~= key);
}

} // verus!
