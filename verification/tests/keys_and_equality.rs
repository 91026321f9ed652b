use orml_location::asset::{asset_id_eq, AssetId};
use orml_location::junction::{bytes_eq, junction_eq, Junction, NetworkId};
use orml_location::keys::general_key;
use orml_location::multilocation::Junctions::{Here, X1, X2, X3};
use orml_location::multilocation::MultiLocation;
use orml_location::support::{token_a_key, token_b_key};

#[test]
fn general_key_pads_the_name_with_zeros() {
    let k = general_key("TokenA");
    assert_eq!(&k[0..6], b"TokenA");
    assert!(k[6..].iter().all(|b| *b == 0));
    assert_eq!(general_key(""), [0u8; 32]);
    assert_eq!(token_a_key(), general_key("TokenA"));
    assert_eq!(&token_b_key()[0..6], b"TokenB");
}

#[test]
fn equality_of_junctions_and_locations() {
    assert!(bytes_eq(&[1u8, 2, 3], &[1u8, 2, 3]));
    assert!(!bytes_eq(&[1u8, 2, 3], &[1u8, 2, 4]));
    let acc = Junction::AccountId32 { network: Some(NetworkId::Kusama), id: [5u8; 32] };
    let acc_any = Junction::AccountId32 { network: None, id: [5u8; 32] };
    assert!(junction_eq(&acc, &acc));
    assert!(!junction_eq(&acc, &acc_any));
    assert!(!junction_eq(&Junction::Parachain(1), &Junction::GeneralIndex(1)));
    let l = MultiLocation::new(1, X3(Junction::Parachain(1), acc, Junction::OnlyChild));
    assert!(l.equals(&l));
    assert!(!l.equals(&MultiLocation::new(1, X2(Junction::Parachain(1), acc))));
    assert!(!MultiLocation::new(0, Here).equals(&MultiLocation::new(1, Here)));
    assert!(asset_id_eq(&AssetId::Concrete(l), &AssetId::Concrete(l)));
    assert!(!asset_id_eq(&AssetId::Concrete(l), &AssetId::Abstract([0u8; 32])));
    assert!(MultiLocation::new(0, X1(Junction::PalletInstance(3)))
        .equals(&MultiLocation::new(0, X1(Junction::PalletInstance(3)))));
}
