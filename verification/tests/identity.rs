use gossip::identity::{generate_peer_id, peer_id_of, peer_id_of_secret};

#[test]
fn ids_are_base58() {
    assert_eq!(peer_id_of(&[255; 32]), "JEKNVnkbo3jma5nREBBJCDoXFVeKkD56V3xKrvRmWxFG");
}

#[test]
fn leading_zeros_are_kept() {
    assert_eq!(peer_id_of(&[0; 32]), "1".repeat(32));
    let mut key = [0u8; 32];
    key[31] = 1;
    assert_eq!(peer_id_of(&key), format!("{}2", "1".repeat(31)));
    key[31] = 58;
    assert_eq!(peer_id_of(&key), format!("{}21", "1".repeat(31)));
}

#[test]
fn different_keys_have_different_ids() {
    let mut other = [7u8; 32];
    other[31] = 8;
    assert_ne!(peer_id_of(&[7; 32]), peer_id_of(&other));
    assert_eq!(peer_id_of(&[7; 32]), peer_id_of(&[7; 32]));
}

#[test]
fn new_ids_are_drawn_anew() {
    let (a, b) = (generate_peer_id(), generate_peer_id());
    assert_ne!(a, b);
    for id in [a, b] {
        assert!(id.len() >= 32 && id.len() <= 44);
        assert!(id.chars().all(|c| c.is_ascii_alphanumeric() && !"0OIl".contains(c)));
    }
}

#[test]
fn an_id_is_that_of_the_public_key() {
    let secret = [
        157, 97, 177, 157, 239, 253, 90, 96, 186, 132, 74, 244, 146, 236, 44, 196, 68, 73, 197,
        105, 123, 50, 105, 25, 112, 59, 172, 3, 28, 174, 127, 96,
    ];
    assert_eq!(peer_id_of_secret(&secret), "FVen3X669xLzsi6N2V91DoiyzHzg1uAgqiT8jZ9nS96Z");
    assert_ne!(peer_id_of_secret(&secret), peer_id_of(&secret));
}
