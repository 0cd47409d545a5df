use stokast::euclid::{euclid, EUCLID_MAX};

#[test]
fn euclid_1_16() {
    assert!(euclid(1, 16).matches_text("|x---------------|"));
}

#[test]
fn euclid_4_16() {
    assert!(euclid(4, 16).matches_text("|x---x---x---x---|"));
}

#[test]
fn euclid_prime() {
    assert!(euclid(2, 7).matches_text("|x---x--|"));
    assert!(euclid(3, 7).matches_text("|x--x-x-|"));
    assert!(euclid(5, 7).matches_text("|x-xxx-x|"));
    assert!(euclid(3, 8).matches_text("|x--x-x--|"));
    assert!(euclid(5, 8).matches_text("|x-xx-x-x|"));
    assert!(euclid(7, 8).matches_text("|x-xxxxxx|"));
    assert!(euclid(3, 16).matches_text("|x-----x----x----|"));
    assert!(euclid(5, 16).matches_text("|x---x--x--x--x--|"));
    assert!(euclid(7, 16).matches_text("|x--x-x-x-x--x-x-|"));
    assert!(euclid(9, 16).matches_text("|x-xx-x-x-x-xx-x-|"));
    assert!(euclid(10, 16).matches_text("|x-xx-x-xx-xx-x-x|"));
    assert!(euclid(11, 16).matches_text("|x-xxx-xx-xx-xx-x|"));
    assert!(euclid(12, 16).matches_text("|x-xxx-xxx-xxx-xx|"));
    assert!(euclid(13, 16).matches_text("|x-xxxxx-xxxx-xxx|"));
    assert!(euclid(15, 16).matches_text("|x-xxxxxxxxxxxxxx|"));
}

#[test]
fn euclid_all() {
    for i in 1..=EUCLID_MAX {
        for j in i..=EUCLID_MAX {
            euclid(i, j);
        }
    }
}

#[test]
fn euclid_offset() {
    assert!(euclid(2, 5).offset(0).matches_text("|x--x-|"));
    assert!(euclid(2, 5).offset(1).matches_text("|--x-x|"));
    assert!(euclid(2, 5).offset(2).matches_text("|-x-x-|"));
    assert!(euclid(2, 5).offset(3).matches_text("|x-x--|"));
    assert!(euclid(2, 5).offset(4).matches_text("|-x--x|"));
    assert!(euclid(2, 5).offset(5).matches_text("|x--x-|"));
    assert!(euclid(2, 5).offset(6).matches_text("|--x-x|"));
}

#[test]
fn euclid_length_and_beats() {
    for i in 1..=EUCLID_MAX {
        for j in 1..=EUCLID_MAX {
            let p = euclid(i, j);
            assert_eq!(p.len(), i.max(j) as usize);
            let beats = (0..p.len()).filter(|k| p.at(*k) != 0).count();
            assert_eq!(beats, i as usize);
        }
    }
}

#[test]
fn euclid_steps_longer_than_length() {
    assert!(euclid(5, 3).matches_text("xxxxx"));
    assert!(euclid(64, 64).matches_text(&"x".repeat(64)));
}
