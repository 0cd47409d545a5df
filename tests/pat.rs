use stokast::pat::{trim_pattern, Pat, Pattern, PatternGroup};

#[test]
fn pattern_add() {
    let p1: Pattern = Pattern::parse("xX");
    let p2: Pattern = Pattern::parse("-");

    let x = p1.concat(&p2);

    assert_eq!(x.len(), 3);
    assert_eq!(x.at(0), 127);
    assert_eq!(x.at(1), 255);
    assert_eq!(x.at(2), 0);

    assert!(x.matches_text("xX-"));
    assert!(x.matches_text("|xX-|"));
}

#[test]
fn pattern_add_0() {
    let p1: Pattern = Pattern::parse("xX");
    let p2: Pattern = Pattern::parse("");

    let x = p1.concat(&p2);

    assert_eq!(x.len(), 2);
    assert_eq!(x.at(0), 127);
    assert_eq!(x.at(1), 255);
}

#[test]
fn pattern_sub() {
    let p1: Pattern = Pattern::parse("xX--");

    assert_eq!(p1.len(), 4);
    let p2 = p1.sub(1, 3);

    assert_eq!(p2.len(), 2);
    assert_eq!(p2.at(0), 255);
    assert_eq!(p2.at(1), 0);
}

#[test]
fn trim_test() {
    assert_eq!(trim_pattern(""), "");
    assert_eq!(trim_pattern("|"), "");
    assert_eq!(trim_pattern("||"), "");
    assert_eq!(trim_pattern("-|"), "-");
    assert_eq!(trim_pattern("|-"), "-");
    assert_eq!(trim_pattern("-"), "-");
}

#[test]
fn pattern_matches_text_rules() {
    let p = Pattern::parse("xX-");
    assert!(!p.matches_text("Xx-"));
    assert!(!p.matches_text("xX"));
    assert!(!p.matches_text("xXx"));
    let mut q: Pattern = Pat::new();
    q.push(70);
    assert!(q.matches_text("x"));
    assert!(!q.matches_text("X"));
}

#[test]
fn pattern_set_wraps_index() {
    let mut p = Pattern::parse("----");
    p.set(-1, 70);
    p.set(5, 80);
    assert_eq!(p.get(3), Some(70));
    assert_eq!(p.get(1), Some(80));
    assert_eq!(p.get(4), None);
    p.set(-9, 90);
    assert_eq!(p.at(3), 90);
}

#[test]
fn pattern_offset_and_repeat() {
    let p = Pattern::parse("xA-B");
    assert!(p.offset(1).matches_text("A-Bx"));
    assert!(p.offset(5).matches_text("A-Bx"));
    assert!(p.offset(3).matches_text("BxA-"));
    assert!(p.repeat_to(7).matches_text("xA-BxA-"));
    assert!(p.repeat_to(12).matches_text("xA-BxA-BxA-B"));
    let empty: Pattern = Pat::new();
    assert_eq!(empty.repeat_to(10).len(), 0);
}

#[test]
fn pattern_density() {
    assert_eq!(Pattern::parse("x---").density(), 32);
    assert_eq!(Pattern::parse("x-x").density(), 2 * 43);
    assert_eq!(Pattern::parse("").density(), 0);
}

#[test]
fn pattern_flatten() {
    let mut g: PatternGroup = Pat::new();
    g.push(Pattern::parse("x-"));
    g.push(Pattern::parse("X"));
    g.push(Pattern::parse("--x"));
    assert!(g.flatten().matches_text("x-X--x"));
}

#[test]
fn pattern_append_and_new_with() {
    let mut p = Pat::new_with(5u8, 2);
    p.append(&Pat::new_with(0u8, 3));
    assert_eq!(p.len(), 5);
    assert!(p.matches_text("xx---"));
}

#[test]
fn pattern_text_form() {
    assert_eq!(Pattern::parse("xX-").to_text(), "|xX-|");
    assert_eq!(Pattern::parse("").to_text(), "||");
    let mut p: Pattern = Pat::new();
    p.push(1);
    p.push(128);
    p.push(0);
    assert_eq!(p.to_text(), "|xX-|");
    assert_eq!(stokast::euclid::euclid(4, 16).to_text(), "|x---x---x---x---|");
}
