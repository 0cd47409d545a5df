use stokast::clock::Time;
use stokast::tempo::Tempo;

#[test]
fn test_predict_straight() {
    let mut t = Tempo::<1000>::new();

    for _ in 0..22 {
        assert_eq!(t.predict(Time::from_secs(1)).count(), 1000);
    }
}

#[test]
fn test_predict_swing() {
    let mut t = Tempo::<1000>::new();

    // same as update with
    assert_eq!(t.predict(Time::from_secs(3)).count(), 3000);
    assert_eq!(t.predict(Time::from_secs(2)).count(), 2000);
    assert_eq!(t.predict(Time::from_secs(3)).count(), 3000);

    // now the prediction kicks in
    assert_eq!(t.predict(Time::from_secs(2)).count(), 3000);
    assert_eq!(t.predict(Time::from_secs(3)).count(), 2000);
    assert_eq!(t.predict(Time::from_secs(2)).count(), 3000);
    assert_eq!(t.predict(Time::from_secs(3)).count(), 2000);
    assert_eq!(t.predict(Time::from_secs(2)).count(), 3000);
    assert_eq!(t.predict(Time::from_secs(3)).count(), 2000);
    assert_eq!(t.predict(Time::from_secs(2)).count(), 3000);
    assert_eq!(t.predict(Time::from_secs(3)).count(), 2000);
    assert_eq!(t.predict(Time::from_secs(2)).count(), 3000);
}

#[test]
fn tempo_stop_is_guessed_over() {
    let mut t = Tempo::<1000>::new();
    for _ in 0..6 {
        assert_eq!(t.predict(Time::from_secs(1)).count(), 1000);
    }
    // a long pause is answered with the last prediction
    assert_eq!(t.predict(Time::from_secs(20)).count(), 1000);
    t.reset();
    assert_eq!(t.predict(Time::from_secs(1)).count(), 1000);
}
