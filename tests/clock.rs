use weather_panel::clock::LocalTime;

#[test]
fn clock_and_date_are_zero_padded() {
    let t = LocalTime::new(2020, 2, 1, 9, 5).unwrap();
    assert_eq!(t.clock_text(), "09:05");
    assert_eq!(t.date_text(), "01/02/20");
    let t = LocalTime::new(1999, 12, 31, 23, 59).unwrap();
    assert_eq!(t.clock_text(), "23:59");
    assert_eq!(t.date_text(), "31/12/99");
    let t = LocalTime::new(2007, 10, 10, 0, 0).unwrap();
    assert_eq!(t.date_text(), "10/10/07");
    assert_eq!(t.clock_text(), "00:00");
}

#[test]
fn invalid_moments_are_refused() {
    assert_eq!(LocalTime::new(2021, 2, 29, 0, 0), None);
    assert!(LocalTime::new(2020, 2, 29, 0, 0).is_some());
    assert!(LocalTime::new(2000, 2, 29, 0, 0).is_some());
    assert_eq!(LocalTime::new(1900, 2, 29, 0, 0), None);
    assert_eq!(LocalTime::new(2020, 4, 31, 0, 0), None);
    assert_eq!(LocalTime::new(2020, 13, 1, 0, 0), None);
    assert_eq!(LocalTime::new(2020, 1, 0, 0, 0), None);
    assert_eq!(LocalTime::new(2020, 1, 1, 24, 0), None);
    assert_eq!(LocalTime::new(2020, 1, 1, 0, 60), None);
    assert_eq!(LocalTime::new(0, 1, 1, 0, 0), None);
}
