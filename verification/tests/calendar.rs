use rocket_tycoon::calendar::{days_in_month, is_leap_year, GameDate};

#[test]
fn test_default_start() {
    let d = GameDate::default_start();
    assert_eq!(d.year, 2001);
    assert_eq!(d.month, 1);
    assert_eq!(d.day, 1);
}

#[test]
fn test_next_day_normal() {
    let d = GameDate::new(2001, 1, 15);
    let n = d.next_day();
    assert_eq!(n, GameDate::new(2001, 1, 16));
}

#[test]
fn test_next_day_end_of_month() {
    let d = GameDate::new(2001, 1, 31);
    assert_eq!(d.next_day(), GameDate::new(2001, 2, 1));
}

#[test]
fn test_next_day_end_of_year() {
    let d = GameDate::new(2001, 12, 31);
    assert_eq!(d.next_day(), GameDate::new(2002, 1, 1));
}

#[test]
fn test_next_day_feb_non_leap() {
    let d = GameDate::new(2001, 2, 28);
    assert_eq!(d.next_day(), GameDate::new(2001, 3, 1));
}

#[test]
fn test_next_day_feb_leap() {
    let d = GameDate::new(2004, 2, 28);
    assert_eq!(d.next_day(), GameDate::new(2004, 2, 29));
    assert_eq!(d.next_day().next_day(), GameDate::new(2004, 3, 1));
}

#[test]
fn test_leap_years() {
    assert!(is_leap_year(2000));
    assert!(!is_leap_year(1900));
    assert!(is_leap_year(2004));
    assert!(!is_leap_year(2001));
}

#[test]
fn test_is_first_of_month() {
    assert!(GameDate::new(2001, 1, 1).is_first_of_month());
    assert!(GameDate::new(2001, 6, 1).is_first_of_month());
    assert!(!GameDate::new(2001, 1, 2).is_first_of_month());
}

#[test]
fn test_day_of_year() {
    assert_eq!(GameDate::new(2001, 1, 1).day_of_year(), 1);
    assert_eq!(GameDate::new(2001, 2, 1).day_of_year(), 32);
    assert_eq!(GameDate::new(2001, 12, 31).day_of_year(), 365);
    assert_eq!(GameDate::new(2004, 12, 31).day_of_year(), 366);
}

#[test]
fn test_display() {
    assert_eq!(GameDate::new(2001, 1, 1).display_string(), "Jan 1, 2001");
    assert_eq!(GameDate::new(2001, 12, 25).display_string(), "Dec 25, 2001");
}

#[test]
fn test_days_until() {
    let a = GameDate::new(2001, 1, 1);
    let b = GameDate::new(2001, 1, 31);
    assert_eq!(a.days_until(&b), 30);

    let c = GameDate::new(2002, 1, 1);
    assert_eq!(a.days_until(&c), 365);

    let d = GameDate::new(2004, 1, 1);
    let e = GameDate::new(2005, 1, 1);
    assert_eq!(d.days_until(&e), 366);
}

#[test]
fn test_days_until_same_date() {
    let d = GameDate::new(2001, 6, 15);
    assert_eq!(d.days_until(&d), 0);
}

#[test]
fn test_ordering() {
    let a = GameDate::new(2001, 1, 1);
    let b = GameDate::new(2001, 1, 2);
    let c = GameDate::new(2001, 2, 1);
    let d = GameDate::new(2002, 1, 1);
    assert!(a < b);
    assert!(b < c);
    assert!(c < d);
}

#[test]
fn test_advance_full_year() {
    let mut d = GameDate::new(2001, 1, 1);
    for _ in 0..365 {
        d = d.next_day();
    }
    assert_eq!(d, GameDate::new(2002, 1, 1));
}

#[test]
fn test_is_before_matches_ordering() {
    let a = GameDate::new(2001, 3, 31);
    let b = GameDate::new(2001, 4, 1);
    assert!(a.is_before(&b));
    assert!(!b.is_before(&a));
    assert!(!a.is_before(&a));
    assert_eq!(a.is_before(&b), a < b);
}

#[test]
fn test_days_until_backwards_is_zero() {
    let a = GameDate::new(2002, 1, 1);
    let b = GameDate::new(2001, 1, 1);
    assert_eq!(a.days_until(&b), 0);
}

#[test]
fn test_days_until_next_day_is_one() {
    for d in [
        GameDate::new(2001, 1, 31),
        GameDate::new(2000, 2, 29),
        GameDate::new(1999, 12, 31),
        GameDate::new(2001, 6, 15),
    ] {
        assert_eq!(d.days_until(&d.next_day()), 1);
    }
}

#[test]
fn test_days_in_month_table() {
    let expected = [31, 28, 31, 30, 31, 30, 31, 31, 30, 31, 30, 31];
    for (i, e) in expected.iter().enumerate() {
        assert_eq!(days_in_month(2001, i as u32 + 1), *e);
        assert_eq!(GameDate::new(2001, i as u32 + 1, 1).days_in_month(), *e);
    }
    assert_eq!(days_in_month(2000, 2), 29);
    assert_eq!(days_in_month(1900, 2), 28);
}

#[test]
fn test_month_names() {
    let names = ["Jan", "Feb", "Mar", "Apr", "May", "Jun", "Jul", "Aug", "Sep", "Oct", "Nov", "Dec"];
    for (i, n) in names.iter().enumerate() {
        assert_eq!(GameDate::new(2001, i as u32 + 1, 1).month_name(), *n);
    }
}

#[test]
fn test_display_multi_digit_values() {
    assert_eq!(GameDate::new(10, 7, 9).display_string(), "Jul 9, 10");
    assert_eq!(GameDate::new(0, 3, 10).display_string(), "Mar 10, 0");
}

#[test]
fn test_advance_leap_year() {
    let mut d = GameDate::new(2004, 1, 1);
    for _ in 0..366 {
        d = d.next_day();
    }
    assert_eq!(d, GameDate::new(2005, 1, 1));
}

#[test]
fn test_add_days() {
    let start = GameDate::default_start();
    assert_eq!(start.add_days(0), start);
    assert_eq!(start.add_days(31), GameDate::new(2001, 2, 1));
    assert_eq!(start.add_days(365), GameDate::new(2002, 1, 1));
    assert_eq!(GameDate::new(2004, 2, 28).add_days(1), GameDate::new(2004, 2, 29));
    assert_eq!(GameDate::new(2004, 2, 28).add_days(2), GameDate::new(2004, 3, 1));
    let later = start.add_days(180);
    assert_eq!(start.days_until(&later), 180);
}

#[test]
fn test_day_of_year_outside_month_range() {
    let before_january = GameDate { year: 2001, month: 0, day: 5 };
    assert_eq!(before_january.day_of_year(), 5);
    let after_december = GameDate { year: 2001, month: 13, day: 1 };
    assert_eq!(after_december.day_of_year(), 366);
    let after_leap_december = GameDate { year: 2004, month: 13, day: 1 };
    assert_eq!(after_leap_december.day_of_year(), 367);
}

#[test]
fn test_days_until_steps_through_out_of_range_days() {
    let feb_30 = GameDate { year: 2001, month: 2, day: 30 };
    assert_eq!(feb_30.days_until(&GameDate::new(2001, 3, 1)), 1);
    assert_eq!(feb_30.days_until(&GameDate::new(2001, 3, 3)), 3);
    let jan_0 = GameDate { year: 2001, month: 1, day: 0 };
    assert_eq!(jan_0.days_until(&GameDate::new(2001, 1, 1)), 1);
    assert_eq!(jan_0.days_until(&jan_0), 0);
    let jan_40 = GameDate { year: 2001, month: 1, day: 40 };
    assert_eq!(jan_40.days_until(&GameDate { year: 2001, month: 1, day: 50 }), 1);
    assert_eq!(GameDate::new(2001, 1, 30).days_until(&jan_40), 2);
    assert_eq!(GameDate::new(2001, 3, 1).days_until(&feb_30), 0);
}

#[test]
fn test_days_until_zero_when_not_before_any_month() {
    let late = GameDate { year: 2002, month: 13, day: 1 };
    let early = GameDate { year: 2001, month: 0, day: 5 };
    assert_eq!(late.days_until(&early), 0);
    assert_eq!(late.days_until(&late), 0);
}
