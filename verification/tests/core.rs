use vehicle_management::access::{DeleteHistory, MemDataAccess, UpdateVehicle};
use vehicle_management::dates::{day_number, format_date, parse_date, Date};
use vehicle_management::history::TransactionHistory;
use vehicle_management::keys::{plate_display, strip_dashes};
use vehicle_management::user::User;
use vehicle_management::vehicle::Vehicle;
use vehicle_management::Error;

fn seeded() -> (MemDataAccess, String) {
    let mut ds = MemDataAccess::new();
    let user = User::new("alice".to_string(), "hunter2".to_string(), None);
    ds.create_user(&user).unwrap();
    let session = ds.get_session_at(&user, "token-alice".to_string(), 1_000_000).unwrap();
    (ds, session.session_id)
}

fn car(plate: &str, tax: &str, fitness: &str, insurance: &str, route: &str) -> Vehicle {
    Vehicle::new(
        plate.to_string(),
        "alice".to_string(),
        tax.to_string(),
        fitness.to_string(),
        insurance.to_string(),
        route.to_string(),
    )
}

fn plain_car(plate: &str, tax: &str) -> Vehicle {
    car(plate, tax, "2030-01-01", "2030-01-01", "2030-01-01")
}

#[test]
fn plate_round_trip_long() {
    let stored = strip_dashes("DHA-12-AB-1234");
    assert_eq!(stored, "DHA12AB1234");
    assert_eq!(plate_display(&stored).unwrap(), "DHA-12-AB-1234");
}

#[test]
fn plate_round_trip_short() {
    let stored = strip_dashes("ABC-1234");
    assert_eq!(stored, "ABC1234");
    assert_eq!(plate_display(&stored).unwrap(), "ABC-1234");
}

#[test]
fn plate_round_trip_wide_middle() {
    let stored = strip_dashes("CTG-GHA-11-1234");
    assert_eq!(stored, "CTGGHA111234");
    assert_eq!(plate_display(&stored).unwrap(), "CTG-GHA-11-1234");
}

#[test]
fn plate_display_too_short() {
    assert!(plate_display("AB12").is_none());
}

#[test]
fn date_parse_and_canonical_form() {
    let d = parse_date("2024-1-5").unwrap();
    assert_eq!(d, Date { year: 2024, month: 1, day: 5 });
    assert_eq!(format_date(&d), "2024-01-05");
}

#[test]
fn date_parse_rejects_malformed() {
    assert!(parse_date("").is_none());
    assert!(parse_date("2024-13-01").is_none());
    assert!(parse_date("2024-02-30").is_none());
    assert!(parse_date("20x4-02-03").is_none());
    assert!(parse_date("2024-02").is_none());
    assert!(parse_date("2024-02-03-04").is_none());
}

#[test]
fn date_parse_leap_years() {
    assert!(parse_date("2024-02-29").is_some());
    assert!(parse_date("2023-02-29").is_none());
    assert!(parse_date("1900-02-29").is_none());
    assert!(parse_date("2000-02-29").is_some());
}

#[test]
fn day_numbers_order_dates() {
    let a = day_number(&Date { year: 2024, month: 6, day: 14 });
    let b = day_number(&Date { year: 2024, month: 6, day: 15 });
    let c = day_number(&Date { year: 2024, month: 7, day: 1 });
    let d = day_number(&Date { year: 2025, month: 1, day: 1 });
    assert!(a < b && b < c && c < d);
    assert_eq!(day_number(&Date { year: 1, month: 1, day: 1 }), 1);
}

#[test]
fn user_uniqueness_second_create_conflicts() {
    let mut ds = MemDataAccess::new();
    let user = User::new("bob".to_string(), "pw".to_string(), None);
    assert!(ds.create_user(&user).is_ok());
    let again = User::new("bob".to_string(), "other".to_string(), None);
    assert_eq!(ds.create_user(&again), Err(Error::Conflict));
}

#[test]
fn login_checks_password() {
    let mut ds = MemDataAccess::new();
    let user = User::new("carol".to_string(), "secret".to_string(), None);
    ds.create_user(&user).unwrap();
    assert!(ds.is_login_successful("carol", "secret"));
    assert!(!ds.is_login_successful("carol", "wrong"));
    assert!(!ds.is_login_successful("nobody", "secret"));
    let bad = User::new("carol".to_string(), "wrong".to_string(), None);
    assert_eq!(ds.get_session_at(&bad, "t".to_string(), 0).err(), Some(Error::Unauthorized));
}

#[test]
fn session_expiry_window() {
    let (mut ds, token) = seeded();
    assert!(ds.is_session_valid(&token));
    // six days after creation the TTL has not passed
    ds.expire_sessions(1_000_000 + 6 * 86400);
    assert!(ds.is_session_valid(&token));
    // once the store reclaims past the seven-day TTL, the token is dead
    ds.expire_sessions(1_000_000 + 7 * 86400);
    assert!(!ds.is_session_valid(&token));
}

#[test]
fn bulk_revoke_kills_every_session_of_the_user() {
    let mut ds = MemDataAccess::new();
    let alice = User::new("alice".to_string(), "pw".to_string(), None);
    let dave = User::new("dave".to_string(), "pw".to_string(), None);
    ds.create_user(&alice).unwrap();
    ds.create_user(&dave).unwrap();
    ds.get_session_at(&alice, "tok-a1".to_string(), 0).unwrap();
    ds.get_session_at(&alice, "tok-a2".to_string(), 0).unwrap();
    ds.get_session_at(&dave, "tok-d".to_string(), 0).unwrap();
    let name = ds.delete_session("tok-a1").unwrap();
    assert_eq!(name, "alice");
    assert!(!ds.is_session_valid("tok-a1"));
    assert!(!ds.is_session_valid("tok-a2"));
    assert!(ds.is_session_valid("tok-d"));
}

#[test]
fn revoke_with_bad_token_is_unauthorized() {
    let (mut ds, _) = seeded();
    assert_eq!(ds.delete_session("no-such-token"), Err(Error::Unauthorized));
}

#[test]
fn change_pass_rotates_digest() {
    let mut ds = MemDataAccess::new();
    let user = User::new("erin".to_string(), "old-pw".to_string(), None);
    ds.create_user(&user).unwrap();
    ds.get_session_at(&user, "tok-e".to_string(), 0).unwrap();
    assert_eq!(ds.change_pass("tok-e", "wrong", "new-pw"), Err(Error::Unauthorized));
    ds.change_pass("tok-e", "old-pw", "new-pw").unwrap();
    assert!(ds.is_login_successful("erin", "new-pw"));
    assert!(!ds.is_login_successful("erin", "old-pw"));
}

#[test]
fn vehicle_uniqueness_is_atomic() {
    let (mut ds, token) = seeded();
    assert!(ds.add_vehicle(&token, plain_car("DHA-12-AB-1234", "2030-05-01")).is_ok());
    assert_eq!(
        ds.add_vehicle(&token, plain_car("DHA-12-AB-1234", "2031-01-01")),
        Err(Error::Conflict)
    );
    let all = ds.get_all_vehicle(&token).unwrap();
    assert_eq!(all.len(), 1);
    assert_eq!(all[0].vehicle_no, "DHA-12-AB-1234");
    assert_eq!(all[0].tax_date, "2030-05-01");
}

#[test]
fn add_vehicle_requires_session() {
    let mut ds = MemDataAccess::new();
    assert_eq!(
        ds.add_vehicle("ghost", plain_car("ABC-1234", "2030-01-01")),
        Err(Error::Unauthorized)
    );
}

#[test]
fn fee_window_boundaries() {
    let (mut ds, token) = seeded();
    let today = Date { year: 2024, month: 6, day: 15 };
    ds.add_vehicle(&token, plain_car("AAA-1111", "2024-06-15")).unwrap();
    ds.add_vehicle(&token, plain_car("BBB-2222", "2024-06-14")).unwrap();
    ds.add_vehicle(&token, plain_car("CCC-3333", "2024-06-20")).unwrap();

    // overdue: strictly before today — excludes today's date
    let overdue = ds.get_vehicles_by_type_on(&token, "tax", 0, &today).unwrap();
    assert_eq!(overdue.len(), 1);
    assert_eq!(overdue[0].vehicle_no, "BBB-2222");

    // upcoming window [today, today + 5] includes both bounds
    let soon = ds.get_vehicles_by_type_on(&token, "tax", 5, &today).unwrap();
    let mut plates: Vec<String> = soon.iter().map(|v| v.vehicle_no.clone()).collect();
    plates.sort();
    assert_eq!(plates, vec!["AAA-1111".to_string(), "CCC-3333".to_string()]);

    // an unsupported fee name falls back to the tax fee
    let fallback = ds.get_vehicles_by_type_on(&token, "bogus", 0, &today).unwrap();
    assert_eq!(fallback.len(), 1);
    assert_eq!(fallback[0].vehicle_no, "BBB-2222");
}

#[test]
fn pay_fee_with_no_fields_is_validation_error() {
    let (mut ds, token) = seeded();
    ds.add_vehicle(&token, plain_car("DDD-4444", "2024-06-01")).unwrap();
    let update = UpdateVehicle {
        vehicle_no: "DDD-4444".to_string(),
        tax_date: None,
        insurance_date: None,
        route_date: None,
        fitness_date: None,
    };
    assert_eq!(ds.pay_fee(&token, "tax", &update), Err(Error::Validation));
}

#[test]
fn pay_fee_updates_one_field_and_records_prior_value() {
    let (mut ds, token) = seeded();
    let today = Date { year: 2024, month: 7, day: 1 };
    ds.add_vehicle(&token, plain_car("EEE-5555", "2024-06-01")).unwrap();
    let update = UpdateVehicle {
        vehicle_no: "EEE-5555".to_string(),
        tax_date: Some("2025-6-1".to_string()),
        insurance_date: None,
        route_date: None,
        fitness_date: None,
    };
    ds.pay_fee_at(&token, "tax", &update, "2024-07-01T00:00:00Z").unwrap();
    let all = ds.get_all_vehicle(&token).unwrap();
    assert_eq!(all.len(), 1);
    // only the supplied field changed, re-emitted canonically
    assert_eq!(all[0].tax_date, "2025-06-01");
    assert_eq!(all[0].fitness_date, "2030-01-01");
    assert_eq!(all[0].insurance_date, "2030-01-01");
    assert_eq!(all[0].route_date, "2030-01-01");
    // the audit row cites the pre-payment date and the payer
    let hist = ds.view_history_on(&token, 40, &today).unwrap();
    assert_eq!(hist.len(), 1);
    assert_eq!(hist[0].vehicle_no, "EEE-5555");
    assert_eq!(hist[0].date, "2024-06-01");
    assert_eq!(hist[0].transaction_type, "tax");
    assert_eq!(hist[0].payer, "alice");
}

#[test]
fn pay_fee_rejects_bad_dates_and_unknown_fees() {
    let (mut ds, token) = seeded();
    ds.add_vehicle(&token, plain_car("FFF-6666", "2024-06-01")).unwrap();
    let bad_date = UpdateVehicle {
        vehicle_no: "FFF-6666".to_string(),
        tax_date: Some("not-a-date".to_string()),
        insurance_date: None,
        route_date: None,
        fitness_date: None,
    };
    assert_eq!(ds.pay_fee(&token, "tax", &bad_date), Err(Error::Validation));
    let fine = UpdateVehicle {
        vehicle_no: "FFF-6666".to_string(),
        tax_date: Some("2025-01-01".to_string()),
        insurance_date: None,
        route_date: None,
        fitness_date: None,
    };
    assert_eq!(ds.pay_fee(&token, "parking", &fine), Err(Error::Validation));
    let missing = UpdateVehicle { vehicle_no: "GGG-7777".to_string(), ..fine };
    assert_eq!(ds.pay_fee(&token, "tax", &missing), Err(Error::NotFound));
}

#[test]
fn pay_fee_is_atomic_under_fault_injection() {
    let (mut ds, token) = seeded();
    ds.add_vehicle(&token, plain_car("HHH-8888", "2024-06-01")).unwrap();
    let update = UpdateVehicle {
        vehicle_no: "HHH-8888".to_string(),
        tax_date: Some("2025-06-01".to_string()),
        insurance_date: None,
        route_date: None,
        fitness_date: None,
    };
    ds.fail_writes = true;
    assert_eq!(
        ds.pay_fee_at(&token, "tax", &update, "2024-07-01T00:00:00Z"),
        Err(Error::StoreFailure)
    );
    ds.fail_writes = false;
    // neither the due date nor the audit trail changed
    let all = ds.get_all_vehicle(&token).unwrap();
    assert_eq!(all[0].tax_date, "2024-06-01");
    let today = Date { year: 2024, month: 7, day: 1 };
    assert_eq!(ds.view_history_on(&token, 60, &today).unwrap().len(), 0);
}

#[test]
fn update_vehicle_leaves_no_audit_row() {
    let (mut ds, token) = seeded();
    ds.add_vehicle(&token, plain_car("JJJ-9999", "2024-06-01")).unwrap();
    let update = UpdateVehicle {
        vehicle_no: "JJJ-9999".to_string(),
        tax_date: Some("2026-02-03".to_string()),
        insurance_date: Some("2026-03-04".to_string()),
        route_date: None,
        fitness_date: None,
    };
    ds.update_vehicle(&token, &update).unwrap();
    let all = ds.get_all_vehicle(&token).unwrap();
    assert_eq!(all[0].tax_date, "2026-02-03");
    assert_eq!(all[0].insurance_date, "2026-03-04");
    let today = Date { year: 2024, month: 7, day: 1 };
    assert_eq!(ds.view_history_on(&token, 60, &today).unwrap().len(), 0);
}

#[test]
fn view_history_is_newest_first_within_window() {
    let (mut ds, token) = seeded();
    ds.add_vehicle(&token, plain_car("KKK-1010", "2024-06-01")).unwrap();
    let pay = |ds: &mut MemDataAccess, date: &str| {
        let update = UpdateVehicle {
            vehicle_no: "KKK-1010".to_string(),
            tax_date: Some(date.to_string()),
            insurance_date: None,
            route_date: None,
            fitness_date: None,
        };
        ds.pay_fee_at(&token, "tax", &update, "2024-07-01T00:00:00Z").unwrap();
    };
    pay(&mut ds, "2024-06-10");
    pay(&mut ds, "2024-06-20");
    pay(&mut ds, "2024-06-30");
    let today = Date { year: 2024, month: 7, day: 1 };
    let hist = ds.view_history_on(&token, 30, &today).unwrap();
    // prior dates recorded: 2024-06-01, then 2024-06-10, then 2024-06-20
    assert_eq!(hist.len(), 3);
    assert_eq!(hist[0].date, "2024-06-20");
    assert_eq!(hist[1].date, "2024-06-10");
    assert_eq!(hist[2].date, "2024-06-01");
    // a two-day window excludes all three
    assert_eq!(ds.view_history_on(&token, 2, &today).unwrap().len(), 0);
}

#[test]
fn undo_restores_the_recorded_date_and_drops_the_row() {
    let (mut ds, token) = seeded();
    ds.add_vehicle(&token, plain_car("LLL-2020", "2024-06-01")).unwrap();
    let update = UpdateVehicle {
        vehicle_no: "LLL-2020".to_string(),
        tax_date: Some("2025-06-01".to_string()),
        insurance_date: None,
        route_date: None,
        fitness_date: None,
    };
    ds.pay_fee_at(&token, "tax", &update, "2024-07-01T00:00:00Z").unwrap();
    let undo = DeleteHistory {
        vehicle_id: "LLL-2020".to_string(),
        fee_type: "tax".to_string(),
        date: "2024-06-01".to_string(),
    };
    ds.undo_history_at(&token, &undo, "2024-07-02T00:00:00Z").unwrap();
    let all = ds.get_all_vehicle(&token).unwrap();
    assert_eq!(all[0].tax_date, "2024-06-01");
    let today = Date { year: 2024, month: 7, day: 2 };
    assert_eq!(ds.view_history_on(&token, 60, &today).unwrap().len(), 0);
    // undoing the same row again finds nothing
    assert_eq!(ds.undo_history(&token, &undo), Err(Error::NotFound));
}

#[test]
fn update_vehicle_iter_names_the_four_fields() {
    let update = UpdateVehicle {
        vehicle_no: "X".to_string(),
        tax_date: Some("2024-01-01".to_string()),
        insurance_date: None,
        route_date: None,
        fitness_date: Some("2024-02-02".to_string()),
    };
    let fields = update.iter();
    assert_eq!(fields.len(), 4);
    assert_eq!(fields[0].0, ":tax_date");
    assert_eq!(fields[0].1, Some("2024-01-01".to_string()));
    assert_eq!(fields[1].0, ":insurance_date");
    assert_eq!(fields[1].1, None);
    assert_eq!(fields[2].0, ":fitness_date");
    assert_eq!(fields[2].1, Some("2024-02-02".to_string()));
    assert_eq!(fields[3].0, ":route_date");
    assert_eq!(fields[3].1, None);
}

#[test]
fn history_row_round_trips_a_wide_middle_plate() {
    let row = TransactionHistory::new(
        "CTG-GHA-11-1234".to_string(),
        "2024-01-05".to_string(),
        "tax".to_string(),
        "bob".to_string(),
    );
    let item = row.to_item();
    let back = vehicle_management::history::history_from_item(&item).unwrap();
    assert_eq!(back.vehicle_no, "CTG-GHA-11-1234");
    assert_eq!(back.date, "2024-01-05");
    assert_eq!(back.transaction_type, "tax");
    assert_eq!(back.payer, "bob");
}

#[test]
fn history_row_canonicalizes_its_date() {
    let row = TransactionHistory::new(
        "ABC-1234".to_string(),
        "2024-6-1".to_string(),
        "tax".to_string(),
        "alice".to_string(),
    );
    assert_eq!(row.date, "2024-06-01");
    assert_eq!(row.vehicle_no, "ABC-1234");
}

#[test]
fn error_messages_match_variants() {
    assert_eq!(Error::Unauthorized.message(), "You don't have access!!");
    assert_eq!(Error::Validation.message(), "No updated fee date is provided");
    assert_eq!(Error::Conflict.message(), "Already exists!!");
    assert_eq!(Error::NotFound.message(), "Not found!!");
    assert_eq!(Error::StoreFailure.message(), "Something went wrong");
}

#[test]
fn get_session_issues_a_fresh_token() {
    let mut ds = MemDataAccess::new();
    let user = User::new("frank".to_string(), "pw".to_string(), Some("555-0100".to_string()));
    ds.create_user(&user).unwrap();
    let session = ds.get_session(&user).unwrap();
    assert_eq!(session.session_id.len(), 36);
    assert!(ds.is_session_valid(&session.session_id));
}
