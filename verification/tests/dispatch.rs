use rustweb::accounting::DosAccounting;
use rustweb::dispatch::{dispatch, Route, Unserved};
use rustweb::dos::DosRecord;
use rustweb::role::Role;
use rustweb::usage::{Resource, Usage};

fn accounting() -> DosAccounting {
    DosAccounting::new(Usage::new(2, 100, 100, 100))
}

#[test]
fn the_master_sends_changes_to_the_writer_and_reads_to_a_reader() {
    let mut dos = accounting();
    let one = Usage::one_request();
    assert_eq!(dispatch(&mut dos, Role::Master, false, "a", true, &one, 1), Route::Writer);
    assert_eq!(dispatch(&mut dos, Role::Master, false, "b", false, &one, 2), Route::Reader);
    assert_eq!(dispatch(&mut dos, Role::Master, true, "c", false, &one, 3), Route::Reader);
}

#[test]
fn a_replica_takes_no_changes_from_its_clients() {
    let mut dos = accounting();
    let one = Usage::one_request();
    assert_eq!(
        dispatch(&mut dos, Role::Replica, true, "a", true, &one, 1),
        Route::Refuse(Unserved::NotMaster)
    );
    assert_eq!(
        dispatch(&mut dos, Role::Replica, false, "b", true, &one, 1),
        Route::Refuse(Unserved::NotMaster)
    );
}

#[test]
fn a_replica_serves_reads_once_it_has_caught_up() {
    let mut dos = accounting();
    let one = Usage::one_request();
    assert_eq!(
        dispatch(&mut dos, Role::Replica, false, "a", false, &one, 1),
        Route::Refuse(Unserved::NotReady)
    );
    assert_eq!(dispatch(&mut dos, Role::Replica, true, "a", false, &one, 2), Route::Reader);
}

#[test]
fn a_throttled_client_reaches_neither_writer_nor_reader() {
    let mut dos = accounting();
    let one = Usage::one_request();
    assert_eq!(dispatch(&mut dos, Role::Master, true, "a", true, &one, 1), Route::Writer);
    assert_eq!(dispatch(&mut dos, Role::Master, true, "a", false, &one, 2), Route::Reader);
    for mutating in [true, false] {
        for role in [Role::Master, Role::Replica] {
            assert_eq!(
                dispatch(&mut dos, role, true, "a", mutating, &one, 3),
                Route::Refuse(Unserved::Throttled(Resource::Requests))
            );
        }
    }
    assert_eq!(dos.record("a"), Some(DosRecord { used: Usage::new(2, 0, 0, 0), last_seen: 3 }));
}

#[test]
fn every_request_is_recorded_even_where_it_is_not_served() {
    let mut dos = accounting();
    dispatch(&mut dos, Role::Replica, false, "a", true, &Usage::new(1, 5, 0, 0), 9);
    assert_eq!(dos.record("a"), Some(DosRecord { used: Usage::new(1, 5, 0, 0), last_seen: 9 }));
}
