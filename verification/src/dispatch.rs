//! Where a request goes: to the writer, to a reader, or nowhere.
//!
//! Admission comes first. A request that is turned away there reaches
//! neither the writer's queue nor a reader, so it has no effect on the
//! database at all.

use vstd::prelude::*;
use crate::accounting::DosAccounting;
use crate::dos::Admission;
use crate::role::Role;
use crate::usage::{Resource, Usage};

verus! {

/// Why a request is not served.
#[derive(Clone, Copy, Debug, PartialEq, Eq, Structural)]
pub enum Unserved {
    /// The client has reached the limit on this resource.
    Throttled(Resource),
    /// The request would change the database, and this process is a
    /// replica: changes originate at the master only.
    NotMaster,
    /// This replica has not caught up with its master yet.
    NotReady,
}

/// What is done with a request.
#[derive(Clone, Copy, Debug, PartialEq, Eq, Structural)]
pub enum Route {
    /// It is submitted to the single writer.
    Writer,
    /// It runs on a read snapshot of its own.
    Reader,
    /// It is answered with an error.
    Refuse(Unserved),
}

/// The route of a request, given the decision on its admission.
pub open spec fn routed(decision: Admission, role: Role, caught_up: bool, mutating: bool) -> Route {
    match decision {
        Admission::Reject(which) => Route::Refuse(Unserved::Throttled(which)),
        Admission::Allow => if mutating {
            if role is Master {
                Route::Writer
            } else {
                Route::Refuse(Unserved::NotMaster)
            }
        } else if role is Master || caught_up {
            Route::Reader
        } else {
            Route::Refuse(Unserved::NotReady)
        },
    }
}

/// Decides on a request from `client`. The client's record is consulted and
/// updated as admission says; the route then follows from the decision, the
/// role of the process, whether a replica has caught up, and whether the
/// request may change the database.
pub fn dispatch(
    accounting: &mut DosAccounting,
    role: Role,
    caught_up: bool,
    client: &str,
    mutating: bool,
    cost: &Usage,
    now: u64,
) -> (route: Route)
    ensures
        route == routed(
            old(accounting).record_of(client@).decision(old(accounting).limits()),
            role,
            caught_up,
            mutating,
        ),
        route is Refuse && route->Refuse_0 is Throttled <==> !old(accounting).record_of(
            client@,
        ).used.within(old(accounting).limits()),
        final(accounting).limits() == old(accounting).limits(),
        final(accounting).records() == old(accounting).records().insert(
            client@,
            old(accounting).record_of(client@).after_request(
                old(accounting).limits(),
                *cost,
                now,
            ),
        ),
{
    match accounting.admission(client, cost, now) {
        Admission::Reject(which) => Route::Refuse(Unserved::Throttled(which)),
        Admission::Allow => {
            if mutating {
                if role.is_master() {
                    Route::Writer
                } else {
                    Route::Refuse(Unserved::NotMaster)
                }
            } else if role.is_master() || caught_up {
                Route::Reader
            } else {
                Route::Refuse(Unserved::NotReady)
            }
        },
    }
}

} // verus!
