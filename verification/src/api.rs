//! Query API decisions over the health table: what each control or query
//! route answers, as a status code and body.  The HTTP framework that
//! carries the routes lives at the edge of the program.

use crate::ip::dotted_spec;
use crate::table::HealthTable;
use crate::table::find_pool;
use crate::table::query_spec;
use crate::table::reload_spec;
use crate::table::reset_spec;
use vstd::prelude::*;
use vstd::string::StringExecFns;

verus! {

/// Decide the priority-order response for `pool_name`: `200` with the
/// dotted address of the earliest healthy member, `404` with a diagnostic
/// body when the pool is unknown or has no healthy member and no
/// fallback.  Internal probe errors are never surfaced to callers.
pub fn priority_order_response(table: &HealthTable, pool_name: &String) -> (r: (u16, String))
    ensures
        match find_pool(table@, pool_name@) {
            None => r.0 == 404 && r.1@ == "Pool not found"@,
            Some(_) => match query_spec(table@, pool_name@) {
                Some(ip) => r.0 == 200 && r.1@ == dotted_spec(ip),
                None => r.0 == 404 && r.1@ == "No healthy members and no fallback IP"@,
            },
        },
{
    if !table.has_pool(pool_name) {
        (404, String::from_str("Pool not found"))
    } else {
        match table.query_first_healthy(pool_name) {
            Some(ip) => (200, ip.dotted()),
            None => (404, String::from_str("No healthy members and no fallback IP")),
        }
    }
}

/// Decide the info response for `pool_name`: the same first-healthy
/// decision as the priority-order route, with this route's diagnostic
/// bodies.
pub fn info_response(table: &HealthTable, pool_name: &String) -> (r: (u16, String))
    ensures
        match find_pool(table@, pool_name@) {
            None => r.0 == 404 && r.1@ == "Not Found"@,
            Some(_) => match query_spec(table@, pool_name@) {
                Some(ip) => r.0 == 200 && r.1@ == dotted_spec(ip),
                None => r.0 == 404 && r.1@ == "No healthy members and no fallback"@,
            },
        },
{
    if !table.has_pool(pool_name) {
        (404, String::from_str("Not Found"))
    } else {
        match table.query_first_healthy(pool_name) {
            Some(ip) => (200, ip.dotted()),
            None => (404, String::from_str("No healthy members and no fallback")),
        }
    }
}

/// Perform the reset control operation on `pool_name` and acknowledge it.
pub fn reset_response(table: &mut HealthTable, pool_name: &String) -> (r: (u16, String))
    ensures
        final(table)@ == reset_spec(old(table)@, pool_name@),
        old(table).wf() ==> final(table).wf(),
        r.0 == 200 && r.1@ == "OK"@,
{
    table.reset(pool_name);
    (200, String::from_str("OK"))
}

/// Perform the reload control operation — flag every member of every pool
/// for cooperative cancellation — and acknowledge it.
pub fn reload_response(table: &mut HealthTable) -> (r: (u16, String))
    ensures
        final(table)@ == reload_spec(old(table)@),
        old(table).wf() ==> final(table).wf(),
        r.0 == 200 && r.1@ == "Config reloaded"@,
{
    table.reload();
    (200, String::from_str("Config reloaded"))
}

} // verus!
