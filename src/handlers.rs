//! The endpoints: each checks the credentials first, then runs one
//! repository operation and maps its failure onto an error response.
use vstd::prelude::*;
use crate::auth::guard;
use crate::models::{NewRustacean, Rustacean};
use crate::repository::{
    RustaceanRepository,
    created_row,
    has_free_id,
    row_index,
    saved_row,
    spec_create,
    spec_delete,
    spec_find,
    spec_find_all,
    spec_save,
    table_wf,
};
use crate::responses::{
    ErrorKind,
    ErrorResponse,
    authenticate,
    error_status,
    spec_error_code,
    spec_error_reason,
    store_error_response,
};

verus! {

/// The most records that a listing returns.
pub const LIST_LIMIT: usize = 100;

/// Whether `header` carries well-formed credentials.
pub open spec fn authorized(header: Option<&str>) -> bool {
    header matches Some(h) && guard(h@) is Some
}

/// `r` is the response for a request without valid credentials.
pub open spec fn is_unauthorized(r: ErrorResponse) -> bool {
    r.code == 401 && r.body.status@ == error_status() && r.body.reason@ == "Unauthorized."@
}

/// `r` is the response for a missing record.
pub open spec fn is_not_found(r: ErrorResponse) -> bool {
    r.code == 404 && r.body.status@ == error_status() && r.body.reason@
        == "Resource was not found."@
}

/// `GET /rustaceans`: at most `LIST_LIMIT` records.
pub fn get_rustaceans(header: Option<&str>, repo: &RustaceanRepository) -> (r: Result<
    Vec<Rustacean>,
    ErrorResponse,
>)
    ensures
        r is Ok <==> authorized(header),
        match r {
            Ok(v) => v@.map_values(|x: Rustacean| x@) == spec_find_all(repo@, LIST_LIMIT as nat)
                && v@.len() <= LIST_LIMIT,
            Err(e) => is_unauthorized(e),
        },
{
    match authenticate(header) {
        Err(e) => Err(e),
        Ok(_) => Ok(repo.find_all(LIST_LIMIT)),
    }
}

/// `GET /rustaceans/<id>`: the record, or 404 where there is none.
pub fn view_rustacean(header: Option<&str>, repo: &RustaceanRepository, id: i32) -> (r: Result<
    Rustacean,
    ErrorResponse,
>)
    requires
        table_wf(repo@),
    ensures
        !authorized(header) ==> (r matches Err(e) && is_unauthorized(e)),
        authorized(header) ==> match r {
            Ok(x) => spec_find(repo@, id as int) == Some(x@),
            Err(e) => spec_find(repo@, id as int) is None && is_not_found(e),
        },
{
    match authenticate(header) {
        Err(e) => Err(e),
        Ok(_) => match repo.find(id) {
            Ok(x) => Ok(x),
            Err(e) => Err(store_error_response(e)),
        },
    }
}

/// `POST /rustaceans`: stores the payload with the next id and `now` as
/// its creation time.
pub fn create_rustacean(
    header: Option<&str>,
    repo: &mut RustaceanRepository,
    new_rustacean: NewRustacean,
    now: String,
) -> (r: Result<Rustacean, ErrorResponse>)
    requires
        table_wf(old(repo)@),
    ensures
        table_wf(final(repo)@),
        !authorized(header) ==> (r matches Err(e) && is_unauthorized(e) && final(repo)@
            == old(repo)@),
        authorized(header) ==> (r is Ok <==> has_free_id(old(repo)@)),
        authorized(header) ==> match r {
            Ok(x) => x@ == created_row(
                old(repo)@,
                new_rustacean.name@,
                new_rustacean.email@,
                now@,
            ) && final(repo)@ == spec_create(
                old(repo)@,
                new_rustacean.name@,
                new_rustacean.email@,
                now@,
            ),
            Err(e) => e.code == 500 && final(repo)@ == old(repo)@,
        },
{
    match authenticate(header) {
        Err(e) => Err(e),
        Ok(_) => match repo.create(new_rustacean, now) {
            Ok(x) => Ok(x),
            Err(e) => Err(store_error_response(e)),
        },
    }
}

/// `PUT /rustaceans/<id>`: gives the record the payload's name and email;
/// 404 where there is no such record.
pub fn update_rustacean(
    header: Option<&str>,
    repo: &mut RustaceanRepository,
    id: i32,
    payload: Rustacean,
) -> (r: Result<Rustacean, ErrorResponse>)
    requires
        table_wf(old(repo)@),
    ensures
        table_wf(final(repo)@),
        !authorized(header) ==> (r matches Err(e) && is_unauthorized(e) && final(repo)@
            == old(repo)@),
        authorized(header) ==> final(repo)@ == spec_save(old(repo)@, id as int, payload@),
        authorized(header) ==> match r {
            Ok(x) => row_index(old(repo)@.rows, id as int) matches Some(i) && x@ == saved_row(
                old(repo)@.rows[i],
                payload@,
            ),
            Err(e) => row_index(old(repo)@.rows, id as int) is None && is_not_found(e),
        },
{
    match authenticate(header) {
        Err(e) => Err(e),
        Ok(_) => match repo.save(id, payload) {
            Ok(x) => Ok(x),
            Err(e) => Err(store_error_response(e)),
        },
    }
}

/// `DELETE /rustaceans/<id>`: removes the record; 404 where there is no
/// such record.
pub fn delete_rustacean(header: Option<&str>, repo: &mut RustaceanRepository, id: i32) -> (r:
    Result<(), ErrorResponse>)
    requires
        table_wf(old(repo)@),
    ensures
        table_wf(final(repo)@),
        !authorized(header) ==> (r matches Err(e) && is_unauthorized(e) && final(repo)@
            == old(repo)@),
        authorized(header) ==> final(repo)@ == spec_delete(old(repo)@, id as int),
        authorized(header) ==> (r is Ok <==> row_index(old(repo)@.rows, id as int) is Some),
        authorized(header) ==> (r matches Err(e) ==> is_not_found(e)),
{
    match authenticate(header) {
        Err(e) => Err(e),
        Ok(_) => match repo.delete(id) {
            Ok(()) => Ok(()),
            Err(e) => Err(store_error_response(e)),
        },
    }
}

} // verus!
