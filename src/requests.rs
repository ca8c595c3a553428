use vstd::prelude::*;
use crate::error::AppError;
use crate::text::{int_text, push_int};

verus! {

/// A registration handed to the account use cases.
#[derive(Debug, Clone)]
pub struct RegisterUserRequest {
    pub name: String,
    pub phone: String,
    pub password: String,
}

/// A login handed to the account use cases.
#[derive(Debug, Clone)]
pub struct LoginUserRequest {
    pub phone: String,
    pub password: String,
}

/// A new borrower handed to the borrower use cases.
#[derive(Debug, Clone)]
pub struct CreateBorrowerRequest {
    pub phone: String,
    pub name: String,
    pub location: String,
}

/// A partial change of a borrower: missing fields stay as they are.
#[derive(Debug, Clone)]
pub struct UpdateBorrowerRequest {
    pub phone: Option<String>,
    pub name: Option<String>,
    pub location: Option<String>,
}

/// A borrower about to be stored.
#[derive(Debug, Clone)]
pub struct NewBorrower {
    pub phone: String,
    pub name: String,
    pub location: String,
}

impl NewBorrower {
    pub fn new(phone: String, name: String, location: String) -> (r: NewBorrower)
        ensures
            r.phone@ == phone@,
            r.name@ == name@,
            r.location@ == location@,
    {
        NewBorrower { phone, name, location }
    }
}

/// A field after a partial change: the new value if one was given.
pub open spec fn changed(current: Seq<char>, change: Option<String>) -> Seq<char> {
    match change {
        Some(v) => v@,
        None => current,
    }
}

impl UpdateBorrowerRequest {
    /// The borrower's phone, name and location after this change.
    pub fn apply_to(self, current: &NewBorrower) -> (r: NewBorrower)
        ensures
            r.phone@ == changed(current.phone@, self.phone),
            r.name@ == changed(current.name@, self.name),
            r.location@ == changed(current.location@, self.location),
    {
        let phone = match self.phone {
            Some(v) => v,
            None => current.phone.clone(),
        };
        let name = match self.name {
            Some(v) => v,
            None => current.name.clone(),
        };
        let location = match self.location {
            Some(v) => v,
            None => current.location.clone(),
        };
        NewBorrower { phone, name, location }
    }
}

pub open spec fn is_borrower_conflict(e: AppError) -> bool {
    e is Conflict && e->Conflict_0@ == "Ya existe un prestatario con este teléfono"@
}

fn borrower_conflict() -> (e: AppError)
    ensures
        is_borrower_conflict(e),
{
    AppError::Conflict(String::from_str("Ya existe un prestatario con este teléfono"))
}

/// The borrower to store for a creation, given whether its phone is already
/// taken by another borrower.
pub fn prepare_borrower(request: CreateBorrowerRequest, phone_taken: bool) -> (r: Result<NewBorrower, AppError>)
    ensures
        phone_taken ==> r is Err && is_borrower_conflict(r->Err_0),
        !phone_taken ==> r is Ok && r->Ok_0.phone@ == request.phone@ && r->Ok_0.name@ == request.name@
            && r->Ok_0.location@ == request.location@,
{
    if phone_taken {
        return Err(borrower_conflict());
    }
    Ok(NewBorrower::new(request.phone, request.name, request.location))
}

/// A borrower after a change, given whether the new phone, if any, belongs to
/// another borrower.
pub fn prepare_borrower_update(current: &NewBorrower, request: UpdateBorrowerRequest, phone_taken_by_other: bool) -> (r: Result<NewBorrower, AppError>)
    ensures
        request.phone is Some && phone_taken_by_other ==> r is Err && is_borrower_conflict(r->Err_0),
        !(request.phone is Some && phone_taken_by_other) ==> r is Ok
            && r->Ok_0.phone@ == changed(current.phone@, request.phone)
            && r->Ok_0.name@ == changed(current.name@, request.name)
            && r->Ok_0.location@ == changed(current.location@, request.location),
{
    if request.phone.is_some() && phone_taken_by_other {
        return Err(borrower_conflict());
    }
    Ok(request.apply_to(current))
}

/// The error for a borrower id that is not stored.
pub fn borrower_not_found(id: i32) -> (e: AppError)
    ensures
        e is NotFound && e->NotFound_0@ == "Prestatario con ID "@ + int_text(id as int) + " no encontrado"@,
{
    let mut m = String::from_str("Prestatario con ID ");
    push_int(&mut m, id as i64);
    m.append(" no encontrado");
    AppError::NotFound(m)
}

} // verus!
