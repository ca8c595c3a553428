use vstd::prelude::*;
use crate::error::AppError;
use crate::requests::{CreateBorrowerRequest, LoginUserRequest, RegisterUserRequest, UpdateBorrowerRequest};

verus! {

/// The texts of a list of strings.
pub open spec fn texts(v: Seq<String>) -> Seq<Seq<char>> {
    v.map_values(|s: String| s@)
}

/// The one message of a failed field check, or none.
pub open spec fn failure_if(failed: bool, message: Seq<char>) -> Seq<Seq<char>> {
    if failed { seq![message] } else { Seq::empty() }
}

/// The failures of an optional field: a present value is checked, a missing one is not.
pub open spec fn optional_failure(v: Option<String>, min: nat, message: Seq<char>) -> Seq<Seq<char>> {
    match v {
        Some(s) => failure_if(s@.len() < min, message),
        None => Seq::empty(),
    }
}

/// A validation passes when nothing failed; otherwise it is one validation
/// error with every failure, in field order.
pub open spec fn validated(failures: Seq<Seq<char>>, r: Result<(), AppError>) -> bool {
    if failures.len() == 0 {
        r is Ok
    } else {
        r is Err && r->Err_0 is ValidationError && texts(r->Err_0->ValidationError_0@) == failures
    }
}

fn note_if_short(out: &mut Vec<String>, s: &str, min: usize, message: &str)
    ensures
        texts(final(out)@) == texts(old(out)@) + failure_if(s@.len() < min, message@),
{
    if s.unicode_len() < min {
        out.push(String::from_str(message));
        proof { assert(texts(final(out)@) =~= texts(old(out)@) + failure_if(s@.len() < min, message@)); }
    } else {
        proof { assert(texts(final(out)@) =~= texts(old(out)@) + failure_if(s@.len() < min, message@)); }
    }
}

fn note_if_present_and_short(out: &mut Vec<String>, s: &Option<String>, min: usize, message: &str)
    ensures
        texts(final(out)@) == texts(old(out)@) + optional_failure(*s, min as nat, message@),
{
    match s {
        Some(v) => note_if_short(out, v.as_str(), min, message),
        None => {
            proof { assert(texts(final(out)@) =~= texts(old(out)@) + optional_failure(*s, min as nat, message@)); }
        },
    }
}

fn finish(out: Vec<String>) -> (r: Result<(), AppError>)
    ensures
        validated(texts(out@), r),
{
    if out.len() == 0 {
        Ok(())
    } else {
        Err(AppError::ValidationError(out))
    }
}

/// A registration as it arrives: name, phone and password.
#[derive(Debug, Clone)]
pub struct RegisterRequestDto {
    pub name: String,
    pub phone: String,
    pub password: String,
}

pub open spec fn register_failures(d: RegisterRequestDto) -> Seq<Seq<char>> {
    failure_if(d.name@.len() < 1, "El nombre no puede estar vacío"@) + failure_if(
        d.phone@.len() < 8,
        "El teléfono debe tener mínimo 8 dígitos"@,
    ) + failure_if(d.password@.len() < 8, "La contraseña debe tener mínimo 8 caracteres"@)
}

impl RegisterRequestDto {
    /// A name is needed; phone and password need at least eight characters.
    pub fn validate(&self) -> (r: Result<(), AppError>)
        ensures
            validated(register_failures(*self), r),
    {
        let mut out: Vec<String> = Vec::new();
        proof { assert(texts(out@) =~= Seq::<Seq<char>>::empty()); }
        note_if_short(&mut out, self.name.as_str(), 1, "El nombre no puede estar vacío");
        note_if_short(&mut out, self.phone.as_str(), 8, "El teléfono debe tener mínimo 8 dígitos");
        note_if_short(&mut out, self.password.as_str(), 8, "La contraseña debe tener mínimo 8 caracteres");
        proof { assert(texts(out@) =~= register_failures(*self)); }
        finish(out)
    }

    pub fn into_request(self) -> (r: RegisterUserRequest)
        ensures
            r.name@ == self.name@,
            r.phone@ == self.phone@,
            r.password@ == self.password@,
    {
        RegisterUserRequest { name: self.name, phone: self.phone, password: self.password }
    }
}

/// A login as it arrives: phone and password.
#[derive(Debug, Clone)]
pub struct LoginRequestDto {
    pub phone: String,
    pub password: String,
}

pub open spec fn login_failures(d: LoginRequestDto) -> Seq<Seq<char>> {
    failure_if(d.phone@.len() < 1, "El campo de teléfono no puede estar vacío"@) + failure_if(
        d.password@.len() < 1,
        "El campo de la contraseña no puede estar vacío"@,
    )
}

impl LoginRequestDto {
    /// Neither phone nor password may be empty.
    pub fn validate(&self) -> (r: Result<(), AppError>)
        ensures
            validated(login_failures(*self), r),
    {
        let mut out: Vec<String> = Vec::new();
        proof { assert(texts(out@) =~= Seq::<Seq<char>>::empty()); }
        note_if_short(&mut out, self.phone.as_str(), 1, "El campo de teléfono no puede estar vacío");
        note_if_short(&mut out, self.password.as_str(), 1, "El campo de la contraseña no puede estar vacío");
        proof { assert(texts(out@) =~= login_failures(*self)); }
        finish(out)
    }

    pub fn into_request(self) -> (r: LoginUserRequest)
        ensures
            r.phone@ == self.phone@,
            r.password@ == self.password@,
    {
        LoginUserRequest { phone: self.phone, password: self.password }
    }
}

/// A new borrower as it arrives.
#[derive(Debug, Clone)]
pub struct CreateBorrowerRequestDto {
    pub phone: String,
    pub name: String,
    pub location: String,
}

pub open spec fn create_borrower_failures(d: CreateBorrowerRequestDto) -> Seq<Seq<char>> {
    failure_if(d.phone@.len() < 8, "El teléfono debe tener mínimo 8 dígitos"@) + failure_if(
        d.name@.len() < 1,
        "El nombre no puede estar vacío"@,
    ) + failure_if(d.location@.len() < 1, "La ubicación no puede estar vacía"@)
}

impl CreateBorrowerRequestDto {
    /// The phone needs eight characters; name and location may not be empty.
    pub fn validate(&self) -> (r: Result<(), AppError>)
        ensures
            validated(create_borrower_failures(*self), r),
    {
        let mut out: Vec<String> = Vec::new();
        proof { assert(texts(out@) =~= Seq::<Seq<char>>::empty()); }
        note_if_short(&mut out, self.phone.as_str(), 8, "El teléfono debe tener mínimo 8 dígitos");
        note_if_short(&mut out, self.name.as_str(), 1, "El nombre no puede estar vacío");
        note_if_short(&mut out, self.location.as_str(), 1, "La ubicación no puede estar vacía");
        proof { assert(texts(out@) =~= create_borrower_failures(*self)); }
        finish(out)
    }

    pub fn into_request(self) -> (r: CreateBorrowerRequest)
        ensures
            r.phone@ == self.phone@,
            r.name@ == self.name@,
            r.location@ == self.location@,
    {
        CreateBorrowerRequest { phone: self.phone, name: self.name, location: self.location }
    }
}

/// A partial change of a borrower as it arrives.
#[derive(Debug, Clone)]
pub struct UpdateBorrowerRequestDto {
    pub phone: Option<String>,
    pub name: Option<String>,
    pub location: Option<String>,
}

pub open spec fn update_borrower_failures(d: UpdateBorrowerRequestDto) -> Seq<Seq<char>> {
    optional_failure(d.phone, 8, "El teléfono debe tener mínimo 8 dígitos"@) + optional_failure(
        d.name,
        1,
        "El nombre no puede estar vacío"@,
    ) + optional_failure(d.location, 1, "La ubicación no puede estar vacía"@)
}

impl UpdateBorrowerRequestDto {
    /// Present fields are checked as for a new borrower.
    pub fn validate(&self) -> (r: Result<(), AppError>)
        ensures
            validated(update_borrower_failures(*self), r),
    {
        let mut out: Vec<String> = Vec::new();
        proof { assert(texts(out@) =~= Seq::<Seq<char>>::empty()); }
        note_if_present_and_short(&mut out, &self.phone, 8, "El teléfono debe tener mínimo 8 dígitos");
        note_if_present_and_short(&mut out, &self.name, 1, "El nombre no puede estar vacío");
        note_if_present_and_short(&mut out, &self.location, 1, "La ubicación no puede estar vacía");
        proof { assert(texts(out@) =~= update_borrower_failures(*self)); }
        finish(out)
    }

    pub fn into_request(self) -> (r: UpdateBorrowerRequest)
        ensures
            r.phone == self.phone,
            r.name == self.name,
            r.location == self.location,
    {
        UpdateBorrowerRequest { phone: self.phone, name: self.name, location: self.location }
    }
}

} // verus!
