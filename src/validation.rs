//! Field rules of a registration request.
use vstd::prelude::*;
use crate::error::{AppError, FieldIssue};

verus! {

/// Whether the validator crate takes `s` for an email address (the HTML form
/// rules: a user part and a domain part around the last `@`).
pub uninterp spec fn email_accepted(s: Seq<char>) -> bool;

/// Relies on validator's `ValidateEmail::validate_email` for `&str`; it refuses
/// an empty text.
#[verifier::external_body]
fn validator_email(s: &str) -> (r: bool)
    ensures
        r == email_accepted(s@),
        s@.len() == 0 ==> !r,
{
    validator::ValidateEmail::validate_email(&s)
}

pub open spec fn length_within(s: Seq<char>, min: nat, max: nat) -> bool {
    min <= s.len() && s.len() <= max
}

/// The issues of a registration request, in field order: name, email, password.
pub open spec fn registration_issues(name: Seq<char>, email: Seq<char>, password: Seq<char>) -> Seq<FieldIssue> {
    let a = if length_within(name, 3, 50) { Seq::empty() } else { seq![FieldIssue::NameLength] };
    let b = if email_accepted(email) { Seq::empty() } else { seq![FieldIssue::InvalidEmail] };
    let c = if length_within(password, 8, 50) { Seq::empty() } else { seq![FieldIssue::PasswordLength] };
    a + b + c
}

/// A registration request is valid: a name of 3 to 50 characters, an email
/// address, a password of 8 to 50 characters.
pub open spec fn valid_registration(name: Seq<char>, email: Seq<char>, password: Seq<char>) -> bool {
    registration_issues(name, email, password).len() == 0
}

/// Checks a registration request; lists every broken rule in field order.
pub fn validate_registration(name: &str, email: &str, password: &str) -> (r: Result<(), AppError>)
    ensures
        r is Ok <==> valid_registration(name@, email@, password@),
        r is Err ==> r == Err::<(), AppError>(AppError::Validation(r->Err_0->Validation_0))
            && r->Err_0->Validation_0@ == registration_issues(name@, email@, password@),
{
    let mut issues: Vec<FieldIssue> = Vec::new();
    let name_len = name.unicode_len();
    if name_len < 3 || name_len > 50 {
        issues.push(FieldIssue::NameLength);
    }
    if !validator_email(email) {
        issues.push(FieldIssue::InvalidEmail);
    }
    let password_len = password.unicode_len();
    if password_len < 8 || password_len > 50 {
        issues.push(FieldIssue::PasswordLength);
    }
    assert(issues@ =~= registration_issues(name@, email@, password@));
    if issues.len() == 0 {
        Ok(())
    } else {
        Err(AppError::Validation(issues))
    }
}

} // verus!
