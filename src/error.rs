//! The failures of the authentication flows, and how each is shown to a client.
use vstd::prelude::*;
use vstd::string::StringExecFns;

verus! {

/// A field of a registration request that breaks its rule.
#[derive(Debug, Clone, Copy, PartialEq, Eq, Structural)]
pub enum FieldIssue {
    /// The display name is not 3 to 50 characters long.
    NameLength,
    /// The email address is not well formed.
    InvalidEmail,
    /// The password is not 8 to 50 characters long.
    PasswordLength,
}

impl FieldIssue {
    /// The text shown to the client for this issue.
    pub fn message(&self) -> (r: String)
        ensures
            r@ == field_issue_text(*self),
    {
        match self {
            FieldIssue::NameLength => String::from_str("Name must be between 3 and 50 characters"),
            FieldIssue::InvalidEmail => String::from_str("Invalid email address"),
            FieldIssue::PasswordLength => String::from_str("Password must be between 8 and 50 characters"),
        }
    }
}

pub open spec fn field_issue_text(f: FieldIssue) -> Seq<char> {
    match f {
        FieldIssue::NameLength => "Name must be between 3 and 50 characters"@,
        FieldIssue::InvalidEmail => "Invalid email address"@,
        FieldIssue::PasswordLength => "Password must be between 8 and 50 characters"@,
    }
}

/// A failure of an authentication flow.
#[derive(Debug, Clone, PartialEq, Eq)]
pub enum AppError {
    /// Wrong email/password combination, or no such account: the two are not told apart.
    InvalidCredentials,
    /// Bad signature, malformed, expired or revoked token: the causes are not told apart.
    InvalidToken,
    /// The session id is unknown, revoked or expired.
    InvalidSession,
    /// An account with this email address already exists.
    EmailAlreadyInUse(String),
    /// The identity provider does not vouch for the email address.
    EmailNotVerified,
    /// The password could not be hashed.
    HashingFailure,
    /// The identity provider refused the authorization code or the profile request.
    OAuthExchangeFailure,
    /// The state returned by the identity provider was not issued here, or has expired.
    OAuthStateMismatch,
    /// The request breaks the field rules, listed in field order.
    Validation(Vec<FieldIssue>),
    /// A fresh identifier collided with a stored one, or a token could not be signed.
    Internal,
}

/// The HTTP status for each failure.
pub open spec fn status_of(e: AppError) -> u16 {
    match e {
        AppError::InvalidCredentials => 401,
        AppError::InvalidToken => 401,
        AppError::InvalidSession => 401,
        AppError::EmailAlreadyInUse(_) => 409,
        AppError::EmailNotVerified => 403,
        AppError::HashingFailure => 500,
        AppError::OAuthExchangeFailure => 400,
        AppError::OAuthStateMismatch => 400,
        AppError::Validation(_) => 400,
        AppError::Internal => 500,
    }
}

/// The issues' texts joined with ", ".
pub open spec fn joined_issue_text(issues: Seq<FieldIssue>) -> Seq<char>
    decreases issues.len(),
{
    if issues.len() == 0 {
        Seq::empty()
    } else if issues.len() == 1 {
        field_issue_text(issues[0])
    } else {
        joined_issue_text(issues.drop_last()) + ", "@ + field_issue_text(issues.last())
    }
}

/// The text shown to the client for each failure. Internal causes are not disclosed.
pub open spec fn message_of(e: AppError) -> Seq<char> {
    match e {
        AppError::InvalidCredentials => "Invalid credentials"@,
        AppError::InvalidToken => "Invalid token"@,
        AppError::InvalidSession => "Invalid session"@,
        AppError::EmailAlreadyInUse(email) => "Email already in use: "@ + email@,
        AppError::EmailNotVerified => "Email not verified by provider"@,
        AppError::HashingFailure => "Internal server error"@,
        AppError::OAuthExchangeFailure => "OAuth error"@,
        AppError::OAuthStateMismatch => "Invalid OAuth state"@,
        AppError::Validation(issues) => joined_issue_text(issues@),
        AppError::Internal => "Internal server error"@,
    }
}

impl AppError {
    /// The HTTP status that reports this failure.
    pub fn status_code(&self) -> (r: u16)
        ensures
            r == status_of(*self),
    {
        match self {
            AppError::InvalidCredentials => 401,
            AppError::InvalidToken => 401,
            AppError::InvalidSession => 401,
            AppError::EmailAlreadyInUse(_) => 409,
            AppError::EmailNotVerified => 403,
            AppError::HashingFailure => 500,
            AppError::OAuthExchangeFailure => 400,
            AppError::OAuthStateMismatch => 400,
            AppError::Validation(_) => 400,
            AppError::Internal => 500,
        }
    }

    /// The text that reports this failure to the client.
    pub fn message(&self) -> (r: String)
        ensures
            r@ == message_of(*self),
    {
        match self {
            AppError::InvalidCredentials => String::from_str("Invalid credentials"),
            AppError::InvalidToken => String::from_str("Invalid token"),
            AppError::InvalidSession => String::from_str("Invalid session"),
            AppError::EmailAlreadyInUse(email) => String::from_str("Email already in use: ").concat(email.as_str()),
            AppError::EmailNotVerified => String::from_str("Email not verified by provider"),
            AppError::HashingFailure => String::from_str("Internal server error"),
            AppError::OAuthExchangeFailure => String::from_str("OAuth error"),
            AppError::OAuthStateMismatch => String::from_str("Invalid OAuth state"),
            AppError::Validation(issues) => {
                let mut text = String::new();
                let mut i: usize = 0;
                while i < issues.len()
                    invariant
                        i <= issues@.len(),
                        text@ == joined_issue_text(issues@.subrange(0, i as int)),
                    decreases issues@.len() - i,
                {
                    let piece = issues[i].message();
                    assert(issues@.subrange(0, i + 1).drop_last() =~= issues@.subrange(0, i as int));
                    if i == 0 {
                        text = piece;
                    } else {
                        text = text.concat(", ").concat(piece.as_str());
                    }
                    i = i + 1;
                }
                assert(issues@.subrange(0, issues@.len() as int) =~= issues@);
                text
            },
            AppError::Internal => String::from_str("Internal server error"),
        }
    }
}

} // verus!
