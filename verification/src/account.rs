//! The outcome of checking a credential, and the reason codes that the
//! failure packets carry.

use crate::credential::Credential;
use crate::text::str_equal;
use vstd::prelude::*;

verus! {

/// Gender of an account, one byte on the wire.
#[derive(Clone, Copy, Debug, PartialEq, Eq, Structural)]
pub enum Gender {
    Male,
    Female,
}

/// The gender that a wire byte stands for: 1 is female, every other value
/// male.
pub open spec fn gender_of(code: u8) -> Gender {
    if code == 1 {
        Gender::Female
    } else {
        Gender::Male
    }
}

/// The wire byte of a gender.
pub open spec fn gender_code(gender: Gender) -> u8 {
    match gender {
        Gender::Male => 0,
        Gender::Female => 1,
    }
}

/// Decodes the gender byte of a packet.
pub fn gender_from_u8(gender: u8) -> (r: Gender)
    ensures
        r == gender_of(gender),
{
    match gender {
        1 => Gender::Female,
        _ => Gender::Male,
    }
}

/// Encodes a gender as its wire byte.
pub fn gender_to_u8(gender: Gender) -> (r: u8)
    ensures
        r == gender_code(gender),
        gender_of(r) == gender,
{
    match gender {
        Gender::Male => 0,
        Gender::Female => 1,
    }
}

/// Why a login was refused, as the login error packet reports it.
#[derive(Clone, Copy, Debug, PartialEq, Eq, Structural)]
pub enum AuthErrorReason {
    /// Invalid user name or password.
    InvalidCredentials,
    /// The account has expired.
    IdExpired,
    /// Rejected from the server.
    RejectedFromServer,
    /// The account was blocked by the game master team.
    BlockedByGameMaster,
    /// The client executable is not the latest version.
    ClientOutdated,
    /// Logging in is prohibited until a later date.
    ProhibitedUntil,
    /// The server is overpopulated.
    ServerOverpopulated,
    /// The account may not connect to this server.
    ServerNotAllowed,
    /// The account was banned by an administrator.
    BannedByAdministrator,
}

/// The wire code of a login error reason.
pub open spec fn auth_error_code(reason: AuthErrorReason) -> u8 {
    match reason {
        AuthErrorReason::InvalidCredentials => 1,
        AuthErrorReason::IdExpired => 2,
        AuthErrorReason::RejectedFromServer => 3,
        AuthErrorReason::BlockedByGameMaster => 4,
        AuthErrorReason::ClientOutdated => 5,
        AuthErrorReason::ProhibitedUntil => 6,
        AuthErrorReason::ServerOverpopulated => 7,
        AuthErrorReason::ServerNotAllowed => 8,
        AuthErrorReason::BannedByAdministrator => 9,
    }
}

/// The login error reason that a wire code stands for, if it is one of the
/// listed codes.
pub open spec fn auth_error_of(code: u8) -> Option<AuthErrorReason> {
    if code == 1 {
        Some(AuthErrorReason::InvalidCredentials)
    } else if code == 2 {
        Some(AuthErrorReason::IdExpired)
    } else if code == 3 {
        Some(AuthErrorReason::RejectedFromServer)
    } else if code == 4 {
        Some(AuthErrorReason::BlockedByGameMaster)
    } else if code == 5 {
        Some(AuthErrorReason::ClientOutdated)
    } else if code == 6 {
        Some(AuthErrorReason::ProhibitedUntil)
    } else if code == 7 {
        Some(AuthErrorReason::ServerOverpopulated)
    } else if code == 8 {
        Some(AuthErrorReason::ServerNotAllowed)
    } else if code == 9 {
        Some(AuthErrorReason::BannedByAdministrator)
    } else {
        None
    }
}

impl AuthErrorReason {
    /// The wire code of this reason.
    pub fn code(self) -> (r: u8)
        ensures
            r == auth_error_code(self),
            auth_error_of(r) == Some(self),
    {
        match self {
            AuthErrorReason::InvalidCredentials => 1,
            AuthErrorReason::IdExpired => 2,
            AuthErrorReason::RejectedFromServer => 3,
            AuthErrorReason::BlockedByGameMaster => 4,
            AuthErrorReason::ClientOutdated => 5,
            AuthErrorReason::ProhibitedUntil => 6,
            AuthErrorReason::ServerOverpopulated => 7,
            AuthErrorReason::ServerNotAllowed => 8,
            AuthErrorReason::BannedByAdministrator => 9,
        }
    }

    /// The reason that a wire code stands for, or `None` for a code that is
    /// not listed.
    pub fn from_code(code: u8) -> (r: Option<AuthErrorReason>)
        ensures
            r == auth_error_of(code),
    {
        match code {
            1 => Some(AuthErrorReason::InvalidCredentials),
            2 => Some(AuthErrorReason::IdExpired),
            3 => Some(AuthErrorReason::RejectedFromServer),
            4 => Some(AuthErrorReason::BlockedByGameMaster),
            5 => Some(AuthErrorReason::ClientOutdated),
            6 => Some(AuthErrorReason::ProhibitedUntil),
            7 => Some(AuthErrorReason::ServerOverpopulated),
            8 => Some(AuthErrorReason::ServerNotAllowed),
            9 => Some(AuthErrorReason::BannedByAdministrator),
            _ => None,
        }
    }
}

/// Why a connection is being closed by the server, as the ban packet reports
/// it.
#[derive(Clone, Copy, Debug, PartialEq, Eq, Structural)]
pub enum BanReason {
    Disconnected,
    ServerClosed,
    SessionTakenOver,
    TimeoutReached,
    ServerJammedRetrySoon,
    AgeLimit,
    IdUnpaid,
    ServerJammedRetryLater,
    SessionExists,
    IpCapacityForCafeFull,
    SubscriptionEnded,
    AccountSuspended,
    ChangeInBillingPolicy,
    AuthorizedIpMismatch,
    PreventChargingPlayTime,
    NotAvailable,
    AccountAlreadyConnected,
    /// A code without a name of its own: 15, 17, and 19 upward. Clients show
    /// them as a plain disconnect, or as not available for 17.
    Unlisted(u8),
}

/// True for the codes that have no variant of their own.
pub open spec fn ban_code_unlisted(code: u8) -> bool {
    code == 15 || code == 17 || code >= 19
}

/// The wire code of a ban reason.
pub open spec fn ban_code(reason: BanReason) -> u8 {
    match reason {
        BanReason::Disconnected => 0,
        BanReason::ServerClosed => 1,
        BanReason::SessionTakenOver => 2,
        BanReason::TimeoutReached => 3,
        BanReason::ServerJammedRetrySoon => 4,
        BanReason::AgeLimit => 5,
        BanReason::IdUnpaid => 6,
        BanReason::ServerJammedRetryLater => 7,
        BanReason::SessionExists => 8,
        BanReason::IpCapacityForCafeFull => 9,
        BanReason::SubscriptionEnded => 10,
        BanReason::AccountSuspended => 11,
        BanReason::ChangeInBillingPolicy => 12,
        BanReason::AuthorizedIpMismatch => 13,
        BanReason::PreventChargingPlayTime => 14,
        BanReason::NotAvailable => 16,
        BanReason::AccountAlreadyConnected => 18,
        BanReason::Unlisted(code) => code,
    }
}

/// The ban reason that a wire code stands for.
pub open spec fn ban_reason_of(code: u8) -> BanReason {
    if code == 0 {
        BanReason::Disconnected
    } else if code == 1 {
        BanReason::ServerClosed
    } else if code == 2 {
        BanReason::SessionTakenOver
    } else if code == 3 {
        BanReason::TimeoutReached
    } else if code == 4 {
        BanReason::ServerJammedRetrySoon
    } else if code == 5 {
        BanReason::AgeLimit
    } else if code == 6 {
        BanReason::IdUnpaid
    } else if code == 7 {
        BanReason::ServerJammedRetryLater
    } else if code == 8 {
        BanReason::SessionExists
    } else if code == 9 {
        BanReason::IpCapacityForCafeFull
    } else if code == 10 {
        BanReason::SubscriptionEnded
    } else if code == 11 {
        BanReason::AccountSuspended
    } else if code == 12 {
        BanReason::ChangeInBillingPolicy
    } else if code == 13 {
        BanReason::AuthorizedIpMismatch
    } else if code == 14 {
        BanReason::PreventChargingPlayTime
    } else if code == 16 {
        BanReason::NotAvailable
    } else if code == 18 {
        BanReason::AccountAlreadyConnected
    } else {
        BanReason::Unlisted(code)
    }
}

impl BanReason {
    /// True unless this is `Unlisted` with a code that has a variant of its
    /// own.
    pub open spec fn wf(self) -> bool {
        self matches BanReason::Unlisted(code) ==> ban_code_unlisted(code)
    }

    /// The wire code of this reason.
    pub fn code(self) -> (r: u8)
        ensures
            r == ban_code(self),
            self.wf() ==> ban_reason_of(r) == self,
    {
        match self {
            BanReason::Disconnected => 0,
            BanReason::ServerClosed => 1,
            BanReason::SessionTakenOver => 2,
            BanReason::TimeoutReached => 3,
            BanReason::ServerJammedRetrySoon => 4,
            BanReason::AgeLimit => 5,
            BanReason::IdUnpaid => 6,
            BanReason::ServerJammedRetryLater => 7,
            BanReason::SessionExists => 8,
            BanReason::IpCapacityForCafeFull => 9,
            BanReason::SubscriptionEnded => 10,
            BanReason::AccountSuspended => 11,
            BanReason::ChangeInBillingPolicy => 12,
            BanReason::AuthorizedIpMismatch => 13,
            BanReason::PreventChargingPlayTime => 14,
            BanReason::NotAvailable => 16,
            BanReason::AccountAlreadyConnected => 18,
            BanReason::Unlisted(code) => code,
        }
    }

    /// The reason that a wire code stands for.
    pub fn from_code(code: u8) -> (r: BanReason)
        ensures
            r == ban_reason_of(code),
            r.wf(),
            ban_code(r) == code,
    {
        match code {
            0 => BanReason::Disconnected,
            1 => BanReason::ServerClosed,
            2 => BanReason::SessionTakenOver,
            3 => BanReason::TimeoutReached,
            4 => BanReason::ServerJammedRetrySoon,
            5 => BanReason::AgeLimit,
            6 => BanReason::IdUnpaid,
            7 => BanReason::ServerJammedRetryLater,
            8 => BanReason::SessionExists,
            9 => BanReason::IpCapacityForCafeFull,
            10 => BanReason::SubscriptionEnded,
            11 => BanReason::AccountSuspended,
            12 => BanReason::ChangeInBillingPolicy,
            13 => BanReason::AuthorizedIpMismatch,
            14 => BanReason::PreventChargingPlayTime,
            16 => BanReason::NotAvailable,
            18 => BanReason::AccountAlreadyConnected,
            _ => BanReason::Unlisted(code),
        }
    }
}

/// The outcome of checking a credential.
#[derive(Clone, Copy, Debug, PartialEq, Eq, Structural)]
pub enum AuthResult {
    /// The credential was accepted for this account.
    Success { account_id: u32, login_id1: u32, login_id2: u32, gender: Gender },
    /// The user name or the password is wrong.
    InvalidCredentials,
    /// The account may not log in.
    Banned { reason: BanReason },
}

impl AuthResult {
    /// True when the ban reason it carries, if any, is well formed.
    pub open spec fn wf(self) -> bool {
        self matches AuthResult::Banned { reason } ==> reason.wf()
    }
}

/// The password that the built-in account check answers with
/// `InvalidCredentials`.
pub open spec fn invalid_password() -> Seq<char> {
    "000failpassword"@
}

/// The password that the built-in account check answers with `Banned`.
pub open spec fn banned_password() -> Seq<char> {
    "000fail"@
}

/// Account id that the built-in account check grants.
pub const GRANTED_ACCOUNT_ID: u32 = 0x005dbb1d;

/// First login id that the built-in account check grants.
pub const GRANTED_LOGIN_ID1: u32 = 0x1d266809;

/// Second login id that the built-in account check grants.
pub const GRANTED_LOGIN_ID2: u32 = 0;

/// Reason code that the built-in account check bans with.
pub const BAN_CODE: u8 = 26;

/// What the built-in account check answers for a password: two passwords
/// fail, each in its own way, and every other one is accepted.
pub open spec fn account_check(password: Seq<char>) -> AuthResult {
    if password == invalid_password() {
        AuthResult::InvalidCredentials
    } else if password == banned_password() {
        AuthResult::Banned { reason: BanReason::Unlisted(BAN_CODE) }
    } else {
        AuthResult::Success {
            account_id: GRANTED_ACCOUNT_ID,
            login_id1: GRANTED_LOGIN_ID1,
            login_id2: GRANTED_LOGIN_ID2,
            gender: Gender::Male,
        }
    }
}

/// The built-in account check. It stands in for an account database: the
/// answer depends on the password alone.
pub fn verify_credential(credential: &Credential) -> (r: AuthResult)
    ensures
        r == account_check(credential@.password),
        r.wf(),
{
    let password = credential.password.as_str();
    if str_equal(password, "000failpassword") {
        AuthResult::InvalidCredentials
    } else if str_equal(password, "000fail") {
        AuthResult::Banned { reason: BanReason::Unlisted(BAN_CODE) }
    } else {
        AuthResult::Success {
            account_id: GRANTED_ACCOUNT_ID,
            login_id1: GRANTED_LOGIN_ID1,
            login_id2: GRANTED_LOGIN_ID2,
            gender: Gender::Male,
        }
    }
}

} // verus!
