//! The credential a client submits with a login request, and its wire form.

use crate::codec::{
    read_u32_le, u32_at, u32_le_bytes, write_u32_le, write_u8, DecodeError,
};
use crate::text::{
    decode_text_field, encode_text_field, field_text, fits_field, lemma_text_field_round_trip,
    text_before_nul, text_field,
};
use vstd::prelude::*;
use vstd::slice::slice_subrange;

verus! {

/// Width in bytes of the user name field.
pub const USERNAME_WIDTH: usize = 24;

/// Width in bytes of the password field.
pub const PASSWORD_WIDTH: usize = 24;

/// Length in bytes of the body of a login request.
pub const CREDENTIAL_LEN: usize = 53;

/// What a client submits to log in.
#[derive(Clone, Debug, PartialEq, Eq)]
pub struct Credential {
    pub protocol_version: u32,
    pub username: String,
    pub password: String,
    pub trailing_flag: u8,
}

/// A credential as a mathematical value.
pub ghost struct CredentialView {
    pub protocol_version: u32,
    pub username: Seq<char>,
    pub password: Seq<char>,
    pub trailing_flag: u8,
}

impl View for Credential {
    type V = CredentialView;

    open spec fn view(&self) -> CredentialView {
        CredentialView {
            protocol_version: self.protocol_version,
            username: self.username@,
            password: self.password@,
            trailing_flag: self.trailing_flag,
        }
    }
}

/// True when both texts of `c` fit their fields.
pub open spec fn credential_fits(c: CredentialView) -> bool {
    &&& fits_field(c.username, USERNAME_WIDTH as nat)
    &&& fits_field(c.password, PASSWORD_WIDTH as nat)
}

/// The body of the login request that carries `c`: protocol version, user
/// name field, password field, trailing flag.
pub open spec fn credential_bytes(c: CredentialView) -> Seq<u8>
    recommends
        credential_fits(c),
{
    u32_le_bytes(c.protocol_version) + text_field(c.username, USERNAME_WIDTH as nat) + text_field(
        c.password,
        PASSWORD_WIDTH as nat,
    ) + seq![c.trailing_flag]
}

/// The credential that the body of a login request carries. Bytes after the
/// first `CREDENTIAL_LEN` are not part of it.
pub open spec fn parse_credential(body: Seq<u8>) -> Result<CredentialView, DecodeError> {
    if body.len() < CREDENTIAL_LEN {
        Err(DecodeError::Truncated)
    } else {
        match (field_text(body.subrange(4, 28)), field_text(body.subrange(28, 52))) {
            (Some(username), Some(password)) => Ok(
                CredentialView {
                    protocol_version: u32_at(body, 0) as u32,
                    username,
                    password,
                    trailing_flag: body[52],
                },
            ),
            _ => Err(DecodeError::InvalidText),
        }
    }
}

/// Decodes the body of a login request.
pub fn read_login_authenticate_data(body: &[u8]) -> (r: Result<Credential, DecodeError>)
    ensures
        parse_credential(body@) matches Ok(c) ==> r is Ok && r->Ok_0@ == c,
        parse_credential(body@) matches Err(e) ==> r == Err::<Credential, DecodeError>(e),
{
    if body.len() < CREDENTIAL_LEN {
        return Err(DecodeError::Truncated);
    }
    let protocol_version = match read_u32_le(body, 0) {
        Ok(v) => v,
        Err(e) => {
            return Err(e);
        },
    };
    let username = match decode_text_field(slice_subrange(body, 4, 28)) {
        Ok(s) => s,
        Err(e) => {
            return Err(e);
        },
    };
    let password = match decode_text_field(slice_subrange(body, 28, 52)) {
        Ok(s) => s,
        Err(e) => {
            return Err(e);
        },
    };
    Ok(Credential { protocol_version, username, password, trailing_flag: body[52] })
}

/// Encodes a credential as the body of a login request, or returns `None`
/// when a text does not fit its field.
pub fn write_login_authenticate_data(credential: &Credential) -> (r: Option<Vec<u8>>)
    ensures
        credential_fits(credential@) ==> r is Some && r->Some_0@ == credential_bytes(credential@),
        !credential_fits(credential@) ==> r is None,
{
    let mut out: Vec<u8> = Vec::new();
    write_u32_le(&mut out, credential.protocol_version);
    if !encode_text_field(&mut out, credential.username.as_str(), USERNAME_WIDTH) {
        return None;
    }
    if !encode_text_field(&mut out, credential.password.as_str(), PASSWORD_WIDTH) {
        return None;
    }
    write_u8(&mut out, credential.trailing_flag);
    Some(out)
}

/// A credential survives encoding and decoding, but for what follows a NUL
/// character in its texts: a text field ends at the first NUL.
pub proof fn lemma_credential_round_trip(c: CredentialView)
    requires
        credential_fits(c),
    ensures
        credential_bytes(c).len() == CREDENTIAL_LEN,
        parse_credential(credential_bytes(c)) == Ok::<CredentialView, DecodeError>(
            CredentialView {
                username: text_before_nul(c.username),
                password: text_before_nul(c.password),
                ..c
            },
        ),
{
    let body = credential_bytes(c);
    lemma_text_field_round_trip(c.username, USERNAME_WIDTH as nat);
    lemma_text_field_round_trip(c.password, PASSWORD_WIDTH as nat);
    crate::codec::lemma_u32_round_trip(c.protocol_version);
    assert(body.subrange(4, 28) =~= text_field(c.username, USERNAME_WIDTH as nat));
    assert(body.subrange(28, 52) =~= text_field(c.password, PASSWORD_WIDTH as nat));
    assert(u32_at(body, 0) == u32_at(u32_le_bytes(c.protocol_version), 0));
}

} // verus!
