use vstd::prelude::*;
use vstd::string::StringExecFns;
use crate::models::LoginResponse;

verus! {

/// The decision half of the login flow. The transport verifies the
/// submitted credential through the external credential-verification
/// collaborator and hands in its verdict together with the session token to
/// issue; a valid credential earns a success marker carrying exactly that
/// token, anything else a failure marker with no token.
pub fn login(credentials_valid: bool, token: String) -> (r: LoginResponse)
    ensures
        credentials_valid ==> r.status@ == "success"@ && r.token == Some(token),
        !credentials_valid ==> r.status@ == "failure"@ && r.token is None,
{
    if credentials_valid {
        LoginResponse { status: String::from_str("success"), token: Some(token) }
    } else {
        LoginResponse { status: String::from_str("failure"), token: None }
    }
}

} // verus!
