//! Authentication mechanisms and the data of an authentication exchange.

use crate::codec::Encoder;
use crate::error::{agrees, IMAPResult, SpecResult};
use crate::lex::{bytes_eq_ignore_case, crlf, eq_ignore_case, kw, put, put_str, spec_crlf};
use crate::strings::{
    atom, base64, base64_encoded, encode_base64, is_atom, spec_atom, spec_base64, Atom,
    ValidationError,
};
use vstd::prelude::*;
use vstd::string::*;

verus! {

/// A SASL mechanism: one of the well-known names, or any other atom.
#[derive(Debug, Clone, PartialEq, Eq, Hash)]
pub enum AuthMechanism {
    Plain,
    Login,
    OAuthBearer,
    XOAuth2,
    /// A mechanism that has no variant of its own.
    Other(Atom),
}

/// A mechanism as a mathematical value.
pub enum AuthMechanismModel {
    Plain,
    Login,
    OAuthBearer,
    XOAuth2,
    Other(Seq<u8>),
}

impl DeepView for AuthMechanism {
    type V = AuthMechanismModel;

    open spec fn deep_view(&self) -> AuthMechanismModel {
        match self {
            AuthMechanism::Plain => AuthMechanismModel::Plain,
            AuthMechanism::Login => AuthMechanismModel::Login,
            AuthMechanism::OAuthBearer => AuthMechanismModel::OAuthBearer,
            AuthMechanism::XOAuth2 => AuthMechanismModel::XOAuth2,
            AuthMechanism::Other(a) => AuthMechanismModel::Other(a.deep_view()),
        }
    }
}

/// The mechanism that an atom names: a well-known one where the atom is its
/// name in any mix of case.
pub open spec fn spec_auth_mechanism_from(a: Seq<u8>) -> AuthMechanismModel {
    if eq_ignore_case(a, kw("PLAIN")) {
        AuthMechanismModel::Plain
    } else if eq_ignore_case(a, kw("LOGIN")) {
        AuthMechanismModel::Login
    } else if eq_ignore_case(a, kw("OAUTHBEARER")) {
        AuthMechanismModel::OAuthBearer
    } else if eq_ignore_case(a, kw("XOAUTH2")) {
        AuthMechanismModel::XOAuth2
    } else {
        AuthMechanismModel::Other(a)
    }
}

/// `auth-type = atom`
pub open spec fn spec_auth_type(s: Seq<u8>) -> SpecResult<AuthMechanismModel> {
    match spec_atom(s) {
        Err(e) => Err(e),
        Ok((rest, a)) => Ok((rest, spec_auth_mechanism_from(a))),
    }
}

/// A mechanism under its canonical name.
pub open spec fn spec_encode_auth_mechanism(m: AuthMechanismModel) -> Seq<u8> {
    match m {
        AuthMechanismModel::Plain => kw("PLAIN"),
        AuthMechanismModel::Login => kw("LOGIN"),
        AuthMechanismModel::OAuthBearer => kw("OAUTHBEARER"),
        AuthMechanismModel::XOAuth2 => kw("XOAUTH2"),
        AuthMechanismModel::Other(a) => a,
    }
}

impl AuthMechanism {
    /// The mechanism that `atom` names.
    pub fn from(atom: Atom) -> (r: AuthMechanism)
        ensures
            r.deep_view() == spec_auth_mechanism_from(atom.deep_view()),
    {
        let name = atom.as_bytes();
        if bytes_eq_ignore_case(name, "PLAIN".as_bytes()) {
            AuthMechanism::Plain
        } else if bytes_eq_ignore_case(name, "LOGIN".as_bytes()) {
            AuthMechanism::Login
        } else if bytes_eq_ignore_case(name, "OAUTHBEARER".as_bytes()) {
            AuthMechanism::OAuthBearer
        } else if bytes_eq_ignore_case(name, "XOAUTH2".as_bytes()) {
            AuthMechanism::XOAuth2
        } else {
            AuthMechanism::Other(atom)
        }
    }

    /// The mechanism that `name` names, if `name` is an atom.
    pub fn try_from(name: &[u8]) -> (r: Result<AuthMechanism, ValidationError>)
        ensures
            r is Ok <==> is_atom(name@),
            r matches Ok(m) ==> m.deep_view() == spec_auth_mechanism_from(name@),
    {
        match Atom::try_from(name) {
            Ok(a) => Ok(AuthMechanism::from(a)),
            Err(e) => Err(e),
        }
    }

}

impl Encoder for AuthMechanism {
    open spec fn wire(v: AuthMechanismModel) -> Seq<u8> {
        spec_encode_auth_mechanism(v)
    }

    fn encode_into(&self, out: &mut Vec<u8>) {
        match self {
            AuthMechanism::Plain => put_str(out, "PLAIN"),
            AuthMechanism::Login => put_str(out, "LOGIN"),
            AuthMechanism::OAuthBearer => put_str(out, "OAUTHBEARER"),
            AuthMechanism::XOAuth2 => put_str(out, "XOAUTH2"),
            AuthMechanism::Other(a) => a.encode_into(out),
        }
    }
}

/// Parses an `auth-type`.
pub fn auth_type<'a>(input: &'a [u8]) -> (r: IMAPResult<'a, AuthMechanism>)
    ensures
        agrees(r, spec_auth_type(input@)),
{
    let (rest, a) = atom(input)?;
    Ok((rest, AuthMechanism::from(a)))
}

/// A value that is kept out of debug output.
#[derive(Clone, PartialEq, Eq, Hash)]
pub struct Secret<T>(T);

impl<T> Secret<T> {
    /// Wraps `inner`.
    pub fn new(inner: T) -> (r: Secret<T>)
        ensures
            r.spec_declassify() == inner,
    {
        Secret(inner)
    }

    /// The wrapped value.
    pub closed spec fn spec_declassify(&self) -> T {
        self.0
    }

    /// The wrapped value.
    pub fn declassify(&self) -> (r: &T)
        ensures
            *r == self.spec_declassify(),
    {
        &self.0
    }
}

/// One line of an authentication exchange: the decoded bytes.
#[derive(Clone, PartialEq, Eq, Hash)]
pub struct AuthenticateData(pub Secret<Vec<u8>>);

impl DeepView for AuthenticateData {
    type V = Seq<u8>;

    open spec fn deep_view(&self) -> Seq<u8> {
        self.0.spec_declassify()@
    }
}

/// `base64 CRLF`: one line of an authentication exchange.
pub open spec fn spec_authenticate_data(s: Seq<u8>, relaxed: bool) -> SpecResult<Seq<u8>> {
    match spec_base64(s) {
        Err(e) => Err(e),
        Ok((r1, data)) => match spec_crlf(r1, relaxed) {
            Err(e) => Err(e),
            Ok((r2, _)) => Ok((r2, data)),
        },
    }
}

/// One line of an authentication exchange as it is sent.
pub open spec fn spec_encode_authenticate_data(data: Seq<u8>) -> Seq<u8> {
    base64_encoded(data) + seq!['\r' as u8, '\n' as u8]
}

/// Parses one line of an authentication exchange.
pub fn authenticate_data<'a>(input: &'a [u8], relaxed: bool) -> (r: IMAPResult<
    'a,
    AuthenticateData,
>)
    ensures
        agrees(r, spec_authenticate_data(input@, relaxed)),
{
    let (r1, data) = base64(input)?;
    let (r2, _) = crlf(r1, relaxed)?;
    Ok((r2, AuthenticateData(Secret::new(data))))
}

impl Encoder for AuthenticateData {
    open spec fn wire(v: Seq<u8>) -> Seq<u8> {
        spec_encode_authenticate_data(v)
    }

    fn encode_into(&self, out: &mut Vec<u8>) {
        let ghost start = out@;
        let text = encode_base64(self.0.declassify().as_slice());
        put(out, text.as_slice());
        out.push('\r' as u8);
        out.push('\n' as u8);
        assert(out@ =~= start + spec_encode_authenticate_data(self.deep_view()));
    }
}

} // verus!
