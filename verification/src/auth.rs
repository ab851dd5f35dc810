//! The login flow: the credential store's narrow interface and the
//! authentication decision built on it.
//!
//! The store is a table of credential rows looked up by an exact,
//! parameterized (login, digest) match — the pair is bound as values, never
//! spliced into query text. Authentication digests the supplied password,
//! performs the lookup, and issues a token for the login on a hit; a miss
//! is the generic denial, indistinguishable whether the login or the
//! password was wrong, and never an error.

use vstd::prelude::*;
use vstd::utf8::encode_utf8;
use crate::bytes_eq;
use crate::data::UserLogin;
use crate::password::password_digest;
use crate::password::password_digest_of;
use crate::token::issue;
use crate::token::token_of;

verus! {

/// One credential row: a login identifier and the stored password digest.
pub struct CredentialRow {
    pub login: Vec<u8>,
    pub digest: Vec<u8>,
}

/// An in-memory credential table with the relational store's narrow
/// interface: rows go in whole, and come out only through an exact
/// (login, digest) lookup that returns zero or one row.
pub struct CredentialStore {
    rows: Vec<CredentialRow>,
}

impl View for CredentialStore {
    type V = Seq<(Seq<u8>, Seq<u8>)>;

    /// The store as a sequence of (login, digest) pairs.
    closed spec fn view(&self) -> Seq<(Seq<u8>, Seq<u8>)> {
        self.rows@.map(|i: int, r: CredentialRow| (r.login@, r.digest@))
    }
}

/// Whether some row of a store holds exactly this login and digest.
pub open spec fn has_credential(rows: Seq<(Seq<u8>, Seq<u8>)>, login: Seq<u8>, digest: Seq<u8>) -> bool {
    exists|i: int| 0 <= i < rows.len() && rows[i].0 == login && rows[i].1 == digest
}

impl CredentialStore {
    /// An empty store.
    pub fn new() -> (s: Self)
        ensures
            s@ == Seq::<(Seq<u8>, Seq<u8>)>::empty(),
    {
        let s = CredentialStore { rows: Vec::new() };
        proof {
            assert(s@ =~= Seq::<(Seq<u8>, Seq<u8>)>::empty());
        }
        s
    }

    /// Adds one credential row.
    pub fn add_row(&mut self, login: Vec<u8>, digest: Vec<u8>)
        ensures
            final(self)@ == old(self)@.push((login@, digest@)),
    {
        let ghost l = login@;
        let ghost d = digest@;
        self.rows.push(CredentialRow { login, digest });
        proof {
            assert(self@ =~= old(self)@.push((l, d)));
        }
    }

    /// The parameterized lookup: returns a reference to the first row whose
    /// login and digest both match the bound values, or nothing.
    pub fn find(&self, login: &[u8], digest: &[u8]) -> (r: Option<&CredentialRow>)
        ensures
            match r {
                Option::Some(row) => {
                    &&& row.login@ == login@
                    &&& row.digest@ == digest@
                    &&& has_credential(self@, login@, digest@)
                },
                Option::None => !has_credential(self@, login@, digest@),
            },
    {
        let n = self.rows.len();
        let mut i: usize = 0;
        while i < n
            invariant
                0 <= i <= n,
                n == self.rows@.len(),
                self@.len() == self.rows@.len(),
                forall|k: int|
                    0 <= k < i ==> !(self@[k].0 == login@ && self@[k].1 == digest@),
            decreases n - i,
        {
            let row = &self.rows[i];
            if bytes_eq(row.login.as_slice(), login) && bytes_eq(row.digest.as_slice(), digest) {
                proof {
                    assert(self@[i as int].0 == login@ && self@[i as int].1 == digest@);
                }
                return Option::Some(row);
            }
            i = i + 1;
        }
        proof {
            if has_credential(self@, login@, digest@) {
                let k = choose|k: int|
                    0 <= k < self@.len() && self@[k].0 == login@ && self@[k].1 == digest@;
                assert(false);
            }
        }
        Option::None
    }
}

/// The outcome of a login attempt: a signed token, or the generic denial.
pub enum AuthOutcome {
    Token(Vec<u8>),
    Denied,
}

/// The text of the generic denial: it does not reveal whether the login or
/// the password was wrong.
pub fn denial_message() -> (m: &'static str)
    ensures
        m@ == "Incorrect username or password"@,
{
    "Incorrect username or password"
}

/// The login flow: digests the password, looks up the (login, digest) pair,
/// and on a hit issues a token whose subject is the login. A miss is the
/// generic denial — a normal outcome, never an error.
pub fn authenticate(
    store: &CredentialStore,
    login: &[u8],
    password: &[u8],
    secret: &[u8],
) -> (r: AuthOutcome)
    ensures
        match r {
            AuthOutcome::Token(t) => {
                &&& has_credential(store@, login@, password_digest_of(password@))
                &&& t@ == token_of(login@, secret@)
            },
            AuthOutcome::Denied => !has_credential(
                store@,
                login@,
                password_digest_of(password@),
            ),
        },
{
    let digest = password_digest(password);
    match store.find(login, digest.as_slice()) {
        Option::Some(_row) => AuthOutcome::Token(issue(login, secret)),
        Option::None => AuthOutcome::Denied,
    }
}

/// The login handler's core: authenticates the email and password carried
/// by a login body, as bytes of their UTF-8 text.
pub fn login(store: &CredentialStore, request: &UserLogin, secret: &[u8]) -> (r: AuthOutcome)
    ensures
        match r {
            AuthOutcome::Token(t) => {
                &&& has_credential(
                    store@,
                    encode_utf8(request.email@),
                    password_digest_of(encode_utf8(request.password@)),
                )
                &&& t@ == token_of(encode_utf8(request.email@), secret@)
            },
            AuthOutcome::Denied => !has_credential(
                store@,
                encode_utf8(request.email@),
                password_digest_of(encode_utf8(request.password@)),
            ),
        },
{
    authenticate(
        store,
        request.email.as_str().as_bytes(),
        request.password.as_str().as_bytes(),
        secret,
    )
}

} // verus!
