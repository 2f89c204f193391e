use vstd::prelude::*;
use vstd::string::StringExecFns;

verus! {

/// The identity of the requesting player, when the request carries one.
#[derive(Debug, Clone, PartialEq, Eq)]
pub struct MaybeUserId(pub Option<String>);

/// The identity of a player whose login is required.
#[derive(Debug, Clone, PartialEq, Eq)]
pub struct UserId(pub String);

/// A result that is either computed later by `F` or already at hand.
///
/// A ready value is handed out once; asking again yields nothing.
pub enum MaybeFuture<O, F> {
    Future(F),
    Value(Option<O>),
}

impl<O, F> MaybeFuture<O, F> {
    /// A result still to be computed by `fut`.
    pub fn new_future(fut: F) -> (r: Self)
        ensures
            r == MaybeFuture::<O, F>::Future(fut),
    {
        MaybeFuture::Future(fut)
    }

    /// A result that is already known.
    pub fn new_value(value: O) -> (r: Self)
        ensures
            r == MaybeFuture::<O, F>::Value(Some(value)),
    {
        MaybeFuture::Value(Some(value))
    }

    /// Takes the ready value out, if there is one; a pending computation is left as it is.
    pub fn take_value(&mut self) -> (r: Option<O>)
        ensures
            match *old(self) {
                MaybeFuture::Future(_) => r.is_none() && *final(self) == *old(self),
                MaybeFuture::Value(v) => r == v && *final(self) == MaybeFuture::<O, F>::Value(None),
            },
    {
        match self {
            MaybeFuture::Future(_) => None,
            MaybeFuture::Value(v) => v.take(),
        }
    }
}

/// The answer to a request that needs a login: a redirect to the login page,
/// which sends the player back to `redirect_to` afterwards.
#[derive(Debug)]
pub struct RedirectToLogin {
    pub redirect_to: String,
}

pub open spec fn login_path() -> Seq<char> {
    "/api/auth/login?origin="@
}

impl RedirectToLogin {
    /// The target of the redirect.
    pub fn location(&self) -> (r: String)
        ensures
            r@ == login_path() + self.redirect_to@,
    {
        let base = String::from_str("/api/auth/login?origin=");
        base.concat(self.redirect_to.as_str())
    }
}

} // verus!
