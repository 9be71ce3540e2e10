//! Attaching context to failed results.
use vstd::prelude::*;

use crate::error::{err_msg, Error};

verus! {

/// `after` is `before` with the context `ctx` attached: a success passes
/// through, a failure becomes an error of context `ctx` caused by the
/// original error.
pub open spec fn attached<T>(before: Result<T, Error>, ctx: Seq<char>, after: Result<T, Error>) -> bool {
    match before {
        Ok(v) => after == Ok::<T, Error>(v),
        Err(x) => after matches Err(e) && e.made_from(ctx, Some(x)),
    }
}

/// Attaching a context to a failure gives an error that displays as that
/// context, whose chain continues with the original error: one step along
/// the chain shows the original message.
pub proof fn lemma_context_round_trip<T>(before: Result<T, Error>, ctx: Seq<char>, after: Result<T, Error>)
    requires
        before is Err,
        attached(before, ctx, after),
    ensures
        after matches Err(e) && {
            &&& e.display_spec() == ctx
            &&& e.source_spec() == Some(before->Err_0)
            &&& e.messages().len() >= 2
            &&& e.messages()[1] == before->Err_0.display_spec()
            &&& e.messages().drop_first() == before->Err_0.messages()
        },
{
    let x = before->Err_0;
    let e = after->Err_0;
    Error::lemma_new_displays_context(e, ctx, x);
    x.lemma_chain_shape();
    assert(e.messages().drop_first() =~= x.messages());
}

/// Adds context to the error of a failed result.
pub trait ResultExt<T>: Sized {
    /// The outcome this value stands for.
    spec fn outcome(self) -> Result<T, Error>;

    /// On failure, wraps the error as the cause of a new error whose
    /// context is `ctx`; on success, passes the value through.
    fn context(self, ctx: &str) -> (r: Result<T, Error>)
        ensures
            attached(self.outcome(), ctx@, r),
    ;

    /// As `context`, but the context is produced by `ctx_fn`, which is
    /// called on failure only: on success it need not even be callable.
    fn with_context<F: FnOnce() -> String>(self, ctx_fn: F) -> (r: Result<T, Error>)
        requires
            self.outcome() is Err ==> ctx_fn.requires(()),
        ensures
            match self.outcome() {
                Ok(v) => r == Ok::<T, Error>(v),
                Err(x) => r matches Err(e) && exists|s: String|
                    ctx_fn.ensures((), s) && #[trigger] e.made_from(s@, Some(x)),
            },
    ;
}

impl<T> ResultExt<T> for Result<T, Error> {
    open spec fn outcome(self) -> Result<T, Error> {
        self
    }

    fn context(self, ctx: &str) -> (r: Result<T, Error>) {
        match self {
            Ok(v) => Ok(v),
            Err(x) => Err(Error::new(ctx, x)),
        }
    }

    fn with_context<F: FnOnce() -> String>(self, ctx_fn: F) -> (r: Result<T, Error>) {
        match self {
            Ok(v) => Ok(v),
            Err(x) => {
                let s = ctx_fn();
                Err(Error::new(s.as_str(), x))
            },
        }
    }
}

/// Fails with an error of context `ctx` and no cause.
pub fn bail<T>(ctx: &str) -> (r: Result<T, Error>)
    ensures
        r matches Err(e) && e.made_from(ctx@, None),
{
    Err(err_msg(ctx))
}

/// Succeeds when `cond` holds, else fails with an error of context `ctx`
/// and no cause.
pub fn ensure(cond: bool, ctx: &str) -> (r: Result<(), Error>)
    ensures
        cond <==> r is Ok,
        r matches Err(e) ==> e.made_from(ctx@, None),
{
    if cond {
        Ok(())
    } else {
        Err(err_msg(ctx))
    }
}

} // verus!
