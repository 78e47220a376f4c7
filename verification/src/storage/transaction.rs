//! Traits specifying the interface for database transactions.

use vstd::prelude::*;

verus! {

/// Transaction response
#[derive(Debug)]
#[must_use]
pub enum Response<T> {
    /// Commit the transaction to the storage
    Commit(T),
    /// Abort the transaction
    Abort(T),
}

impl<T> Response<T> {
    /// The value inside, whichever way the transaction ends.
    pub open spec fn spec_value(self) -> T {
        match self {
            Response::Commit(v) => v,
            Response::Abort(v) => v,
        }
    }

    /// Extract the return value from the response.
    pub fn value(self) -> (r: T)
        ensures
            r == self.spec_value(),
    {
        match self {
            Self::Commit(v) => v,
            Self::Abort(v) => v,
        }
    }

    /// Whether the transaction is to be committed.
    pub fn is_commit(&self) -> (r: bool)
        ensures
            r == (self is Commit),
    {
        match self {
            Self::Commit(_) => true,
            Self::Abort(_) => false,
        }
    }
}

/// Commit a transaction, returning given value
#[must_use]
pub fn commit<T, E>(ret: T) -> (r: Result<Response<T>, E>)
    ensures
        r == Ok::<Response<T>, E>(Response::Commit(ret)),
{
    Ok(Response::Commit(ret))
}

/// Abort a transaction, returning given value
#[must_use]
pub fn abort<T, E>(ret: T) -> (r: Result<Response<T>, E>)
    ensures
        r == Ok::<Response<T>, E>(Response::Abort(ret)),
{
    Ok(Response::Abort(ret))
}

/// What is to be done with a read-write transaction once its body has run.
#[derive(Clone, Copy, Debug, PartialEq, Eq, Structural)]
pub enum Conclusion {
    /// Write the changes to the storage.
    Commit,
    /// Drop the changes.
    Abort,
    /// The body failed: neither commit nor abort.
    Leave,
}

/// What is to be done with a transaction after its body has returned this.
pub fn conclusion<T, E>(result: &Result<Response<T>, E>) -> (r: Conclusion)
    ensures
        r == match *result {
            Ok(Response::Commit(_)) => Conclusion::Commit,
            Ok(Response::Abort(_)) => Conclusion::Abort,
            Err(_) => Conclusion::Leave,
        },
{
    match result {
        Ok(Response::Commit(_)) => Conclusion::Commit,
        Ok(Response::Abort(_)) => Conclusion::Abort,
        Err(_) => Conclusion::Leave,
    }
}

/// What a read-only transaction returns: the failure to finalize it, if it
/// failed, and else what its body returned.
pub fn finish_ro<R, E>(body: Result<R, E>, finalized: Result<(), E>) -> (r: Result<R, E>)
    ensures
        r == match finalized {
            Err(e) => Err::<R, E>(e),
            Ok(_) => body,
        },
{
    match finalized {
        Err(e) => Err(e),
        Ok(_) => body,
    }
}

/// What a read-write transaction returns: the failure to commit or abort
/// it, if that failed, and else the value that its body returned.
pub fn finish_rw<R, E>(body: Result<Response<R>, E>, concluded: Result<(), E>) -> (r: Result<R, E>)
    ensures
        r == match (body, concluded) {
            (Ok(resp), Ok(_)) => Ok::<R, E>(resp.spec_value()),
            (Ok(_), Err(e)) => Err::<R, E>(e),
            (Err(e), _) => Err::<R, E>(e),
        },
{
    match body {
        Ok(resp) => match concluded {
            Ok(_) => Ok(resp.value()),
            Err(e) => Err(e),
        },
        Err(e) => Err(e),
    }
}

/// Low-level interface for read-only database transactions
pub trait TransactionRo: Sized {
    /// Errors that can occur during a transaction.
    type Error;

    /// Finalize the transaction.
    fn finalize(self) -> Result<(), Self::Error>;

    /// Run a read-only transaction.
    ///
    /// High-level convenience method. Prefer this over using a transaction directly.
    ///
    /// The body is run on the transaction, which is then finalized. A
    /// success is what the body returned; a failure is that of finalizing
    /// or, where finalizing went well, that of the body.
    fn run<R, F: FnOnce(&Self) -> Result<R, Self::Error>>(self, tx_body: F) -> (r: Result<
        R,
        Self::Error,
    >)
        requires
            call_requires(tx_body, (&self,)),
        ensures
            r is Ok ==> call_ensures(tx_body, (&self,), r),
    {
        let result = tx_body(&self);
        finish_ro(result, self.finalize())
    }
}

/// Low-level interface for read-write database transactions
pub trait TransactionRw: Sized {
    /// Errors that can occur during a transaction.
    type Error;

    /// Commit a transaction
    fn commit(self) -> Result<(), Self::Error>;

    /// Abort a transaction.
    fn abort(self) -> Result<(), Self::Error>;

    /// Run a read-write transaction.
    ///
    /// High-level convenience method. Prefer this over using the transaction directly.
    ///
    /// The body is run on the transaction, which is then committed or
    /// aborted as the body asks; after a failure of the body it is neither.
    /// A success is the value that the body returned; a failure is that of
    /// the body or else that of committing or aborting.
    fn run<R, F: FnOnce(&mut Self) -> Result<Response<R>, Self::Error>>(self, tx_body: F) -> (r:
        Result<R, Self::Error>)
        requires
            forall|tx: &mut Self| call_requires(tx_body, (tx,)),
        ensures
            r is Ok ==> exists|tx: &mut Self, body: Result<Response<R>, Self::Error>|
                call_ensures(tx_body, (tx,), body) && body is Ok && r == Ok::<R, Self::Error>(
                    body->Ok_0.spec_value(),
                ),
    {
        let mut tx = self;
        let result = tx_body(&mut tx);
        let concluded = match conclusion(&result) {
            Conclusion::Commit => tx.commit(),
            Conclusion::Abort => tx.abort(),
            Conclusion::Leave => Ok(()),
        };
        finish_rw(result, concluded)
    }
}

} // verus!
