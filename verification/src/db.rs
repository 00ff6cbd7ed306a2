//! The handle of the store.
//!
//! The hub runs with or without a store. The handle holds the connection
//! pool where there is one; the pool itself is made and used by the program
//! around the library.

use vstd::prelude::*;

verus! {

/// How long a connection may take to be acquired, in seconds.
pub const ACQUIRE_TIMEOUT_SECS: u64 = 3;

/// The handle of the store: the connection pool, once there is one.
pub struct Db<P> {
    pub pool: Option<P>,
}

/// What to connect to, and how long to wait for a connection.
#[derive(Debug, PartialEq, Eq)]
pub struct ConnectPlan {
    pub database_url: String,
    pub acquire_timeout_secs: u64,
}

/// Why the store cannot be used.
#[derive(Clone, Copy, Debug, PartialEq, Eq, Structural)]
pub enum DbError {
    NotConnected,
}

impl DbError {
    /// The error in words.
    pub fn message(&self) -> (s: String)
        ensures
            s@ == "Not connected to database"@,
    {
        "Not connected to database".to_owned()
    }
}

impl<P> Db<P> {
    /// A handle without a pool.
    pub fn new() -> (r: Db<P>)
        ensures
            r.pool is None,
    {
        Db { pool: None }
    }
}

/// What to connect to: nothing where no address of a store is given.
pub fn plan_connection(database_url: Option<String>) -> (r: Option<ConnectPlan>)
    ensures
        r == match database_url {
            Some(url) => Some(
                ConnectPlan { database_url: url, acquire_timeout_secs: ACQUIRE_TIMEOUT_SECS },
            ),
            None => None,
        },
{
    match database_url {
        Some(url) => Some(
            ConnectPlan { database_url: url, acquire_timeout_secs: ACQUIRE_TIMEOUT_SECS },
        ),
        None => None,
    }
}

/// Takes in how the attempt to connect ended: `None` where no store is
/// configured and none was made, else the pool or the failure. A pool is
/// kept unless the handle holds one already. The result is `Some` where
/// the attempt gave a pool.
pub fn init_db<P, E>(db: &mut Db<P>, outcome: Option<Result<P, E>>) -> (r: Option<()>)
    ensures
        match outcome {
            Some(Ok(pool)) => r is Some && final(db).pool == match old(db).pool {
                Some(held) => Some(held),
                None => Some(pool),
            },
            _ => r is None && final(db).pool == old(db).pool,
        },
{
    match outcome {
        Some(Ok(pool)) => {
            if db.pool.is_none() {
                db.pool = Some(pool);
            }
            Some(())
        },
        _ => None,
    }
}

/// The pool, or the error that there is none.
pub fn get_db_connection<P>(db: &Db<P>) -> (r: Result<&P, DbError>)
    ensures
        match r {
            Ok(pool) => db.pool == Some(*pool),
            Err(e) => db.pool is None && e == DbError::NotConnected,
        },
{
    match &db.pool {
        Some(pool) => Ok(pool),
        None => Err(DbError::NotConnected),
    }
}

/// Whether the store can be used.
pub fn is_db_available<P>(db: &Db<P>) -> (b: bool)
    ensures
        b == (db.pool is Some),
{
    db.pool.is_some()
}

} // verus!
