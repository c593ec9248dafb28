//! The one-time load at process start: from what the store returned to a
//! ready cache, or to a fatal error that stops the process.

use vstd::prelude::*;
use crate::cache::{CredentialCache, map_of};
use crate::config::{ConfigError, config_exit_code};
use crate::gate::{VerificationPolicy, rejection_for};
use crate::record::{LoadError, PiApiToken, all_decode, decode_outcome_ok, tokens_entries};

verus! {

/// How reading the credential rows from the store failed.
#[derive(Debug, Clone, Copy, PartialEq, Eq, Structural)]
pub enum StoreFailure {
    /// The store could not be connected to (network, authentication, host).
    Unreachable,
    /// The query failed or returned a malformed row.
    QueryFailed,
}

/// A failure that must stop the process before it serves any request.
#[derive(Debug, Clone, Copy, PartialEq, Eq, Structural)]
pub enum StartupError {
    /// A required setting is missing.
    Config(ConfigError),
    /// The credential store could not be reached.
    StoreUnreachable,
    /// The credential rows could not be read.
    QueryFailed,
    /// A credential row is not valid UTF-8.
    Decode(LoadError),
}

impl StartupError {
    /// The non-zero process exit code: 1 to 5 for the settings, 6 when the
    /// store cannot be reached, 7 when the credential rows cannot be loaded.
    pub fn exit_code(&self) -> (r: i32)
        ensures
            r != 0,
            match *self {
                StartupError::Config(c) => r == config_exit_code(c),
                StartupError::StoreUnreachable => r == 6,
                StartupError::QueryFailed => r == 7,
                StartupError::Decode(_) => r == 7,
            },
    {
        match *self {
            StartupError::Config(c) => c.exit_code(),
            StartupError::StoreUnreachable => 6,
            StartupError::QueryFailed => 7,
            StartupError::Decode(_) => 7,
        }
    }
}

/// Turns what the store returned into the ready cache. A store failure or
/// an undecodable row is fatal: no cache, partial or empty, comes out of it.
pub fn refresh_kv_apikeys(fetched: Result<Vec<PiApiToken>, StoreFailure>) -> (r: Result<
    CredentialCache,
    StartupError,
>)
    ensures
        fetched == Err::<Vec<PiApiToken>, StoreFailure>(StoreFailure::Unreachable) ==> r
            == Err::<CredentialCache, StartupError>(StartupError::StoreUnreachable),
        fetched == Err::<Vec<PiApiToken>, StoreFailure>(StoreFailure::QueryFailed) ==> r
            == Err::<CredentialCache, StartupError>(StartupError::QueryFailed),
        fetched is Ok ==> (r is Ok <==> all_decode(fetched->Ok_0@)),
        fetched is Ok && r is Ok ==> r->Ok_0.wf() && r->Ok_0@ == map_of(
            tokens_entries(fetched->Ok_0@),
        ),
        fetched is Ok && r is Err ==> exists|e: LoadError|
            r->Err_0 == StartupError::Decode(e) && decode_outcome_ok(fetched->Ok_0@, Err(e)),
{
    match fetched {
        Err(StoreFailure::Unreachable) => Err(StartupError::StoreUnreachable),
        Err(StoreFailure::QueryFailed) => Err(StartupError::QueryFailed),
        Ok(rows) => match crate::record::load_tokens(&rows) {
            Ok(cache) => Ok(cache),
            Err(e) => Err(StartupError::Decode(e)),
        },
    }
}

/// A store that holds no rows is not a load failure: the load succeeds with
/// an empty cache, and every request is then rejected.
pub proof fn law_empty_store_starts_empty(rows: Seq<PiApiToken>)
    requires
        rows.len() == 0,
    ensures
        all_decode(rows),
        map_of(tokens_entries(rows)) == Map::<Seq<char>, Seq<char>>::empty(),
        forall|policy: VerificationPolicy, key: Option<String>, secret: Option<String>|
            #[trigger] rejection_for(map_of(tokens_entries(rows)), policy, key, secret) is Some,
{
    assert(tokens_entries(rows) =~= Seq::empty());
    assert(map_of(tokens_entries(rows)) =~= Map::empty());
}

} // verus!
