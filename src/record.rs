//! Credential rows as read from the store, and their decoding into text.

use vstd::prelude::*;
use crate::cache::{CredentialCache, Entry, entries_view, map_of};

verus! {

/// One row of the credential table.
///
/// `permlevel` and `rate_limited` are carried along but not acted upon.
pub struct PiApiToken {
    pub id: i64,
    pub userid: i64,
    pub keyval: Vec<u8>,
    pub secretval: Vec<u8>,
    pub permlevel: i32,
    pub rate_limited: i32,
}

/// The text that a byte sequence encodes as UTF-8, or `None` when it is not
/// valid UTF-8.
pub uninterp spec fn utf8_decoded(b: Seq<u8>) -> Option<Seq<char>>;

/// Relies on `String::from_utf8`: it succeeds exactly on valid UTF-8, and the
/// text it yields depends on the bytes alone.
#[verifier::external_body]
fn decode_utf8(b: Vec<u8>) -> (r: Option<String>)
    ensures
        r is Some <==> utf8_decoded(b@) is Some,
        r is Some ==> r->0@ == utf8_decoded(b@)->0,
{
    String::from_utf8(b).ok()
}

/// Both the key and the secret of a row are valid UTF-8.
pub open spec fn token_decodes(t: PiApiToken) -> bool {
    utf8_decoded(t.keyval@) is Some && utf8_decoded(t.secretval@) is Some
}

/// The (key, secret) text of a row that decodes.
pub open spec fn token_entry(t: PiApiToken) -> (Seq<char>, Seq<char>) {
    (utf8_decoded(t.keyval@)->0, utf8_decoded(t.secretval@)->0)
}

/// The (key, secret) texts of rows, in order.
pub open spec fn tokens_entries(ts: Seq<PiApiToken>) -> Seq<(Seq<char>, Seq<char>)> {
    ts.map_values(|t: PiApiToken| token_entry(t))
}

/// Every row decodes.
pub open spec fn all_decode(ts: Seq<PiApiToken>) -> bool {
    forall|i: int| 0 <= i < ts.len() ==> #[trigger] token_decodes(ts[i])
}

/// A row whose bytes are not UTF-8; the whole load is abandoned on it.
#[derive(Debug, Clone, Copy, PartialEq, Eq, Structural)]
pub enum LoadError {
    /// The public key of the row at this position is not UTF-8.
    KeyNotUtf8(usize),
    /// The secret of the row at this position is not UTF-8.
    SecretNotUtf8(usize),
}

/// What `decode_tokens` owes on `ts`: the pairs when every row decodes,
/// otherwise the first failing row, the key checked before the secret.
pub open spec fn decode_outcome_ok(ts: Seq<PiApiToken>, r: Result<Seq<(Seq<char>, Seq<char>)>, LoadError>) -> bool {
    match r {
        Ok(v) => all_decode(ts) && v == tokens_entries(ts),
        Err(LoadError::KeyNotUtf8(i)) => i < ts.len() && all_decode(ts.take(i as int))
            && utf8_decoded(ts[i as int].keyval@) is None,
        Err(LoadError::SecretNotUtf8(i)) => i < ts.len() && all_decode(ts.take(i as int))
            && utf8_decoded(ts[i as int].keyval@) is Some
            && utf8_decoded(ts[i as int].secretval@) is None,
    }
}

/// Decodes the key and secret of every row, in order. Fails on the first row
/// that is not UTF-8: no partial result is returned.
pub fn decode_tokens(tokens: &Vec<PiApiToken>) -> (r: Result<Vec<Entry>, LoadError>)
    ensures
        r is Ok <==> all_decode(tokens@),
        decode_outcome_ok(
            tokens@,
            match r {
                Ok(v) => Ok(entries_view(v@)),
                Err(e) => Err(e),
            },
        ),
{
    let mut out: Vec<Entry> = Vec::new();
    let n = tokens.len();
    let mut i: usize = 0;
    while i < n
        invariant
            n == tokens@.len(),
            i <= n,
            all_decode(tokens@.take(i as int)),
            entries_view(out@) == tokens_entries(tokens@.take(i as int)),
        decreases n - i,
    {
        let t = &tokens[i];
        let key = decode_utf8(t.keyval.clone());
        let key = match key {
            Some(k) => k,
            None => {
                proof {
                    assert(!token_decodes(tokens@[i as int]));
                }
                return Err(LoadError::KeyNotUtf8(i));
            },
        };
        let secret = decode_utf8(t.secretval.clone());
        let secret = match secret {
            Some(s) => s,
            None => {
                proof {
                    assert(!token_decodes(tokens@[i as int]));
                }
                return Err(LoadError::SecretNotUtf8(i));
            },
        };
        let ghost prev = out@;
        out.push((key, secret));
        proof {
            let ti = tokens@.take(i as int + 1);
            assert(ti.drop_last() =~= tokens@.take(i as int));
            assert(all_decode(ti)) by {
                assert forall|j: int| 0 <= j < ti.len() implies #[trigger] token_decodes(ti[j]) by {
                    if j < i {
                        assert(ti[j] == tokens@.take(i as int)[j]);
                    }
                }
            }
            assert(entries_view(out@) =~= tokens_entries(ti)) by {
                assert(entries_view(out@) =~= entries_view(prev).push((key@, secret@)));
            }
        }
        i = i + 1;
    }
    assert(tokens@.take(n as int) =~= tokens@);
    Ok(out)
}

/// Decodes every row and builds the cache from the pairs in row order (a
/// later row wins on a repeated key). Any undecodable row fails the whole load.
pub fn load_tokens(tokens: &Vec<PiApiToken>) -> (r: Result<CredentialCache, LoadError>)
    ensures
        r is Ok <==> all_decode(tokens@),
        r is Ok ==> r->Ok_0.wf() && r->Ok_0@ == map_of(tokens_entries(tokens@)),
        r is Err ==> decode_outcome_ok(tokens@, Err(r->Err_0)),
{
    match decode_tokens(tokens) {
        Ok(pairs) => Ok(CredentialCache::build(&pairs)),
        Err(e) => Err(e),
    }
}

} // verus!
