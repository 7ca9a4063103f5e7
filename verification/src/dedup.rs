//! Fingerprint-keyed deduplication cache.
//!
//! A request's fingerprint is a 256-bit digest of its payload followed by
//! its deduplication context, rendered as 64 hex characters. The agent is
//! deliberately left out, so independent agents sharing payload and context
//! hit the same entry. Entries answer only within their time-to-live.

use vstd::prelude::*;

verus! {

use vstd::map::*;
use vstd::slice::slice_to_vec;
use vstd::string::StrSliceExecFns;
use vstd::string::StringSliceAdditionalSpecFns;
use vstd::utf8::encode_utf8;
use crate::keymap::KeyMap;
use crate::protocol::AiMessage;

/// The 32-byte digest the hash function assigns to some bytes; it depends
/// on those bytes alone.
pub uninterp spec fn digest_of(input: Seq<u8>) -> Seq<u8>;

/// Relies on `blake3::hash`: a 32-byte digest computed from the input bytes
/// alone.
#[verifier::external_body]
fn blake3_digest(input: &[u8]) -> (r: Vec<u8>)
    ensures
        r@ == digest_of(input@),
        r@.len() == 32,
{
    blake3::hash(input).as_bytes().to_vec()
}

/// One lower-case hexadecimal digit.
pub open spec fn hex_digit(d: int) -> char
    recommends
        0 <= d < 16,
{
    if d < 10 {
        ((48 + d) as u8) as char
    } else {
        ((87 + d) as u8) as char
    }
}

/// Lower-case hexadecimal text of some bytes: two digits per byte, high
/// nibble first.
pub open spec fn hex_of(b: Seq<u8>) -> Seq<char> {
    Seq::new(
        2 * b.len(),
        |i: int|
            if i % 2 == 0 {
                hex_digit((b[i / 2] as int) / 16)
            } else {
                hex_digit((b[i / 2] as int) % 16)
            },
    )
}

/// Relies on `hex::encode`: two lower-case hexadecimal digits per input
/// byte, high nibble first.
#[verifier::external_body]
fn hex_encode(b: &Vec<u8>) -> (r: String)
    ensures
        r@ == hex_of(b@),
{
    hex::encode(b.as_slice())
}

/// The fingerprint of a payload and its deduplication context.
pub open spec fn spec_fingerprint(payload: Seq<u8>, context: Seq<char>) -> Seq<char> {
    hex_of(digest_of(payload + encode_utf8(context)))
}

/// What a cache holds, mathematically: fingerprint to record time and
/// result bytes.
pub open spec fn spec_record(
    m: Map<Seq<char>, (i64, Seq<u8>)>,
    fp: Seq<char>,
    result: Seq<u8>,
    now: i64,
) -> Map<Seq<char>, (i64, Seq<u8>)> {
    m.insert(fp, (now, result))
}

/// What a lookup answers: the stored bytes, if the entry exists and is
/// still within its time-to-live.
pub open spec fn spec_check(
    m: Map<Seq<char>, (i64, Seq<u8>)>,
    fp: Seq<char>,
    now: i64,
    ttl_secs: u64,
) -> Option<Seq<u8>> {
    if m.dom().contains(fp) && now - m[fp].0 < ttl_secs {
        Some(m[fp].1)
    } else {
        None
    }
}

/// A record answers every lookup within its time-to-live: once `record` ran
/// at `t`, a `check` at any `t_check` before `t + ttl` returns the recorded
/// bytes, absent a newer record or an eviction in between.
pub proof fn lemma_record_then_check(
    m: Map<Seq<char>, (i64, Seq<u8>)>,
    fp: Seq<char>,
    result: Seq<u8>,
    t: i64,
    t_check: i64,
    ttl_secs: u64,
)
    requires
        t <= t_check,
        t_check - t < ttl_secs,
    ensures
        spec_check(spec_record(m, fp, result, t), fp, t_check, ttl_secs) == Some(result),
{
}

/// The deduplication cache: an in-memory fingerprint map with a fixed
/// time-to-live in seconds.
pub struct SemanticDeduplicator {
    cache: KeyMap<(i64, Vec<u8>)>,
    ttl_secs: u64,
}

impl SemanticDeduplicator {
    /// The mathematical content of the cache.
    pub closed spec fn as_model(&self) -> Map<Seq<char>, (i64, Seq<u8>)> {
        Map::new(
            |fp: Seq<char>| self.cache.contains_key(fp),
            |fp: Seq<char>| (self.cache.val_of(fp).0, self.cache.val_of(fp).1@),
        )
    }

    pub closed spec fn spec_ttl_secs(&self) -> u64 {
        self.ttl_secs
    }

    pub closed spec fn wf(&self) -> bool {
        self.cache.wf()
    }

    pub closed spec fn spec_size(&self) -> nat {
        self.cache.num_entries()
    }

    pub fn new(ttl_secs: u64) -> (r: Self)
        ensures
            r.wf(),
            r.spec_ttl_secs() == ttl_secs,
            r.as_model() == Map::<Seq<char>, (i64, Seq<u8>)>::empty(),
            r.spec_size() == 0,
    {
        let r = SemanticDeduplicator { cache: KeyMap::new(), ttl_secs };
        proof {
            assert(r.as_model() =~= Map::<Seq<char>, (i64, Seq<u8>)>::empty());
        }
        r
    }

    /// The fingerprint of a message: digest of payload then context, in
    /// hex.
    pub fn compute_hash(&self, message: &AiMessage) -> (r: String)
        ensures
            r@ == spec_fingerprint(message.payload@, message.dedup_context@),
            r@.len() == 64,
    {
        let mut input: Vec<u8> = Vec::new();
        input.extend_from_slice(message.payload.as_slice());
        input.extend_from_slice(message.dedup_context.as_str().as_bytes());
        proof {
            assert(input@ =~= message.payload@ + encode_utf8(message.dedup_context@));
        }
        let digest = blake3_digest(input.as_slice());
        hex_encode(&digest)
    }

    /// Look a message up. A live entry answers with its bytes and leaves
    /// the cache as it is; an expired entry is evicted; a miss changes
    /// nothing.
    pub fn check_duplicate(&mut self, message: &AiMessage, now_secs: i64) -> (r: Option<Vec<u8>>)
        requires
            old(self).wf(),
        ensures
            final(self).wf(),
            final(self).spec_ttl_secs() == old(self).spec_ttl_secs(),
            ({
                let fp = spec_fingerprint(message.payload@, message.dedup_context@);
                let looked = spec_check(old(self).as_model(), fp, now_secs, old(
                    self,
                ).spec_ttl_secs());
                &&& (looked matches Some(bytes) ==> (r matches Some(v) && v@ == bytes && final(self).as_model() == old(self).as_model()))
                &&& (looked is None ==> r is None)
                &&& (looked is None && old(self).as_model().dom().contains(fp) ==> final(self).as_model() == old(self).as_model().remove(fp))
                &&& (!old(self).as_model().dom().contains(fp) ==> final(self).as_model() == old(
                    self,
                ).as_model())
            }),
    {
        let fp = self.compute_hash(message);
        let hit = match self.cache.get(fp.as_str()) {
            Some(entry) => {
                if (now_secs as i128) - (entry.0 as i128) < self.ttl_secs as i128 {
                    Some(slice_to_vec(entry.1.as_slice()))
                } else {
                    None
                }
            },
            None => {
                proof {
                    assert(self.as_model() =~= old(self).as_model());
                }
                return None;
            },
        };
        match hit {
            Some(v) => {
                proof {
                    assert(self.as_model() =~= old(self).as_model());
                }
                Some(v)
            },
            None => {
                self.cache.remove(fp.as_str());
                proof {
                    assert(self.as_model() =~= old(self).as_model().remove(fp@));
                }
                None
            },
        }
    }

    /// Store the result for a message under its fingerprint, stamped with
    /// the current time.
    pub fn record(&mut self, message: &AiMessage, result: Vec<u8>, now_secs: i64)
        requires
            old(self).wf(),
        ensures
            final(self).wf(),
            final(self).spec_ttl_secs() == old(self).spec_ttl_secs(),
            final(self).as_model() == spec_record(
                old(self).as_model(),
                spec_fingerprint(message.payload@, message.dedup_context@),
                result@,
                now_secs,
            ),
    {
        let fp = self.compute_hash(message);
        self.cache.insert(fp, (now_secs, result));
        proof {
            assert(self.as_model() =~= spec_record(
                old(self).as_model(),
                spec_fingerprint(message.payload@, message.dedup_context@),
                result@,
                now_secs,
            ));
        }
    }

    /// Sweep the cache: every entry past its time-to-live leaves. Returns
    /// how many were dropped.
    pub fn cleanup(&mut self, now_secs: i64) -> (r: usize)
        requires
            old(self).wf(),
        ensures
            final(self).wf(),
            final(self).spec_ttl_secs() == old(self).spec_ttl_secs(),
            forall|fp: Seq<char>|
                #[trigger] final(self).as_model().dom().contains(fp) <==> (old(
                    self,
                ).as_model().dom().contains(fp) && now_secs - old(self).as_model()[fp].0 < old(
                    self,
                ).spec_ttl_secs()),
            forall|fp: Seq<char>|
                #[trigger] final(self).as_model().dom().contains(fp) ==> final(self).as_model()[fp]
                    == old(self).as_model()[fp],
            r == old(self).spec_size() - final(self).spec_size(),
            final(self).spec_size() <= old(self).spec_size(),
    {
        let ghost oes = self.cache.entries_seq();
        let n = self.cache.len();
        let mut kept: KeyMap<(i64, Vec<u8>)> = KeyMap::new();
        let mut i: usize = 0;
        while i < n
            invariant
                self.cache.wf(),
                oes == self.cache.entries_seq(),
                n == self.cache.num_entries(),
                i <= n,
                kept.wf(),
                kept.num_entries() <= i,
                forall|fp: Seq<char>|
                    #[trigger] kept.contains_key(fp) <==> (self.cache.contains_key(fp)
                        && self.cache.index_of(fp) < i && now_secs - self.cache.val_of(fp).0
                        < self.ttl_secs),
                forall|fp: Seq<char>|
                    #[trigger] kept.contains_key(fp) ==> kept.val_of(fp).0 == self.cache.val_of(
                        fp,
                    ).0 && kept.val_of(fp).1@ == self.cache.val_of(fp).1@,
            decreases n - i,
        {
            let ts: i64 = self.cache.val_at(i).0;
            if (now_secs as i128) - (ts as i128) < self.ttl_secs as i128 {
                let key = self.cache.key_at(i).clone();
                let bytes = slice_to_vec(self.cache.val_at(i).1.as_slice());
                proof {
                    self.cache.lemma_index_unique(oes[i as int].0, i as int);
                    assert(!kept.contains_key(key@));
                }
                kept.insert(key, (ts, bytes));
            } else {
                proof {
                    self.cache.lemma_index_unique(oes[i as int].0, i as int);
                }
            }
            proof {
                assert forall|fp: Seq<char>| #[trigger] kept.contains_key(fp) implies (
                self.cache.contains_key(fp) && self.cache.index_of(fp) < i + 1 && now_secs
                    - self.cache.val_of(fp).0 < self.ttl_secs) by {}
            }
            i += 1;
        }
        let total = n;
        let surviving = kept.len();
        self.cache = kept;
        proof {
            assert forall|fp: Seq<char>| #[trigger] self.as_model().dom().contains(fp) <==> (old(
                self,
            ).as_model().dom().contains(fp) && now_secs - old(self).as_model()[fp].0 < old(
                self,
            ).spec_ttl_secs()) by {}
        }
        total - surviving
    }

    /// How many entries the cache holds.
    pub fn cache_size(&self) -> (r: usize)
        ensures
            r == self.spec_size(),
    {
        self.cache.len()
    }
}

} // verus!
