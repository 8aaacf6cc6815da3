//! The content-addressed cache: key derivation, the counters, and what the
//! cache decides from the answers of its backing store.
//!
//! The backing store itself is reached by the program around this library.
//! For every operation the library names the key (and the write) that the
//! store is asked about, and turns the store's answer into the operation's
//! result and the new counter values.

use vstd::prelude::*;
use vstd::string::*;
use vstd::utf8::encode_utf8;
use crate::text::{append_bytes, decimal, decimal_string, is_prefix_of, rounded_quotient_of, scaled_ratio, tenths_string, tenths_text};

verus! {

/// The BLAKE3 digest of `input`.
pub uninterp spec fn blake3_digest(input: Seq<u8>) -> Seq<u8>;

/// Calls `blake3::hash` and copies the digest out. The digest is a function
/// of the input bytes alone and always has 32 bytes.
#[verifier::external_body]
fn blake3_hash(input: &[u8]) -> (digest: Vec<u8>)
    ensures
        digest@ == blake3_digest(input@),
        digest@.len() == 32,
{
    blake3::hash(input).as_bytes().to_vec()
}

/// The bytes `0x`.
pub open spec fn hex_prefix() -> Seq<u8> {
    seq![0x30u8, 0x78u8]
}

/// Whether the text starts with `0x`.
pub open spec fn has_hex_prefix(text: Seq<u8>) -> bool {
    is_prefix_of(hex_prefix(), text)
}

/// The text without one leading `0x`, if it has one.
pub open spec fn strip_hex_prefix(text: Seq<u8>) -> Seq<u8> {
    if has_hex_prefix(text) {
        text.skip(2)
    } else {
        text
    }
}

/// The number of bytes of a digest.
pub const DIGEST_LEN: usize = 32;

/// The key suffix that selects the processing mode.
pub open spec fn mode_suffix(skip_resolving: bool) -> Seq<u8> {
    if skip_resolving {
        "_unresolved".spec_bytes()
    } else {
        "_resolved".spec_bytes()
    }
}

/// The key under which the result for `bytecode` in the given mode is kept:
/// the digest of the bytecode text without its `0x`, then the mode suffix.
pub open spec fn cache_key(bytecode: Seq<u8>, skip_resolving: bool) -> Seq<u8> {
    blake3_digest(strip_hex_prefix(bytecode)) + mode_suffix(skip_resolving)
}

/// The bytecode text without one leading `0x`.
pub fn strip_prefix(text: &[u8]) -> (rest: &[u8])
    ensures
        rest@ == strip_hex_prefix(text@),
{
    if text.len() >= 2 && text[0] == 0x30u8 && text[1] == 0x78u8 {
        assert(text@.subrange(0, 2) =~= hex_prefix());
        let rest = vstd::slice::slice_subrange(text, 2, text.len());
        assert(rest@ =~= text@.skip(2));
        rest
    } else {
        proof {
            if text@.len() >= 2 {
                assert(text@.subrange(0, 2)[0] == text@[0]);
                assert(text@.subrange(0, 2)[1] == text@[1]);
                assert(hex_prefix()[0] == 0x30u8);
                assert(hex_prefix()[1] == 0x78u8);
            }
        }
        text
    }
}

/// Puts the mode suffix behind a digest.
pub fn key_from_digest(digest: &[u8], skip_resolving: bool) -> (key: Vec<u8>)
    ensures
        key@ == digest@ + mode_suffix(skip_resolving),
{
    let mut key: Vec<u8> = Vec::new();
    append_bytes(&mut key, digest);
    if skip_resolving {
        append_bytes(&mut key, "_unresolved".as_bytes());
    } else {
        append_bytes(&mut key, "_resolved".as_bytes());
    }
    assert(key@ =~= digest@ + mode_suffix(skip_resolving));
    key
}

/// The key does not depend on a leading `0x`: a bytecode text and the same
/// text without its `0x` have one key, in either mode. Texts that still begin
/// with `0x` after one `0x` was taken off are left out, since only one is
/// ever taken off.
pub proof fn lemma_key_ignores_hex_prefix(bytecode: Seq<u8>, skip_resolving: bool)
    requires
        !has_hex_prefix(strip_hex_prefix(bytecode)),
    ensures
        cache_key(bytecode, skip_resolving) == cache_key(
            strip_hex_prefix(bytecode),
            skip_resolving,
        ),
{
}

/// The bytes of a text with `0x` put in front are the two bytes of `0x` and
/// then the bytes of the text.
pub proof fn lemma_prefix_in_front(text: Seq<char>)
    ensures
        encode_utf8("0x"@ + text) == hex_prefix() + encode_utf8(text),
{
    reveal_strlit("0x");
    let whole = "0x"@ + text;
    let tail = whole.drop_first();
    assert(whole[0] == '0');
    assert(tail[0] == 'x');
    assert(tail.drop_first() =~= text);
    assert((0x30u32 & 0x7F) as u8 == 0x30u8) by (bit_vector);
    assert((0x78u32 & 0x7F) as u8 == 0x78u8) by (bit_vector);
    assert('0' as u32 == 0x30u32);
    assert('x' as u32 == 0x78u32);
    assert(encode_utf8(tail) == vstd::utf8::encode_scalar(0x78u32) + encode_utf8(text));
    assert(encode_utf8(whole) == vstd::utf8::encode_scalar(0x30u32) + encode_utf8(tail));
    assert(encode_utf8(whole) =~= hex_prefix() + encode_utf8(text));
}

/// A text without `0x` and the same text with `0x` in front have one key,
/// in either mode.
pub proof fn lemma_key_of_prefixed_text(text: Seq<char>, skip_resolving: bool)
    requires
        !has_hex_prefix(encode_utf8(text)),
    ensures
        cache_key(encode_utf8("0x"@ + text), skip_resolving) == cache_key(
            encode_utf8(text),
            skip_resolving,
        ),
{
    lemma_prefix_in_front(text);
    let bytes = hex_prefix() + encode_utf8(text);
    assert(bytes.subrange(0, 2) =~= hex_prefix());
    assert(bytes.skip(2) =~= encode_utf8(text));
}

/// The suffix of the unresolved mode has eleven bytes, that of the resolved
/// mode nine.
pub proof fn lemma_mode_suffix_lengths()
    ensures
        mode_suffix(true).len() == 11,
        mode_suffix(false).len() == 9,
{
    broadcast use vstd::string::is_ascii_spec_bytes;

    reveal_strlit("_unresolved");
    reveal_strlit("_resolved");
    assert(is_ascii("_unresolved"));
    assert(is_ascii("_resolved"));
}

/// The two modes never share a key: for one bytecode text the key of one mode
/// differs from the key of the other.
pub proof fn lemma_modes_have_distinct_keys(bytecode: Seq<u8>, mode: bool, other_mode: bool)
    requires
        mode != other_mode,
    ensures
        cache_key(bytecode, mode) != cache_key(bytecode, other_mode),
{
    lemma_mode_suffix_lengths();
    assert(cache_key(bytecode, mode).len() != cache_key(bytecode, other_mode).len());
}

/// Running counters of one cache instance.
#[derive(Debug, Clone)]
pub struct CacheStats {
    pub hits: u64,
    pub misses: u64,
    pub writes: u64,
    pub errors: u64,
}

/// A counter one step on; it starts again at zero after its largest value.
pub open spec fn bumped(n: u64) -> u64 {
    if n == u64::MAX {
        0
    } else {
        (n + 1) as u64
    }
}

/// A counter `by` steps on, counted modulo 2^64.
pub open spec fn advanced(n: u64, by: nat) -> u64 {
    ((n + by) % 0x1_0000_0000_0000_0000) as u64
}

fn bump(n: u64) -> (r: u64)
    ensures
        r == bumped(n),
{
    n.wrapping_add(1)
}

impl CacheStats {
    /// Fresh counters, all zero.
    pub fn new() -> (stats: CacheStats)
        ensures
            stats.is_zero(),
    {
        CacheStats { hits: 0, misses: 0, writes: 0, errors: 0 }
    }

    /// All four counters stand at zero.
    pub open spec fn is_zero(&self) -> bool {
        self.hits == 0 && self.misses == 0 && self.writes == 0 && self.errors == 0
    }
}

/// What the backing store answered to a read-only lookup of one key.
#[derive(Debug, Clone)]
pub enum Lookup {
    /// The key is present.
    Found,
    /// The key is absent.
    Missing,
    /// The store could not be read.
    Unavailable,
}

/// How a write to the backing store ended.
#[derive(Debug, Clone)]
pub enum WriteOutcome {
    /// The transaction committed.
    Committed,
    /// A value could not be serialized; nothing was committed.
    NotEncoded(String),
    /// The store refused the write or the commit; nothing was committed.
    StoreFailed(String),
}

/// Why a cache operation failed.
#[derive(Debug, Clone)]
pub enum CacheError {
    /// A value could not be encoded; the write was aborted.
    SerializationFailure(String),
    /// The backing store failed.
    CacheUnavailable(String),
}

/// One entry that the backing store is asked to hold.
#[derive(Debug, Clone)]
pub struct StoreWrite {
    pub key: Vec<u8>,
    pub value: Vec<u8>,
}

/// The result of a write, by the store's answer.
pub open spec fn write_result(outcome: WriteOutcome) -> Result<(), CacheError> {
    match outcome {
        WriteOutcome::Committed => Ok(()),
        WriteOutcome::NotEncoded(reason) => Err(CacheError::SerializationFailure(reason)),
        WriteOutcome::StoreFailed(reason) => Err(CacheError::CacheUnavailable(reason)),
    }
}

/// The content-addressed cache as this library sees it: its counters.
#[derive(Debug, Clone)]
pub struct AbiCache {
    pub stats: CacheStats,
}

impl AbiCache {
    /// A cache whose counters stand at zero.
    pub fn new() -> (cache: AbiCache)
        ensures
            cache.stats.is_zero(),
    {
        AbiCache { stats: CacheStats::new() }
    }

    /// Derives the key of a bytecode text in the given mode: the 32 bytes of
    /// the digest, then the suffix of the mode, 43 bytes in all for the
    /// unresolved mode and 41 for the resolved one.
    pub fn generate_cache_key(bytecode: &str, skip_resolving: bool) -> (key: Vec<u8>)
        ensures
            key@ == cache_key(bytecode.spec_bytes(), skip_resolving),
            key@.len() == DIGEST_LEN + mode_suffix(skip_resolving).len(),
            key@.len() == if skip_resolving {
                43int
            } else {
                41int
            },
            key@.take(DIGEST_LEN as int) == blake3_digest(
                strip_hex_prefix(bytecode.spec_bytes()),
            ),
            key@.skip(DIGEST_LEN as int) == mode_suffix(skip_resolving),
    {
        let clean = strip_prefix(bytecode.as_bytes());
        let digest = blake3_hash(clean);
        let key = key_from_digest(digest.as_slice(), skip_resolving);
        proof {
            lemma_mode_suffix_lengths();
            assert(key@.take(DIGEST_LEN as int) =~= digest@);
            assert(key@.skip(DIGEST_LEN as int) =~= mode_suffix(skip_resolving));
        }
        key
    }

    /// Concludes a lookup from the store's answer for the key of
    /// [`AbiCache::generate_cache_key`]: a found key is a hit, an absent one a
    /// miss, and a store that cannot be read counts as an error and as absent.
    pub fn is_cached(&mut self, lookup: Lookup) -> (present: bool)
        ensures
            present == (lookup is Found),
            final(self).stats.hits == if lookup is Found {
                bumped(old(self).stats.hits)
            } else {
                old(self).stats.hits
            },
            final(self).stats.misses == if lookup is Missing {
                bumped(old(self).stats.misses)
            } else {
                old(self).stats.misses
            },
            final(self).stats.errors == if lookup is Unavailable {
                bumped(old(self).stats.errors)
            } else {
                old(self).stats.errors
            },
            final(self).stats.writes == old(self).stats.writes,
    {
        match lookup {
            Lookup::Found => {
                self.stats.hits = bump(self.stats.hits);
                true
            },
            Lookup::Missing => {
                self.stats.misses = bump(self.stats.misses);
                false
            },
            Lookup::Unavailable => {
                self.stats.errors = bump(self.stats.errors);
                false
            },
        }
    }

    /// The entry to write for a serialized result: it goes under the key of
    /// the bytecode in the given mode.
    pub fn write_for(bytecode: &str, skip_resolving: bool, value: Vec<u8>) -> (write: StoreWrite)
        ensures
            write.key@ == cache_key(bytecode.spec_bytes(), skip_resolving),
            write.value == value,
    {
        StoreWrite { key: AbiCache::generate_cache_key(bytecode, skip_resolving), value }
    }

    /// The entries to write for a batch of serialized results, in order: each
    /// goes under the key of its bytecode in its mode.
    pub fn batch_writes(items: Vec<(String, bool, Vec<u8>)>) -> (writes: Vec<StoreWrite>)
        ensures
            writes@.len() == items@.len(),
            forall|i: int|
                0 <= i < items@.len() ==> (#[trigger] writes@[i]).key@ == cache_key(
                    encode_utf8(items@[i].0@),
                    items@[i].1,
                ) && writes@[i].value@ == items@[i].2@,
    {
        let mut writes: Vec<StoreWrite> = Vec::new();
        let n: usize = items.len();
        let mut i: usize = 0;
        while i < n
            invariant
                n == items@.len(),
                i <= n,
                writes@.len() == i,
                forall|j: int|
                    0 <= j < i ==> (#[trigger] writes@[j]).key@ == cache_key(
                        encode_utf8(items@[j].0@),
                        items@[j].1,
                    ) && writes@[j].value@ == items@[j].2@,
            decreases n - i,
        {
            let item = &items[i];
            let mut value: Vec<u8> = Vec::new();
            append_bytes(&mut value, item.2.as_slice());
            writes.push(AbiCache::write_for(item.0.as_str(), item.1, value));
            i = i + 1;
        }
        writes
    }

    /// Concludes a single put from the store's answer: a committed write is
    /// counted and succeeds, any failure is handed to the caller and counts
    /// nothing.
    pub fn put(&mut self, outcome: WriteOutcome) -> (result: Result<(), CacheError>)
        ensures
            result == write_result(outcome),
            final(self).stats.writes == if outcome is Committed {
                bumped(old(self).stats.writes)
            } else {
                old(self).stats.writes
            },
            final(self).stats.hits == old(self).stats.hits,
            final(self).stats.misses == old(self).stats.misses,
            final(self).stats.errors == old(self).stats.errors,
    {
        match outcome {
            WriteOutcome::Committed => {
                self.stats.writes = bump(self.stats.writes);
                Ok(())
            },
            WriteOutcome::NotEncoded(reason) => Err(CacheError::SerializationFailure(reason)),
            WriteOutcome::StoreFailed(reason) => Err(CacheError::CacheUnavailable(reason)),
        }
    }

    /// Concludes a batch put. `staged` is the number of entries that were
    /// handed to the transaction. Nothing of a batch counts before the batch
    /// commits: a committed batch counts each of its entries as a write, a
    /// failed one counts nothing and hands the failure on.
    pub fn put_batch(&mut self, staged: usize, outcome: WriteOutcome) -> (result: Result<
        (),
        CacheError,
    >)
        ensures
            result == write_result(outcome),
            final(self).stats.writes == if outcome is Committed {
                advanced(old(self).stats.writes, staged as nat)
            } else {
                old(self).stats.writes
            },
            final(self).stats.hits == old(self).stats.hits,
            final(self).stats.misses == old(self).stats.misses,
            final(self).stats.errors == old(self).stats.errors,
    {
        match outcome {
            WriteOutcome::Committed => {
                let total: u128 = self.stats.writes as u128 + staged as u128;
                self.stats.writes = (total % 0x1_0000_0000_0000_0000u128) as u64;
                Ok(())
            },
            WriteOutcome::NotEncoded(reason) => Err(CacheError::SerializationFailure(reason)),
            WriteOutcome::StoreFailed(reason) => Err(CacheError::CacheUnavailable(reason)),
        }
    }

    /// Concludes a clear: once the store has been emptied all counters go
    /// back to zero; if the store failed they stay as they are and the
    /// failure is handed on.
    pub fn clear(&mut self, emptied: Result<(), String>) -> (result: Result<(), CacheError>)
        ensures
            match emptied {
                Ok(_) => result == Ok::<(), CacheError>(()) && final(self).stats.is_zero(),
                Err(reason) => result == Err::<(), CacheError>(
                    CacheError::CacheUnavailable(reason),
                ) && final(self).stats == old(self).stats,
            },
    {
        match emptied {
            Ok(_) => {
                self.stats = CacheStats::new();
                Ok(())
            },
            Err(reason) => Err(CacheError::CacheUnavailable(reason)),
        }
    }

    /// The share of hits among hits and misses, in tenths of a percent,
    /// rounded to the nearest tenth, a half to the even one; zero before any
    /// lookup.
    pub open spec fn hit_rate_tenths(&self) -> nat {
        scaled_ratio(self.stats.hits as nat, (self.stats.hits + self.stats.misses) as nat, 1000)
    }

    /// The text of [`AbiCache::get_stats_summary`].
    pub open spec fn stats_summary_text(&self) -> Seq<char> {
        "Cache: "@ + decimal(self.stats.hits as nat) + " hits, "@ + decimal(
            self.stats.misses as nat,
        ) + " misses ("@ + tenths_text(self.hit_rate_tenths()) + "% hit rate), "@ + decimal(
            self.stats.writes as nat,
        ) + " writes, "@ + decimal(self.stats.errors as nat) + " errors"@
    }

    /// One line with the four counters and the hit rate.
    pub fn get_stats_summary(&self) -> (line: String)
        ensures
            line@ == self.stats_summary_text(),
    {
        let hits: u64 = self.stats.hits;
        let misses: u64 = self.stats.misses;
        let rate: u128 = hit_rate(hits, misses);
        let mut line = String::from_str("Cache: ");
        line.append(decimal_string(hits as u128).as_str());
        line.append(" hits, ");
        line.append(decimal_string(misses as u128).as_str());
        line.append(" misses (");
        line.append(tenths_string(rate).as_str());
        line.append("% hit rate), ");
        line.append(decimal_string(self.stats.writes as u128).as_str());
        line.append(" writes, ");
        line.append(decimal_string(self.stats.errors as u128).as_str());
        line.append(" errors");
        assert(line@ =~= self.stats_summary_text());
        line
    }
}

/// The hit rate in tenths of a percent.
fn hit_rate(hits: u64, misses: u64) -> (rate: u128)
    ensures
        rate == scaled_ratio(hits as nat, (hits + misses) as nat, 1000),
{
    rounded_quotient_of((hits as u128) * 1000, hits as u128 + misses as u128)
}

/// What a store holds that started from `before` and took in `write`.
pub open spec fn store_after(before: Map<Seq<u8>, Seq<u8>>, write: StoreWrite) -> Map<
    Seq<u8>,
    Seq<u8>,
> {
    before.insert(write.key@, write.value@)
}

/// The answer that a store with the contents `store` owes to a lookup of the
/// bytecode in the given mode, as long as it can be read.
pub open spec fn holds(store: Map<Seq<u8>, Seq<u8>>, bytecode: Seq<u8>, skip_resolving: bool) -> bool {
    store.dom().contains(cache_key(bytecode, skip_resolving))
}

/// What a store holds after it was emptied.
pub open spec fn store_cleared() -> Map<Seq<u8>, Seq<u8>> {
    Map::empty()
}

/// An emptied store holds no entry, for any bytecode in either mode,
/// whatever it held before.
pub proof fn lemma_cleared_store_holds_nothing(bytecode: Seq<u8>, skip_resolving: bool)
    ensures
        !holds(store_cleared(), bytecode, skip_resolving),
{
}

/// A write issued for a bytecode and mode is addressed so that a store which
/// takes it in holds an entry for that bytecode and mode afterwards, whatever
/// it held before, and the entry is the value written last.
pub proof fn lemma_written_entry_is_held(
    before: Map<Seq<u8>, Seq<u8>>,
    write: StoreWrite,
    bytecode: Seq<u8>,
    skip_resolving: bool,
)
    requires
        write.key@ == cache_key(bytecode, skip_resolving),
    ensures
        holds(store_after(before, write), bytecode, skip_resolving),
        store_after(before, write)[cache_key(bytecode, skip_resolving)] == write.value@,
{
}

/// The platforms that have a cache directory of their own.
#[derive(Debug, Clone, Copy, PartialEq, Eq)]
pub enum Platform {
    MacOs,
    Linux,
    Windows,
    Other,
}

/// The environment variables that decide where the cache lives, each with
/// its value if it is set.
#[derive(Debug, Clone)]
pub struct CacheEnvironment {
    /// `HEIMDALL_CACHE_DIR`
    pub heimdall_cache_dir: Option<String>,
    /// `HOME`
    pub home: Option<String>,
    /// `XDG_CACHE_HOME`
    pub xdg_cache_home: Option<String>,
    /// `LOCALAPPDATA`
    pub local_app_data: Option<String>,
    /// `TEMP`
    pub temp: Option<String>,
}

/// A directory: a base path and, if there is one, a relative path below it.
#[derive(Debug, Clone)]
pub struct CacheLocation {
    pub base: String,
    pub below: Option<String>,
}

/// The characters of a text that may be missing, or of the text that stands
/// in for it.
pub open spec fn text_or(text: Option<String>, stand_in: Seq<char>) -> Seq<char> {
    match text {
        Some(t) => t@,
        None => stand_in,
    }
}

/// Where the cache lives when no directory is given: the directory that the
/// environment names, else the cache directory that is usual on the platform.
pub open spec fn default_location(platform: Platform, env: CacheEnvironment) -> (
    Seq<char>,
    Option<Seq<char>>,
) {
    match env.heimdall_cache_dir {
        Some(dir) => (dir@, None),
        None => match platform {
            Platform::MacOs => (text_or(env.home, "/tmp"@), Some("Library/Caches/heimdall"@)),
            Platform::Linux => match env.xdg_cache_home {
                Some(dir) => (dir@, Some("heimdall"@)),
                None => (text_or(env.home, "/tmp"@), Some(".cache/heimdall"@)),
            },
            Platform::Windows => match env.local_app_data {
                Some(dir) => (dir@, Some("heimdall\\cache"@)),
                None => (text_or(env.temp, "C:\\Temp"@), Some("heimdall\\cache"@)),
            },
            Platform::Other => ("/tmp/heimdall_cache"@, None),
        },
    }
}

fn or_text(text: &Option<String>, stand_in: &str) -> (chosen: String)
    ensures
        chosen@ == text_or(*text, stand_in@),
{
    match text {
        Some(t) => t.clone(),
        None => String::from_str(stand_in),
    }
}

/// Where the cache lives when no directory is given.
pub fn get_default_cache_dir(platform: Platform, env: &CacheEnvironment) -> (location:
    CacheLocation)
    ensures
        location.base@ == default_location(platform, *env).0,
        match location.below {
            Some(below) => default_location(platform, *env).1 == Some(below@),
            None => default_location(platform, *env).1 is None,
        },
{
    match &env.heimdall_cache_dir {
        Some(dir) => {
            return CacheLocation { base: dir.clone(), below: None };
        },
        None => {},
    }
    match platform {
        Platform::MacOs => CacheLocation {
            base: or_text(&env.home, "/tmp"),
            below: Some(String::from_str("Library/Caches/heimdall")),
        },
        Platform::Linux => match &env.xdg_cache_home {
            Some(dir) => CacheLocation {
                base: dir.clone(),
                below: Some(String::from_str("heimdall")),
            },
            None => CacheLocation {
                base: or_text(&env.home, "/tmp"),
                below: Some(String::from_str(".cache/heimdall")),
            },
        },
        Platform::Windows => match &env.local_app_data {
            Some(dir) => CacheLocation {
                base: dir.clone(),
                below: Some(String::from_str("heimdall\\cache")),
            },
            None => CacheLocation {
                base: or_text(&env.temp, "C:\\Temp"),
                below: Some(String::from_str("heimdall\\cache")),
            },
        },
        Platform::Other => CacheLocation {
            base: String::from_str("/tmp/heimdall_cache"),
            below: None,
        },
    }
}

} // verus!
