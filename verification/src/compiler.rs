//! Handler compilation and the memory tier of the two-tier artifact
//! cache: wrapping source in the host-surface prologue, fingerprinting
//! it, caching compiled artifacts under a byte budget with
//! least-recently-used eviction, and mapping byte offsets back to
//! source locations.
//!
//! The disk tier lives with the host: callers hand `compile` the bytes
//! of the artifact file named by the fingerprint, when one exists, and
//! write the returned artifact back to disk on a miss.

use vstd::prelude::*;

use crate::config::RuntimeConfig;
use crate::error::RuntimeError;
use crate::text::spec_decimal;
use crate::text::spec_padded_decimal;
use crate::text::u64_to_decimal_padded;
use vstd::utf8::encode_utf8;

verus! {

/// Relies on `sha2::Sha256::digest`: the 32-byte SHA-256 digest of the
/// input, a function of the input bytes alone.
#[verifier::external_body]
fn sha256(data: &Vec<u8>) -> (r: Vec<u8>)
    ensures
        r@ == sha256_of(data@),
        r@.len() == 32,
{
    let digest = <sha2::Sha256 as sha2::Digest>::digest(data.as_slice());
    digest.to_vec()
}

/// The SHA-256 digest of a byte sequence.
pub uninterp spec fn sha256_of(bytes: Seq<u8>) -> Seq<u8>;

/// The character for one hexadecimal digit, lower case.
pub open spec fn spec_hex_char(d: nat) -> char {
    if d < 10 {
        crate::text::spec_digit_char(d)
    } else if d == 10 {
        'a'
    } else if d == 11 {
        'b'
    } else if d == 12 {
        'c'
    } else if d == 13 {
        'd'
    } else if d == 14 {
        'e'
    } else {
        'f'
    }
}

fn hex_char(d: u8) -> (c: char)
    requires
        d < 16,
    ensures
        c == spec_hex_char(d as nat),
{
    if d < 10 {
        crate::text::digit_char(d as u64)
    } else if d == 10 {
        'a'
    } else if d == 11 {
        'b'
    } else if d == 12 {
        'c'
    } else if d == 13 {
        'd'
    } else if d == 14 {
        'e'
    } else {
        'f'
    }
}

/// Lower-case hexadecimal notation of a byte sequence, two digits per
/// byte.
pub open spec fn hex_of(bytes: Seq<u8>) -> Seq<char>
    decreases bytes.len(),
{
    if bytes.len() == 0 {
        Seq::empty()
    } else {
        seq![
            spec_hex_char((bytes[0] / 16) as nat),
            spec_hex_char((bytes[0] % 16) as nat),
        ] + hex_of(bytes.drop_first())
    }
}

/// Renders bytes in lower-case hexadecimal.
pub fn to_hex(bytes: &Vec<u8>) -> (r: String)
    ensures
        r@ == hex_of(bytes@),
{
    let n = bytes.len();
    let mut s = String::new();
    let mut i: usize = 0;
    assert(bytes@.skip(0) =~= bytes@);
    while i < n
        invariant
            i <= n,
            n == bytes@.len(),
            s@ + hex_of(bytes@.skip(i as int)) == hex_of(bytes@),
        decreases n - i,
    {
        let b = bytes[i];
        s.push(hex_char(b / 16));
        s.push(hex_char(b % 16));
        proof {
            assert(bytes@.skip(i as int)[0] == bytes@[i as int]);
            assert(bytes@.skip(i as int).drop_first() =~= bytes@.skip(i + 1));
            assert(s@ + hex_of(bytes@.skip(i + 1)) =~= hex_of(bytes@));
        }
        i += 1;
    }
    proof {
        assert(hex_of(bytes@.skip(n as int)) =~= Seq::<char>::empty());
        assert(s@ =~= s@ + hex_of(bytes@.skip(n as int)));
    }
    s
}

/// The prologue placed before every handler body: it binds the five
/// host surfaces to the low-level host functions.
pub fn wrapper_prologue() -> (r: &'static str)
    ensures
        r@ == spec_wrapper_prologue(),
{
    "(function(__nexus_state, __nexus_args, __nexus_scope) {\n    const $state = {\n        get: (key) => __nexus_state_get(key),\n        set: (key, value) => __nexus_state_set(key, value),\n        delete: (key) => __nexus_state_delete(key),\n        has: (key) => __nexus_state_has(key),\n        keys: () => __nexus_state_keys(),\n    };\n    const $args = __nexus_args;\n    const $emit = (name, payload) => __nexus_emit_event(name, payload);\n    const $view = {\n        setFilter: (viewId, filter) => __nexus_view_set_filter(viewId, filter),\n        scrollTo: (viewId, position) => __nexus_view_scroll_to(viewId, position),\n        focus: (viewId) => __nexus_view_focus(viewId),\n        command: (viewId, cmd, params) => __nexus_view_command(viewId, cmd, params),\n    };\n    const $ext = __nexus_ext_proxy();\n    const $log = {\n        debug: (msg) => __nexus_log(0, msg),\n        info: (msg) => __nexus_log(1, msg),\n        warn: (msg) => __nexus_log(2, msg),\n        error: (msg) => __nexus_log(3, msg),\n    };\n    // Handler code\n    "
}

/// The characters of the prologue literal.
pub open spec fn spec_wrapper_prologue() -> Seq<char> {
    "(function(__nexus_state, __nexus_args, __nexus_scope) {\n    const $state = {\n        get: (key) => __nexus_state_get(key),\n        set: (key, value) => __nexus_state_set(key, value),\n        delete: (key) => __nexus_state_delete(key),\n        has: (key) => __nexus_state_has(key),\n        keys: () => __nexus_state_keys(),\n    };\n    const $args = __nexus_args;\n    const $emit = (name, payload) => __nexus_emit_event(name, payload);\n    const $view = {\n        setFilter: (viewId, filter) => __nexus_view_set_filter(viewId, filter),\n        scrollTo: (viewId, position) => __nexus_view_scroll_to(viewId, position),\n        focus: (viewId) => __nexus_view_focus(viewId),\n        command: (viewId, cmd, params) => __nexus_view_command(viewId, cmd, params),\n    };\n    const $ext = __nexus_ext_proxy();\n    const $log = {\n        debug: (msg) => __nexus_log(0, msg),\n        info: (msg) => __nexus_log(1, msg),\n        warn: (msg) => __nexus_log(2, msg),\n        error: (msg) => __nexus_log(3, msg),\n    };\n    // Handler code\n    "@
}

/// The epilogue placed after every handler body.
pub open spec fn spec_wrapper_epilogue() -> Seq<char> {
    "\n})"@
}

/// The wrapped form of a handler source: prologue, body, epilogue.
pub open spec fn spec_wrapped(source: Seq<char>) -> Seq<char> {
    spec_wrapper_prologue() + source + spec_wrapper_epilogue()
}

/// Artifact bytes of a source: in this engine the artifact is the
/// UTF-8 bytes of the wrapped source.
pub open spec fn spec_compiled_bytes(source: Seq<char>) -> Seq<u8> {
    encode_utf8(spec_wrapped(source))
}

/// Fingerprint of a source: the hexadecimal SHA-256 of the wrapped
/// source bytes followed by the version tag.
pub open spec fn spec_fingerprint(source: Seq<char>) -> Seq<char> {
    hex_of(sha256_of(spec_compiled_bytes(source) + encode_utf8(":v1"@)))
}

/// A compiled handler artifact.
pub struct CompiledHandler {
    /// Artifact bytes.
    pub bytecode: Vec<u8>,
    /// Source map for error mapping, when the compile ran here.
    pub source_map: Option<SourceMap>,
    /// Whether this result was served from a cache tier.
    pub cache_hit: bool,
}

/// Maps byte offsets of the wrapped source to 1-indexed line and
/// column positions.
#[derive(Debug)]
pub struct SourceMap {
    /// The wrapped source text.
    pub source: String,
    /// Offset of each line's first character, in order.
    pub line_offsets: Vec<usize>,
}

/// The offsets of characters that follow a newline, scanning from `i`.
pub open spec fn spec_newline_offsets(s: Seq<char>, i: int) -> Seq<int>
    decreases s.len() - i,
    when 0 <= i <= s.len()
{
    if i >= s.len() {
        Seq::empty()
    } else if s[i] == '\n' {
        seq![i + 1] + spec_newline_offsets(s, i + 1)
    } else {
        spec_newline_offsets(s, i + 1)
    }
}

/// The line-start offsets of a source: zero, then one past each
/// newline.
pub open spec fn spec_line_offsets(s: Seq<char>) -> Seq<int> {
    seq![0int] + spec_newline_offsets(s, 0)
}

/// The index of the first offset greater than `x`, or the length.
pub open spec fn spec_first_gt(offsets: Seq<int>, x: int) -> int
    decreases offsets.len(),
{
    if offsets.len() == 0 {
        0
    } else if offsets[0] > x {
        0
    } else {
        1 + spec_first_gt(offsets.drop_first(), x)
    }
}

/// The 1-indexed line and column of a byte offset, given line-start
/// offsets.
pub open spec fn spec_location(offsets: Seq<int>, x: int) -> (int, int) {
    let p = spec_first_gt(offsets, x);
    let line = if p == 0 {
        0
    } else {
        p - 1
    };
    let col = x - (if 0 <= line < offsets.len() {
        offsets[line]
    } else {
        0
    });
    (line + 1, col + 1)
}

impl SourceMap {
    /// The integer views of the stored offsets.
    pub open spec fn offsets(self) -> Seq<int> {
        self.line_offsets@.map_values(|o: usize| o as int)
    }

    /// Well-formed maps: the offsets are those of the source.
    pub open spec fn wf(self) -> bool {
        self.offsets() == spec_line_offsets(self.source@)
    }

    /// Builds the source map of a source text.
    pub fn from_source(source: &str) -> (r: SourceMap)
        ensures
            r.wf(),
            r.source@ == source@,
    {
        let len = source.unicode_len();
        let mut line_offsets: Vec<usize> = Vec::new();
        line_offsets.push(0);
        let mut i: usize = 0;
        assert(line_offsets@.map_values(|o: usize| o as int) =~= seq![0int]
            + spec_newline_offsets(source@, 0).take(0));
        while i < len
            invariant
                i <= len,
                len == source@.len(),
                line_offsets@.map_values(|o: usize| o as int) == seq![0int]
                    + spec_newline_offsets(source@, 0).take(
                    spec_newline_offsets(source@, 0).len() - spec_newline_offsets(
                        source@,
                        i as int,
                    ).len(),
                ),
                spec_newline_offsets(source@, i as int).len() <= spec_newline_offsets(
                    source@,
                    0,
                ).len(),
                spec_newline_offsets(source@, 0).skip(
                    spec_newline_offsets(source@, 0).len() - spec_newline_offsets(
                        source@,
                        i as int,
                    ).len(),
                ) == spec_newline_offsets(source@, i as int),
            decreases len - i,
        {
            let ghost full = spec_newline_offsets(source@, 0);
            let ghost cur = spec_newline_offsets(source@, i as int);
            let ghost done = full.len() - cur.len();
            let ghost pre_map = line_offsets@.map_values(|o: usize| o as int);
            if source.get_char(i) == '\n' {
                line_offsets.push(i + 1);
                proof {
                    assert(cur == seq![i + 1int] + spec_newline_offsets(source@, i + 1));
                    assert(cur[0] == i + 1int);
                    assert(full.skip(done as int)[0] == full[done as int]);
                    assert(full[done as int] == i + 1int);
                    assert(line_offsets@.map_values(|o: usize| o as int) =~= pre_map.push(
                        i + 1int,
                    ));
                    assert(full.take(done + 1) =~= full.take(done as int).push(
                        full[done as int],
                    ));
                    assert(line_offsets@.map_values(|o: usize| o as int) =~= seq![0int]
                        + full.take(done + 1));
                    assert(full.skip(done + 1) =~= full.skip(done as int).drop_first());
                    assert(full.skip(done as int).drop_first() =~= cur.drop_first());
                    assert(cur.drop_first() =~= spec_newline_offsets(source@, i + 1));
                }
            } else {
                proof {
                    assert(cur == spec_newline_offsets(source@, i + 1));
                }
            }
            i += 1;
        }
        proof {
            assert(spec_newline_offsets(source@, len as int) =~= Seq::<int>::empty());
            assert(spec_newline_offsets(source@, 0).take(
                spec_newline_offsets(source@, 0).len() - 0,
            ) =~= spec_newline_offsets(source@, 0));
        }
        SourceMap { source: source.to_owned(), line_offsets }
    }

    /// The 1-indexed line and column of a byte offset.
    pub fn get_location(&self, offset: usize) -> (r: (usize, usize))
        requires
            self.wf(),
            offset < usize::MAX,
        ensures
            (r.0 as int, r.1 as int) == spec_location(self.offsets(), offset as int),
    {
        let n = self.line_offsets.len();
        let mut p: usize = 0;
        assert(self.offsets().skip(0) =~= self.offsets());
        while p < n && self.line_offsets[p] <= offset
            invariant
                p <= n,
                n == self.line_offsets@.len(),
                forall|j: int| 0 <= j < p ==> self.offsets()[j] <= offset,
                spec_first_gt(self.offsets(), offset as int) == p + spec_first_gt(
                    self.offsets().skip(p as int),
                    offset as int,
                ),
            decreases n - p,
        {
            proof {
                assert(self.offsets().skip(p as int)[0] == self.offsets()[p as int]);
                assert(self.offsets().skip(p as int).drop_first() =~= self.offsets().skip(
                    p + 1,
                ));
            }
            p += 1;
        }
        proof {
            if p < n {
                assert(self.offsets().skip(p as int)[0] == self.offsets()[p as int]);
                assert(spec_first_gt(self.offsets().skip(p as int), offset as int) == 0);
            } else {
                assert(self.offsets().skip(p as int) =~= Seq::<int>::empty());
            }
            assert(spec_first_gt(self.offsets(), offset as int) == p);
        }
        let line: usize = if p == 0 {
            0
        } else {
            p - 1
        };
        proof {
            lemma_wf_offsets_nonneg(*self);
        }
        assert(line < n);
        let base: usize = self.line_offsets[line];
        assert(self.offsets()[line as int] <= offset) by {
            if p > 0 {
            } else {
                assert(self.offsets()[0] == 0);
            }
        }
        let col: usize = offset - base;
        (line + 1, col + 1)
    }
}

/// In a well-formed map the first offset is zero and none is negative.
proof fn lemma_wf_offsets_nonneg(m: SourceMap)
    requires
        m.wf(),
    ensures
        m.offsets().len() >= 1,
        m.offsets()[0] == 0,
{
}

/// One memory-tier cache entry.
pub struct CacheEntry {
    /// The artifact's fingerprint.
    pub key: String,
    /// Artifact bytes.
    pub bytecode: Vec<u8>,
    /// Source map, when compiled here.
    pub source_map: Option<SourceMap>,
    /// Logical time of creation.
    pub created_at: u64,
    /// Logical time of last access.
    pub last_accessed: u64,
    /// Number of reads.
    pub access_count: u64,
    /// Budgeted size in bytes.
    pub size: usize,
}

/// Sum of the budgeted sizes of cache entries.
pub open spec fn entries_size(s: Seq<CacheEntry>) -> int
    decreases s.len(),
{
    if s.len() == 0 {
        0
    } else {
        entries_size(s.drop_last()) + s.last().size
    }
}

/// Compiler statistics.
#[derive(Debug, Clone, Copy, PartialEq, Eq, Structural)]
pub struct CompilerStats {
    /// Entries in the memory tier.
    pub cache_entries: usize,
    /// Bytes held by the memory tier.
    pub cache_size_bytes: u64,
    /// Lookups served from a cache tier.
    pub cache_hits: u64,
    /// Lookups that compiled anew.
    pub cache_misses: u64,
    /// Compilations performed.
    pub total_compilations: u64,
}

impl CompilerStats {
    /// Cache hit rate in hundredths of a percent, zero with no
    /// lookups.
    pub fn hit_rate_e4(&self) -> (r: u64)
        ensures
            r == crate::metrics::spec_rate_e4(self.cache_hits as nat, self.cache_misses as nat),
    {
        let total: u128 = self.cache_hits as u128 + self.cache_misses as u128;
        if total == 0 {
            0
        } else {
            let hits128: u128 = self.cache_hits as u128;
            let scaled: u128 = hits128 * 10000;
            let rate: u128 = scaled / total;
            assert(rate <= 10000) by (nonlinear_arith)
                requires
                    0 < total,
                    scaled == hits128 * 10000,
                    rate == scaled / total,
                    hits128 <= total,
            ;
            rate as u64
        }
    }
}

/// The handler compiler with its memory-tier cache.
pub struct HandlerCompiler {
    /// The memory tier, in insertion order.
    pub cache: Vec<CacheEntry>,
    /// Lookups served from a cache tier.
    pub cache_hits: u64,
    /// Lookups that compiled anew.
    pub cache_misses: u64,
    /// Compilations performed.
    pub total_compilations: u64,
    /// Bytes held by the memory tier.
    pub cache_size: u64,
    /// Memory-tier byte budget.
    pub max_cache_size: u64,
    /// Logical clock for recency bookkeeping.
    pub clock: u64,
    /// Disk-tier directory name, for the host's use.
    pub cache_dir: String,
}

impl HandlerCompiler {
    /// Well-formed compilers: the size counter is the entries' total
    /// size, and the total never exceeds the budget.
    pub open spec fn wf(self) -> bool {
        self.cache_size == entries_size(self.cache@) && self.cache_size <= self.max_cache_size
    }

    /// The artifact bytes cached under a fingerprint, if any.
    pub open spec fn entry_bytes(self, key: Seq<char>) -> Option<Seq<u8>> {
        entry_bytes_in(self.cache@, key)
    }

    /// Creates a compiler with an empty cache under the configured
    /// budget.
    pub fn new(config: &RuntimeConfig) -> (r: Result<HandlerCompiler, RuntimeError>)
        ensures
            match r {
                Ok(c) => c.wf() && c.cache@.len() == 0 && c.cache_hits == 0 && c.cache_misses
                    == 0 && c.total_compilations == 0 && c.max_cache_size
                    == config.max_cache_size_bytes && c.cache_dir@ == config.cache_dir@,
                Err(_) => false,
            },
    {
        Ok(
            HandlerCompiler {
                cache: Vec::new(),
                cache_hits: 0,
                cache_misses: 0,
                total_compilations: 0,
                cache_size: 0,
                max_cache_size: config.max_cache_size_bytes,
                clock: 0,
                cache_dir: config.cache_dir.clone(),
            },
        )
    }

    /// Wraps a handler source in the host-surface prologue.
    pub fn wrap_handler(&self, source: &str) -> (r: String)
        ensures
            r@ == spec_wrapped(source@),
    {
        let mut s = wrapper_prologue().to_owned();
        s.append(source);
        s.append("\n})");
        s
    }

    /// The fingerprint of a source.
    pub fn fingerprint(&self, source: &str) -> (r: String)
        ensures
            r@ == spec_fingerprint(source@),
    {
        let wrapped = self.wrap_handler(source);
        let mut bytes = wrapped.as_str().as_bytes_vec();
        let mut tag = ":v1".as_bytes_vec();
        bytes.append(&mut tag);
        assert(bytes@ =~= spec_compiled_bytes(source@) + encode_utf8(":v1"@));
        let digest = sha256(&bytes);
        to_hex(&digest)
    }
}

/// The artifact bytes at the first entry with a key, if any.
pub open spec fn entry_bytes_in(s: Seq<CacheEntry>, key: Seq<char>) -> Option<Seq<u8>>
    decreases s.len(),
{
    if s.len() == 0 {
        None
    } else if s[0].key@ == key {
        Some(s[0].bytecode@)
    } else {
        entry_bytes_in(s.drop_first(), key)
    }
}

impl CacheEntry {
    /// Builds an entry; its budgeted size is the artifact plus the
    /// mapped source, when the sum is representable.
    fn new(key: String, bytecode: Vec<u8>, source_map: Option<SourceMap>, now: u64) -> (r:
        Option<CacheEntry>)
        ensures
            match r {
                Some(e) => e.key@ == key@ && e.bytecode@ == bytecode@ && e.created_at == now
                    && e.last_accessed == now && e.access_count == 1 && e.size
                    == spec_cache_entry_size(bytecode@, source_map) && spec_cache_entry_size(
                    bytecode@,
                    source_map,
                ) <= usize::MAX && (match (e.source_map, source_map) {
                    (Some(a), Some(b)) => a == b,
                    (None, None) => true,
                    _ => false,
                }),
                None => spec_cache_entry_size(bytecode@, source_map) > usize::MAX,
            },
    {
        let map_len: usize = match &source_map {
            Some(m) => m.source.as_str().len(),
            None => 0,
        };
        match bytecode.len().checked_add(map_len) {
            Some(size) => Some(
                CacheEntry {
                    key,
                    bytecode,
                    source_map,
                    created_at: now,
                    last_accessed: now,
                    access_count: 1,
                    size,
                },
            ),
            None => None,
        }
    }
}

/// The budgeted size of an entry: the artifact bytes plus the mapped
/// source's character count, when a map is kept.
pub open spec fn spec_cache_entry_size(bytecode: Seq<u8>, source_map: Option<SourceMap>) -> int {
    bytecode.len() + (match source_map {
        Some(m) => (encode_utf8(m.source@).len() as usize) as int,
        None => 0,
    })
}

/// A key absent from a cache stays absent after removing an entry.
proof fn lemma_entry_bytes_remove_absent(s: Seq<CacheEntry>, i: int, key: Seq<char>)
    requires
        0 <= i < s.len(),
        entry_bytes_in(s, key) is None,
    ensures
        entry_bytes_in(s.remove(i), key) is None,
    decreases s.len(),
{
    if s.len() == 0 {
    } else if i == 0 {
        assert(s.remove(0) =~= s.drop_first());
    } else {
        assert(s[0].key@ != key);
        assert(s.remove(i).drop_first() =~= s.drop_first().remove(i - 1));
        lemma_entry_bytes_remove_absent(s.drop_first(), i - 1, key);
        assert(s.remove(i)[0] == s[0]);
    }
}

/// Looking up a key after pushing an entry for an absent key.
proof fn lemma_entry_bytes_push(s: Seq<CacheEntry>, e: CacheEntry, key: Seq<char>)
    requires
        entry_bytes_in(s, e.key@) is None,
    ensures
        entry_bytes_in(s.push(e), e.key@) == Some(e.bytecode@),
        key != e.key@ ==> entry_bytes_in(s.push(e), key) == entry_bytes_in(s, key),
    decreases s.len(),
{
    if s.len() == 0 {
        assert(s.push(e)[0] == e);
        assert(s.push(e).drop_first() =~= Seq::<CacheEntry>::empty());
        if key != e.key@ {
            assert(entry_bytes_in(s.push(e), key) == entry_bytes_in(
                s.push(e).drop_first(),
                key,
            ));
            assert(entry_bytes_in(Seq::<CacheEntry>::empty(), key) is None);
            assert(entry_bytes_in(s, key) is None);
        }
    } else {
        assert(s.push(e)[0] == s[0]);
        assert(s.push(e).drop_first() =~= s.drop_first().push(e));
        lemma_entry_bytes_push(s.drop_first(), e, key);
        if key != e.key@ {
            if s[0].key@ == key {
                assert(entry_bytes_in(s.push(e), key) == Some(s.push(e)[0].bytecode@));
                assert(entry_bytes_in(s, key) == Some(s[0].bytecode@));
            } else {
                assert(entry_bytes_in(s.push(e), key) == entry_bytes_in(
                    s.push(e).drop_first(),
                    key,
                ));
                assert(entry_bytes_in(s, key) == entry_bytes_in(s.drop_first(), key));
            }
        }
    }
}

/// Updating an entry in place, keeping its key and bytes, keeps every
/// lookup.
proof fn lemma_entry_bytes_update_same(s: Seq<CacheEntry>, i: int, e: CacheEntry, key: Seq<char>)
    requires
        0 <= i < s.len(),
        e.key@ == s[i].key@,
        e.bytecode@ == s[i].bytecode@,
    ensures
        entry_bytes_in(s.update(i, e), key) == entry_bytes_in(s, key),
    decreases s.len(),
{
    if i == 0 {
        assert(s.update(0, e)[0] == e);
        assert(s.update(0, e).drop_first() =~= s.drop_first());
    } else {
        assert(s.update(i, e)[0] == s[0]);
        assert(s.update(i, e).drop_first() =~= s.drop_first().update(i - 1, e));
        lemma_entry_bytes_update_same(s.drop_first(), i - 1, e, key);
    }
}

/// The lookup at the first index holding a key.
proof fn lemma_entry_bytes_at(s: Seq<CacheEntry>, key: Seq<char>, i: int)
    requires
        0 <= i < s.len(),
        s[i].key@ == key,
        forall|j: int| 0 <= j < i ==> s[j].key@ != key,
    ensures
        entry_bytes_in(s, key) == Some(s[i].bytecode@),
    decreases s.len(),
{
    if i == 0 {
    } else {
        assert(forall|j: int| 0 <= j < i - 1 ==> s.drop_first()[j] == s[j + 1]);
        lemma_entry_bytes_at(s.drop_first(), key, i - 1);
    }
}

/// The lookup when no index holds the key.
proof fn lemma_entry_bytes_absent(s: Seq<CacheEntry>, key: Seq<char>)
    requires
        forall|j: int| 0 <= j < s.len() ==> s[j].key@ != key,
    ensures
        entry_bytes_in(s, key) is None,
    decreases s.len(),
{
    if s.len() == 0 {
    } else {
        assert(forall|j: int| 0 <= j < s.drop_first().len() ==> s.drop_first()[j] == s[j + 1]);
        lemma_entry_bytes_absent(s.drop_first(), key);
    }
}

/// Sizes after removing one entry.
proof fn lemma_entries_size_remove(s: Seq<CacheEntry>, i: int)
    requires
        0 <= i < s.len(),
    ensures
        entries_size(s.remove(i)) == entries_size(s) - s[i].size,
    decreases s.len(),
{
    if i == s.len() - 1 {
        assert(s.remove(i) =~= s.drop_last());
    } else {
        assert(s.remove(i).drop_last() =~= s.drop_last().remove(i));
        assert(s.remove(i).last() == s.last());
        lemma_entries_size_remove(s.drop_last(), i);
    }
}

/// Sizes after updating one entry with an equal size.
proof fn lemma_entries_size_update_same(s: Seq<CacheEntry>, i: int, e: CacheEntry)
    requires
        0 <= i < s.len(),
        e.size == s[i].size,
    ensures
        entries_size(s.update(i, e)) == entries_size(s),
    decreases s.len(),
{
    if i == s.len() - 1 {
        assert(s.update(i, e).drop_last() =~= s.drop_last());
        assert(s.update(i, e).last() == e);
    } else {
        assert(s.update(i, e).drop_last() =~= s.drop_last().update(i, e));
        assert(s.update(i, e).last() == s.last());
        lemma_entries_size_update_same(s.drop_last(), i, e);
    }
}

/// Whether a freshly compiled artifact's entry fits the cache budget.
pub open spec fn compiled_fits(source: Seq<char>, max: u64) -> bool {
    2 * spec_compiled_bytes(source).len() <= max && 2 * spec_compiled_bytes(source).len()
        <= usize::MAX
}

/// Whether a disk-tier artifact's entry fits the cache budget.
pub open spec fn disk_fits(bytes: Seq<u8>, max: u64) -> bool {
    bytes.len() <= max
}

/// What one call of `compile` guarantees, relating the compiler before
/// and after and the returned artifact.
pub open spec fn compile_post(
    pre: HandlerCompiler,
    source: Seq<char>,
    disk: Option<Seq<u8>>,
    post: HandlerCompiler,
    r: CompiledHandler,
) -> bool {
    let fp = spec_fingerprint(source);
    &&& post.wf()
    &&& post.max_cache_size == pre.max_cache_size
    &&& post.cache_dir@ == pre.cache_dir@
    &&& r.cache_hit == (pre.entry_bytes(fp) is Some || disk is Some)
    &&& r.bytecode@ == (match pre.entry_bytes(fp) {
        Some(bs) => bs,
        None => match disk {
            Some(d) => d,
            None => spec_compiled_bytes(source),
        },
    })
    &&& (pre.entry_bytes(fp) is Some ==> {
        &&& post.cache_hits == crate::metrics::clamp64(pre.cache_hits + 1)
        &&& post.cache_misses == pre.cache_misses
        &&& post.total_compilations == pre.total_compilations
        &&& forall|k: Seq<char>| post.entry_bytes(k) == pre.entry_bytes(k)
    })
    &&& (pre.entry_bytes(fp) is None && disk is Some ==> {
        &&& post.cache_hits == crate::metrics::clamp64(pre.cache_hits + 1)
        &&& post.cache_misses == pre.cache_misses
        &&& post.total_compilations == pre.total_compilations
    })
    &&& (pre.entry_bytes(fp) is None && disk is None ==> {
        &&& post.cache_hits == pre.cache_hits
        &&& post.cache_misses == crate::metrics::clamp64(pre.cache_misses + 1)
        &&& post.total_compilations == crate::metrics::clamp64(pre.total_compilations + 1)
        &&& (compiled_fits(source, pre.max_cache_size) ==> post.entry_bytes(fp) == Some(
            spec_compiled_bytes(source),
        ))
        &&& (match r.source_map {
            Some(m) => m.wf() && m.source@ == spec_wrapped(source),
            None => false,
        })
    })
}

impl HandlerCompiler {
    /// The first cache index holding a key, if any.
    fn find_entry_index(&self, key: &str) -> (r: Option<usize>)
        ensures
            match r {
                Some(i) => i < self.cache@.len() && self.cache@[i as int].key@ == key@
                    && entry_bytes_in(self.cache@, key@) == Some(
                    self.cache@[i as int].bytecode@,
                ),
                None => entry_bytes_in(self.cache@, key@) is None,
            },
    {
        let n = self.cache.len();
        let mut i: usize = 0;
        while i < n
            invariant
                i <= n,
                n == self.cache@.len(),
                forall|j: int| 0 <= j < i ==> self.cache@[j].key@ != key@,
            decreases n - i,
        {
            if crate::text::str_eq(self.cache[i].key.as_str(), key) {
                proof {
                    lemma_entry_bytes_at(self.cache@, key@, i as int);
                }
                return Some(i);
            }
            i += 1;
        }
        proof {
            lemma_entry_bytes_absent(self.cache@, key@);
        }
        None
    }

    /// The cache index of a least recently used entry: the first with
    /// the minimal access time.
    fn lru_index(&self) -> (r: usize)
        requires
            self.cache@.len() > 0,
        ensures
            r < self.cache@.len(),
    {
        let n = self.cache.len();
        let mut best: usize = 0;
        let mut i: usize = 1;
        while i < n
            invariant
                best < i <= n || (i <= n && best == 0),
                best < n,
                n == self.cache@.len(),
            decreases n - i,
        {
            if self.cache[i].last_accessed < self.cache[best].last_accessed {
                best = i;
            }
            i += 1;
        }
        best
    }

    /// Evicts one least recently used entry; with an empty cache
    /// nothing changes and the call reports failure.
    fn evict_lru(&mut self) -> (r: bool)
        requires
            old(self).wf(),
        ensures
            final(self).wf(),
            r == (old(self).cache@.len() > 0),
            !r ==> *final(self) == *old(self),
            r ==> final(self).cache@.len() == old(self).cache@.len() - 1,
            final(self).max_cache_size == old(self).max_cache_size,
            final(self).cache_hits == old(self).cache_hits,
            final(self).cache_misses == old(self).cache_misses,
            final(self).total_compilations == old(self).total_compilations,
            final(self).clock == old(self).clock,
            final(self).cache_dir@ == old(self).cache_dir@,
            final(self).cache_size <= old(self).cache_size,
            forall|k: Seq<char>|
                entry_bytes_in(old(self).cache@, k) is None ==> entry_bytes_in(
                    final(self).cache@,
                    k,
                ) is None,
    {
        if self.cache.len() == 0 {
            return false;
        }
        let idx = self.lru_index();
        let ghost pre = self.cache@;
        let entry = self.cache.remove(idx);
        proof {
            lemma_entries_size_remove(pre, idx as int);
            lemma_entries_size_nonneg(self.cache@);
        }
        self.cache_size = self.cache_size - (entry.size as u64);
        proof {
            assert forall|k: Seq<char>| entry_bytes_in(pre, k) is None implies entry_bytes_in(
                self.cache@,
                k,
            ) is None by {
                lemma_entry_bytes_remove_absent(pre, idx as int, k);
            }
        }
        true
    }

    /// Compiles a handler source through the cache: the memory tier
    /// first, then the given disk-tier artifact, then a fresh compile
    /// populating the memory tier if its entry fits the budget.
    pub fn compile(&mut self, source: &str, disk_artifact: Option<Vec<u8>>) -> (r: Result<
        CompiledHandler,
        RuntimeError,
    >)
        requires
            old(self).wf(),
        ensures
            match r {
                Ok(c) => compile_post(
                    *old(self),
                    source@,
                    match disk_artifact {
                        Some(d) => Some(d@),
                        None => None,
                    },
                    *final(self),
                    c,
                ),
                Err(_) => false,
            },
    {
        let fp = self.fingerprint(source);
        let ghost pre = *self;
        match self.find_entry_index(fp.as_str()) {
            Some(i) => {
                self.cache_hits = self.cache_hits.saturating_add(1);
                self.clock = self.clock.saturating_add(1);
                let ghost precache = self.cache@;
                let entry = self.cache.remove(i);
                let bytecode = crate::text::clone_bytes(&entry.bytecode);
                let source_map = match &entry.source_map {
                    Some(m) => Some(
                        SourceMap {
                            source: m.source.clone(),
                            line_offsets: crate::text::clone_usizes(&m.line_offsets),
                        },
                    ),
                    None => None,
                };
                let touched = CacheEntry {
                    last_accessed: self.clock,
                    access_count: entry.access_count.saturating_add(1),
                    ..entry
                };
                self.cache.insert(i, touched);
                proof {
                    assert(self.cache@ =~= precache.update(i as int, self.cache@[i as int]));
                    lemma_entries_size_update_same(
                        precache,
                        i as int,
                        self.cache@[i as int],
                    );
                    assert forall|k: Seq<char>| entry_bytes_in(self.cache@, k)
                        == entry_bytes_in(precache, k) by {
                        lemma_entry_bytes_update_same(
                            precache,
                            i as int,
                            self.cache@[i as int],
                            k,
                        );
                    }
                }
                Ok(CompiledHandler { bytecode, source_map, cache_hit: true })
            },
            None => {
                match disk_artifact {
                    Some(bytes) => {
                        self.cache_hits = self.cache_hits.saturating_add(1);
                        self.clock = self.clock.saturating_add(1);
                        let promoted = crate::text::clone_bytes(&bytes);
                        self.store_entry(fp, promoted, None);
                        Ok(CompiledHandler { bytecode: bytes, source_map: None, cache_hit: true })
                    },
                    None => {
                        self.cache_misses = self.cache_misses.saturating_add(1);
                        self.total_compilations = self.total_compilations.saturating_add(1);
                        self.clock = self.clock.saturating_add(1);
                        let wrapped = self.wrap_handler(source);
                        let source_map = SourceMap::from_source(wrapped.as_str());
                        let bytecode = wrapped.as_str().as_bytes_vec();
                        let cached_bytes = crate::text::clone_bytes(&bytecode);
                        let cached_map = SourceMap {
                            source: source_map.source.clone(),
                            line_offsets: crate::text::clone_usizes(&source_map.line_offsets),
                        };
                        let ghost cm = cached_map;
                        proof {
                            if compiled_fits(source@, self.max_cache_size) {
                                assert(encode_utf8(cm.source@) =~= spec_compiled_bytes(
                                    source@,
                                ));
                                assert(spec_cache_entry_size(cached_bytes@, Some(cm)) == 2
                                    * spec_compiled_bytes(source@).len());
                            }
                        }
                        self.store_entry(fp, cached_bytes, Some(cached_map));
                        Ok(
                            CompiledHandler {
                                bytecode,
                                source_map: Some(source_map),
                                cache_hit: false,
                            },
                        )
                    },
                }
            },
        }
    }

    /// Inserts an artifact under a fingerprint absent from the cache,
    /// evicting least recently used entries until it fits; an artifact
    /// that cannot fit is not cached.
    fn store_entry(&mut self, key: String, bytecode: Vec<u8>, source_map: Option<SourceMap>)
        requires
            old(self).wf(),
            entry_bytes_in(old(self).cache@, key@) is None,
        ensures
            final(self).wf(),
            final(self).max_cache_size == old(self).max_cache_size,
            final(self).cache_hits == old(self).cache_hits,
            final(self).cache_misses == old(self).cache_misses,
            final(self).total_compilations == old(self).total_compilations,
            final(self).cache_dir@ == old(self).cache_dir@,
            spec_cache_entry_size(bytecode@, source_map) <= old(self).max_cache_size
                && spec_cache_entry_size(bytecode@, source_map) <= usize::MAX ==> final(self).entry_bytes(key@) == Some(bytecode@),
    {
        let ghost size_spec = spec_cache_entry_size(bytecode@, source_map);
        match CacheEntry::new(key, bytecode, source_map, self.clock) {
            Some(entry) => {
                let entry_size = entry.size;
                while self.cache_size > 0 && self.max_cache_size - self.cache_size < entry_size as u64
                    invariant
                        self.wf(),
                        self.max_cache_size == old(self).max_cache_size,
                        self.cache_hits == old(self).cache_hits,
                        self.cache_misses == old(self).cache_misses,
                        self.total_compilations == old(self).total_compilations,
                        self.cache_dir@ == old(self).cache_dir@,
                        entry_bytes_in(self.cache@, entry.key@) is None,
                        entry_size == entry.size,
                    decreases self.cache@.len(),
                {
                    proof {
                        lemma_entries_size_nonneg(self.cache@);
                        if self.cache@.len() == 0 {
                            assert(entries_size(self.cache@) == 0);
                            assert(self.cache_size == 0);
                        }
                    }
                    let ghost precache = self.cache@;
                    let evicted = self.evict_lru();
                    proof {
                        if !evicted {
                            assert(false);
                        }
                    }
                }
                if entry_size as u64 <= self.max_cache_size - self.cache_size {
                    let ghost precache = self.cache@;
                    let ghost e = entry;
                    self.cache.push(entry);
                    self.cache_size = self.cache_size + (entry_size as u64);
                    proof {
                        assert(self.cache@ =~= precache.push(e));
                        assert(entries_size(self.cache@) == entries_size(precache) + e.size)
                            by {
                            assert(self.cache@.drop_last() =~= precache);
                            assert(self.cache@.last() == e);
                        }
                        lemma_entry_bytes_push(precache, e, e.key@);
                    }
                }
            },
            None => {},
        }
    }

    /// Current compiler statistics.
    pub fn get_stats(&self) -> (r: CompilerStats)
        requires
            self.wf(),
        ensures
            r.cache_entries == self.cache@.len(),
            r.cache_size_bytes == self.cache_size,
            r.cache_hits == self.cache_hits,
            r.cache_misses == self.cache_misses,
            r.total_compilations == self.total_compilations,
    {
        CompilerStats {
            cache_entries: self.cache.len(),
            cache_size_bytes: self.cache_size,
            cache_hits: self.cache_hits,
            cache_misses: self.cache_misses,
            total_compilations: self.total_compilations,
        }
    }

    /// Drops every memory-tier entry; the host deletes the disk tier's
    /// artifact files.
    pub fn clear_cache(&mut self)
        ensures
            final(self).wf(),
            final(self).cache@.len() == 0,
            final(self).cache_size == 0,
            final(self).max_cache_size == old(self).max_cache_size,
            final(self).cache_hits == old(self).cache_hits,
            final(self).cache_misses == old(self).cache_misses,
            final(self).total_compilations == old(self).total_compilations,
            final(self).cache_dir@ == old(self).cache_dir@,
    {
        self.cache.clear();
        self.cache_size = 0;
    }
}

/// Entry sizes are never negative.
proof fn lemma_entries_size_nonneg(s: Seq<CacheEntry>)
    ensures
        entries_size(s) >= 0,
    decreases s.len(),
{
    if s.len() > 0 {
        lemma_entries_size_nonneg(s.drop_last());
    }
}

/// Two consecutive compiles of one source yield identical artifact
/// bytes, and the second is served from the cache, whenever the first
/// compile's artifact fits the cache budget.
pub proof fn lemma_recompile_hits(
    pre: HandlerCompiler,
    mid: HandlerCompiler,
    post: HandlerCompiler,
    source: Seq<char>,
    r1: CompiledHandler,
    r2: CompiledHandler,
)
    requires
        compile_post(pre, source, None, mid, r1),
        compile_post(mid, source, None, post, r2),
        pre.entry_bytes(spec_fingerprint(source)) is None ==> compiled_fits(
            source,
            pre.max_cache_size,
        ),
    ensures
        r1.bytecode@ == r2.bytecode@,
        r2.cache_hit,
{
    let fp = spec_fingerprint(source);
    if pre.entry_bytes(fp) is Some {
        assert(mid.entry_bytes(fp) == pre.entry_bytes(fp));
    } else {
        assert(mid.entry_bytes(fp) == Some(spec_compiled_bytes(source)));
    }
}

/// The memory tier never holds more bytes than the configured budget.
pub proof fn lemma_cache_within_budget(c: HandlerCompiler)
    requires
        c.wf(),
    ensures
        entries_size(c.cache@) <= c.max_cache_size,
{
}

/// A line with a trailing carriage return trimmed.
pub open spec fn spec_strip_cr(x: Seq<char>) -> Seq<char> {
    if x.len() > 0 && x.last() == '\r' {
        x.drop_last()
    } else {
        x
    }
}

/// The lines of a text: segments split on newline, a trailing empty
/// segment dropped, and a trailing carriage return trimmed per line.
pub open spec fn spec_lines(s: Seq<char>) -> Seq<Seq<char>> {
    let parts = crate::text::split_char(s, '\n');
    let kept = if parts.len() > 1 && parts.last().len() == 0 {
        parts.drop_last()
    } else {
        parts
    };
    kept.map_values(|x: Seq<char>| spec_strip_cr(x))
}

/// One snippet row: a marker on the target line, the padded line
/// number, a separator and the line text.
pub open spec fn spec_snippet_row(lines: Seq<Seq<char>>, idx: int, target: int) -> Seq<char> {
    (if idx + 1 == target {
        seq!['>']
    } else {
        seq![' ']
    }) + seq![' '] + spec_padded_decimal((idx + 1) as nat, 4) + " | "@ + (if 0 <= idx
        < lines.len() {
        lines[idx]
    } else {
        Seq::empty()
    })
}

/// Snippet rows for the line range `[start, upto)`, joined by
/// newlines.
pub open spec fn spec_snippet_rows(
    lines: Seq<Seq<char>>,
    start: int,
    upto: int,
    target: int,
) -> Seq<char>
    decreases upto - start,
{
    if upto <= start {
        Seq::empty()
    } else if upto == start + 1 {
        spec_snippet_row(lines, start, target)
    } else {
        spec_snippet_rows(lines, start, upto - 1, target) + "\n"@ + spec_snippet_row(
            lines,
            upto - 1,
            target,
        )
    }
}

/// The snippet around a 1-indexed target line with `context` lines on
/// each side.
pub open spec fn spec_snippet(source: Seq<char>, line: int, context: int) -> Seq<char> {
    let lines = spec_lines(source);
    let start = if line > context + 1 {
        line - (context + 1)
    } else {
        0
    };
    let upto = if line + context < lines.len() {
        line + context
    } else {
        lines.len() as int
    };
    spec_snippet_rows(lines, start, upto, line)
}

/// The lines of a string, as `spec_lines` describes them.
fn lines_of(s: &str) -> (r: Vec<String>)
    ensures
        crate::text::seq_views(r@) == spec_lines(s@),
{
    let mut parts = crate::text::split_char_str(s, '\n');
    let ghost parts0 = crate::text::seq_views(parts@);
    if parts.len() > 1 {
        let lastlen = parts[parts.len() - 1].as_str().unicode_len();
        if lastlen == 0 {
            parts.pop();
            proof {
                assert(crate::text::seq_views(parts@) =~= parts0.drop_last());
            }
        }
    }
    let ghost kept = crate::text::seq_views(parts@);
    let n = parts.len();
    let mut out: Vec<String> = Vec::new();
    let mut i: usize = 0;
    while i < n
        invariant
            i <= n,
            n == parts@.len(),
            kept == crate::text::seq_views(parts@),
            out@.len() == i,
            forall|j: int| 0 <= j < i ==> out@[j]@ == spec_strip_cr(kept[j]),
        decreases n - i,
    {
        let linelen = parts[i].as_str().unicode_len();
        if linelen > 0 && parts[i].as_str().get_char(linelen - 1) == '\r' {
            let trimmed = parts[i].as_str().substring_char(0, linelen - 1);
            proof {
                assert(trimmed@ =~= kept[i as int].drop_last());
            }
            out.push(trimmed.to_owned());
        } else {
            out.push(parts[i].clone());
        }
        i += 1;
    }
    proof {
        assert(crate::text::seq_views(out@) =~= spec_lines(s@));
    }
    out
}

impl SourceMap {
    /// A marked snippet around a 1-indexed line, with `context_lines`
    /// lines of context on each side.
    pub fn get_snippet(&self, line: usize, context_lines: usize) -> (r: String)
        requires
            context_lines < usize::MAX,
        ensures
            r@ == spec_snippet(self.source@, line as int, context_lines as int),
    {
        let lines = lines_of(self.source.as_str());
        let ghost lm = crate::text::seq_views(lines@);
        let n = lines.len();
        let start: usize = if line > context_lines + 1 {
            line - (context_lines + 1)
        } else {
            0
        };
        let upto: usize = if line < n && n - line > context_lines {
            line + context_lines
        } else {
            n
        };
        proof {
            assert(upto as int == (if line as int + context_lines < lm.len() {
                line as int + context_lines as int
            } else {
                lm.len() as int
            }));
        }
        let mut s = String::new();
        let mut idx: usize = start;
        assert(s@ =~= spec_snippet_rows(lm, start as int, start as int, line as int));
        while idx < upto
            invariant
                start <= idx <= upto || (idx == start && start >= upto),
                upto <= n,
                n == lines@.len(),
                lm == crate::text::seq_views(lines@),
                s@ == spec_snippet_rows(lm, start as int, idx as int, line as int),
            decreases upto - idx,
        {
            if idx > start {
                s.append("\n");
            }
            if idx + 1 == line {
                s.append(">");
            } else {
                s.append(" ");
            }
            s.append(" ");
            s.append(u64_to_decimal_padded((idx + 1) as u64, 4).as_str());
            s.append(" | ");
            s.append(lines[idx].as_str());
            proof {
                reveal_strlit(">");
                reveal_strlit(" ");
                reveal_strlit("\n");
                assert((">"@) =~= seq!['>']);
                assert((" "@) =~= seq![' ']);
                assert(("\n"@) =~= seq!['\n']);
                assert(s@ =~= spec_snippet_rows(lm, start as int, idx + 1, line as int));
            }
            idx += 1;
        }
        s
    }
}

} // verus!
