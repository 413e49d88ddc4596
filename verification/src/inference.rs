//! Advisory capability inference: a lexical scan of handler source for
//! `$state.<ident>` reads, `$state.<ident> =` writes, `$emit('<name>'`
//! calls and `$ext.<name>` accesses.  The result is a hint for
//! developers and never replaces the runtime checks.

use vstd::prelude::*;

use crate::capability::CapModel;
use crate::capability::CapabilityToken;
use crate::capability::caps_model;

verus! {

/// Whether a character is a word character (letter, digit, underscore).
pub open spec fn is_word_char(c: char) -> bool {
    let u = c as u32;
    (0x61 <= u && u <= 0x7a) || (0x41 <= u && u <= 0x5a) || (0x30 <= u && u <= 0x39) || u == 0x5f
}

/// Whether a character is lexical whitespace.
pub open spec fn is_ws_char(c: char) -> bool {
    c == ' ' || c == '\t' || c == '\n' || c == '\r'
}

fn word_char(c: char) -> (r: bool)
    ensures
        r == is_word_char(c),
{
    let u = c as u32;
    (0x61 <= u && u <= 0x7a) || (0x41 <= u && u <= 0x5a) || (0x30 <= u && u <= 0x39) || u == 0x5f
}

fn ws_char(c: char) -> (r: bool)
    ensures
        r == is_ws_char(c),
{
    c == ' ' || c == '\t' || c == '\n' || c == '\r'
}

/// End of the word-character run starting at `k`.
pub open spec fn word_end(s: Seq<char>, k: nat) -> nat
    decreases s.len() - k,
    when k <= s.len()
{
    if k < s.len() && is_word_char(s[k as int]) {
        word_end(s, k + 1)
    } else {
        k
    }
}

/// `word_end` stays within bounds and ends the word run.
pub proof fn lemma_word_end(s: Seq<char>, k: nat)
    requires
        k <= s.len(),
    ensures
        k <= word_end(s, k) <= s.len(),
        forall|j: int| k <= j < word_end(s, k) ==> is_word_char(s[j]),
        word_end(s, k) < s.len() ==> !is_word_char(s[word_end(s, k) as int]),
    decreases s.len() - k,
{
    if k < s.len() && is_word_char(s[k as int]) {
        lemma_word_end(s, k + 1);
    }
}

/// The first non-word position determines `word_end` uniquely.
pub proof fn lemma_word_end_at(s: Seq<char>, k: nat, r: nat)
    requires
        k <= r <= s.len(),
        forall|j: int| k <= j < r ==> is_word_char(s[j]),
        r < s.len() ==> !is_word_char(s[r as int]),
    ensures
        word_end(s, k) == r,
    decreases r - k,
{
    if k < r {
        lemma_word_end_at(s, k + 1, r);
    }
}

/// End of the whitespace run starting at `k`.
pub open spec fn ws_end(s: Seq<char>, k: nat) -> nat
    decreases s.len() - k,
    when k <= s.len()
{
    if k < s.len() && is_ws_char(s[k as int]) {
        ws_end(s, k + 1)
    } else {
        k
    }
}

/// `ws_end` stays within bounds and ends the whitespace run.
pub proof fn lemma_ws_end(s: Seq<char>, k: nat)
    requires
        k <= s.len(),
    ensures
        k <= ws_end(s, k) <= s.len(),
        ws_end(s, k) < s.len() ==> !is_ws_char(s[ws_end(s, k) as int]),
    decreases s.len() - k,
{
    if k < s.len() && is_ws_char(s[k as int]) {
        lemma_ws_end(s, k + 1);
    }
}

/// The first non-whitespace position determines `ws_end` uniquely.
pub proof fn lemma_ws_end_at(s: Seq<char>, k: nat, r: nat)
    requires
        k <= r <= s.len(),
        forall|j: int| k <= j < r ==> is_ws_char(s[j]),
        r < s.len() ==> !is_ws_char(s[r as int]),
    ensures
        ws_end(s, k) == r,
    decreases r - k,
{
    if k < r {
        lemma_ws_end_at(s, k + 1, r);
    }
}

/// Whether `pat` occurs in `s` at position `i`.
pub open spec fn has_prefix_at(s: Seq<char>, i: nat, pat: Seq<char>) -> bool {
    i + pat.len() <= s.len() && s.subrange(i as int, i as int + pat.len() as int) == pat
}

fn word_end_str(s: &str, len: usize, k: usize) -> (r: usize)
    requires
        len == s@.len(),
        k <= len,
    ensures
        r == word_end(s@, k as nat),
        k <= r <= len,
{
    let mut r: usize = k;
    while r < len && word_char_at(s, r)
        invariant
            k <= r <= len,
            len == s@.len(),
            forall|j: int| k <= j < r ==> is_word_char(s@[j]),
        decreases len - r,
    {
        r += 1;
    }
    proof {
        lemma_word_end_at(s@, k as nat, r as nat);
    }
    r
}

fn word_char_at(s: &str, i: usize) -> (r: bool)
    requires
        i < s@.len(),
    ensures
        r == is_word_char(s@[i as int]),
{
    word_char(s.get_char(i))
}

fn ws_end_str(s: &str, len: usize, k: usize) -> (r: usize)
    requires
        len == s@.len(),
        k <= len,
    ensures
        r == ws_end(s@, k as nat),
        k <= r <= len,
{
    let mut r: usize = k;
    while r < len && ws_char_at(s, r)
        invariant
            k <= r <= len,
            len == s@.len(),
            forall|j: int| k <= j < r ==> is_ws_char(s@[j]),
        decreases len - r,
    {
        r += 1;
    }
    proof {
        lemma_ws_end_at(s@, k as nat, r as nat);
    }
    r
}

fn ws_char_at(s: &str, i: usize) -> (r: bool)
    requires
        i < s@.len(),
    ensures
        r == is_ws_char(s@[i as int]),
{
    ws_char(s.get_char(i))
}

fn match_at(s: &str, len: usize, i: usize, pat: &str) -> (r: bool)
    requires
        len == s@.len(),
        i <= len,
    ensures
        r == has_prefix_at(s@, i as nat, pat@),
{
    let plen = pat.unicode_len();
    if plen > len - i {
        return false;
    }
    let mut j: usize = 0;
    while j < plen
        invariant
            j <= plen,
            i + plen <= len,
            len == s@.len(),
            plen == pat@.len(),
            forall|k: int| 0 <= k < j ==> s@[i + k] == pat@[k],
        decreases plen - j,
    {
        if s.get_char(i + j) != pat.get_char(j) {
            assert(s@[i + j] != pat@[j as int]);
            assert(!has_prefix_at(s@, i as nat, pat@)) by {
                if has_prefix_at(s@, i as nat, pat@) {
                    assert(s@.subrange(i as int, i as int + pat@.len() as int)[j as int]
                        == pat@[j as int]);
                }
            }
            return false;
        }
        j += 1;
    }
    assert(s@.subrange(i as int, i as int + pat@.len() as int) =~= pat@);
    true
}

/// State accesses found from position `i` on: each is the identifier
/// after `$state.` together with whether `=` follows it (a write).
pub open spec fn scan_state(s: Seq<char>, i: nat) -> Seq<(Seq<char>, bool)>
    decreases s.len() - i,
    when i <= s.len()
{
    if i >= s.len() {
        Seq::empty()
    } else if has_prefix_at(s, i, "$state."@) && i + 7 < s.len() && is_word_char(
        s[i as int + 7],
    ) {
        proof {
            reveal_strlit("$state.");
            lemma_word_end(s, (i + 8) as nat);
        }
        let end = word_end(s, (i + 7) as nat);
        let ident = s.subrange(i as int + 7, end as int);
        let j = ws_end(s, end);
        let is_write = j < s.len() && s[j as int] == '=';
        seq![(ident, is_write)] + scan_state(s, end)
    } else {
        scan_state(s, (i + 1) as nat)
    }
}

/// Event names found from position `i` on: the quoted word after
/// `$emit(`, allowing whitespace before and inside the parenthesis.
pub open spec fn scan_emit(s: Seq<char>, i: nat) -> Seq<Seq<char>>
    decreases s.len() - i,
    when i <= s.len()
{
    if i >= s.len() {
        Seq::empty()
    } else if scan_emit_match(s, i) {
        proof {
            reveal_strlit("$emit");
            lemma_ws_end(s, (i + 5) as nat);
            lemma_ws_end(s, (ws_end(s, (i + 5) as nat) + 1) as nat);
            lemma_word_end(s, (ws_end(s, (ws_end(s, (i + 5) as nat) + 1) as nat) + 2) as nat);
        }
        let q = ws_end(s, (ws_end(s, (i + 5) as nat) + 1) as nat);
        let end = word_end(s, (q + 1) as nat);
        seq![s.subrange(q as int + 1, end as int)] + scan_emit(s, (end + 1) as nat)
    } else {
        scan_emit(s, (i + 1) as nat)
    }
}

/// Whether the `$emit('<name>'` pattern occurs at position `i`.
pub open spec fn scan_emit_match(s: Seq<char>, i: nat) -> bool {
    has_prefix_at(s, i, "$emit"@) && {
        let p = ws_end(s, (i + 5) as nat);
        p < s.len() && s[p as int] == '(' && {
            let q = ws_end(s, (p + 1) as nat);
            q + 1 < s.len() && (s[q as int] == '\'' || s[q as int] == '"') && is_word_char(
                s[q as int + 1],
            ) && {
                let end = word_end(s, (q + 1) as nat);
                end < s.len() && (s[end as int] == '\'' || s[end as int] == '"')
            }
        }
    }
}

/// Extension names found from position `i` on: the identifier after
/// `$ext.`.
pub open spec fn scan_ext(s: Seq<char>, i: nat) -> Seq<Seq<char>>
    decreases s.len() - i,
    when i <= s.len()
{
    if i >= s.len() {
        Seq::empty()
    } else if has_prefix_at(s, i, "$ext."@) && i + 5 < s.len() && is_word_char(
        s[i as int + 5],
    ) {
        proof {
            reveal_strlit("$ext.");
            lemma_word_end(s, (i + 6) as nat);
        }
        let end = word_end(s, (i + 5) as nat);
        seq![s.subrange(i as int + 5, end as int)] + scan_ext(s, end)
    } else {
        scan_ext(s, (i + 1) as nat)
    }
}

/// Views of scanned state pairs.
pub open spec fn pairs_model(v: Seq<(String, bool)>) -> Seq<(Seq<char>, bool)> {
    v.map_values(|p: (String, bool)| (p.0@, p.1))
}

/// Views of scanned names.
pub open spec fn names_model(v: Seq<String>) -> Seq<Seq<char>> {
    v.map_values(|s: String| s@)
}

/// Collects the state accesses of the whole source.
fn scan_state_str(code: &str) -> (r: Vec<(String, bool)>)
    ensures
        pairs_model(r@) == scan_state(code@, 0),
{
    let len = code.unicode_len();
    let mut out: Vec<(String, bool)> = Vec::new();
    let mut i: usize = 0;
    assert(pairs_model(out@) + scan_state(code@, 0) =~= scan_state(code@, 0));
    while i < len
        invariant
            i <= len,
            len == code@.len(),
            pairs_model(out@) + scan_state(code@, i as nat) == scan_state(code@, 0),
        decreases len - i,
    {
        let ghost pre = pairs_model(out@);
        proof {
            reveal_strlit("$state.");
        }
        if match_at(code, len, i, "$state.") && i + 7 < len && word_char_at(code, i + 7) {
            let end = word_end_str(code, len, i + 8);
            proof {
                lemma_word_end(code@, (i + 8) as nat);
                assert(word_end(code@, (i + 7) as nat) == word_end(code@, (i + 8) as nat));
            }
            let ident = code.substring_char(i + 7, end).to_owned();
            let j = ws_end_str(code, len, end);
            let is_write = j < len && code.get_char(j) == '=';
            out.push((ident, is_write));
            proof {
                let s = code@;
                let iw = j < s.len() && s[j as int] == '=';
                assert(scan_state(s, i as nat) == seq![
                    (s.subrange(i as int + 7, end as int), iw),
                ] + scan_state(s, end as nat));
                assert(ident@ == s.subrange(i as int + 7, end as int));
                assert(pairs_model(out@) =~= pre + seq![
                    (s.subrange(i as int + 7, end as int), iw),
                ]);
                assert(pairs_model(out@) + scan_state(s, end as nat) =~= pre + scan_state(
                    s,
                    i as nat,
                ));
            }
            i = end;
        } else {
            proof {
                assert(scan_state(code@, i as nat) == scan_state(code@, (i + 1) as nat));
            }
            i += 1;
        }
    }
    proof {
        assert(scan_state(code@, len as nat) =~= Seq::empty());
        assert(pairs_model(out@) =~= pairs_model(out@) + scan_state(code@, len as nat));
    }
    out
}

/// Collects the emitted event names of the whole source.
fn scan_emit_str(code: &str) -> (r: Vec<String>)
    ensures
        names_model(r@) == scan_emit(code@, 0),
{
    let len = code.unicode_len();
    let mut out: Vec<String> = Vec::new();
    let mut i: usize = 0;
    assert(names_model(out@) + scan_emit(code@, 0) =~= scan_emit(code@, 0));
    while i < len
        invariant
            i <= len,
            len == code@.len(),
            names_model(out@) + scan_emit(code@, i as nat) == scan_emit(code@, 0),
        decreases len - i,
    {
        let ghost pre = names_model(out@);
        proof {
            reveal_strlit("$emit");
        }
        let mut matched = false;
        let mut qpos: usize = 0;
        let mut wend: usize = 0;
        if match_at(code, len, i, "$emit") {
            let p = ws_end_str(code, len, i + 5);
            if p < len && code.get_char(p) == '(' {
                let q = ws_end_str(code, len, p + 1);
                if len - q > 1 && (code.get_char(q) == '\'' || code.get_char(q) == '"')
                    && word_char_at(code, q + 1) {
                    let end = word_end_str(code, len, q + 2);
                    proof {
                        lemma_word_end(code@, (q + 2) as nat);
                        assert(word_end(code@, (q + 1) as nat) == word_end(
                            code@,
                            (q + 2) as nat,
                        ));
                    }
                    if end < len && (code.get_char(end) == '\'' || code.get_char(end) == '"') {
                        matched = true;
                        qpos = q;
                        wend = end;
                    }
                }
            }
        }
        if matched {
            proof {
                assert(scan_emit_match(code@, i as nat));
                assert(scan_emit(code@, i as nat) == seq![
                    code@.subrange(qpos as int + 1, wend as int),
                ] + scan_emit(code@, (wend + 1) as nat));
            }
            let name = code.substring_char(qpos + 1, wend).to_owned();
            out.push(name);
            proof {
                assert(names_model(out@) =~= pre + seq![
                    code@.subrange(qpos as int + 1, wend as int),
                ]);
                assert(names_model(out@) + scan_emit(code@, (wend + 1) as nat) =~= pre
                    + scan_emit(code@, i as nat));
            }
            i = wend + 1;
        } else {
            proof {
                assert(!scan_emit_match(code@, i as nat)) by {
                    if scan_emit_match(code@, i as nat) {
                        lemma_ws_end(code@, (i + 5) as nat);
                        lemma_ws_end(code@, (ws_end(code@, (i + 5) as nat) + 1) as nat);
                        lemma_word_end(
                            code@,
                            (ws_end(code@, (ws_end(code@, (i + 5) as nat) + 1) as nat)
                                + 2) as nat,
                        );
                    }
                }
                assert(scan_emit(code@, i as nat) == scan_emit(code@, (i + 1) as nat));
            }
            i += 1;
        }
    }
    proof {
        assert(scan_emit(code@, len as nat) =~= Seq::empty());
        assert(names_model(out@) =~= names_model(out@) + scan_emit(code@, len as nat));
    }
    out
}

/// Collects the extension names of the whole source.
fn scan_ext_str(code: &str) -> (r: Vec<String>)
    ensures
        names_model(r@) == scan_ext(code@, 0),
{
    let len = code.unicode_len();
    let mut out: Vec<String> = Vec::new();
    let mut i: usize = 0;
    assert(names_model(out@) + scan_ext(code@, 0) =~= scan_ext(code@, 0));
    while i < len
        invariant
            i <= len,
            len == code@.len(),
            names_model(out@) + scan_ext(code@, i as nat) == scan_ext(code@, 0),
        decreases len - i,
    {
        let ghost pre = names_model(out@);
        proof {
            reveal_strlit("$ext.");
        }
        if match_at(code, len, i, "$ext.") && i + 5 < len && word_char_at(code, i + 5) {
            let end = word_end_str(code, len, i + 6);
            proof {
                lemma_word_end(code@, (i + 6) as nat);
                assert(word_end(code@, (i + 5) as nat) == word_end(code@, (i + 6) as nat));
            }
            let ident = code.substring_char(i + 5, end).to_owned();
            out.push(ident);
            proof {
                assert(scan_ext(code@, i as nat) == seq![
                    code@.subrange(i as int + 5, end as int),
                ] + scan_ext(code@, end as nat));
                assert(names_model(out@) =~= pre + seq![
                    code@.subrange(i as int + 5, end as int),
                ]);
                assert(names_model(out@) + scan_ext(code@, end as nat) =~= pre + scan_ext(
                    code@,
                    i as nat,
                ));
            }
            i = end;
        } else {
            proof {
                assert(scan_ext(code@, i as nat) == scan_ext(code@, (i + 1) as nat));
            }
            i += 1;
        }
    }
    proof {
        assert(scan_ext(code@, len as nat) =~= Seq::empty());
        assert(names_model(out@) =~= names_model(out@) + scan_ext(code@, len as nat));
    }
    out
}

/// The write capabilities among scanned state accesses, in order.
pub open spec fn write_caps(st: Seq<(Seq<char>, bool)>) -> Seq<CapModel>
    decreases st.len(),
{
    if st.len() == 0 {
        Seq::empty()
    } else {
        write_caps(st.drop_last()) + (if st.last().1 {
            seq![CapModel::StateWrite(st.last().0)]
        } else {
            Seq::empty()
        })
    }
}

/// The read capabilities of scanned state accesses, in order.
pub open spec fn read_caps(st: Seq<(Seq<char>, bool)>) -> Seq<CapModel> {
    st.map_values(|p: (Seq<char>, bool)| CapModel::StateRead(p.0))
}

/// All capability candidates inferred from source, before removing
/// duplicates: state reads, then writes, then events, then extensions.
pub open spec fn spec_inferred_caps(s: Seq<char>) -> Seq<CapModel> {
    read_caps(scan_state(s, 0)) + write_caps(scan_state(s, 0)) + scan_emit(s, 0).map_values(
        |n: Seq<char>| CapModel::EventsEmit(n),
    ) + scan_ext(s, 0).map_values(|n: Seq<char>| CapModel::Extension(n))
}

/// First occurrences of a capability sequence, in order.
pub open spec fn dedup_caps(s: Seq<CapModel>) -> Seq<CapModel>
    decreases s.len(),
{
    if s.len() == 0 {
        Seq::empty()
    } else {
        dedup_caps(s.drop_last()) + (if s.drop_last().contains(s.last()) {
            Seq::empty()
        } else {
            seq![s.last()]
        })
    }
}

/// Removing duplicates keeps membership.
pub proof fn lemma_dedup_membership(s: Seq<CapModel>, x: CapModel)
    ensures
        dedup_caps(s).contains(x) == s.contains(x),
    decreases s.len(),
{
    if s.len() == 0 {
        assert(!s.contains(x));
        assert(!dedup_caps(s).contains(x));
    } else {
        lemma_dedup_membership(s.drop_last(), x);
        let d = dedup_caps(s);
        let dpre = dedup_caps(s.drop_last());
        if s.contains(x) {
            if s.drop_last().contains(x) {
                assert(d.contains(x)) by {
                    let i = choose|i: int| 0 <= i < dpre.len() && dpre[i] == x;
                    assert(d[i] == x);
                }
            } else {
                let i = choose|i: int| 0 <= i < s.len() && s[i] == x;
                assert(i == s.len() - 1) by {
                    if i < s.len() - 1 {
                        assert(s.drop_last()[i] == x);
                    }
                }
                assert(x == s.last());
                assert(d.last() == x);
                assert(d.contains(x));
            }
        } else {
            assert(!s.drop_last().contains(x)) by {
                if s.drop_last().contains(x) {
                    let i = choose|i: int| 0 <= i < s.drop_last().len() && s.drop_last()[i]
                        == x;
                    assert(s[i] == x);
                }
            }
            assert(x != s.last()) by {
                if x == s.last() {
                    assert(s[s.len() - 1] == x);
                }
            }
            assert(!d.contains(x)) by {
                if d.contains(x) {
                    let i = choose|i: int| 0 <= i < d.len() && d[i] == x;
                    if i < dpre.len() {
                        assert(dpre[i] == x);
                    } else {
                        assert(d[i] == s.last());
                    }
                }
            }
        }
    }
}

/// Whether two tokens denote the same capability.
pub fn token_eq(a: &CapabilityToken, b: &CapabilityToken) -> (r: bool)
    ensures
        r == (a.model() == b.model()),
{
    match (a, b) {
        (CapabilityToken::StateRead(x), CapabilityToken::StateRead(y)) => crate::text::str_eq(
            x.as_str(),
            y.as_str(),
        ),
        (CapabilityToken::StateWrite(x), CapabilityToken::StateWrite(y)) => crate::text::str_eq(
            x.as_str(),
            y.as_str(),
        ),
        (CapabilityToken::StateReadAll, CapabilityToken::StateReadAll) => true,
        (CapabilityToken::StateWriteAll, CapabilityToken::StateWriteAll) => true,
        (CapabilityToken::EventsEmit(x), CapabilityToken::EventsEmit(y)) => crate::text::str_eq(
            x.as_str(),
            y.as_str(),
        ),
        (CapabilityToken::EventsEmitAll, CapabilityToken::EventsEmitAll) => true,
        (CapabilityToken::ViewUpdate(x), CapabilityToken::ViewUpdate(y)) => crate::text::str_eq(
            x.as_str(),
            y.as_str(),
        ),
        (CapabilityToken::ViewUpdateAll, CapabilityToken::ViewUpdateAll) => true,
        (CapabilityToken::Extension(x), CapabilityToken::Extension(y)) => crate::text::str_eq(
            x.as_str(),
            y.as_str(),
        ),
        (CapabilityToken::ExtensionAll, CapabilityToken::ExtensionAll) => true,
        _ => false,
    }
}

/// Whether a token's capability already occurs in a vector.
fn token_in(v: &Vec<CapabilityToken>, t: &CapabilityToken) -> (r: bool)
    ensures
        r == caps_model(v@).contains(t.model()),
{
    let n = v.len();
    let mut i: usize = 0;
    while i < n
        invariant
            i <= n,
            n == v@.len(),
            forall|j: int| 0 <= j < i ==> caps_model(v@)[j] != t.model(),
        decreases n - i,
    {
        if token_eq(&v[i], t) {
            assert(caps_model(v@)[i as int] == t.model());
            return true;
        }
        i += 1;
    }
    assert(!caps_model(v@).contains(t.model())) by {
        if caps_model(v@).contains(t.model()) {
            let j = choose|j: int| 0 <= j < caps_model(v@).len() && caps_model(v@)[j]
                == t.model();
            assert(caps_model(v@)[j] == t.model());
        }
    }
    false
}

/// Infers a best-effort capability set from handler source text by
/// lexical scanning; advisory only.
pub fn infer_capabilities(handler_code: &str) -> (r: Vec<CapabilityToken>)
    ensures
        caps_model(r@) == dedup_caps(spec_inferred_caps(handler_code@)),
{
    let state_pairs = scan_state_str(handler_code);
    let emits = scan_emit_str(handler_code);
    let exts = scan_ext_str(handler_code);

    let mut cands: Vec<CapabilityToken> = Vec::new();
    let ghost s = handler_code@;

    let n = state_pairs.len();
    let mut i: usize = 0;
    assert(caps_model(cands@) =~= read_caps(pairs_model(state_pairs@).subrange(0, 0)));
    while i < n
        invariant
            i <= n,
            n == state_pairs@.len(),
            pairs_model(state_pairs@) == scan_state(s, 0),
            caps_model(cands@) == read_caps(pairs_model(state_pairs@).subrange(0, i as int)),
        decreases n - i,
    {
        let ghost pre = caps_model(cands@);
        cands.push(CapabilityToken::StateRead(state_pairs[i].0.clone()));
        proof {
            assert(caps_model(cands@) =~= pre + seq![
                CapModel::StateRead(pairs_model(state_pairs@)[i as int].0),
            ]);
            assert(caps_model(cands@) =~= read_caps(
                pairs_model(state_pairs@).subrange(0, i + 1),
            ));
        }
        i += 1;
    }
    assert(pairs_model(state_pairs@).subrange(0, n as int) =~= pairs_model(state_pairs@));

    let ghost reads_done = caps_model(cands@);
    let mut i: usize = 0;
    assert(caps_model(cands@) =~= reads_done + write_caps(
        pairs_model(state_pairs@).subrange(0, 0),
    ));
    while i < n
        invariant
            i <= n,
            n == state_pairs@.len(),
            pairs_model(state_pairs@) == scan_state(s, 0),
            caps_model(cands@) == reads_done + write_caps(
                pairs_model(state_pairs@).subrange(0, i as int),
            ),
        decreases n - i,
    {
        let ghost pre = caps_model(cands@);
        let ghost sub1 = pairs_model(state_pairs@).subrange(0, i + 1);
        proof {
            assert(sub1.drop_last() =~= pairs_model(state_pairs@).subrange(0, i as int));
            assert(sub1.last() == pairs_model(state_pairs@)[i as int]);
        }
        if state_pairs[i].1 {
            cands.push(CapabilityToken::StateWrite(state_pairs[i].0.clone()));
            proof {
                assert(caps_model(cands@) =~= pre + seq![
                    CapModel::StateWrite(pairs_model(state_pairs@)[i as int].0),
                ]);
            }
        }
        i += 1;
    }
    assert(pairs_model(state_pairs@).subrange(0, n as int) =~= pairs_model(state_pairs@));

    let ghost writes_done = caps_model(cands@);
    let en = emits.len();
    let mut i: usize = 0;
    assert(names_model(emits@).subrange(0, 0).map_values(|n0: Seq<char>| CapModel::EventsEmit(
        n0,
    )) =~= Seq::<CapModel>::empty());
    while i < en
        invariant
            i <= en,
            en == emits@.len(),
            names_model(emits@) == scan_emit(s, 0),
            caps_model(cands@) == writes_done + names_model(emits@).subrange(
                0,
                i as int,
            ).map_values(|n0: Seq<char>| CapModel::EventsEmit(n0)),
        decreases en - i,
    {
        let ghost pre = caps_model(cands@);
        cands.push(CapabilityToken::EventsEmit(emits[i].clone()));
        proof {
            assert(caps_model(cands@) =~= pre + seq![
                CapModel::EventsEmit(names_model(emits@)[i as int]),
            ]);
            assert(caps_model(cands@) =~= writes_done + names_model(emits@).subrange(
                0,
                i + 1,
            ).map_values(|n0: Seq<char>| CapModel::EventsEmit(n0)));
        }
        i += 1;
    }
    assert(names_model(emits@).subrange(0, en as int) =~= names_model(emits@));

    let ghost emits_done = caps_model(cands@);
    let xn = exts.len();
    let mut i: usize = 0;
    while i < xn
        invariant
            i <= xn,
            xn == exts@.len(),
            names_model(exts@) == scan_ext(s, 0),
            caps_model(cands@) == emits_done + names_model(exts@).subrange(
                0,
                i as int,
            ).map_values(|n0: Seq<char>| CapModel::Extension(n0)),
        decreases xn - i,
    {
        let ghost pre = caps_model(cands@);
        cands.push(CapabilityToken::Extension(exts[i].clone()));
        proof {
            assert(caps_model(cands@) =~= pre + seq![
                CapModel::Extension(names_model(exts@)[i as int]),
            ]);
            assert(caps_model(cands@) =~= emits_done + names_model(exts@).subrange(
                0,
                i + 1,
            ).map_values(|n0: Seq<char>| CapModel::Extension(n0)));
        }
        i += 1;
    }
    assert(names_model(exts@).subrange(0, xn as int) =~= names_model(exts@));
    assert(caps_model(cands@) =~= spec_inferred_caps(s));

    let cn = cands.len();
    let mut out: Vec<CapabilityToken> = Vec::new();
    let mut i: usize = 0;
    assert(caps_model(out@) =~= dedup_caps(caps_model(cands@).subrange(0, 0)));
    while i < cn
        invariant
            i <= cn,
            cn == cands@.len(),
            caps_model(cands@) == spec_inferred_caps(s),
            caps_model(out@) == dedup_caps(caps_model(cands@).subrange(0, i as int)),
        decreases cn - i,
    {
        let ghost pre = caps_model(out@);
        let ghost full = caps_model(cands@);
        let ghost sub1 = full.subrange(0, i + 1);
        proof {
            assert(sub1.drop_last() =~= full.subrange(0, i as int));
            assert(sub1.last() == full[i as int]);
            lemma_dedup_membership(full.subrange(0, i as int), full[i as int]);
        }
        if !token_in(&out, &cands[i]) {
            let t = cands[i].clone();
            out.push(t);
            proof {
                assert(caps_model(out@) =~= pre + seq![full[i as int]]);
            }
        } else {
            proof {
                assert(caps_model(out@) =~= pre + Seq::<CapModel>::empty());
            }
        }
        i += 1;
    }
    assert(caps_model(cands@).subrange(0, cn as int) =~= caps_model(cands@));
    out
}

} // verus!
