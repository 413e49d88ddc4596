//! Capability grammar and runtime enforcement.
//!
//! Tokens are parsed from colon-separated grant strings
//! (`state:read:{key|*}`, `state:write:{key|*}`, `events:emit:{name|*}`,
//! `view:update:{id|*}`, `ext:{name|*}`).  A set of granted tokens
//! matches a required capability string exactly when one granted token
//! has the required family and either is that family's wildcard or has
//! the required scope.  A lexical scanner infers advisory capability
//! sets from handler source.

use vstd::prelude::*;

use crate::text::seq_contains_char;
use crate::text::str_eq;

verus! {

/// Index of the first colon in a character sequence, if any.
pub open spec fn find_colon(s: Seq<char>) -> Option<nat>
    decreases s.len(),
{
    if s.len() == 0 {
        None
    } else if s[0] == ':' {
        Some(0)
    } else {
        match find_colon(s.drop_first()) {
            Some(i) => Some((i + 1) as nat),
            None => None,
        }
    }
}

/// Characterization of `find_colon`: it returns the least colon index.
pub proof fn lemma_find_colon(s: Seq<char>)
    ensures
        match find_colon(s) {
            Some(i) => i < s.len() && s[i as int] == ':' && forall|j: int|
                0 <= j < i ==> s[j] != ':',
            None => !seq_contains_char(s, ':'),
        },
    decreases s.len(),
{
    if s.len() == 0 {
    } else if s[0] == ':' {
    } else {
        lemma_find_colon(s.drop_first());
        match find_colon(s.drop_first()) {
            Some(i) => {
                assert(s[i as int + 1] == s.drop_first()[i as int]);
                assert(forall|j: int| 1 <= j < i + 1 ==> s[j] == s.drop_first()[j - 1]);
            },
            None => {
                assert forall|j: int| 0 <= j < s.len() implies s[j] != ':' by {
                    if j > 0 {
                        assert(s[j] == s.drop_first()[j - 1]);
                    }
                }
            },
        }
    }
}

/// The least colon index determines `find_colon` uniquely.
pub proof fn lemma_find_colon_at(s: Seq<char>, i: int)
    requires
        0 <= i < s.len(),
        s[i] == ':',
        forall|j: int| 0 <= j < i ==> s[j] != ':',
    ensures
        find_colon(s) == Some(i as nat),
    decreases s.len(),
{
    if i == 0 {
    } else {
        assert(forall|j: int| 0 <= j < i - 1 ==> s.drop_first()[j] == s[j + 1]);
        lemma_find_colon_at(s.drop_first(), i - 1);
    }
}

/// Segments of a character sequence split on `:`.
pub open spec fn split_colon(s: Seq<char>) -> Seq<Seq<char>>
    decreases s.len(),
{
    match find_colon(s) {
        None => seq![s],
        Some(i) => {
            if i < s.len() {
                seq![s.take(i as int)] + split_colon(s.skip(i as int + 1))
            } else {
                seq![s]
            }
        },
    }
}

/// A sequence with no colon splits into itself alone.
pub proof fn lemma_split_single(s: Seq<char>)
    requires
        !seq_contains_char(s, ':'),
    ensures
        split_colon(s) == seq![s],
{
    lemma_find_colon(s);
    if find_colon(s) is Some {
        let i = find_colon(s)->Some_0;
        assert(seq_contains_char(s, ':')) by {
            assert(s[i as int] == ':');
        }
    }
}

/// Splitting a colon-free segment, a colon, and a remainder yields the
/// segment followed by the remainder's split.
pub proof fn lemma_split_cons(pre: Seq<char>, rest: Seq<char>)
    requires
        !seq_contains_char(pre, ':'),
    ensures
        split_colon(pre + seq![':'] + rest) == seq![pre] + split_colon(rest),
{
    let s = pre + seq![':'] + rest;
    assert(s.len() == pre.len() + 1 + rest.len());
    assert(s[pre.len() as int] == ':');
    assert forall|j: int| 0 <= j < pre.len() implies s[j] != ':' by {
        assert(s[j] == pre[j]);
    }
    lemma_find_colon_at(s, pre.len() as int);
    assert(s.take(pre.len() as int) =~= pre);
    assert(s.skip(pre.len() as int + 1) =~= rest);
    assert(split_colon(s) == seq![pre] + split_colon(rest));
}

/// Model of a capability token: its payloads as character sequences.
pub enum CapModel {
    /// Read one state key.
    StateRead(Seq<char>),
    /// Write one state key.
    StateWrite(Seq<char>),
    /// Read any state key.
    StateReadAll,
    /// Write any state key.
    StateWriteAll,
    /// Emit one event.
    EventsEmit(Seq<char>),
    /// Emit any event.
    EventsEmitAll,
    /// Update one view component.
    ViewUpdate(Seq<char>),
    /// Update any view component.
    ViewUpdateAll,
    /// Call one extension.
    Extension(Seq<char>),
    /// Call any extension.
    ExtensionAll,
}

/// Capability families, the first level of the grant grammar.
#[derive(Debug, Clone, Copy, PartialEq, Eq, Structural)]
pub enum CapabilityType {
    /// Read state.
    StateRead,
    /// Write state.
    StateWrite,
    /// Emit events.
    EventsEmit,
    /// Update view.
    ViewUpdate,
    /// Access extension.
    Extension,
}

impl CapModel {
    /// The family a token belongs to.
    pub open spec fn family(self) -> CapabilityType {
        match self {
            CapModel::StateRead(_) | CapModel::StateReadAll => CapabilityType::StateRead,
            CapModel::StateWrite(_) | CapModel::StateWriteAll => CapabilityType::StateWrite,
            CapModel::EventsEmit(_) | CapModel::EventsEmitAll => CapabilityType::EventsEmit,
            CapModel::ViewUpdate(_) | CapModel::ViewUpdateAll => CapabilityType::ViewUpdate,
            CapModel::Extension(_) | CapModel::ExtensionAll => CapabilityType::Extension,
        }
    }

    /// Whether the token is its family's wildcard.
    pub open spec fn is_wildcard(self) -> bool {
        match self {
            CapModel::StateReadAll | CapModel::StateWriteAll | CapModel::EventsEmitAll
                | CapModel::ViewUpdateAll | CapModel::ExtensionAll => true,
            _ => false,
        }
    }

    /// The token's scope payload; empty for wildcards.
    pub open spec fn scope(self) -> Seq<char> {
        match self {
            CapModel::StateRead(k) => k,
            CapModel::StateWrite(k) => k,
            CapModel::EventsEmit(n) => n,
            CapModel::ViewUpdate(i) => i,
            CapModel::Extension(n) => n,
            _ => Seq::empty(),
        }
    }
}

/// Family and scope of a well-formed required capability string.
pub open spec fn spec_required_parts(req: Seq<char>) -> Option<(CapabilityType, Seq<char>)> {
    let p = split_colon(req);
    if p.len() == 3 && p[0] == "state"@ && p[1] == "read"@ {
        Some((CapabilityType::StateRead, p[2]))
    } else if p.len() == 3 && p[0] == "state"@ && p[1] == "write"@ {
        Some((CapabilityType::StateWrite, p[2]))
    } else if p.len() == 3 && p[0] == "events"@ && p[1] == "emit"@ {
        Some((CapabilityType::EventsEmit, p[2]))
    } else if p.len() == 3 && p[0] == "view"@ && p[1] == "update"@ {
        Some((CapabilityType::ViewUpdate, p[2]))
    } else if p.len() == 2 && p[0] == "ext"@ {
        Some((CapabilityType::Extension, p[1]))
    } else {
        None
    }
}

/// Whether a granted token matches a required capability string: the
/// families are equal, and the token is the wildcard or has the
/// required scope.
pub open spec fn spec_matches(t: CapModel, req: Seq<char>) -> bool {
    match spec_required_parts(req) {
        Some((fam, scope)) => t.family() == fam && (t.is_wildcard() || t.scope() == scope),
        None => false,
    }
}

/// Parse of a grant string into a token model, if it fits the grammar.
pub open spec fn spec_parse(s: Seq<char>) -> Option<CapModel> {
    let p = split_colon(s);
    if p.len() == 3 && p[0] == "state"@ && p[1] == "read"@ {
        if p[2] == "*"@ {
            Some(CapModel::StateReadAll)
        } else {
            Some(CapModel::StateRead(p[2]))
        }
    } else if p.len() == 3 && p[0] == "state"@ && p[1] == "write"@ {
        if p[2] == "*"@ {
            Some(CapModel::StateWriteAll)
        } else {
            Some(CapModel::StateWrite(p[2]))
        }
    } else if p.len() == 3 && p[0] == "events"@ && p[1] == "emit"@ {
        if p[2] == "*"@ {
            Some(CapModel::EventsEmitAll)
        } else {
            Some(CapModel::EventsEmit(p[2]))
        }
    } else if p.len() == 3 && p[0] == "view"@ && p[1] == "update"@ {
        if p[2] == "*"@ {
            Some(CapModel::ViewUpdateAll)
        } else {
            Some(CapModel::ViewUpdate(p[2]))
        }
    } else if p.len() == 2 && p[0] == "ext"@ {
        if p[1] == "*"@ {
            Some(CapModel::ExtensionAll)
        } else {
            Some(CapModel::Extension(p[1]))
        }
    } else {
        None
    }
}

/// Canonical string of a token model.
pub open spec fn spec_repr(t: CapModel) -> Seq<char> {
    match t {
        CapModel::StateRead(k) => "state:read:"@ + k,
        CapModel::StateWrite(k) => "state:write:"@ + k,
        CapModel::StateReadAll => "state:read:*"@,
        CapModel::StateWriteAll => "state:write:*"@,
        CapModel::EventsEmit(n) => "events:emit:"@ + n,
        CapModel::EventsEmitAll => "events:emit:*"@,
        CapModel::ViewUpdate(i) => "view:update:"@ + i,
        CapModel::ViewUpdateAll => "view:update:*"@,
        CapModel::Extension(n) => "ext:"@ + n,
        CapModel::ExtensionAll => "ext:*"@,
    }
}

/// A parsed capability grant.
#[derive(Debug, PartialEq, Eq, Hash)]
pub enum CapabilityToken {
    /// Read a specific state key: `state:read:{key}`.
    StateRead(String),
    /// Write a specific state key: `state:write:{key}`.
    StateWrite(String),
    /// Read all state: `state:read:*`.
    StateReadAll,
    /// Write all state: `state:write:*`.
    StateWriteAll,
    /// Emit a specific event: `events:emit:{name}`.
    EventsEmit(String),
    /// Emit all events: `events:emit:*`.
    EventsEmitAll,
    /// Update a specific component: `view:update:{id}`.
    ViewUpdate(String),
    /// Update all components: `view:update:*`.
    ViewUpdateAll,
    /// Access a specific extension: `ext:{name}`.
    Extension(String),
    /// Access all extensions: `ext:*`.
    ExtensionAll,
}

impl CapabilityToken {
    /// Model of this token.
    pub open spec fn model(self) -> CapModel {
        match self {
            CapabilityToken::StateRead(k) => CapModel::StateRead(k@),
            CapabilityToken::StateWrite(k) => CapModel::StateWrite(k@),
            CapabilityToken::StateReadAll => CapModel::StateReadAll,
            CapabilityToken::StateWriteAll => CapModel::StateWriteAll,
            CapabilityToken::EventsEmit(n) => CapModel::EventsEmit(n@),
            CapabilityToken::EventsEmitAll => CapModel::EventsEmitAll,
            CapabilityToken::ViewUpdate(i) => CapModel::ViewUpdate(i@),
            CapabilityToken::ViewUpdateAll => CapModel::ViewUpdateAll,
            CapabilityToken::Extension(n) => CapModel::Extension(n@),
            CapabilityToken::ExtensionAll => CapModel::ExtensionAll,
        }
    }
}

impl Clone for CapabilityToken {
    /// Copy with the same model.
    fn clone(&self) -> (r: Self)
        ensures
            r.model() == self.model(),
    {
        match self {
            CapabilityToken::StateRead(k) => CapabilityToken::StateRead(k.clone()),
            CapabilityToken::StateWrite(k) => CapabilityToken::StateWrite(k.clone()),
            CapabilityToken::StateReadAll => CapabilityToken::StateReadAll,
            CapabilityToken::StateWriteAll => CapabilityToken::StateWriteAll,
            CapabilityToken::EventsEmit(n) => CapabilityToken::EventsEmit(n.clone()),
            CapabilityToken::EventsEmitAll => CapabilityToken::EventsEmitAll,
            CapabilityToken::ViewUpdate(i) => CapabilityToken::ViewUpdate(i.clone()),
            CapabilityToken::ViewUpdateAll => CapabilityToken::ViewUpdateAll,
            CapabilityToken::Extension(n) => CapabilityToken::Extension(n.clone()),
            CapabilityToken::ExtensionAll => CapabilityToken::ExtensionAll,
        }
    }
}

/// Views of a vector of strings.
pub open spec fn string_views(v: Seq<String>) -> Seq<Seq<char>> {
    v.map_values(|s: String| s@)
}

/// Index of the first colon of a string, if any.
fn find_colon_str(s: &str) -> (r: Option<usize>)
    ensures
        match r {
            Some(i) => find_colon(s@) == Some(i as nat),
            None => find_colon(s@) is None,
        },
{
    let len = s.unicode_len();
    let mut i: usize = 0;
    while i < len
        invariant
            i <= len,
            len == s@.len(),
            forall|j: int| 0 <= j < i ==> s@[j] != ':',
        decreases len - i,
    {
        if s.get_char(i) == ':' {
            proof {
                lemma_find_colon_at(s@, i as int);
            }
            return Some(i);
        }
        i += 1;
    }
    proof {
        lemma_find_colon(s@);
        if find_colon(s@) is Some {
            let k = find_colon(s@)->Some_0;
            assert(s@[k as int] == ':');
        }
    }
    None
}

/// Splits a string on colons; every string splits into at least one
/// (possibly empty) segment.
pub fn split_colon_str(s: &str) -> (r: Vec<String>)
    ensures
        string_views(r@) == split_colon(s@),
    decreases s@.len(),
{
    let len = s.unicode_len();
    match find_colon_str(s) {
        None => {
            let mut r: Vec<String> = Vec::new();
            r.push(s.to_owned());
            proof {
                assert(string_views(r@) =~= seq![s@]);
            }
            r
        },
        Some(c) => {
            proof {
                lemma_find_colon(s@);
            }
            let pre = s.substring_char(0, c);
            let rest = s.substring_char(c + 1, len);
            let mut r = split_colon_str(rest);
            r.insert(0, pre.to_owned());
            proof {
                assert(pre@ =~= s@.take(c as int));
                assert(rest@ =~= s@.skip(c + 1));
                assert(string_views(r@) =~= seq![s@.take(c as int)] + split_colon(
                    s@.skip(c + 1),
                ));
            }
            r
        },
    }
}

impl CapabilityToken {
    /// Parses a capability token from its string form; grant strings
    /// outside the grammar yield `None`.
    pub fn parse(s: &str) -> (r: Option<CapabilityToken>)
        ensures
            match r {
                Some(t) => spec_parse(s@) == Some(t.model()),
                None => spec_parse(s@) is None,
            },
    {
        let parts = split_colon_str(s);
        let n = parts.len();
        if n == 3 {
            let star = str_eq(parts[2].as_str(), "*");
            if str_eq(parts[0].as_str(), "state") && str_eq(parts[1].as_str(), "read") {
                if star {
                    Some(CapabilityToken::StateReadAll)
                } else {
                    Some(CapabilityToken::StateRead(parts[2].clone()))
                }
            } else if str_eq(parts[0].as_str(), "state") && str_eq(parts[1].as_str(), "write") {
                if star {
                    Some(CapabilityToken::StateWriteAll)
                } else {
                    Some(CapabilityToken::StateWrite(parts[2].clone()))
                }
            } else if str_eq(parts[0].as_str(), "events") && str_eq(parts[1].as_str(), "emit") {
                if star {
                    Some(CapabilityToken::EventsEmitAll)
                } else {
                    Some(CapabilityToken::EventsEmit(parts[2].clone()))
                }
            } else if str_eq(parts[0].as_str(), "view") && str_eq(parts[1].as_str(), "update") {
                if star {
                    Some(CapabilityToken::ViewUpdateAll)
                } else {
                    Some(CapabilityToken::ViewUpdate(parts[2].clone()))
                }
            } else {
                None
            }
        } else if n == 2 {
            if str_eq(parts[0].as_str(), "ext") {
                if str_eq(parts[1].as_str(), "*") {
                    Some(CapabilityToken::ExtensionAll)
                } else {
                    Some(CapabilityToken::Extension(parts[1].clone()))
                }
            } else {
                None
            }
        } else {
            None
        }
    }

    /// Whether this granted token matches a required capability string.
    pub fn matches(&self, required: &str) -> (r: bool)
        ensures
            r == spec_matches(self.model(), required@),
    {
        let parts = split_colon_str(required);
        let n = parts.len();
        if n == 3 {
            if str_eq(parts[0].as_str(), "state") && str_eq(parts[1].as_str(), "read") {
                match self {
                    CapabilityToken::StateReadAll => true,
                    CapabilityToken::StateRead(k) => str_eq(k.as_str(), parts[2].as_str()),
                    _ => false,
                }
            } else if str_eq(parts[0].as_str(), "state") && str_eq(parts[1].as_str(), "write") {
                match self {
                    CapabilityToken::StateWriteAll => true,
                    CapabilityToken::StateWrite(k) => str_eq(k.as_str(), parts[2].as_str()),
                    _ => false,
                }
            } else if str_eq(parts[0].as_str(), "events") && str_eq(parts[1].as_str(), "emit") {
                match self {
                    CapabilityToken::EventsEmitAll => true,
                    CapabilityToken::EventsEmit(nm) => str_eq(nm.as_str(), parts[2].as_str()),
                    _ => false,
                }
            } else if str_eq(parts[0].as_str(), "view") && str_eq(parts[1].as_str(), "update") {
                match self {
                    CapabilityToken::ViewUpdateAll => true,
                    CapabilityToken::ViewUpdate(id) => str_eq(id.as_str(), parts[2].as_str()),
                    _ => false,
                }
            } else {
                false
            }
        } else if n == 2 {
            if str_eq(parts[0].as_str(), "ext") {
                match self {
                    CapabilityToken::ExtensionAll => true,
                    CapabilityToken::Extension(nm) => str_eq(nm.as_str(), parts[1].as_str()),
                    _ => false,
                }
            } else {
                false
            }
        } else {
            false
        }
    }

    /// Canonical string form of this token.
    pub fn to_string_repr(&self) -> (r: String)
        ensures
            r@ == spec_repr(self.model()),
    {
        match self {
            CapabilityToken::StateRead(k) => {
                let mut s = "state:read:".to_owned();
                s.append(k.as_str());
                s
            },
            CapabilityToken::StateWrite(k) => {
                let mut s = "state:write:".to_owned();
                s.append(k.as_str());
                s
            },
            CapabilityToken::StateReadAll => "state:read:*".to_owned(),
            CapabilityToken::StateWriteAll => "state:write:*".to_owned(),
            CapabilityToken::EventsEmit(n) => {
                let mut s = "events:emit:".to_owned();
                s.append(n.as_str());
                s
            },
            CapabilityToken::EventsEmitAll => "events:emit:*".to_owned(),
            CapabilityToken::ViewUpdate(i) => {
                let mut s = "view:update:".to_owned();
                s.append(i.as_str());
                s
            },
            CapabilityToken::ViewUpdateAll => "view:update:*".to_owned(),
            CapabilityToken::Extension(n) => {
                let mut s = "ext:".to_owned();
                s.append(n.as_str());
                s
            },
            CapabilityToken::ExtensionAll => "ext:*".to_owned(),
        }
    }
}

/// A granted token never matches a required string of another family,
/// nor a required string outside the grammar.
pub proof fn lemma_family_mismatch_never_matches(t: CapModel, req: Seq<char>)
    requires
        match spec_required_parts(req) {
            Some((fam, _)) => t.family() != fam,
            None => true,
        },
    ensures
        !spec_matches(t, req),
{
}

/// A family's wildcard matches every required string of that family.
pub proof fn lemma_wildcard_matches_family(t: CapModel, req: Seq<char>)
    requires
        t.is_wildcard(),
        match spec_required_parts(req) {
            Some((fam, _)) => t.family() == fam,
            None => false,
        },
    ensures
        spec_matches(t, req),
{
}

/// Round trip: parsing a token's canonical string yields the token
/// back, for every token whose scope holds no colon and is not the
/// wildcard scope `*`.
pub proof fn lemma_parse_repr_roundtrip(t: CapModel)
    requires
        !t.is_wildcard() ==> !seq_contains_char(t.scope(), ':') && t.scope() != "*"@,
    ensures
        spec_parse(spec_repr(t)) == Some(t),
{
    reveal_strlit("state:read:");
    reveal_strlit("state:write:");
    reveal_strlit("state:read:*");
    reveal_strlit("state:write:*");
    reveal_strlit("events:emit:");
    reveal_strlit("events:emit:*");
    reveal_strlit("view:update:");
    reveal_strlit("view:update:*");
    reveal_strlit("ext:");
    reveal_strlit("ext:*");
    reveal_strlit("state");
    reveal_strlit("read");
    reveal_strlit("write");
    reveal_strlit("events");
    reveal_strlit("emit");
    reveal_strlit("view");
    reveal_strlit("update");
    reveal_strlit("ext");
    reveal_strlit("*");
    assert(!seq_contains_char("state"@, ':'));
    assert(!seq_contains_char("read"@, ':'));
    assert(!seq_contains_char("write"@, ':'));
    assert(!seq_contains_char("events"@, ':'));
    assert(!seq_contains_char("emit"@, ':'));
    assert(!seq_contains_char("view"@, ':'));
    assert(!seq_contains_char("update"@, ':'));
    assert(!seq_contains_char("ext"@, ':'));
    assert(!seq_contains_char("*"@, ':'));
    match t {
        CapModel::StateRead(k) => {
            assert(spec_repr(t) =~= "state"@ + seq![':'] + ("read"@ + seq![':'] + k));
            lemma_repr_three(t, "state"@, "read"@, k);
        },
        CapModel::StateWrite(k) => {
            assert(spec_repr(t) =~= "state"@ + seq![':'] + ("write"@ + seq![':'] + k));
            lemma_repr_three(t, "state"@, "write"@, k);
        },
        CapModel::EventsEmit(n) => {
            assert(spec_repr(t) =~= "events"@ + seq![':'] + ("emit"@ + seq![':'] + n));
            lemma_repr_three(t, "events"@, "emit"@, n);
        },
        CapModel::ViewUpdate(i) => {
            assert(spec_repr(t) =~= "view"@ + seq![':'] + ("update"@ + seq![':'] + i));
            lemma_repr_three(t, "view"@, "update"@, i);
        },
        CapModel::Extension(n) => {
            assert(spec_repr(t) =~= "ext"@ + seq![':'] + n);
            lemma_split_cons("ext"@, n);
            lemma_split_single(n);
            assert(split_colon(spec_repr(t)) =~= seq!["ext"@, n]);
        },
        CapModel::StateReadAll => {
            assert(spec_repr(t) =~= "state"@ + seq![':'] + ("read"@ + seq![':'] + "*"@));
            lemma_repr_three(t, "state"@, "read"@, "*"@);
        },
        CapModel::StateWriteAll => {
            assert(spec_repr(t) =~= "state"@ + seq![':'] + ("write"@ + seq![':'] + "*"@));
            lemma_repr_three(t, "state"@, "write"@, "*"@);
        },
        CapModel::EventsEmitAll => {
            assert(spec_repr(t) =~= "events"@ + seq![':'] + ("emit"@ + seq![':'] + "*"@));
            lemma_repr_three(t, "events"@, "emit"@, "*"@);
        },
        CapModel::ViewUpdateAll => {
            assert(spec_repr(t) =~= "view"@ + seq![':'] + ("update"@ + seq![':'] + "*"@));
            lemma_repr_three(t, "view"@, "update"@, "*"@);
        },
        CapModel::ExtensionAll => {
            assert(spec_repr(t) =~= "ext"@ + seq![':'] + "*"@);
            lemma_split_cons("ext"@, "*"@);
            lemma_split_single("*"@);
            assert(split_colon(spec_repr(t)) =~= seq!["ext"@, "*"@]);
        },
    }
}

/// Splits the canonical three-part representation `fam:act:scope`.
proof fn lemma_repr_three(t: CapModel, fam: Seq<char>, act: Seq<char>, scope: Seq<char>)
    requires
        spec_repr(t) == fam + seq![':'] + (act + seq![':'] + scope),
        !seq_contains_char(fam, ':'),
        !seq_contains_char(act, ':'),
        !seq_contains_char(scope, ':'),
    ensures
        split_colon(spec_repr(t)) == seq![fam, act, scope],
{
    lemma_split_cons(fam, act + seq![':'] + scope);
    lemma_split_cons(act, scope);
    lemma_split_single(scope);
    assert(split_colon(spec_repr(t)) =~= seq![fam, act, scope]);
}

/// A capability as declared by the host: a family and a scope.
#[derive(Debug)]
pub struct Capability {
    /// Capability family.
    pub cap_type: CapabilityType,
    /// Scope: a specific key, event, component or extension, or `*`.
    pub scope: String,
}

impl Clone for Capability {
    /// Copy with the same family and scope.
    fn clone(&self) -> (r: Self)
        ensures
            r.cap_type == self.cap_type,
            r.scope@ == self.scope@,
    {
        Capability { cap_type: self.cap_type, scope: self.scope.clone() }
    }
}

/// The token a declared capability denotes: the family wildcard when
/// the scope is `*`, the scoped token otherwise.
pub open spec fn spec_to_token(cap_type: CapabilityType, scope: Seq<char>) -> CapModel {
    if scope == "*"@ {
        match cap_type {
            CapabilityType::StateRead => CapModel::StateReadAll,
            CapabilityType::StateWrite => CapModel::StateWriteAll,
            CapabilityType::EventsEmit => CapModel::EventsEmitAll,
            CapabilityType::ViewUpdate => CapModel::ViewUpdateAll,
            CapabilityType::Extension => CapModel::ExtensionAll,
        }
    } else {
        match cap_type {
            CapabilityType::StateRead => CapModel::StateRead(scope),
            CapabilityType::StateWrite => CapModel::StateWrite(scope),
            CapabilityType::EventsEmit => CapModel::EventsEmit(scope),
            CapabilityType::ViewUpdate => CapModel::ViewUpdate(scope),
            CapabilityType::Extension => CapModel::Extension(scope),
        }
    }
}

impl Capability {
    /// Creates a capability from a family and a scope.
    pub fn new(cap_type: CapabilityType, scope: String) -> (r: Capability)
        ensures
            r.cap_type == cap_type,
            r.scope == scope,
    {
        Capability { cap_type, scope }
    }

    /// Converts this capability to its token.
    pub fn to_token(&self) -> (r: CapabilityToken)
        ensures
            r.model() == spec_to_token(self.cap_type, self.scope@),
    {
        let star = str_eq(self.scope.as_str(), "*");
        match self.cap_type {
            CapabilityType::StateRead => {
                if star {
                    CapabilityToken::StateReadAll
                } else {
                    CapabilityToken::StateRead(self.scope.clone())
                }
            },
            CapabilityType::StateWrite => {
                if star {
                    CapabilityToken::StateWriteAll
                } else {
                    CapabilityToken::StateWrite(self.scope.clone())
                }
            },
            CapabilityType::EventsEmit => {
                if star {
                    CapabilityToken::EventsEmitAll
                } else {
                    CapabilityToken::EventsEmit(self.scope.clone())
                }
            },
            CapabilityType::ViewUpdate => {
                if star {
                    CapabilityToken::ViewUpdateAll
                } else {
                    CapabilityToken::ViewUpdate(self.scope.clone())
                }
            },
            CapabilityType::Extension => {
                if star {
                    CapabilityToken::ExtensionAll
                } else {
                    CapabilityToken::Extension(self.scope.clone())
                }
            },
        }
    }
}

/// Models of a sequence of tokens, element by element.
pub open spec fn caps_model(v: Seq<CapabilityToken>) -> Seq<CapModel> {
    v.map_values(|t: CapabilityToken| t.model())
}

/// Whether some granted token in a set matches a required string.
pub open spec fn spec_check(caps: Seq<CapModel>, req: Seq<char>) -> bool {
    exists|i: int| 0 <= i < caps.len() && spec_matches(caps[i], req)
}

/// Runtime capability checker over a set of granted tokens.
#[derive(Debug)]
pub struct CapabilityChecker {
    /// The granted tokens.
    pub capabilities: Vec<CapabilityToken>,
}

impl CapabilityChecker {
    /// The models of the granted tokens.
    pub open spec fn model(self) -> Seq<CapModel> {
        caps_model(self.capabilities@)
    }

    /// Creates a checker over a set of granted tokens.
    pub fn new(capabilities: Vec<CapabilityToken>) -> (r: CapabilityChecker)
        ensures
            r.model() == caps_model(capabilities@),
    {
        CapabilityChecker { capabilities }
    }

    /// Whether some granted token matches the required string.
    pub fn check(&self, required: &str) -> (r: bool)
        ensures
            r == spec_check(self.model(), required@),
    {
        check_tokens(&self.capabilities, required)
    }

    /// Whether reading the state key is allowed.
    pub fn can_read_state(&self, key: &str) -> (r: bool)
        ensures
            r == spec_check(self.model(), "state:read:"@ + key@),
    {
        let mut required = "state:read:".to_owned();
        required.append(key);
        self.check(required.as_str())
    }

    /// Whether writing the state key is allowed.
    pub fn can_write_state(&self, key: &str) -> (r: bool)
        ensures
            r == spec_check(self.model(), "state:write:"@ + key@),
    {
        let mut required = "state:write:".to_owned();
        required.append(key);
        self.check(required.as_str())
    }

    /// Whether emitting the event is allowed.
    pub fn can_emit_event(&self, event_name: &str) -> (r: bool)
        ensures
            r == spec_check(self.model(), "events:emit:"@ + event_name@),
    {
        let mut required = "events:emit:".to_owned();
        required.append(event_name);
        self.check(required.as_str())
    }

    /// Whether updating the view component is allowed.
    pub fn can_update_view(&self, component_id: &str) -> (r: bool)
        ensures
            r == spec_check(self.model(), "view:update:"@ + component_id@),
    {
        let mut required = "view:update:".to_owned();
        required.append(component_id);
        self.check(required.as_str())
    }

    /// Whether calling the extension is allowed.
    pub fn can_access_extension(&self, ext_name: &str) -> (r: bool)
        ensures
            r == spec_check(self.model(), "ext:"@ + ext_name@),
    {
        let mut required = "ext:".to_owned();
        required.append(ext_name);
        self.check(required.as_str())
    }
}

/// Whether some token of a vector matches the required string.
pub fn check_tokens(tokens: &Vec<CapabilityToken>, required: &str) -> (r: bool)
    ensures
        r == spec_check(caps_model(tokens@), required@),
{
    let n = tokens.len();
    let mut i: usize = 0;
    while i < n
        invariant
            i <= n,
            n == tokens@.len(),
            forall|j: int| 0 <= j < i ==> !spec_matches(caps_model(tokens@)[j], required@),
        decreases n - i,
    {
        if tokens[i].matches(required) {
            assert(spec_matches(caps_model(tokens@)[i as int], required@));
            return true;
        }
        i += 1;
    }
    false
}

} // verus!
