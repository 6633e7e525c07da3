//! The scope that a statement is charged to.

use vstd::arithmetic::div_mod::{lemma_mul_mod_noop, lemma_small_mod};
use vstd::prelude::*;

use vstd::utf8;

use crate::errors;
use crate::errors::{PwbError, PwbErrorView, PwbResult};
use crate::policy;
use crate::policy::normalize_scope_value;
use crate::text;
use crate::types;
use crate::types::{ScopeHash, ScopeKey, ScopeKeyView, ScopeKind};

verus! {

pub const FNV_OFFSET_BASIS: u64 = 0xcbf2_9ce4_8422_2325;

pub const FNV_PRIME: u64 = 0x0000_0100_0000_01b3;

/// What a backend knows of its scope: the trusted tenant, and the hash of the last scope that was
/// classified.
#[derive(Debug, Clone, PartialEq, Eq)]
pub struct BackendScopeState {
    pub tenant: Option<String>,
    pub last_scope_hash: Option<ScopeHash>,
}

impl Default for BackendScopeState {
    fn default() -> (r: BackendScopeState)
        ensures
            r.tenant is None,
            r.last_scope_hash is None,
    {
        BackendScopeState { tenant: None, last_scope_hash: None }
    }
}

/// The names that the server gives for the current session, where it has one.
#[derive(Debug, Clone, PartialEq, Eq)]
pub struct SessionNames {
    pub role: Option<String>,
    pub database: Option<String>,
    pub application: Option<String>,
}

/// The 64-bit FNV-1a hash of bytes, from a starting value.
pub open spec fn fnv1a(hash: u64, bytes: Seq<u8>) -> u64
    decreases bytes.len(),
{
    if bytes.len() == 0 {
        hash
    } else {
        fnv1a_step(fnv1a(hash, bytes.drop_last()), bytes.last())
    }
}

/// One step of the hash: mix in a byte, then multiply.
pub open spec fn fnv1a_step(hash: u64, byte: u8) -> u64 {
    (((hash ^ byte as u64) as nat * FNV_PRIME as nat) % 0x1_0000_0000_0000_0000) as u64
}

/// The byte that stands for a scope kind in a scope hash.
pub open spec fn kind_tag(kind: ScopeKind) -> u8 {
    match kind {
        ScopeKind::Database => 100,
        ScopeKind::Role => 114,
        ScopeKind::Application => 97,
        ScopeKind::Tenant => 116,
        ScopeKind::Composite => 99,
    }
}

/// The hash of a scope: that of its kind's letter, a colon and its value.
pub open spec fn scope_hash(kind: ScopeKind, value: Seq<char>) -> ScopeHash {
    fnv1a(FNV_OFFSET_BASIS, seq![kind_tag(kind), 58u8] + utf8::encode_utf8(value))
}

/// The key of a scope.
pub open spec fn scope_key(kind: ScopeKind, value: Seq<char>) -> ScopeKeyView {
    ScopeKeyView { kind, value_hash: scope_hash(kind, value), debug_value: Some(value) }
}

/// A part of a composite scope: its name, an equals sign and its value; nothing where it is missing.
pub open spec fn component(name: Seq<char>, value: Option<Seq<char>>) -> Seq<Seq<char>> {
    match value {
        Some(value) => seq![name + "="@ + value],
        None => Seq::empty(),
    }
}

/// Parts separated by vertical bars.
pub open spec fn joined(parts: Seq<Seq<char>>) -> Seq<char>
    decreases parts.len(),
{
    if parts.len() == 0 {
        Seq::empty()
    } else if parts.len() == 1 {
        parts[0]
    } else {
        joined(parts.drop_last()) + "|"@ + parts.last()
    }
}

/// The parts that a composite scope is made of.
pub open spec fn components(
    tenant: Option<Seq<char>>,
    role: Option<Seq<char>>,
    database: Option<Seq<char>>,
    application: Option<Seq<char>>,
) -> Seq<Seq<char>> {
    component("tenant"@, tenant) + component("role"@, role) + component("database"@, database)
        + component("application"@, application)
}

/// The scope of a statement. Where composite scopes are in use and at least two parts are there, it is
/// made of all of them; else it is the tenant, the role, the database or the application, whichever is
/// there first.
pub open spec fn classified(
    composite: bool,
    tenant: Option<Seq<char>>,
    role: Option<Seq<char>>,
    database: Option<Seq<char>>,
    application: Option<Seq<char>>,
) -> Result<ScopeKeyView, PwbErrorView> {
    let parts = components(tenant, role, database, application);
    if composite && parts.len() >= 2 {
        Ok(scope_key(ScopeKind::Composite, joined(parts)))
    } else if tenant is Some {
        Ok(scope_key(ScopeKind::Tenant, tenant->0))
    } else if role is Some {
        Ok(scope_key(ScopeKind::Role, role->0))
    } else if database is Some {
        Ok(scope_key(ScopeKind::Database, database->0))
    } else if application is Some {
        Ok(scope_key(ScopeKind::Application, application->0))
    } else {
        Err(PwbErrorView::MissingScope)
    }
}

impl SessionNames {
    /// A name without the white space around it; an empty one is none.
    pub open spec fn usable(name: Option<String>) -> Option<Seq<char>> {
        policy::normalized(types::opt_chars(name))
    }
}

/// The scope of a statement in a session.
pub open spec fn session_scope(
    state: BackendScopeState,
    composite: bool,
    names: SessionNames,
) -> Result<ScopeKeyView, PwbErrorView> {
    classified(
        composite,
        types::opt_chars(state.tenant),
        SessionNames::usable(names.role),
        SessionNames::usable(names.database),
        SessionNames::usable(names.application),
    )
}

/// The state after a session was classified: the hash of its scope is kept, where it has one.
pub open spec fn scope_noted(
    state: BackendScopeState,
    composite: bool,
    names: SessionNames,
) -> BackendScopeState {
    match session_scope(state, composite, names) {
        Ok(key) => BackendScopeState { last_scope_hash: Some(key.value_hash), ..state },
        Err(_) => state,
    }
}

pub fn scope_kind_hash_tag(kind: ScopeKind) -> (r: u8)
    ensures
        r == kind_tag(kind),
{
    match kind {
        ScopeKind::Database => 100,
        ScopeKind::Role => 114,
        ScopeKind::Application => 97,
        ScopeKind::Tenant => 116,
        ScopeKind::Composite => 99,
    }
}

pub fn fnv1a_update(hash: u64, bytes: &[u8]) -> (r: u64)
    ensures
        r == fnv1a(hash, bytes@),
{
    let mut current: u64 = hash;
    let mut i: usize = 0;
    assert(bytes@.take(0) =~= Seq::empty());
    while i < bytes.len()
        invariant
            i <= bytes@.len(),
            current == fnv1a(hash, bytes@.take(i as int)),
        decreases bytes@.len() - i,
    {
        assert(bytes@.take(i + 1).drop_last() =~= bytes@.take(i as int));
        current = current ^ bytes[i] as u64;
        current = current.wrapping_mul(FNV_PRIME);
        i += 1;
    }
    assert(bytes@.take(i as int) =~= bytes@);
    current
}

proof fn lemma_fnv1a_concat(hash: u64, a: Seq<u8>, b: Seq<u8>)
    ensures
        fnv1a(fnv1a(hash, a), b) == fnv1a(hash, a + b),
    decreases b.len(),
{
    if b.len() == 0 {
        assert(a + b =~= a);
    } else {
        lemma_fnv1a_concat(hash, a, b.drop_last());
        assert((a + b).drop_last() =~= a + b.drop_last());
    }
}

pub fn hash_scope_value(kind: ScopeKind, value: &str) -> (r: ScopeHash)
    ensures
        r == scope_hash(kind, value@),
{
    let tag: [u8; 2] = [scope_kind_hash_tag(kind), 58];
    let hash: u64 = fnv1a_update(FNV_OFFSET_BASIS, tag.as_slice());
    proof {
        assert(tag@ =~= seq![kind_tag(kind), 58u8]);
        lemma_fnv1a_concat(
            FNV_OFFSET_BASIS,
            seq![kind_tag(kind), 58u8],
            utf8::encode_utf8(value@),
        );
    }
    fnv1a_update(hash, value.as_bytes())
}

pub fn normalize_tenant_value(tenant: &str) -> (r: PwbResult<String>)
    ensures
        match policy::normalized(Some(tenant@)) {
            Some(value) => r matches Ok(normalized) && normalized@ == value,
            None => errors::fails_with(
                r,
                policy::invalid_value("tenant"@, "<empty>"@, "must not be empty"@),
            ),
        },
{
    match normalize_scope_value(Some(tenant)) {
        Some(normalized) => Ok(normalized),
        None => Err(
            PwbError::InvalidPolicyValue {
                field: "tenant",
                value: "<empty>".to_owned(),
                reason: "must not be empty",
            },
        ),
    }
}

pub fn current_tenant(state: &BackendScopeState) -> (r: Option<String>)
    ensures
        r == state.tenant,
{
    match &state.tenant {
        Some(tenant) => Some(tenant.clone()),
        None => None,
    }
}

pub fn set_tenant_impl(state: &mut BackendScopeState, tenant: &str) -> (r: PwbResult<()>)
    ensures
        match policy::normalized(Some(tenant@)) {
            Some(value) => {
                &&& r is Ok
                &&& types::opt_chars(final(state).tenant) == Some(value)
                &&& final(state).last_scope_hash == Some(scope_hash(ScopeKind::Tenant, value))
            },
            None => {
                &&& errors::fails_with(
                    r,
                    policy::invalid_value("tenant"@, "<empty>"@, "must not be empty"@),
                )
                &&& *final(state) == *old(state)
            },
        },
{
    let tenant = normalize_tenant_value(tenant)?;
    let scope_hash: u64 = hash_scope_value(ScopeKind::Tenant, tenant.as_str());
    state.tenant = Some(tenant);
    state.last_scope_hash = Some(scope_hash);
    Ok(())
}

pub fn clear_tenant_impl(state: &mut BackendScopeState)
    ensures
        final(state).tenant is None,
        final(state).last_scope_hash is None,
{
    state.tenant = None;
    state.last_scope_hash = None;
}

pub fn scope_key_with_debug(state: &mut BackendScopeState, kind: ScopeKind, value: &str) -> (r:
    ScopeKey)
    ensures
        r@ == scope_key(kind, value@),
        final(state).tenant == old(state).tenant,
        final(state).last_scope_hash == Some(r.value_hash),
{
    let scope_hash: u64 = hash_scope_value(kind, value);
    state.last_scope_hash = Some(scope_hash);
    ScopeKey::with_debug_value(kind, scope_hash, value)
}

fn usable_name(name: &Option<String>) -> (r: Option<String>)
    ensures
        types::opt_chars(r) == SessionNames::usable(*name),
{
    match name {
        Some(name) => normalize_scope_value(Some(name.as_str())),
        None => None,
    }
}

/// A composite scope under construction.
struct CompositeScope {
    value: String,
    parts: u8,
}

impl CompositeScope {
    spec fn holds(self, parts: Seq<Seq<char>>) -> bool {
        self.value@ == joined(parts) && self.parts == parts.len()
    }

    fn append(&mut self, name: &str, value: &Option<String>, Ghost(parts): Ghost<Seq<Seq<char>>>)
        requires
            old(self).holds(parts),
            parts.len() < 4,
        ensures
            final(self).holds(parts + component(name@, types::opt_chars(*value))),
    {
        match value {
            Some(value) => {
                let part = text::join3(name, "=", value.as_str());
                let ghost after = parts + component(name@, Some(value@));
                assert(after.drop_last() =~= parts);
                assert(after =~= parts.push(part@));
                if self.parts > 0 {
                    self.value.append("|");
                }
                let ghost before = self.value@;
                self.value.append(part.as_str());
                assert(parts.len() == 0 ==> before + part@ =~= part@);
                self.parts = self.parts + 1;
            },
            None => {
                assert(parts + component(name@, None) =~= parts);
            },
        }
    }
}

fn composite_scope_value(
    tenant: &Option<String>,
    role: &Option<String>,
    database: &Option<String>,
    application: &Option<String>,
) -> (r: Option<String>)
    ensures
        ({
            let parts = components(
                types::opt_chars(*tenant),
                types::opt_chars(*role),
                types::opt_chars(*database),
                types::opt_chars(*application),
            );
            types::opt_chars(r) == if parts.len() >= 2 {
                Some(joined(parts))
            } else {
                None
            }
        }),
{
    let mut scope = CompositeScope { value: String::new(), parts: 0 };
    let ghost none = Seq::<Seq<char>>::empty();
    let ghost one = component("tenant"@, types::opt_chars(*tenant));
    let ghost two = one + component("role"@, types::opt_chars(*role));
    let ghost three = two + component("database"@, types::opt_chars(*database));
    scope.append("tenant", tenant, Ghost(none));
    assert(none + one =~= one);
    scope.append("role", role, Ghost(one));
    scope.append("database", database, Ghost(two));
    scope.append("application", application, Ghost(three));
    if scope.parts >= 2 {
        Some(scope.value)
    } else {
        None
    }
}

pub fn classify_current_scope(
    state: &mut BackendScopeState,
    composite_scope_enabled: bool,
    names: &SessionNames,
) -> (r: PwbResult<ScopeKey>)
    ensures
        *final(state) == scope_noted(*old(state), composite_scope_enabled, *names),
        match session_scope(*old(state), composite_scope_enabled, *names) {
            Ok(key) => r matches Ok(scope) && scope@ == key,
            Err(error) => errors::fails_with(r, error),
        },
{
    let tenant = current_tenant(state);
    let role = usable_name(&names.role);
    let database = usable_name(&names.database);
    let application = usable_name(&names.application);
    if composite_scope_enabled {
        if let Some(value) = composite_scope_value(&tenant, &role, &database, &application) {
            return Ok(scope_key_with_debug(state, ScopeKind::Composite, value.as_str()));
        }
    }
    if let Some(tenant) = tenant {
        return Ok(scope_key_with_debug(state, ScopeKind::Tenant, tenant.as_str()));
    }
    if let Some(role) = role {
        return Ok(scope_key_with_debug(state, ScopeKind::Role, role.as_str()));
    }
    if let Some(database) = database {
        return Ok(scope_key_with_debug(state, ScopeKind::Database, database.as_str()));
    }
    if let Some(application) = application {
        return Ok(scope_key_with_debug(state, ScopeKind::Application, application.as_str()));
    }
    Err(PwbError::MissingScope)
}

/// The number that undoes a multiplication by the prime.
spec fn fnv_prime_inverse() -> int {
    0xce96_5057_aff6_957b
}

proof fn lemma_fnv1a_step_injective(a: u64, b: u64, byte: u8)
    requires
        fnv1a_step(a, byte) == fnv1a_step(b, byte),
    ensures
        a == b,
{
    let m = 0x1_0000_0000_0000_0000int;
    let x = (a ^ byte as u64) as int;
    let y = (b ^ byte as u64) as int;
    let p = FNV_PRIME as int;
    let q = fnv_prime_inverse();
    assert((p * q) % m == 1) by (nonlinear_arith)
        requires
            p == 0x0000_0100_0000_01b3,
            q == 0xce96_5057_aff6_957b,
            m == 0x1_0000_0000_0000_0000,
    ;
    lemma_undo(x, p, q, m);
    lemma_undo(y, p, q, m);
    let byte = byte as u64;
    assert(a ^ byte == b ^ byte ==> a == b) by (bit_vector);
}

proof fn lemma_undo(x: int, p: int, q: int, m: int)
    requires
        0 <= x < m,
        (p * q) % m == 1,
    ensures
        (((x * p) % m) * q) % m == x,
{
    lemma_mul_mod_noop(x * p, q, m);
    vstd::arithmetic::div_mod::lemma_mul_mod_noop_left(x * p, q, m);
    assert((x * p) * q == x * (p * q)) by (nonlinear_arith);
    vstd::arithmetic::div_mod::lemma_mul_mod_noop_right(x, p * q, m);
    assert(x * 1 == x);
    lemma_small_mod(x as nat, m as nat);
}

proof fn lemma_fnv1a_injective_in_start(a: u64, b: u64, bytes: Seq<u8>)
    requires
        fnv1a(a, bytes) == fnv1a(b, bytes),
    ensures
        a == b,
    decreases bytes.len(),
{
    if bytes.len() > 0 {
        lemma_fnv1a_step_injective(
            fnv1a(a, bytes.drop_last()),
            fnv1a(b, bytes.drop_last()),
            bytes.last(),
        );
        lemma_fnv1a_injective_in_start(a, b, bytes.drop_last());
    }
}

/// Scopes of different kinds with the same value never share a hash.
pub proof fn law_scope_hash_tells_kinds_apart(a: ScopeKind, b: ScopeKind, value: Seq<char>)
    requires
        scope_hash(a, value) == scope_hash(b, value),
    ensures
        a == b,
{
    let bytes = utf8::encode_utf8(value);
    let ta = seq![kind_tag(a), 58u8];
    let tb = seq![kind_tag(b), 58u8];
    lemma_fnv1a_concat(FNV_OFFSET_BASIS, ta, bytes);
    lemma_fnv1a_concat(FNV_OFFSET_BASIS, tb, bytes);
    lemma_fnv1a_injective_in_start(
        fnv1a(FNV_OFFSET_BASIS, ta),
        fnv1a(FNV_OFFSET_BASIS, tb),
        bytes,
    );
    reveal_with_fuel(fnv1a, 3);
    assert(ta.drop_last() =~= seq![kind_tag(a)]);
    assert(tb.drop_last() =~= seq![kind_tag(b)]);
    assert(seq![kind_tag(a)].drop_last() =~= Seq::empty());
    assert(seq![kind_tag(b)].drop_last() =~= Seq::empty());
    let sa = fnv1a_step(FNV_OFFSET_BASIS, kind_tag(a));
    let sb = fnv1a_step(FNV_OFFSET_BASIS, kind_tag(b));
    lemma_fnv1a_step_injective(sa, sb, 58);
    let x = (FNV_OFFSET_BASIS ^ kind_tag(a) as u64) as int;
    let y = (FNV_OFFSET_BASIS ^ kind_tag(b) as u64) as int;
    let m = 0x1_0000_0000_0000_0000int;
    let p = FNV_PRIME as int;
    let q = fnv_prime_inverse();
    assert((p * q) % m == 1) by (nonlinear_arith)
        requires
            p == 0x0000_0100_0000_01b3,
            q == 0xce96_5057_aff6_957b,
            m == 0x1_0000_0000_0000_0000,
    ;
    lemma_undo(x, p, q, m);
    lemma_undo(y, p, q, m);
    let basis = FNV_OFFSET_BASIS;
    let ka = kind_tag(a) as u64;
    let kb = kind_tag(b) as u64;
    assert(basis ^ ka == basis ^ kb ==> ka == kb) by (bit_vector);
}

/// The tenant comes before every other name, then the role, the database and the application, unless
/// composite scopes are in use and at least two names are there.
pub proof fn law_scope_precedence(
    composite: bool,
    tenant: Option<Seq<char>>,
    role: Option<Seq<char>>,
    database: Option<Seq<char>>,
    application: Option<Seq<char>>,
)
    requires
        composite ==> components(tenant, role, database, application).len() < 2,
    ensures
        classified(composite, tenant, role, database, application) == if tenant is Some {
            Ok::<ScopeKeyView, PwbErrorView>(scope_key(ScopeKind::Tenant, tenant->0))
        } else if role is Some {
            Ok(scope_key(ScopeKind::Role, role->0))
        } else if database is Some {
            Ok(scope_key(ScopeKind::Database, database->0))
        } else if application is Some {
            Ok(scope_key(ScopeKind::Application, application->0))
        } else {
            Err(PwbErrorView::MissingScope)
        },
{
}

/// A scope is hashed byte by byte: from the known offset, every byte is mixed in and the sum multiplied by
/// the known prime, modulo two to the 64. The bytes are the letter of its kind, a colon and its value.
pub proof fn law_scope_hash_mixes_every_byte(hash: u64, bytes: Seq<u8>, byte: u8, value: Seq<char>)
    ensures
        fnv1a(hash, Seq::empty()) == hash,
        fnv1a(hash, bytes.push(byte)) == ((fnv1a(hash, bytes) ^ byte as u64) * 0x0000_0100_0000_01b3)
            % 0x1_0000_0000_0000_0000,
        scope_hash(ScopeKind::Database, value) == fnv1a(
            0xcbf2_9ce4_8422_2325,
            seq!['d' as u8, ':' as u8] + utf8::encode_utf8(value),
        ),
        scope_hash(ScopeKind::Role, value) == fnv1a(
            0xcbf2_9ce4_8422_2325,
            seq!['r' as u8, ':' as u8] + utf8::encode_utf8(value),
        ),
        scope_hash(ScopeKind::Application, value) == fnv1a(
            0xcbf2_9ce4_8422_2325,
            seq!['a' as u8, ':' as u8] + utf8::encode_utf8(value),
        ),
        scope_hash(ScopeKind::Tenant, value) == fnv1a(
            0xcbf2_9ce4_8422_2325,
            seq!['t' as u8, ':' as u8] + utf8::encode_utf8(value),
        ),
        scope_hash(ScopeKind::Composite, value) == fnv1a(
            0xcbf2_9ce4_8422_2325,
            seq!['c' as u8, ':' as u8] + utf8::encode_utf8(value),
        ),
{
    assert(bytes.push(byte).drop_last() =~= bytes);
}

/// A session is charged to its tenant where it has one, else to its role, its database or its application,
/// by their values without the white space around them; a blank name counts as none, and without any name
/// there is no scope. The key bears the kind, the value and their hash.
pub proof fn law_session_is_charged_to_its_first_name(
    state: BackendScopeState,
    names: SessionNames,
)
    ensures
        ({
            let result = session_scope(state, false, names);
            let role = names.role is Some && text::trimmed(names.role->0@).len() > 0;
            let database = names.database is Some && text::trimmed(names.database->0@).len() > 0;
            let application = names.application is Some && text::trimmed(
                names.application->0@,
            ).len() > 0;
            let (kind, value) = if state.tenant is Some {
                (ScopeKind::Tenant, state.tenant->0@)
            } else if role {
                (ScopeKind::Role, text::trimmed(names.role->0@))
            } else if database {
                (ScopeKind::Database, text::trimmed(names.database->0@))
            } else {
                (ScopeKind::Application, text::trimmed(names.application->0@))
            };
            if state.tenant is Some || role || database || application {
                result matches Ok(key) && key.kind == kind && key.debug_value == Some(value)
                    && key.value_hash == scope_hash(kind, value)
            } else {
                result == Err::<ScopeKeyView, PwbErrorView>(PwbErrorView::MissingScope)
            }
        }),
        match session_scope(state, false, names) {
            Ok(key) => scope_noted(state, false, names).last_scope_hash == Some(key.value_hash),
            Err(_) => scope_noted(state, false, names) == state,
        },
        scope_noted(state, false, names).tenant == state.tenant,
{
}

proof fn lemma_joined(a: Seq<char>, b: Seq<char>, c: Seq<char>, d: Seq<char>)
    ensures
        joined(seq![a]) == a,
        joined(seq![a, b]) == a + "|"@ + b,
        joined(seq![a, b, c]) == a + "|"@ + b + "|"@ + c,
        joined(seq![a, b, c, d]) == a + "|"@ + b + "|"@ + c + "|"@ + d,
{
    assert(joined(seq![a]) == a);
    assert(seq![a, b].drop_last() =~= seq![a]);
    assert(joined(seq![a, b]) == joined(seq![a]) + "|"@ + b);
    assert(seq![a, b, c].drop_last() =~= seq![a, b]);
    assert(joined(seq![a, b, c]) == joined(seq![a, b]) + "|"@ + c);
    assert(seq![a, b, c, d].drop_last() =~= seq![a, b, c]);
    assert(joined(seq![a, b, c, d]) == joined(seq![a, b, c]) + "|"@ + d);
}

/// Where composite scopes are in use, a session with at least two names is charged to all of them together.
/// With fewer names nothing differs.
pub proof fn law_composite_scope_needs_two_names(
    tenant: Option<Seq<char>>,
    role: Option<Seq<char>>,
    database: Option<Seq<char>>,
    application: Option<Seq<char>>,
)
    ensures
        ({
            let count = (if tenant is Some {
                1int
            } else {
                0
            }) + (if role is Some {
                1int
            } else {
                0
            }) + (if database is Some {
                1int
            } else {
                0
            }) + (if application is Some {
                1int
            } else {
                0
            });
            let result = classified(true, tenant, role, database, application);
            &&& count < 2 ==> result == classified(false, tenant, role, database, application)
            &&& count >= 2 ==> (result matches Ok(key) && key.kind == ScopeKind::Composite
                && key.debug_value is Some && key.value_hash == scope_hash(
                ScopeKind::Composite,
                key.debug_value->0,
            ))
        }),
{
}

/// A composite scope is made of its names, each with its kind and an equals sign in front, in the order
/// tenant, role, database, application, and with bars between them. A name that is missing leaves nothing
/// behind.
pub proof fn law_composite_scope_joins_names_in_order(
    tenant: Seq<char>,
    role: Seq<char>,
    database: Seq<char>,
    application: Seq<char>,
)
    ensures
        ({
            let t = "tenant"@ + "="@ + tenant;
            let r = "role"@ + "="@ + role;
            let d = "database"@ + "="@ + database;
            let a = "application"@ + "="@ + application;
            let value = |key: Result<ScopeKeyView, PwbErrorView>| key->Ok_0.debug_value;
            &&& value(
                classified(true, Some(tenant), Some(role), Some(database), Some(application)),
            ) == Some(t + "|"@ + r + "|"@ + d + "|"@ + a)
            &&& value(classified(true, Some(tenant), Some(role), Some(database), None)) == Some(
                t + "|"@ + r + "|"@ + d,
            )
            &&& value(classified(true, Some(tenant), Some(role), None, Some(application))) == Some(
                t + "|"@ + r + "|"@ + a,
            )
            &&& value(classified(true, None, Some(role), Some(database), Some(application)))
                == Some(r + "|"@ + d + "|"@ + a)
            &&& value(classified(true, Some(tenant), Some(role), None, None)) == Some(t + "|"@ + r)
            &&& value(classified(true, Some(tenant), None, Some(database), None)) == Some(
                t + "|"@ + d,
            )
            &&& value(classified(true, None, Some(role), None, Some(application))) == Some(
                r + "|"@ + a,
            )
            &&& value(classified(true, None, None, Some(database), Some(application))) == Some(
                d + "|"@ + a,
            )
        }),
{
    let t = "tenant"@ + "="@ + tenant;
    let r = "role"@ + "="@ + role;
    let d = "database"@ + "="@ + database;
    let a = "application"@ + "="@ + application;
    lemma_joined(t, r, d, a);
    lemma_joined(t, r, a, d);
    lemma_joined(r, d, a, t);
    lemma_joined(t, d, r, a);
    lemma_joined(r, a, t, d);
    lemma_joined(d, a, t, r);
    assert(components(Some(tenant), Some(role), Some(database), Some(application)) =~= seq![
        t,
        r,
        d,
        a,
    ]);
    assert(components(Some(tenant), Some(role), Some(database), None) =~= seq![t, r, d]);
    assert(components(Some(tenant), Some(role), None, Some(application)) =~= seq![t, r, a]);
    assert(components(None, Some(role), Some(database), Some(application)) =~= seq![r, d, a]);
    assert(components(Some(tenant), Some(role), None, None) =~= seq![t, r]);
    assert(components(Some(tenant), None, Some(database), None) =~= seq![t, d]);
    assert(components(None, Some(role), None, Some(application)) =~= seq![r, a]);
    assert(components(None, None, Some(database), Some(application)) =~= seq![d, a]);
}

} // verus!
