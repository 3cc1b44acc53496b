//! Domain newtypes.
use vstd::prelude::*;
use vstd::std_specs::cmp::PartialEqSpecImpl;

verus! {

/// Identifier of a tenant. The raw text is kept as given: no trimming,
/// normalisation or sanitising.
#[derive(Debug, Hash)]
pub struct TenantId {
    id: String,
}

impl View for TenantId {
    type V = Seq<char>;

    open spec fn view(&self) -> Seq<char> {
        self.spec_text()
    }
}

impl TenantId {
    /// The identifier's characters.
    pub closed spec fn spec_text(&self) -> Seq<char> {
        self.id@
    }

    /// Wraps the given text.
    pub fn new(id: &str) -> (t: TenantId)
        ensures
            t@ == id@,
    {
        TenantId { id: id.to_string() }
    }

    /// The identifier as a string slice.
    pub fn as_str(&self) -> (s: &str)
        ensures
            s@ == self@,
    {
        self.id.as_str()
    }

    /// The identifier as an owned string (what displaying it prints).
    pub fn to_string(&self) -> (s: String)
        ensures
            s@ == self@,
    {
        self.id.clone()
    }
}

impl Clone for TenantId {
    fn clone(&self) -> (r: TenantId)
        ensures
            r@ == self@,
    {
        TenantId { id: self.id.clone() }
    }
}

impl PartialEq for TenantId {
    fn eq(&self, other: &TenantId) -> (r: bool) {
        self.id == other.id
    }
}

impl Eq for TenantId {}

impl PartialEqSpecImpl for TenantId {
    open spec fn obeys_eq_spec() -> bool {
        true
    }

    open spec fn eq_spec(&self, other: &TenantId) -> bool {
        self@ == other@
    }
}

/// The lower-case hexadecimal digit of `d` (below 16).
pub open spec fn hex_lower(d: u128) -> char {
    if d < 10 {
        (48 + d) as char
    } else {
        (87 + d) as char
    }
}

/// The `k`-th of the 32 hexadecimal digits of `v`, most significant first.
pub open spec fn nibble(v: u128, k: int) -> u128 {
    (v >> ((124 - 4 * k) as u128)) & 15
}

/// How many hyphens come before position `i` of the hyphenated form.
pub open spec fn hyphens_before(i: int) -> int {
    if i > 23 { 4 } else if i > 18 { 3 } else if i > 13 { 2 } else if i > 8 { 1 } else { 0 }
}

/// The hyphenated form of a 128-bit UUID value: its 32 lower-case hex
/// digits in groups of 8, 4, 4, 4 and 12, separated by `-`.
pub open spec fn uuid_text(v: u128) -> Seq<char> {
    Seq::new(36, |i: int|
        if i == 8 || i == 13 || i == 18 || i == 23 {
            '-'
        } else {
            hex_lower(nibble(v, i - hyphens_before(i)))
        })
}

/// A version-4 (random) UUID value: the version field is 4 and the variant
/// is RFC 4122.
pub open spec fn is_v4(v: u128) -> bool {
    &&& (v >> 76u128) & 0xF == 4
    &&& (v >> 62u128) & 0x3 == 2
}

/// Calls `uuid::Uuid::new_v4` and reads the value with `as_u128`. The value
/// is random; every outcome is a version-4 UUID (the crate masks in the
/// version and variant bits).
#[verifier::external_body]
fn random_v4() -> (r: u128)
    ensures
        is_v4(r),
{
    uuid::Uuid::new_v4().as_u128()
}

/// Calls `Uuid::from_u128(v).hyphenated().to_string()`, which writes the
/// 32 digits of `v` in lower-case hex, grouped 8-4-4-4-12.
#[verifier::external_body]
fn hyphenated(v: u128) -> (s: String)
    ensures
        s@ == uuid_text(v),
{
    uuid::Uuid::from_u128(v).hyphenated().to_string()
}

/// Identifier of a request trace: a UUID, held as its 128-bit value (the
/// value `uuid::Uuid::as_u128` gives and `uuid::Uuid::from_u128` takes).
#[derive(Debug, Clone, Copy, PartialEq, Eq, Hash, Structural)]
pub struct TraceId {
    bits: u128,
}

impl TraceId {
    /// The identifier's 128-bit UUID value.
    pub closed spec fn bits(&self) -> u128 {
        self.bits
    }

    /// A fresh random (version 4) identifier.
    pub fn new() -> (t: TraceId)
        ensures
            is_v4(t.bits()),
    {
        TraceId { bits: random_v4() }
    }

    /// The identifier with the given 128-bit UUID value.
    pub fn from_uuid(uuid: u128) -> (t: TraceId)
        ensures
            t.bits() == uuid,
    {
        TraceId { bits: uuid }
    }

    /// The identifier's 128-bit UUID value.
    pub fn as_uuid(&self) -> (u: u128)
        ensures
            u == self.bits(),
    {
        self.bits
    }

    /// The hyphenated lower-case form of the UUID (what displaying it
    /// prints).
    pub fn to_string(&self) -> (s: String)
        ensures
            s@ == uuid_text(self.bits()),
    {
        hyphenated(self.bits)
    }
}

impl Default for TraceId {
    /// A fresh random identifier.
    fn default() -> (t: TraceId)
        ensures
            is_v4(t.bits()),
    {
        TraceId::new()
    }
}

/// Law: an identifier is its UUID value: two identifiers with the same
/// value are equal, so rebuilding one from its value
/// (`from_uuid(t.as_uuid())`) gives back an equal identifier.
pub proof fn law_trace_id_is_its_uuid(t: TraceId, r: TraceId)
    requires
        r.bits() == t.bits(),
    ensures
        r == t,
{
}

/// Law: a trace identifier displays as 36 characters, with `-` at
/// positions 8, 13, 18 and 23 and a lower-case hex digit everywhere else.
pub proof fn law_trace_id_text_shape(v: u128)
    ensures
        uuid_text(v).len() == 36,
        forall|i: int| 0 <= i < 36 ==> (#[trigger] uuid_text(v)[i] == '-' <==> (i == 8 || i == 13 || i == 18 || i == 23)),
        forall|i: int| 0 <= i < 36 && !(i == 8 || i == 13 || i == 18 || i == 23) ==> {
            let c = #[trigger] uuid_text(v)[i];
            ('0' <= c <= '9') || ('a' <= c <= 'f')
        },
{
    assert forall|i: int| 0 <= i < 36 && !(i == 8 || i == 13 || i == 18 || i == 23) implies {
        let c = #[trigger] uuid_text(v)[i];
        &&& ('0' <= c <= '9') || ('a' <= c <= 'f')
        &&& c != '-'
    } by {
        let k = i - hyphens_before(i);
        let sh = (124 - 4 * k) as u128;
        let d = (v >> sh) & 15;
        assert(d <= 15) by (bit_vector)
            requires d == (v >> sh) & 15;
        assert(nibble(v, k) == d);
    }
}

} // verus!
