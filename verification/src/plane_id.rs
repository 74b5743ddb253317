//! The name of a plane, which is also the name of its directory.
//!
//! The `bp-` prefix is reserved for generated ids and refused on a chosen one,
//! so "starts with `bp-`" stays a reliable signal that nobody chose the name.
//! Chosen ids are lowercase only, so two can never collide on a
//! case-insensitive filesystem.

use vstd::prelude::*;
use crate::error::EngineError;
use crate::text::{push_char, chars_of, charset_tail, has_prefix, is_lower_alnum, is_on_charset, on_charset, owned, starts_with};

verus! {

/// The prefix bitplane puts on the ids it generates.
pub const GENERATED_ID_PREFIX: &'static str = "bp-";

/// The longest a plane id may be.
pub const MAX_PLANE_ID_LENGTH: usize = 64;

/// How many times a generated id may collide before giving up.
pub const GENERATED_ID_ATTEMPTS: usize = 5;

/// `bp-`, as characters.
pub open spec fn generated_prefix() -> Seq<char> {
    seq!['b', 'p', '-']
}

/// `[a-z0-9][a-z0-9._-]*`, 64 characters at most.
pub open spec fn is_well_formed_id(id: Seq<char>) -> bool {
    on_charset(id) && id.len() <= 64
}

/// A lowercase hexadecimal digit.
pub open spec fn is_lower_hex(c: char) -> bool {
    ('0' <= c && c <= '9') || ('a' <= c && c <= 'f')
}

/// The lowercase hex digit for a nibble.
pub open spec fn hex_char(n: int) -> char {
    if n == 0 { '0' } else if n == 1 { '1' } else if n == 2 { '2' } else if n == 3 { '3' }
    else if n == 4 { '4' } else if n == 5 { '5' } else if n == 6 { '6' } else if n == 7 { '7' }
    else if n == 8 { '8' } else if n == 9 { '9' } else if n == 10 { 'a' } else if n == 11 { 'b' }
    else if n == 12 { 'c' } else if n == 13 { 'd' } else if n == 14 { 'e' } else { 'f' }
}

/// Bytes as lowercase hex, two digits a byte, high nibble first.
pub open spec fn hex_of(bytes: Seq<u8>) -> Seq<char>
    decreases bytes.len(),
{
    if bytes.len() == 0 {
        Seq::empty()
    } else {
        let b = bytes.last();
        hex_of(bytes.drop_last()) + seq![hex_char((b / 16) as int), hex_char((b % 16) as int)]
    }
}

/// A plane id: lowercase `[a-z0-9][a-z0-9._-]*`, 64 characters at most.
#[derive(Debug, PartialEq, Eq, PartialOrd, Ord, Hash)]
pub struct PlaneId {
    id: String,
}

impl View for PlaneId {
    type V = Seq<char>;

    closed spec fn view(&self) -> Seq<char> {
        self.id@
    }
}

impl Clone for PlaneId {
    fn clone(&self) -> (r: PlaneId)
        ensures
            r@ == self@,
    {
        proof {
            use_type_invariant(self);
        }
        PlaneId { id: self.id.clone() }
    }
}

impl PlaneId {
    /// An id this type holds is well formed, whatever made it.
    #[verifier::type_invariant]
    spec fn holds_a_well_formed_id(self) -> bool {
        is_well_formed_id(self.id@)
    }

    /// A user-chosen id, checked. The reserved prefix is refused before the
    /// charset, so `bp-Auth` is reported as reserved rather than badly spelled.
    pub fn chosen(id: &str) -> (r: Result<PlaneId, EngineError>)
        ensures
            starts_with(id@, generated_prefix()) ==> r matches Err(EngineError::ReservedPlaneId),
            !starts_with(id@, generated_prefix()) ==> {
                &&& r is Ok <==> is_well_formed_id(id@)
                &&& r matches Ok(p) ==> p@ == id@
                &&& r matches Err(e) ==> (e matches EngineError::InvalidPlaneId { id: x } && x@ == id@)
            },
    {
        let v = chars_of(id);
        let prefix = chars_of(GENERATED_ID_PREFIX);
        proof {
            reveal_strlit("bp-");
            assert(prefix@ =~= generated_prefix());
        }
        if has_prefix(v.as_slice(), prefix.as_slice()) {
            return Err(EngineError::ReservedPlaneId);
        }
        PlaneId::parse(id)
    }

    /// An id read from a file or generated. Checks the charset and nothing
    /// else: `plane.toml` legitimately holds generated ids.
    pub fn parse(id: &str) -> (r: Result<PlaneId, EngineError>)
        ensures
            r is Ok <==> is_well_formed_id(id@),
            r matches Ok(p) ==> p@ == id@,
            r matches Err(e) ==> (e matches EngineError::InvalidPlaneId { id: x } && x@ == id@),
    {
        let v = chars_of(id);
        if v.len() <= MAX_PLANE_ID_LENGTH && is_on_charset(&v) {
            Ok(PlaneId { id: owned(id) })
        } else {
            Err(EngineError::InvalidPlaneId { id: owned(id) })
        }
    }

    /// The id for four drawn bytes: `bp-` and each byte as two lowercase
    /// hex digits, high nibble first.
    pub fn from_bytes(bytes: [u8; 4]) -> (p: PlaneId)
        ensures
            p@ == generated_prefix() + hex_of(bytes@),
    {
        let mut id = owned(GENERATED_ID_PREFIX);
        proof {
            reveal_strlit("bp-");
        }
        assert(id@ =~= generated_prefix());
        let mut i: usize = 0;
        assert(bytes@.take(0) =~= Seq::<u8>::empty());
        while i < 4
            invariant
                i <= 4,
                id@ == generated_prefix() + hex_of(bytes@.take(i as int)),
            decreases 4 - i,
        {
            let byte = bytes[i];
            let high = hex_digit((byte / 16) as u32);
            let low = hex_digit((byte % 16) as u32);
            push_char(&mut id, high);
            push_char(&mut id, low);
            proof {
                let next = bytes@.take(i + 1);
                assert(next.drop_last() =~= bytes@.take(i as int));
                assert(next.last() == byte);
                assert(id@ =~= generated_prefix() + hex_of(next));
            }
            i = i + 1;
        }
        assert(bytes@.take(4) =~= bytes@);
        proof {
            a_generated_id_reads_back_and_is_reserved_from_a_user(bytes@);
        }
        PlaneId { id }
    }

    /// A fresh `bp-<hex8>` from four bytes drawn from the system's entropy,
    /// or the failure to draw them. Collisions are detected by the claim,
    /// not here, so this only has to be unlikely to repeat.
    pub fn generate(drawn: Result<[u8; 4], EngineError>) -> (r: Result<PlaneId, EngineError>)
        ensures
            match drawn {
                Ok(bytes) => r matches Ok(p) && p@ == generated_prefix() + hex_of(bytes@),
                Err(e) => r == Err::<PlaneId, EngineError>(e),
            },
    {
        match drawn {
            Ok(bytes) => Ok(PlaneId::from_bytes(bytes)),
            Err(e) => Err(e),
        }
    }

    /// Whether bitplane generated this id rather than being given it.
    pub fn is_generated(&self) -> (r: bool)
        ensures
            r == starts_with(self@, generated_prefix()),
    {
        let v = chars_of(self.id.as_str());
        let prefix = chars_of(GENERATED_ID_PREFIX);
        proof {
            reveal_strlit("bp-");
            assert(prefix@ =~= generated_prefix());
        }
        has_prefix(v.as_slice(), prefix.as_slice())
    }

    pub fn as_str(&self) -> (s: &str)
        ensures
            s@ == self@,
            is_well_formed_id(self@),
    {
        proof {
            use_type_invariant(self);
        }
        self.id.as_str()
    }

    /// The owned string of this id.
    pub fn to_text(&self) -> (s: String)
        ensures
            s@ == self@,
    {
        self.id.clone()
    }
}

/// The digit for a nibble.
fn hex_digit(n: u32) -> (c: char)
    requires
        n < 16,
    ensures
        c == hex_char(n as int),
{
    match n {
        0 => '0',
        1 => '1',
        2 => '2',
        3 => '3',
        4 => '4',
        5 => '5',
        6 => '6',
        7 => '7',
        8 => '8',
        9 => '9',
        10 => 'a',
        11 => 'b',
        12 => 'c',
        13 => 'd',
        14 => 'e',
        _ => 'f',
    }
}

proof fn lemma_hex_of(bytes: Seq<u8>)
    ensures
        hex_of(bytes).len() == 2 * bytes.len(),
        forall|i: int| 0 <= i < hex_of(bytes).len() ==> #[trigger] is_lower_hex(hex_of(bytes)[i]),
    decreases bytes.len(),
{
    if bytes.len() > 0 {
        lemma_hex_of(bytes.drop_last());
    }
}

/// Every id `generate` makes reads back from a file and is one a user
/// cannot choose: whatever bytes were drawn, the id is well formed, eleven
/// characters long, and carries the reserved prefix.
pub proof fn a_generated_id_reads_back_and_is_reserved_from_a_user(bytes: Seq<u8>)
    requires
        bytes.len() == 4,
    ensures
        is_well_formed_id(generated_prefix() + hex_of(bytes)),
        starts_with(generated_prefix() + hex_of(bytes), generated_prefix()),
        (generated_prefix() + hex_of(bytes)).len() == 11,
{
    let id = generated_prefix() + hex_of(bytes);
    lemma_hex_of(bytes);
    assert(id.subrange(0, 3) =~= generated_prefix());
    assert forall|i: int| 1 <= i < id.len() implies #[trigger] charset_tail(id[i]) by {
        if i >= 3 {
            assert(id[i] == hex_of(bytes)[i - 3]);
            assert(is_lower_hex(hex_of(bytes)[i - 3]));
        }
    }
    assert(is_lower_alnum(id[0]));
}

} // verus!
