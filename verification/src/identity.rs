//! Who is at the other end, and over which connection.
use vstd::prelude::*;

verus! {

/// Length of the encoding of a public key.
pub const PUBLIC_KEY_SIZE_BYTES: usize = 33;

/// A public key, in its compressed encoding.
#[derive(Clone, Copy, Debug, Hash, Eq, PartialOrd, Ord)]
pub struct PublicKey(pub [u8; PUBLIC_KEY_SIZE_BYTES]);

impl PartialEq for PublicKey {
    fn eq(&self, other: &Self) -> (equal: bool) {
        let mut i: usize = 0;
        while i < PUBLIC_KEY_SIZE_BYTES
            invariant
                i <= PUBLIC_KEY_SIZE_BYTES,
                forall|j: int| 0 <= j < i ==> self.0[j] == other.0[j],
            decreases PUBLIC_KEY_SIZE_BYTES - i,
        {
            if self.0[i] != other.0[i] {
                return false;
            }
            i = i + 1;
        }
        assert(self.0 =~= other.0);
        true
    }
}

impl vstd::std_specs::cmp::PartialEqSpecImpl for PublicKey {
    open spec fn obeys_eq_spec() -> bool {
        true
    }

    open spec fn eq_spec(&self, other: &Self) -> bool {
        *self == *other
    }
}

/// A node is known by its public key.
#[derive(Clone, Copy, Hash, Eq, PartialOrd, Ord)]
pub struct NodeId(pub PublicKey);

/// Where formatted text goes.
#[verifier::external_type_specification]
#[verifier::external_body]
pub struct ExFormatter<'a>(std::fmt::Formatter<'a>);

/// The error of writing formatted text.
#[verifier::external_type_specification]
#[verifier::external_body]
pub struct ExFmtError(std::fmt::Error);

/// Writes the debug form of `key` by std's `Formatter::write_fmt`, which `write!`
/// calls. Nothing is claimed of it: where the text goes, and whether it can be
/// written, is up to `f`.
#[verifier::external_body]
fn write_key(key: &PublicKey, f: &mut std::fmt::Formatter<'_>) -> (written: Result<
    (),
    std::fmt::Error,
>) {
    write!(f, "{:?}", key)
}

/// Writing the debug form of `key` to `f` may come to `written`.
pub closed spec fn shows<'a>(
    key: PublicKey,
    f: &mut std::fmt::Formatter<'a>,
    written: Result<(), std::fmt::Error>,
) -> bool {
    call_ensures(write_key, (&key, f), written)
}

/// To show a key is to call [`write_key`] on it, and nothing else.
proof fn lemma_shows<'a>(key: PublicKey, written: Result<(), std::fmt::Error>)
    ensures
        forall|f: &mut std::fmt::Formatter<'a>|
            shows(key, f, written) <==> #[trigger] call_ensures(write_key, (&key, f), written),
{
}

/// A node is shown by its key alone.
impl std::fmt::Debug for NodeId {
    fn fmt(&self, f: &mut std::fmt::Formatter<'_>) -> (written: Result<(), std::fmt::Error>)
        ensures
            exists|out: &mut std::fmt::Formatter<'_>| #[trigger]
                shows(self.0, out, written) && *out == *old(f) && *final(out) == *final(f),
    {
        let written = write_key(&self.0, f);
        proof {
            lemma_shows(self.0, written);
        }
        written
    }
}

/// A node is shown by its key alone.
impl std::fmt::Display for NodeId {
    fn fmt(&self, f: &mut std::fmt::Formatter<'_>) -> (written: Result<(), std::fmt::Error>)
        ensures
            exists|out: &mut std::fmt::Formatter<'_>| #[trigger]
                shows(self.0, out, written) && *out == *old(f) && *final(out) == *final(f),
    {
        let written = write_key(&self.0, f);
        proof {
            lemma_shows(self.0, written);
        }
        written
    }
}

impl PartialEq for NodeId {
    fn eq(&self, other: &Self) -> (equal: bool) {
        self.0 == other.0
    }
}

impl vstd::std_specs::cmp::PartialEqSpecImpl for NodeId {
    open spec fn obeys_eq_spec() -> bool {
        true
    }

    open spec fn eq_spec(&self, other: &Self) -> bool {
        *self == *other
    }
}

/// Identifies one connection of the network layer.
#[derive(Clone, Copy, Debug, Hash, PartialEq, Eq, PartialOrd, Ord, Structural)]
pub struct ConnectionId(pub u64);

/// Why a connection was given up.
#[derive(Clone, Copy, Debug, PartialEq, Eq, Structural)]
pub enum ConnectionClosureReason {
    /// Nothing went wrong.
    Normal,
    /// The peer or the stream misbehaved.
    Failed,
}

} // verus!
