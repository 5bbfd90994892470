//! The stable machine identifier: a seed text made of the host's name, its
//! system version, its first processor and its memory, hashed with SHA-256
//! and cut to the first sixteen hex digits.

use vstd::prelude::*;
use vstd::string::{StringExecFns, StringSliceAdditionalSpecFns};
use vstd::utf8::encode_utf8;
use sha2::Digest;
use crate::text::{decimal_of, hex_char, hex_of_bytes, hex_string, is_lower_hex, push_decimal};

verus! {

/// What SHA-256 makes of a byte sequence.
pub uninterp spec fn sha256_of(b: Seq<u8>) -> Seq<u8>;

/// Relies on sha2's `Sha256::digest`: the SHA-256 digest of the bytes, which
/// is 32 bytes long.
#[verifier::external_body]
fn sha256(b: &[u8]) -> (r: Vec<u8>)
    ensures
        r@ == sha256_of(b@),
        r@.len() == 32,
{
    sha2::Sha256::digest(b).to_vec()
}

/// What is read of the host to identify it; an absent part counts as empty.
#[derive(Clone, Debug)]
pub struct MachineSnapshot {
    pub host_name: Option<String>,
    pub os_version: Option<String>,
    pub cpu_brand: Option<String>,
    pub cpu_frequency_mhz: Option<u64>,
    pub total_memory: u64,
}

/// An optional text, empty when absent.
pub open spec fn text_or_empty(o: Option<String>) -> Seq<char> {
    match o {
        Some(s) => s@,
        None => Seq::empty(),
    }
}

/// The seed text: the parts of the snapshot joined by `|`.
pub open spec fn seed_of(m: MachineSnapshot) -> Seq<char> {
    text_or_empty(m.host_name) + "|"@ + text_or_empty(m.os_version) + "|"@ + text_or_empty(
        m.cpu_brand,
    ) + "|"@ + match m.cpu_frequency_mhz {
        Some(f) => decimal_of(f as nat),
        None => Seq::empty(),
    } + "|"@ + decimal_of(m.total_memory as nat)
}

/// The identifier of a machine: the first eight bytes of the digest of its
/// seed, in lower-case hex.
pub open spec fn machine_id_of(m: MachineSnapshot) -> Seq<char> {
    hex_of_bytes(sha256_of(encode_utf8(seed_of(m))).subrange(0, 8))
}

/// The hex text of `b` has two lower-case hex digits per byte.
pub proof fn lemma_hex_shape(b: Seq<u8>)
    ensures
        hex_of_bytes(b).len() == 2 * b.len(),
        forall|i: int| 0 <= i < hex_of_bytes(b).len() ==> is_lower_hex(#[trigger] hex_of_bytes(b)[i]),
    decreases b.len(),
{
    if b.len() > 0 {
        lemma_hex_shape(b.drop_last());
        let h = hex_of_bytes(b);
        let p = hex_of_bytes(b.drop_last());
        let hi = (b.last() / 16) as nat;
        let lo = (b.last() % 16) as nat;
        assert(h == p + seq![hex_char(hi), hex_char(lo)]);
        assert forall|i: int| 0 <= i < h.len() implies is_lower_hex(#[trigger] h[i]) by {
            if i >= p.len() {
                let d = if i == p.len() { hi } else { lo };
                assert(h[i] == hex_char(d));
            }
        }
    }
}

/// Appends an optional text, nothing when absent.
fn push_text(out: &mut String, o: &Option<String>)
    ensures
        final(out)@ == old(out)@ + text_or_empty(*o),
{
    match o {
        Some(s) => out.append(s.as_str()),
        None => {
            assert(old(out)@ + Seq::<char>::empty() =~= old(out)@);
        },
    }
}

/// The seed text of a snapshot.
pub fn machine_seed(m: &MachineSnapshot) -> (r: String)
    ensures
        r@ == seed_of(*m),
{
    proof {
        reveal_strlit("|");
    }
    let mut out = String::new();
    push_text(&mut out, &m.host_name);
    out.append("|");
    push_text(&mut out, &m.os_version);
    out.append("|");
    push_text(&mut out, &m.cpu_brand);
    out.append("|");
    match m.cpu_frequency_mhz {
        Some(f) => push_decimal(&mut out, f),
        None => {},
    }
    out.append("|");
    push_decimal(&mut out, m.total_memory);
    proof {
        assert(out@ =~= seed_of(*m));
    }
    out
}

/// The identifier carried by a digest: its first eight bytes in lower-case hex.
pub fn id_from_digest(digest: &[u8]) -> (r: String)
    requires
        digest@.len() >= 8,
    ensures
        r@ == hex_of_bytes(digest@.subrange(0, 8)),
        r@.len() == 16,
        forall|i: int| 0 <= i < r@.len() ==> is_lower_hex(#[trigger] r@[i]),
{
    let mut head: Vec<u8> = Vec::new();
    let mut i: usize = 0;
    while i < 8
        invariant
            digest@.len() >= 8,
            i <= 8,
            head@ == digest@.subrange(0, i as int),
        decreases 8 - i,
    {
        head.push(digest[i]);
        proof {
            assert(head@ =~= digest@.subrange(0, i as int + 1));
        }
        i = i + 1;
    }
    proof {
        lemma_hex_shape(head@);
    }
    hex_string(head.as_slice())
}

/// The stable identifier of the machine described by `m`: sixteen
/// lower-case hex digits, the same for the same snapshot.
pub fn get_machine_id(m: &MachineSnapshot) -> (r: String)
    ensures
        r@ == machine_id_of(*m),
        r@.len() == 16,
        forall|i: int| 0 <= i < r@.len() ==> is_lower_hex(#[trigger] r@[i]),
{
    let seed = machine_seed(m);
    let digest = sha256(seed.as_str().as_bytes());
    id_from_digest(digest.as_slice())
}

/// Two snapshots with the same seed give the same identifier; where the
/// digest has its eight leading bytes, it is sixteen lower-case hex digits.
pub proof fn lemma_machine_id_stable(a: MachineSnapshot, b: MachineSnapshot)
    requires
        seed_of(a) == seed_of(b),
    ensures
        machine_id_of(a) == machine_id_of(b),
        sha256_of(encode_utf8(seed_of(a))).len() >= 8 ==> machine_id_of(a).len() == 16,
        sha256_of(encode_utf8(seed_of(a))).len() >= 8 ==> forall|i: int|
            0 <= i < machine_id_of(a).len() ==> is_lower_hex(#[trigger] machine_id_of(a)[i]),
{
    if sha256_of(encode_utf8(seed_of(a))).len() >= 8 {
        lemma_hex_shape(sha256_of(encode_utf8(seed_of(a))).subrange(0, 8));
    }
}

} // verus!
