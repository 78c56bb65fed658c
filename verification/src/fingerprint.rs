use vstd::prelude::*;
use vstd::string::StringExecFns;
use crate::errors::HashingError;

verus! {

/// The hex digest `md5::compute` yields for a text: a pure function of the
/// characters alone, the same in every process and on every machine.
pub uninterp spec fn md5_hex_of(s: Seq<char>) -> Seq<char>;

/// Relies on md5::compute: the digest depends on the input bytes alone, and
/// its lower-hex rendering prints each of the 16 digest bytes as exactly two
/// hex digits.
#[verifier::external_body]
fn md5_hex(input: &str) -> (r: String)
    ensures
        r@ == md5_hex_of(input@),
        r@.len() == 32,
{
    format!("{:x}", md5::compute(input.as_bytes()))
}

/// The fixed, versioned salt that namespaces fingerprints to this
/// application, so unrelated tools reading the same attributes derive a
/// different identifier.
pub open spec fn salt_spec() -> Seq<char> {
    "identity-sync.v1"@
}

/// What a machine's fingerprint is, as a function of the probed hardware
/// attribute text: the digest of the salt, a separator, and the attributes.
pub open spec fn fingerprint_of(hw: Seq<char>) -> Seq<char> {
    md5_hex_of(salt_spec() + seq![':'] + hw)
}

/// Relies on machineid_rs::IdBuilder::build over the CPU vendor identifier
/// and core count components: a low-variance, hex-encoded probe of this
/// machine that the crate keeps stable across runs on unchanged hardware; it
/// fails only when attribute collection fails.
#[verifier::external_body]
fn probe_hardware() -> (r: Result<String, String>)
    ensures
        r matches Ok(h) ==> h@.len() == 32,
{
    let mut builder = machineid_rs::IdBuilder::new(machineid_rs::Encryption::MD5);
    builder.add_component(machineid_rs::HWIDComponent::CPUID);
    builder.add_component(machineid_rs::HWIDComponent::CPUCores);
    builder.build("identity-sync.hw.v1").map_err(|e| e.to_string())
}

/// Derives the fingerprint from probed hardware attribute text: the salt and
/// the attributes are combined, then hashed. The result is a function of the
/// attribute text alone, so unchanged attributes give a byte-identical
/// fingerprint on every call.
pub fn derive_fingerprint(hw: &str) -> (r: String)
    ensures
        r@ == fingerprint_of(hw@),
        r@.len() == 32,
{
    let mut text = String::new();
    text.append("identity-sync.v1");
    text.append(":");
    text.append(hw);
    proof {
        reveal_strlit(":");
        assert(text@ =~= salt_spec() + seq![':'] + hw@);
    }
    md5_hex(text.as_str())
}

/// Computes this machine's fingerprint: probes the hardware attributes and
/// derives the salted digest from them. It fails only when the attribute
/// collection fails, and every success is the derived fingerprint of the
/// probed attribute text.
pub fn generate() -> (r: Result<String, HashingError>)
    ensures
        r matches Ok(f) ==> f@.len() == 32 && (exists|hw: Seq<char>| f@ == fingerprint_of(hw)),
{
    match probe_hardware() {
        Ok(hw) => {
            let f = derive_fingerprint(hw.as_str());
            proof {
                assert(f@ == fingerprint_of(hw@));
            }
            Ok(f)
        },
        Err(message) => Err(HashingError { message }),
    }
}

/// Fingerprint generation is idempotent: the derivation is a function of the
/// probed attribute text alone, so repeated runs over unchanged hardware
/// attributes return byte-identical output.
pub proof fn lemma_fingerprint_deterministic(h1: Seq<char>, h2: Seq<char>)
    requires
        h1 == h2,
    ensures
        fingerprint_of(h1) == fingerprint_of(h2),
{
}

} // verus!
