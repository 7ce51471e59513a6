//! The immutable configuration record of one scaffold run: the naming
//! variants, the organization name, the creation year, and the generated
//! program credential.

use vstd::prelude::*;
use vstd::string::*;

use solana_sdk::signature::Signer;

use crate::names::{
    generate_program_name_variants, plain_dash_case, readable_of, segments_of, underscore_of,
};
use crate::util::spec_word_count;

verus! {

#[verifier::external_type_specification]
#[verifier::external_body]
pub struct ExKeypair(solana_sdk::signature::Keypair);

/// Relies on `solana_sdk::signature::Keypair::new`: a freshly generated
/// random keypair. Nothing is promised of the value, which is
/// independent per call.
#[verifier::external_body]
fn fresh_keypair() -> solana_sdk::signature::Keypair {
    solana_sdk::signature::Keypair::new()
}

/// Relies on `Signer::pubkey` for `Keypair` and the `Display` of the
/// returned address: the public identifier of the keypair as a string.
/// Nothing is promised of its content.
#[verifier::external_body]
fn keypair_public_string(keypair: &solana_sdk::signature::Keypair) -> String {
    keypair.pubkey().to_string()
}

/// Relies on `Keypair::to_bytes`, which returns the keypair as a 64-byte
/// array: the 32 secret-key bytes followed by the 32 public-key bytes.
#[verifier::external_body]
fn keypair_secret_bytes(keypair: &solana_sdk::signature::Keypair) -> (r: Vec<u8>)
    ensures
        r@.len() == 64,
{
    keypair.to_bytes().to_vec()
}

/// Relies on `chrono::Utc::now` and `Datelike::year`: the current
/// calendar year by the system clock. Nothing is promised of the value.
#[verifier::external_body]
fn current_year() -> i32 {
    chrono::Datelike::year(&chrono::Utc::now())
}

/// Represents the project configuration data.
#[derive(Debug)]
pub struct ProjectConfig {
    pub program_name_dash: String,
    pub program_name_underscore: String,
    pub program_name_readable: String,
    pub company_name: String,
    pub year: i32,
    pub program_pubkey: String,
    pub program_key_bytes: Vec<u8>,
}

impl ProjectConfig {
    /// The configuration invariant: both naming variants are derived from
    /// the dash-case name, and the credential holds the full 64 key
    /// bytes.
    pub open spec fn wf(&self) -> bool {
        &&& self.program_name_underscore@ == underscore_of(self.program_name_dash@)
        &&& self.program_name_readable@ == readable_of(self.program_name_dash@)
        &&& self.program_key_bytes@.len() == 64
    }

    /// Builds the complete project configuration from the collected
    /// dash-case project name and organization name, generating a fresh
    /// credential and capturing the current year.
    pub fn build(program_name_dash: String, company_name: String) -> (r: ProjectConfig)
        ensures
            r.wf(),
            r.program_name_dash@ == program_name_dash@,
            r.company_name@ == company_name@,
            plain_dash_case(program_name_dash@) ==> spec_word_count(r.program_name_readable@)
                == segments_of(program_name_dash@).len(),
    {
        let (program_name_underscore, program_name_readable) = generate_program_name_variants(
            program_name_dash.as_str(),
        );
        let keypair = fresh_keypair();
        let program_pubkey = keypair_public_string(&keypair);
        let program_key_bytes = keypair_secret_bytes(&keypair);
        let year = current_year();
        ProjectConfig {
            program_name_dash,
            program_name_underscore,
            program_name_readable,
            company_name,
            year,
            program_pubkey,
            program_key_bytes,
        }
    }
}

} // verus!
