//! The state blob: which flakes produced the current environment and how to
//! undo them, kept in one environment variable as base64 of zstd of JSON.
use crate::env_vars::EnvVarsState;
use crate::shells::nushell::{compact_object, compact_object_text};
use crate::shells::{json_quote, json_quoted};
use crate::strings::{join_on, join_strs, views};
use base64::Engine;
use vstd::prelude::*;
use vstd::string::StringExecFns;
use vstd::utf8::encode_utf8;

verus! {

/// What `ruzstd::encoding::compress_to_vec` makes of some bytes at the fastest level.
pub uninterp spec fn zstd_compressed(b: Seq<u8>) -> Seq<u8>;

/// What `ruzstd::decoding::StreamingDecoder` reads out of some bytes, if they
/// hold a valid frame.
pub uninterp spec fn zstd_decoded(b: Seq<u8>) -> Option<Seq<u8>>;

/// What the standard, padded base64 engine makes of some bytes.
pub uninterp spec fn base64_encoded(b: Seq<u8>) -> Seq<char>;

pub open spec fn opt_bytes(o: Option<Vec<u8>>) -> Option<Seq<u8>> {
    match o {
        Some(v) => Some(v@),
        None => None,
    }
}

/// Relies on `ruzstd::encoding::compress_to_vec` at `CompressionLevel::Fastest`.
#[verifier::external_body]
fn zstd_compress(data: &[u8]) -> (r: Vec<u8>)
    ensures
        r@ == zstd_compressed(data@),
{
    ruzstd::encoding::compress_to_vec(data, ruzstd::encoding::CompressionLevel::Fastest)
}

/// Relies on `ruzstd::decoding::StreamingDecoder`: the frame's content, or
/// `None` when the bytes hold no valid frame; what the encoder wrote decodes
/// to what it was given.
#[verifier::external_body]
fn zstd_decompress(data: &[u8]) -> (r: Option<Vec<u8>>)
    ensures
        opt_bytes(r) == zstd_decoded(data@),
        forall|b: Seq<u8>| #[trigger] zstd_compressed(b) == data@ ==> opt_bytes(r) == Some(b),
{
    let mut source = data;
    match ruzstd::decoding::StreamingDecoder::new(&mut source) {
        Ok(mut decoder) => {
            let mut out = Vec::new();
            match std::io::Read::read_to_end(&mut decoder, &mut out) {
                Ok(_) => Some(out),
                Err(_) => None,
            }
        },
        Err(_) => None,
    }
}

/// Relies on `base64::engine::general_purpose::STANDARD.encode`.
#[verifier::external_body]
fn base64_encode(data: &[u8]) -> (r: String)
    ensures
        r@ == base64_encoded(data@),
{
    base64::engine::general_purpose::STANDARD.encode(data)
}

/// Relies on `base64::engine::general_purpose::STANDARD.decode`, which accepts
/// exactly the canonical padded encodings: it returns the bytes whose encoding
/// is `s`, and fails when there are none.
#[verifier::external_body]
fn base64_decode(s: &str) -> (r: Option<Vec<u8>>)
    ensures
        r is Some ==> base64_encoded(r.unwrap()@) == s@,
        forall|b: Seq<u8>| #[trigger] base64_encoded(b) == s@ ==> opt_bytes(r) == Some(b),
{
    base64::engine::general_purpose::STANDARD.decode(s).ok()
}

/// Why a state blob could not be read.
#[derive(Debug, Clone, Copy, PartialEq, Eq)]
pub enum EnvStateError {
    /// Not valid base64.
    Base64,
    /// Not a valid zstd frame.
    Zstd,
}

/// The record kept in the state variable.
#[derive(Debug, Clone)]
pub struct EnvoluntaryEnvState {
    /// The flake references that produced the current environment, in order.
    pub flake_references: Vec<String>,
    /// How to bring the environment back to what it was before.
    pub env_vars_reset: EnvVarsState,
}

/// The record as compact JSON, fields in declaration order.
pub open spec fn state_json(refs: Seq<Seq<char>>, reset: Seq<(Seq<char>, Option<Seq<char>>)>) -> Seq<char> {
    "{\"flake_references\":["@ + join_on(refs.map_values(|r: Seq<char>| json_quoted(r)), ',')
        + "],\"env_vars_reset\":"@ + compact_object(reset) + "}"@
}

/// The blob: base64 of the zstd frame of the JSON text's UTF-8 bytes.
pub open spec fn encoded_state(refs: Seq<Seq<char>>, reset: Seq<(Seq<char>, Option<Seq<char>>)>) -> Seq<char> {
    base64_encoded(zstd_compressed(encode_utf8(state_json(refs, reset))))
}

impl EnvoluntaryEnvState {
    /// The record's JSON text.
    pub fn to_json(&self) -> (r: String)
        ensures
            r@ == state_json(views(self.flake_references@), self.env_vars_reset@),
    {
        let mut quoted: Vec<String> = Vec::new();
        let mut i: usize = 0;
        while i < self.flake_references.len()
            invariant
                i <= self.flake_references@.len(),
                views(quoted@) == views(self.flake_references@).take(i as int).map_values(
                    |r: Seq<char>| json_quoted(r),
                ),
            decreases self.flake_references@.len() - i,
        {
            let q = json_quote(self.flake_references[i].as_str());
            let ghost before = quoted@;
            quoted.push(q);
            proof {
                assert(views(quoted@) =~= views(before).push(q@));
                assert(views(quoted@) =~= views(self.flake_references@).take(i + 1).map_values(
                    |r: Seq<char>| json_quoted(r),
                ));
            }
            i = i + 1;
        }
        proof {
            assert(views(self.flake_references@).take(self.flake_references@.len() as int) =~= views(
                self.flake_references@,
            ));
        }
        let mut r = String::from_str("{\"flake_references\":[");
        r.append(join_strs(&quoted, ',').as_str());
        r.append("],\"env_vars_reset\":");
        r.append(compact_object_text(&self.env_vars_reset).as_str());
        r.append("}");
        r
    }

    /// The blob to store in the state variable.
    pub fn encode(&self) -> (r: String)
        ensures
            r@ == encoded_state(views(self.flake_references@), self.env_vars_reset@),
    {
        let json = self.to_json();
        let compressed = zstd_compress(json.as_str().as_bytes());
        base64_encode(compressed.as_slice())
    }

    /// The JSON bytes held in a blob. A blob that `encode` wrote gives back
    /// the JSON text of the record it was made from.
    pub fn decode_json(base64_value: &str) -> (r: Result<Vec<u8>, EnvStateError>)
        ensures
            forall|refs: Seq<Seq<char>>, reset: Seq<(Seq<char>, Option<Seq<char>>)>|
                base64_value@ == #[trigger] encoded_state(refs, reset) ==> r is Ok && r.unwrap()@
                    == encode_utf8(state_json(refs, reset)),
            (r == Err::<Vec<u8>, EnvStateError>(EnvStateError::Base64)) <==> !exists|b: Seq<u8>|
                #[trigger] base64_encoded(b) == base64_value@,
            r == Err::<Vec<u8>, EnvStateError>(EnvStateError::Zstd) ==> exists|b: Seq<u8>|
                #[trigger] base64_encoded(b) == base64_value@ && zstd_decoded(b) is None,
            r is Ok ==> exists|b: Seq<u8>|
                #[trigger] base64_encoded(b) == base64_value@ && zstd_decoded(b) == Some(r.unwrap()@),
    {
        match base64_decode(base64_value) {
            None => Err(EnvStateError::Base64),
            Some(compressed) => match zstd_decompress(compressed.as_slice()) {
                None => Err(EnvStateError::Zstd),
                Some(json) => Ok(json),
            },
        }
    }
}

} // verus!
