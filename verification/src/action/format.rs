//! Encoding and decoding of what an action reads and writes.

use vstd::prelude::*;
use crate::action::docker::DockerIOFormat;
use crate::error::{Error, ErrorKind};

verus! {

/// A document: what any of the formats encodes.
#[verifier::external_type_specification]
#[verifier::external_body]
pub struct ExDocument(serde_json::Value);

/// The document that `bytes` hold as JSON text, if they hold one.
pub uninterp spec fn json_document(bytes: Seq<u8>) -> Option<serde_json::Value>;

/// The document that `bytes` hold as YAML text, if they hold one.
pub uninterp spec fn yaml_document(bytes: Seq<u8>) -> Option<serde_json::Value>;

/// The document that `bytes` hold as CBOR, if they hold one.
pub uninterp spec fn cbor_document(bytes: Seq<u8>) -> Option<serde_json::Value>;

/// The document that `bytes` hold as TOML text, if they hold one.
pub uninterp spec fn toml_document(bytes: Seq<u8>) -> Option<serde_json::Value>;

/// The bytes that hold `document` as JSON text, if it can be written so.
pub uninterp spec fn json_bytes(document: serde_json::Value) -> Option<Seq<u8>>;

/// The bytes that hold `document` as YAML text, if it can be written so.
pub uninterp spec fn yaml_bytes(document: serde_json::Value) -> Option<Seq<u8>>;

/// The bytes that hold `document` as CBOR, if it can be written so.
pub uninterp spec fn cbor_bytes(document: serde_json::Value) -> Option<Seq<u8>>;

/// The bytes that hold `document` as TOML text, if it can be written so.
pub uninterp spec fn toml_bytes(document: serde_json::Value) -> Option<Seq<u8>>;

/// `serde_json::from_slice`, read as a document: the result depends on the
/// bytes alone. A failure is handed on as its message.
#[verifier::external_body]
fn json_from_slice(bytes: &[u8]) -> (r: Result<serde_json::Value, String>)
    ensures
        r is Ok <==> json_document(bytes@) is Some,
        r matches Ok(d) ==> Some(d) == json_document(bytes@),
{
    serde_json::from_slice(bytes).map_err(|e| e.to_string())
}

/// `serde_yaml::from_slice`, read as a document: the result depends on the
/// bytes alone. A failure is handed on as its message.
#[verifier::external_body]
fn yaml_from_slice(bytes: &[u8]) -> (r: Result<serde_json::Value, String>)
    ensures
        r is Ok <==> yaml_document(bytes@) is Some,
        r matches Ok(d) ==> Some(d) == yaml_document(bytes@),
{
    serde_yaml::from_slice(bytes).map_err(|e| e.to_string())
}

/// `serde_cbor::from_slice`, read as a document: the result depends on the
/// bytes alone. A failure is handed on as its message.
#[verifier::external_body]
fn cbor_from_slice(bytes: &[u8]) -> (r: Result<serde_json::Value, String>)
    ensures
        r is Ok <==> cbor_document(bytes@) is Some,
        r matches Ok(d) ==> Some(d) == cbor_document(bytes@),
{
    serde_cbor::from_slice(bytes).map_err(|e| e.to_string())
}

/// `toml::from_slice`, read as a document: the result depends on the bytes
/// alone. A failure is handed on as its message.
#[verifier::external_body]
fn toml_from_slice(bytes: &[u8]) -> (r: Result<serde_json::Value, String>)
    ensures
        r is Ok <==> toml_document(bytes@) is Some,
        r matches Ok(d) ==> Some(d) == toml_document(bytes@),
{
    toml::from_slice(bytes).map_err(|e| e.to_string())
}

/// `serde_json::to_vec` of a document: the result depends on the document
/// alone. A failure is handed on as its message.
#[verifier::external_body]
fn json_to_vec(document: &serde_json::Value) -> (r: Result<Vec<u8>, String>)
    ensures
        r is Ok <==> json_bytes(*document) is Some,
        r matches Ok(bytes) ==> Some(bytes@) == json_bytes(*document),
{
    serde_json::to_vec(document).map_err(|e| e.to_string())
}

/// `serde_yaml::to_vec` of a document: the result depends on the document
/// alone. A failure is handed on as its message.
#[verifier::external_body]
fn yaml_to_vec(document: &serde_json::Value) -> (r: Result<Vec<u8>, String>)
    ensures
        r is Ok <==> yaml_bytes(*document) is Some,
        r matches Ok(bytes) ==> Some(bytes@) == yaml_bytes(*document),
{
    serde_yaml::to_vec(document).map_err(|e| e.to_string())
}

/// `serde_cbor::to_vec` of a document: the result depends on the document
/// alone. A failure is handed on as its message.
#[verifier::external_body]
fn cbor_to_vec(document: &serde_json::Value) -> (r: Result<Vec<u8>, String>)
    ensures
        r is Ok <==> cbor_bytes(*document) is Some,
        r matches Ok(bytes) ==> Some(bytes@) == cbor_bytes(*document),
{
    serde_cbor::to_vec(document).map_err(|e| e.to_string())
}

/// `toml::to_vec` of a document: the result depends on the document
/// alone. A failure is handed on as its message.
#[verifier::external_body]
fn toml_to_vec(document: &serde_json::Value) -> (r: Result<Vec<u8>, String>)
    ensures
        r is Ok <==> toml_bytes(*document) is Some,
        r matches Ok(bytes) ==> Some(bytes@) == toml_bytes(*document),
{
    toml::to_vec(document).map_err(|e| e.to_string())
}

/// The document that `bytes` hold in `format`, if they hold one.
pub open spec fn document_in(format: DockerIOFormat, bytes: Seq<u8>) -> Option<serde_json::Value> {
    match format {
        DockerIOFormat::Json => json_document(bytes),
        DockerIOFormat::Yaml => yaml_document(bytes),
        DockerIOFormat::Cbor => cbor_document(bytes),
        DockerIOFormat::Toml => toml_document(bytes),
    }
}

/// The bytes that hold `document` in `format`, if it can be written so.
pub open spec fn encoded_in(format: DockerIOFormat, document: serde_json::Value) -> Option<Seq<u8>> {
    match format {
        DockerIOFormat::Json => json_bytes(document),
        DockerIOFormat::Yaml => yaml_bytes(document),
        DockerIOFormat::Cbor => cbor_bytes(document),
        DockerIOFormat::Toml => toml_bytes(document),
    }
}

impl DockerIOFormat {
    /// Encodes `value` in this format: the bytes that hold it, or an error
    /// of kind `Serialization` where the format cannot hold it.
    pub fn to_vec(&self, value: &serde_json::Value) -> (r: Result<Vec<u8>, Error>)
        ensures
            r is Ok <==> encoded_in(*self, *value) is Some,
            r matches Ok(bytes) ==> Some(bytes@) == encoded_in(*self, *value),
            r matches Err(e) ==> e.kind == ErrorKind::Serialization,
    {
        match self {
            DockerIOFormat::Json => match json_to_vec(value) {
                Ok(bytes) => Ok(bytes),
                Err(e) => Err(Error::new(e, ErrorKind::Serialization)),
            },
            DockerIOFormat::Yaml => match yaml_to_vec(value) {
                Ok(bytes) => Ok(bytes),
                Err(e) => Err(Error::new(e, ErrorKind::Serialization)),
            },
            DockerIOFormat::Cbor => match cbor_to_vec(value) {
                Ok(bytes) => Ok(bytes),
                Err(e) => Err(Error::new(e, ErrorKind::Serialization)),
            },
            DockerIOFormat::Toml => match toml_to_vec(value) {
                Ok(bytes) => Ok(bytes),
                Err(e) => Err(Error::new(e, ErrorKind::Serialization)),
            },
        }
    }

    /// Decodes `slice` in this format: the document it holds, or an error of
    /// kind `Deserialization` where it holds none.
    pub fn from_slice(&self, slice: &[u8]) -> (r: Result<serde_json::Value, Error>)
        ensures
            r is Ok <==> document_in(*self, slice@) is Some,
            r matches Ok(d) ==> Some(d) == document_in(*self, slice@),
            r matches Err(e) ==> e.kind == ErrorKind::Deserialization,
    {
        match self {
            DockerIOFormat::Json => match json_from_slice(slice) {
                Ok(d) => Ok(d),
                Err(e) => Err(Error::new(e, ErrorKind::Deserialization)),
            },
            DockerIOFormat::Yaml => match yaml_from_slice(slice) {
                Ok(d) => Ok(d),
                Err(e) => Err(Error::new(e, ErrorKind::Deserialization)),
            },
            DockerIOFormat::Cbor => match cbor_from_slice(slice) {
                Ok(d) => Ok(d),
                Err(e) => Err(Error::new(e, ErrorKind::Deserialization)),
            },
            DockerIOFormat::Toml => match toml_from_slice(slice) {
                Ok(d) => Ok(d),
                Err(e) => Err(Error::new(e, ErrorKind::Deserialization)),
            },
        }
    }
}

} // verus!
