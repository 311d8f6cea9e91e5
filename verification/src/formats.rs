//! Item data read from and written as TOML and JSON text, through the serde
//! crates and ciborium's value type.
use vstd::prelude::*;
use crate::error::{MizeError, MizeResult};
use crate::value::{Cbor, CborValue};
use crate::item::ItemData;
use ciborium::Value as Cv;
use ciborium::value::Integer as CvInteger;
use crate::value::CborValue as Cb;

verus! {

#[verifier::external_type_specification]
#[verifier::external_body]
pub struct ExCiboriumValue(ciborium::Value);

/// The value that TOML text reads as, by way of ciborium's value type;
/// `None` where the text is no TOML document.
pub uninterp spec fn toml_cbor(text: Seq<char>) -> Option<Cbor>;

/// The value that JSON text reads as, by way of ciborium's value type;
/// `None` where the text is no JSON value.
pub uninterp spec fn json_cbor(text: Seq<char>) -> Option<Cbor>;

/// The JSON text that a value is written as, by way of ciborium's value
/// type; `None` where serde_json cannot write it.
pub uninterp spec fn cbor_json(value: Cbor) -> Option<Seq<char>>;

/// A value of ciborium as a value of the library, one variant for one
/// (floats by their bits; the kinds ciborium may add later become `Null`).
#[verifier::external_body]
fn from_ciborium(v: ciborium::Value) -> Cb {
    match v {
        Cv::Integer(i) => Cb::Integer(i128::from(i)),
        Cv::Bytes(b) => Cb::Bytes(b),
        Cv::Float(f) => Cb::Float(f.to_bits()),
        Cv::Text(t) => Cb::Text(t),
        Cv::Bool(b) => Cb::Bool(b),
        Cv::Tag(t, inner) => Cb::Tag(t, Box::new(from_ciborium(*inner))),
        Cv::Array(a) => Cb::Array(a.into_iter().map(from_ciborium).collect()),
        Cv::Map(m) => Cb::Mapping(m.into_iter().map(|(k, v)| (from_ciborium(k), from_ciborium(v))).collect()),
        _ => Cb::Null,
    }
}

/// The float value of ciborium whose bits are `bits`: read back from the
/// CBOR encoding of a double, which is its bits after the head byte.
#[verifier::external_body]
fn float_value(bits: u64) -> Cv {
    ciborium::from_reader([&[0xfbu8][..], &bits.to_be_bytes()[..]].concat().as_slice()).unwrap_or(Cv::Null)
}

/// A value of the library as a value of ciborium, one variant for one
/// (an integer outside ciborium's range becomes `Null`; a float is made
/// from its bits).
#[verifier::external_body]
fn to_ciborium(v: &Cb) -> ciborium::Value {
    match v {
        Cb::Integer(i) => CvInteger::try_from(*i).map_or(Cv::Null, Cv::Integer),
        Cb::Bytes(b) => Cv::Bytes(b.clone()),
        Cb::Float(bits) => float_value(*bits),
        Cb::Text(t) => Cv::Text(t.clone()),
        Cb::Bool(b) => Cv::Bool(*b),
        Cb::Null => Cv::Null,
        Cb::Tag(t, inner) => Cv::Tag(*t, to_ciborium(inner).into()),
        Cb::Array(a) => Cv::Array(a.iter().map(to_ciborium).collect()),
        Cb::Mapping(m) => Cv::Map(m.iter().map(|(k, v)| (to_ciborium(k), to_ciborium(v))).collect()),
    }
}


impl ItemData {
    /// Item data from a TOML document.
    ///
    /// Wraps `toml::Deserializer` with ciborium's `Value::deserialize`; the
    /// result, or whether the text is a TOML document at all, is a function
    /// of the text alone, named `toml_cbor`.
    #[verifier::external_body]
    pub fn from_toml(toml_string: &str) -> (r: MizeResult<ItemData>)
        ensures
            match r {
                Ok(d) => toml_cbor(toml_string@) == Some(d@),
                Err(_) => toml_cbor(toml_string@) is None,
            },
    {
        match <ciborium::Value as serde::Deserialize>::deserialize(toml::Deserializer::new(toml_string)) {
            Ok(v) => Ok(ItemData(from_ciborium(v))),
            Err(e) => Err(MizeError::new().msg(&format!("Could not deserialize the toml string: {}: {}", toml_string, e))),
        }
    }

    /// Item data from JSON text.
    ///
    /// Wraps `serde_json::Deserializer` with ciborium's `Value::deserialize`;
    /// the result, or whether the text is JSON at all, is a function of the
    /// text alone, named `json_cbor`.
    #[verifier::external_body]
    pub fn from_json(json_str: String) -> (r: MizeResult<ItemData>)
        ensures
            match r {
                Ok(d) => json_cbor(json_str@) == Some(d@),
                Err(_) => json_cbor(json_str@) is None,
            },
    {
        let mut deserializer = serde_json::Deserializer::from_str(json_str.as_str());
        match <ciborium::Value as serde::Deserialize>::deserialize(&mut deserializer) {
            Ok(v) => Ok(ItemData(from_ciborium(v))),
            Err(e) => Err(MizeError::new().msg(&format!("could not deserialize the json string: {}: {}", json_str, e))),
        }
    }

    /// This data as JSON text.
    ///
    /// Wraps `serde_json::to_string` on ciborium's value type; the text, or
    /// whether the data can be written at all, is a function of the data
    /// alone, named `cbor_json`.
    #[verifier::external_body]
    pub fn to_json(&self) -> (r: MizeResult<String>)
        ensures
            match r {
                Ok(t) => cbor_json(self@) == Some(t@),
                Err(_) => cbor_json(self@) is None,
            },
    {
        match serde_json::to_string(&to_ciborium(&self.0)) {
            Ok(t) => Ok(t),
            Err(e) => Err(MizeError::code(108).msg(&format!("{}", e))),
        }
    }
}

} // verus!
