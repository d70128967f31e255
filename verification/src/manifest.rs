//! Reading a package manifest's identity fields out of its JSON text.
use vstd::prelude::*;
use vstd::string::*;

use sonic_rs::JsonValueTrait;

use crate::identity::Package;
use crate::identity::PackageV;

verus! {

/// What looking a top-level field up in a JSON text yields: the field's
/// string value where the text is a JSON object whose field holds a string,
/// and nothing otherwise. A function of the text and the key alone.
pub uninterp spec fn json_string_field(json: Seq<char>, key: Seq<char>) -> Option<Seq<char>>;

/// Relies on `sonic_rs::get_from_str` and `LazyValue::as_str`: looks one
/// top-level field up in a JSON text and returns its unescaped value where
/// that field holds a JSON string; both depend on the text and key alone.
#[verifier::external_body]
fn get_json_string_field(json: &str, key: &str) -> (r: Option<String>)
    ensures
        r.deep_view() == json_string_field(json@, key@),
{
    match sonic_rs::get_from_str(json, [key]) {
        Ok(v) => match v.as_str() {
            Some(s) => Some(s.to_string()),
            None => None,
        },
        Err(_) => None,
    }
}

/// Read a package's identity out of its manifest text: present exactly when
/// both the `name` and the `version` field hold a string.
pub fn load_package_info(content: &str) -> (r: Option<Package>)
    ensures
        r.deep_view() == (match (
            json_string_field(content@, "name"@),
            json_string_field(content@, "version"@),
        ) {
            (Some(n), Some(v)) => Some(PackageV { name: n, version: v }),
            _ => None::<PackageV>,
        }),
{
    let name = get_json_string_field(content, "name");
    let version = get_json_string_field(content, "version");
    match (name, version) {
        (Some(n), Some(v)) => Some(Package::new(n, v)),
        _ => None,
    }
}

} // verus!
