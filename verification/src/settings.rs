//! Stored settings: for each submenu id the values of its toggles, as a
//! list of entries and as JSON text.

use std::collections::BTreeMap;
use vstd::prelude::*;

verus! {

/// What a list of entries is, mathematically: ids and values as sequences.
pub open spec fn settings_view(settings: Seq<(String, Vec<u8>)>) -> Seq<(Seq<char>, Seq<u8>)> {
    settings.map_values(|entry: (String, Vec<u8>)| (entry.0@, entry.1@))
}

/// The values of the first entry of `settings` whose id is `id`.
pub open spec fn find_setting(settings: Seq<(Seq<char>, Seq<u8>)>, id: Seq<char>) -> Option<Seq<u8>>
    decreases settings.len(),
{
    if settings.len() == 0 {
        None
    } else if settings.first().0 == id {
        Some(settings.first().1)
    } else {
        find_setting(settings.drop_first(), id)
    }
}

/// Entries whose id is not `id` can be skipped in the search for `id`.
pub proof fn lemma_find_setting_skip(settings: Seq<(Seq<char>, Seq<u8>)>, id: Seq<char>, n: int)
    requires
        0 <= n <= settings.len(),
        forall|i: int| 0 <= i < n ==> (#[trigger] settings[i]).0 != id,
    ensures
        find_setting(settings, id) == find_setting(settings.skip(n), id),
    decreases n,
{
    if n == 0 {
        assert(settings.skip(0) =~= settings);
    } else {
        lemma_find_setting_skip(settings.drop_first(), id, n - 1);
        assert(settings.drop_first().skip(n - 1) =~= settings.skip(n));
    }
}

/// The values that `settings` hold for the submenu `id`: those of the first
/// entry with that id.
pub fn lookup<'s>(settings: &'s Vec<(String, Vec<u8>)>, id: &str) -> (out: Option<&'s Vec<u8>>)
    ensures
        out is Some <==> find_setting(settings_view(settings@), id@) is Some,
        out matches Some(values) ==> find_setting(settings_view(settings@), id@) == Some(values@),
{
    let key: String = id.to_owned();
    let mut i: usize = 0;
    while i < settings.len()
        invariant
            i <= settings.len(),
            key@ == id@,
            forall|j: int| 0 <= j < i ==> (#[trigger] settings_view(settings@)[j]).0 != id@,
        decreases settings.len() - i,
    {
        if settings[i].0 == key {
            proof {
                let all = settings_view(settings@);
                lemma_find_setting_skip(all, id@, i as int);
            }
            return Some(&settings[i].1);
        }
        i += 1;
    }
    proof {
        let all = settings_view(settings@);
        lemma_find_setting_skip(all, id@, i as int);
    }
    None
}

/// What the JSON text `json` says as settings: the entries of the object it
/// holds, one for each key and in the order of the keys, where the text is
/// an object whose values are all lists of bytes; `None` for any other text.
pub uninterp spec fn json_settings(json: Seq<char>) -> Option<Seq<(Seq<char>, Seq<u8>)>>;

/// The error of `serde_json::from_str`, handed on unread.
#[verifier::external_type_specification]
#[verifier::external_body]
pub struct ExJsonError(serde_json::Error);

/// Why a text was not taken as settings.
#[derive(Debug, Eq, PartialEq, Clone, Copy, Structural)]
pub enum SettingsError {
    /// The text is no JSON object of byte lists.
    Json,
}

/// Calls `serde_json::from_str` to read `json` as a map from strings to
/// lists of bytes, and lists the map's entries in the order of its keys.
/// Believed, not proved: what comes back is a function of the text alone,
/// which `json_settings` names; an error stands for a text that is no such
/// map.
#[verifier::external_body]
fn read_json(json: &str) -> (out: Result<Vec<(String, Vec<u8>)>, serde_json::Error>)
    ensures
        out matches Ok(settings) ==> json_settings(json@) == Some(settings_view(settings@)),
        out is Err ==> json_settings(json@) is None,
{
    match serde_json::from_str::<BTreeMap<String, Vec<u8>>>(json) {
        Ok(map) => Ok(map.into_iter().collect()),
        Err(error) => Err(error),
    }
}

/// Reads `json` as settings.
pub fn parse_settings(json: &str) -> (out: Result<Vec<(String, Vec<u8>)>, SettingsError>)
    ensures
        out matches Ok(settings) ==> json_settings(json@) == Some(settings_view(settings@)),
        out matches Err(error) ==> json_settings(json@) is None && error == SettingsError::Json,
{
    match read_json(json) {
        Ok(settings) => Ok(settings),
        Err(_) => Err(SettingsError::Json),
    }
}

} // verus!
