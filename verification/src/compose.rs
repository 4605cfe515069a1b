//! Container-descriptor rewriting: when a module directory is duplicated,
//! every service name inside the duplicate's descriptor gets the occurrence
//! suffix appended, so the duplicate does not collide with the original at
//! the orchestration layer.  The descriptor is a structured document; its
//! service definitions and every other section are preserved.

use vstd::prelude::*;
use crate::error::AppError;

verus! {

/// What serde_yaml finds as the keys of the `section` mapping of `content`:
/// the keys in document order, when `content` parses as a top-level mapping
/// whose `section` entry is a mapping with string keys only; nothing
/// otherwise.
pub uninterp spec fn yaml_section_keys_of(content: Seq<char>, section: Seq<char>) -> Option<
    Seq<Seq<char>>,
>;

/// What serde_yaml finds as the values of the `section` mapping of `content`:
/// each value rendered as a document of its own, in mapping order, under the
/// same conditions as `yaml_section_keys_of`; nothing otherwise.
pub uninterp spec fn yaml_section_value_docs_of(content: Seq<char>, section: Seq<char>) -> Option<
    Seq<Seq<char>>,
>;

/// What serde_yaml finds as the rest of the document: the top-level mapping
/// of `content` with its `section` entry removed, rendered as a document;
/// nothing when `content` does not parse as a top-level mapping.
pub uninterp spec fn yaml_rest_rendered_of(content: Seq<char>, section: Seq<char>) -> Option<
    Seq<char>,
>;

/// Relies on serde_yaml::from_str: parses the document, looks `section` up in
/// the top-level mapping, and hands that mapping's keys back in document
/// order.  serde_yaml rejects a mapping with duplicate keys while parsing, so
/// the keys are distinct.
#[verifier::external_body]
fn yaml_section_keys(content: &str, section: &str) -> (r: Option<Vec<String>>)
    ensures
        (r is Some) == (yaml_section_keys_of(content@, section@) is Some),
        r matches Some(ks) ==> Some(ks.deep_view()) == yaml_section_keys_of(content@, section@)
            && ks.deep_view().no_duplicates(),
{
    let doc: serde_yaml::Value = serde_yaml::from_str(content).ok()?;
    let map = doc.get(section)?.as_mapping()?;
    map.keys().map(|k| Some(k.as_str()?.to_owned())).collect()
}

/// Relies on serde_yaml: parses the document, replaces the keys of the
/// `section` mapping with `names` in order — keeping each associated value
/// and every other top-level entry of the document — and renders the result.
/// Rendering a parsed document and parsing it back yields an equal value
/// (serde_yaml quotes strings that would re-read as another kind), so the
/// rendered document's section keys are exactly `names` when those are
/// distinct, its section values are the input's, in order, and the document
/// outside the section is unchanged.
#[verifier::external_body]
fn yaml_rename_section_keys(content: &str, section: &str, names: &Vec<String>) -> (r: Option<
    String,
>)
    ensures
        (r is Some) == (yaml_section_keys_of(content@, section@) matches Some(ks) && ks.len()
            == names.deep_view().len()),
        r matches Some(out) ==> (names.deep_view().no_duplicates() ==> yaml_section_keys_of(
            out@,
            section@,
        ) == Some(names.deep_view()) && yaml_section_value_docs_of(out@, section@)
            == yaml_section_value_docs_of(content@, section@)),
        r matches Some(out) ==> yaml_rest_rendered_of(out@, section@) == yaml_rest_rendered_of(
            content@,
            section@,
        ),
{
    let mut doc: serde_yaml::Value = serde_yaml::from_str(content).ok()?;
    let slot = doc.get_mut(section)?;
    let old = slot.as_mapping()?.clone();
    if old.len() != names.len() || !old.keys().all(|k| k.is_string()) {
        return None;
    }
    let renamed: serde_yaml::Mapping = names.iter().map(
        |n| serde_yaml::Value::String(n.clone()),
    ).zip(old.into_values()).collect();
    *slot = serde_yaml::Value::Mapping(renamed);
    serde_yaml::to_string(&doc).ok()
}

/// Every name with the suffix appended.
pub open spec fn spec_suffixed(names: Seq<Seq<char>>, suffix: Seq<char>) -> Seq<Seq<char>> {
    names.map_values(|n: Seq<char>| n + suffix)
}

/// Appending one suffix to distinct names keeps them distinct.
proof fn lemma_suffixed_no_duplicates(names: Seq<Seq<char>>, suffix: Seq<char>)
    requires
        names.no_duplicates(),
    ensures
        spec_suffixed(names, suffix).no_duplicates(),
{
    let suffixed = spec_suffixed(names, suffix);
    assert forall|i: int, j: int|
        0 <= i < suffixed.len() && 0 <= j < suffixed.len() && i != j implies suffixed[i]
        != suffixed[j] by {
        assert(suffixed[i] == names[i] + suffix);
        assert(suffixed[j] == names[j] + suffix);
        if names[i] + suffix == names[j] + suffix {
            assert(names[i].len() == names[j].len());
            assert(names[i] =~= names[j]) by {
                assert forall|k: int| 0 <= k < names[i].len() implies names[i][k]
                    == names[j][k] by {
                    assert((names[i] + suffix)[k] == names[i][k]);
                    assert((names[j] + suffix)[k] == names[j][k]);
                }
            }
        }
    }
}

/// Appends the suffix to each name.
fn suffix_names(names: &Vec<String>, suffix: &str) -> (r: Vec<String>)
    ensures
        r.deep_view() == spec_suffixed(names.deep_view(), suffix@),
{
    let mut out: Vec<String> = Vec::new();
    proof {
        assert(out.deep_view() =~~= spec_suffixed(names.deep_view().subrange(0, 0), suffix@));
    }
    let mut i: usize = 0;
    while i < names.len()
        invariant
            i <= names@.len(),
            out.deep_view() == spec_suffixed(names.deep_view().subrange(0, i as int), suffix@),
        decreases names@.len() - i,
    {
        let mut s = names[i].clone();
        s.append(suffix);
        let ghost out_before = out@;
        out.push(s);
        proof {
            assert(Seq::new(out_before.len(), |k: int| out_before[k]@) == spec_suffixed(
                names.deep_view().subrange(0, i as int),
                suffix@,
            ));
            assert(out.deep_view()[i as int] == names.deep_view()[i as int] + suffix@);
            let target = spec_suffixed(names.deep_view().subrange(0, i + 1), suffix@);
            assert forall|k: int| 0 <= k < i + 1 implies out.deep_view()[k] == target[k] by {
                assert(names.deep_view().subrange(0, i + 1)[k] == names.deep_view()[k]);
                assert(target[k] == names.deep_view()[k] + suffix@);
                if k < i {
                    assert(out@[k] == out_before[k]);
                    assert(out.deep_view()[k] == out_before[k]@);
                    assert(out_before[k]@ == Seq::new(out_before.len(), |q: int| out_before[q]@)[k]);
                    assert(names.deep_view().subrange(0, i as int)[k] == names.deep_view()[k]);
                    assert(out.deep_view()[k] == spec_suffixed(
                        names.deep_view().subrange(0, i as int),
                        suffix@,
                    )[k]);
                }
            }
            assert(out.deep_view().len() == i + 1);
            assert(target.len() == i + 1);
            assert(out.deep_view() =~= target);
        }
        i = i + 1;
    }
    proof {
        assert(names.deep_view().subrange(0, names.deep_view().len() as int) =~= names.deep_view());
        assert(out.deep_view() =~~= spec_suffixed(names.deep_view(), suffix@));
    }
    out
}

/// The section of a container descriptor that maps service names to their
/// definitions.
pub open spec fn spec_services_section() -> Seq<char> {
    "services"@
}

/// Rewrites every service name of the container descriptor by appending the
/// suffix, preserving each service definition and every other section.
/// Fails exactly when the descriptor does not parse as a document with a
/// service mapping.
pub fn modify_service_names(content: &str, suffix: &str) -> (r: Result<String, AppError>)
    ensures
        (r is Ok) == (yaml_section_keys_of(content@, spec_services_section()) is Some),
        r matches Ok(out) ==> (yaml_section_keys_of(content@, spec_services_section())
            matches Some(ks) && yaml_section_keys_of(out@, spec_services_section()) == Some(
            spec_suffixed(ks, suffix@),
        )),
        r matches Ok(out) ==> (yaml_section_value_docs_of(out@, spec_services_section())
            == yaml_section_value_docs_of(content@, spec_services_section())
            && yaml_rest_rendered_of(out@, spec_services_section()) == yaml_rest_rendered_of(
            content@,
            spec_services_section(),
        )),
        r matches Err(e) ==> (e matches AppError::InvalidConfig(s) && s@
            == "Failed to deserialize YAML"@),
{
    let keys = match yaml_section_keys(content, "services") {
        Some(ks) => ks,
        None => {
            return Err(AppError::InvalidConfig(String::from_str("Failed to deserialize YAML")));
        },
    };
    let renamed = suffix_names(&keys, suffix);
    proof {
        lemma_suffixed_no_duplicates(keys.deep_view(), suffix@);
    }
    match yaml_rename_section_keys(content, "services", &renamed) {
        Some(out) => Ok(out),
        None => {
            proof {
                assert(false);
            }
            Err(AppError::InvalidConfig(String::from_str("Failed to deserialize YAML")))
        },
    }
}

} // verus!
