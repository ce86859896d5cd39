//! The bundle configuration overlay handed to the Tauri build: the
//! downloader's sidecar programs are added to `bundle.externalBin` of the
//! configuration text the build inherited, keeping everything else.
use crate::text::{concat2, owned, str_eq, trim, trimmed_whitespace, chars_of, views_of_strings};
use vstd::prelude::*;

verus! {

/// The configuration section that lists bundled files.
pub const BUNDLE_KEY: &'static str = "bundle";

/// The field of that section that lists the sidecar programs.
pub const EXTERNAL_BIN_KEY: &'static str = "externalBin";

/// The configuration used when none was inherited.
pub const EMPTY_CONFIG: &'static str = "{}";

/// What a configuration holds at `section.field`, as far as the merge reads
/// it.
#[derive(Debug)]
pub enum ExternalBinsField {
    /// The configuration is not a JSON object.
    RootNotObject,
    /// The section is there but is not an object.
    SectionNotObject,
    /// Neither the section nor the field is there.
    Absent,
    /// The field is there but is not an array.
    NotArray,
    /// The field's entries in order: the text of each string entry, `None`
    /// for an entry that is not a string.
    Entries(Vec<Option<String>>),
}

/// [`ExternalBinsField`] as plain values.
pub enum ExternalBinsModel {
    RootNotObject,
    SectionNotObject,
    Absent,
    NotArray,
    Entries(Seq<Option<Seq<char>>>),
}

pub open spec fn opt_string_view(o: Option<String>) -> Option<Seq<char>> {
    match o {
        Some(s) => Some(s@),
        None => None,
    }
}

/// The entries of an array field as plain values.
pub open spec fn entries_model(v: Seq<Option<String>>) -> Seq<Option<Seq<char>>> {
    v.map_values(|o: Option<String>| opt_string_view(o))
}

/// The texts of entries that are all strings.
pub open spec fn entry_names(es: Seq<Option<Seq<char>>>) -> Seq<Seq<char>> {
    es.map_values(|o: Option<Seq<char>>| o->0)
}

pub open spec fn external_bins_model(f: ExternalBinsField) -> ExternalBinsModel {
    match f {
        ExternalBinsField::RootNotObject => ExternalBinsModel::RootNotObject,
        ExternalBinsField::SectionNotObject => ExternalBinsModel::SectionNotObject,
        ExternalBinsField::Absent => ExternalBinsModel::Absent,
        ExternalBinsField::NotArray => ExternalBinsModel::NotArray,
        ExternalBinsField::Entries(v) => ExternalBinsModel::Entries(entries_model(v@)),
    }
}

/// What `serde_json::from_str::<serde_json::Value>(raw)` gives, read at
/// `section.field`: the parse error's text, or what is there.
pub uninterp spec fn json_field_at(raw: Seq<char>, section: Seq<char>, field: Seq<char>) -> Result<
    ExternalBinsModel,
    Seq<char>,
>;

/// Parses `raw` with `serde_json::from_str::<serde_json::Value>` and reports
/// what the value holds at `section.field` (see [`ExternalBinsField`]); a
/// parse error gives its `Display` text.
#[verifier::external_body]
fn read_field(raw: &str, section: &str, field: &str) -> (res: Result<ExternalBinsField, String>)
    ensures
        match res {
            Ok(f) => json_field_at(raw@, section@, field@) == Ok::<ExternalBinsModel, Seq<char>>(
                external_bins_model(f),
            ),
            Err(e) => json_field_at(raw@, section@, field@) == Err::<ExternalBinsModel, Seq<char>>(e@),
        },
{
    let value = serde_json::from_str::<serde_json::Value>(raw).map_err(|e| e.to_string())?;
    let Some(root) = value.as_object() else { return Ok(ExternalBinsField::RootNotObject) };
    let found = match root.get(section).map(|s| s.as_object()) {
        None => None,
        Some(None) => return Ok(ExternalBinsField::SectionNotObject),
        Some(Some(s)) => s.get(field),
    };
    Ok(match found {
        None => ExternalBinsField::Absent,
        Some(serde_json::Value::Array(v)) => ExternalBinsField::Entries(
            v.iter().map(|x| x.as_str().map(str::to_string)).collect(),
        ),
        Some(_) => ExternalBinsField::NotArray,
    })
}

/// What parsing `raw` with `serde_json`, setting `section.field` to the
/// array of `values` (creating the section as an empty object when it is
/// missing), and `serde_json::to_string` give: the text, or the error's text.
pub uninterp spec fn json_with_field(
    raw: Seq<char>,
    section: Seq<char>,
    field: Seq<char>,
    values: Seq<Seq<char>>,
) -> Result<Seq<char>, Seq<char>>;

/// Parses `raw` into a `serde_json::Value`, sets `section.field` to the
/// string array `values` (the section is created as an empty object when it
/// is missing) and writes the value with `serde_json::to_string`. A parse or
/// serialisation error, or a root or section that is not an object, gives an
/// error text.
#[verifier::external_body]
fn write_field(raw: &str, section: &str, field: &str, values: &Vec<String>) -> (res: Result<String, String>)
    ensures
        match res {
            Ok(t) => json_with_field(raw@, section@, field@, views_of_strings(values@)) == Ok::<
                Seq<char>,
                Seq<char>,
            >(t@),
            Err(e) => json_with_field(raw@, section@, field@, views_of_strings(values@)) == Err::<
                Seq<char>,
                Seq<char>,
            >(e@),
        },
{
    let mut value = serde_json::from_str::<serde_json::Value>(raw).map_err(|e| e.to_string())?;
    let root = value.as_object_mut().ok_or_else(String::new)?;
    let empty = || serde_json::Value::Object(serde_json::Map::new());
    let section = root.entry(section).or_insert_with(empty).as_object_mut().ok_or_else(String::new)?;
    section.insert(field.to_string(), serde_json::Value::from(values.clone()));
    serde_json::to_string(&value).map_err(|e| e.to_string())
}

/// The names after merging: the existing ones in their order, then each added
/// name that is not yet there, in its order.
pub open spec fn merged_bins(existing: Seq<Seq<char>>, added: Seq<Seq<char>>) -> Seq<Seq<char>>
    decreases added.len(),
{
    if added.len() == 0 {
        existing
    } else {
        let prev = merged_bins(existing, added.drop_last());
        if prev.contains(added.last()) {
            prev
        } else {
            prev.push(added.last())
        }
    }
}

/// The views of a slice of string slices.
pub open spec fn str_views(s: Seq<&str>) -> Seq<Seq<char>> {
    s.map_values(|x: &str| x@)
}

fn contains_name(names: &Vec<String>, name: &str) -> (b: bool)
    ensures
        b == views_of_strings(names@).contains(name@),
{
    let mut i: usize = 0;
    while i < names.len()
        invariant
            i <= names@.len(),
            forall|j: int| 0 <= j < i ==> names@[j]@ != name@,
        decreases names@.len() - i,
    {
        if str_eq(names[i].as_str(), name) {
            assert(views_of_strings(names@)[i as int] == name@);
            return true;
        }
        i += 1;
    }
    proof {
        if views_of_strings(names@).contains(name@) {
            let j = choose|j: int| 0 <= j < names@.len() && views_of_strings(names@)[j] == name@;
            assert(names@[j]@ == name@);
        }
    }
    false
}

/// Appends to `existing` each added name it does not hold yet, in order.
pub fn merged_external_bins(existing: Vec<String>, added: &[&str]) -> (m: Vec<String>)
    ensures
        views_of_strings(m@) == merged_bins(views_of_strings(existing@), str_views(added@)),
{
    let mut m = existing;
    let ghost start = views_of_strings(m@);
    let mut i: usize = 0;
    while i < added.len()
        invariant
            i <= added@.len(),
            views_of_strings(m@) == merged_bins(start, str_views(added@).take(i as int)),
        decreases added@.len() - i,
    {
        let name = added[i];
        proof {
            let a = str_views(added@);
            assert(a.take(i + 1).drop_last() =~= a.take(i as int));
            assert(a.take(i + 1).last() == name@);
        }
        if !contains_name(&m, name) {
            let ghost before = m@;
            m.push(owned(name));
            proof {
                assert(views_of_strings(m@) =~= views_of_strings(before).push(name@));
            }
        }
        i += 1;
    }
    proof {
        assert(str_views(added@).take(added@.len() as int) =~= str_views(added@));
    }
    m
}

/// The configuration text the merge starts from: the inherited one, or `{}`
/// when none was inherited or it is blank.
pub open spec fn effective_config(existing: Option<Seq<char>>) -> Seq<char> {
    match existing {
        Some(raw) => if trim(raw).len() > 0 {
            raw
        } else {
            EMPTY_CONFIG@
        },
        None => EMPTY_CONFIG@,
    }
}

/// The existing names when the field is usable: absent, or an array of
/// strings.
pub open spec fn usable_bins(f: ExternalBinsModel) -> Option<Seq<Seq<char>>> {
    match f {
        ExternalBinsModel::Absent => Some(Seq::empty()),
        ExternalBinsModel::Entries(es) => if forall|k: int| 0 <= k < es.len() ==> (#[trigger] es[k]) is Some {
            Some(entry_names(es))
        } else {
            None
        },
        _ => None,
    }
}

/// What merging gives for the configuration text `raw` and the names
/// `added`.
pub open spec fn merge_result(raw: Seq<char>, added: Seq<Seq<char>>) -> Result<Seq<char>, Seq<char>> {
    match json_field_at(raw, BUNDLE_KEY@, EXTERNAL_BIN_KEY@) {
        Err(e) => Err("TAURI_CONFIG is not valid JSON: "@ + e),
        Ok(ExternalBinsModel::RootNotObject) => Err("TAURI_CONFIG must be a JSON object."@),
        Ok(ExternalBinsModel::SectionNotObject) => Err("TAURI_CONFIG.bundle must be a JSON object."@),
        Ok(ExternalBinsModel::NotArray) => Err("TAURI_CONFIG.bundle.externalBin must be an array."@),
        Ok(f) => match usable_bins(f) {
            None => Err("TAURI_CONFIG.bundle.externalBin entries must be strings."@),
            Some(existing) => match json_with_field(
                raw,
                BUNDLE_KEY@,
                EXTERNAL_BIN_KEY@,
                merged_bins(existing, added),
            ) {
                Ok(t) => Ok(t),
                Err(e) => Err("Failed to serialize merged TAURI_CONFIG: "@ + e),
            },
        },
    }
}

fn string_entries(entries: Vec<Option<String>>) -> (res: Option<Vec<String>>)
    ensures
        match usable_bins(ExternalBinsModel::Entries(entries_model(entries@))) {
            Some(names) => res matches Some(v) && views_of_strings(v@) == names,
            None => res is None,
        },
{
    let ghost es = entries_model(entries@);
    let mut out: Vec<String> = Vec::new();
    let mut rest = entries;
    let ghost all = rest@;
    let ghost mut i: int = 0;
    proof {
        assert(all.skip(0) =~= all);
    }
    while rest.len() > 0
        invariant
            0 <= i <= all.len(),
            rest@ == all.skip(i),
            es == entries_model(all),
            es == entries_model(entries@),
            forall|k: int| 0 <= k < i ==> (#[trigger] es[k]) is Some,
            views_of_strings(out@) == entry_names(es.take(i)),
        decreases rest@.len(),
    {
        let entry = rest.remove(0);
        proof {
            assert(entry == all[i]);
        }
        match entry {
            Some(name) => {
                let ghost before = out@;
                out.push(name);
                proof {
                    assert(es[i] == Some(name@));
                    assert(views_of_strings(out@) =~= views_of_strings(before).push(name@));
                    assert(entry_names(es.take(i + 1)) =~= entry_names(es.take(i)).push(name@));
                    i = i + 1;
                    assert(rest@ =~= all.skip(i));
                }
            },
            None => {
                proof {
                    assert(i < all.len());
                    assert(es.len() == all.len());
                    assert(es[i] is None);
                    assert(!(forall|k: int| 0 <= k < es.len() ==> (#[trigger] es[k]) is Some));
                    assert(usable_bins(ExternalBinsModel::Entries(es)) is None);
                }
                return None;
            },
        }
    }
    proof {
        assert(es.take(i) =~= es);
    }
    Some(out)
}

/// Adds the sidecar programs `external_bins` to `bundle.externalBin` of the
/// inherited configuration text (`{}` when there is none or it is blank),
/// keeping the names already listed and every other field. A configuration
/// that is not JSON, not an object, or whose `bundle` or `externalBin` has
/// the wrong shape is refused with a message naming the problem.
pub fn merge_external_bins(existing: Option<&str>, external_bins: &[&str]) -> (res: Result<
    String,
    String,
>)
    ensures
        match merge_result(
            effective_config(
                match existing {
                    Some(r) => Some(r@),
                    None => None,
                },
            ),
            str_views(external_bins@),
        ) {
            Ok(t) => res matches Ok(s) && s@ == t,
            Err(m) => res matches Err(s) && s@ == m,
        },
{
    let raw: &str = match existing {
        Some(r) => {
            let t = trimmed_whitespace(chars_of(r).as_slice());
            if t.len() > 0 {
                r
            } else {
                EMPTY_CONFIG
            }
        },
        None => EMPTY_CONFIG,
    };
    let existing_names = match read_field(raw, BUNDLE_KEY, EXTERNAL_BIN_KEY) {
        Err(e) => return Err(concat2("TAURI_CONFIG is not valid JSON: ", e.as_str())),
        Ok(ExternalBinsField::RootNotObject) => return Err(owned("TAURI_CONFIG must be a JSON object.")),
        Ok(ExternalBinsField::SectionNotObject) => return Err(
            owned("TAURI_CONFIG.bundle must be a JSON object."),
        ),
        Ok(ExternalBinsField::NotArray) => return Err(
            owned("TAURI_CONFIG.bundle.externalBin must be an array."),
        ),
        Ok(ExternalBinsField::Absent) => {
            let v: Vec<String> = Vec::new();
            proof {
                assert(views_of_strings(v@) =~= Seq::<Seq<char>>::empty());
            }
            v
        },
        Ok(ExternalBinsField::Entries(entries)) => match string_entries(entries) {
            Some(v) => v,
            None => return Err(owned("TAURI_CONFIG.bundle.externalBin entries must be strings.")),
        },
    };
    let merged = merged_external_bins(existing_names, external_bins);
    match write_field(raw, BUNDLE_KEY, EXTERNAL_BIN_KEY, &merged) {
        Ok(t) => Ok(t),
        Err(e) => Err(concat2("Failed to serialize merged TAURI_CONFIG: ", e.as_str())),
    }
}

/// No name occurs twice.
pub open spec fn no_repeats(s: Seq<Seq<char>>) -> bool {
    forall|i: int, j: int| 0 <= i < j < s.len() ==> s[i] != s[j]
}

proof fn lemma_merged_bins(existing: Seq<Seq<char>>, added: Seq<Seq<char>>)
    ensures
        merged_bins(existing, added).len() >= existing.len(),
        merged_bins(existing, added).take(existing.len() as int) == existing,
        forall|x: Seq<char>|
            #[trigger] merged_bins(existing, added).contains(x) <==> (existing.contains(x) || added.contains(x)),
        forall|j: int|
            existing.len() <= j < merged_bins(existing, added).len() ==> !existing.contains(
                #[trigger] merged_bins(existing, added)[j],
            ),
        no_repeats(existing) ==> no_repeats(merged_bins(existing, added)),
    decreases added.len(),
{
    if added.len() > 0 {
        let rest = added.drop_last();
        let last = added.last();
        lemma_merged_bins(existing, rest);
        let prev = merged_bins(existing, rest);
        assert(added =~= rest.push(last));
        assert forall|x: Seq<char>| added.contains(x) <==> (rest.contains(x) || x == last) by {
            if added.contains(x) {
                let k = choose|k: int| 0 <= k < added.len() && added[k] == x;
                if k < rest.len() {
                    assert(rest[k] == x);
                }
            }
            if rest.contains(x) {
                let k = choose|k: int| 0 <= k < rest.len() && rest[k] == x;
                assert(added[k] == x);
            }
            if x == last {
                assert(added[added.len() - 1] == x);
            }
        }
        if !prev.contains(last) {
            let m = prev.push(last);
            assert(m.take(existing.len() as int) =~= prev.take(existing.len() as int));
            assert forall|x: Seq<char>| m.contains(x) <==> (prev.contains(x) || x == last) by {
                if m.contains(x) {
                    let k = choose|k: int| 0 <= k < m.len() && m[k] == x;
                    if k < prev.len() {
                        assert(prev[k] == x);
                    }
                }
                if prev.contains(x) {
                    let k = choose|k: int| 0 <= k < prev.len() && prev[k] == x;
                    assert(m[k] == x);
                }
                if x == last {
                    assert(m[prev.len() as int] == x);
                }
            }
            assert forall|j: int| existing.len() <= j < m.len() implies !existing.contains(#[trigger] m[j]) by {
                if j < prev.len() {
                    assert(m[j] == prev[j]);
                } else {
                    assert(m[j] == last);
                    assert(!prev.contains(last));
                    if existing.contains(last) {
                        let k = choose|k: int| 0 <= k < existing.len() && existing[k] == last;
                        assert(prev.take(existing.len() as int)[k] == last);
                        assert(prev[k] == last);
                    }
                }
            }
            if no_repeats(existing) {
                assert forall|a: int, b: int| 0 <= a < b < m.len() implies m[a] != m[b] by {
                    if b == prev.len() {
                        assert(m[a] == prev[a]);
                        assert(prev.contains(prev[a]));
                    } else {
                        assert(m[a] == prev[a] && m[b] == prev[b]);
                    }
                }
            }
        }
    }
}

/// Merging keeps the existing names first and in their order, adds only
/// names not already there, ends up holding exactly the existing and the
/// added names, repeats no name when the existing list repeats none, and
/// merging the same names again changes nothing.
pub proof fn law_merge_keeps_existing_names_and_adds_new_ones_once(
    existing: Seq<Seq<char>>,
    added: Seq<Seq<char>>,
)
    ensures
        merged_bins(existing, added).take(existing.len() as int) == existing,
        forall|x: Seq<char>|
            #[trigger] merged_bins(existing, added).contains(x) <==> (existing.contains(x) || added.contains(x)),
        forall|j: int|
            existing.len() <= j < merged_bins(existing, added).len() ==> !existing.contains(
                #[trigger] merged_bins(existing, added)[j],
            ),
        no_repeats(existing) ==> no_repeats(merged_bins(existing, added)),
        merged_bins(merged_bins(existing, added), added) == merged_bins(existing, added),
{
    lemma_merged_bins(existing, added);
    lemma_merge_again(merged_bins(existing, added), added);
}

proof fn lemma_merge_again(m: Seq<Seq<char>>, added: Seq<Seq<char>>)
    requires
        forall|k: int| 0 <= k < added.len() ==> m.contains(#[trigger] added[k]),
    ensures
        merged_bins(m, added) == m,
    decreases added.len(),
{
    if added.len() > 0 {
        let rest = added.drop_last();
        assert forall|k: int| 0 <= k < rest.len() implies m.contains(#[trigger] rest[k]) by {
            assert(rest[k] == added[k]);
        }
        lemma_merge_again(m, rest);
        assert(m.contains(added[added.len() - 1]));
    }
}

} // verus!
