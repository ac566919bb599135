use crate::paths::{extension, extension_of};
use vstd::prelude::*;

verus! {

/// Media types and name of each file type that `file_type` registers for an
/// extension, in the crate's order.
pub uninterp spec fn file_types_of(ext: Seq<char>) -> Seq<(Seq<Seq<char>>, Seq<char>)>;

pub open spec fn description_views(d: Seq<(Vec<String>, String)>) -> Seq<(Seq<Seq<char>>, Seq<char>)> {
    d.map_values(|t: (Vec<String>, String)| (crate::media::views_of(t.0@), t.1@))
}

/// Relies on file_type::FileType::from_extension, a lookup in the crate's
/// static table (empty when the extension is unknown); each type found is
/// handed out as its `media_types()` and its `name()`.
#[verifier::external_body]
fn registered_file_types(ext: &str) -> (r: Vec<(Vec<String>, String)>)
    ensures
        description_views(r@) == file_types_of(ext@),
{
    file_type::FileType::from_extension(ext)
        .iter()
        .map(|t| (t.media_types().iter().map(|m| m.to_string()).collect(), t.name().to_string()))
        .collect()
}

/// The label of the first type: its first media type, or its name when it
/// has none; `None` when there is no type.
pub open spec fn label_spec(d: Seq<(Seq<Seq<char>>, Seq<char>)>) -> Option<Seq<char>> {
    if d.len() == 0 {
        None
    } else if d[0].0.len() > 0 {
        Some(d[0].0[0])
    } else {
        Some(d[0].1)
    }
}

/// Picks the label of the first registered type.
pub fn label_of(types: &Vec<(Vec<String>, String)>) -> (r: Option<String>)
    ensures
        r is Some <==> label_spec(description_views(types@)) is Some,
        r is Some ==> r->0@ == label_spec(description_views(types@))->0,
{
    if types.len() == 0 {
        return None;
    }
    let first = &types[0];
    assert(description_views(types@)[0] == (crate::media::views_of(first.0@), first.1@));
    if first.0.len() > 0 {
        Some(first.0[0].clone())
    } else {
        Some(first.1.clone())
    }
}

/// The file types registered for the text after the last `.` of a path.
pub fn file_types_for(file_path: &str) -> (r: Vec<(Vec<String>, String)>)
    ensures
        description_views(r@) == file_types_of(extension_of(file_path@)),
{
    registered_file_types(extension(file_path))
}

/// The media type of a file judged by the text after its last `.`: the first
/// media type of the first registered type, or that type's name. Some type
/// must be registered for the extension.
pub fn get_file_type_with_extension(file_path: &str) -> (r: String)
    requires
        file_types_of(extension_of(file_path@)).len() > 0,
    ensures
        r@ == label_spec(file_types_of(extension_of(file_path@)))->0,
{
    let types = file_types_for(file_path);
    match label_of(&types) {
        Some(label) => label,
        None => {
            assert(false);
            String::new()
        },
    }
}

/// The media type of a file as `get_file_type_with_extension` gives it, or
/// `None` when no type is registered for its extension.
pub fn file_type_if_known(file_path: &str) -> (r: Option<String>)
    ensures
        r is None <==> file_types_of(extension_of(file_path@)).len() == 0,
        r is Some ==> r->0@ == label_spec(file_types_of(extension_of(file_path@)))->0,
{
    let types = file_types_for(file_path);
    if types.len() == 0 {
        None
    } else {
        Some(get_file_type_with_extension(file_path))
    }
}

} // verus!
