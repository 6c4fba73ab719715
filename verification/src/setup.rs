//! What the set-up of a data source checks of what is typed in.

use vstd::prelude::*;
use crate::agent::texts_view;
use crate::text::{
    compile_pattern,
    joined_with,
    pattern_compiles,
    pattern_matches,
    regex_is_match,
    split_at_commas,
    trim,
    trimmed,
};

verus! {

/// The pattern of the name of a data source: one or more letters of the
/// English alphabet, digits, hyphens and underscores, and nothing else.
pub open spec fn data_source_name_pattern() -> Seq<char> {
    "^[a-zA-Z0-9_-]+$"@
}

/// Whether a text can be the name of a data source: it can where the pattern
/// of such names matches it.
pub open spec fn is_data_source_name(name: Seq<char>) -> bool {
    pattern_compiles(data_source_name_pattern()) && pattern_matches(
        data_source_name_pattern(),
        name,
    )
}

/// Whether a text can be the name of a data source.
pub fn is_valid_data_source_name(name: &str) -> (r: bool)
    ensures
        r == is_data_source_name(name@),
{
    match compile_pattern("^[a-zA-Z0-9_-]+$") {
        Ok(re) => regex_is_match(&re, name),
        Err(_) => false,
    }
}

/// The pieces among `pieces` that are not empty once the white space at
/// their ends is taken off, without that white space, in order.
pub open spec fn kept_paths(pieces: Seq<Seq<char>>) -> Seq<Seq<char>>
    decreases pieces.len(),
{
    if pieces.len() == 0 {
        Seq::empty()
    } else if trimmed(pieces.last()).len() == 0 {
        kept_paths(pieces.drop_last())
    } else {
        kept_paths(pieces.drop_last()).push(trimmed(pieces.last()))
    }
}

/// Whether `paths` are the paths that a text with commas names: the parts
/// of the text between the commas, without the white space at their ends, and
/// without those of which nothing is left.
pub open spec fn are_model_paths(input: Seq<char>, paths: Seq<Seq<char>>) -> bool {
    exists|pieces: Seq<Seq<char>>|
        {
            &&& joined_with(pieces, ',') == input
            &&& forall|i: int| 0 <= i < pieces.len() ==> !(#[trigger] pieces[i]).contains(',')
            &&& paths == kept_paths(pieces)
        }
}

/// The paths that a text with commas names.
pub fn split_model_paths(input: &str) -> (r: Vec<String>)
    ensures
        are_model_paths(input@, texts_view(r@)),
{
    let pieces = split_at_commas(input);
    let ghost views = pieces@.map_values(|s: String| s@);
    let mut paths: Vec<String> = Vec::new();
    let mut i: usize = 0;
    assert(views.take(0) =~= Seq::empty());
    assert(texts_view(paths@) =~= Seq::empty());
    while i < pieces.len()
        invariant
            i <= pieces.len(),
            views == pieces@.map_values(|s: String| s@),
            texts_view(paths@) == kept_paths(views.take(i as int)),
        decreases pieces.len() - i,
    {
        let piece = trim(pieces[i].as_str());
        proof {
            let next = views.take(i as int + 1);
            assert(next.drop_last() =~= views.take(i as int));
            assert(next.last() == pieces@[i as int]@);
        }
        let ghost before = texts_view(paths@);
        if !piece.is_empty() {
            let owned = piece.to_owned();
            paths.push(owned);
            assert(texts_view(paths@) =~= before.push(piece@));
        }
        i = i + 1;
    }
    proof {
        assert(views.take(i as int) =~= views);
        assert forall|k: int| 0 <= k < views.len() implies !(#[trigger] views[k]).contains(
            ',',
        ) by {
            assert(views[k] == pieces@[k]@);
        }
    }
    paths
}

/// The model paths that a set-up keeps of what was typed in: none where
/// nothing but white space was typed.
pub fn model_paths_of_setup(input: &str) -> (r: Option<Vec<String>>)
    ensures
        match r {
            Some(paths) => trimmed(input@).len() > 0 && are_model_paths(
                input@,
                texts_view(paths@),
            ),
            None => trimmed(input@).len() == 0,
        },
{
    if trim(input).is_empty() {
        None
    } else {
        Some(split_model_paths(input))
    }
}

/// The model paths that the generate command keeps of what was typed in:
/// none where nothing was typed, or nothing is left of it.
pub fn model_paths_of_generate(input: &str) -> (r: Option<Vec<String>>)
    ensures
        match r {
            Some(paths) => paths@.len() > 0 && are_model_paths(input@, texts_view(paths@)),
            None => input@.len() == 0 || are_model_paths(input@, Seq::empty()),
        },
{
    if input.is_empty() {
        None
    } else {
        let paths = split_model_paths(input);
        if paths.len() == 0 {
            assert(texts_view(paths@) =~= Seq::empty());
            None
        } else {
            Some(paths)
        }
    }
}

} // verus!
