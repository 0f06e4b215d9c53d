//! Paths, and the texts by which the database knows them.

use vstd::prelude::*;
use std::path::PathBuf;
use crate::workspace::texts;

verus! {

/// `std::path::PathBuf`, an owned path.
#[verifier::external_type_specification]
#[verifier::external_body]
pub struct ExPathBuf(std::path::PathBuf);

/// The text of a path, in which U+FFFD stands for what is not Unicode.
pub uninterp spec fn path_text(path: PathBuf) -> Seq<char>;

/// The texts of a list of paths.
pub open spec fn path_texts(paths: Seq<PathBuf>) -> Seq<Seq<char>> {
    paths.map_values(|path: PathBuf| path_text(path))
}

/// `Path::to_string_lossy`: the text of a path.
#[verifier::external_body]
fn to_string_lossy(path: &PathBuf) -> (r: String)
    ensures
        r@ == path_text(*path),
{
    path.to_string_lossy().into_owned()
}

/// `PathBuf::from` for a text: the path that has this text.
#[verifier::external_body]
fn path_from(text: &str) -> (r: PathBuf)
    ensures
        path_text(r) == text@,
{
    PathBuf::from(text)
}

/// The texts of a list of paths, in the same order.
pub fn to_texts(paths: &[PathBuf]) -> (r: Vec<String>)
    ensures
        texts(r@) == path_texts(paths@),
{
    let mut list: Vec<String> = Vec::new();
    for i in 0..paths.len()
        invariant
            texts(list@) =~= path_texts(paths@.take(i as int)),
    {
        let ghost shorter = list@;
        list.push(to_string_lossy(&paths[i]));
        assert(texts(list@) =~= texts(shorter).push(path_text(paths@[i as int])));
        assert(paths@.take(i + 1) =~= paths@.take(i as int).push(paths@[i as int]));
    }
    assert(paths@.take(paths@.len() as int) =~= paths@);
    list
}

/// The paths of a list of texts, in the same order.
pub fn to_paths(strings: &Vec<String>) -> (r: Vec<PathBuf>)
    ensures
        path_texts(r@) == texts(strings@),
{
    let mut list: Vec<PathBuf> = Vec::new();
    for i in 0..strings.len()
        invariant
            path_texts(list@) =~= texts(strings@.take(i as int)),
    {
        let ghost shorter = list@;
        list.push(path_from(strings[i].as_str()));
        assert(path_texts(list@) =~= path_texts(shorter).push(strings@[i as int]@));
        assert(strings@.take(i + 1) =~= strings@.take(i as int).push(strings@[i as int]));
    }
    assert(strings@.take(strings@.len() as int) =~= strings@);
    list
}

} // verus!
