//! The `.env` file source.
use vstd::prelude::*;
use crate::error::{FigtreeError, FigtreeResult};
use crate::fig::FigSource;
use crate::priority::Source;
use crate::sources::env::env_value;
use crate::sources::table::{inserted_all, map_of_pairs, pair_views, text_at, typed_at};
use crate::strmap::StrMap;
use crate::text::{owned, push_str};
use crate::value::{FigValue, ValueView, is_float_kind, kind_of};

verus! {

/// `dotenvy::from_read_iter` over the text of a `.env` file: its
/// KEY=VALUE pairs in file order, or the text of the first error dotenvy
/// reports. dotenvy substitutes `$VAR` references from the process
/// environment, so nothing is promised of the result.
#[verifier::external_body]
fn dotenv_pairs(text: &str) -> Result<Vec<(String, String)>, String> {
    dotenvy::from_read_iter(text.as_bytes())
        .collect::<Result<Vec<(String, String)>, dotenvy::Error>>()
        .map_err(|e| e.to_string())
}

/// A configuration source backed by a .env file.
///
/// The format is a flat list of KEY=VALUE pairs, one per line, with
/// comments (#) and quoted values; dotenvy reads it. The values are kept
/// in the source's own map — the process environment is not modified.
///
/// DotenvSource is a string-origin source: values are read as the Fig's
/// type the way the environment is read.
pub struct DotenvSource {
    path: String,
    values: StrMap<String>,
}

impl DotenvSource {
    /// The path the source was read from.
    pub closed spec fn path_text(&self) -> Seq<char> {
        self.path@
    }

    /// The values, by key.
    pub closed spec fn values(&self) -> Map<Seq<char>, Seq<char>> {
        self.values@
    }

    /// A source over the given pairs, read from `path`: a later pair
    /// replaces an earlier one with the same key.
    pub fn from_pairs(path: &str, pairs: Vec<(String, String)>) -> (r: Self)
        ensures
            r.path_text() == path@,
            r.values() == inserted_all(Map::empty(), pair_views(pairs@)),
    {
        DotenvSource { path: path.to_string(), values: map_of_pairs(pairs) }
    }

    /// Parses the text of the .env file at `path`. Text dotenvy cannot
    /// read is refused with FileParseFailed naming the path.
    pub fn from_text(path: &str, text: &str) -> (r: FigtreeResult<Self>)
        ensures
            r is Ok ==> r->Ok_0.path_text() == path@,
            r is Err ==> (r->Err_0 matches FigtreeError::FileParseFailed { path: p, .. } && p@ == path@),
    {
        match dotenv_pairs(text) {
            Ok(pairs) => Ok(DotenvSource::from_pairs(path, pairs)),
            Err(reason) => Err(FigtreeError::FileParseFailed { path: path.to_string(), reason }),
        }
    }

    /// The value under `key` read as the type of `hint`.
    pub fn get_typed(&self, key: &str, hint: &FigValue) -> (r: Option<FigValue>)
        ensures
            !self.values().contains_key(key@) ==> r is None,
            self.values().contains_key(key@) && !is_float_kind(kind_of(hint@)) ==>
                match env_value(self.values()[key@], kind_of(hint@)) {
                    Some(v) => r is Some && r->0@ == v,
                    None => r is None,
                },
            r is Some ==> kind_of(r->0@) == kind_of(hint@),
    {
        typed_at(&self.values, key, hint)
    }
}

impl Source for DotenvSource {
    fn get(&self, key: &str) -> (r: Option<FigValue>)
        ensures
            match r {
                Some(v) => self.values().contains_key(key@) && v@ == ValueView::Str(self.values()[key@]),
                None => !self.values().contains_key(key@),
            },
    {
        text_at(&self.values, key)
    }

    fn source_name(&self) -> (r: String)
        ensures
            r@ == "file("@ + self.path_text() + ")"@,
    {
        let mut s = owned("file(");
        push_str(&mut s, self.path.as_str());
        push_str(&mut s, ")");
        s
    }

    fn as_fig_source(&self) -> (r: FigSource)
        ensures
            r matches FigSource::File(p) && p@ == self.path_text(),
    {
        FigSource::File(self.path.clone())
    }
}

}
