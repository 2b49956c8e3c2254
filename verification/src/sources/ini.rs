//! The INI file source.
use vstd::prelude::*;
use crate::error::{FigtreeError, FigtreeResult};
use crate::fig::FigSource;
use crate::priority::Source;
use crate::sources::env::env_value;
use crate::sources::table::{inserted_all, map_of_pairs, text_at, typed_at};
use crate::strmap::StrMap;
use crate::text::{chars_of, owned, push_str, string_of_range};
use crate::value::{FigValue, ValueView, is_float_kind, kind_of};

verus! {

/// The properties rust-ini reads from an INI text, section by section in
/// file order, each as (section, key, value) with `None` for the general
/// section; `None` when rust-ini refuses the text.
pub uninterp spec fn ini_document(text: Seq<char>) -> Option<Seq<(Option<Seq<char>>, Seq<char>, Seq<char>)>>;

/// The views of INI properties.
pub open spec fn entry_views(entries: Seq<(Option<String>, String, String)>) -> Seq<(Option<Seq<char>>, Seq<char>, Seq<char>)> {
    entries.map_values(|e: (Option<String>, String, String)|
        (match e.0 { Some(s) => Some(s@), None => None }, e.1@, e.2@))
}

/// `ini::Ini::load_from_str`: the properties of the text, section by
/// section in file order, each as (section, key, value) with `None` for
/// the general section; or the text of the parse error. The grammar is
/// rust-ini's own; the result is a function of the text, named
/// `ini_document`.
#[verifier::external_body]
fn ini_entries(text: &str) -> (r: Result<Vec<(Option<String>, String, String)>, String>)
    ensures
        match ini_document(text@) {
            Some(es) => r is Ok && entry_views(r->Ok_0@) == es,
            None => r is Err,
        },
{
    let ini = ini::Ini::load_from_str(text).map_err(|e| e.to_string())?;
    Ok(ini.iter()
        .flat_map(|(s, props)| props.iter().map(move |(k, v)| (s.map(|x| x.to_string()), k.to_string(), v.to_string())))
        .collect())
}

/// The text with a leading byte-order mark (U+FEFF) left out.
pub open spec fn without_bom(t: Seq<char>) -> Seq<char> {
    if t.len() > 0 && t[0] == '\u{feff}' { t.skip(1) } else { t }
}

/// The flat key of a property: "section.key", or the bare key in the
/// general section.
pub open spec fn ini_key(section: Option<Seq<char>>, key: Seq<char>) -> Seq<char> {
    match section {
        Some(s) => s + "."@ + key,
        None => key,
    }
}

/// The (flat key, value) pairs of INI properties, by their views.
pub open spec fn flat_pairs(entries: Seq<(Option<Seq<char>>, Seq<char>, Seq<char>)>) -> Seq<(Seq<char>, Seq<char>)> {
    entries.map_values(|e: (Option<Seq<char>>, Seq<char>, Seq<char>)| (ini_key(e.0, e.1), e.2))
}

/// The (flat key, value) pairs of INI properties.
pub open spec fn ini_pairs(entries: Seq<(Option<String>, String, String)>) -> Seq<(Seq<char>, Seq<char>)> {
    entries.map_values(|e: (Option<String>, String, String)|
        (ini_key(match e.0 { Some(s) => Some(s@), None => None }, e.1@), e.2@))
}

/// A configuration source backed by an INI file.
///
/// INI files are key=value pairs, optionally grouped into sections. The
/// general section's keys and all section keys form one flat namespace:
/// section keys are reached as "section.key".
///
/// All values are text — they are read as the Fig's type the way the
/// environment is read.
pub struct IniSource {
    path: String,
    values: StrMap<String>,
}

impl IniSource {
    /// The path the source was read from.
    pub closed spec fn path_text(&self) -> Seq<char> {
        self.path@
    }

    /// The values, by flat key.
    pub closed spec fn values(&self) -> Map<Seq<char>, Seq<char>> {
        self.values@
    }

    /// A source over INI properties given as (section, key, value), read
    /// from `path`: a later property replaces an earlier one with the same
    /// flat key.
    pub fn from_entries(path: &str, entries: Vec<(Option<String>, String, String)>) -> (r: Self)
        ensures
            r.path_text() == path@,
            r.values() == inserted_all(Map::empty(), ini_pairs(entries@)),
    {
        let mut pairs: Vec<(String, String)> = Vec::new();
        let mut i: usize = 0;
        while i < entries.len()
            invariant
                i <= entries@.len(),
                pairs@.len() == i,
                forall|j: int| 0 <= j < i ==> (#[trigger] pairs@[j]).0@ == ini_pairs(entries@)[j].0
                    && pairs@[j].1@ == ini_pairs(entries@)[j].1,
            decreases entries@.len() - i,
        {
            let full_key = match &entries[i].0 {
                Some(s) => {
                    let mut k = s.clone();
                    push_str(&mut k, ".");
                    push_str(&mut k, entries[i].1.as_str());
                    k
                },
                None => entries[i].1.clone(),
            };
            pairs.push((full_key, entries[i].2.clone()));
            i += 1;
        }
        let ghost pv = pairs@.map_values(|p: (String, String)| (p.0@, p.1@));
        assert(pv =~= ini_pairs(entries@));
        IniSource { path: path.to_string(), values: map_of_pairs(pairs) }
    }

    /// Parses the text of the INI file at `path`, a leading byte-order
    /// mark left out as a file is read. Text rust-ini cannot read is
    /// refused with FileParseFailed naming the path.
    pub fn from_text(path: &str, text: &str) -> (r: FigtreeResult<Self>)
        ensures
            r is Ok <==> ini_document(without_bom(text@)) is Some,
            r is Ok ==> r->Ok_0.path_text() == path@
                && r->Ok_0.values() == inserted_all(Map::empty(), flat_pairs(ini_document(without_bom(text@))->0)),
            r is Err ==> (r->Err_0 matches FigtreeError::FileParseFailed { path: p, .. } && p@ == path@),
    {
        let cs = chars_of(text);
        let body = if cs.len() > 0 && cs[0] == '\u{feff}' {
            string_of_range(&cs, 1, cs.len())
        } else {
            string_of_range(&cs, 0, cs.len())
        };
        assert(cs@.subrange(0, cs@.len() as int) =~= cs@);
        assert(cs@.len() > 0 ==> cs@.subrange(1, cs@.len() as int) =~= cs@.skip(1));
        let text = body.as_str();
        match ini_entries(text) {
            Ok(entries) => {
                assert(ini_pairs(entries@) =~= flat_pairs(entry_views(entries@)));
                Ok(IniSource::from_entries(path, entries))
            },
            Err(reason) => Err(FigtreeError::FileParseFailed { path: path.to_string(), reason }),
        }
    }

    /// The value under `key` read as the type of `hint`.
    pub fn get_typed(&self, key: &str, hint: &FigValue) -> (r: Option<FigValue>)
        ensures
            !self.values().contains_key(key@) ==> r is None,
            self.values().contains_key(key@) && !is_float_kind(kind_of(hint@)) ==>
                match env_value(self.values()[key@], kind_of(hint@)) {
                    Some(v) => r is Some && r->0@ == v,
                    None => r is None,
                },
            r is Some ==> kind_of(r->0@) == kind_of(hint@),
    {
        typed_at(&self.values, key, hint)
    }
}

impl Source for IniSource {
    fn get(&self, key: &str) -> (r: Option<FigValue>)
        ensures
            match r {
                Some(v) => self.values().contains_key(key@) && v@ == ValueView::Str(self.values()[key@]),
                None => !self.values().contains_key(key@),
            },
    {
        text_at(&self.values, key)
    }

    fn source_name(&self) -> (r: String)
        ensures
            r@ == "file("@ + self.path_text() + ")"@,
    {
        let mut s = owned("file(");
        push_str(&mut s, self.path.as_str());
        push_str(&mut s, ")");
        s
    }

    fn as_fig_source(&self) -> (r: FigSource)
        ensures
            r matches FigSource::File(p) && p@ == self.path_text(),
    {
        FigSource::File(self.path.clone())
    }
}

}
