//! The command-line flag source.
use vstd::prelude::*;
use clap::ArgMatches;
use crate::error::{FigtreeError, FigtreeResult};
use crate::fig::FigSource;
use crate::priority::Source;
use crate::sources::env::env_value;
use crate::sources::table::{text_at, typed_at};
use crate::strmap::StrMap;
use crate::text::owned;
use crate::value::{FigValue, ValueView, is_float_kind, kind_of};

verus! {

/// `clap::ArgMatches`, carried opaquely.
#[verifier::external_type_specification]
#[verifier::external_body]
pub struct ExArgMatches(ArgMatches);

/// What `ArgMatches::try_get_one::<String>` answers for the argument `id`
/// of the parsed command line `matches`: the string value given, if any,
/// or the text of the error clap reports when `id` is not an argument
/// holding strings. A function of the matches and the id alone.
pub uninterp spec fn flag_answer(matches: ArgMatches, id: Seq<char>) -> Result<Option<Seq<char>>, Seq<char>>;

/// An answer, by the views of its texts.
pub open spec fn answer_view(a: Result<Option<String>, String>) -> Result<Option<Seq<char>>, Seq<char>> {
    match a {
        Ok(Some(v)) => Ok(Some(v@)),
        Ok(None) => Ok(None),
        Err(e) => Err(e@),
    }
}

/// `ArgMatches::try_get_one::<String>`: the string value given for the
/// argument `id`, if any, or the text of the error clap reports when `id`
/// is not an argument holding strings; the answer `flag_answer` names.
#[verifier::external_body]
fn flag_value(matches: &ArgMatches, id: &str) -> (r: Result<Option<String>, String>)
    ensures
        answer_view(r) == flag_answer(*matches, id@),
{
    match matches.try_get_one::<String>(id) {
        Ok(v) => Ok(v.cloned()),
        Err(e) => Err(e.to_string()),
    }
}

/// The message for a key clap refuses.
pub open spec fn mismatch_text(key: Seq<char>, e: Seq<char>) -> Seq<char> {
    "Mismatch between definition and access of `"@ + key + "`. "@ + e
}

/// The flag values taken from the first `n` answers: each `Ok(Some(v))`
/// sets its key to `v`, `Ok(None)` sets nothing, and the first `Err`
/// is the outcome.
pub open spec fn flag_fold(keys: Seq<&str>, answers: Seq<Result<Option<Seq<char>>, Seq<char>>>, n: int) -> Result<Map<Seq<char>, Seq<char>>, Seq<char>>
    decreases n,
{
    if n <= 0 {
        Ok(Map::empty())
    } else {
        match flag_fold(keys, answers, n - 1) {
            Err(m) => Err(m),
            Ok(m) => match answers[n - 1] {
                Ok(Some(v)) => Ok(m.insert(keys[n - 1]@, v)),
                Ok(None) => Ok(m),
                Err(e) => Err(mismatch_text(keys[n - 1]@, e)),
            },
        }
    }
}

/// Once refused, the reading stays refused with the same message.
proof fn lemma_fold_stays_err(keys: Seq<&str>, answers: Seq<Result<Option<Seq<char>>, Seq<char>>>, i: int, n: int)
    requires
        0 <= i <= n,
        flag_fold(keys, answers, i) is Err,
    ensures
        flag_fold(keys, answers, n) == flag_fold(keys, answers, i),
    decreases n - i,
{
    if n > i {
        lemma_fold_stays_err(keys, answers, i, n - 1);
    }
}

/// The keys taken are among `keys`.
proof fn lemma_fold_keys(keys: Seq<&str>, answers: Seq<Result<Option<Seq<char>>, Seq<char>>>, n: int)
    requires
        0 <= n <= keys.len(),
        flag_fold(keys, answers, n) is Ok,
    ensures
        flag_fold(keys, answers, n)->Ok_0.dom().subset_of(Set::new(|k: Seq<char>| exists|i: int| 0 <= i < keys.len() && keys[i]@ == k)),
    decreases n,
{
    if n > 0 {
        lemma_fold_keys(keys, answers, n - 1);
        let s = Set::new(|k: Seq<char>| exists|i: int| 0 <= i < keys.len() && keys[i]@ == k);
        assert(s.contains(keys[n - 1]@));
    }
}

/// A configuration source backed by parsed command-line flags.
///
/// The CliSource holds a snapshot of the flag values provided on the
/// command line, as a flat map of key → raw string value. It does not
/// interact with clap at resolution time.
///
/// Conversion from raw string to a typed value uses the same reading as
/// the environment, since both are string-origin sources; the hint (the
/// Fig's declared type) drives it.
pub struct CliSource {
    values: StrMap<String>,
}

impl CliSource {
    /// The flag values, by key.
    pub closed spec fn values(&self) -> Map<Seq<char>, Seq<char>> {
        self.values@
    }

    /// Creates a CliSource from a map of flag name → raw string value.
    pub fn new(values: StrMap<String>) -> (r: Self)
        ensures
            r.values() == values@,
    {
        CliSource { values }
    }

    /// Creates a CliSource from the answers clap gave for `keys`, one per
    /// key and in the same order: `Ok(Some(v))` takes `v` for that key,
    /// `Ok(None)` (not given) takes nothing, and the first `Err(e)` refuses
    /// the whole with `Other` naming the key and clap's text `e`.
    pub fn from_flag_answers(keys: &[&str], answers: Vec<Result<Option<String>, String>>) -> (r: FigtreeResult<Self>)
        requires
            answers@.len() == keys@.len(),
        ensures
            match flag_fold(keys@, answers@.map_values(|a: Result<Option<String>, String>| answer_view(a)), keys@.len() as int) {
                Ok(m) => r matches Ok(c) && c.values() == m,
                Err(e) => r matches Err(FigtreeError::Other(x)) && x@ == e,
            },
    {
        let ghost av = answers@.map_values(|a: Result<Option<String>, String>| answer_view(a));
        let mut values: StrMap<String> = StrMap::new();
        let mut i: usize = 0;
        while i < keys.len()
            invariant
                i <= keys@.len(),
                answers@.len() == keys@.len(),
                av == answers@.map_values(|a: Result<Option<String>, String>| answer_view(a)),
                flag_fold(keys@, av, i as int) == Ok::<Map<Seq<char>, Seq<char>>, Seq<char>>(values@),
            decreases keys@.len() - i,
        {
            let key: &str = keys[i];
            assert(av[i as int] == answer_view(answers@[i as int]));
            match &answers[i] {
                Ok(Some(v)) => {
                    values.insert(key.to_string(), v.clone());
                },
                Ok(None) => {},
                Err(e) => {
                    let mut m = owned("Mismatch between definition and access of `");
                    crate::text::push_str(&mut m, key);
                    crate::text::push_str(&mut m, "`. ");
                    crate::text::push_str(&mut m, e.as_str());
                    proof {
                        assert(flag_fold(keys@, av, i + 1) == Err::<Map<Seq<char>, Seq<char>>, Seq<char>>(m@));
                        lemma_fold_stays_err(keys@, av, i + 1, keys@.len() as int);
                    }
                    return Err(FigtreeError::Other(m));
                },
            }
            i += 1;
        }
        Ok(CliSource { values })
    }

    /// Creates a CliSource from clap's ArgMatches, taking the string value
    /// of each of `keys` that was given. A key that is not an argument of
    /// the command, or not one holding strings, is refused with the text
    /// clap gives for the mismatch: what `from_flag_answers` makes of
    /// clap's answers (`flag_answer`) for the keys, in order.
    pub fn from_arg_matches(matches: &ArgMatches, keys: &[&str]) -> (r: FigtreeResult<Self>)
        ensures
            match flag_fold(keys@, Seq::new(keys@.len(), |i: int| flag_answer(*matches, keys@[i]@)), keys@.len() as int) {
                Ok(m) => r matches Ok(c) && c.values() == m,
                Err(e) => r matches Err(FigtreeError::Other(x)) && x@ == e,
            },
            r is Ok ==> r->Ok_0.values().dom().subset_of(Set::new(|k: Seq<char>| exists|i: int| 0 <= i < keys@.len() && keys@[i]@ == k)),
    {
        let ghost asked = Seq::new(keys@.len(), |i: int| flag_answer(*matches, keys@[i]@));
        let mut answers: Vec<Result<Option<String>, String>> = Vec::new();
        let mut i: usize = 0;
        while i < keys.len()
            invariant
                i <= keys@.len(),
                answers@.len() == i,
                asked == Seq::new(keys@.len(), |i: int| flag_answer(*matches, keys@[i]@)),
                answers@.map_values(|a: Result<Option<String>, String>| answer_view(a)) =~= asked.take(i as int),
            decreases keys@.len() - i,
        {
            let a = flag_value(matches, keys[i]);
            answers.push(a);
            assert(answers@.map_values(|a: Result<Option<String>, String>| answer_view(a)) =~= asked.take(i + 1));
            i += 1;
        }
        assert(asked.take(keys@.len() as int) =~= asked);
        let ghost av = answers@.map_values(|a: Result<Option<String>, String>| answer_view(a));
        let r = CliSource::from_flag_answers(keys, answers);
        proof {
            if r is Ok {
                lemma_fold_keys(keys@, av, keys@.len() as int);
            }
        }
        r
    }

    /// The flag's raw text read as the type of `hint`.
    pub fn get_typed(&self, key: &str, hint: &FigValue) -> (r: Option<FigValue>)
        ensures
            !self.values().contains_key(key@) ==> r is None,
            self.values().contains_key(key@) && !is_float_kind(kind_of(hint@)) ==>
                match env_value(self.values()[key@], kind_of(hint@)) {
                    Some(v) => r is Some && r->0@ == v,
                    None => r is None,
                },
            r is Some ==> kind_of(r->0@) == kind_of(hint@),
    {
        typed_at(&self.values, key, hint)
    }
}

impl Source for CliSource {
    /// Returns the raw flag value as `FigValue::String`.
    fn get(&self, key: &str) -> (r: Option<FigValue>)
        ensures
            match r {
                Some(v) => self.values().contains_key(key@) && v@ == ValueView::Str(self.values()[key@]),
                None => !self.values().contains_key(key@),
            },
    {
        text_at(&self.values, key)
    }

    fn source_name(&self) -> (r: String)
        ensures
            r@ == "flag"@,
    {
        owned("flag")
    }

    fn as_fig_source(&self) -> (r: FigSource)
        ensures
            r matches FigSource::Flag(n) && n@ == "flag"@,
    {
        FigSource::Flag(owned("flag"))
    }
}

}
