//! PEMDAS resolution: the fixed order in which sources are consulted.
use vstd::prelude::*;
use crate::error::{FigtreeError, FigtreeResult};
use crate::fig::{Fig, FigSource};
use crate::rules::Rule;
use crate::render::joined;
use crate::text::push_str;
use crate::value::{FigValue, duplicate_opt};

verus! {

/// The contract any configuration source must satisfy.
///
/// A Source knows how to look up a value for a given key and return it as
/// a FigValue, or return None if it has no value for that key. Sources
/// only fetch; the Tree validates, applies rules and records history.
pub trait Source {
    /// Returns a value for the given key if this source has one.
    fn get(&self, key: &str) -> Option<FigValue>;

    /// Returns a human-readable name for this source.
    fn source_name(&self) -> String;

    /// This source's identity as a FigSource. By default, a file named by
    /// `source_name()`.
    fn as_fig_source(&self) -> (r: FigSource)
        default_ensures
            r is File,
    {
        FigSource::File(self.source_name())
    }
}

/// The outcome of a single resolution attempt: the winning value and the
/// source that provided it.
#[derive(Debug, Clone)]
pub struct ResolutionResult {
    /// The resolved value.
    pub value: FigValue,
    /// The source that provided the value.
    pub source: FigSource,
}

/// The first answer among `files`, in order.
pub open spec fn first_answer(files: Seq<Option<ResolutionResult>>) -> Option<ResolutionResult>
    decreases files.len(),
{
    if files.len() == 0 {
        None
    } else if files[0] is Some {
        files[0]
    } else {
        first_answer(files.drop_first())
    }
}

/// The PEMDAS winner among the sources' answers for one key:
///   1. the flag answer, unless the rule ignores flags;
///   2. the environment answer, unless the rule ignores the environment;
///   3. the first file answer, in registration order;
///   4. a value stored programmatically, as `FigSource::Programmatic`;
///   5. the default, as `FigSource::Default`;
/// and `None` when none of these exists.
pub open spec fn pemdas(
    rule: Rule,
    flag: Option<ResolutionResult>,
    env: Option<ResolutionResult>,
    files: Seq<Option<ResolutionResult>>,
    stored: Option<FigValue>,
    default: Option<FigValue>,
) -> Option<ResolutionResult> {
    if rule != Rule::NoFlags && flag is Some {
        flag
    } else if rule != Rule::NoEnv && env is Some {
        env
    } else if first_answer(files) is Some {
        first_answer(files)
    } else if stored is Some {
        Some(ResolutionResult { value: stored->0, source: FigSource::Programmatic })
    } else {
        match default {
            Some(d) => Some(ResolutionResult { value: d, source: FigSource::Default }),
            None => None,
        }
    }
}

/// Picks the PEMDAS winner from the sources' answers for one key.
pub fn pemdas_winner(
    rule: &Rule,
    flag: Option<ResolutionResult>,
    env: Option<ResolutionResult>,
    files: Vec<Option<ResolutionResult>>,
    stored: Option<FigValue>,
    default: Option<FigValue>,
) -> (r: Option<ResolutionResult>)
    ensures
        r == pemdas(*rule, flag, env, files@, stored, default),
{
    let ghost all = files@;
    let ghost want = pemdas(*rule, flag, env, files@, stored, default);
    if !rule.ignores_flags() && flag.is_some() {
        return flag;
    }
    if !rule.ignores_env() && env.is_some() {
        return env;
    }
    let mut rest = files;
    let mut i: usize = 0;
    assert(all.skip(0) =~= all);
    while i < rest.len()
        invariant
            rest@ == all,
            want == pemdas(*rule, flag, env, all, stored, default),
            all == files@,
            i <= all.len(),
            first_answer(all) == first_answer(all.skip(i as int)),
            !(*rule != Rule::NoFlags && flag is Some),
            !(*rule != Rule::NoEnv && env is Some),
        decreases all.len() - i,
    {
        assert(all.skip(i as int)[0] == all[i as int]);
        if rest[i].is_some() {
            assert(first_answer(all.skip(i as int)) == all[i as int]);
            let found = rest.remove(i);
            return found;
        }
        assert(all.skip(i as int).drop_first() =~= all.skip(i + 1));
        i += 1;
    }
    assert(all.skip(all.len() as int) =~= Seq::<Option<ResolutionResult>>::empty());
    if let Some(v) = stored {
        return Some(ResolutionResult { value: v, source: FigSource::Programmatic });
    }
    match default {
        Some(d) => Some(ResolutionResult { value: d, source: FigSource::Default }),
        None => None,
    }
}

/// The value a Fig holds from a programmatic store, if that is where its
/// value came from.
pub open spec fn stored_value(fig: Fig) -> Option<FigValue> {
    if fig.source == FigSource::Programmatic { fig.value } else { None }
}

/// Two optional values that are absent together or hold equal values.
pub open spec fn same_opt(a: Option<FigValue>, b: Option<FigValue>) -> bool {
    match (a, b) {
        (Some(x), Some(y)) => x@ == y@,
        (None, None) => true,
        _ => false,
    }
}

/// Asks a source for `key` and pairs the answer with the source's identity.
fn ask(src: &dyn Source, key: &str) -> Option<ResolutionResult> {
    match src.get(key) {
        Some(value) => Some(ResolutionResult { value, source: src.as_fig_source() }),
        None => None,
    }
}

/// Resolves a Fig's value by consulting sources in PEMDAS priority order:
/// flag, environment, files in registration order, then the default.
/// A source that the Fig's rule ignores is not consulted. The sources are
/// user code, so what they answer is theirs; the winner among the answers
/// is `pemdas` of them. Without any answer, a value stored
/// programmatically wins, then the default; a Fig with neither and no
/// answering source resolves to `None`.
pub fn resolve(
    fig: &Fig,
    flag_source: Option<&dyn Source>,
    env_source: Option<&dyn Source>,
    file_sources: &[Box<dyn Source>],
) -> (r: Option<ResolutionResult>)
    ensures
        r is None ==> fig.default is None && stored_value(*fig) is None,
        fig.default is Some ==> r is Some,
        exists|fl: Option<ResolutionResult>, en: Option<ResolutionResult>, fs: Seq<Option<ResolutionResult>>,
            st: Option<FigValue>, df: Option<FigValue>|
            #![trigger pemdas(fig.rule, fl, en, fs, st, df)]
            {
                &&& (flag_source is None ==> fl is None)
                &&& (env_source is None ==> en is None)
                &&& fs.len() <= file_sources@.len()
                &&& same_opt(st, stored_value(*fig))
                &&& same_opt(df, fig.default)
                &&& r == pemdas(fig.rule, fl, en, fs, st, df)
            },
        (flag_source is None || fig.rule == Rule::NoFlags)
            && (env_source is None || fig.rule == Rule::NoEnv)
            && file_sources@.len() == 0 ==> match stored_value(*fig) {
                Some(v) => r is Some && r->0.value@ == v@ && r->0.source == FigSource::Programmatic,
                None => {
                    &&& (r is Some <==> fig.default is Some)
                    &&& r is Some ==> r->0.value@ == fig.default->0@ && r->0.source == FigSource::Default
                },
            },
{
    let key = fig.key.as_str();
    let flag = if !fig.rule.ignores_flags() {
        match flag_source {
            Some(src) => ask(src, key),
            None => None,
        }
    } else {
        None
    };
    let env = if flag.is_some() || fig.rule.ignores_env() {
        None
    } else {
        match env_source {
            Some(src) => ask(src, key),
            None => None,
        }
    };
    let mut files: Vec<Option<ResolutionResult>> = Vec::new();
    if flag.is_none() && env.is_none() {
        let mut i: usize = 0;
        while i < file_sources.len()
            invariant
                i <= file_sources@.len(),
                files@.len() == i,
            decreases file_sources@.len() - i,
        {
            let answer = ask(&*file_sources[i], key);
            let found = answer.is_some();
            files.push(answer);
            i += 1;
            if found {
                break;
            }
        }
    }
    let default = duplicate_opt(&fig.default);
    let stored = match fig.source {
        FigSource::Programmatic => duplicate_opt(&fig.value),
        _ => None,
    };
    let ghost (fl, en, fs, st, df) = (flag, env, files@, stored, default);
    let r = pemdas_winner(&fig.rule, flag, env, files, stored, default);
    proof {
        if file_sources@.len() == 0 {
            assert(fs =~= Seq::<Option<ResolutionResult>>::empty());
        }
        assert(r == pemdas(fig.rule, fl, en, fs, st, df));
    }
    r
}

/// The keys of `figs` that `resolve_all` consults: all but the Figs whose
/// PreventChange rule keeps a value they already have.
pub open spec fn consulted(f: Fig) -> bool {
    !(f.rule == Rule::PreventChange && f.source != FigSource::Empty)
}

/// Every result names a consulted Fig of `figs`, and every consulted Fig
/// with a default has a result.
pub open spec fn covers(figs: Seq<Fig>, results: Seq<(String, ResolutionResult)>) -> bool {
    &&& forall|i: int| 0 <= i < results.len() ==> exists|j: int| 0 <= j < figs.len()
        && consulted(figs[j]) && #[trigger] results[i].0 == figs[j].key
    &&& forall|j: int| 0 <= j < figs.len() && consulted(figs[j]) && figs[j].default is Some
        ==> exists|i: int| 0 <= i < results.len() && #[trigger] results[i].0 == figs[j].key
}

/// What `resolve` may give for `fig` when a flag source, an environment
/// source and `nfiles` file sources are present as the flags say: the
/// PEMDAS winner among some answers of those sources, the Fig's stored
/// value and its default.
pub open spec fn resolved_by(fig: Fig, has_flag: bool, has_env: bool, nfiles: nat, r: Option<ResolutionResult>) -> bool {
    &&& r is None ==> fig.default is None && stored_value(fig) is None
    &&& fig.default is Some ==> r is Some
    &&& exists|fl: Option<ResolutionResult>, en: Option<ResolutionResult>, fs: Seq<Option<ResolutionResult>>,
        st: Option<FigValue>, df: Option<FigValue>|
        #![trigger pemdas(fig.rule, fl, en, fs, st, df)]
        {
            &&& (!has_flag ==> fl is None)
            &&& (!has_env ==> en is None)
            &&& fs.len() <= nfiles
            &&& same_opt(st, stored_value(fig))
            &&& same_opt(df, fig.default)
            &&& r == pemdas(fig.rule, fl, en, fs, st, df)
        }
    &&& (!has_flag || fig.rule == Rule::NoFlags) && (!has_env || fig.rule == Rule::NoEnv) && nfiles == 0 ==>
        match stored_value(fig) {
            Some(v) => r is Some && r->0.value@ == v@ && r->0.source == FigSource::Programmatic,
            None => {
                &&& (r is Some <==> fig.default is Some)
                &&& r is Some ==> r->0.value@ == fig.default->0@ && r->0.source == FigSource::Default
            },
        }
}

/// The keys of the consulted required Figs among the first `n` of `figs`
/// that resolved to nothing (`rs`), in order.
pub open spec fn missing_upto(figs: Seq<Fig>, rs: Seq<Option<ResolutionResult>>, n: int) -> Seq<Seq<char>>
    decreases n,
{
    if n <= 0 {
        Seq::empty()
    } else {
        let m = missing_upto(figs, rs, n - 1);
        if consulted(figs[n - 1]) && rs[n - 1] is None && figs[n - 1].default is None {
            m.push(figs[n - 1].key@)
        } else {
            m
        }
    }
}

/// The results of the consulted Figs among the first `n` of `figs` that
/// resolved to something (`rs`), keyed by Fig key, in order.
pub open spec fn results_upto(figs: Seq<Fig>, rs: Seq<Option<ResolutionResult>>, n: int) -> Seq<(String, ResolutionResult)>
    decreases n,
{
    if n <= 0 {
        Seq::empty()
    } else {
        let m = results_upto(figs, rs, n - 1);
        if consulted(figs[n - 1]) && rs[n - 1] is Some {
            m.push((figs[n - 1].key, rs[n - 1]->0))
        } else {
            m
        }
    }
}

/// What `resolve_all` gives for `figs` whose resolutions are `rs`: the
/// missing required keys joined by ", " when there are any, else the
/// results in order.
pub open spec fn all_resolved(figs: Seq<Fig>, rs: Seq<Option<ResolutionResult>>, r: FigtreeResult<Vec<(String, ResolutionResult)>>) -> bool {
    let missing = missing_upto(figs, rs, figs.len() as int);
    if missing.len() > 0 {
        r matches Err(FigtreeError::MissingRequired(m)) && m@ == joined(missing, ", "@)
    } else {
        r matches Ok(v) && v@ == results_upto(figs, rs, figs.len() as int)
    }
}

/// Resolves every Fig in `figs`, returning the results keyed by Fig key.
///
/// Figs locked by PreventChange with a value are skipped. When a required
/// Fig (no default) gets no value, the whole resolution fails with
/// `MissingRequired` naming every such key, joined by ", ".
pub fn resolve_all(
    figs: &[Fig],
    flag_source: Option<&dyn Source>,
    env_source: Option<&dyn Source>,
    file_sources: &[Box<dyn Source>],
) -> (r: FigtreeResult<Vec<(String, ResolutionResult)>>)
    ensures
        r is Ok ==> covers(figs@, r->Ok_0@),
        r is Err ==> r->Err_0 is MissingRequired,
        (forall|j: int| 0 <= j < figs@.len() ==> !consulted(#[trigger] figs@[j])) ==> (r matches Ok(v) && v@.len() == 0),
        (forall|j: int| 0 <= j < figs@.len() && consulted(#[trigger] figs@[j])
            ==> figs@[j].default is Some || stored_value(figs@[j]) is Some) ==> r is Ok,
        exists|rs: Seq<Option<ResolutionResult>>| {
            &&& rs.len() == figs@.len()
            &&& forall|j: int| 0 <= j < figs@.len() && consulted(figs@[j]) ==>
                resolved_by(figs@[j], flag_source is Some, env_source is Some, file_sources@.len(), #[trigger] rs[j])
            &&& #[trigger] all_resolved(figs@, rs, r)
        },
{
    let mut results: Vec<(String, ResolutionResult)> = Vec::new();
    let mut missing = String::new();
    let mut any_missing = false;
    let ghost mut rs: Seq<Option<ResolutionResult>> = Seq::empty();
    let ghost has_flag = flag_source is Some;
    let ghost has_env = env_source is Some;
    let mut j: usize = 0;
    while j < figs.len()
        invariant
            j <= figs@.len(),
            has_flag == flag_source is Some,
            has_env == env_source is Some,
            rs.len() == j,
            forall|k: int| 0 <= k < j && consulted(figs@[k]) ==>
                resolved_by(figs@[k], has_flag, has_env, file_sources@.len(), #[trigger] rs[k]),
            results@ == results_upto(figs@, rs, j as int),
            missing@ == joined(missing_upto(figs@, rs, j as int), ", "@),
            any_missing == (missing_upto(figs@, rs, j as int).len() > 0),
            forall|i: int| 0 <= i < results@.len() ==> exists|k: int| 0 <= k < j
                && consulted(figs@[k]) && #[trigger] results@[i].0 == figs@[k].key,
            forall|k: int| 0 <= k < j && consulted(figs@[k]) && figs@[k].default is Some
                ==> exists|i: int| 0 <= i < results@.len() && #[trigger] results@[i].0 == figs@[k].key,
            (forall|k: int| 0 <= k < j ==> !consulted(#[trigger] figs@[k])) ==> results@.len() == 0 && !any_missing,
            (forall|k: int| 0 <= k < j && consulted(#[trigger] figs@[k])
                ==> figs@[k].default is Some || stored_value(figs@[k]) is Some) ==> !any_missing,
        decreases figs@.len() - j,
    {
        let fig = &figs[j];
        let ghost prev_rs = rs;
        if fig.rule == Rule::PreventChange && fig.is_resolved() {
            proof {
                rs = rs.push(None);
                lemma_upto_frame(figs@, prev_rs, rs, j as int);
            }
            j += 1;
            continue;
        }
        let answer = resolve(fig, flag_source, env_source, file_sources);
        let ghost ga = answer;
        proof {
            rs = rs.push(ga);
            lemma_upto_frame(figs@, prev_rs, rs, j as int);
            assert(rs[j as int] == ga);
        }
        match answer {
            Some(result) => {
                let ghost before = results@;
                results.push((fig.key.clone(), result));
                proof {
                    assert(results@[results@.len() - 1].0 == figs@[j as int].key);
                    assert forall|i: int| 0 <= i < before.len() implies results@[i] == before[i] by {}
                    assert forall|k: int| 0 <= k < j + 1 && consulted(figs@[k]) && figs@[k].default is Some
                        implies exists|i: int| 0 <= i < results@.len() && #[trigger] results@[i].0 == figs@[k].key by {
                        if k < j {
                            let i = choose|i: int| 0 <= i < before.len() && #[trigger] before[i].0 == figs@[k].key;
                            assert(results@[i] == before[i]);
                        } else {
                            assert(results@[results@.len() - 1].0 == figs@[k].key);
                        }
                    }
                    assert forall|i: int| 0 <= i < results@.len() implies exists|k: int| 0 <= k < j + 1
                        && consulted(figs@[k]) && #[trigger] results@[i].0 == figs@[k].key by {
                        if i < before.len() {
                            assert(results@[i] == before[i]);
                            let k = choose|k: int| 0 <= k < j && consulted(figs@[k]) && #[trigger] before[i].0 == figs@[k].key;
                            assert(results@[i].0 == figs@[k].key);
                        } else {
                            assert(results@[i].0 == figs@[j as int].key);
                        }
                    }
                }
            },
            None => {
                if fig.is_required() {
                    let ghost before = missing@;
                    if any_missing {
                        push_str(&mut missing, ", ");
                    }
                    push_str(&mut missing, fig.key.as_str());
                    proof {
                        lemma_joined_push(missing_upto(figs@, prev_rs, j as int), fig.key@, ", "@);
                    }
                    any_missing = true;
                }
            },
        }
        j += 1;
    }
    proof {
        assert(rs.len() == figs@.len());
    }
    if any_missing {
        let r: FigtreeResult<Vec<(String, ResolutionResult)>> = Err(FigtreeError::MissingRequired(missing));
        assert(all_resolved(figs@, rs, r));
        return r;
    }
    assert(covers(figs@, results@));
    let r: FigtreeResult<Vec<(String, ResolutionResult)>> = Ok(results);
    assert(all_resolved(figs@, rs, r));
    r
}

/// Extending the resolutions past `j` leaves what the first `j` Figs give.
proof fn lemma_upto_frame(figs: Seq<Fig>, a: Seq<Option<ResolutionResult>>, b: Seq<Option<ResolutionResult>>, j: int)
    requires
        0 <= j,
        a.len() == j,
        b.len() == j + 1,
        forall|k: int| 0 <= k < j ==> a[k] == b[k],
    ensures
        missing_upto(figs, b, j) == missing_upto(figs, a, j),
        results_upto(figs, b, j) == results_upto(figs, a, j),
    decreases j,
{
    if j > 0 {
        lemma_upto_frame_le(figs, a, b, j - 1);
    }
}

/// `missing_upto` and `results_upto` read only the first `n` resolutions.
proof fn lemma_upto_frame_le(figs: Seq<Fig>, a: Seq<Option<ResolutionResult>>, b: Seq<Option<ResolutionResult>>, n: int)
    requires
        0 <= n < a.len(),
        n < b.len(),
        forall|k: int| 0 <= k <= n ==> a[k] == b[k],
    ensures
        missing_upto(figs, b, n + 1) == missing_upto(figs, a, n + 1),
        results_upto(figs, b, n + 1) == results_upto(figs, a, n + 1),
    decreases n,
{
    if n > 0 {
        lemma_upto_frame_le(figs, a, b, n - 1);
    }
    assert(missing_upto(figs, b, n) == missing_upto(figs, a, n));
    assert(results_upto(figs, b, n) == results_upto(figs, a, n));
    assert(a[n] == b[n]);
}

/// Joining one more part appends the separator and the part.
proof fn lemma_joined_push(parts: Seq<Seq<char>>, p: Seq<char>, sep: Seq<char>)
    ensures
        joined(parts.push(p), sep) == if parts.len() == 0 { p } else { joined(parts, sep) + sep + p },
{
    assert(parts.push(p).drop_last() =~= parts);
}

}
