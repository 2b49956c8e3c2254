//! The source for targets without files or an environment: values come
//! from a reader the application supplies.
use vstd::prelude::*;
use crate::fig::FigSource;
use crate::priority::Source;
use crate::sources::env::{env_value, parse_env_value};
use crate::text::owned;
use crate::value::{FigValue, ValueView, is_float_kind, kind_of};

verus! {

/// The application's reading function, boxed.
#[verifier::external_body]
pub struct BoxedReader {
    read: Box<dyn Fn(&str) -> Option<&'static str> + Send + Sync>,
}

/// Boxes the application's reading function (`Box::new`).
#[verifier::external_body]
fn boxed_reader<F>(read: F) -> BoxedReader
    where F: Fn(&str) -> Option<&'static str> + Send + Sync + 'static,
{
    BoxedReader { read: Box::new(read) }
}

/// A text answer, by its view.
pub open spec fn text_view(o: Option<&str>) -> Option<Seq<char>> {
    match o {
        Some(t) => Some(t@),
        None => None,
    }
}

/// What a reading function may answer for a key: the relation its own
/// contract states between the key and the text it gives back.
pub type ReadSpec = spec_fn(Seq<char>, Option<Seq<char>>) -> bool;

/// The application's reader: given a key, the raw UTF-8 text stored under
/// it, if any (a fixed table, EEPROM, flash, a serial link...). It is
/// user code, held as a boxed closure, together with what its contract
/// says it may answer.
pub(crate) struct Reader {
    read: BoxedReader,
    allows: Ghost<ReadSpec>,
}

impl Reader {
    /// What the reading function may answer for a key.
    pub closed spec fn allows(&self) -> ReadSpec {
        self.allows@
    }

    /// Wraps the application's reading function, one that accepts every
    /// key.
    pub(crate) fn new<F>(read: F) -> (r: Self)
        where F: Fn(&str) -> Option<&'static str> + Send + Sync + 'static,
        requires
            forall|k: &str| #[trigger] read.requires((k,)),
        ensures
            forall|k: Seq<char>, out: Option<Seq<char>>| #[trigger] (r.allows())(k, out)
                == exists|x: &str, o: Option<&'static str>| x@ == k && text_view(o) == out && #[trigger] read.ensures((x,), o),
    {
        Reader {
            read: boxed_reader(read),
            allows: Ghost(|k: Seq<char>, out: Option<Seq<char>>|
                exists|x: &str, o: Option<&'static str>| x@ == k && text_view(o) == out && #[trigger] read.ensures((x,), o)),
        }
    }

    /// Calls the boxed reading function (the one `new` was given) on
    /// `key`: an answer its contract allows.
    #[verifier::external_body]
    pub(crate) fn read(&self, key: &str) -> (r: Option<&'static str>)
        ensures
            (self.allows())(key@, text_view(r)),
    {
        (self.read.read)(key)
    }
}

/// A configuration source for bare-metal embedded targets.
///
/// It provides the Source interface over any key-value store the
/// application can read: the reader receives a key and returns the raw
/// text stored under it, which is read as the Fig's type the way the
/// environment is read.
pub struct EmbeddedSource {
    name: String,
    reader: Reader,
}

impl EmbeddedSource {
    /// The source's name, for diagnostics.
    pub closed spec fn name_text(&self) -> Seq<char> {
        self.name@
    }

    /// What the reader may answer for a key.
    pub closed spec fn reads(&self) -> ReadSpec {
        self.reader.allows()
    }

    /// Creates an EmbeddedSource with a custom reader, one that accepts
    /// every key. The reader is not called here.
    pub fn new<F>(name: &str, reader: F) -> (r: Self)
        where F: Fn(&str) -> Option<&'static str> + Send + Sync + 'static,
        requires
            forall|k: &str| #[trigger] reader.requires((k,)),
        ensures
            r.name_text() == name@,
            forall|k: Seq<char>, out: Option<Seq<char>>| #[trigger] (r.reads())(k, out)
                == exists|x: &str, o: Option<&'static str>| x@ == k && text_view(o) == out && #[trigger] reader.ensures((x,), o),
    {
        EmbeddedSource { name: name.to_string(), reader: Reader::new(reader) }
    }

    /// The reader's text under `key`, read as the type of `hint` the way
    /// the environment is read: nothing when the reader has nothing.
    pub fn get_typed(&self, key: &str, hint: &FigValue) -> (r: Option<FigValue>)
        ensures
            r is Some ==> kind_of(r->0@) == kind_of(hint@),
            exists|raw: Option<Seq<char>>| #[trigger] (self.reads())(key@, raw) && match raw {
                None => r is None,
                Some(t) => if is_float_kind(kind_of(hint@)) {
                    r is None
                } else {
                    match env_value(t, kind_of(hint@)) {
                        Some(v) => r is Some && r->0@ == v,
                        None => r is None,
                    }
                },
            },
    {
        let answer = self.reader.read(key);
        assert((self.reads())(key@, text_view(answer)));
        match answer {
            Some(raw) => parse_env_value(raw, hint),
            None => None,
        }
    }
}

impl Source for EmbeddedSource {
    /// The reader's text under `key`, as `FigValue::String`.
    fn get(&self, key: &str) -> (r: Option<FigValue>)
        ensures
            exists|raw: Option<Seq<char>>| #[trigger] (self.reads())(key@, raw) && match raw {
                None => r is None,
                Some(t) => r is Some && r->0@ == ValueView::Str(t),
            },
    {
        let answer = self.reader.read(key);
        assert((self.reads())(key@, text_view(answer)));
        match answer {
            Some(v) => Some(FigValue::String(owned(v))),
            None => None,
        }
    }

    fn source_name(&self) -> (r: String)
        ensures
            r@ == self.name_text(),
    {
        self.name.clone()
    }

    fn as_fig_source(&self) -> (r: FigSource)
        ensures
            r matches FigSource::File(n) && n@ == self.name_text(),
    {
        FigSource::File(self.name.clone())
    }
}

}
