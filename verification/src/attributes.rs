//! The decisions behind `#[derive(Figtree)]`: what the struct-level and
//! field-level `#[figtree(...)]` attributes set, which mutagenesis a
//! field's type names, which rule a `rule = ...` names, and which items
//! the derive accepts. The derive reads the tokens; these functions decide
//! on the names, literals and expressions it finds.
use vstd::prelude::*;
use crate::rules::Rule;
use crate::text::{owned, push_str, same_text};

verus! {

// ── StructConfig ──────────────────────────────────────────────────────────────

/// A literal given to a struct-level attribute.
pub enum AttrLiteral {
    Str(String),
    Bool(bool),
    /// Any other kind of literal.
    Other,
}

/// Parsed attributes from the #[figtree()] annotation on the struct itself.
#[derive(Debug)]
pub struct StructConfig {
    pub files: Vec<String>,
    pub tracking: bool,
    pub pollinate: bool,
    pub germinate: bool,
}

/// A struct's configuration as plain values.
pub struct StructConfigView {
    pub files: Seq<Seq<char>>,
    pub tracking: bool,
    pub pollinate: bool,
    pub germinate: bool,
}

impl View for StructConfig {
    type V = StructConfigView;

    open spec fn view(&self) -> StructConfigView {
        StructConfigView {
            files: self.files@.map_values(|f: String| f@),
            tracking: self.tracking,
            pollinate: self.pollinate,
            germinate: self.germinate,
        }
    }
}

impl Default for StructConfig {
    fn default() -> (r: Self)
        ensures
            r@ == (StructConfigView { files: Seq::empty(), tracking: false, pollinate: false, germinate: false }),
    {
        let r = StructConfig { files: Vec::new(), tracking: false, pollinate: false, germinate: false };
        proof {
            assert(r@.files =~= Seq::<Seq<char>>::empty());
        }
        r
    }
}

/// The message for a struct-level attribute whose name is unknown.
pub open spec fn unknown_struct_attr(name: Seq<char>) -> Seq<char> {
    "unknown struct-level figtree attribute '"@ + name
        + "'. Expected: file, tracking, pollinate, germinate"@
}

/// What one struct-level `name = literal` does to a struct's
/// configuration: the new configuration, or the message it is refused
/// with.
pub open spec fn struct_outcome(c: StructConfigView, name: Seq<char>, lit: AttrLiteral) -> Result<StructConfigView, Seq<char>> {
    if name == "file"@ {
        match lit {
            AttrLiteral::Str(s) => Ok(StructConfigView { files: c.files.push(s@), ..c }),
            _ => Err("file must be a string literal"@),
        }
    } else if name == "tracking"@ {
        match lit {
            AttrLiteral::Bool(b) => Ok(StructConfigView { tracking: b, ..c }),
            _ => Err("tracking must be a bool literal"@),
        }
    } else if name == "pollinate"@ {
        match lit {
            AttrLiteral::Bool(b) => Ok(StructConfigView { pollinate: b, ..c }),
            _ => Err("pollinate must be a bool literal"@),
        }
    } else if name == "germinate"@ {
        match lit {
            AttrLiteral::Bool(b) => Ok(StructConfigView { germinate: b, ..c }),
            _ => Err("germinate must be a bool literal"@),
        }
    } else {
        Err(unknown_struct_attr(name))
    }
}

/// What a struct's `#[figtree(...)]` attributes, taken in order, make of
/// the configuration `c`: the first refusal stops the reading.
pub open spec fn struct_all(c: StructConfigView, attrs: Seq<(String, AttrLiteral)>) -> Result<StructConfigView, Seq<char>>
    decreases attrs.len(),
{
    if attrs.len() == 0 {
        Ok(c)
    } else {
        match struct_outcome(c, attrs[0].0@, attrs[0].1) {
            Ok(n) => struct_all(n, attrs.drop_first()),
            Err(m) => Err(m),
        }
    }
}

impl StructConfig {
    /// Reads a struct's `#[figtree(...)]` attributes, as `name = literal`
    /// pairs in the order written, into a configuration; the first refused
    /// attribute is the error.
    pub fn from_attrs(attrs: Vec<(String, AttrLiteral)>) -> (r: Result<StructConfig, String>)
        ensures
            match struct_all(StructConfigView { files: Seq::empty(), tracking: false, pollinate: false, germinate: false }, attrs@) {
                Ok(c) => r matches Ok(x) && x@ == c,
                Err(m) => r matches Err(x) && x@ == m,
            },
    {
        let mut config = StructConfig::default();
        let mut pending = attrs;
        while pending.len() > 0
            invariant
                struct_all(StructConfigView { files: Seq::empty(), tracking: false, pollinate: false, germinate: false }, attrs@)
                    == struct_all(config@, pending@),
            decreases pending.len(),
        {
            let ghost rest = pending@;
            let ghost before = config@;
            let (name, lit) = pending.remove(0);
            proof {
                assert(pending@ =~= rest.drop_first());
                assert(rest[0].0@ == name@ && rest[0].1 == lit);
            }
            match config.apply(name.as_str(), lit) {
                Ok(()) => {},
                Err(m) => {
                    assert(struct_all(before, rest) == Err::<StructConfigView, Seq<char>>(m@));
                    return Err(m);
                },
            }
        }
        Ok(config)
    }

    /// Applies one `name = literal` of a struct-level `#[figtree(...)]`:
    /// `file` takes a string literal and adds a config file; `tracking`,
    /// `pollinate` and `germinate` take a bool literal and set that option.
    /// A literal of the wrong kind or an unknown name is refused with the
    /// message the derive reports.
    pub fn apply(&mut self, name: &str, lit: AttrLiteral) -> (r: Result<(), String>)
        ensures
            match struct_outcome(old(self)@, name@, lit) {
                Ok(c) => r is Ok && final(self)@ == c,
                Err(m) => (r matches Err(x) && x@ == m) && final(self)@ == old(self)@,
            },
    {
        proof {
            reveal_strlit("file");
            reveal_strlit("tracking");
            reveal_strlit("pollinate");
            reveal_strlit("germinate");
            assert("file"@[0] != "tracking"@[0] && "file"@[0] != "germinate"@[0]);
        }
        if same_text(name, "file") {
            match lit {
                AttrLiteral::Str(s) => {
                    let ghost before = self.files@;
                    let ghost t = s@;
                    self.files.push(s);
                    proof {
                        assert(self.files@.map_values(|f: String| f@)
                            =~= before.map_values(|f: String| f@).push(t));
                    }
                    Ok(())
                },
                _ => Err(owned("file must be a string literal")),
            }
        } else if same_text(name, "tracking") {
            match lit {
                AttrLiteral::Bool(b) => {
                    self.tracking = b;
                    Ok(())
                },
                _ => Err(owned("tracking must be a bool literal")),
            }
        } else if same_text(name, "pollinate") {
            match lit {
                AttrLiteral::Bool(b) => {
                    self.pollinate = b;
                    Ok(())
                },
                _ => Err(owned("pollinate must be a bool literal")),
            }
        } else if same_text(name, "germinate") {
            match lit {
                AttrLiteral::Bool(b) => {
                    self.germinate = b;
                    Ok(())
                },
                _ => Err(owned("germinate must be a bool literal")),
            }
        } else {
            let mut m = owned("unknown struct-level figtree attribute '");
            push_str(&mut m, name);
            push_str(&mut m, "'. Expected: file, tracking, pollinate, germinate");
            Err(m)
        }
    }
}

// ── FieldMutagenesis ──────────────────────────────────────────────────────────

/// The mutagenesis type of a field.
#[derive(Debug, Clone, Copy, PartialEq, Eq, Structural)]
pub enum FieldMutagenesis {
    String,
    Int,
    Int64,
    Int128,
    Float64,
    Bool,
    Duration,
    ListString,
    ListInt,
    ListInt64,
    ListInt128,
    ListFloat64,
    ListBool,
    MapString,
    MapBool,
}

/// The mutagenesis a plain type name denotes.
pub open spec fn scalar_mutagenesis(t: Seq<char>) -> Option<FieldMutagenesis> {
    if t == "String"@ { Some(FieldMutagenesis::String) }
    else if t == "i32"@ { Some(FieldMutagenesis::Int) }
    else if t == "i64"@ { Some(FieldMutagenesis::Int64) }
    else if t == "i128"@ { Some(FieldMutagenesis::Int128) }
    else if t == "f64"@ { Some(FieldMutagenesis::Float64) }
    else if t == "bool"@ { Some(FieldMutagenesis::Bool) }
    else if t == "Duration"@ || t == "StdDuration"@ { Some(FieldMutagenesis::Duration) }
    else { None }
}

/// The list mutagenesis of `Vec<t>`.
pub open spec fn list_mutagenesis(t: Seq<char>) -> Option<FieldMutagenesis> {
    if t == "String"@ { Some(FieldMutagenesis::ListString) }
    else if t == "i32"@ { Some(FieldMutagenesis::ListInt) }
    else if t == "i64"@ { Some(FieldMutagenesis::ListInt64) }
    else if t == "i128"@ { Some(FieldMutagenesis::ListInt128) }
    else if t == "f64"@ { Some(FieldMutagenesis::ListFloat64) }
    else if t == "bool"@ { Some(FieldMutagenesis::ListBool) }
    else { None }
}

/// The map mutagenesis of `HashMap<String, t>`.
pub open spec fn map_mutagenesis(t: Seq<char>) -> Option<FieldMutagenesis> {
    if t == "String"@ { Some(FieldMutagenesis::MapString) }
    else if t == "bool"@ { Some(FieldMutagenesis::MapBool) }
    else { None }
}

/// The type name of a field, as the derive finds it: the last path
/// segment and its generic arguments (one for `Vec`, two for `HashMap`).
pub enum TypeName {
    Plain(String),
    Vec(String),
    HashMap(String, String),
}

/// The mutagenesis a field's type name denotes, or the message the
/// derive refuses it with.
pub open spec fn type_outcome(t: TypeName) -> Result<FieldMutagenesis, Seq<char>> {
    match t {
        TypeName::Plain(n) => match scalar_mutagenesis(n@) {
            Some(m) => Ok(m),
            None => Err("figtree: '"@ + n@
                + "' is not a recognized mutagenesis type. Supported: String, i32, i64, i128, f64, bool, Duration, Vec<String|i32|i64|i128|f64|bool>, HashMap<String, String|bool>"@),
        },
        TypeName::Vec(e) => match list_mutagenesis(e@) {
            Some(m) => Ok(m),
            None => Err("figtree: Vec<"@ + e@
                + "> is not a supported mutagenesis. Supported element types: String, i32, i64, i128, f64, bool"@),
        },
        TypeName::HashMap(k, v) => if k@ != "String"@ {
            Err("figtree: HashMap key must be String"@)
        } else {
            match map_mutagenesis(v@) {
                Some(m) => Ok(m),
                None => Err("figtree: HashMap<String, "@ + v@
                    + "> is not a supported mutagenesis. Supported value types: String, bool"@),
            }
        },
    }
}

impl FieldMutagenesis {
    /// The mutagenesis a field's type name denotes: a supported scalar, a
    /// `Vec` of a supported element, or a `HashMap` from `String` to a
    /// supported value; anything else is refused with the derive's message.
    pub fn from_type_name(t: &TypeName) -> (r: Result<FieldMutagenesis, String>)
        ensures
            match type_outcome(*t) {
                Ok(m) => r == Ok::<FieldMutagenesis, String>(m),
                Err(e) => r matches Err(x) && x@ == e,
            },
    {
        match t {
            TypeName::Plain(n) => {
                let s = n.as_str();
                if same_text(s, "String") { Ok(FieldMutagenesis::String) }
                else if same_text(s, "i32") { Ok(FieldMutagenesis::Int) }
                else if same_text(s, "i64") { Ok(FieldMutagenesis::Int64) }
                else if same_text(s, "i128") { Ok(FieldMutagenesis::Int128) }
                else if same_text(s, "f64") { Ok(FieldMutagenesis::Float64) }
                else if same_text(s, "bool") { Ok(FieldMutagenesis::Bool) }
                else if same_text(s, "Duration") || same_text(s, "StdDuration") { Ok(FieldMutagenesis::Duration) }
                else {
                    let mut m = owned("figtree: '");
                    push_str(&mut m, s);
                    push_str(&mut m, "' is not a recognized mutagenesis type. Supported: String, i32, i64, i128, f64, bool, Duration, Vec<String|i32|i64|i128|f64|bool>, HashMap<String, String|bool>");
                    Err(m)
                }
            },
            TypeName::Vec(e) => {
                let s = e.as_str();
                if same_text(s, "String") { Ok(FieldMutagenesis::ListString) }
                else if same_text(s, "i32") { Ok(FieldMutagenesis::ListInt) }
                else if same_text(s, "i64") { Ok(FieldMutagenesis::ListInt64) }
                else if same_text(s, "i128") { Ok(FieldMutagenesis::ListInt128) }
                else if same_text(s, "f64") { Ok(FieldMutagenesis::ListFloat64) }
                else if same_text(s, "bool") { Ok(FieldMutagenesis::ListBool) }
                else {
                    let mut m = owned("figtree: Vec<");
                    push_str(&mut m, s);
                    push_str(&mut m, "> is not a supported mutagenesis. Supported element types: String, i32, i64, i128, f64, bool");
                    Err(m)
                }
            },
            TypeName::HashMap(k, v) => {
                if !same_text(k.as_str(), "String") {
                    return Err(owned("figtree: HashMap key must be String"));
                }
                let s = v.as_str();
                if same_text(s, "String") { Ok(FieldMutagenesis::MapString) }
                else if same_text(s, "bool") { Ok(FieldMutagenesis::MapBool) }
                else {
                    let mut m = owned("figtree: HashMap<String, ");
                    push_str(&mut m, s);
                    push_str(&mut m, "> is not a supported mutagenesis. Supported value types: String, bool");
                    Err(m)
                }
            },
        }
    }
}

// ── FieldRule ─────────────────────────────────────────────────────────────────

/// A rule parsed from #[figtree(rule = ...)].
#[derive(Debug, Clone, Copy, PartialEq, Eq, Structural)]
pub enum FieldRule {
    PreventChange,
    PanicOnChange,
    NoValidations,
    NoCallbacks,
    NoFlags,
    NoEnv,
    NoMaps,
    NoLists,
    CondemnedFromResurrection,
}

/// The rule an identifier names.
pub open spec fn rule_for(name: Seq<char>) -> Option<FieldRule> {
    if name == "RulePreventChange"@ { Some(FieldRule::PreventChange) }
    else if name == "RulePanicOnChange"@ { Some(FieldRule::PanicOnChange) }
    else if name == "RuleNoValidations"@ { Some(FieldRule::NoValidations) }
    else if name == "RuleNoCallbacks"@ { Some(FieldRule::NoCallbacks) }
    else if name == "RuleNoFlags"@ { Some(FieldRule::NoFlags) }
    else if name == "RuleNoEnv"@ { Some(FieldRule::NoEnv) }
    else if name == "RuleNoMaps"@ { Some(FieldRule::NoMaps) }
    else if name == "RuleNoLists"@ { Some(FieldRule::NoLists) }
    else if name == "RuleCondemnedFromResurrection"@ { Some(FieldRule::CondemnedFromResurrection) }
    else { None }
}

/// The message for an identifier that names no rule.
pub open spec fn unknown_rule(name: Seq<char>) -> Seq<char> {
    "unknown rule '"@ + name
        + "'. Expected one of: RulePreventChange, RulePanicOnChange, RuleNoValidations, RuleNoCallbacks, RuleNoFlags, RuleNoEnv, RuleNoMaps, RuleNoLists, RuleCondemnedFromResurrection"@
}

impl FieldRule {
    /// The library rule this attribute rule stands for.
    pub fn rule(&self) -> (r: Rule)
        ensures
            r == match *self {
                FieldRule::PreventChange => Rule::PreventChange,
                FieldRule::PanicOnChange => Rule::PanicOnChange,
                FieldRule::NoValidations => Rule::NoValidations,
                FieldRule::NoCallbacks => Rule::NoCallbacks,
                FieldRule::NoFlags => Rule::NoFlags,
                FieldRule::NoEnv => Rule::NoEnv,
                FieldRule::NoMaps => Rule::NoMaps,
                FieldRule::NoLists => Rule::NoLists,
                FieldRule::CondemnedFromResurrection => Rule::CondemnedFromResurrection,
            },
    {
        match self {
            FieldRule::PreventChange => Rule::PreventChange,
            FieldRule::PanicOnChange => Rule::PanicOnChange,
            FieldRule::NoValidations => Rule::NoValidations,
            FieldRule::NoCallbacks => Rule::NoCallbacks,
            FieldRule::NoFlags => Rule::NoFlags,
            FieldRule::NoEnv => Rule::NoEnv,
            FieldRule::NoMaps => Rule::NoMaps,
            FieldRule::NoLists => Rule::NoLists,
            FieldRule::CondemnedFromResurrection => Rule::CondemnedFromResurrection,
        }
    }

    /// The rule an identifier names, or the derive's message for an
    /// unknown one.
    pub fn from_name(name: &str) -> (r: Result<FieldRule, String>)
        ensures
            match rule_for(name@) {
                Some(x) => r == Ok::<FieldRule, String>(x),
                None => r matches Err(m) && m@ == unknown_rule(name@),
            },
    {
        if same_text(name, "RulePreventChange") { Ok(FieldRule::PreventChange) }
        else if same_text(name, "RulePanicOnChange") { Ok(FieldRule::PanicOnChange) }
        else if same_text(name, "RuleNoValidations") { Ok(FieldRule::NoValidations) }
        else if same_text(name, "RuleNoCallbacks") { Ok(FieldRule::NoCallbacks) }
        else if same_text(name, "RuleNoFlags") { Ok(FieldRule::NoFlags) }
        else if same_text(name, "RuleNoEnv") { Ok(FieldRule::NoEnv) }
        else if same_text(name, "RuleNoMaps") { Ok(FieldRule::NoMaps) }
        else if same_text(name, "RuleNoLists") { Ok(FieldRule::NoLists) }
        else if same_text(name, "RuleCondemnedFromResurrection") { Ok(FieldRule::CondemnedFromResurrection) }
        else {
            let mut m = owned("unknown rule '");
            push_str(&mut m, name);
            push_str(&mut m, "'. Expected one of: RulePreventChange, RulePanicOnChange, RuleNoValidations, RuleNoCallbacks, RuleNoFlags, RuleNoEnv, RuleNoMaps, RuleNoLists, RuleCondemnedFromResurrection");
            Err(m)
        }
    }
}


// ── FieldConfig ───────────────────────────────────────────────────────────────

/// How the derive reads the value of a field-level attribute.
#[derive(Debug, Clone, Copy, PartialEq, Eq, Structural)]
pub enum ValueForm {
    /// A literal (`key`, `env`, `description`).
    Literal,
    /// A bare identifier (`rule`).
    Identifier,
    /// Any expression, kept as written (`default`, `validate`,
    /// `on_change`, `on_verify`, `on_read`).
    Expression,
}

/// The form each field-level attribute takes; `None` for an unknown name.
pub open spec fn form_of(name: Seq<char>) -> Option<ValueForm> {
    if name == "key"@ || name == "env"@ || name == "description"@ {
        Some(ValueForm::Literal)
    } else if name == "rule"@ {
        Some(ValueForm::Identifier)
    } else if name == "default"@ || name == "validate"@ || name == "on_change"@
        || name == "on_verify"@ || name == "on_read"@ {
        Some(ValueForm::Expression)
    } else {
        None
    }
}

/// The value of a field-level attribute, read in the form its name asks
/// for.
pub enum FieldAttrValue {
    Lit(AttrLiteral),
    Ident(String),
    /// An expression, by its source text.
    Expr(String),
}

/// The form a value was read in.
pub open spec fn value_form(v: FieldAttrValue) -> ValueForm {
    match v {
        FieldAttrValue::Lit(_) => ValueForm::Literal,
        FieldAttrValue::Ident(_) => ValueForm::Identifier,
        FieldAttrValue::Expr(_) => ValueForm::Expression,
    }
}

impl FieldAttrValue {
    /// The form this value was read in.
    pub fn form(&self) -> (r: ValueForm)
        ensures
            r == value_form(*self),
    {
        match self {
            FieldAttrValue::Lit(_) => ValueForm::Literal,
            FieldAttrValue::Ident(_) => ValueForm::Identifier,
            FieldAttrValue::Expr(_) => ValueForm::Expression,
        }
    }
}

/// The form the derive must read a field-level attribute's value in, or
/// `None` when the name is not a field-level attribute.
pub fn field_attr_form(name: &str) -> (r: Option<ValueForm>)
    ensures
        r == form_of(name@),
{
    if same_text(name, "key") || same_text(name, "env") || same_text(name, "description") {
        Some(ValueForm::Literal)
    } else if same_text(name, "rule") {
        Some(ValueForm::Identifier)
    } else if same_text(name, "default") || same_text(name, "validate") || same_text(name, "on_change")
        || same_text(name, "on_verify") || same_text(name, "on_read") {
        Some(ValueForm::Expression)
    } else {
        None
    }
}

/// The complete configuration of one field of the derived struct.
pub struct FieldConfig {
    pub ident: String,
    pub mutagenesis: FieldMutagenesis,
    pub key: String,
    /// The default's expression, as written.
    pub default: Option<String>,
    pub env: Option<String>,
    /// The validator expressions, in the order given.
    pub validators: Vec<String>,
    pub on_change: Option<String>,
    pub on_verify: Option<String>,
    pub on_read: Option<String>,
    pub rule: Option<FieldRule>,
    pub description: String,
}

/// A field's configuration as plain values.
pub struct FieldConfigView {
    pub ident: Seq<char>,
    pub mutagenesis: FieldMutagenesis,
    pub key: Seq<char>,
    pub default: Option<Seq<char>>,
    pub env: Option<Seq<char>>,
    pub validators: Seq<Seq<char>>,
    pub on_change: Option<Seq<char>>,
    pub on_verify: Option<Seq<char>>,
    pub on_read: Option<Seq<char>>,
    pub rule: Option<FieldRule>,
    pub description: Seq<char>,
}

/// The text of an optional string.
pub open spec fn opt_text(o: Option<String>) -> Option<Seq<char>> {
    match o {
        Some(s) => Some(s@),
        None => None,
    }
}

impl View for FieldConfig {
    type V = FieldConfigView;

    open spec fn view(&self) -> FieldConfigView {
        FieldConfigView {
            ident: self.ident@,
            mutagenesis: self.mutagenesis,
            key: self.key@,
            default: opt_text(self.default),
            env: opt_text(self.env),
            validators: self.validators@.map_values(|v: String| v@),
            on_change: opt_text(self.on_change),
            on_verify: opt_text(self.on_verify),
            on_read: opt_text(self.on_read),
            rule: self.rule,
            description: self.description@,
        }
    }
}

/// The message for a field-level attribute whose name is unknown.
pub open spec fn unknown_field_attr(name: Seq<char>) -> Seq<char> {
    "unknown field-level figtree attribute '"@ + name
        + "'. Expected: key, default, env, validate, on_change, on_verify, on_read, rule, description"@
}

/// What a field-level attribute does to a field's configuration: the new
/// configuration, or the message it is refused with. The value is taken
/// to be in the form the name asks for (`form_of`).
pub open spec fn field_outcome(c: FieldConfigView, name: Seq<char>, v: FieldAttrValue) -> Result<FieldConfigView, Seq<char>> {
    if name == "key"@ {
        match v {
            FieldAttrValue::Lit(AttrLiteral::Str(s)) => Ok(FieldConfigView { key: s@, ..c }),
            _ => Err("key must be a string literal"@),
        }
    } else if name == "default"@ {
        Ok(FieldConfigView { default: Some(v->Expr_0@), ..c })
    } else if name == "env"@ {
        match v {
            FieldAttrValue::Lit(AttrLiteral::Str(s)) => Ok(FieldConfigView { env: Some(s@), ..c }),
            _ => Err("env must be a string literal"@),
        }
    } else if name == "validate"@ {
        Ok(FieldConfigView { validators: c.validators.push(v->Expr_0@), ..c })
    } else if name == "on_change"@ {
        Ok(FieldConfigView { on_change: Some(v->Expr_0@), ..c })
    } else if name == "on_verify"@ {
        Ok(FieldConfigView { on_verify: Some(v->Expr_0@), ..c })
    } else if name == "on_read"@ {
        Ok(FieldConfigView { on_read: Some(v->Expr_0@), ..c })
    } else if name == "rule"@ {
        match rule_for(v->Ident_0@) {
            Some(x) => Ok(FieldConfigView { rule: Some(x), ..c }),
            None => Err(unknown_rule(v->Ident_0@)),
        }
    } else if name == "description"@ {
        match v {
            FieldAttrValue::Lit(AttrLiteral::Str(s)) => Ok(FieldConfigView { description: s@, ..c }),
            _ => Err("description must be a string literal"@),
        }
    } else {
        Err(unknown_field_attr(name))
    }
}

/// What a field's attributes, taken in order, make of the configuration
/// `c`: the first refusal stops the reading.
pub open spec fn field_all(c: FieldConfigView, attrs: Seq<(String, FieldAttrValue)>) -> Result<FieldConfigView, Seq<char>>
    decreases attrs.len(),
{
    if attrs.len() == 0 {
        Ok(c)
    } else {
        match field_outcome(c, attrs[0].0@, attrs[0].1) {
            Ok(n) => field_all(n, attrs.drop_first()),
            Err(m) => Err(m),
        }
    }
}

/// Each value is read in the form its attribute's name asks for.
pub open spec fn read_in_form(attrs: Seq<(String, FieldAttrValue)>) -> bool {
    forall|i: int| 0 <= i < attrs.len() ==>
        (form_of(#[trigger] attrs[i].0@) matches Some(f) ==> value_form(attrs[i].1) == f)
}

/// The configuration of a field before its attributes are read: its key
/// is its name and nothing else is set.
pub open spec fn bare_field(ident: Seq<char>, m: FieldMutagenesis) -> FieldConfigView {
    FieldConfigView {
        ident,
        mutagenesis: m,
        key: ident,
        default: None,
        env: None,
        validators: Seq::empty(),
        on_change: None,
        on_verify: None,
        on_read: None,
        rule: None,
        description: Seq::empty(),
    }
}

/// The source text of a value read as an expression.
fn expr_text(v: FieldAttrValue) -> (r: String)
    requires
        v is Expr,
    ensures
        r@ == v->Expr_0@,
{
    match v {
        FieldAttrValue::Expr(e) => e,
        FieldAttrValue::Lit(_) | FieldAttrValue::Ident(_) => String::new(),
    }
}

/// The identifier of a value read as an identifier.
fn ident_text(v: FieldAttrValue) -> (r: String)
    requires
        v is Ident,
    ensures
        r@ == v->Ident_0@,
{
    match v {
        FieldAttrValue::Ident(i) => i,
        FieldAttrValue::Lit(_) | FieldAttrValue::Expr(_) => String::new(),
    }
}

impl FieldConfig {
    /// Reads one field: its name, its type and its `#[figtree(...)]`
    /// attributes in the order written. A tuple-struct field (no name) and
    /// a type with no mutagenesis are refused first, then the first
    /// refused attribute is the error.
    pub fn from_field(ident: Option<&str>, ty: &TypeName, attrs: Vec<(String, FieldAttrValue)>) -> (r: Result<FieldConfig, String>)
        requires
            read_in_form(attrs@),
        ensures
            ident is None ==> (r matches Err(m) && m@ == "figtree: tuple struct fields are not supported"@),
            ident matches Some(i) ==> match type_outcome(*ty) {
                Ok(m) => match field_all(bare_field(i@, m), attrs@) {
                    Ok(c) => r matches Ok(x) && x@ == c,
                    Err(e) => r matches Err(x) && x@ == e,
                },
                Err(e) => (r matches Err(x) && x@ == e),
            },
    {
        let i = match ident {
            Some(i) => i,
            None => { return Err(owned("figtree: tuple struct fields are not supported")); },
        };
        let mutagenesis = match FieldMutagenesis::from_type_name(ty) {
            Ok(m) => m,
            Err(e) => { return Err(e); },
        };
        let mut config = FieldConfig {
            ident: owned(i),
            mutagenesis,
            key: owned(i),
            default: None,
            env: None,
            validators: Vec::new(),
            on_change: None,
            on_verify: None,
            on_read: None,
            rule: None,
            description: String::new(),
        };
        proof {
            assert(config@.validators =~= Seq::<Seq<char>>::empty());
        }
        let mut pending = attrs;
        while pending.len() > 0
            invariant
                ident == Some(i),
                type_outcome(*ty) == Ok::<FieldMutagenesis, Seq<char>>(mutagenesis),
                read_in_form(pending@),
                field_all(bare_field(i@, mutagenesis), attrs@) == field_all(config@, pending@),
            decreases pending.len(),
        {
            let ghost rest = pending@;
            let ghost before = config@;
            let (name, value) = pending.remove(0);
            proof {
                assert(pending@ =~= rest.drop_first());
                assert(rest[0].0@ == name@ && rest[0].1 == value);
            }
            match config.apply(name.as_str(), value) {
                Ok(()) => {},
                Err(m) => {
                    assert(field_all(before, rest) == Err::<FieldConfigView, Seq<char>>(m@));
                    return Err(m);
                },
            }
        }
        Ok(config)
    }

    /// Applies one field-level `name = value`, the value read in the form
    /// the name asks for: `key`, `env` and `description` take a string
    /// literal, `rule` an identifier naming a rule, and `default`,
    /// `validate`, `on_change`, `on_verify` and `on_read` an expression,
    /// `validate` adding to the validators in order. A refused attribute
    /// leaves the configuration as it was.
    pub fn apply(&mut self, name: &str, value: FieldAttrValue) -> (r: Result<(), String>)
        requires
            form_of(name@) matches Some(f) ==> value_form(value) == f,
        ensures
            match field_outcome(old(self)@, name@, value) {
                Ok(c) => r is Ok && final(self)@ == c,
                Err(m) => (r matches Err(x) && x@ == m) && final(self)@ == old(self)@,
            },
    {
        proof {
            reveal_strlit("key");
            reveal_strlit("default");
            reveal_strlit("env");
            reveal_strlit("validate");
            reveal_strlit("on_change");
            reveal_strlit("on_verify");
            reveal_strlit("on_read");
            reveal_strlit("rule");
            reveal_strlit("description");
            assert("default"@[2] != "description"@[2]);
            assert("validate"@[0] != "key"@[0] && "validate"@[0] != "env"@[0]
                && "validate"@[0] != "description"@[0] && "validate"@[0] != "rule"@[0]);
        }
        if same_text(name, "key") {
            match value {
                FieldAttrValue::Lit(AttrLiteral::Str(s)) => {
                    self.key = s;
                    Ok(())
                },
                _ => Err(owned("key must be a string literal")),
            }
        } else if same_text(name, "default") {
            self.default = Some(expr_text(value));
            Ok(())
        } else if same_text(name, "env") {
            match value {
                FieldAttrValue::Lit(AttrLiteral::Str(s)) => {
                    self.env = Some(s);
                    Ok(())
                },
                _ => Err(owned("env must be a string literal")),
            }
        } else if same_text(name, "validate") {
            let e = expr_text(value);
            let ghost before = self.validators@;
            self.validators.push(e);
            proof {
                assert(self.validators@.map_values(|v: String| v@)
                    =~= before.map_values(|v: String| v@).push(e@));
            }
            Ok(())
        } else if same_text(name, "on_change") {
            self.on_change = Some(expr_text(value));
            Ok(())
        } else if same_text(name, "on_verify") {
            self.on_verify = Some(expr_text(value));
            Ok(())
        } else if same_text(name, "on_read") {
            self.on_read = Some(expr_text(value));
            Ok(())
        } else if same_text(name, "rule") {
            let i = ident_text(value);
            match FieldRule::from_name(i.as_str()) {
                Ok(x) => {
                    self.rule = Some(x);
                    Ok(())
                },
                Err(m) => Err(m),
            }
        } else if same_text(name, "description") {
            match value {
                FieldAttrValue::Lit(AttrLiteral::Str(s)) => {
                    self.description = s;
                    Ok(())
                },
                _ => Err(owned("description must be a string literal")),
            }
        } else {
            let mut m = owned("unknown field-level figtree attribute '");
            push_str(&mut m, name);
            push_str(&mut m, "'. Expected: key, default, env, validate, on_change, on_verify, on_read, rule, description");
            Err(m)
        }
    }
}


// ── parse_fields ──────────────────────────────────────────────────────────────

/// The shape of the item the derive is applied to.
#[derive(Debug, Clone, Copy, PartialEq, Eq, Structural)]
pub enum DataShape {
    NamedStruct,
    TupleStruct,
    UnitStruct,
    Enum,
    Union,
}

/// The message for an item the derive cannot be applied to.
pub open spec fn shape_refusal(shape: DataShape) -> Option<Seq<char>> {
    match shape {
        DataShape::NamedStruct => None,
        DataShape::TupleStruct | DataShape::UnitStruct =>
            Some("figtree: #[derive(Figtree)] requires a struct with named fields"@),
        DataShape::Enum => Some("figtree: #[derive(Figtree)] cannot be applied to enums"@),
        DataShape::Union => Some("figtree: #[derive(Figtree)] cannot be applied to unions"@),
    }
}

/// A named field as the derive finds it: its name, its type and its
/// `#[figtree(...)]` attributes in the order written.
pub type FieldDecl = (String, TypeName, Vec<(String, FieldAttrValue)>);

/// The configuration of one named field.
pub open spec fn field_outcome_of(f: FieldDecl) -> Result<FieldConfigView, Seq<char>> {
    match type_outcome(f.1) {
        Ok(m) => field_all(bare_field(f.0@, m), f.2@),
        Err(e) => Err(e),
    }
}

/// The configurations of the fields, in order; the first refused field
/// is the error.
pub open spec fn fields_all(fields: Seq<FieldDecl>) -> Result<Seq<FieldConfigView>, Seq<char>>
    decreases fields.len(),
{
    if fields.len() == 0 {
        Ok(Seq::empty())
    } else {
        match field_outcome_of(fields[0]) {
            Ok(c) => match fields_all(fields.drop_first()) {
                Ok(rest) => Ok(seq![c] + rest),
                Err(m) => Err(m),
            },
            Err(m) => Err(m),
        }
    }
}

/// Reads the fields of the item the derive is applied to. Only a struct
/// with named fields is accepted; each field is read in order and the
/// first refusal is the error.
pub fn parse_fields(shape: DataShape, fields: Vec<FieldDecl>) -> (r: Result<Vec<FieldConfig>, String>)
    requires
        forall|i: int| 0 <= i < fields@.len() ==> read_in_form(#[trigger] fields@[i].2@),
    ensures
        match shape_refusal(shape) {
            Some(m) => r matches Err(x) && x@ == m,
            None => match fields_all(fields@) {
                Ok(cs) => r matches Ok(v) && v@.map_values(|c: FieldConfig| c@) == cs,
                Err(m) => r matches Err(x) && x@ == m,
            },
        },
{
    match shape {
        DataShape::NamedStruct => {},
        DataShape::TupleStruct | DataShape::UnitStruct => {
            return Err(owned("figtree: #[derive(Figtree)] requires a struct with named fields"));
        },
        DataShape::Enum => {
            return Err(owned("figtree: #[derive(Figtree)] cannot be applied to enums"));
        },
        DataShape::Union => {
            return Err(owned("figtree: #[derive(Figtree)] cannot be applied to unions"));
        },
    }
    let mut out: Vec<FieldConfig> = Vec::new();
    let mut pending = fields;
    let ghost all = pending@;
    while pending.len() > 0
        invariant
            shape == DataShape::NamedStruct,
            all == fields@,
            all.len() == out@.len() + pending@.len(),
            pending@ == all.skip(out@.len() as int),
            forall|i: int| 0 <= i < pending@.len() ==> read_in_form(#[trigger] pending@[i].2@),
            match fields_all(all) {
                Ok(cs) => match fields_all(pending@) {
                    Ok(rest) => cs == out@.map_values(|c: FieldConfig| c@) + rest,
                    Err(m) => false,
                },
                Err(m) => fields_all(pending@) == Err::<Seq<FieldConfigView>, Seq<char>>(m),
            },
            fields_all(all) is Err || fields_all(pending@) is Ok,
        decreases pending.len(),
    {
        let ghost rest = pending@;
        let (name, ty, attrs) = pending.remove(0);
        proof {
            assert(pending@ =~= rest.drop_first());
            assert(read_in_form(rest[0].2@));
        }
        let c = match FieldConfig::from_field(Some(name.as_str()), &ty, attrs) {
            Ok(c) => c,
            Err(m) => {
                assert(field_outcome_of(rest[0]) == Err::<FieldConfigView, Seq<char>>(m@));
                assert(fields_all(rest) == Err::<Seq<FieldConfigView>, Seq<char>>(m@));
                return Err(m);
            },
        };
        let ghost before = out@;
        out.push(c);
        proof {
            assert(out@.map_values(|c: FieldConfig| c@) =~= before.map_values(|c: FieldConfig| c@).push(c@));
            assert(pending@ =~= all.skip(out@.len() as int));
        }
    }
    proof {
        assert(out@.map_values(|c: FieldConfig| c@) + Seq::<FieldConfigView>::empty()
            =~= out@.map_values(|c: FieldConfig| c@));
    }
    Ok(out)
}

}
