//! The Odin daemon's command line: `--store`, `--idunn-projection` and
//! `--idunn-anchor`, each exactly once, naming three distinct absolute
//! paths.
use vstd::prelude::*;
use crate::documents::copy_string;
use crate::text::{chars_of, push_str, spells, string_of};

verus! {

/// Where the daemon keeps its topology store, and where it reads Idunn's
/// projection and trust anchor.
#[derive(Debug)]
pub struct Options {
    pub store: String,
    pub idunn_projection: String,
    pub idunn_anchor: String,
}

impl View for Options {
    type V = (Seq<char>, Seq<char>, Seq<char>);

    open spec fn view(&self) -> Self::V {
        (self.store@, self.idunn_projection@, self.idunn_anchor@)
    }
}

/// Why a command line was refused.
#[derive(Debug, PartialEq, Eq)]
pub enum OptionsError {
    /// An argument stood where `--name` was expected.
    ExpectedOption(String),
    /// A `--name` that the daemon does not know.
    UnsupportedOption(String),
    /// A `--name` with nothing after it.
    MissingValue(String),
    /// A `--name` given twice.
    DuplicateOption(String),
    /// A `--name` that was never given.
    Required(String),
    /// A path that is not absolute.
    NotAbsolute(String),
    /// Two of the three paths are the same.
    NotDistinct,
}

/// An `OptionsError` with its text as characters.
pub ghost enum OptionsErrorView {
    ExpectedOption(Seq<char>),
    UnsupportedOption(Seq<char>),
    MissingValue(Seq<char>),
    DuplicateOption(Seq<char>),
    Required(Seq<char>),
    NotAbsolute(Seq<char>),
    NotDistinct,
}

impl View for OptionsError {
    type V = OptionsErrorView;

    open spec fn view(&self) -> OptionsErrorView {
        match self {
            OptionsError::ExpectedOption(a) => OptionsErrorView::ExpectedOption(a@),
            OptionsError::UnsupportedOption(n) => OptionsErrorView::UnsupportedOption(n@),
            OptionsError::MissingValue(n) => OptionsErrorView::MissingValue(n@),
            OptionsError::DuplicateOption(n) => OptionsErrorView::DuplicateOption(n@),
            OptionsError::Required(n) => OptionsErrorView::Required(n@),
            OptionsError::NotAbsolute(n) => OptionsErrorView::NotAbsolute(n@),
            OptionsError::NotDistinct => OptionsErrorView::NotDistinct,
        }
    }
}

/// The values given so far, by option.
pub ghost struct OptionValues {
    pub store: Option<Seq<char>>,
    pub idunn_projection: Option<Seq<char>>,
    pub idunn_anchor: Option<Seq<char>>,
}

pub open spec fn no_values() -> OptionValues {
    OptionValues { store: None, idunn_projection: None, idunn_anchor: None }
}

/// The names the daemon accepts after `--`.
pub open spec fn is_option_name(n: Seq<char>) -> bool {
    n == "store"@ || n == "idunn-projection"@ || n == "idunn-anchor"@
}

/// The value given for option `n`.
pub open spec fn value_of(v: OptionValues, n: Seq<char>) -> Option<Seq<char>> {
    if n == "store"@ {
        v.store
    } else if n == "idunn-projection"@ {
        v.idunn_projection
    } else {
        v.idunn_anchor
    }
}

/// `v` with `value` given for option `n`.
pub open spec fn with_value(v: OptionValues, n: Seq<char>, value: Seq<char>) -> OptionValues {
    if n == "store"@ {
        OptionValues { store: Some(value), ..v }
    } else if n == "idunn-projection"@ {
        OptionValues { idunn_projection: Some(value), ..v }
    } else {
        OptionValues { idunn_anchor: Some(value), ..v }
    }
}

/// `a` begins with `--`.
pub open spec fn is_flag(a: Seq<char>) -> bool {
    a.len() >= 2 && a[0] == '-' && a[1] == '-'
}

/// Reads `--name value` pairs from argument `i` on, with `acc` given
/// before.
pub open spec fn collect_values(args: Seq<Seq<char>>, i: int, acc: OptionValues) -> Result<
    OptionValues,
    OptionsErrorView,
>
    decreases args.len() - i,
{
    if i >= args.len() {
        Ok(acc)
    } else if !is_flag(args[i]) {
        Err(OptionsErrorView::ExpectedOption(args[i]))
    } else {
        let name = args[i].subrange(2, args[i].len() as int);
        if !is_option_name(name) {
            Err(OptionsErrorView::UnsupportedOption(name))
        } else if i + 1 >= args.len() {
            Err(OptionsErrorView::MissingValue(name))
        } else if value_of(acc, name) is Some {
            Err(OptionsErrorView::DuplicateOption(name))
        } else {
            collect_values(args, i + 2, with_value(acc, name, args[i + 1]))
        }
    }
}

/// The options once the values are read: each option in turn must be
/// given and absolute (`absolute` holds the answers for the store, the
/// projection and the anchor), and then the three must be distinct.
pub open spec fn finish(
    v: OptionValues,
    absolute: (bool, bool, bool),
    distinct: bool,
) -> Result<(Seq<char>, Seq<char>, Seq<char>), OptionsErrorView> {
    if v.store is None {
        Err(OptionsErrorView::Required("store"@))
    } else if !absolute.0 {
        Err(OptionsErrorView::NotAbsolute("store"@))
    } else if v.idunn_projection is None {
        Err(OptionsErrorView::Required("idunn-projection"@))
    } else if !absolute.1 {
        Err(OptionsErrorView::NotAbsolute("idunn-projection"@))
    } else if v.idunn_anchor is None {
        Err(OptionsErrorView::Required("idunn-anchor"@))
    } else if !absolute.2 {
        Err(OptionsErrorView::NotAbsolute("idunn-anchor"@))
    } else if !distinct {
        Err(OptionsErrorView::NotDistinct)
    } else {
        Ok((v.store.unwrap(), v.idunn_projection.unwrap(), v.idunn_anchor.unwrap()))
    }
}

pub open spec fn options_result_view(r: Result<Options, OptionsError>) -> Result<
    (Seq<char>, Seq<char>, Seq<char>),
    OptionsErrorView,
> {
    match r {
        Ok(o) => Ok(o@),
        Err(e) => Err(e@),
    }
}

pub open spec fn opt_view(o: Option<String>) -> Option<Seq<char>> {
    match o {
        Some(s) => Some(s@),
        None => None,
    }
}

/// The values read so far, as held while parsing.
pub struct GivenValues {
    pub store: Option<String>,
    pub idunn_projection: Option<String>,
    pub idunn_anchor: Option<String>,
}

impl View for GivenValues {
    type V = OptionValues;

    open spec fn view(&self) -> OptionValues {
        OptionValues {
            store: opt_view(self.store),
            idunn_projection: opt_view(self.idunn_projection),
            idunn_anchor: opt_view(self.idunn_anchor),
        }
    }
}

pub open spec fn args_view(args: Seq<String>) -> Seq<Seq<char>> {
    args.map_values(|s: String| s@)
}

/// Reads the `--name value` pairs of a command line.
pub fn collect_option_values(args: &Vec<String>) -> (r: Result<GivenValues, OptionsError>)
    ensures
        match r {
            Ok(v) => collect_values(args_view(args@), 0, no_values()) == Ok::<
                OptionValues,
                OptionsErrorView,
            >(v@),
            Err(e) => collect_values(args_view(args@), 0, no_values()) == Err::<
                OptionValues,
                OptionsErrorView,
            >(e@),
        },
{
    let ghost av = args_view(args@);
    let mut acc = GivenValues { store: None, idunn_projection: None, idunn_anchor: None };
    let mut i: usize = 0;
    while i < args.len()
        invariant
            av == args_view(args@),
            i <= args.len(),
            collect_values(av, 0, no_values()) == collect_values(av, i as int, acc@),
        decreases args.len() - i,
    {
        let a = chars_of(args[i].as_str());
        assert(av[i as int] == args@[i as int]@);
        if !(a.len() >= 2 && a[0] == '-' && a[1] == '-') {
            return Err(OptionsError::ExpectedOption(copy_string(&args[i])));
        }
        let mut name_chars: Vec<char> = Vec::new();
        let mut k: usize = 2;
        while k < a.len()
            invariant
                2 <= k <= a.len(),
                name_chars@ == a@.subrange(2, k as int),
            decreases a.len() - k,
        {
            name_chars.push(a[k]);
            k = k + 1;
            assert(name_chars@ =~= a@.subrange(2, k as int));
        }
        let ghost name = a@.subrange(2, a@.len() as int);
        assert(name_chars@ == name);
        let is_store = spells(name_chars.as_slice(), "store");
        let is_projection = spells(name_chars.as_slice(), "idunn-projection");
        let is_anchor = spells(name_chars.as_slice(), "idunn-anchor");
        let name_string = string_of(name_chars.as_slice());
        if !(is_store || is_projection || is_anchor) {
            return Err(OptionsError::UnsupportedOption(name_string));
        }
        if i + 1 >= args.len() {
            return Err(OptionsError::MissingValue(name_string));
        }
        assert(av[i + 1] == args@[i + 1]@);
        let value = copy_string(&args[i + 1]);
        if is_store {
            if acc.store.is_some() {
                return Err(OptionsError::DuplicateOption(name_string));
            }
            acc.store = Some(value);
        } else if is_projection {
            if acc.idunn_projection.is_some() {
                return Err(OptionsError::DuplicateOption(name_string));
            }
            acc.idunn_projection = Some(value);
        } else {
            if acc.idunn_anchor.is_some() {
                return Err(OptionsError::DuplicateOption(name_string));
            }
            acc.idunn_anchor = Some(value);
        }
        i = i + 2;
    }
    Ok(acc)
}

/// The options from the values read, given whether each path is absolute
/// and whether the three are distinct.
pub fn finish_options(values: GivenValues, absolute: (bool, bool, bool), distinct: bool) -> (r:
    Result<Options, OptionsError>)
    ensures
        options_result_view(r) == finish(values@, absolute, distinct),
{
    let GivenValues { store, idunn_projection, idunn_anchor } = values;
    let store = match store {
        None => { return Err(OptionsError::Required("store".to_string())); },
        Some(s) => s,
    };
    if !absolute.0 {
        return Err(OptionsError::NotAbsolute("store".to_string()));
    }
    let idunn_projection = match idunn_projection {
        None => { return Err(OptionsError::Required("idunn-projection".to_string())); },
        Some(s) => s,
    };
    if !absolute.1 {
        return Err(OptionsError::NotAbsolute("idunn-projection".to_string()));
    }
    let idunn_anchor = match idunn_anchor {
        None => { return Err(OptionsError::Required("idunn-anchor".to_string())); },
        Some(s) => s,
    };
    if !absolute.2 {
        return Err(OptionsError::NotAbsolute("idunn-anchor".to_string()));
    }
    if !distinct {
        return Err(OptionsError::NotDistinct);
    }
    Ok(Options { store, idunn_projection, idunn_anchor })
}

/// A path text with no `/` and no `\` in it.
pub open spec fn separator_free(p: Seq<char>) -> bool {
    !p.contains('/') && !p.contains('\\')
}

/// `Path::is_absolute` on `path`. What is absolute differs between
/// platforms (a leading `/` on Unix; a prefix and a root on Windows, where
/// every prefix with a root holds a separator), so only what holds on
/// every platform is stated: a path without any separator has no root and
/// is never absolute.
#[verifier::external_body]
fn path_is_absolute(path: &str) -> (r: bool)
    ensures
        separator_free(path@) ==> !r,
{
    std::path::Path::new(path).is_absolute()
}

/// `==` on `Path`: paths compare by components, as the platform splits
/// them. Only that a path equals itself is stated; which different texts
/// name the same path is left to the platform.
#[verifier::external_body]
fn same_path(a: &str, b: &str) -> (r: bool)
    ensures
        a@ == b@ ==> r,
{
    std::path::Path::new(a) == std::path::Path::new(b)
}

/// Whether the given path is absolute, asked only of a path that was given.
fn given_is_absolute(v: &Option<String>) -> (r: bool)
    ensures
        v is None ==> !r,
        (v matches Some(p) && separator_free(p@)) ==> !r,
{
    match v {
        Some(p) => path_is_absolute(p.as_str()),
        None => false,
    }
}

/// Parses the daemon's command line. The `--name value` pairs decide every
/// refusal but two: which paths are absolute, and which name the same
/// path, follow `std::path` on the platform it runs on.
pub fn parse_options(args: &Vec<String>) -> (r: Result<Options, OptionsError>)
    ensures
        match collect_values(args_view(args@), 0, no_values()) {
            Err(e) => r matches Err(x) && x@ == e,
            Ok(v) => exists|absolute: (bool, bool, bool), distinct: bool|
                {
                    &&& options_result_view(r) == finish(v, absolute, distinct)
                    &&& (v.store matches Some(p) && separator_free(p)) ==> !absolute.0
                    &&& (v.idunn_projection matches Some(p) && separator_free(p)) ==> !absolute.1
                    &&& (v.idunn_anchor matches Some(p) && separator_free(p)) ==> !absolute.2
                    &&& (v.store == v.idunn_projection || v.store == v.idunn_anchor
                        || v.idunn_projection == v.idunn_anchor) ==> !distinct
                },
        },
{
    let values = match collect_option_values(args) {
        Err(e) => { return Err(e); },
        Ok(v) => v,
    };
    let absolute = (
        given_is_absolute(&values.store),
        given_is_absolute(&values.idunn_projection),
        given_is_absolute(&values.idunn_anchor),
    );
    let distinct = match (&values.store, &values.idunn_projection, &values.idunn_anchor) {
        (Some(s), Some(p), Some(a)) => !same_path(s.as_str(), p.as_str()) && !same_path(
            s.as_str(),
            a.as_str(),
        ) && !same_path(p.as_str(), a.as_str()),
        _ => false,
    };
    let ghost v = values@;
    let r = finish_options(values, absolute, distinct);
    assert(options_result_view(r) == finish(v, absolute, distinct));
    r
}

impl OptionsError {
    /// The text this error is reported with.
    pub fn message(&self) -> (r: String)
        ensures
            r@ == match self@ {
                OptionsErrorView::ExpectedOption(a) => "expected --option, got "@ + debug_text(a),
                OptionsErrorView::UnsupportedOption(n) => "unsupported Odin option --"@ + n,
                OptionsErrorView::MissingValue(n) => "missing value for --"@ + n,
                OptionsErrorView::DuplicateOption(n) => "duplicate Odin option --"@ + n,
                OptionsErrorView::Required(n) => "--"@ + n + " is required"@,
                OptionsErrorView::NotAbsolute(n) => "--"@ + n + " must be an absolute path"@,
                OptionsErrorView::NotDistinct =>
                    "Odin store, Idunn projection, and Idunn anchor paths must be distinct"@,
            },
    {
        match self {
            OptionsError::ExpectedOption(a) => {
                let mut s = "expected --option, got ".to_string();
                let q = debug_quoted(a.as_str());
                push_str(&mut s, q.as_str());
                s
            },
            OptionsError::UnsupportedOption(n) => {
                let mut s = "unsupported Odin option --".to_string();
                push_str(&mut s, n.as_str());
                s
            },
            OptionsError::MissingValue(n) => {
                let mut s = "missing value for --".to_string();
                push_str(&mut s, n.as_str());
                s
            },
            OptionsError::DuplicateOption(n) => {
                let mut s = "duplicate Odin option --".to_string();
                push_str(&mut s, n.as_str());
                s
            },
            OptionsError::Required(n) => {
                let mut s = "--".to_string();
                push_str(&mut s, n.as_str());
                push_str(&mut s, " is required");
                s
            },
            OptionsError::NotAbsolute(n) => {
                let mut s = "--".to_string();
                push_str(&mut s, n.as_str());
                push_str(&mut s, " must be an absolute path");
                s
            },
            OptionsError::NotDistinct => {
                "Odin store, Idunn projection, and Idunn anchor paths must be distinct".to_string()
            },
        }
    }
}

/// The `Debug` text of a string: quoted, with quotes, backslashes and
/// unprintable characters escaped.
pub uninterp spec fn debug_text(s: Seq<char>) -> Seq<char>;

/// `format!("{:?}", s)` on a `&str`: the string in double quotes with
/// `char::escape_debug` applied; its result is named `debug_text`.
#[verifier::external_body]
fn debug_quoted(s: &str) -> (r: String)
    ensures
        r@ == debug_text(s@),
{
    format!("{:?}", s)
}

} // verus!
