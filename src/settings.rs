//! The configuration attribute of a point type. `linear_map = "method"`, or
//! `linear_map("method" : Scalar)`, names the method that mixes two points;
//! `scalars` is accepted and has no effect yet.
use vstd::prelude::*;

verus! {

/// What the configuration attributes of a point type asked for.
pub struct Settings {
    /// The method that mixes two points, when one was named.
    pub mapping: Option<String>,
    /// Whether a `scalars` option was given.
    pub scalars: bool,
}

impl Settings {
    /// No method named and no `scalars` option: what a point type without
    /// configuration attributes gets.
    pub fn new() -> (r: Settings)
        ensures
            r@ == (SettingsModel { mapping: None, scalars: false }),
    {
        Settings { mapping: None, scalars: false }
    }
}

/// The mathematical value of `Settings`.
pub ghost struct SettingsModel {
    pub mapping: Option<Seq<char>>,
    pub scalars: bool,
}

/// Why a configuration attribute was refused.
pub enum SettingsError {
    /// An option other than `linear_map` and `scalars`; holds its name.
    UnrecognizedOption(String),
    /// `linear_map` without `= "..."`.
    MappingNotString,
    /// The method that `linear_map` names is not an identifier; holds it.
    InvalidMethodName(String),
    /// The payload is not a comma separated list of options.
    Malformed,
}

/// The mathematical value of `SettingsError`.
pub ghost enum SettingsErrorModel {
    UnrecognizedOption(Seq<char>),
    MappingNotString,
    InvalidMethodName(Seq<char>),
    Malformed,
}

impl View for Settings {
    type V = SettingsModel;

    open spec fn view(&self) -> SettingsModel {
        SettingsModel {
            mapping: match self.mapping {
                Some(m) => Some(m@),
                None => None,
            },
            scalars: self.scalars,
        }
    }
}

impl View for SettingsError {
    type V = SettingsErrorModel;

    open spec fn view(&self) -> SettingsErrorModel {
        match self {
            SettingsError::UnrecognizedOption(n) => SettingsErrorModel::UnrecognizedOption(n@),
            SettingsError::MappingNotString => SettingsErrorModel::MappingNotString,
            SettingsError::InvalidMethodName(n) => SettingsErrorModel::InvalidMethodName(n@),
            SettingsError::Malformed => SettingsErrorModel::Malformed,
        }
    }
}

/// The diagnostic shown for a refused attribute.
pub open spec fn error_message(e: SettingsErrorModel) -> Seq<char> {
    match e {
        SettingsErrorModel::UnrecognizedOption(n) => "unrecognized topology_traits option `"@ + n
            + "`"@,
        SettingsErrorModel::MappingNotString => "linear_map had no ident!"@,
        SettingsErrorModel::InvalidMethodName(n) => "linear_map names `"@ + n
            + "`, which is not an identifier"@,
        SettingsErrorModel::Malformed => "expected a comma separated list of topology_traits options"@,
    }
}

impl SettingsError {
    /// The diagnostic shown to the author of the point type.
    pub fn message(&self) -> (r: String)
        ensures
            r@ == error_message(self@),
    {
        match self {
            SettingsError::UnrecognizedOption(n) => {
                let mut r = String::from_str("unrecognized topology_traits option `");
                r.append(n.as_str());
                r.append("`");
                r
            },
            SettingsError::MappingNotString => String::from_str("linear_map had no ident!"),
            SettingsError::InvalidMethodName(n) => {
                let mut r = String::from_str("linear_map names `");
                r.append(n.as_str());
                r.append("`, which is not an identifier");
                r
            },
            SettingsError::Malformed => String::from_str(
                "expected a comma separated list of topology_traits options",
            ),
        }
    }
}

/// White space between the tokens of a payload.
pub open spec fn is_space(c: char) -> bool {
    c == ' ' || c == '\t' || c == '\n' || c == '\r'
}

/// A character that can start an identifier.
pub open spec fn is_ident_start(c: char) -> bool {
    ('a' <= c && c <= 'z') || ('A' <= c && c <= 'Z') || c == '_'
}

/// A character that can continue an identifier.
pub open spec fn is_ident_continue(c: char) -> bool {
    is_ident_start(c) || ('0' <= c && c <= '9')
}

/// The first position from `i` on that holds no white space.
pub open spec fn skip_space(s: Seq<char>, i: int) -> int
    decreases s.len() - i,
{
    if 0 <= i < s.len() && is_space(s[i]) {
        skip_space(s, i + 1)
    } else {
        i
    }
}

/// The end of the identifier characters that start at `i`.
pub open spec fn ident_end(s: Seq<char>, i: int) -> int
    decreases s.len() - i,
{
    if 0 <= i < s.len() && is_ident_continue(s[i]) {
        ident_end(s, i + 1)
    } else {
        i
    }
}

/// The first occurrence of `c` from `i` on, or the end of `s`.
pub open spec fn find_char(s: Seq<char>, i: int, c: char) -> int
    decreases s.len() - i,
{
    if 0 <= i < s.len() && s[i] != c {
        find_char(s, i + 1, c)
    } else {
        i
    }
}

/// Whether `s` holds `c` at `i`.
pub open spec fn char_at(s: Seq<char>, i: int, c: char) -> bool {
    0 <= i < s.len() && s[i] == c
}

/// Skipping white space never moves back.
pub proof fn lemma_skip_space_bounds(s: Seq<char>, i: int)
    ensures
        i <= skip_space(s, i),
    decreases s.len() - i,
{
    if 0 <= i < s.len() && is_space(s[i]) {
        lemma_skip_space_bounds(s, i + 1);
    }
}

/// An identifier never ends before it starts.
pub proof fn lemma_ident_end_bounds(s: Seq<char>, i: int)
    ensures
        i <= ident_end(s, i),
    decreases s.len() - i,
{
    if 0 <= i < s.len() && is_ident_continue(s[i]) {
        lemma_ident_end_bounds(s, i + 1);
    }
}

/// A search never moves back.
pub proof fn lemma_find_char_bounds(s: Seq<char>, i: int, c: char)
    ensures
        i <= find_char(s, i, c),
    decreases s.len() - i,
{
    if 0 <= i < s.len() && s[i] != c {
        lemma_find_char_bounds(s, i + 1, c);
    }
}

/// Reading an option moves past its start, and so past `i`.
pub proof fn lemma_option_advances(s: Seq<char>, i: int, acc: SettingsModel)
    ensures
        forall|st: SettingsModel, after: int|
            parse_option(s, skip_space(s, i), acc) == Ok::<_, SettingsErrorModel>((st, after))
                ==> i < skip_space(s, after) + 1,
{
    let b = skip_space(s, i);
    let e = ident_end(s, b);
    let j = skip_space(s, e);
    let q = skip_space(s, j + 1);
    let c = find_char(s, q + 1, '"');
    let c2 = find_char(s, literal_open(s, q), '"');
    lemma_find_char_bounds(s, literal_open(s, q), '"');
    lemma_find_char_bounds(s, c2 + 1, ')');
    lemma_skip_space_bounds(s, i);
    lemma_ident_end_bounds(s, b);
    lemma_skip_space_bounds(s, e);
    lemma_skip_space_bounds(s, j + 1);
    lemma_find_char_bounds(s, q + 1, '"');
    lemma_find_char_bounds(s, c + 1, ')');
    assert forall|st: SettingsModel, after: int|
        parse_option(s, b, acc) == Ok::<_, SettingsErrorModel>((st, after)) implies i
        < skip_space(s, after) + 1 by {
        lemma_skip_space_bounds(s, after);
    }
}

/// Where the contents of a string literal that starts at `q` begin: after
/// `"`, or after `r"` for a raw string. `q` itself where no literal starts.
pub open spec fn literal_open(s: Seq<char>, q: int) -> int {
    if char_at(s, q, '"') {
        q + 1
    } else if char_at(s, q, 'r') && char_at(s, q + 1, '"') {
        q + 2
    } else {
        q
    }
}

/// The option that starts at `i`, applied to `acc`, with the position after
/// it. `linear_map` takes `= "method"` (or a raw `r"method"`), or
/// `("method" ...)` where what
/// follows the literal up to `)` names the scalar type and is not read;
/// `scalars` takes `= "..."` or nothing, and is not read either.
pub open spec fn parse_option(s: Seq<char>, i: int, acc: SettingsModel) -> Result<
    (SettingsModel, int),
    SettingsErrorModel,
> {
    let e = ident_end(s, i);
    let name = s.subrange(i, e);
    let j = skip_space(s, e);
    if name == "linear_map"@ {
        let q = skip_space(s, j + 1);
        let open = literal_open(s, q);
        let c = find_char(s, open, '"');
        let method = s.subrange(open, c);
        if !(char_at(s, j, '=') || char_at(s, j, '(')) || open == q {
            Err(SettingsErrorModel::MappingNotString)
        } else if c >= s.len() {
            Err(SettingsErrorModel::Malformed)
        } else if char_at(s, j, '=') {
            Ok((SettingsModel { mapping: Some(method), ..acc }, c + 1))
        } else {
            let p = find_char(s, c + 1, ')');
            if p >= s.len() {
                Err(SettingsErrorModel::Malformed)
            } else {
                Ok((SettingsModel { mapping: Some(method), ..acc }, p + 1))
            }
        }
    } else if name == "scalars"@ {
        if char_at(s, j, '=') {
            let q = skip_space(s, j + 1);
            let c = find_char(s, q + 1, '"');
            if !char_at(s, q, '"') || c >= s.len() {
                Err(SettingsErrorModel::Malformed)
            } else {
                Ok((SettingsModel { scalars: true, ..acc }, c + 1))
            }
        } else {
            Ok((SettingsModel { scalars: true, ..acc }, e))
        }
    } else {
        Err(SettingsErrorModel::UnrecognizedOption(name))
    }
}

/// The comma separated options from `i` on, applied in order to `acc`.
pub open spec fn parse_options(s: Seq<char>, i: int, acc: SettingsModel) -> Result<
    SettingsModel,
    SettingsErrorModel,
>
    decreases s.len() - i,
{
    let b = skip_space(s, i);
    if b >= s.len() {
        Ok(acc)
    } else if !is_ident_start(s[b]) {
        Err(SettingsErrorModel::Malformed)
    } else {
        match parse_option(s, b, acc) {
            Err(err) => Err(err),
            Ok((next, after)) => {
                let k = skip_space(s, after);
                if k >= s.len() {
                    Ok(next)
                } else if s[k] != ',' {
                    Err(SettingsErrorModel::Malformed)
                } else {
                    proof {
                        lemma_option_advances(s, i, acc);
                    }
                    parse_options(s, k + 1, next)
                }
            },
        }
    }
}

/// A payload whose first option is named neither `linear_map` nor `scalars`
/// is refused, and the refusal names that option.
pub proof fn lemma_unrecognized_option_refused(s: Seq<char>, acc: SettingsModel)
    requires
        skip_space(s, 0) < s.len(),
        is_ident_start(s[skip_space(s, 0)]),
        s.subrange(skip_space(s, 0), ident_end(s, skip_space(s, 0))) != "linear_map"@,
        s.subrange(skip_space(s, 0), ident_end(s, skip_space(s, 0))) != "scalars"@,
    ensures
        parse_options(s, 0, acc) == Err::<SettingsModel, _>(
            SettingsErrorModel::UnrecognizedOption(
                s.subrange(skip_space(s, 0), ident_end(s, skip_space(s, 0))),
            ),
        ),
{
    lemma_skip_space_bounds(s, 0);
}

fn space_char(c: char) -> (r: bool)
    ensures
        r == is_space(c),
{
    c == ' ' || c == '\t' || c == '\n' || c == '\r'
}

fn ident_start_char(c: char) -> (r: bool)
    ensures
        r == is_ident_start(c),
{
    ('a' <= c && c <= 'z') || ('A' <= c && c <= 'Z') || c == '_'
}

fn ident_continue_char(c: char) -> (r: bool)
    ensures
        r == is_ident_continue(c),
{
    ident_start_char(c) || ('0' <= c && c <= '9')
}

fn skip_space_at(s: &str, n: usize, i: usize) -> (r: usize)
    requires
        n == s@.len(),
        i <= n,
    ensures
        r == skip_space(s@, i as int),
        i <= r <= n,
{
    let mut j = i;
    while j < n && space_char(s.get_char(j))
        invariant
            n == s@.len(),
            i <= j <= n,
            skip_space(s@, i as int) == skip_space(s@, j as int),
        decreases n - j,
    {
        j = j + 1;
    }
    j
}

fn ident_end_at(s: &str, n: usize, i: usize) -> (r: usize)
    requires
        n == s@.len(),
        i <= n,
    ensures
        r == ident_end(s@, i as int),
        i <= r <= n,
{
    let mut j = i;
    while j < n && ident_continue_char(s.get_char(j))
        invariant
            n == s@.len(),
            i <= j <= n,
            ident_end(s@, i as int) == ident_end(s@, j as int),
        decreases n - j,
    {
        j = j + 1;
    }
    j
}

fn find_char_at(s: &str, n: usize, i: usize, c: char) -> (r: usize)
    requires
        n == s@.len(),
        i <= n,
    ensures
        r == find_char(s@, i as int, c),
        i <= r <= n,
{
    let mut j = i;
    while j < n && s.get_char(j) != c
        invariant
            n == s@.len(),
            i <= j <= n,
            find_char(s@, i as int, c) == find_char(s@, j as int, c),
        decreases n - j,
    {
        j = j + 1;
    }
    j
}

fn char_at_pos(s: &str, n: usize, i: usize, c: char) -> (r: bool)
    requires
        n == s@.len(),
    ensures
        r == char_at(s@, i as int, c),
{
    i < n && s.get_char(i) == c
}

fn option_at(s: &str, n: usize, i: usize, acc: Settings) -> (r: Result<(Settings, usize), SettingsError>)
    requires
        n == s@.len(),
        i <= n,
    ensures
        match r {
            Ok((st, after)) => parse_option(s@, i as int, acc@) == Ok::<_, SettingsErrorModel>(
                (st@, after as int),
            ) && i <= after <= n,
            Err(err) => parse_option(s@, i as int, acc@) == Err::<(SettingsModel, int), _>(err@),
        },
{
    let e = ident_end_at(s, n, i);
    let name = String::from_str(s.substring_char(i, e));
    let j = skip_space_at(s, n, e);
    if name == String::from_str("linear_map") {
        let assigned = char_at_pos(s, n, j, '=');
        if !assigned && !char_at_pos(s, n, j, '(') {
            return Err(SettingsError::MappingNotString);
        }
        let q = skip_space_at(s, n, j + 1);
        let open = if char_at_pos(s, n, q, '"') {
            q + 1
        } else if char_at_pos(s, n, q, 'r') && char_at_pos(s, n, q + 1, '"') {
            q + 2
        } else {
            return Err(SettingsError::MappingNotString);
        };
        let c = find_char_at(s, n, open, '"');
        if c >= n {
            return Err(SettingsError::Malformed);
        }
        let mapping = Some(String::from_str(s.substring_char(open, c)));
        if assigned {
            Ok((Settings { mapping, scalars: acc.scalars }, c + 1))
        } else {
            let p = find_char_at(s, n, c + 1, ')');
            if p >= n {
                return Err(SettingsError::Malformed);
            }
            Ok((Settings { mapping, scalars: acc.scalars }, p + 1))
        }
    } else if name == String::from_str("scalars") {
        if char_at_pos(s, n, j, '=') {
            let q = skip_space_at(s, n, j + 1);
            if !char_at_pos(s, n, q, '"') {
                return Err(SettingsError::Malformed);
            }
            let c = find_char_at(s, n, q + 1, '"');
            if c >= n {
                return Err(SettingsError::Malformed);
            }
            Ok((Settings { mapping: acc.mapping, scalars: true }, c + 1))
        } else {
            Ok((Settings { mapping: acc.mapping, scalars: true }, e))
        }
    } else {
        Err(SettingsError::UnrecognizedOption(name))
    }
}

/// Applies the options of one configuration attribute, in order, to
/// `settings`. The payload is what stands between the parentheses of the
/// attribute: `linear_map = "mix", scalars`.
pub fn read_attribute(settings: Settings, payload: &str) -> (r: Result<Settings, SettingsError>)
    ensures
        match r {
            Ok(st) => parse_options(payload@, 0, settings@) == Ok::<_, SettingsErrorModel>(st@),
            Err(err) => parse_options(payload@, 0, settings@) == Err::<SettingsModel, _>(err@),
        },
{
    let n = payload.unicode_len();
    let mut acc = settings;
    let mut i: usize = 0;
    while i <= n
        invariant
            n == payload@.len(),
            i <= n + 1,
            parse_options(payload@, 0, settings@) == parse_options(payload@, i as int, acc@),
        decreases n + 1 - i,
    {
        let b = skip_space_at(payload, n, i);
        if b >= n {
            return Ok(acc);
        }
        if !ident_start_char(payload.get_char(b)) {
            return Err(SettingsError::Malformed);
        }
        match option_at(payload, n, b, acc) {
            Err(err) => {
                return Err(err);
            },
            Ok((next, after)) => {
                let k = skip_space_at(payload, n, after);
                if k >= n {
                    return Ok(next);
                }
                if payload.get_char(k) != ',' {
                    return Err(SettingsError::Malformed);
                }
                acc = next;
                i = k + 1;
            },
        }
    }
    Ok(acc)
}

} // verus!
