//! The implementations that a point type is given: `Geodesic` with paths
//! `[Self; 2]`, and `Connected` on those paths, written out as source text.
use vstd::prelude::*;
use crate::settings::{
    ident_end,
    is_ident_start,
    lemma_unrecognized_option_refused,
    parse_options,
    skip_space,
    read_attribute,
    Settings,
    SettingsError,
    SettingsErrorModel,
    SettingsModel,
};

verus! {

/// What the generator reads of a point type's declaration, as source text.
pub struct TypeDecl {
    /// The type's name.
    pub name: String,
    /// The type's generic arguments as they follow its name (`<R>`), or empty.
    pub type_args: String,
    /// The predicates of the type's `where` clause, or empty.
    pub where_predicates: String,
}

/// The type as it is written in an impl header: name and generic arguments.
pub open spec fn type_text(d: TypeDecl) -> Seq<char> {
    d.name@ + d.type_args@
}

/// The declared predicates followed by a separating comma, or nothing.
pub open spec fn predicates_text(d: TypeDecl) -> Seq<char> {
    let p = d.where_predicates@;
    if p.len() == 0 {
        Seq::empty()
    } else if p.last() == ',' {
        p + " "@
    } else {
        p + ", "@
    }
}

/// The `where` clause of the arithmetic expansion: the declared predicates
/// and the operators that a linear blend uses.
pub open spec fn arithmetic_bounds(d: TypeDecl) -> Seq<char> {
    let t = type_text(d);
    "where "@ + predicates_text(d) + t + ": ::core::ops::Mul<R, Output = "@ + t
        + ">, "@ + t + ": ::core::ops::Add<Output = "@ + t + ">, R: ::num_traits::real::Real,"@
}

/// The items of the `Geodesic` impl: paths are `[Self; 2]`.
pub open spec fn geodesic_items() -> Seq<char> {
    "type Path = [Self; 2]; fn path_between(self, to: Self) -> Self::Path { [self, to] } fn shortest_path(self, to: Self) -> Self::Path { [self, to] }"@
}

/// The two impls, with `bounds` as their `where` clause and `body` as the
/// body of `contract` and of its model `point_at`.
pub open spec fn impls_text(d: TypeDecl, bounds: Seq<char>, body: Seq<char>) -> Seq<char> {
    let t = type_text(d);
    "impl<R> ::topology_traits::Geodesic<R> for "@ + t + " "@ + bounds + " { "@ + geodesic_items()
        + " } impl<R> ::topology_traits::Connected<"@ + t + ", R> for ["@ + t + "; 2] "@ + bounds
        + " { fn point_at(&self, factor: R) -> "@ + t + " { "@ + body
        + " } fn contract(&self, factor: R) -> "@ + t + " { "@ + body + " } }"@
}

/// The blend `a * (1 - t) + b * t` of the path's two points.
pub open spec fn arithmetic_body() -> Seq<char> {
    "self[0] * (R::one() - factor) + self[1] * factor"@
}

/// A call of the named method on the path's two points.
pub open spec fn mapping_body(method: Seq<char>) -> Seq<char> {
    "self[0]."@ + method + "(self[1], factor)"@
}

/// The source text generated for `d` under `st`.
pub open spec fn expansion(d: TypeDecl, st: SettingsModel) -> Seq<char> {
    match st.mapping {
        None => impls_text(d, arithmetic_bounds(d), arithmetic_body()),
        Some(m) => impls_text(d, Seq::empty(), mapping_body(m)),
    }
}

fn type_string(d: &TypeDecl) -> (r: String)
    ensures
        r@ == type_text(*d),
{
    let mut t = String::from_str(d.name.as_str());
    t.append(d.type_args.as_str());
    t
}

fn predicates_string(d: &TypeDecl) -> (r: String)
    ensures
        r@ == predicates_text(*d),
{
    let p = d.where_predicates.as_str();
    let n = p.unicode_len();
    if n == 0 {
        return String::new();
    }
    let mut r = String::from_str(p);
    if p.get_char(n - 1) == ',' {
        r.append(" ");
    } else {
        r.append(", ");
    }
    r
}

fn arithmetic_bounds_string(d: &TypeDecl) -> (r: String)
    ensures
        r@ == arithmetic_bounds(*d),
{
    let t = type_string(d);
    let mut r = String::from_str("where ");
    r.append(predicates_string(d).as_str());
    r.append(t.as_str());
    r.append(": ::core::ops::Mul<R, Output = ");
    r.append(t.as_str());
    r.append(">, ");
    r.append(t.as_str());
    r.append(": ::core::ops::Add<Output = ");
    r.append(t.as_str());
    r.append(">, R: ::num_traits::real::Real,");
    r
}

fn impls_string(d: &TypeDecl, bounds: &str, body: &str) -> (r: String)
    ensures
        r@ == impls_text(*d, bounds@, body@),
{
    let t = type_string(d);
    let mut r = String::from_str("impl<R> ::topology_traits::Geodesic<R> for ");
    r.append(t.as_str());
    r.append(" ");
    r.append(bounds);
    r.append(" { ");
    r.append(
        "type Path = [Self; 2]; fn path_between(self, to: Self) -> Self::Path { [self, to] } fn shortest_path(self, to: Self) -> Self::Path { [self, to] }",
    );
    r.append(" } impl<R> ::topology_traits::Connected<");
    r.append(t.as_str());
    r.append(", R> for [");
    r.append(t.as_str());
    r.append("; 2] ");
    r.append(bounds);
    r.append(" { fn point_at(&self, factor: R) -> ");
    r.append(t.as_str());
    r.append(" { ");
    r.append(body);
    r.append(" } fn contract(&self, factor: R) -> ");
    r.append(t.as_str());
    r.append(" { ");
    r.append(body);
    r.append(" } }");
    r
}

/// The implementations for a type that supports addition and
/// multiplication by a real scalar: the path is contracted by the linear
/// blend `a * (1 - t) + b * t`.
pub fn impl_real_vector_space(d: &TypeDecl) -> (r: String)
    ensures
        r@ == impls_text(*d, arithmetic_bounds(*d), arithmetic_body()),
{
    let bounds = arithmetic_bounds_string(d);
    impls_string(d, bounds.as_str(), "self[0] * (R::one() - factor) + self[1] * factor")
}

/// The implementations for a type that mixes two points with its own
/// method `method`: the path is contracted by calling it.
pub fn impl_linear_mapping(d: &TypeDecl, method: &str) -> (r: String)
    ensures
        r@ == impls_text(*d, Seq::empty(), mapping_body(method@)),
{
    let mut body = String::from_str("self[0].");
    body.append(method);
    body.append("(self[1], factor)");
    proof {
        reveal_strlit("");
    }
    assert(""@ =~= Seq::<char>::empty());
    impls_string(d, "", body.as_str())
}

/// A word that Rust reserves.
pub open spec fn is_keyword(w: Seq<char>) -> bool {
    ||| w == "abstract"@ ||| w == "as"@ ||| w == "async"@ ||| w == "await"@
    ||| w == "become"@ ||| w == "box"@ ||| w == "break"@ ||| w == "const"@
    ||| w == "continue"@ ||| w == "crate"@ ||| w == "do"@ ||| w == "dyn"@
    ||| w == "else"@ ||| w == "enum"@ ||| w == "false"@ ||| w == "fn"@
    ||| w == "for"@ ||| w == "if"@ ||| w == "impl"@ ||| w == "in"@ ||| w == "let"@
    ||| w == "loop"@ ||| w == "macro"@ ||| w == "match"@ ||| w == "mod"@
    ||| w == "move"@ ||| w == "mut"@ ||| w == "override"@ ||| w == "priv"@
    ||| w == "pub"@ ||| w == "ref"@ ||| w == "return"@ ||| w == "Self"@
    ||| w == "self"@ ||| w == "static"@ ||| w == "struct"@ ||| w == "super"@
    ||| w == "trait"@ ||| w == "true"@ ||| w == "try"@ ||| w == "type"@
    ||| w == "typeof"@ ||| w == "unsafe"@ ||| w == "unsized"@ ||| w == "use"@
    ||| w == "virtual"@ ||| w == "where"@ ||| w == "while"@ ||| w == "yield"@
}

/// Relies on syn's `Ident` parser, through `syn::parse_str`: which strings
/// it accepts depends on the lexer that runs (the compiler's inside a
/// procedural macro, proc-macro2's own elsewhere), but none of them accepts
/// an empty string, `_` or a keyword.
#[verifier::external_body]
fn rust_ident(s: &str) -> (r: bool)
    ensures
        r ==> s@.len() > 0 && s@ != "_"@ && !is_keyword(s@),
{
    syn::parse_str::<syn::Ident>(s).is_ok()
}

/// A character that a lexer skips between tokens, or that starts a comment.
pub open spec fn is_separator(c: char) -> bool {
    c == ' ' || c == '\t' || c == '\n' || c == '\r' || c == '\u{0B}' || c == '\u{0C}'
        || c == '\u{85}' || c == '\u{200E}' || c == '\u{200F}' || c == '\u{2028}'
        || c == '\u{2029}' || c == '/'
}

/// A method text that is one token: it holds no separator.
pub open spec fn is_single_word(m: Seq<char>) -> bool {
    forall|k: int| 0 <= k < m.len() ==> !is_separator(#[trigger] m[k])
}

/// Whether the named method is spliced: it is one word and the identifier
/// check (`checked`) accepted it.
pub open spec fn method_accepted(m: Seq<char>, checked: bool) -> bool {
    checked && is_single_word(m)
}

fn separator_char(c: char) -> (r: bool)
    ensures
        r == is_separator(c),
{
    c == ' ' || c == '\t' || c == '\n' || c == '\r' || c == '\u{0B}' || c == '\u{0C}'
        || c == '\u{85}' || c == '\u{200E}' || c == '\u{200F}' || c == '\u{2028}'
        || c == '\u{2029}' || c == '/'
}

/// Whether `m` holds no separator.
pub fn single_word(m: &str) -> (r: bool)
    ensures
        r == is_single_word(m@),
{
    let n = m.unicode_len();
    let mut k: usize = 0;
    while k < n
        invariant
            n == m@.len(),
            k <= n,
            forall|j: int| 0 <= j < k ==> !is_separator(#[trigger] m@[j]),
        decreases n - k,
    {
        if separator_char(m.get_char(k)) {
            return false;
        }
        k = k + 1;
    }
    true
}

/// The source text generated for `d` under `settings`, where `checked`
/// says whether the named method, if any, passed the identifier check.
/// A named method that is refused gives `InvalidMethodName` with its text.
pub fn generate_checked(d: &TypeDecl, settings: &Settings, checked: bool) -> (r: Result<
    String,
    SettingsError,
>)
    ensures
        match settings@.mapping {
            None => r matches Ok(text) && text@ == expansion(*d, settings@),
            Some(m) => if method_accepted(m, checked) {
                r matches Ok(text) && text@ == expansion(*d, settings@)
            } else {
                r matches Err(e) && e@ == SettingsErrorModel::InvalidMethodName(m)
            },
        },
{
    match &settings.mapping {
        None => Ok(impl_real_vector_space(d)),
        Some(m) => {
            if checked && single_word(m.as_str()) {
                Ok(impl_linear_mapping(d, m.as_str()))
            } else {
                Err(SettingsError::InvalidMethodName(String::from_str(m.as_str())))
            }
        },
    }
}

/// The settings that the configuration attribute payloads `ps` give, read
/// in order, or the position of the first payload refused and why.
pub open spec fn settings_of(ps: Seq<String>) -> Result<SettingsModel, (int, SettingsErrorModel)>
    decreases ps.len(),
{
    if ps.len() == 0 {
        Ok(SettingsModel { mapping: None, scalars: false })
    } else {
        match settings_of(ps.drop_last()) {
            Ok(st) => match parse_options(ps.last()@, 0, st) {
                Ok(next) => Ok(next),
                Err(err) => Err((ps.len() - 1, err)),
            },
            Err(refusal) => Err(refusal),
        }
    }
}

/// Reads the configuration attribute payloads of a point type, in order,
/// and generates its implementations: by the linear blend where no method
/// is named, by a call of the named method otherwise. Refuses the first
/// payload that is not a valid list of options, with its position; refuses
/// a named method that is not an identifier, with no position.
pub fn expand(d: &TypeDecl, payloads: &Vec<String>) -> (r: Result<
    String,
    (Option<usize>, SettingsError),
>)
    ensures
        match settings_of(payloads@) {
            Err((k, err)) => r matches Err((at, e)) && at == Some(k as usize) && e@ == err,
            Ok(st) => match st.mapping {
                None => r matches Ok(text) && text@ == expansion(*d, st),
                Some(m) => {
                    ||| (r matches Ok(text) && text@ == expansion(*d, st) && is_single_word(m)
                        && m.len() > 0 && m != "_"@ && !is_keyword(m))
                    ||| (r matches Err((at, e)) && at is None
                        && e@ == SettingsErrorModel::InvalidMethodName(m))
                },
            },
        },
{
    let mut settings = Settings::new();
    let mut i: usize = 0;
    while i < payloads.len()
        invariant
            i <= payloads@.len(),
            settings_of(payloads@.subrange(0, i as int)) == Ok::<_, (int, SettingsErrorModel)>(
                settings@,
            ),
        decreases payloads.len() - i,
    {
        assert(payloads@.subrange(0, i + 1).drop_last() =~= payloads@.subrange(0, i as int));
        match read_attribute(settings, payloads[i].as_str()) {
            Ok(next) => {
                settings = next;
            },
            Err(err) => {
                proof {
                    lemma_refusal_stays(payloads@, i as int + 1);
                }
                return Err((Some(i), err));
            },
        }
        i = i + 1;
    }
    assert(payloads@.subrange(0, i as int) =~= payloads@);
    let checked = match &settings.mapping {
        Some(m) => rust_ident(m.as_str()),
        None => true,
    };
    match generate_checked(d, &settings, checked) {
        Ok(text) => Ok(text),
        Err(e) => Err((None, e)),
    }
}

/// When the payloads before the last are accepted and the last one starts
/// with an option named neither `linear_map` nor `scalars`, generation is
/// refused at the last payload, and the refusal names that option.
pub proof fn lemma_unrecognized_option_fails_generation(ps: Seq<String>)
    requires
        ps.len() > 0,
        settings_of(ps.drop_last()) is Ok,
        skip_space(ps.last()@, 0) < ps.last()@.len(),
        is_ident_start(ps.last()@[skip_space(ps.last()@, 0)]),
        ps.last()@.subrange(
            skip_space(ps.last()@, 0),
            ident_end(ps.last()@, skip_space(ps.last()@, 0)),
        ) != "linear_map"@,
        ps.last()@.subrange(
            skip_space(ps.last()@, 0),
            ident_end(ps.last()@, skip_space(ps.last()@, 0)),
        ) != "scalars"@,
    ensures
        settings_of(ps) == Err::<SettingsModel, _>(
            (
                ps.len() - 1,
                SettingsErrorModel::UnrecognizedOption(
                    ps.last()@.subrange(
                        skip_space(ps.last()@, 0),
                        ident_end(ps.last()@, skip_space(ps.last()@, 0)),
                    ),
                ),
            ),
        ),
{
    lemma_unrecognized_option_refused(ps.last()@, settings_of(ps.drop_last())->Ok_0);
}

/// An attribute payload that starts with an option named neither
/// `linear_map` nor `scalars` is never ignored: generation is refused, at
/// that payload or at an earlier one.
pub proof fn lemma_unrecognized_option_never_ignored(ps: Seq<String>, j: int)
    requires
        0 <= j < ps.len(),
        skip_space(ps[j]@, 0) < ps[j]@.len(),
        is_ident_start(ps[j]@[skip_space(ps[j]@, 0)]),
        ps[j]@.subrange(skip_space(ps[j]@, 0), ident_end(ps[j]@, skip_space(ps[j]@, 0)))
            != "linear_map"@,
        ps[j]@.subrange(skip_space(ps[j]@, 0), ident_end(ps[j]@, skip_space(ps[j]@, 0)))
            != "scalars"@,
    ensures
        settings_of(ps) is Err,
{
    let pre = ps.subrange(0, j + 1);
    assert(pre.last() == ps[j]);
    if settings_of(pre.drop_last()) is Ok {
        lemma_unrecognized_option_fails_generation(pre);
    }
    lemma_refusal_stays(ps, j + 1);
}

/// Once a prefix of the payloads is refused, every longer prefix is refused
/// with the same error.
proof fn lemma_refusal_stays(ps: Seq<String>, k: int)
    requires
        0 < k <= ps.len(),
        settings_of(ps.subrange(0, k)) is Err,
    ensures
        settings_of(ps) == settings_of(ps.subrange(0, k)),
    decreases ps.len() - k,
{
    if k < ps.len() {
        assert(ps.subrange(0, k + 1).drop_last() =~= ps.subrange(0, k));
        lemma_refusal_stays(ps, k + 1);
    } else {
        assert(ps.subrange(0, k) =~= ps);
    }
}

} // verus!
