use crate::failure::{Failure, FailureView};
use crate::strmap::{text_map, StrMap};
use crate::text::{chars_of, push_str, string_of, string_of_range};
use vstd::prelude::*;

verus! {

/// A character that may stand in the name of a placeholder: an ASCII letter or digit,
/// `_` or `.`.
pub open spec fn is_name_char(c: char) -> bool {
    ('a' <= c && c <= 'z') || ('A' <= c && c <= 'Z') || ('0' <= c && c <= '9') || c == '_' || c
        == '.'
}

/// A white-space character of Unicode.
pub open spec fn is_space(c: char) -> bool {
    ('\u{9}' <= c && c <= '\u{d}') || c == ' ' || c == '\u{85}' || c == '\u{a0}' || c == '\u{1680}'
        || ('\u{2000}' <= c && c <= '\u{200a}') || c == '\u{2028}' || c == '\u{2029}' || c
        == '\u{202f}' || c == '\u{205f}' || c == '\u{3000}'
}

/// The first position from `i` on that holds no white space; the length if there is none.
pub open spec fn skip_spaces(s: Seq<char>, i: int) -> int
    decreases s.len() - i,
{
    if 0 <= i < s.len() && is_space(s[i]) {
        skip_spaces(s, i + 1)
    } else {
        i
    }
}

/// The first position from `i` on that holds no name character; the length if there is none.
pub open spec fn skip_name(s: Seq<char>, i: int) -> int
    decreases s.len() - i,
{
    if 0 <= i < s.len() && is_name_char(s[i]) {
        skip_name(s, i + 1)
    } else {
        i
    }
}

/// The first position from `i` on that holds `}`; the length if there is none.
pub open spec fn find_close(s: Seq<char>, i: int) -> int
    decreases s.len() - i,
{
    if 0 <= i < s.len() && s[i] != '}' {
        find_close(s, i + 1)
    } else {
        i
    }
}

/// One occurrence of `${name}` or `${name or default}` in a text.
pub struct Placeholder {
    /// The name between the braces.
    pub name: Seq<char>,
    /// The text after `or`, where there is one.
    pub default: Option<Seq<char>>,
    /// The position just behind the closing brace.
    pub end: int,
}

/// The placeholder that begins at position `i` of `s`, if one does.
///
/// A placeholder is `${`, white space or none, a name of one or more name characters,
/// and `}`; between the name and `}` there may stand white space, `or`, white space and
/// a default, which is one or more characters other than `}`. The white space before
/// the default is as long as it can be while a default is left.
pub open spec fn placeholder_at(s: Seq<char>, i: int) -> Option<Placeholder> {
    if !(0 <= i && i + 1 < s.len() && s[i] == '$' && s[i + 1] == '{') {
        None
    } else {
        let from = skip_spaces(s, i + 2);
        let to = skip_name(s, from);
        let name = s.subrange(from, to);
        if to == from {
            None
        } else if to < s.len() && s[to] == '}' {
            Some(Placeholder { name, default: None, end: to + 1 })
        } else {
            let or_at = skip_spaces(s, to);
            if or_at == to || !(or_at + 1 < s.len() && s[or_at] == 'o' && s[or_at + 1] == 'r') {
                None
            } else {
                let start = skip_spaces(s, or_at + 2);
                let close = find_close(s, start);
                if start == or_at + 2 || close >= s.len() {
                    None
                } else if close > start {
                    Some(Placeholder { name, default: Some(s.subrange(start, close)), end: close + 1 })
                } else if start >= or_at + 4 {
                    Some(
                        Placeholder {
                            name,
                            default: Some(s.subrange(start - 1, start)),
                            end: close + 1,
                        },
                    )
                } else {
                    None
                }
            }
        }
    }
}

/// `skip_spaces` goes forward and stays within the text.
pub proof fn lemma_skip_spaces_bounds(s: Seq<char>, i: int)
    requires
        0 <= i <= s.len(),
    ensures
        i <= skip_spaces(s, i) <= s.len(),
    decreases s.len() - i,
{
    if i < s.len() && is_space(s[i]) {
        lemma_skip_spaces_bounds(s, i + 1);
    }
}

/// `skip_name` goes forward and stays within the text.
pub proof fn lemma_skip_name_bounds(s: Seq<char>, i: int)
    requires
        0 <= i <= s.len(),
    ensures
        i <= skip_name(s, i) <= s.len(),
    decreases s.len() - i,
{
    if i < s.len() && is_name_char(s[i]) {
        lemma_skip_name_bounds(s, i + 1);
    }
}

/// `find_close` goes forward and stays within the text.
pub proof fn lemma_find_close_bounds(s: Seq<char>, i: int)
    requires
        0 <= i <= s.len(),
    ensures
        i <= find_close(s, i) <= s.len(),
    decreases s.len() - i,
{
    if i < s.len() && s[i] != '}' {
        lemma_find_close_bounds(s, i + 1);
    }
}

/// A placeholder ends behind its beginning and within the text, and its name is not
/// empty.
pub proof fn lemma_placeholder_bounds(s: Seq<char>, i: int)
    ensures
        placeholder_at(s, i) matches Some(p) ==> 0 <= i && i + 3 < p.end <= s.len() && p.name.len()
            > 0 && (p.default matches Some(d) ==> d.len() > 0),
{
    if 0 <= i && i + 1 < s.len() {
        lemma_skip_spaces_bounds(s, i + 2);
        let from = skip_spaces(s, i + 2);
        lemma_skip_name_bounds(s, from);
        let to = skip_name(s, from);
        lemma_skip_spaces_bounds(s, to);
        let or_at = skip_spaces(s, to);
        if or_at + 2 <= s.len() {
            lemma_skip_spaces_bounds(s, or_at + 2);
            let start = skip_spaces(s, or_at + 2);
            lemma_find_close_bounds(s, start);
        }
    }
}

/// Whether a placeholder's name asks for an environment variable: it begins with
/// `env.` or `ENV.`.
pub open spec fn is_env_name(name: Seq<char>) -> bool {
    &&& name.len() >= 4
    &&& name[3] == '.'
    &&& (name[0] == 'e' && name[1] == 'n' && name[2] == 'v') || (name[0] == 'E' && name[1] == 'N'
        && name[2] == 'V')
}

/// Whether the placeholder names an environment variable that is set.
pub open spec fn hits_environment(p: Placeholder, environment: Map<Seq<char>, Seq<char>>) -> bool {
    is_env_name(p.name) && environment.contains_key(p.name.skip(4))
}

/// The text that takes the place of a placeholder, or the reason why there is none.
///
/// A name that begins with `env.` or `ENV.` is looked up, without that prefix, in the
/// environment: the variable's value if it is set, else the default, else a failure.
/// Any other name is looked up in the arguments: the argument if it is given and not
/// empty; the default, if there is one, where the argument is empty or not given; the
/// empty text where it is empty and there is no default; a failure where it is not given
/// and there is no default.
pub open spec fn value_of(
    p: Placeholder,
    arguments: Map<Seq<char>, Seq<char>>,
    environment: Map<Seq<char>, Seq<char>>,
) -> Result<Seq<char>, FailureView> {
    if is_env_name(p.name) {
        let variable = p.name.skip(4);
        if environment.contains_key(variable) {
            Ok(environment[variable])
        } else {
            match p.default {
                Some(default) => Ok(default),
                None => Err(FailureView::EnvVarMissing { name: variable }),
            }
        }
    } else if arguments.contains_key(p.name) {
        let given = arguments[p.name];
        match p.default {
            Some(default) if given.len() == 0 => Ok(default),
            _ => Ok(given),
        }
    } else {
        match p.default {
            Some(default) => Ok(default),
            None => Err(FailureView::ArgumentNotProvided { name: p.name }),
        }
    }
}

/// `s` from position `i` on, with each placeholder replaced by its value in one pass
/// from left to right; the first placeholder that has no value makes it fail.
pub open spec fn rendered(
    s: Seq<char>,
    i: int,
    arguments: Map<Seq<char>, Seq<char>>,
    environment: Map<Seq<char>, Seq<char>>,
) -> Result<Seq<char>, FailureView>
    decreases s.len() - i,
    via rendered_decreases
{
    if !(0 <= i < s.len()) {
        Ok(Seq::empty())
    } else {
        match placeholder_at(s, i) {
            None => match rendered(s, i + 1, arguments, environment) {
                Ok(rest) => Ok(seq![s[i]] + rest),
                Err(e) => Err(e),
            },
            Some(p) => match value_of(p, arguments, environment) {
                Err(e) => Err(e),
                Ok(value) => match rendered(s, p.end, arguments, environment) {
                    Ok(rest) => Ok(value + rest),
                    Err(e) => Err(e),
                },
            },
        }
    }
}

#[via_fn]
proof fn rendered_decreases(
    s: Seq<char>,
    i: int,
    arguments: Map<Seq<char>, Seq<char>>,
    environment: Map<Seq<char>, Seq<char>>,
) {
    lemma_placeholder_bounds(s, i);
}

/// `overlay` with the environment variables that the placeholders of `s` from position
/// `i` on name and that are set, each with its value.
pub open spec fn recorded(
    s: Seq<char>,
    i: int,
    environment: Map<Seq<char>, Seq<char>>,
    overlay: Map<Seq<char>, Seq<char>>,
) -> Map<Seq<char>, Seq<char>>
    decreases s.len() - i,
    via recorded_decreases
{
    if !(0 <= i < s.len()) {
        overlay
    } else {
        match placeholder_at(s, i) {
            None => recorded(s, i + 1, environment, overlay),
            Some(p) => recorded(
                s,
                p.end,
                environment,
                if hits_environment(p, environment) {
                    overlay.insert(p.name.skip(4), environment[p.name.skip(4)])
                } else {
                    overlay
                },
            ),
        }
    }
}

#[via_fn]
proof fn recorded_decreases(
    s: Seq<char>,
    i: int,
    environment: Map<Seq<char>, Seq<char>>,
    overlay: Map<Seq<char>, Seq<char>>,
) {
    lemma_placeholder_bounds(s, i);
}

/// Where a placeholder stands in a text: the bounds of its name and of its default, and
/// the position behind its closing brace.
pub struct Span {
    pub name_from: usize,
    pub name_to: usize,
    pub default: Option<(usize, usize)>,
    pub end: usize,
}

impl Span {
    /// The placeholder that the span cuts out of `s`.
    pub open spec fn of(self, s: Seq<char>) -> Placeholder {
        Placeholder {
            name: s.subrange(self.name_from as int, self.name_to as int),
            default: match self.default {
                Some((from, to)) => Some(s.subrange(from as int, to as int)),
                None => None,
            },
            end: self.end as int,
        }
    }

    /// The bounds lie in order within a text of `len` characters.
    pub open spec fn within(self, len: nat) -> bool {
        &&& self.name_from < self.name_to < self.end <= len
        &&& self.default matches Some((from, to)) ==> self.name_to < from < to < self.end
    }
}

pub(crate) fn is_space_char(c: char) -> (r: bool)
    ensures
        r == is_space(c),
{
    ('\u{9}' <= c && c <= '\u{d}') || c == ' ' || c == '\u{85}' || c == '\u{a0}' || c == '\u{1680}'
        || ('\u{2000}' <= c && c <= '\u{200a}') || c == '\u{2028}' || c == '\u{2029}' || c
        == '\u{202f}' || c == '\u{205f}' || c == '\u{3000}'
}

fn is_name_character(c: char) -> (r: bool)
    ensures
        r == is_name_char(c),
{
    ('a' <= c && c <= 'z') || ('A' <= c && c <= 'Z') || ('0' <= c && c <= '9') || c == '_' || c
        == '.'
}

fn after_spaces(s: &Vec<char>, i: usize) -> (j: usize)
    requires
        i <= s.len(),
    ensures
        j == skip_spaces(s@, i as int),
        i <= j <= s.len(),
{
    let mut j = i;
    while j < s.len() && is_space_char(s[j])
        invariant
            i <= j <= s.len(),
            skip_spaces(s@, i as int) == skip_spaces(s@, j as int),
        decreases s.len() - j,
    {
        j += 1;
    }
    j
}

fn after_name(s: &Vec<char>, i: usize) -> (j: usize)
    requires
        i <= s.len(),
    ensures
        j == skip_name(s@, i as int),
        i <= j <= s.len(),
{
    let mut j = i;
    while j < s.len() && is_name_character(s[j])
        invariant
            i <= j <= s.len(),
            skip_name(s@, i as int) == skip_name(s@, j as int),
        decreases s.len() - j,
    {
        j += 1;
    }
    j
}

fn closing_brace(s: &Vec<char>, i: usize) -> (j: usize)
    requires
        i <= s.len(),
    ensures
        j == find_close(s@, i as int),
        i <= j <= s.len(),
{
    let mut j = i;
    while j < s.len() && s[j] != '}'
        invariant
            i <= j <= s.len(),
            find_close(s@, i as int) == find_close(s@, j as int),
        decreases s.len() - j,
    {
        j += 1;
    }
    j
}

/// Looks for a placeholder that begins at position `i` of `s`.
pub fn find_placeholder(s: &Vec<char>, i: usize) -> (r: Option<Span>)
    ensures
        match r {
            Some(span) => placeholder_at(s@, i as int) == Some(span.of(s@)) && span.within(
                s@.len(),
            ) && i < span.name_from,
            None => placeholder_at(s@, i as int) is None,
        },
{
    let n = s.len();
    if i >= n || n - i < 2 || s[i] != '$' || s[i + 1] != '{' {
        return None;
    }
    let from = after_spaces(s, i + 2);
    let to = after_name(s, from);
    if to == from {
        return None;
    }
    if to < n && s[to] == '}' {
        return Some(Span { name_from: from, name_to: to, default: None, end: to + 1 });
    }
    let or_at = after_spaces(s, to);
    if or_at == to || n - or_at < 2 || s[or_at] != 'o' || s[or_at + 1] != 'r' {
        return None;
    }
    let start = after_spaces(s, or_at + 2);
    let close = closing_brace(s, start);
    if start == or_at + 2 || close >= n {
        None
    } else if close > start {
        Some(Span { name_from: from, name_to: to, default: Some((start, close)), end: close + 1 })
    } else if start - or_at >= 4 {
        Some(Span { name_from: from, name_to: to, default: Some((start - 1, start)), end: close + 1 })
    } else {
        None
    }
}

/// Whether the name that `span` cuts out of `s` begins with `env.` or `ENV.`.
fn names_environment(s: &Vec<char>, span: &Span) -> (r: bool)
    requires
        span.within(s@.len()),
    ensures
        r == is_env_name(span.of(s@).name),
{
    let from = span.name_from;
    if span.name_to - from < 4 {
        return false;
    }
    s[from + 3] == '.' && ((s[from] == 'e' && s[from + 1] == 'n' && s[from + 2] == 'v') || (s[from]
        == 'E' && s[from + 1] == 'N' && s[from + 2] == 'V'))
}

/// The default that `span` cuts out of `s`, or the failure `missing` where it has none.
fn default_or(s: &Vec<char>, span: &Span, missing: Failure) -> (r: Result<String, Failure>)
    requires
        span.within(s@.len()),
    ensures
        match span.of(s@).default {
            Some(default) => r matches Ok(text) && text@ == default,
            None => r == Err::<String, Failure>(missing),
        },
{
    match span.default {
        Some((from, to)) => Ok(string_of_range(s, from, to)),
        None => Err(missing),
    }
}

/// The value of the placeholder that `span` cuts out of `s`. A variable that is found
/// in the environment is put into `overlay`.
pub fn placeholder_value(
    s: &Vec<char>,
    span: &Span,
    arguments: &StrMap<String>,
    environment: &StrMap<String>,
    overlay: &mut StrMap<String>,
) -> (r: Result<String, Failure>)
    requires
        span.within(s@.len()),
    ensures
        match r {
            Ok(value) => value_of(span.of(s@), text_map(*arguments), text_map(*environment))
                == Ok::<Seq<char>, FailureView>(value@),
            Err(e) => value_of(span.of(s@), text_map(*arguments), text_map(*environment))
                == Err::<Seq<char>, FailureView>(e@),
        },
        text_map(*final(overlay)) == if hits_environment(span.of(s@), text_map(*environment)) {
            text_map(*old(overlay)).insert(
                span.of(s@).name.skip(4),
                text_map(*environment)[span.of(s@).name.skip(4)],
            )
        } else {
            text_map(*old(overlay))
        },
{
    let ghost p = span.of(s@);
    if names_environment(s, span) {
        let variable = string_of_range(s, span.name_from + 4, span.name_to);
        assert(variable@ == p.name.skip(4));
        match environment.get(variable.as_str()) {
            Some(value) => {
                let value = value.clone();
                let ghost before = *overlay;
                overlay.insert(variable, value.clone());
                assert(text_map(*overlay) =~= text_map(before).insert(p.name.skip(4), value@));
                Ok(value)
            },
            None => default_or(s, span, Failure::EnvVarMissing { name: variable }),
        }
    } else {
        let name = string_of_range(s, span.name_from, span.name_to);
        match arguments.get(name.as_str()) {
            Some(given) => {
                if given.as_str().is_empty() {
                    match span.default {
                        Some((from, to)) => Ok(string_of_range(s, from, to)),
                        None => Ok(given.clone()),
                    }
                } else {
                    Ok(given.clone())
                }
            },
            None => default_or(s, span, Failure::ArgumentNotProvided { name }),
        }
    }
}

/// `element` with each placeholder replaced by its value. Each variable that a
/// placeholder finds in the environment is put into `overlay`; where the result is a
/// failure, `overlay` may hold those of the placeholders before the one that failed.
pub fn render(
    element: &str,
    arguments: &StrMap<String>,
    environment: &StrMap<String>,
    overlay: &mut StrMap<String>,
) -> (r: Result<String, Failure>)
    ensures
        match r {
            Ok(text) => {
                &&& rendered(element@, 0, text_map(*arguments), text_map(*environment)) == Ok::<
                    Seq<char>,
                    FailureView,
                >(text@)
                &&& text_map(*final(overlay)) == recorded(
                    element@,
                    0,
                    text_map(*environment),
                    text_map(*old(overlay)),
                )
            },
            Err(e) => rendered(element@, 0, text_map(*arguments), text_map(*environment)) == Err::<
                Seq<char>,
                FailureView,
            >(e@),
        },
{
    let s = chars_of(element);
    let ghost args = text_map(*arguments);
    let ghost env = text_map(*environment);
    let ghost start = text_map(*overlay);
    let mut out: Vec<char> = Vec::new();
    let mut i: usize = 0;
    while i < s.len()
        invariant
            i <= s.len(),
            s@ == element@,
            args == text_map(*arguments),
            env == text_map(*environment),
            rendered(s@, 0, args, env) == match rendered(s@, i as int, args, env) {
                Ok(rest) => Ok::<Seq<char>, FailureView>(out@ + rest),
                Err(e) => Err(e),
            },
            recorded(s@, 0, env, start) == recorded(s@, i as int, env, text_map(*overlay)),
        decreases s.len() - i,
    {
        match find_placeholder(&s, i) {
            None => {
                proof {
                    let rest = rendered(s@, i + 1, args, env);
                    if let Ok(rest) = rest {
                        assert(out@.push(s@[i as int]) + rest =~= out@ + (seq![s@[i as int]] + rest));
                    }
                }
                out.push(s[i]);
                i += 1;
            },
            Some(span) => {
                match placeholder_value(&s, &span, arguments, environment, overlay) {
                    Err(e) => {
                        return Err(e);
                    },
                    Ok(value) => {
                        proof {
                            let rest = rendered(s@, span.end as int, args, env);
                            if let Ok(rest) = rest {
                                assert((out@ + value@) + rest =~= out@ + (value@ + rest));
                            }
                        }
                        push_str(&mut out, value.as_str());
                        i = span.end;
                    },
                }
            },
        }
    }
    assert(out@ + Seq::<char>::empty() =~= out@);
    Ok(string_of(&out))
}

/// What stands before the next placeholder is rendered as it stands.
pub proof fn lemma_rendered_literal(
    s: Seq<char>,
    i: int,
    k: int,
    arguments: Map<Seq<char>, Seq<char>>,
    environment: Map<Seq<char>, Seq<char>>,
)
    requires
        0 <= i <= k <= s.len(),
        forall|j: int| i <= j < k ==> placeholder_at(s, j) is None,
    ensures
        rendered(s, i, arguments, environment) == match rendered(s, k, arguments, environment) {
            Ok(rest) => Ok::<Seq<char>, FailureView>(s.subrange(i, k) + rest),
            Err(e) => Err(e),
        },
    decreases k - i,
{
    if i < k {
        lemma_rendered_literal(s, i + 1, k, arguments, environment);
        if let Ok(rest) = rendered(s, k, arguments, environment) {
            assert(seq![s[i]] + (s.subrange(i + 1, k) + rest) =~= s.subrange(i, k) + rest);
        }
    } else {
        if let Ok(rest) = rendered(s, k, arguments, environment) {
            assert(s.subrange(i, k) + rest =~= rest);
        }
    }
}

/// A text in which no placeholder begins is rendered as it stands, whatever else it
/// holds.
pub proof fn law_text_without_placeholder_is_kept(
    s: Seq<char>,
    arguments: Map<Seq<char>, Seq<char>>,
    environment: Map<Seq<char>, Seq<char>>,
)
    requires
        forall|j: int| 0 <= j < s.len() ==> placeholder_at(s, j) is None,
    ensures
        rendered(s, 0, arguments, environment) == Ok::<Seq<char>, FailureView>(s),
{
    lemma_rendered_literal(s, 0, s.len() as int, arguments, environment);
    assert(s.subrange(0, s.len() as int) + Seq::<char>::empty() =~= s);
}

/// Whether `${` stands at position `j` of `s`.
pub open spec fn marker_at(s: Seq<char>, j: int) -> bool {
    0 <= j && j + 1 < s.len() && s[j] == '$' && s[j + 1] == '{'
}

/// A text that holds no `${` is rendered as it stands.
pub proof fn law_text_without_marker_is_kept(
    s: Seq<char>,
    arguments: Map<Seq<char>, Seq<char>>,
    environment: Map<Seq<char>, Seq<char>>,
)
    requires
        forall|j: int| !marker_at(s, j),
    ensures
        rendered(s, 0, arguments, environment) == Ok::<Seq<char>, FailureView>(s),
{
    assert forall|j: int| 0 <= j < s.len() implies placeholder_at(s, j) is None by {
        assert(!marker_at(s, j));
    }
    law_text_without_placeholder_is_kept(s, arguments, environment);
}

/// The first placeholder of a text gives way to its value; what stands before it is
/// kept as it stands, and what stands behind it is rendered in the same way.
pub proof fn law_first_placeholder_is_replaced(
    s: Seq<char>,
    i: int,
    arguments: Map<Seq<char>, Seq<char>>,
    environment: Map<Seq<char>, Seq<char>>,
)
    requires
        placeholder_at(s, i) is Some,
        forall|j: int| 0 <= j < i ==> placeholder_at(s, j) is None,
    ensures
        rendered(s, 0, arguments, environment) == match value_of(
            placeholder_at(s, i)->0,
            arguments,
            environment,
        ) {
            Err(e) => Err::<Seq<char>, FailureView>(e),
            Ok(value) => match rendered(
                s,
                placeholder_at(s, i)->0.end,
                arguments,
                environment,
            ) {
                Ok(rest) => Ok(s.take(i) + value + rest),
                Err(e) => Err(e),
            },
        },
{
    lemma_placeholder_bounds(s, i);
    lemma_rendered_literal(s, 0, i, arguments, environment);
    let p = placeholder_at(s, i)->0;
    if let Ok(value) = value_of(p, arguments, environment) {
        if let Ok(rest) = rendered(s, p.end, arguments, environment) {
            assert(s.subrange(0, i) + (value + rest) =~= s.take(i) + value + rest);
        }
    }
}

/// An argument that is given and empty gives way to the default of its placeholder, and
/// is the empty text where the placeholder has none.
pub proof fn law_empty_argument(
    p: Placeholder,
    arguments: Map<Seq<char>, Seq<char>>,
    environment: Map<Seq<char>, Seq<char>>,
)
    requires
        !is_env_name(p.name),
        arguments.contains_key(p.name),
        arguments[p.name].len() == 0,
    ensures
        value_of(p, arguments, environment) == Ok::<Seq<char>, FailureView>(
            match p.default {
                Some(default) => default,
                None => Seq::empty(),
            },
        ),
{
    assert(arguments[p.name] =~= Seq::<char>::empty());
}

/// A variable that is not set gives way to the default of its placeholder and does not
/// enter the overlay; without a default it is a failure.
pub proof fn law_unset_variable(
    p: Placeholder,
    arguments: Map<Seq<char>, Seq<char>>,
    environment: Map<Seq<char>, Seq<char>>,
)
    requires
        is_env_name(p.name),
        !environment.contains_key(p.name.skip(4)),
    ensures
        !hits_environment(p, environment),
        value_of(p, arguments, environment) == match p.default {
            Some(default) => Ok::<Seq<char>, FailureView>(default),
            None => Err(FailureView::EnvVarMissing { name: p.name.skip(4) }),
        },
{
}

/// Whether `after` is `before` with nothing lost and with nothing gained but variables
/// of `environment`, each with the value that it has there.
pub open spec fn gains_from(
    before: Map<Seq<char>, Seq<char>>,
    after: Map<Seq<char>, Seq<char>>,
    environment: Map<Seq<char>, Seq<char>>,
) -> bool {
    &&& forall|name: Seq<char>| before.contains_key(name) ==> #[trigger] after.contains_key(name)
    &&& forall|name: Seq<char>| #[trigger]
        after.contains_key(name) ==> {
            ||| environment.contains_key(name) && after[name] == environment[name]
            ||| before.contains_key(name) && after[name] == before[name]
        }
}

/// The overlay gains nothing but variables of the environment, each with the value
/// that it has there, and loses nothing.
pub proof fn law_overlay_from_environment(
    s: Seq<char>,
    i: int,
    environment: Map<Seq<char>, Seq<char>>,
    overlay: Map<Seq<char>, Seq<char>>,
)
    ensures
        gains_from(overlay, recorded(s, i, environment, overlay), environment),
    decreases s.len() - i,
{
    if 0 <= i < s.len() {
        lemma_placeholder_bounds(s, i);
        match placeholder_at(s, i) {
            None => {
                law_overlay_from_environment(s, i + 1, environment, overlay);
            },
            Some(p) => {
                let next = if hits_environment(p, environment) {
                    overlay.insert(p.name.skip(4), environment[p.name.skip(4)])
                } else {
                    overlay
                };
                law_overlay_from_environment(s, p.end, environment, next);
                let after = recorded(s, p.end, environment, next);
                assert(after == recorded(s, i, environment, overlay));
                assert forall|name: Seq<char>| overlay.contains_key(
                    name,
                ) implies #[trigger] after.contains_key(name) by {
                    assert(next.contains_key(name));
                }
                assert forall|name: Seq<char>| #[trigger] after.contains_key(name) implies ({
                    ||| environment.contains_key(name) && after[name] == environment[name]
                    ||| overlay.contains_key(name) && after[name] == overlay[name]
                }) by {
                    if !(environment.contains_key(name) && after[name] == environment[name]) {
                        assert(next.contains_key(name) && after[name] == next[name]);
                    }
                }
            },
        }
    }
}

/// Whether `s` holds white space only.
pub open spec fn all_spaces(s: Seq<char>) -> bool {
    forall|k: int| 0 <= k < s.len() ==> is_space(#[trigger] s[k])
}

/// Whether `s` holds name characters only.
pub open spec fn all_name_chars(s: Seq<char>) -> bool {
    forall|k: int| 0 <= k < s.len() ==> is_name_char(#[trigger] s[k])
}

/// What `skip_spaces` skips is white space, and it stops before anything else.
pub proof fn lemma_skip_spaces(s: Seq<char>, i: int)
    requires
        0 <= i <= s.len(),
    ensures
        i <= skip_spaces(s, i) <= s.len(),
        all_spaces(s.subrange(i, skip_spaces(s, i))),
        skip_spaces(s, i) < s.len() ==> !is_space(s[skip_spaces(s, i)]),
    decreases s.len() - i,
{
    if i < s.len() && is_space(s[i]) {
        lemma_skip_spaces(s, i + 1);
        let to = skip_spaces(s, i);
        assert forall|k: int| 0 <= k < to - i implies is_space(#[trigger] s.subrange(i, to)[k]) by {
            if k > 0 {
                assert(s.subrange(i + 1, to)[k - 1] == s[i + k]);
            }
        }
    }
}

/// What `skip_name` skips are name characters, and it stops before anything else.
pub proof fn lemma_skip_name(s: Seq<char>, i: int)
    requires
        0 <= i <= s.len(),
    ensures
        i <= skip_name(s, i) <= s.len(),
        all_name_chars(s.subrange(i, skip_name(s, i))),
        skip_name(s, i) < s.len() ==> !is_name_char(s[skip_name(s, i)]),
    decreases s.len() - i,
{
    if i < s.len() && is_name_char(s[i]) {
        lemma_skip_name(s, i + 1);
        let to = skip_name(s, i);
        assert forall|k: int| 0 <= k < to - i implies is_name_char(
            #[trigger] s.subrange(i, to)[k],
        ) by {
            if k > 0 {
                assert(s.subrange(i + 1, to)[k - 1] == s[i + k]);
            }
        }
    }
}

/// `find_close` stops at the first `}`.
pub proof fn lemma_find_close(s: Seq<char>, i: int)
    requires
        0 <= i <= s.len(),
    ensures
        i <= find_close(s, i) <= s.len(),
        forall|k: int| i <= k < find_close(s, i) ==> s[k] != '}',
        find_close(s, i) < s.len() ==> s[find_close(s, i)] == '}',
    decreases s.len() - i,
{
    if i < s.len() && s[i] != '}' {
        lemma_find_close(s, i + 1);
    }
}

/// Whether `text` is written as a placeholder with the name `name` and the default
/// `default`: `${`, white space or none, the name, then either nothing or white space,
/// `or`, white space and the default, and `}`.
pub open spec fn is_written_as(text: Seq<char>, name: Seq<char>, default: Option<Seq<char>>) -> bool {
    exists|lead: Seq<char>, before: Seq<char>, after: Seq<char>|
        {
            &&& all_spaces(lead)
            &&& all_spaces(before)
            &&& all_spaces(after)
            &&& #[trigger] is_shape(text, lead, name, before, after, default)
        }
}

/// Whether `text` is the placeholder made of these parts.
pub open spec fn is_shape(
    text: Seq<char>,
    lead: Seq<char>,
    name: Seq<char>,
    before: Seq<char>,
    after: Seq<char>,
    default: Option<Seq<char>>,
) -> bool {
    match default {
        None => text == seq!['$', '{'] + lead + name + seq!['}'],
        Some(d) => before.len() > 0 && after.len() > 0 && text == seq!['$', '{'] + lead + name
            + before + seq!['o', 'r'] + after + d + seq!['}'],
    }
}

/// What `placeholder_at` takes for a placeholder is written as one: its name holds one
/// or more name characters, and its default, if it has one, one or more characters of
/// which none is `}`.
pub proof fn law_placeholder_is_written_as_one(s: Seq<char>, i: int)
    requires
        placeholder_at(s, i) is Some,
    ensures
        ({
            let p = placeholder_at(s, i)->0;
            &&& 0 <= i < p.end <= s.len()
            &&& p.name.len() > 0
            &&& all_name_chars(p.name)
            &&& p.default matches Some(d) ==> d.len() > 0 && forall|k: int|
                0 <= k < d.len() ==> d[k] != '}'
            &&& is_written_as(s.subrange(i, p.end), p.name, p.default)
        }),
{
    let p = placeholder_at(s, i)->0;
    lemma_placeholder_bounds(s, i);
    lemma_skip_spaces(s, i + 2);
    let from = skip_spaces(s, i + 2);
    lemma_skip_name(s, from);
    let to = skip_name(s, from);
    let lead = s.subrange(i + 2, from);
    let text = s.subrange(i, p.end);
    if to < s.len() && s[to] == '}' {
        let none = Seq::<char>::empty();
        assert(text =~= seq!['$', '{'] + lead + p.name + seq!['}']);
        assert(is_shape(text, lead, p.name, none, none, p.default));
    } else {
        lemma_skip_spaces(s, to);
        let or_at = skip_spaces(s, to);
        lemma_skip_spaces(s, or_at + 2);
        let start = skip_spaces(s, or_at + 2);
        lemma_find_close(s, start);
        let close = find_close(s, start);
        let before = s.subrange(to, or_at);
        let d = p.default->0;
        if close > start {
            let after = s.subrange(or_at + 2, start);
            assert(text =~= seq!['$', '{'] + lead + p.name + before + seq!['o', 'r'] + after + d
                + seq!['}']);
            assert(is_shape(text, lead, p.name, before, after, p.default));
        } else {
            let after = s.subrange(or_at + 2, start - 1);
            assert forall|k: int| 0 <= k < after.len() implies is_space(#[trigger] after[k]) by {
                assert(s.subrange(or_at + 2, start)[k] == after[k]);
            }
            assert(text =~= seq!['$', '{'] + lead + p.name + before + seq!['o', 'r'] + after + d
                + seq!['}']);
            assert(is_shape(text, lead, p.name, before, after, p.default));
            assert(s.subrange(or_at + 2, start)[start - 1 - (or_at + 2)] == s[start - 1]);
            assert(d[0] == s[start - 1]);
        }
    }
}

} // verus!
