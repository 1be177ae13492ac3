//! Placeholder resolution: `{{env:NAME}}`, `{{input:NAME}}` and `{{name}}`.
//!
//! The resolver finds the placeholders of a text and says what each asks
//! for; the caller looks the values up (environment, operator, scripting
//! globals) and hands them back to be put in place.

use vstd::prelude::*;
use crate::context::ScriptOutcome;
use crate::data::opt_view;
use crate::json::Json;
use crate::scan::{
    find_sites, lemma_splice_all_kept, lemma_splice_without_lead,
    lemma_splice_without_match, match_len, sites_from, splice, splice_chars, Pattern, Site,
};
use crate::text::{
    chars_of, is_space, is_whitespace, matches_at, occurs_at, push_all, slice_of, string_of,
};

verus! {

/// Where a placeholder's value comes from.
#[derive(Clone, Copy, Debug, PartialEq, Eq, Structural)]
pub enum PlaceholderKind {
    /// `env:NAME`: the process environment.
    Env,
    /// `input:NAME`: a line typed by the operator.
    Input,
    /// anything else: a member of the scripting globals.
    Global,
}

/// One placeholder of a text.
#[derive(Clone, Debug)]
pub struct Placeholder {
    pub kind: PlaceholderKind,
    /// The variable asked for, without prefix and surrounding white space.
    pub name: String,
    /// The placeholder as written, braces included.
    pub raw: String,
}

/// Handles placeholder substitution in test case strings.
pub struct PlaceholderResolver;

/// The end of `s[..j]` without trailing white space.
pub open spec fn trim_end(s: Seq<char>, j: int) -> int
    decreases j,
{
    if 0 < j <= s.len() && is_space(s[j - 1]) {
        trim_end(s, j - 1)
    } else {
        j
    }
}

/// The first index at or after `i` where `pat` does not stand, stepping over
/// each copy of `pat` that does.
pub open spec fn strip_from(s: Seq<char>, i: int, pat: Seq<char>) -> int
    decreases s.len() - i,
{
    if pat.len() > 0 && occurs_at(s, i, pat) {
        strip_from(s, i + pat.len(), pat)
    } else {
        i
    }
}

/// `s[from..to]` without leading and trailing white space.
pub open spec fn trimmed(s: Seq<char>, from: int, to: int) -> Seq<char> {
    let part = s.subrange(from, to);
    let a = crate::scan::skip_space(part, 0);
    let b = trim_end(part, part.len() as int);
    if a < b {
        part.subrange(a, b)
    } else {
        Seq::empty()
    }
}

/// The source a placeholder expression names.
pub open spec fn kind_of(expr: Seq<char>) -> PlaceholderKind {
    if occurs_at(expr, 0, "env:"@) {
        PlaceholderKind::Env
    } else if occurs_at(expr, 0, "input:"@) {
        PlaceholderKind::Input
    } else {
        PlaceholderKind::Global
    }
}

/// The variable a placeholder expression names: what follows every leading
/// copy of the prefix, trimmed; the whole expression for a global.
pub open spec fn name_of(expr: Seq<char>) -> Seq<char> {
    match kind_of(expr) {
        PlaceholderKind::Env => trimmed(expr, strip_from(expr, 0, "env:"@), expr.len() as int),
        PlaceholderKind::Input => trimmed(
            expr,
            strip_from(expr, 0, "input:"@),
            expr.len() as int,
        ),
        PlaceholderKind::Global => expr,
    }
}

/// The expression between the braces of the placeholder at `site`, trimmed.
pub open spec fn expression(s: Seq<char>, site: (int, int)) -> Seq<char> {
    trimmed(s, site.0 + 2, site.0 + site.1 - 2)
}

/// The views of a list of optional strings.
pub open spec fn text_views(vals: Seq<Option<String>>) -> Seq<Option<Seq<char>>> {
    Seq::new(
        vals.len(),
        |i: int|
            match vals[i] {
                Some(v) => Some(v@),
                None => None,
            },
    )
}

/// No `{` stands in `s`.
pub open spec fn brace_free(s: Seq<char>) -> bool {
    forall|i: int| 0 <= i < s.len() ==> s[i] != '{'
}

/// `s[from..to]` without white space at either end.
pub fn trim_range(s: &Vec<char>, from: usize, to: usize) -> (r: Vec<char>)
    requires
        from <= to <= s.len(),
    ensures
        r@ == trimmed(s@, from as int, to as int),
{
    let ghost part = s@.subrange(from as int, to as int);
    let mut a: usize = from;
    while a < to && is_whitespace(s[a])
        invariant
            from <= a <= to <= s.len(),
            part == s@.subrange(from as int, to as int),
            crate::scan::skip_space(part, 0) == crate::scan::skip_space(part, a - from),
        decreases to - a,
    {
        assert(part[a - from] == s@[a as int]);
        a += 1;
    }
    assert(a < to ==> part[a - from] == s@[a as int]);
    let mut b: usize = to;
    while b > from && is_whitespace(s[b - 1])
        invariant
            from <= b <= to <= s.len(),
            part == s@.subrange(from as int, to as int),
            trim_end(part, part.len() as int) == trim_end(part, b - from),
        decreases b,
    {
        assert(part[b - 1 - from] == s@[b - 1]);
        b -= 1;
    }
    assert(b > from ==> part[b - 1 - from] == s@[b - 1]);
    if a < b {
        let r = slice_of(s, a, b);
        assert(r@ =~= part.subrange(a - from, b - from));
        r
    } else {
        Vec::new()
    }
}

fn strip_all(s: &Vec<char>, pat: &Vec<char>) -> (r: usize)
    requires
        pat@.len() > 0,
    ensures
        r == strip_from(s@, 0, pat@),
        r <= s.len(),
{
    let mut i: usize = 0;
    while matches_at(s, i, pat)
        invariant
            i <= s.len(),
            pat@.len() > 0,
            strip_from(s@, 0, pat@) == strip_from(s@, i as int, pat@),
        decreases s.len() - i,
    {
        i += pat.len();
    }
    i
}

/// Classifies a trimmed placeholder expression.
pub fn classify(expr: &Vec<char>) -> (r: (PlaceholderKind, Vec<char>))
    ensures
        r.0 == kind_of(expr@),
        r.1@ == name_of(expr@),
{
    proof {
        reveal_strlit("env:");
        reveal_strlit("input:");
    }
    let env = chars_of("env:");
    let input = chars_of("input:");
    if matches_at(expr, 0, &env) {
        let from = strip_all(expr, &env);
        (PlaceholderKind::Env, trim_range(expr, from, expr.len()))
    } else if matches_at(expr, 0, &input) {
        let from = strip_all(expr, &input);
        (PlaceholderKind::Input, trim_range(expr, from, expr.len()))
    } else {
        (PlaceholderKind::Global, slice_of_all(expr))
    }
}

fn slice_of_all(s: &Vec<char>) -> (r: Vec<char>)
    ensures
        r@ == s@,
{
    let r = slice_of(s, 0, s.len());
    assert(s@.subrange(0, s.len() as int) =~= s@);
    r
}

impl PlaceholderResolver {
    /// The placeholders of `text`, leftmost first. A placeholder opens with
    /// `{{` and closes at the first `}}` that follows on the same line.
    pub fn find_placeholders(&self, text: &str) -> (found: Vec<Placeholder>)
        ensures
            found@.len() == sites_from(Pattern::Placeholder, text@, 0).len(),
            forall|k: int|
                0 <= k < found@.len() ==> {
                    let site = sites_from(Pattern::Placeholder, text@, 0)[k];
                    &&& (#[trigger] found@[k]).raw@ == text@.subrange(site.0, site.0 + site.1)
                    &&& found@[k].kind == kind_of(expression(text@, site))
                    &&& found@[k].name@ == name_of(expression(text@, site))
                },
    {
        let s = chars_of(text);
        let sites = find_sites(Pattern::Placeholder, &s);
        let mut found: Vec<Placeholder> = Vec::new();
        let mut k: usize = 0;
        while k < sites.len()
            invariant
                k <= sites.len(),
                s@ == text@,
                found@.len() == k,
                sites@.len() == sites_from(Pattern::Placeholder, s@, 0).len(),
                forall|j: int|
                    0 <= j < sites@.len() ==> (#[trigger] sites@[j]).start as int == sites_from(
                        Pattern::Placeholder,
                        s@,
                        0,
                    )[j].0 && sites@[j].len as int == sites_from(Pattern::Placeholder, s@, 0)[j].1,
                forall|j: int|
                    0 <= j < sites@.len() ==> (#[trigger] sites@[j]).start + sites@[j].len
                        <= s.len() && sites@[j].len as int == match_len(
                        Pattern::Placeholder,
                        s@,
                        sites@[j].start as int,
                    ) && sites@[j].len > 0,
                forall|j: int|
                    0 <= j < k ==> {
                        let site = sites_from(Pattern::Placeholder, text@, 0)[j];
                        &&& (#[trigger] found@[j]).raw@ == text@.subrange(site.0, site.0 + site.1)
                        &&& found@[j].kind == kind_of(expression(text@, site))
                        &&& found@[j].name@ == name_of(expression(text@, site))
                    },
            decreases sites.len() - k,
        {
            let site: Site = sites[k];
            proof {
                reveal_strlit("{{");
                crate::scan::lemma_find_close_bounds(s@, site.start + 2);
            }
            let raw = slice_of(&s, site.start, site.start + site.len);
            let expr = trim_range(&s, site.start + 2, site.start + site.len - 2);
            let (kind, name) = classify(&expr);
            found.push(Placeholder { kind, name: string_of(&name), raw: string_of(&raw) });
            k += 1;
        }
        found
    }

    /// Puts `values` in place of the placeholders of `text`, one value per
    /// placeholder in order, in a single pass. A placeholder whose value is
    /// `None`, or for which no value is given, stays as written.
    pub fn substitute_placeholders(&self, text: &str, values: &Vec<Option<String>>) -> (r: String)
        ensures
            r@ == splice(Pattern::Placeholder, text@, text_views(values@)),
            sites_from(Pattern::Placeholder, text@, 0).len() == 0 ==> r@ == text@,
            brace_free(text@) ==> r@ == text@,
            (forall|k: int| 0 <= k < values@.len() ==> values@[k] is None) ==> r@ == text@,
    {
        let s = chars_of(text);
        let mut vals: Vec<Option<Vec<char>>> = Vec::new();
        let mut k: usize = 0;
        while k < values.len()
            invariant
                k <= values.len(),
                vals@.len() == k,
                forall|j: int|
                    0 <= j < k ==> match (#[trigger] vals@[j]) {
                        Some(v) => values@[j] is Some && v@ == (values@[j]->0)@,
                        None => values@[j] is None,
                    },
            decreases values.len() - k,
        {
            let v = match &values[k] {
                Some(t) => Some(chars_of(t.as_str())),
                None => None,
            };
            vals.push(v);
            k += 1;
        }
        assert(crate::scan::views(vals@) =~= text_views(values@));
        let out = splice_chars(Pattern::Placeholder, &s, &vals);
        proof {
            let w = text_views(values@);
            assert(text@.subrange(0, text@.len() as int) =~= text@);
            if sites_from(Pattern::Placeholder, text@, 0).len() == 0 {
                lemma_splice_without_match(Pattern::Placeholder, text@, 0, w, 0);
            }
            if brace_free(text@) {
                lemma_splice_without_lead(Pattern::Placeholder, text@, 0, w, 0);
            }
            if forall|k: int| 0 <= k < values@.len() ==> values@[k] is None {
                assert forall|j: int| 0 <= j < w.len() implies w[j] is None by {
                    assert(values@[j] is None);
                }
                lemma_splice_all_kept(Pattern::Placeholder, text@, 0, w, 0);
            }
        }
        string_of(&out)
    }

    /// The value that a read of a scripting global gives to its
    /// placeholder: the text of a string. A read that failed, or that gave
    /// anything but a string, gives none, and the placeholder stays.
    pub fn global_value(&self, read: &ScriptOutcome) -> (r: Option<String>)
        ensures
            opt_view(r) == (match *read {
                ScriptOutcome::Value(Json::Text(s)) => Some(s@),
                _ => None,
            }),
    {
        match read {
            ScriptOutcome::Value(Json::Text(s)) => Some(s.clone()),
            _ => None,
        }
    }

    /// The script that reads the scripting global `name`.
    pub fn global_lookup(&self, name: &str) -> (r: String)
        ensures
            r@ == "SAT.globals."@ + name@,
    {
        let mut out = chars_of("SAT.globals.");
        let n = chars_of(name);
        push_all(&mut out, &n);
        string_of(&out)
    }
}

/// A placeholder that is not resolved stays in the result as written: where
/// the value for the `k`-th placeholder of `text` is `None` or missing, the
/// placeholder's own text, braces included, stands in what
/// `substitute_placeholders` returns.
pub proof fn lemma_unresolved_placeholder_stays(
    text: Seq<char>,
    vals: Seq<Option<Seq<char>>>,
    k: int,
)
    requires
        0 <= k < sites_from(Pattern::Placeholder, text, 0).len(),
        !(k < vals.len() && vals[k] is Some),
    ensures
        crate::scan::has_part(
            splice(Pattern::Placeholder, text, vals),
            text.subrange(
                sites_from(Pattern::Placeholder, text, 0)[k].0,
                sites_from(Pattern::Placeholder, text, 0)[k].0 + sites_from(
                    Pattern::Placeholder,
                    text,
                    0,
                )[k].1,
            ),
        ),
{
    crate::scan::lemma_kept_match_stays(Pattern::Placeholder, text, 0, vals, 0, k);
}

} // verus!
