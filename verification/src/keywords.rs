//! Keyword expansion: `$RandomName`, `$RandomPhone`, `$RandomAddress`,
//! `$RandomCompany`, `$RandomEmail`, `$RandomEmail("domain")` and `$UUID`
//! are replaced by freshly generated values, one value per occurrence,
//! until none remains.

use vstd::prelude::*;
use crate::scan::{
    email_domain, email_domain_at, lemma_find_char_bounds, lemma_match_bounds,
    lemma_skip_space_bounds, match_at, match_len, quote_end, skip_space, token, token_chars,
    Pattern,
};
use crate::text::{chars_of, push_all, slice_of, string_of};

verus! {

/// No `$` stands in `s`.
pub open spec fn dollar_free(s: Seq<char>) -> bool {
    forall|i: int| 0 <= i < s.len() ==> s[i] != '$'
}

/// `@` stands in `s`.
pub open spec fn has_at(s: Seq<char>) -> bool {
    exists|i: int| 0 <= i < s.len() && s[i] == '@'
}

/// `v` is an address at the domain `d`: a local part without `$`, then
/// `@`, then `d`.
pub open spec fn email_at(v: Seq<char>, d: Seq<char>) -> bool {
    &&& v.len() > d.len()
    &&& v[v.len() - d.len() - 1] == '@'
    &&& v.subrange(v.len() - d.len(), v.len() as int) == d
    &&& dollar_free(v.subrange(0, v.len() - d.len() - 1))
}

/// Whether `c` is a hexadecimal digit in lower case.
pub open spec fn is_lower_hex(c: char) -> bool {
    ('0' <= c && c <= '9') || ('a' <= c && c <= 'f')
}

/// `v` is a UUID in hyphenated form: 36 characters, hyphens at 8, 13, 18
/// and 23, hexadecimal digits in lower case elsewhere.
pub open spec fn uuid_text(v: Seq<char>) -> bool {
    &&& v.len() == 36
    &&& forall|i: int|
        0 <= i < 36 ==> if i == 8 || i == 13 || i == 18 || i == 23 {
            v[i] == '-'
        } else {
            is_lower_hex(#[trigger] v[i])
        }
}

/// `bharat_cafe::random_name`: a first and a last name drawn at random from
/// the generator's lists, in which no `$` stands.
#[verifier::external_body]
fn random_name() -> (r: String)
    ensures
        dollar_free(r@),
{
    bharat_cafe::random_name()
}

/// `bharat_cafe::random_phone`: ten digits drawn at random; no `$` stands
/// in them.
#[verifier::external_body]
fn random_phone() -> (r: String)
    ensures
        dollar_free(r@),
{
    bharat_cafe::random_phone()
}

/// `bharat_cafe::random_address`: a house number, street, city and state
/// drawn at random from the generator's lists, in which no `$` stands.
#[verifier::external_body]
fn random_address() -> (r: String)
    ensures
        dollar_free(r@),
{
    bharat_cafe::random_address()
}

/// `bharat_cafe::generate_company_name`: a company name taken from a
/// shuffled pool of the generator's own words, in which no `$` stands.
#[verifier::external_body]
fn random_company() -> (r: String)
    ensures
        dollar_free(r@),
{
    bharat_cafe::generate_company_name()
}

/// `bharat_cafe::random_email`: a local part made of two names of the
/// generator's lists, `@`, and then the given domain, or a domain of the
/// generator's own where none is given. No `$` stands in what the
/// generator supplies.
#[verifier::external_body]
fn random_email(domain: Option<&str>) -> (r: String)
    ensures
        match domain {
            Some(d) => email_at(r@, d@),
            None => dollar_free(r@) && has_at(r@),
        },
{
    bharat_cafe::random_email(domain)
}

/// `uuid::Uuid::new_v4`, written by `to_string`: the hyphenated form in
/// lower case.
#[verifier::external_body]
fn random_uuid() -> (r: String)
    ensures
        uuid_text(r@),
{
    uuid::Uuid::new_v4().to_string()
}

/// What a value generated for the keyword `p` satisfies; `domain` is the
/// quoted domain of an email token.
pub open spec fn value_ok(p: Pattern, domain: Option<Seq<char>>, v: Seq<char>) -> bool {
    match p {
        Pattern::Uuid => uuid_text(v),
        Pattern::Email => match domain {
            Some(d) => email_at(v, d),
            None => dollar_free(v) && has_at(v),
        },
        _ => dollar_free(v),
    }
}

/// The leftmost index at or after `i` where a match of `p` starts, or the
/// length of `s`.
pub open spec fn first_site(p: Pattern, s: Seq<char>, i: int) -> int
    decreases s.len() - i,
{
    if i < 0 || i >= s.len() {
        s.len() as int
    } else if match_len(p, s, i) > 0 {
        i
    } else {
        first_site(p, s, i + 1)
    }
}

/// A match of `p` stands in `s`.
pub open spec fn has_site(p: Pattern, s: Seq<char>) -> bool {
    first_site(p, s, 0) < s.len()
}

/// The quoted domain of the leftmost match in `s`, for the email keyword.
pub open spec fn site_domain(p: Pattern, s: Seq<char>) -> Option<Seq<char>> {
    if p == Pattern::Email {
        email_domain(s, first_site(p, s, 0))
    } else {
        None
    }
}

/// `s` with `v` in place of the leftmost match of `p`.
pub open spec fn replace_first(p: Pattern, s: Seq<char>, v: Seq<char>) -> Seq<char> {
    let j = first_site(p, s, 0);
    s.subrange(0, j) + v + s.subrange(j + match_len(p, s, j), s.len() as int)
}

/// The text after the first `n` replacements: each puts the next value of
/// `vals` in place of the leftmost match in the text as it then stands,
/// values put in earlier included.
pub open spec fn reach(p: Pattern, s: Seq<char>, vals: Seq<Seq<char>>, n: int) -> Seq<char>
    decreases n,
{
    if n <= 0 || n > vals.len() {
        s
    } else {
        replace_first(p, reach(p, s, vals, n - 1), vals[n - 1])
    }
}

/// The replacement numbered `k` finds a match to replace, and its value is
/// one generated for that match.
pub open spec fn step_ok(p: Pattern, s: Seq<char>, vals: Seq<Seq<char>>, k: int) -> bool {
    &&& has_site(p, reach(p, s, vals, k))
    &&& value_ok(p, site_domain(p, reach(p, s, vals, k)), vals[k])
}

/// Every replacement is in order.
pub open spec fn steps_ok(p: Pattern, s: Seq<char>, vals: Seq<Seq<char>>) -> bool {
    forall|k: int| 0 <= k < vals.len() ==> #[trigger] step_ok(p, s, vals, k)
}

/// `out` is what a pass for `p` makes of `s`: the leftmost match is
/// replaced by a value generated for it, again and again, until no match
/// of `p` is left.
pub open spec fn is_pass(p: Pattern, s: Seq<char>, out: Seq<char>) -> bool {
    exists|vals: Seq<Seq<char>>| #[trigger]
        steps_ok(p, s, vals) && out == reach(p, s, vals, vals.len() as int) && !has_site(p, out)
}

/// The six passes in the order in which they run, each on the output of the
/// one before.
pub open spec fn passes(
    s: Seq<char>,
    a: Seq<char>,
    b: Seq<char>,
    c: Seq<char>,
    d: Seq<char>,
    e: Seq<char>,
    out: Seq<char>,
) -> bool {
    &&& is_pass(Pattern::Name, s, a)
    &&& is_pass(Pattern::Phone, a, b)
    &&& is_pass(Pattern::Address, b, c)
    &&& is_pass(Pattern::Company, c, d)
    &&& is_pass(Pattern::Email, d, e)
    &&& is_pass(Pattern::Uuid, e, out)
}

/// `out` is a keyword expansion of `s`.
pub open spec fn keyword_expansion(s: Seq<char>, out: Seq<char>) -> bool {
    exists|a: Seq<char>, b: Seq<char>, c: Seq<char>, d: Seq<char>, e: Seq<char>| #[trigger]
        passes(s, a, b, c, d, e, out)
}

/// No keyword token stands in `s`.
pub open spec fn token_free(s: Seq<char>) -> bool {
    &&& !has_site(Pattern::Name, s)
    &&& !has_site(Pattern::Phone, s)
    &&& !has_site(Pattern::Address, s)
    &&& !has_site(Pattern::Company, s)
    &&& !has_site(Pattern::Email, s)
    &&& !has_site(Pattern::Uuid, s)
}

/// Number of `$` among the first `n` characters of `s`.
pub open spec fn dollars(s: Seq<char>, n: int) -> nat
    decreases n,
{
    if n <= 0 || n > s.len() {
        0
    } else {
        dollars(s, n - 1) + if s[n - 1] == '$' {
            1nat
        } else {
            0nat
        }
    }
}

/// Number of `$` in `s`.
pub open spec fn dollar_count(s: Seq<char>) -> nat {
    dollars(s, s.len() as int)
}

proof fn lemma_dollars_prefix(a: Seq<char>, b: Seq<char>, n: int)
    requires
        0 <= n <= a.len(),
    ensures
        dollars(a + b, n) == dollars(a, n),
    decreases n,
{
    if n > 0 {
        lemma_dollars_prefix(a, b, n - 1);
        assert((a + b)[n - 1] == a[n - 1]);
    }
}

proof fn lemma_dollars_suffix(a: Seq<char>, b: Seq<char>, k: int)
    requires
        0 <= k <= b.len(),
    ensures
        dollars(a + b, a.len() + k) == dollar_count(a) + dollars(b, k),
    decreases k,
{
    if k > 0 {
        lemma_dollars_suffix(a, b, k - 1);
        assert((a + b)[a.len() + k - 1] == b[k - 1]);
    } else {
        lemma_dollars_prefix(a, b, a.len() as int);
    }
}

proof fn lemma_count_concat(a: Seq<char>, b: Seq<char>)
    ensures
        dollar_count(a + b) == dollar_count(a) + dollar_count(b),
{
    lemma_dollars_suffix(a, b, b.len() as int);
}

proof fn lemma_count_free(s: Seq<char>, n: int)
    requires
        dollar_free(s),
        0 <= n <= s.len(),
    ensures
        dollars(s, n) == 0,
    decreases n,
{
    if n > 0 {
        lemma_count_free(s, n - 1);
    }
}

proof fn lemma_count_lead(s: Seq<char>)
    requires
        s.len() > 0,
        s[0] == '$',
    ensures
        dollar_count(s) >= 1,
{
    let head = s.subrange(0, 1);
    let rest = s.subrange(1, s.len() as int);
    assert(s =~= head + rest);
    lemma_count_concat(head, rest);
    assert(dollars(head, 0) == 0);
    assert(dollars(head, 1) == 1);
}

proof fn lemma_first_site(p: Pattern, s: Seq<char>, i: int)
    requires
        0 <= i <= s.len(),
    ensures
        i <= first_site(p, s, i) <= s.len(),
        first_site(p, s, i) < s.len() ==> match_len(p, s, first_site(p, s, i)) > 0,
    decreases s.len() - i,
{
    if i < s.len() && match_len(p, s, i) <= 0 {
        lemma_first_site(p, s, i + 1);
    }
}

/// A text without `$` holds no match of a keyword.
proof fn lemma_no_dollar_no_site(p: Pattern, s: Seq<char>, i: int)
    requires
        p != Pattern::Placeholder,
        dollar_free(s),
        0 <= i <= s.len(),
    ensures
        first_site(p, s, i) == s.len(),
    decreases s.len() - i,
{
    if i < s.len() {
        lemma_match_bounds(p, s, i);
        lemma_no_dollar_no_site(p, s, i + 1);
    }
}

/// A uuid holds no `$`.
proof fn lemma_uuid_dollar_free(v: Seq<char>)
    requires
        uuid_text(v),
    ensures
        dollar_free(v),
{
    assert forall|i: int| 0 <= i < v.len() implies v[i] != '$' by {
        if !(i == 8 || i == 13 || i == 18 || i == 23) {
            assert(is_lower_hex(v[i]));
        }
    }
}

/// The quoted domain of an email token lies inside the token, behind its
/// first character.
proof fn lemma_domain_inside(s: Seq<char>, j: int)
    requires
        email_domain(s, j) is Some,
    ensures
        ({
            let n = match_len(Pattern::Email, s, j);
            let a = skip_space(s, j + token(Pattern::Email).len() + 1);
            let q = quote_end(s, a)->0;
            &&& quote_end(s, a) is Some
            &&& 0 <= j < a + 1 <= q < j + n <= s.len()
            &&& email_domain(s, j)->0 == s.subrange(a + 1, q)
        }),
{
    crate::scan::lemma_token_lead(Pattern::Email);
    lemma_match_bounds(Pattern::Email, s, j);
    let t = j + token(Pattern::Email).len();
    lemma_skip_space_bounds(s, t + 1);
    let a = skip_space(s, t + 1);
    lemma_find_char_bounds(s, a + 1, '"');
    let q = quote_end(s, a)->0;
    lemma_skip_space_bounds(s, q + 1);
}

proof fn lemma_swap_count(before: Seq<char>, found: Seq<char>, after: Seq<char>, v: Seq<char>)
    requires
        dollar_count(v) < dollar_count(found),
    ensures
        dollar_count(before + v + after) < dollar_count(before + found + after),
{
    lemma_count_concat(before + found, after);
    lemma_count_concat(before, found);
    lemma_count_concat(before + v, after);
    lemma_count_concat(before, v);
}

proof fn lemma_free_value_count(found: Seq<char>, v: Seq<char>)
    requires
        found.len() > 0,
        found[0] == '$',
        dollar_free(v),
    ensures
        dollar_count(v) < dollar_count(found),
{
    lemma_count_lead(found);
    lemma_count_free(v, v.len() as int);
}

proof fn lemma_domain_value_count(found: Seq<char>, d: Seq<char>, x: int, y: int, v: Seq<char>)
    requires
        1 <= x <= y <= found.len(),
        found[0] == '$',
        found.subrange(x, y) == d,
        email_at(v, d),
    ensures
        dollar_count(v) < dollar_count(found),
{
    let head = found.subrange(0, x);
    let tail = found.subrange(y, found.len() as int);
    assert(found =~= head + d + tail);
    lemma_count_concat(head + d, tail);
    lemma_count_concat(head, d);
    assert(head[0] == '$');
    lemma_count_lead(head);
    let local = v.subrange(0, v.len() - d.len() - 1);
    let at = v.subrange(v.len() - d.len() - 1, v.len() - d.len());
    assert(v =~= local + at + d);
    lemma_count_concat(local + at, d);
    lemma_count_concat(local, at);
    lemma_count_free(local, local.len() as int);
    assert(at.len() == 1 && at[0] == '@');
    assert(dollars(at, 0) == 0);
    assert(dollars(at, 1) == 0);
}

/// Each replacement takes one `$` out of the text: the match begins with
/// one, and the value brings none but those of a quoted domain, which the
/// match held already.
proof fn lemma_replace_lowers_count(p: Pattern, s: Seq<char>, v: Seq<char>)
    requires
        p != Pattern::Placeholder,
        has_site(p, s),
        value_ok(p, site_domain(p, s), v),
    ensures
        dollar_count(replace_first(p, s, v)) < dollar_count(s),
{
    lemma_first_site(p, s, 0);
    let j = first_site(p, s, 0);
    let n = match_len(p, s, j);
    lemma_match_bounds(p, s, j);
    let before = s.subrange(0, j);
    let found = s.subrange(j, j + n);
    let after = s.subrange(j + n, s.len() as int);
    assert(s =~= before + found + after);
    assert(found[0] == '$');
    if p == Pattern::Email && site_domain(p, s) is Some {
        let d = site_domain(p, s)->0;
        lemma_domain_inside(s, j);
        let a = skip_space(s, j + token(Pattern::Email).len() + 1);
        let q = quote_end(s, a)->0;
        assert(found.subrange(a + 1 - j, q - j) =~= d);
        lemma_domain_value_count(found, d, a + 1 - j, q - j, v);
    } else {
        if p == Pattern::Uuid {
            lemma_uuid_dollar_free(v);
        }
        lemma_free_value_count(found, v);
    }
    lemma_swap_count(before, found, after, v);
}

proof fn lemma_reach_push(p: Pattern, s: Seq<char>, vals: Seq<Seq<char>>, v: Seq<char>, n: int)
    requires
        0 <= n <= vals.len(),
    ensures
        reach(p, s, vals.push(v), n) == reach(p, s, vals, n),
    decreases n,
{
    if n > 0 {
        lemma_reach_push(p, s, vals, v, n - 1);
        assert(vals.push(v)[n - 1] == vals[n - 1]);
    }
}

/// A pass over a text in which its keyword does not stand leaves the text
/// as it is.
pub proof fn lemma_pass_without_token(p: Pattern, s: Seq<char>, out: Seq<char>)
    requires
        !has_site(p, s),
        is_pass(p, s, out),
    ensures
        out == s,
{
    let vals = choose|vals: Seq<Seq<char>>| #[trigger]
        steps_ok(p, s, vals) && out == reach(p, s, vals, vals.len() as int) && !has_site(p, out);
    if vals.len() > 0 {
        assert(step_ok(p, s, vals, 0));
    }
}

/// Keyword expansion of a text that holds no keyword token is the
/// identity, whatever else the text holds.
pub proof fn lemma_expansion_without_tokens(s: Seq<char>, out: Seq<char>)
    requires
        token_free(s),
        keyword_expansion(s, out),
    ensures
        out == s,
{
    let (a, b, c, d, e) = choose|a: Seq<char>, b: Seq<char>, c: Seq<char>, d: Seq<char>, e: Seq<char>| #[trigger]
        passes(s, a, b, c, d, e, out);
    lemma_pass_without_token(Pattern::Name, s, a);
    lemma_pass_without_token(Pattern::Phone, a, b);
    lemma_pass_without_token(Pattern::Address, b, c);
    lemma_pass_without_token(Pattern::Company, c, d);
    lemma_pass_without_token(Pattern::Email, d, e);
    lemma_pass_without_token(Pattern::Uuid, e, out);
}

/// A text without `$` holds no keyword token.
pub proof fn lemma_dollar_free_is_token_free(s: Seq<char>)
    requires
        dollar_free(s),
    ensures
        token_free(s),
{
    lemma_no_dollar_no_site(Pattern::Name, s, 0);
    lemma_no_dollar_no_site(Pattern::Phone, s, 0);
    lemma_no_dollar_no_site(Pattern::Address, s, 0);
    lemma_no_dollar_no_site(Pattern::Company, s, 0);
    lemma_no_dollar_no_site(Pattern::Email, s, 0);
    lemma_no_dollar_no_site(Pattern::Uuid, s, 0);
}

/// Keyword expansion of a text that holds no `$`, and so no token, is the
/// identity.
pub proof fn lemma_expansion_identity(s: Seq<char>, out: Seq<char>)
    requires
        dollar_free(s),
        keyword_expansion(s, out),
    ensures
        out == s,
{
    lemma_dollar_free_is_token_free(s);
    lemma_expansion_without_tokens(s, out);
}

/// After its pass no match of a keyword is left in the text.
pub proof fn lemma_pass_leaves_no_token(p: Pattern, s: Seq<char>, out: Seq<char>)
    requires
        is_pass(p, s, out),
    ensures
        !has_site(p, out),
{
}

/// A fresh value for one match of the keyword `p`; `domain` is the quoted
/// domain of an email token.
fn fresh_value(p: Pattern, domain: &Option<Vec<char>>) -> (v: Vec<char>)
    requires
        p != Pattern::Placeholder,
        p != Pattern::Email ==> *domain is None,
    ensures
        value_ok(
            p,
            match *domain {
                Some(d) => Some(d@),
                None => None,
            },
            v@,
        ),
{
    let text = match p {
        Pattern::Name => random_name(),
        Pattern::Phone => random_phone(),
        Pattern::Address => random_address(),
        Pattern::Company => random_company(),
        Pattern::Uuid => random_uuid(),
        _ => match domain {
            Some(d) => {
                let name = string_of(d);
                random_email(Some(name.as_str()))
            },
            None => random_email(None),
        },
    };
    chars_of(text.as_str())
}

/// Where the leftmost match of `p` in `s` starts, if there is one.
fn find_first(p: Pattern, tok: &Vec<char>, s: &Vec<char>) -> (r: Option<usize>)
    requires
        tok@ == token(p),
    ensures
        match r {
            Some(j) => j as int == first_site(p, s@, 0) && j < s.len(),
            None => !has_site(p, s@),
        },
{
    let mut i: usize = 0;
    while i < s.len()
        invariant
            i <= s.len(),
            tok@ == token(p),
            first_site(p, s@, 0) == first_site(p, s@, i as int),
        decreases s.len() - i,
    {
        if match_at(p, tok, s, i) > 0 {
            return Some(i);
        }
        i += 1;
    }
    None
}

/// Runs the pass for the keyword `p` over `s`: the leftmost match is
/// replaced by a value generated for it, and the text is searched again
/// from its start, values put in included, until no match is left.
pub fn expand_pass(p: Pattern, s: &Vec<char>) -> (out: Vec<char>)
    requires
        p != Pattern::Placeholder,
    ensures
        is_pass(p, s@, out@),
{
    let tok = token_chars(p);
    let mut cur = slice_of(s, 0, s.len());
    assert(cur@ =~= s@);
    let ghost mut used: Seq<Seq<char>> = Seq::empty();
    loop
        invariant
            p != Pattern::Placeholder,
            tok@ == token(p),
            cur@ == reach(p, s@, used, used.len() as int),
            steps_ok(p, s@, used),
        decreases dollar_count(cur@),
    {
        let j = match find_first(p, &tok, &cur) {
            Some(j) => j,
            None => {
                return cur;
            },
        };
        let n = match_at(p, &tok, &cur, j);
        proof {
            lemma_match_bounds(p, cur@, j as int);
        }
        let domain = if p == Pattern::Email {
            email_domain_at(&cur, j)
        } else {
            None
        };
        let v = fresh_value(p, &domain);
        let mut next = slice_of(&cur, 0, j);
        push_all(&mut next, &v);
        let rest = slice_of(&cur, j + n, cur.len());
        push_all(&mut next, &rest);
        proof {
            assert(next@ == replace_first(p, cur@, v@));
            assert(value_ok(p, site_domain(p, cur@), v@));
            lemma_replace_lowers_count(p, cur@, v@);
            let grown = used.push(v@);
            lemma_reach_push(p, s@, used, v@, used.len() as int);
            assert forall|k: int| 0 <= k < grown.len() implies #[trigger] step_ok(
                p,
                s@,
                grown,
                k,
            ) by {
                lemma_reach_push(p, s@, used, v@, k);
                if k < used.len() {
                    assert(step_ok(p, s@, used, k));
                    assert(grown[k] == used[k]);
                }
            }
            used = grown;
        }
        cur = next;
    }
}

/// Expands every keyword token in `input`: first all names, then phones,
/// addresses, companies, emails and UUIDs. Within a kind the leftmost
/// token is replaced by a fresh value until none of that kind remains.
pub fn substitute_keywords(input: &str) -> (r: String)
    ensures
        keyword_expansion(input@, r@),
        !has_site(Pattern::Uuid, r@),
        token_free(input@) ==> r@ == input@,
        dollar_free(input@) ==> r@ == input@,
{
    let s = chars_of(input);
    let a = expand_pass(Pattern::Name, &s);
    let b = expand_pass(Pattern::Phone, &a);
    let c = expand_pass(Pattern::Address, &b);
    let d = expand_pass(Pattern::Company, &c);
    let e = expand_pass(Pattern::Email, &d);
    let out = expand_pass(Pattern::Uuid, &e);
    let r = string_of(&out);
    proof {
        assert(passes(s@, a@, b@, c@, d@, e@, out@));
        if token_free(input@) {
            lemma_expansion_without_tokens(input@, r@);
        }
        if dollar_free(input@) {
            lemma_expansion_identity(input@, r@);
        }
    }
    r
}

} // verus!
