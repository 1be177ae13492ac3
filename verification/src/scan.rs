//! Left-to-right scanning for keyword tokens and `{{ … }}` placeholders, and
//! the splicing of replacement text at the sites found.

use vstd::prelude::*;
use crate::text::{chars_of, is_space, is_whitespace, matches_at, occurs_at, push_all};

verus! {

/// What a scan looks for.
#[derive(Clone, Copy, Debug, PartialEq, Eq, Structural)]
pub enum Pattern {
    Name,
    Phone,
    Address,
    Company,
    Email,
    Uuid,
    Placeholder,
}

/// One match of a pattern: where it starts and how many characters it spans.
#[derive(Clone, Copy, Debug, PartialEq, Eq, Structural)]
pub struct Site {
    pub start: usize,
    pub len: usize,
}

/// The literal text that opens a match of `p`.
pub open spec fn token(p: Pattern) -> Seq<char> {
    match p {
        Pattern::Name => "$RandomName"@,
        Pattern::Phone => "$RandomPhone"@,
        Pattern::Address => "$RandomAddress"@,
        Pattern::Company => "$RandomCompany"@,
        Pattern::Email => "$RandomEmail"@,
        Pattern::Uuid => "$UUID"@,
        Pattern::Placeholder => "{{"@,
    }
}

/// The first character of every token of `p`.
pub open spec fn lead(p: Pattern) -> char {
    if p == Pattern::Placeholder {
        '{'
    } else {
        '$'
    }
}

/// Every token has at least two characters and begins with its lead.
pub proof fn lemma_token_lead(p: Pattern)
    ensures
        token(p).len() >= 2,
        token(p)[0] == lead(p),
{
    reveal_strlit("$RandomName");
    reveal_strlit("$RandomPhone");
    reveal_strlit("$RandomAddress");
    reveal_strlit("$RandomCompany");
    reveal_strlit("$RandomEmail");
    reveal_strlit("$UUID");
    reveal_strlit("{{");
}

/// The token of `p` as characters.
pub fn token_chars(p: Pattern) -> (v: Vec<char>)
    ensures
        v@ == token(p),
{
    match p {
        Pattern::Name => chars_of("$RandomName"),
        Pattern::Phone => chars_of("$RandomPhone"),
        Pattern::Address => chars_of("$RandomAddress"),
        Pattern::Company => chars_of("$RandomCompany"),
        Pattern::Email => chars_of("$RandomEmail"),
        Pattern::Uuid => chars_of("$UUID"),
        Pattern::Placeholder => chars_of("{{"),
    }
}

/// The first index at or after `i` that holds no white space.
pub open spec fn skip_space(s: Seq<char>, i: int) -> int
    decreases s.len() - i,
{
    if 0 <= i < s.len() && is_space(s[i]) {
        skip_space(s, i + 1)
    } else {
        i
    }
}

/// The first index at or after `i` that holds `c`, or the length of `s`.
pub open spec fn find_char(s: Seq<char>, i: int, c: char) -> int
    decreases s.len() - i,
{
    if 0 <= i < s.len() && s[i] != c {
        find_char(s, i + 1, c)
    } else {
        i
    }
}

/// The first index at or after `i` that holds a line feed or opens `}}`, or
/// the length of `s`.
pub open spec fn find_close(s: Seq<char>, i: int) -> int
    decreases s.len() - i,
{
    if 0 <= i < s.len() && s[i] != '\n' && !(s[i] == '}' && i + 1 < s.len() && s[i + 1] == '}') {
        find_close(s, i + 1)
    } else {
        i
    }
}

/// Where an opening quote at `a` closes, if it does.
pub open spec fn quote_end(s: Seq<char>, a: int) -> Option<int> {
    if 0 <= a < s.len() && s[a] == '"' && find_char(s, a + 1, '"') < s.len() {
        Some(find_char(s, a + 1, '"'))
    } else {
        None
    }
}

/// Index of the `)` that ends an email argument list opened by `(` at `j`,
/// if the text from `j` is such a list: `(`, white space, an optional quoted
/// domain, white space, `)`.
pub open spec fn email_args_close(s: Seq<char>, j: int) -> Option<int> {
    if 0 <= j < s.len() && s[j] == '(' {
        let a = skip_space(s, j + 1);
        let b = match quote_end(s, a) {
            Some(q) => q + 1,
            None => a,
        };
        let c = skip_space(s, b);
        if 0 <= c < s.len() && s[c] == ')' {
            Some(c)
        } else {
            None
        }
    } else {
        None
    }
}

/// The quoted domain of the email token that starts at `i`, if it has one.
pub open spec fn email_domain(s: Seq<char>, i: int) -> Option<Seq<char>> {
    let j = i + token(Pattern::Email).len();
    if occurs_at(s, i, token(Pattern::Email)) && email_args_close(s, j) is Some {
        let a = skip_space(s, j + 1);
        match quote_end(s, a) {
            Some(q) => Some(s.subrange(a + 1, q)),
            None => None,
        }
    } else {
        None
    }
}

/// Length of the match of `p` that starts at index `i` of `s`; 0 where none
/// starts there.
pub open spec fn match_len(p: Pattern, s: Seq<char>, i: int) -> int {
    if !occurs_at(s, i, token(p)) {
        0
    } else {
        let j = i + token(p).len();
        match p {
            Pattern::Email => match email_args_close(s, j) {
                Some(c) => c + 1 - i,
                None => token(p).len() as int,
            },
            Pattern::Placeholder => {
                let c = find_close(s, j);
                if c < s.len() && s[c] == '}' {
                    c + 2 - i
                } else {
                    0
                }
            },
            _ => token(p).len() as int,
        }
    }
}

/// Skipping white space stays inside the text.
pub proof fn lemma_skip_space_bounds(s: Seq<char>, i: int)
    requires
        0 <= i <= s.len(),
    ensures
        i <= skip_space(s, i) <= s.len(),
    decreases s.len() - i,
{
    if i < s.len() && is_space(s[i]) {
        lemma_skip_space_bounds(s, i + 1);
    }
}

/// Searching for a character stays inside the text.
pub proof fn lemma_find_char_bounds(s: Seq<char>, i: int, c: char)
    requires
        0 <= i <= s.len(),
    ensures
        i <= find_char(s, i, c) <= s.len(),
    decreases s.len() - i,
{
    if i < s.len() && s[i] != c {
        lemma_find_char_bounds(s, i + 1, c);
    }
}

/// Searching for the closing braces stays inside the text, and braces found there are two.
pub proof fn lemma_find_close_bounds(s: Seq<char>, i: int)
    requires
        0 <= i <= s.len(),
    ensures
        i <= find_close(s, i) <= s.len(),
        find_close(s, i) < s.len() && s[find_close(s, i)] == '}' ==> find_close(s, i) + 2
            <= s.len(),
    decreases s.len() - i,
{
    if i < s.len() && s[i] != '\n' && !(s[i] == '}' && i + 1 < s.len() && s[i + 1] == '}') {
        lemma_find_close_bounds(s, i + 1);
    }
}

/// A match lies inside the text, and a match that exists spans at least its
/// token.
pub proof fn lemma_match_bounds(p: Pattern, s: Seq<char>, i: int)
    ensures
        match_len(p, s, i) == 0 || (match_len(p, s, i) >= 2 && 0 <= i && i + match_len(p, s, i)
            <= s.len()),
        match_len(p, s, i) > 0 ==> s[i] == lead(p),
{
    lemma_token_lead(p);
    if occurs_at(s, i, token(p)) {
        let j = i + token(p).len();
        assert(s.subrange(i, j)[0] == token(p)[0]);
        match p {
            Pattern::Email => {
                if j < s.len() && s[j] == '(' {
                    lemma_skip_space_bounds(s, j + 1);
                    let a = skip_space(s, j + 1);
                    if a < s.len() {
                        lemma_find_char_bounds(s, a + 1, '"');
                    }
                    let b = match quote_end(s, a) {
                        Some(q) => q + 1,
                        None => a,
                    };
                    lemma_skip_space_bounds(s, b);
                }
            },
            Pattern::Placeholder => {
                lemma_find_close_bounds(s, j);
            },
            _ => {},
        }
    }
}

fn skip_space_from(s: &Vec<char>, i: usize) -> (r: usize)
    requires
        i <= s.len(),
    ensures
        r == skip_space(s@, i as int),
        i <= r <= s.len(),
{
    let mut k: usize = i;
    while k < s.len() && is_whitespace(s[k])
        invariant
            i <= k <= s.len(),
            skip_space(s@, i as int) == skip_space(s@, k as int),
        decreases s.len() - k,
    {
        k += 1;
    }
    k
}

fn find_char_from(s: &Vec<char>, i: usize, c: char) -> (r: usize)
    requires
        i <= s.len(),
    ensures
        r == find_char(s@, i as int, c),
        i <= r <= s.len(),
{
    let mut k: usize = i;
    while k < s.len() && s[k] != c
        invariant
            i <= k <= s.len(),
            find_char(s@, i as int, c) == find_char(s@, k as int, c),
        decreases s.len() - k,
    {
        k += 1;
    }
    k
}

fn find_close_from(s: &Vec<char>, i: usize) -> (r: usize)
    requires
        i <= s.len(),
    ensures
        r == find_close(s@, i as int),
        i <= r <= s.len(),
{
    let mut k: usize = i;
    while k < s.len() && s[k] != '\n' && !(s[k] == '}' && k + 1 < s.len() && s[k + 1] == '}')
        invariant
            i <= k <= s.len(),
            find_close(s@, i as int) == find_close(s@, k as int),
        decreases s.len() - k,
    {
        k += 1;
    }
    k
}

fn quote_end_at(s: &Vec<char>, a: usize) -> (r: Option<usize>)
    requires
        a <= s.len(),
    ensures
        match r {
            Some(q) => quote_end(s@, a as int) == Some(q as int) && a < q < s.len(),
            None => quote_end(s@, a as int) is None,
        },
{
    if a < s.len() && s[a] == '"' {
        let q = find_char_from(s, a + 1, '"');
        if q < s.len() {
            return Some(q);
        }
    }
    None
}

fn email_args_close_at(s: &Vec<char>, j: usize) -> (r: Option<usize>)
    requires
        j <= s.len(),
    ensures
        match r {
            Some(c) => email_args_close(s@, j as int) == Some(c as int) && j < c < s.len(),
            None => email_args_close(s@, j as int) is None,
        },
{
    if j < s.len() && s[j] == '(' {
        let a = skip_space_from(s, j + 1);
        let b = match quote_end_at(s, a) {
            Some(q) => q + 1,
            None => a,
        };
        let c = skip_space_from(s, b);
        if c < s.len() && s[c] == ')' {
            return Some(c);
        }
    }
    None
}

/// The quoted domain of the email token at `i`, if it has one.
pub fn email_domain_at(s: &Vec<char>, i: usize) -> (r: Option<Vec<char>>)
    ensures
        match r {
            Some(d) => email_domain(s@, i as int) == Some(d@),
            None => email_domain(s@, i as int) is None,
        },
{
    let tok = token_chars(Pattern::Email);
    if !matches_at(s, i, &tok) {
        return None;
    }
    assert(i + tok.len() <= s.len());
    let j = i + tok.len();
    if email_args_close_at(s, j).is_none() {
        return None;
    }
    let a = skip_space_from(s, j + 1);
    match quote_end_at(s, a) {
        Some(q) => Some(crate::text::slice_of(s, a + 1, q)),
        None => None,
    }
}

/// Length of the match of `p` at `i`, 0 where there is none. `tok` is the
/// token of `p`.
pub fn match_at(p: Pattern, tok: &Vec<char>, s: &Vec<char>, i: usize) -> (n: usize)
    requires
        tok@ == token(p),
    ensures
        n == match_len(p, s@, i as int),
{
    proof {
        lemma_match_bounds(p, s@, i as int);
    }
    if !matches_at(s, i, tok) {
        return 0;
    }
    assert(i + tok.len() <= s.len());
    let j = i + tok.len();
    match p {
        Pattern::Email => match email_args_close_at(s, j) {
            Some(c) => c + 1 - i,
            None => tok.len(),
        },
        Pattern::Placeholder => {
            let c = find_close_from(s, j);
            if c < s.len() && s[c] == '}' {
                c + 2 - i
            } else {
                0
            }
        },
        _ => tok.len(),
    }
}

/// The matches of `p` in `s` from index `i` on: leftmost first, none
/// overlapping an earlier one.
pub open spec fn sites_from(p: Pattern, s: Seq<char>, i: int) -> Seq<(int, int)>
    decreases s.len() - i,
    via sites_from_decreases
{
    if i < 0 || i >= s.len() {
        Seq::empty()
    } else if match_len(p, s, i) > 0 {
        seq![(i, match_len(p, s, i))] + sites_from(p, s, i + match_len(p, s, i))
    } else {
        sites_from(p, s, i + 1)
    }
}

#[via_fn]
proof fn sites_from_decreases(p: Pattern, s: Seq<char>, i: int) {
    lemma_match_bounds(p, s, i);
}

#[via_fn]
proof fn splice_from_decreases(
    p: Pattern,
    s: Seq<char>,
    i: int,
    vals: Seq<Option<Seq<char>>>,
    k: int,
) {
    lemma_match_bounds(p, s, i);
}

/// `s` from index `i` on, with the `k`-th and later values of `vals` put in
/// place of the matches of `p`, one value per match in order. A match whose
/// value is `None`, or for which no value is left, stays as it is.
pub open spec fn splice_from(
    p: Pattern,
    s: Seq<char>,
    i: int,
    vals: Seq<Option<Seq<char>>>,
    k: int,
) -> Seq<char>
    decreases s.len() - i,
    via splice_from_decreases
{
    if i < 0 || i >= s.len() {
        Seq::empty()
    } else if match_len(p, s, i) > 0 {
        let n = match_len(p, s, i);
        let piece = if 0 <= k < vals.len() && vals[k] is Some {
            vals[k]->0
        } else {
            s.subrange(i, i + n)
        };
        piece + splice_from(p, s, i + n, vals, k + 1)
    } else {
        seq![s[i]] + splice_from(p, s, i + 1, vals, k)
    }
}

/// `s` with `vals` in place of the matches of `p`.
pub open spec fn splice(p: Pattern, s: Seq<char>, vals: Seq<Option<Seq<char>>>) -> Seq<char> {
    splice_from(p, s, 0, vals, 0)
}

/// The views of a list of optional texts.
pub open spec fn views(vals: Seq<Option<Vec<char>>>) -> Seq<Option<Seq<char>>> {
    Seq::new(
        vals.len(),
        |i: int|
            match vals[i] {
                Some(v) => Some(v@),
                None => None,
            },
    )
}

/// Every match of `p` in `s`, in order.
pub fn find_sites(p: Pattern, s: &Vec<char>) -> (sites: Vec<Site>)
    ensures
        sites@.len() == sites_from(p, s@, 0).len(),
        forall|k: int|
            0 <= k < sites@.len() ==> (#[trigger] sites@[k]).start as int == sites_from(
                p,
                s@,
                0,
            )[k].0 && sites@[k].len as int == sites_from(p, s@, 0)[k].1,
        forall|k: int|
            0 <= k < sites@.len() ==> (#[trigger] sites@[k]).start + sites@[k].len <= s.len()
                && sites@[k].len > 0 && sites@[k].len as int == match_len(
                p,
                s@,
                sites@[k].start as int,
            ),
{
    let tok = token_chars(p);
    let mut sites: Vec<Site> = Vec::new();
    let mut i: usize = 0;
    while i < s.len()
        invariant
            i <= s.len(),
            tok@ == token(p),
            sites_from(p, s@, 0) =~= Seq::new(
                sites@.len(),
                |k: int| (sites@[k].start as int, sites@[k].len as int),
            ) + sites_from(p, s@, i as int),
            forall|k: int|
                0 <= k < sites@.len() ==> (#[trigger] sites@[k]).start + sites@[k].len <= s.len()
                    && sites@[k].len > 0 && sites@[k].len as int == match_len(
                    p,
                    s@,
                    sites@[k].start as int,
                ),
        decreases s.len() - i,
    {
        let n = match_at(p, &tok, s, i);
        proof {
            lemma_match_bounds(p, s@, i as int);
        }
        let ghost before = Seq::new(
            sites@.len(),
            |k: int| (sites@[k].start as int, sites@[k].len as int),
        );
        if n > 0 {
            sites.push(Site { start: i, len: n });
            assert(Seq::new(
                sites@.len(),
                |k: int| (sites@[k].start as int, sites@[k].len as int),
            ) =~= before + seq![(i as int, n as int)]);
            i += n;
        } else {
            i += 1;
        }
    }
    assert(sites_from(p, s@, s.len() as int) =~= Seq::empty());
    sites
}

/// Puts `vals` in place of the matches of `p` in `s`.
pub fn splice_chars(p: Pattern, s: &Vec<char>, vals: &Vec<Option<Vec<char>>>) -> (out: Vec<char>)
    ensures
        out@ == splice(p, s@, views(vals@)),
{
    let tok = token_chars(p);
    let mut out: Vec<char> = Vec::new();
    let mut i: usize = 0;
    let mut k: usize = 0;
    while i < s.len()
        invariant
            i <= s.len(),
            k <= i,
            tok@ == token(p),
            splice(p, s@, views(vals@)) == out@ + splice_from(
                p,
                s@,
                i as int,
                views(vals@),
                k as int,
            ),
        decreases s.len() - i,
    {
        let n = match_at(p, &tok, s, i);
        proof {
            lemma_match_bounds(p, s@, i as int);
        }
        let ghost prev = out@;
        let ghost rest_before = splice_from(p, s@, i as int, views(vals@), k as int);
        if n > 0 {
            let mut used = false;
            if k < vals.len() {
                match &vals[k] {
                    Some(v) => {
                        push_all(&mut out, v);
                        used = true;
                    },
                    None => {},
                }
            }
            if !used {
                let piece = crate::text::slice_of(s, i, i + n);
                push_all(&mut out, &piece);
            }
            assert(out@ + splice_from(p, s@, i + n, views(vals@), k + 1) =~= prev + rest_before);
            i += n;
            k += 1;
        } else {
            out.push(s[i]);
            assert(out@ + splice_from(p, s@, i + 1, views(vals@), k as int) =~= prev
                + rest_before);
            i += 1;
        }
    }
    assert(splice_from(p, s@, s.len() as int, views(vals@), k as int) =~= Seq::empty());
    assert(out@ + Seq::<char>::empty() =~= out@);
    out
}

/// Where no character of `s` from `i` on is the lead character of `p`,
/// nothing matches and splicing changes nothing.
pub proof fn lemma_splice_without_lead(
    p: Pattern,
    s: Seq<char>,
    i: int,
    vals: Seq<Option<Seq<char>>>,
    k: int,
)
    requires
        0 <= i <= s.len(),
        forall|j: int| i <= j < s.len() ==> s[j] != lead(p),
    ensures
        splice_from(p, s, i, vals, k) == s.subrange(i, s.len() as int),
        sites_from(p, s, i) == Seq::<(int, int)>::empty(),
    decreases s.len() - i,
{
    if i < s.len() {
        lemma_match_bounds(p, s, i);
        lemma_splice_without_lead(p, s, i + 1, vals, k);
        assert(seq![s[i]] + s.subrange(i + 1, s.len() as int) =~= s.subrange(i, s.len() as int));
    } else {
        assert(s.subrange(i, s.len() as int) =~= Seq::empty());
    }
}

/// Where nothing matches from `i` on, splicing changes nothing.
pub proof fn lemma_splice_without_match(
    p: Pattern,
    s: Seq<char>,
    i: int,
    vals: Seq<Option<Seq<char>>>,
    k: int,
)
    requires
        0 <= i <= s.len(),
        sites_from(p, s, i).len() == 0,
    ensures
        splice_from(p, s, i, vals, k) == s.subrange(i, s.len() as int),
    decreases s.len() - i,
{
    if i < s.len() {
        lemma_match_bounds(p, s, i);
        lemma_splice_without_match(p, s, i + 1, vals, k);
        assert(seq![s[i]] + s.subrange(i + 1, s.len() as int) =~= s.subrange(i, s.len() as int));
    } else {
        assert(s.subrange(i, s.len() as int) =~= Seq::empty());
    }
}

/// Matches whose values are all `None`, or for which no value is left, stay:
/// splicing changes nothing.
pub proof fn lemma_splice_all_kept(
    p: Pattern,
    s: Seq<char>,
    i: int,
    vals: Seq<Option<Seq<char>>>,
    k: int,
)
    requires
        0 <= i <= s.len(),
        0 <= k,
        forall|j: int| k <= j < vals.len() ==> vals[j] is None,
    ensures
        splice_from(p, s, i, vals, k) == s.subrange(i, s.len() as int),
    decreases s.len() - i,
{
    if i < s.len() {
        lemma_match_bounds(p, s, i);
        let n = match_len(p, s, i);
        if n > 0 {
            lemma_splice_all_kept(p, s, i + n, vals, k + 1);
            assert(s.subrange(i, i + n) + s.subrange(i + n, s.len() as int) =~= s.subrange(
                i,
                s.len() as int,
            ));
        } else {
            lemma_splice_all_kept(p, s, i + 1, vals, k);
            assert(seq![s[i]] + s.subrange(i + 1, s.len() as int) =~= s.subrange(
                i,
                s.len() as int,
            ));
        }
    } else {
        assert(s.subrange(i, s.len() as int) =~= Seq::empty());
    }
}

/// `sub` stands somewhere in `s`.
pub open spec fn has_part(s: Seq<char>, sub: Seq<char>) -> bool {
    exists|q: int| occurs_at(s, q, sub)
}

proof fn lemma_part_after(head: Seq<char>, rest: Seq<char>, sub: Seq<char>)
    requires
        has_part(rest, sub),
    ensures
        has_part(head + rest, sub),
{
    let q = choose|q: int| occurs_at(rest, q, sub);
    assert((head + rest).subrange(head.len() + q, head.len() + q + sub.len()) =~= rest.subrange(
        q,
        q + sub.len(),
    ));
    assert(occurs_at(head + rest, head.len() + q, sub));
}

/// A match that gets no value stays in the result as written. The match
/// is the one numbered `k` among all of the text when those from `i` on
/// are numbered from `k0`.
pub proof fn lemma_kept_match_stays(
    p: Pattern,
    s: Seq<char>,
    i: int,
    vals: Seq<Option<Seq<char>>>,
    k0: int,
    k: int,
)
    requires
        0 <= i <= s.len(),
        0 <= k0 <= k,
        k - k0 < sites_from(p, s, i).len(),
        !(k < vals.len() && vals[k] is Some),
    ensures
        has_part(
            splice_from(p, s, i, vals, k0),
            s.subrange(
                sites_from(p, s, i)[k - k0].0,
                sites_from(p, s, i)[k - k0].0 + sites_from(p, s, i)[k - k0].1,
            ),
        ),
    decreases s.len() - i,
{
    lemma_match_bounds(p, s, i);
    let n = match_len(p, s, i);
    if i < s.len() {
        if n > 0 {
            let piece = if 0 <= k0 < vals.len() && vals[k0] is Some {
                vals[k0]->0
            } else {
                s.subrange(i, i + n)
            };
            let rest = splice_from(p, s, i + n, vals, k0 + 1);
            if k == k0 {
                assert((piece + rest).subrange(0, piece.len() as int) =~= piece);
                assert(occurs_at(piece + rest, 0, piece));
            } else {
                lemma_kept_match_stays(p, s, i + n, vals, k0 + 1, k);
                assert(sites_from(p, s, i)[k - k0] == sites_from(p, s, i + n)[k - k0 - 1]);
                lemma_part_after(
                    piece,
                    rest,
                    s.subrange(
                        sites_from(p, s, i)[k - k0].0,
                        sites_from(p, s, i)[k - k0].0 + sites_from(p, s, i)[k - k0].1,
                    ),
                );
            }
        } else {
            lemma_kept_match_stays(p, s, i + 1, vals, k0, k);
            lemma_part_after(
                seq![s[i]],
                splice_from(p, s, i + 1, vals, k0),
                s.subrange(
                    sites_from(p, s, i)[k - k0].0,
                    sites_from(p, s, i)[k - k0].0 + sites_from(p, s, i)[k - k0].1,
                ),
            );
        }
    }
}

} // verus!
