//! The configuration of a run, frozen before the first row is read.

use vstd::prelude::*;
use crate::data::opt_view;
use crate::text::{chars_of, slice_of, string_of};

verus! {

/// A group selector: an optional worksheet and a group name.
pub type GroupSelector = (Option<String>, String);

/// The configuration of a run.
#[derive(Debug, Clone)]
pub struct Config {
    pub start_row: Option<usize>,
    pub end_row: Option<usize>,
    pub base_url: Option<String>,
    pub test_file: Option<String>,
    pub worksheet: Option<String>,
    pub verbose: bool,
    pub token_key: Option<String>,
    pub groups: Option<Vec<(Option<String>, String)>>,
}

/// What the command line gave; `None` and empty mean "not given".
#[derive(Debug, Clone)]
pub struct Overrides {
    pub start_row: Option<usize>,
    pub end_row: Option<usize>,
    pub base_url: Option<String>,
    pub test_file: Option<String>,
    pub worksheet: Option<String>,
    pub verbose: bool,
    pub groups: Vec<(Option<String>, String)>,
}

/// `c` separates worksheet and group in a selector.
pub open spec fn is_separator(c: char) -> bool {
    c == '.' || c == ':'
}

/// Number of separators in `s[..n]`.
pub open spec fn separators(s: Seq<char>, n: int) -> nat
    decreases n,
{
    if n <= 0 || n > s.len() {
        0
    } else {
        separators(s, n - 1) + if is_separator(s[n - 1]) {
            1nat
        } else {
            0nat
        }
    }
}

/// The first separator of `s` at or after `i`, or the length of `s`.
pub open spec fn first_separator(s: Seq<char>, i: int) -> int
    decreases s.len() - i,
{
    if 0 <= i < s.len() && !is_separator(s[i]) {
        first_separator(s, i + 1)
    } else {
        i
    }
}

/// What a selector text means: `group`, `sheet.group` or `sheet:group`.
/// A text with more than one separator means nothing.
pub open spec fn selector_of(s: Seq<char>) -> Option<(Option<Seq<char>>, Seq<char>)> {
    let n = separators(s, s.len() as int);
    let p = first_separator(s, 0);
    if n == 0 {
        Some((None, s))
    } else if n == 1 {
        Some((Some(s.subrange(0, p)), s.subrange(p + 1, s.len() as int)))
    } else {
        None
    }
}

/// The view of a selector.
pub open spec fn selector_view(g: (Option<String>, String)) -> (Option<Seq<char>>, Seq<char>) {
    (opt_view(g.0), g.1@)
}

proof fn lemma_first_separator(s: Seq<char>, i: int)
    requires
        0 <= i <= s.len(),
    ensures
        i <= first_separator(s, i) <= s.len(),
        first_separator(s, i) < s.len() ==> is_separator(s[first_separator(s, i)]),
    decreases s.len() - i,
{
    if i < s.len() && !is_separator(s[i]) {
        lemma_first_separator(s, i + 1);
    }
}

impl Config {
    /// Row bounds were given without a worksheet to apply them to.
    pub fn row_range_conflict(
        start_row: &Option<usize>,
        end_row: &Option<usize>,
        worksheet: &Option<String>,
    ) -> (b: bool)
        ensures
            b == ((start_row is Some || end_row is Some) && worksheet is None),
    {
        (start_row.is_some() || end_row.is_some()) && worksheet.is_none()
    }

    /// Reads one `-g` argument. `None` for a text with more than one
    /// separator.
    pub fn parse_group_selector(text: &str) -> (r: Option<(Option<String>, String)>)
        ensures
            match r {
                Some(g) => selector_of(text@) == Some(selector_view(g)),
                None => selector_of(text@) is None,
            },
    {
        let s = chars_of(text);
        let mut count: usize = 0;
        let mut first: usize = s.len();
        let mut i: usize = 0;
        while i < s.len()
            invariant
                i <= s.len(),
                count <= i,
                count as nat == separators(s@, i as int),
                count == 0 ==> first == s.len() && first_separator(s@, 0) == first_separator(
                    s@,
                    i as int,
                ),
                count > 0 ==> first < i && first as int == first_separator(s@, 0),
            decreases s.len() - i,
        {
            if s[i] == '.' || s[i] == ':' {
                if count == 0 {
                    first = i;
                }
                count += 1;
            }
            i += 1;
        }
        if count == 0 {
            assert(s@ == text@);
            Some((None, string_of(&s)))
        } else if count == 1 {
            let sheet = slice_of(&s, 0, first);
            let group = slice_of(&s, first + 1, s.len());
            Some((Some(string_of(&sheet)), string_of(&group)))
        } else {
            None
        }
    }

    /// The configuration read from file with the command line laid over it:
    /// a value given on the command line wins; `verbose` is the command
    /// line's alone; the token key stays as the file has it.
    pub fn apply_overrides(self, cli: Overrides) -> (r: Config)
        ensures
            r.start_row == (if cli.start_row is Some {
                cli.start_row
            } else {
                self.start_row
            }),
            r.end_row == (if cli.end_row is Some {
                cli.end_row
            } else {
                self.end_row
            }),
            r.base_url == (if cli.base_url is Some {
                cli.base_url
            } else {
                self.base_url
            }),
            r.test_file == (if cli.test_file is Some {
                cli.test_file
            } else {
                self.test_file
            }),
            r.worksheet == (if cli.worksheet is Some {
                cli.worksheet
            } else {
                self.worksheet
            }),
            r.token_key == self.token_key,
            r.verbose == cli.verbose,
            r.groups == (if cli.groups@.len() > 0 {
                Some(cli.groups)
            } else {
                self.groups
            }),
    {
        let mut config = self;
        if cli.start_row.is_some() {
            config.start_row = cli.start_row;
        }
        if cli.end_row.is_some() {
            config.end_row = cli.end_row;
        }
        if cli.base_url.is_some() {
            config.base_url = cli.base_url;
        }
        if cli.test_file.is_some() {
            config.test_file = cli.test_file;
        }
        if cli.worksheet.is_some() {
            config.worksheet = cli.worksheet;
        }
        if cli.groups.len() > 0 {
            config.groups = Some(cli.groups);
        }
        config.verbose = cli.verbose;
        config
    }
}

} // verus!
