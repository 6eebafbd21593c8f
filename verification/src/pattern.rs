//! Glob patterns over request paths.
//!
//! A pattern is a restricted glob: `*` matches a run of characters without
//! the path separator `/`, `?` matches exactly one character that is not
//! `/`, and `**` (at most one per pattern) matches a run of arbitrary
//! characters. Every other character matches only itself. A pattern
//! always covers the whole path.

use vstd::prelude::*;

use crate::text::char_at;
use crate::text::push_char;
use crate::text::str_to_chars;

verus! {

/// One element of a compiled glob.
#[derive(Clone, Copy, Debug, PartialEq, Eq, Structural)]
pub enum GlobToken {
    /// Matches exactly this character.
    Literal(char),
    /// `*`: zero or more characters, none of them `/`.
    Star,
    /// `?`: exactly one character that is not `/`.
    OneChar,
    /// `**`: zero or more arbitrary characters.
    DeepStar,
}

/// How many non-overlapping `**` occurrences a glob string contains,
/// scanning from the left.
pub open spec fn dstar_count(s: Seq<char>) -> nat
    decreases s.len(),
{
    if s.len() < 2 {
        0
    } else if s[0] == '*' && s[1] == '*' {
        1 + dstar_count(s.skip(2))
    } else {
        dstar_count(s.skip(1))
    }
}

/// A glob is accepted when it holds at most one `**`.
pub open spec fn valid_glob(s: Seq<char>) -> bool {
    dstar_count(s) <= 1
}

/// The token sequence a glob string denotes: only the two-character
/// `**` occurrence itself becomes the double wildcard; every other
/// character outside the wildcards, the separator included, stays a
/// literal.
pub open spec fn parse_glob(s: Seq<char>) -> Seq<GlobToken>
    decreases s.len(),
{
    if s.len() == 0 {
        seq![]
    } else if s.len() >= 2 && s[0] == '*' && s[1] == '*' {
        seq![GlobToken::DeepStar] + parse_glob(s.skip(2))
    } else if s[0] == '*' {
        seq![GlobToken::Star] + parse_glob(s.skip(1))
    } else if s[0] == '?' {
        seq![GlobToken::OneChar] + parse_glob(s.skip(1))
    } else {
        seq![GlobToken::Literal(s[0])] + parse_glob(s.skip(1))
    }
}

/// Whether a token sequence matches a whole path.
pub open spec fn toks_match(toks: Seq<GlobToken>, path: Seq<char>) -> bool
    decreases toks.len(), path.len(),
{
    if toks.len() == 0 {
        path.len() == 0
    } else {
        match toks[0] {
            GlobToken::Literal(c) => path.len() > 0 && path[0] == c && toks_match(
                toks.skip(1),
                path.skip(1),
            ),
            GlobToken::OneChar => path.len() > 0 && path[0] != '/' && toks_match(
                toks.skip(1),
                path.skip(1),
            ),
            GlobToken::Star => toks_match(toks.skip(1), path) || (path.len() > 0 && path[0] != '/'
                && toks_match(toks, path.skip(1))),
            GlobToken::DeepStar => toks_match(toks.skip(1), path) || (path.len() > 0 && toks_match(
                toks,
                path.skip(1),
            )),
        }
    }
}

/// Whether a glob string matches a whole path.
pub open spec fn glob_matches(glob: Seq<char>, path: Seq<char>) -> bool {
    toks_match(parse_glob(glob), path)
}

/// Counts the non-overlapping `**` occurrences of a glob, as
/// `dstar_count` does.
fn count_double_stars(chars: &Vec<char>) -> (count: usize)
    ensures
        count == dstar_count(chars@),
{
    let n = chars.len();
    let mut count: usize = 0;
    let mut i: usize = 0;
    proof {
        assert(chars@.skip(0) =~= chars@);
    }
    while i < n
        invariant
            i <= n,
            n == chars@.len(),
            count <= i,
            dstar_count(chars@) == count + dstar_count(chars@.skip(i as int)),
        decreases n - i,
    {
        proof {
            assert(chars@.skip(i as int).len() == n - i);
            assert(chars@.skip(i as int)[0] == chars@[i as int]);
            if n - i > 1 {
                assert(chars@.skip(i as int)[1] == chars@[i as int + 1]);
            }
        }
        if n - i > 1 && char_at(chars, i) == '*' && char_at(chars, i + 1) == '*' {
            proof {
                assert(chars@.skip(i as int).skip(2) =~= chars@.skip(i as int + 2));
            }
            count = count + 1;
            i = i + 2;
        } else {
            proof {
                assert(chars@.skip(i as int).skip(1) =~= chars@.skip(i as int + 1));
            }
            i = i + 1;
        }
    }
    proof {
        assert(chars@.skip(n as int).len() == 0);
    }
    count
}

/// Turns a glob string into its token sequence, as `parse_glob` does.
fn tokenize(chars: &Vec<char>) -> (toks: Vec<GlobToken>)
    ensures
        toks@ == parse_glob(chars@),
{
    let n = chars.len();
    let mut toks: Vec<GlobToken> = Vec::new();
    let mut i: usize = 0;
    proof {
        assert(chars@.skip(0) =~= chars@);
    }
    while i < n
        invariant
            i <= n,
            n == chars@.len(),
            parse_glob(chars@) == toks@ + parse_glob(chars@.skip(i as int)),
        decreases n - i,
    {
        let ghost rest = chars@.skip(i as int);
        proof {
            assert(rest.len() == n - i);
            assert(rest[0] == chars@[i as int]);
            if n - i > 1 {
                assert(rest[1] == chars@[i as int + 1]);
            }
        }
        let ghost old_toks = toks@;
        let tok: GlobToken;
        let step: usize;
        if n - i > 1 && char_at(chars, i) == '*' && char_at(chars, i + 1) == '*' {
            tok = GlobToken::DeepStar;
            step = 2;
        } else if char_at(chars, i) == '*' {
            tok = GlobToken::Star;
            step = 1;
        } else if char_at(chars, i) == '?' {
            tok = GlobToken::OneChar;
            step = 1;
        } else {
            tok = GlobToken::Literal(char_at(chars, i));
            step = 1;
        }
        toks.push(tok);
        proof {
            assert(rest.skip(step as int) =~= chars@.skip(i as int + step));
            assert(parse_glob(rest) == seq![tok] + parse_glob(rest.skip(step as int)));
            assert(toks@ =~= old_toks + seq![tok]);
            assert(toks@ + parse_glob(rest.skip(step as int)) =~= old_toks + (seq![tok]
                + parse_glob(rest.skip(step as int))));
        }
        i = i + step;
    }
    proof {
        assert(chars@.skip(n as int).len() == 0);
        assert(toks@ + parse_glob(chars@.skip(n as int)) =~= toks@);
    }
    toks
}

/// Matches the tokens from `ti` on against the path from `pi` on, by
/// backtracking exactly as `toks_match` is defined.
fn match_from(toks: &Vec<GlobToken>, ti: usize, path: &Vec<char>, pi: usize) -> (r: bool)
    requires
        ti <= toks@.len(),
        pi <= path@.len(),
    ensures
        r == toks_match(toks@.skip(ti as int), path@.skip(pi as int)),
    decreases toks@.len() - ti, path@.len() - pi,
{
    let ghost trest = toks@.skip(ti as int);
    let ghost prest = path@.skip(pi as int);
    if ti == toks.len() {
        proof {
            assert(trest.len() == 0);
        }
        pi == path.len()
    } else {
        proof {
            assert(trest[0] == toks@[ti as int]);
            assert(trest.skip(1) =~= toks@.skip(ti as int + 1));
            if pi < path@.len() {
                assert(prest[0] == path@[pi as int]);
                assert(prest.skip(1) =~= path@.skip(pi as int + 1));
            }
        }
        match toks[ti] {
            GlobToken::Literal(c) => pi < path.len() && char_at(path, pi) == c && match_from(
                toks,
                ti + 1,
                path,
                pi + 1,
            ),
            GlobToken::OneChar => pi < path.len() && char_at(path, pi) != '/' && match_from(
                toks,
                ti + 1,
                path,
                pi + 1,
            ),
            GlobToken::Star => {
                if match_from(toks, ti + 1, path, pi) {
                    true
                } else {
                    pi < path.len() && char_at(path, pi) != '/' && match_from(toks, ti, path, pi + 1)
                }
            },
            GlobToken::DeepStar => {
                if match_from(toks, ti + 1, path, pi) {
                    true
                } else {
                    pi < path.len() && match_from(toks, ti, path, pi + 1)
                }
            },
        }
    }
}


/// The characters that are escaped when a literal is rendered into the
/// derived regular expression.
pub open spec fn is_regex_meta(c: char) -> bool {
    ||| c == '/'
    ||| c == '.'
    ||| c == '\\'
    ||| c == '+'
    ||| c == '*'
    ||| c == '?'
    ||| c == '('
    ||| c == ')'
    ||| c == '['
    ||| c == ']'
    ||| c == '{'
    ||| c == '}'
    ||| c == '|'
    ||| c == '^'
    ||| c == '$'
}

/// The regular-expression text of one token.
pub open spec fn token_regex(t: GlobToken) -> Seq<char> {
    match t {
        GlobToken::Literal(c) => if is_regex_meta(c) {
            seq!['\\', c]
        } else {
            seq![c]
        },
        GlobToken::Star => seq!['[', '^', '/', ']', '*'],
        GlobToken::OneChar => seq!['[', '^', '/', ']'],
        GlobToken::DeepStar => seq!['.', '*'],
    }
}

/// The regular-expression text of a token sequence.
pub open spec fn toks_regex(toks: Seq<GlobToken>) -> Seq<char>
    decreases toks.len(),
{
    if toks.len() == 0 {
        seq![]
    } else {
        token_regex(toks[0]) + toks_regex(toks.skip(1))
    }
}

/// The anchored regular expression a glob compiles to.
pub open spec fn regex_of(glob: Seq<char>) -> Seq<char> {
    seq!['^'] + toks_regex(parse_glob(glob)) + seq!['$']
}

proof fn lemma_toks_regex_push(toks: Seq<GlobToken>, t: GlobToken)
    ensures
        toks_regex(toks.push(t)) == toks_regex(toks) + token_regex(t),
    decreases toks.len(),
{
    let p = toks.push(t);
    if toks.len() == 0 {
        assert(p.len() == 1);
        assert(p[0] == t);
        assert(p.skip(1) =~= Seq::<GlobToken>::empty());
        assert(toks_regex(p.skip(1)) =~= Seq::<char>::empty());
        assert(toks_regex(p) == token_regex(t) + toks_regex(p.skip(1)));
        assert(toks_regex(p) =~= token_regex(t));
        assert(toks_regex(toks) + token_regex(t) =~= token_regex(t));
    } else {
        lemma_toks_regex_push(toks.skip(1), t);
        assert(p.skip(1) =~= toks.skip(1).push(t));
        assert(p[0] == toks[0]);
        assert(toks_regex(p) == token_regex(toks[0]) + toks_regex(p.skip(1)));
        assert(toks_regex(p.skip(1)) == toks_regex(toks.skip(1)) + token_regex(t));
        assert(token_regex(toks[0]) + (toks_regex(toks.skip(1)) + token_regex(t)) =~= (token_regex(
            toks[0],
        ) + toks_regex(toks.skip(1))) + token_regex(t));
        assert(toks_regex(toks) == token_regex(toks[0]) + toks_regex(toks.skip(1)));
        assert(toks_regex(p) =~= toks_regex(toks) + token_regex(t));
    }
}

/// One token of a vector, read through a call for the same reason as
/// `char_at`.
fn tok_at(v: &Vec<GlobToken>, i: usize) -> (t: GlobToken)
    requires
        i < v@.len(),
    ensures
        t == v@[i as int],
{
    v[i]
}

/// Whether the character is escaped in the derived expression, as
/// `is_regex_meta` says.
fn is_meta(c: char) -> (r: bool)
    ensures
        r == is_regex_meta(c),
{
    c == '/' || c == '.' || c == '\\' || c == '+' || c == '*' || c == '?' || c == '(' || c == ')'
        || c == '[' || c == ']' || c == '{' || c == '}' || c == '|' || c == '^' || c == '$'
}

/// Renders the anchored regular expression of a token sequence, as
/// `regex_of` does.
fn regex_string(toks: &Vec<GlobToken>) -> (s: String)
    ensures
        s@ == seq!['^'] + toks_regex(toks@) + seq!['$'],
{
    let mut s = String::new();
    push_char(&mut s, '^');
    let n = toks.len();
    let mut i: usize = 0;
    proof {
        assert(toks@.take(0) =~= Seq::<GlobToken>::empty());
        assert(s@ =~= seq!['^'] + toks_regex(toks@.take(0)));
    }
    while i < n
        invariant
            i <= n,
            n == toks@.len(),
            s@ == seq!['^'] + toks_regex(toks@.take(i as int)),
        decreases n - i,
    {
        let ghost pre = s@;
        let t = tok_at(toks, i);
        match t {
            GlobToken::Literal(c) => {
                if is_meta(c) {
                    push_char(&mut s, '\\');
                    push_char(&mut s, c);
                } else {
                    push_char(&mut s, c);
                }
            },
            GlobToken::Star => {
                push_char(&mut s, '[');
                push_char(&mut s, '^');
                push_char(&mut s, '/');
                push_char(&mut s, ']');
                push_char(&mut s, '*');
            },
            GlobToken::OneChar => {
                push_char(&mut s, '[');
                push_char(&mut s, '^');
                push_char(&mut s, '/');
                push_char(&mut s, ']');
            },
            GlobToken::DeepStar => {
                push_char(&mut s, '.');
                push_char(&mut s, '*');
            },
        }
        proof {
            assert(s@ =~= pre + token_regex(t));
            assert(toks@.take(i + 1) =~= toks@.take(i as int).push(t));
            lemma_toks_regex_push(toks@.take(i as int), t);
            assert(seq!['^'] + toks_regex(toks@.take(i + 1)) =~= (seq!['^'] + toks_regex(
                toks@.take(i as int),
            )) + token_regex(t));
        }
        i = i + 1;
    }
    push_char(&mut s, '$');
    proof {
        assert(toks@.take(n as int) =~= toks@);
        assert(s@ =~= seq!['^'] + toks_regex(toks@) + seq!['$']);
    }
    s
}

/// Why a glob string is rejected.
#[derive(Clone, Copy, Debug, PartialEq, Eq, Structural)]
pub enum PatternError {
    /// The glob holds more than one `**`.
    InvalidPattern,
}

/// A compiled public-path pattern: the administrator's glob string, the
/// anchored regular expression derived from it, and the token sequence
/// that drives matching.
#[derive(Debug)]
pub struct Pattern {
    /// The original glob string; serializing a pattern yields exactly this.
    pub pattern: String,
    /// The anchored regular expression the glob compiles to.
    pub regex: String,
    /// The compiled form: the token sequence that drives matching,
    /// derived from the glob string.
    pub toks: Vec<GlobToken>,
}

impl Pattern {
    /// The stored tokens and expression are the ones derived from the
    /// stored glob string, and the glob is valid.
    pub closed spec fn wf(&self) -> bool {
        &&& valid_glob(self.pattern@)
        &&& self.toks@ == parse_glob(self.pattern@)
        &&& self.regex@ == regex_of(self.pattern@)
    }

    /// What this pattern matches, as a predicate on paths.
    pub closed spec fn spec_matches(&self, path: Seq<char>) -> bool {
        toks_match(self.toks@, path)
    }

    /// A well-formed pattern matches exactly what its glob string denotes.
    pub proof fn lemma_wf_matches(&self, path: Seq<char>)
        requires
            self.wf(),
        ensures
            self.spec_matches(path) == glob_matches(self.pattern@, path),
    {
    }

    /// Compiles a glob string. Fails exactly when the glob holds more
    /// than one `**`.
    pub fn new(pattern: &str) -> (r: Result<Pattern, PatternError>)
        ensures
            r is Ok <==> valid_glob(pattern@),
            r matches Ok(p) ==> p.wf() && p.pattern@ == pattern@ && p.regex@ == regex_of(pattern@),
            r matches Err(e) ==> e == PatternError::InvalidPattern,
    {
        let chars = str_to_chars(pattern);
        let count = count_double_stars(&chars);
        if count > 1 {
            return Err(PatternError::InvalidPattern);
        }
        let toks = tokenize(&chars);
        let regex = regex_string(&toks);
        Ok(Pattern { pattern: pattern.to_owned(), regex, toks })
    }

    /// Whether the whole path matches this pattern.
    pub fn is_match(&self, path: &str) -> (r: bool)
        requires
            self.wf(),
        ensures
            r == glob_matches(self.pattern@, path@),
    {
        let chars = str_to_chars(path);
        proof {
            assert(self.toks@.skip(0) =~= self.toks@);
            assert(chars@.skip(0) =~= chars@);
        }
        match_from(&self.toks, 0, &chars, 0)
    }
}

/// Whether any pattern of the set matches the path. Order is irrelevant:
/// one match suffices.
pub open spec fn any_glob_matches(patterns: Seq<Pattern>, path: Seq<char>) -> bool {
    exists|i: int| 0 <= i < patterns.len() && glob_matches(patterns[i].pattern@, path)
}

/// Whether the path matches some pattern of the set.
pub fn any_match(patterns: &Vec<Pattern>, path: &str) -> (r: bool)
    requires
        forall|i: int| 0 <= i < patterns@.len() ==> patterns@[i].wf(),
    ensures
        r == any_glob_matches(patterns@, path@),
{
    let n = patterns.len();
    let mut i: usize = 0;
    while i < n
        invariant
            i <= n,
            n == patterns@.len(),
            forall|j: int| 0 <= j < patterns@.len() ==> patterns@[j].wf(),
            forall|j: int| 0 <= j < i ==> !glob_matches(patterns@[j].pattern@, path@),
        decreases n - i,
    {
        if patterns[i].is_match(path) {
            proof {
                assert(glob_matches(patterns@[i as int].pattern@, path@));
            }
            return true;
        }
        i = i + 1;
    }
    false
}



/// How many times a character occurs in a sequence.
pub open spec fn char_count(s: Seq<char>, c: char) -> nat
    decreases s.len(),
{
    if s.len() == 0 {
        0
    } else {
        (if s[0] == c {
            1nat
        } else {
            0nat
        }) + char_count(s.skip(1), c)
    }
}

/// How many literal tokens for a character a token sequence holds.
pub open spec fn literal_count(toks: Seq<GlobToken>, c: char) -> nat
    decreases toks.len(),
{
    if toks.len() == 0 {
        0
    } else {
        (if toks[0] == GlobToken::Literal(c) {
            1nat
        } else {
            0nat
        }) + literal_count(toks.skip(1), c)
    }
}

/// Round trip: two well-formed patterns over the same glob string have
/// the same derived expression and match exactly the same paths, so a
/// pattern rebuilt from its serialized glob behaves as the original.
pub proof fn lemma_roundtrip(a: &Pattern, b: &Pattern, path: Seq<char>)
    requires
        a.wf(),
        b.wf(),
        a.pattern@ == b.pattern@,
    ensures
        a.spec_matches(path) == b.spec_matches(path),
        a.regex@ == b.regex@,
{
}

/// A lone `**` matches every path: the double wildcard crosses `/`.
pub proof fn lemma_deep_star_matches_all(path: Seq<char>)
    ensures
        toks_match(seq![GlobToken::DeepStar], path),
    decreases path.len(),
{
    let toks = seq![GlobToken::DeepStar];
    assert(toks.skip(1) =~= Seq::<GlobToken>::empty());
    if path.len() == 0 {
        assert(toks_match(toks.skip(1), path));
    } else {
        lemma_deep_star_matches_all(path.skip(1));
    }
}

/// A lone `*` matches exactly the paths without a separator: the single
/// wildcard never crosses `/`.
pub proof fn lemma_star_within_segment(path: Seq<char>)
    ensures
        toks_match(seq![GlobToken::Star], path) <==> (forall|i: int|
            0 <= i < path.len() ==> path[i] != '/'),
    decreases path.len(),
{
    let toks = seq![GlobToken::Star];
    assert(toks.skip(1) =~= Seq::<GlobToken>::empty());
    if path.len() == 0 {
        assert(toks_match(toks.skip(1), path));
    } else {
        lemma_star_within_segment(path.skip(1));
        assert(forall|i: int| 0 <= i < path.skip(1).len() ==> path.skip(1)[i] == path[i + 1]);
        if path[0] != '/' && (forall|i: int| 0 <= i < path.skip(1).len() ==> path.skip(1)[i]
            != '/') {
            assert forall|i: int| 0 <= i < path.len() implies path[i] != '/' by {
                if i > 0 {
                    assert(path.skip(1)[i - 1] == path[i]);
                }
            }
        }
        if forall|i: int| 0 <= i < path.len() ==> path[i] != '/' {
            assert(path[0] != '/');
        }
        assert(!toks_match(toks.skip(1), path));
    }
}

/// Without `**`, a match keeps the separators in place: the path holds
/// exactly as many `/` as the pattern spells out, so neither `*` nor `?`
/// ever stands for one.
pub proof fn lemma_no_deep_star_keeps_separators(toks: Seq<GlobToken>, path: Seq<char>)
    requires
        !toks.contains(GlobToken::DeepStar),
        toks_match(toks, path),
    ensures
        char_count(path, '/') == literal_count(toks, '/'),
    decreases toks.len(), path.len(),
{
    if toks.len() == 0 {
        assert(path.len() == 0);
    } else {
        assert(!toks.skip(1).contains(GlobToken::DeepStar)) by {
            if toks.skip(1).contains(GlobToken::DeepStar) {
                let k = choose|k: int|
                    0 <= k < toks.skip(1).len() && toks.skip(1)[k] == GlobToken::DeepStar;
                assert(toks[k + 1] == GlobToken::DeepStar);
            }
        }
        match toks[0] {
            GlobToken::Literal(c) => {
                lemma_no_deep_star_keeps_separators(toks.skip(1), path.skip(1));
            },
            GlobToken::OneChar => {
                lemma_no_deep_star_keeps_separators(toks.skip(1), path.skip(1));
            },
            GlobToken::Star => {
                if toks_match(toks.skip(1), path) {
                    lemma_no_deep_star_keeps_separators(toks.skip(1), path);
                } else {
                    lemma_no_deep_star_keeps_separators(toks, path.skip(1));
                }
            },
            GlobToken::DeepStar => {
                assert(toks[0] == GlobToken::DeepStar);
                assert(toks.contains(GlobToken::DeepStar));
            },
        }
    }
}

/// Without `*` and `**`, arity is exact: a match forces the path to have
/// one character per token, so each `?` stands for exactly one character.
pub proof fn lemma_fixed_arity(toks: Seq<GlobToken>, path: Seq<char>)
    requires
        !toks.contains(GlobToken::Star),
        !toks.contains(GlobToken::DeepStar),
        toks_match(toks, path),
    ensures
        path.len() == toks.len(),
    decreases toks.len(),
{
    if toks.len() == 0 {
    } else {
        assert(!toks.skip(1).contains(GlobToken::Star) && !toks.skip(1).contains(
            GlobToken::DeepStar,
        )) by {
            if toks.skip(1).contains(GlobToken::Star) {
                let k = choose|k: int|
                    0 <= k < toks.skip(1).len() && toks.skip(1)[k] == GlobToken::Star;
                assert(toks[k + 1] == GlobToken::Star);
            }
            if toks.skip(1).contains(GlobToken::DeepStar) {
                let k = choose|k: int|
                    0 <= k < toks.skip(1).len() && toks.skip(1)[k] == GlobToken::DeepStar;
                assert(toks[k + 1] == GlobToken::DeepStar);
            }
        }
        match toks[0] {
            GlobToken::Literal(c) => {
                lemma_fixed_arity(toks.skip(1), path.skip(1));
            },
            GlobToken::OneChar => {
                lemma_fixed_arity(toks.skip(1), path.skip(1));
            },
            GlobToken::Star => {
                assert(toks[0] == GlobToken::Star);
                assert(toks.contains(GlobToken::Star));
            },
            GlobToken::DeepStar => {
                assert(toks[0] == GlobToken::DeepStar);
                assert(toks.contains(GlobToken::DeepStar));
            },
        }
    }
}



/// How many double-wildcard tokens a token sequence holds.
pub open spec fn deep_count(toks: Seq<GlobToken>) -> nat
    decreases toks.len(),
{
    if toks.len() == 0 {
        0
    } else {
        (if toks[0] == GlobToken::DeepStar {
            1nat
        } else {
            0nat
        }) + deep_count(toks.skip(1))
    }
}

proof fn lemma_deep_count_literal_step(c: char, s: Seq<char>)
    requires
        s.len() > 0,
        s[0] == c,
        !(s.len() >= 2 && s[0] == '*' && s[1] == '*'),
        s[0] != '*',
        s[0] != '?',
    ensures
        deep_count(parse_glob(s)) == deep_count(parse_glob(s.skip(1))),
{
    let rest = parse_glob(s.skip(1));
    assert(parse_glob(s) == seq![GlobToken::Literal(c)] + rest);
    assert((seq![GlobToken::Literal(c)] + rest)[0] == GlobToken::Literal(c));
    assert((seq![GlobToken::Literal(c)] + rest).skip(1) =~= rest);
}

proof fn lemma_deep_count_parse(s: Seq<char>)
    ensures
        deep_count(parse_glob(s)) == dstar_count(s),
    decreases s.len(),
{
    if s.len() == 0 {
        assert(deep_count(parse_glob(s)) == dstar_count(s));
    } else if s.len() >= 2 && s[0] == '*' && s[1] == '*' {
        lemma_deep_count_parse(s.skip(2));
        let rest = parse_glob(s.skip(2));
        assert((seq![GlobToken::DeepStar] + rest)[0] == GlobToken::DeepStar);
        assert((seq![GlobToken::DeepStar] + rest).skip(1) =~= rest);
        assert(dstar_count(s) == 1 + dstar_count(s.skip(2)));
        assert(deep_count(parse_glob(s)) == dstar_count(s));
    } else {
        lemma_deep_count_parse(s.skip(1));
        let rest = parse_glob(s.skip(1));
        if s[0] == '*' {
            assert(parse_glob(s) == seq![GlobToken::Star] + rest);
            assert((seq![GlobToken::Star] + rest)[0] == GlobToken::Star);
            assert((seq![GlobToken::Star] + rest).skip(1) =~= rest);
            assert(deep_count(parse_glob(s)) == dstar_count(s));
        } else if s[0] == '?' {
            assert(parse_glob(s) == seq![GlobToken::OneChar] + rest);
            assert((seq![GlobToken::OneChar] + rest)[0] == GlobToken::OneChar);
            assert((seq![GlobToken::OneChar] + rest).skip(1) =~= rest);
            assert(deep_count(parse_glob(s)) == dstar_count(s));
        } else {
            lemma_deep_count_literal_step(s[0], s);
            assert(dstar_count(s) == dstar_count(s.skip(1)));
            assert(deep_count(parse_glob(s)) == dstar_count(s));
        }
    }
}

/// The data-model invariant of a pattern: an accepted glob compiles to
/// at most one double-wildcard token.
pub proof fn lemma_single_deep_wildcard(g: Seq<char>)
    requires
        valid_glob(g),
    ensures
        deep_count(parse_glob(g)) <= 1,
{
    lemma_deep_count_parse(g);
}


} // verus!
