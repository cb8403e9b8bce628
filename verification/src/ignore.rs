//! The layered ignore-rule engine.
//!
//! One scan compiles a single ordered rule set from four sources, in
//! increasing precedence: the root `.gitignore` file, the root
//! `.indexignore` file, a fixed set of built-in excludes, and the
//! caller's extra patterns.  Within the compiled set a later rule
//! overrides an earlier one, and a negated rule (`!pattern`) un-ignores
//! a path an earlier rule matched.  A path is judged gitignore-style:
//! the path itself is tried first, then each parent directory from the
//! innermost outward; the first of those candidates that any rule
//! matches is decided by the last such rule.

use vstd::prelude::*;

use crate::glob::{
    Pattern, Segment, SpecPattern, SpecSegment, Tok, pattern_matches, spec_pattern_matches,
};
use crate::text::{
    chars_of, find_sep, next_sep, spec_split, spec_trim, split_exec, str_views, subvec, trim_exec,
    views_of,
};
use vstd::string::StrSliceExecFns;

verus! {

/// Why a scan could not start.
#[derive(Clone, Copy, PartialEq, Eq, Structural, Debug)]
pub enum ScanError {
    /// A line of an ignore source does not parse as a pattern.
    IgnorePattern,
    /// An include glob does not parse as a pattern.
    IncludeGlob,
}

/// Tokens of `seg[i..]`, where a backslash escapes the character after
/// it; `None` when a backslash ends the segment.
pub open spec fn parse_toks_from(seg: Seq<char>, i: int) -> Option<Seq<Tok>>
    decreases seg.len() - i,
{
    if i < 0 || i > seg.len() {
        None
    } else if i == seg.len() {
        Some(Seq::empty())
    } else if seg[i] == '\\' {
        if i + 1 == seg.len() {
            None
        } else {
            match parse_toks_from(seg, i + 2) {
                Some(t) => Some(seq![Tok::Lit(seg[i + 1] as u32)] + t),
                None => None,
            }
        }
    } else {
        let tok = if seg[i] == '*' {
            Tok::Star
        } else if seg[i] == '?' {
            Tok::AnyChar
        } else {
            Tok::Lit(seg[i] as u32)
        };
        match parse_toks_from(seg, i + 1) {
            Some(t) => Some(seq![tok] + t),
            None => None,
        }
    }
}

/// One path-segment pattern: the whole segment `**`, or its tokens.
pub open spec fn parse_segment_spec(seg: Seq<char>) -> Option<SpecSegment> {
    if seg.len() == 2 && seg[0] == '*' && seg[1] == '*' {
        Some(SpecSegment { stars: true, toks: Seq::empty() })
    } else {
        match parse_toks_from(seg, 0) {
            Some(t) => Some(SpecSegment { stars: false, toks: t }),
            None => None,
        }
    }
}

/// All segment patterns of `segs[i..]`, or `None` if any fails.
pub open spec fn parse_segments_spec(segs: Seq<Seq<char>>, i: int) -> Option<Seq<SpecSegment>>
    decreases segs.len() - i,
{
    if i < 0 || i > segs.len() {
        None
    } else if i == segs.len() {
        Some(Seq::empty())
    } else {
        match (parse_segment_spec(segs[i]), parse_segments_spec(segs, i + 1)) {
            (Some(s), Some(rest)) => Some(seq![s] + rest),
            _ => None,
        }
    }
}

/// The compiled form of one pattern line: a leading `!` negates, a
/// trailing `/` restricts to directories, an inner `/` anchors the
/// pattern at the root, and the remainder is split into segments.
pub open spec fn parse_rule_spec(line: Seq<char>) -> Option<SpecPattern> {
    let neg = line.len() > 0 && line[0] == '!';
    let b0 = if neg {
        line.skip(1)
    } else {
        line
    };
    let dir_only = b0.len() > 0 && b0.last() == '/';
    let b1 = if dir_only {
        b0.drop_last()
    } else {
        b0
    };
    let anchored = next_sep(b1, 0, '/') < b1.len() || (b1.len() == 2 && b1[0] == '*' && b1[1]
        == '*');
    let b2 = if b1.len() > 0 && b1[0] == '/' {
        b1.skip(1)
    } else {
        b1
    };
    match parse_segments_spec(spec_split(b2, '/'), 0) {
        Some(segs) => Some(
            SpecPattern { negated: neg, dir_only: dir_only, anchored: anchored, segs: segs },
        ),
        None => None,
    }
}

fn parse_toks_at(seg: &Vec<char>, i: usize) -> (r: Option<Vec<Tok>>)
    requires
        i <= seg@.len(),
    ensures
        match r {
            Some(t) => parse_toks_from(seg@, i as int) == Some(t@),
            None => parse_toks_from(seg@, i as int) is None,
        },
    decreases seg@.len() - i,
{
    if i == seg.len() {
        let t: Vec<Tok> = Vec::new();
        proof {
            assert(t@ =~= Seq::<Tok>::empty());
        }
        Some(t)
    } else if seg[i] == '\\' {
        if i + 1 == seg.len() {
            None
        } else {
            let c = seg[i + 1] as u32;
            match parse_toks_at(seg, i + 2) {
                Some(mut t) => {
                    let ghost t0 = t@;
                    t.insert(0, Tok::Lit(c));
                    proof {
                        assert(t@ =~= seq![Tok::Lit(c)] + t0);
                    }
                    Some(t)
                },
                None => None,
            }
        }
    } else {
        let c = seg[i];
        let tok = if c == '*' {
            Tok::Star
        } else if c == '?' {
            Tok::AnyChar
        } else {
            Tok::Lit(c as u32)
        };
        match parse_toks_at(seg, i + 1) {
            Some(mut t) => {
                let ghost t0 = t@;
                t.insert(0, tok);
                proof {
                    assert(t@ =~= seq![tok] + t0);
                }
                Some(t)
            },
            None => None,
        }
    }
}

fn parse_segment_exec(seg: &Vec<char>) -> (r: Option<Segment>)
    ensures
        match r {
            Some(s) => parse_segment_spec(seg@) == Some(s@),
            None => parse_segment_spec(seg@) is None,
        },
{
    if seg.len() == 2 && seg[0] == '*' && seg[1] == '*' {
        let toks: Vec<Tok> = Vec::new();
        proof {
            assert(toks@ =~= Seq::<Tok>::empty());
        }
        Some(Segment { stars: true, toks })
    } else {
        match parse_toks_at(seg, 0) {
            Some(t) => Some(Segment { stars: false, toks: t }),
            None => None,
        }
    }
}

fn parse_segments_exec(segs: &Vec<Vec<char>>, i: usize) -> (r: Option<Vec<Segment>>)
    requires
        i <= segs@.len(),
    ensures
        match r {
            Some(v) => parse_segments_spec(views_of(segs@), i as int) == Some(
                v@.map_values(|s: Segment| s@),
            ),
            None => parse_segments_spec(views_of(segs@), i as int) is None,
        },
    decreases segs@.len() - i,
{
    if i == segs.len() {
        let v: Vec<Segment> = Vec::new();
        proof {
            assert(v@.map_values(|s: Segment| s@) =~= Seq::<SpecSegment>::empty());
        }
        Some(v)
    } else {
        proof {
            assert(views_of(segs@)[i as int] == segs@[i as int]@);
        }
        match parse_segment_exec(&segs[i]) {
            Some(s) => match parse_segments_exec(segs, i + 1) {
                Some(mut v) => {
                    let ghost v0 = v@;
                    let ghost sv = s@;
                    v.insert(0, s);
                    proof {
                        assert(v@.map_values(|x: Segment| x@) =~= seq![sv] + v0.map_values(
                            |x: Segment| x@,
                        ));
                    }
                    Some(v)
                },
                None => None,
            },
            None => None,
        }
    }
}

/// Compiles one pattern line; `None` when the line is malformed.
pub fn parse_rule(line: &Vec<char>) -> (r: Option<Pattern>)
    ensures
        match r {
            Some(p) => parse_rule_spec(line@) == Some(p@),
            None => parse_rule_spec(line@) is None,
        },
{
    let neg = line.len() > 0 && line[0] == '!';
    let b0 = if neg {
        let v = subvec(line, 1, line.len());
        proof {
            assert(v@ =~= line@.skip(1));
        }
        v
    } else {
        let v = subvec(line, 0, line.len());
        proof {
            assert(v@ =~= line@);
        }
        v
    };
    let dir_only = b0.len() > 0 && b0[b0.len() - 1] == '/';
    let b1 = if dir_only {
        let v = subvec(&b0, 0, b0.len() - 1);
        proof {
            assert(v@ =~= b0@.drop_last());
        }
        v
    } else {
        b0
    };
    let sep_pos = find_sep(&b1, 0, '/');
    let anchored = sep_pos < b1.len() || (b1.len() == 2 && b1[0] == '*' && b1[1] == '*');
    let b2 = if b1.len() > 0 && b1[0] == '/' {
        let v = subvec(&b1, 1, b1.len());
        proof {
            assert(v@ =~= b1@.skip(1));
        }
        v
    } else {
        b1
    };
    let parts = split_exec(&b2, '/');
    match parse_segments_exec(&parts, 0) {
        Some(segs) => Some(Pattern { negated: neg, dir_only, anchored, segs }),
        None => None,
    }
}

/// Whether a trimmed line contributes a rule: comment lines (leading
/// `#`) and empty lines do not.
pub open spec fn spec_keep_line(t: Seq<char>) -> bool {
    t.len() > 0 && t[0] != '#'
}

/// The rules of the lines `lines[i..]`: each line is trimmed, empty
/// and comment lines are skipped, the rest parse in order; `None`
/// when any pattern line is malformed.
pub open spec fn rules_of_lines(lines: Seq<Seq<char>>, i: int) -> Option<Seq<SpecPattern>>
    decreases lines.len() - i,
{
    if i < 0 || i > lines.len() {
        None
    } else if i == lines.len() {
        Some(Seq::empty())
    } else {
        let t = spec_trim(lines[i]);
        if !spec_keep_line(t) {
            rules_of_lines(lines, i + 1)
        } else {
            match (parse_rule_spec(t), rules_of_lines(lines, i + 1)) {
                (Some(p), Some(rest)) => Some(seq![p] + rest),
                _ => None,
            }
        }
    }
}

/// The rules of one ignore file's content, line by line.
pub open spec fn rules_of_content(s: Seq<char>) -> Option<Seq<SpecPattern>> {
    rules_of_lines(spec_split(s, '\n'), 0)
}

fn rules_of_lines_exec(lines: &Vec<Vec<char>>, i: usize) -> (r: Option<Vec<Pattern>>)
    requires
        i <= lines@.len(),
    ensures
        match r {
            Some(v) => rules_of_lines(views_of(lines@), i as int) == Some(
                v@.map_values(|p: Pattern| p@),
            ),
            None => rules_of_lines(views_of(lines@), i as int) is None,
        },
    decreases lines@.len() - i,
{
    if i == lines.len() {
        let v: Vec<Pattern> = Vec::new();
        proof {
            assert(v@.map_values(|p: Pattern| p@) =~= Seq::<SpecPattern>::empty());
        }
        Some(v)
    } else {
        proof {
            assert(views_of(lines@)[i as int] == lines@[i as int]@);
        }
        let t = trim_exec(&lines[i]);
        let keep = t.len() > 0 && t[0] != '#';
        if !keep {
            rules_of_lines_exec(lines, i + 1)
        } else {
            match parse_rule(&t) {
                Some(p) => match rules_of_lines_exec(lines, i + 1) {
                    Some(mut v) => {
                        let ghost v0 = v@;
                        let ghost pv = p@;
                        v.insert(0, p);
                        proof {
                            assert(v@.map_values(|x: Pattern| x@) =~= seq![pv] + v0.map_values(
                                |x: Pattern| x@,
                            ));
                        }
                        Some(v)
                    },
                    None => None,
                },
                None => None,
            }
        }
    }
}

/// An unanchored literal pattern for the name `name`.
pub open spec fn lit_rule(name: Seq<char>, dir_only: bool) -> SpecPattern {
    SpecPattern {
        negated: false,
        dir_only: dir_only,
        anchored: false,
        segs: seq![
            SpecSegment { stars: false, toks: name.map_values(|c: char| Tok::Lit(c as u32)) },
        ],
    }
}

/// The built-in excludes of every scan: version-control metadata,
/// build output, dependency directories, OS housekeeping files, and
/// the two ignore files themselves.
pub open spec fn builtin_rules() -> Seq<SpecPattern> {
    seq![
        lit_rule(".git"@, true),
        lit_rule("target"@, true),
        lit_rule("node_modules"@, true),
        lit_rule(".DS_Store"@, false),
        lit_rule("Thumbs.db"@, false),
        lit_rule(".gitignore"@, false),
        lit_rule(".indexignore"@, false),
    ]
}

fn lit_pattern(name: &str, dir_only: bool) -> (r: Pattern)
    ensures
        r@ == lit_rule(name@, dir_only),
{
    let n = name.unicode_len();
    let mut toks: Vec<Tok> = Vec::new();
    proof {
        assert(toks@ =~= name@.subrange(0, 0).map_values(|c: char| Tok::Lit(c as u32)));
    }
    let mut i: usize = 0;
    while i < n
        invariant
            n == name@.len(),
            i <= n,
            toks@ == name@.subrange(0, i as int).map_values(|c: char| Tok::Lit(c as u32)),
        decreases n - i,
    {
        toks.push(Tok::Lit(name.get_char(i) as u32));
        i = i + 1;
        proof {
            assert(toks@ =~= name@.subrange(0, i as int).map_values(|c: char| Tok::Lit(c as u32)));
        }
    }
    proof {
        assert(name@.subrange(0, n as int) =~= name@);
    }
    let seg = Segment { stars: false, toks };
    let mut segs: Vec<Segment> = Vec::new();
    segs.push(seg);
    let r = Pattern { negated: false, dir_only, anchored: false, segs };
    proof {
        assert(r@.segs =~= lit_rule(name@, dir_only).segs);
    }
    r
}

fn builtin_patterns() -> (r: Vec<Pattern>)
    ensures
        r@.map_values(|p: Pattern| p@) == builtin_rules(),
{
    let mut r: Vec<Pattern> = Vec::new();
    r.push(lit_pattern(".git", true));
    r.push(lit_pattern("target", true));
    r.push(lit_pattern("node_modules", true));
    r.push(lit_pattern(".DS_Store", false));
    r.push(lit_pattern("Thumbs.db", false));
    r.push(lit_pattern(".gitignore", false));
    r.push(lit_pattern(".indexignore", false));
    proof {
        assert(r@.map_values(|p: Pattern| p@) =~= builtin_rules());
    }
    r
}

/// The view of an optional ignore-file content.
pub open spec fn opt_str_view(o: Option<&str>) -> Option<Seq<char>> {
    match o {
        Some(s) => Some(s@),
        None => None,
    }
}

/// The whole compiled rule set of one scan, in precedence order:
/// `.gitignore` rules, then `.indexignore` rules, then the built-in
/// excludes, then the caller's extra patterns; `None` when any
/// pattern is malformed.
pub open spec fn compile_rules(
    gitignore: Option<Seq<char>>,
    indexignore: Option<Seq<char>>,
    extra: Seq<Seq<char>>,
) -> Option<Seq<SpecPattern>> {
    let gr = match gitignore {
        Some(s) => rules_of_content(s),
        None => Some(Seq::empty()),
    };
    let xr = match indexignore {
        Some(s) => rules_of_content(s),
        None => Some(Seq::empty()),
    };
    let er = rules_of_lines(extra, 0);
    match (gr, xr, er) {
        (Some(a), Some(b), Some(c)) => Some(a + b + builtin_rules() + c),
        _ => None,
    }
}

/// The compiled, ordered rule set of one scan, shared read-only by
/// every worker.
pub struct IgnoreMatcher {
    rules: Vec<Pattern>,
}

impl View for IgnoreMatcher {
    type V = Seq<SpecPattern>;

    closed spec fn view(&self) -> Seq<SpecPattern> {
        self.rules@.map_values(|p: Pattern| p@)
    }
}

fn content_rules(content: Option<&str>) -> (r: Option<Vec<Pattern>>)
    ensures
        match r {
            Some(v) => (match content {
                Some(s) => rules_of_content(s@),
                None => Some(Seq::<SpecPattern>::empty()),
            }) == Some(v@.map_values(|p: Pattern| p@)),
            None => (match content {
                Some(s) => rules_of_content(s@),
                None => Some(Seq::<SpecPattern>::empty()),
            }) is None,
        },
{
    match content {
        Some(s) => {
            let chars = chars_of(s);
            let lines = split_exec(&chars, '\n');
            rules_of_lines_exec(&lines, 0)
        },
        None => {
            let v: Vec<Pattern> = Vec::new();
            proof {
                assert(v@.map_values(|p: Pattern| p@) =~= Seq::<SpecPattern>::empty());
            }
            Some(v)
        },
    }
}

/// Builds the rule set of one scan from the contents of the root
/// `.gitignore` and `.indexignore` files (where present) and the
/// caller's extra patterns.  Fails, before any traversal could start,
/// when any pattern line is malformed.
#[verifier::loop_isolation(false)]
pub fn load_ignore(gitignore: Option<&str>, indexignore: Option<&str>, extra: &Vec<String>) -> (r:
    Result<IgnoreMatcher, ScanError>)
    ensures
        match r {
            Ok(m) => compile_rules(opt_str_view(gitignore), opt_str_view(indexignore), str_views(extra@))
                == Some(m@),
            Err(e) => compile_rules(opt_str_view(gitignore), opt_str_view(indexignore), str_views(extra@))
                is None && e == ScanError::IgnorePattern,
        },
{
    let gr = content_rules(gitignore);
    let xr = content_rules(indexignore);
    let mut extra_lines: Vec<Vec<char>> = Vec::new();
    let mut i: usize = 0;
    while i < extra.len()
        invariant
            i <= extra@.len(),
            views_of(extra_lines@) == str_views(extra@.subrange(0, i as int)),
        decreases extra@.len() - i,
    {
        let ghost before = extra_lines@;
        extra_lines.push(chars_of(extra[i].as_str()));
        i = i + 1;
        proof {
            let want = str_views(extra@.subrange(0, i as int));
            assert forall|k: int| 0 <= k < extra_lines@.len() implies views_of(extra_lines@)[k]
                == want[k] by {
                assert(want[k] == extra@.subrange(0, i as int)[k]@);
                if k < before.len() {
                    assert(views_of(extra_lines@)[k] == before[k]@);
                    assert(views_of(before)[k] == before[k]@);
                }
            }
            assert(views_of(extra_lines@) =~= want);
        }
    }
    proof {
        assert(extra@.subrange(0, extra@.len() as int) =~= extra@);
    }
    let er = rules_of_lines_exec(&extra_lines, 0);
    match (gr, xr, er) {
        (Some(mut a), Some(mut b), Some(mut c)) => {
            let ghost av = a@.map_values(|p: Pattern| p@);
            let ghost bv = b@.map_values(|p: Pattern| p@);
            let ghost cv = c@.map_values(|p: Pattern| p@);
            let mut built = builtin_patterns();
            a.append(&mut b);
            a.append(&mut built);
            a.append(&mut c);
            let m = IgnoreMatcher { rules: a };
            proof {
                assert(m@ =~= av + bv + builtin_rules() + cv);
            }
            Ok(m)
        },
        _ => Err(ScanError::IgnorePattern),
    }
}

/// Verdict of the last rule that matches the given candidate path:
/// `Some(negated)` of that rule, or `None` when no rule matches.
pub open spec fn last_match_negated(
    rules: Seq<SpecPattern>,
    path: Seq<Seq<char>>,
    is_dir: bool,
) -> Option<bool>
    decreases rules.len(),
{
    if rules.len() == 0 {
        None
    } else if spec_pattern_matches(rules.last(), path, is_dir) {
        Some(rules.last().negated)
    } else {
        last_match_negated(rules.drop_last(), path, is_dir)
    }
}

/// Gitignore-style cascading decision for the path whose segments are
/// `path`: the path itself is tried first, then each parent directory
/// outward; the first candidate with a matching rule is decided by
/// its last matching rule, and a path with no matching candidate is
/// kept.
pub open spec fn spec_should_ignore(
    rules: Seq<SpecPattern>,
    path: Seq<Seq<char>>,
    is_dir: bool,
) -> bool
    decreases path.len(),
{
    if path.len() == 0 {
        false
    } else {
        match last_match_negated(rules, path, is_dir) {
            Some(neg) => !neg,
            None => spec_should_ignore(rules, path.drop_last(), true),
        }
    }
}

pub(crate) fn last_match(rules: &Vec<Pattern>, path: &Vec<Vec<char>>, k: usize, is_dir: bool) -> (r: Option<
    bool,
>)
    requires
        k <= path@.len(),
    ensures
        r == last_match_negated(
            rules@.map_values(|p: Pattern| p@),
            views_of(path@).take(k as int),
            is_dir,
        ),
{
    let ghost rv = rules@.map_values(|p: Pattern| p@);
    let ghost pv = views_of(path@).take(k as int);
    let mut n = rules.len();
    proof {
        assert(rv.take(n as int) =~= rv);
    }
    while n > 0
        invariant
            n <= rules@.len(),
            k <= path@.len(),
            rv == rules@.map_values(|p: Pattern| p@),
            pv == views_of(path@).take(k as int),
            last_match_negated(rv, pv, is_dir) == last_match_negated(rv.take(n as int), pv, is_dir),
        decreases n,
    {
        proof {
            assert(rv.take(n as int).last() == rv[n - 1]);
            assert(rv[n - 1] == rules@[n - 1]@);
        }
        if pattern_matches(&rules[n - 1], path, k, is_dir) {
            return Some(rules[n - 1].negated);
        }
        proof {
            assert(rv.take(n as int).drop_last() =~= rv.take(n - 1));
        }
        n = n - 1;
    }
    proof {
        assert(rv.take(0).len() == 0);
    }
    None
}

impl IgnoreMatcher {
    /// Whether the forward-slash relative path `rel_posix_path` is
    /// ignored, evaluating the path and each of its parent
    /// directories against the compiled rules, last matching rule
    /// winning.
    #[verifier::loop_isolation(false)]
    pub fn should_ignore(&self, rel_posix_path: &str, is_dir: bool) -> (r: bool)
        ensures
            r == spec_should_ignore(self@, spec_split(rel_posix_path@, '/'), is_dir),
    {
        let chars = chars_of(rel_posix_path);
        let segs = split_exec(&chars, '/');
        let ghost full = spec_split(rel_posix_path@, '/');
        let mut m = segs.len();
        let mut dir = is_dir;
        proof {
            assert(views_of(segs@).take(m as int) =~= full);
        }
        while m > 0
            invariant
                m <= segs@.len(),
                views_of(segs@) == full,
                spec_should_ignore(self@, full, is_dir) == spec_should_ignore(
                    self@,
                    views_of(segs@).take(m as int),
                    dir,
                ),
            decreases m,
        {
            let verdict = last_match(&self.rules, &segs, m, dir);
            proof {
                assert(self@ == self.rules@.map_values(|p: Pattern| p@));
            }
            match verdict {
                Some(neg) => {
                    proof {
                        let cand = views_of(segs@).take(m as int);
                        assert(cand.len() == m);
                        assert(last_match_negated(self@, cand, dir) == Some(neg));
                        assert(spec_should_ignore(self@, cand, dir) == !neg);
                    }
                    return !neg;
                },
                None => {
                    proof {
                        assert(views_of(segs@).take(m as int).drop_last() =~= views_of(
                            segs@,
                        ).take(m - 1));
                    }
                    m = m - 1;
                    dir = true;
                },
            }
        }
        proof {
            assert(views_of(segs@).take(0).len() == 0);
        }
        false
    }
}

/// Precedence law: a rule appended after all others decides the
/// verdict for every path it matches directly, overriding every
/// earlier rule; in particular, appending a negated rule un-ignores
/// every path it matches, however broadly an earlier rule matched it.
pub proof fn lemma_rule_precedence(
    rules: Seq<SpecPattern>,
    p: SpecPattern,
    path: Seq<Seq<char>>,
    is_dir: bool,
)
    requires
        path.len() > 0,
        spec_pattern_matches(p, path, is_dir),
    ensures
        spec_should_ignore(rules.push(p), path, is_dir) == !p.negated,
{
    assert(rules.push(p).last() == p);
    assert(last_match_negated(rules.push(p), path, is_dir) == Some(p.negated));
}

} // verus!
