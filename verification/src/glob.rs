//! Gitignore-style glob patterns: the compiled form and its matching
//! semantics over forward-slash paths split into segments.
//!
//! A pattern is a list of path-segment patterns.  Within a segment,
//! `*` matches any run of characters, `?` matches one character, and a
//! backslash escapes the character after it; the whole segment `**`
//! matches any run of path segments.  A pattern that contains no inner
//! slash matches the last segment of a path at any depth; one with an
//! inner slash is anchored at the scan root.  A trailing slash limits
//! the pattern to directories, and a leading `!` negates it.

use vstd::prelude::*;

verus! {

/// One unit of a segment pattern: a literal character (as its scalar
/// value), `?`, or `*`.
#[derive(Clone, Copy, PartialEq, Eq, Structural, Debug)]
pub enum Tok {
    Lit(u32),
    AnyChar,
    Star,
}

/// Mathematical form of one path-segment pattern.
pub struct SpecSegment {
    /// Whether this segment is the `**` wildcard.
    pub stars: bool,
    /// The token list of an ordinary segment.
    pub toks: Seq<Tok>,
}

/// Mathematical form of a compiled pattern.
pub struct SpecPattern {
    pub negated: bool,
    pub dir_only: bool,
    pub anchored: bool,
    pub segs: Seq<SpecSegment>,
}

/// One path-segment pattern: the `**` wildcard or a token sequence.
pub struct Segment {
    pub stars: bool,
    pub toks: Vec<Tok>,
}

impl View for Segment {
    type V = SpecSegment;

    open spec fn view(&self) -> SpecSegment {
        SpecSegment { stars: self.stars, toks: self.toks@ }
    }
}

/// A compiled gitignore-style pattern.
pub struct Pattern {
    pub negated: bool,
    pub dir_only: bool,
    pub anchored: bool,
    pub segs: Vec<Segment>,
}

impl View for Pattern {
    type V = SpecPattern;

    open spec fn view(&self) -> SpecPattern {
        SpecPattern {
            negated: self.negated,
            dir_only: self.dir_only,
            anchored: self.anchored,
            segs: self.segs@.map_values(|s: Segment| s@),
        }
    }
}

/// Whether the tokens `toks[ti..]` match the characters `s[si..]`.
/// `*` may take any run of characters, `?` exactly one.
pub open spec fn seg_matches_from(toks: Seq<Tok>, ti: int, s: Seq<char>, si: int) -> bool
    decreases toks.len() - ti, s.len() - si,
{
    if ti < 0 || si < 0 || ti > toks.len() || si > s.len() {
        false
    } else if ti == toks.len() {
        si == s.len()
    } else {
        match toks[ti] {
            Tok::Lit(c) => si < s.len() && s[si] as u32 == c && seg_matches_from(
                toks,
                ti + 1,
                s,
                si + 1,
            ),
            Tok::AnyChar => si < s.len() && seg_matches_from(toks, ti + 1, s, si + 1),
            Tok::Star => seg_matches_from(toks, ti + 1, s, si) || (si < s.len()
                && seg_matches_from(toks, ti, s, si + 1)),
        }
    }
}

/// Whether the tokens match the whole of `s`.
pub open spec fn seg_matches(toks: Seq<Tok>, s: Seq<char>) -> bool {
    seg_matches_from(toks, 0, s, 0)
}

/// Whether the segment patterns `segs[pi..]` match the path segments
/// `path[qi..]`.  A `**` segment may take any run of path segments.
pub open spec fn segs_match_from(
    segs: Seq<SpecSegment>,
    pi: int,
    path: Seq<Seq<char>>,
    qi: int,
) -> bool
    decreases segs.len() - pi, path.len() - qi,
{
    if pi < 0 || qi < 0 || pi > segs.len() || qi > path.len() {
        false
    } else if pi == segs.len() {
        qi == path.len()
    } else if segs[pi].stars {
        segs_match_from(segs, pi + 1, path, qi) || (qi < path.len() && segs_match_from(
            segs,
            pi,
            path,
            qi + 1,
        ))
    } else {
        qi < path.len() && seg_matches(segs[pi].toks, path[qi]) && segs_match_from(
            segs,
            pi + 1,
            path,
            qi + 1,
        )
    }
}

/// Whether pattern `p` matches the path given as its split segments,
/// where `is_dir` says whether the path names a directory.  An
/// anchored pattern must cover the whole path from the root; an
/// unanchored one is matched against the last segment alone.
pub open spec fn spec_pattern_matches(p: SpecPattern, path: Seq<Seq<char>>, is_dir: bool) -> bool {
    &&& (is_dir || !p.dir_only)
    &&& if p.anchored {
        segs_match_from(p.segs, 0, path, 0)
    } else {
        &&& p.segs.len() == 1
        &&& !p.segs[0].stars
        &&& path.len() > 0
        &&& seg_matches(p.segs[0].toks, path.last())
    }
}

fn seg_match_at(toks: &Vec<Tok>, ti: usize, s: &Vec<char>, si: usize) -> (r: bool)
    requires
        ti <= toks@.len(),
        si <= s@.len(),
    ensures
        r == seg_matches_from(toks@, ti as int, s@, si as int),
    decreases toks@.len() - ti, s@.len() - si,
{
    if ti == toks.len() {
        si == s.len()
    } else {
        match toks[ti] {
            Tok::Lit(c) => si < s.len() && s[si] as u32 == c && seg_match_at(toks, ti + 1, s, si + 1),
            Tok::AnyChar => si < s.len() && seg_match_at(toks, ti + 1, s, si + 1),
            Tok::Star => seg_match_at(toks, ti + 1, s, si) || (si < s.len() && seg_match_at(
                toks,
                ti,
                s,
                si + 1,
            )),
        }
    }
}

fn segs_match_at(segs: &Vec<Segment>, pi: usize, path: &Vec<Vec<char>>, k: usize, qi: usize) -> (r:
    bool)
    requires
        pi <= segs@.len(),
        qi <= k <= path@.len(),
    ensures
        r == segs_match_from(
            segs@.map_values(|s: Segment| s@),
            pi as int,
            crate::text::views_of(path@).take(k as int),
            qi as int,
        ),
    decreases segs@.len() - pi, k - qi,
{
    let ghost specsegs = segs@.map_values(|s: Segment| s@);
    let ghost specpath = crate::text::views_of(path@).take(k as int);
    if pi == segs.len() {
        qi == k
    } else if segs[pi].stars {
        proof {
            assert(specsegs[pi as int] == segs@[pi as int]@);
        }
        segs_match_at(segs, pi + 1, path, k, qi) || (qi < k && segs_match_at(
            segs,
            pi,
            path,
            k,
            qi + 1,
        ))
    } else {
        proof {
            assert(specsegs[pi as int] == segs@[pi as int]@);
            if qi < k {
                assert(specpath[qi as int] == path@[qi as int]@);
            }
        }
        qi < k && seg_match_at(&segs[pi].toks, 0, &path[qi], 0) && segs_match_at(
            segs,
            pi + 1,
            path,
            k,
            qi + 1,
        )
    }
}

/// Whether pattern `p` matches the path whose first `k` segments are
/// `path[..k]`, with `is_dir` saying whether that path is a directory.
pub fn pattern_matches(p: &Pattern, path: &Vec<Vec<char>>, k: usize, is_dir: bool) -> (r: bool)
    requires
        k <= path@.len(),
    ensures
        r == spec_pattern_matches(p@, crate::text::views_of(path@).take(k as int), is_dir),
{
    let ghost specpath = crate::text::views_of(path@).take(k as int);
    if !is_dir && p.dir_only {
        return false;
    }
    if p.anchored {
        segs_match_at(&p.segs, 0, path, k, 0)
    } else {
        if p.segs.len() != 1 || p.segs[0].stars || k == 0 {
            return false;
        }
        proof {
            assert(p@.segs[0] == p.segs@[0]@);
            assert(specpath.last() == path@[k - 1]@);
        }
        seg_match_at(&p.segs[0].toks, 0, &path[k - 1], 0)
    }
}

} // verus!
