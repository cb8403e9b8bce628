//! The scan pipeline: configuration, emitted records, and the
//! filtering of walked directory entries.
//!
//! A front end walks the filesystem, observes one [`Entry`] per
//! visited path, and hands the whole batch to
//! [`scan_repo_collect`]; every decision — include-glob
//! prefiltering, layered ignore rules, the size limit and the
//! text/binary classification — is made here.  Per-entry failures
//! (unreadable metadata or content) drop that entry alone; only a
//! malformed pattern aborts the scan, before any record is produced.

use vstd::prelude::*;

use crate::classify::{classify_entry, sample_view, spec_classify};
use crate::glob::{Pattern, SpecPattern};
use crate::ignore::{
    IgnoreMatcher, ScanError, compile_rules, last_match, last_match_negated, load_ignore,
    opt_str_view, parse_rule, parse_rule_spec, spec_should_ignore,
};
use crate::text::{chars_of, spec_split, split_exec, str_views, views_of};
use vstd::string::StringExecFns;

verus! {

/// Relies on `alloc::string::String::push`: it appends the one
/// character to the end of the string.
pub assume_specification[ String::push ](s: &mut String, ch: char)
    ensures
        final(s)@ == old(s)@.push(ch),
;

/// A path in forward-slash form: every backslash (the separator of
/// hosts that use one) replaced by a forward slash.
pub open spec fn spec_to_posix(s: Seq<char>) -> Seq<char> {
    s.map_values(
        |c: char|
            if c == '\\' {
                '/'
            } else {
                c
            },
    )
}

/// Normalizes a path to forward-slash form, independent of the host
/// separator convention.
#[verifier::loop_isolation(false)]
pub fn to_posix(path: &str) -> (r: String)
    ensures
        r@ == spec_to_posix(path@),
{
    let chars = chars_of(path);
    let mut r = String::new();
    proof {
        assert(r@ =~= spec_to_posix(path@.subrange(0, 0)));
    }
    let mut i: usize = 0;
    while i < chars.len()
        invariant
            i <= chars@.len(),
            r@ == spec_to_posix(path@.subrange(0, i as int)),
        decreases chars@.len() - i,
    {
        if chars[i] == '\\' {
            r.push('/');
        } else {
            r.push(chars[i]);
        }
        i = i + 1;
        proof {
            assert(r@ =~= spec_to_posix(path@.subrange(0, i as int)));
        }
    }
    proof {
        assert(path@.subrange(0, path@.len() as int) =~= path@);
    }
    r
}

/// The immutable configuration of one scan.
#[derive(Clone, Debug)]
pub struct Config {
    /// Root directory of the scan.
    pub root: String,
    /// Include glob patterns; a file must match at least one.
    pub include_globs: Vec<String>,
    /// Extra ignore patterns, applied with the highest precedence.
    pub extra_ignore: Vec<String>,
    /// Largest file size that is still emitted, if limited.
    pub max_size_bytes: Option<u64>,
    /// Worker count of the traversal; never below one.
    pub concurrency: usize,
    /// Whether symbolic links are followed.
    pub follow_symlinks: bool,
    /// Whether records carry an absolute path.
    pub absolute: bool,
    /// How many leading bytes classification may sample.
    pub sample_bytes: usize,
}

impl Default for Config {
    /// Scans the current directory with everything included, a 5 MiB
    /// size limit, 64 workers and a 4 KiB classification sample.
    fn default() -> (c: Self)
        ensures
            c.root@ == "."@,
            c.include_globs@.len() == 1,
            c.include_globs@[0]@ == "**/*"@,
            c.extra_ignore@.len() == 0,
            c.max_size_bytes == Some(5242880u64),
            c.concurrency == 64,
            !c.follow_symlinks,
            !c.absolute,
            c.sample_bytes == 4096,
    {
        let mut include_globs: Vec<String> = Vec::new();
        include_globs.push(String::from_str("**/*"));
        Config {
            root: String::from_str("."),
            include_globs,
            extra_ignore: Vec::new(),
            max_size_bytes: Some(5 * 1024 * 1024),
            concurrency: 64,
            follow_symlinks: false,
            absolute: false,
            sample_bytes: 4096,
        }
    }
}

/// One emitted result: a single regular file that survived every
/// filter.
#[derive(Clone, Debug)]
pub struct FileRecord {
    /// Forward-slash path relative to the canonicalized root.
    pub rel_path: String,
    /// Absolute path, present exactly when absolute output was
    /// requested.
    pub abs_path: Option<String>,
    /// Size in bytes.
    pub size: u64,
    /// Last modification in milliseconds since the epoch, `0` when
    /// unavailable.
    pub mtime_ms: u64,
    /// The classifier's verdict.
    pub binary: bool,
}

/// What the walker could read of one entry's metadata.
#[derive(Clone, Copy, Debug)]
pub struct EntryMeta {
    /// Whether the entry is a regular file.
    pub is_file: bool,
    /// Size in bytes.
    pub size: u64,
    /// Last modification in milliseconds since the epoch, `0` when
    /// unavailable.
    pub mtime_ms: u64,
}

/// One filesystem entry as the walker observed it: plain values only,
/// so the whole decision pipeline stays checkable.
#[derive(Clone, Debug)]
pub struct Entry {
    /// Forward-slash path relative to the canonicalized root.
    pub rel_path: String,
    /// Whether the entry is a directory (used for descent only).
    pub is_dir: bool,
    /// Metadata, or `None` where it could not be read.
    pub meta: Option<EntryMeta>,
    /// Leading content bytes, at most the configured sample size, or
    /// `None` where they could not be read.
    pub sample: Option<Vec<u8>>,
}

/// Everything one scan consumes besides the configuration: the
/// contents of the two optional root ignore files and the walked
/// entries.
pub struct ScanInput {
    /// Content of the root `.gitignore`, where present.
    pub gitignore: Option<String>,
    /// Content of the root `.indexignore`, where present.
    pub indexignore: Option<String>,
    /// Every entry the walker visited, in traversal order.
    pub entries: Vec<Entry>,
}

/// The view of an optional file content.
pub open spec fn opt_string_view(o: Option<String>) -> Option<Seq<char>> {
    match o {
        Some(s) => Some(s@),
        None => None,
    }
}

/// The compiled include patterns of `globs[i..]`, or `None` when one
/// is malformed.
pub open spec fn compile_includes(globs: Seq<Seq<char>>, i: int) -> Option<Seq<SpecPattern>>
    decreases globs.len() - i,
{
    if i < 0 || i > globs.len() {
        None
    } else if i == globs.len() {
        Some(Seq::empty())
    } else {
        match (parse_rule_spec(globs[i]), compile_includes(globs, i + 1)) {
            (Some(p), Some(rest)) => Some(seq![p] + rest),
            _ => None,
        }
    }
}

/// Include-glob prefiltering: with no include pattern everything is
/// kept; otherwise the last include pattern matching the path decides,
/// and a path matching none is pruned.
pub open spec fn include_keep(includes: Seq<SpecPattern>, path: Seq<Seq<char>>) -> bool {
    includes.len() == 0 || last_match_negated(includes, path, false) == Some(false)
}

/// Whether one walked entry survives every filter of the scan: it is
/// no directory, passes the include prefilter, is not ignored, has
/// readable metadata of a regular file, fits the size limit, and
/// could be classified.
pub open spec fn spec_entry_ok(
    e: Entry,
    rules: Seq<SpecPattern>,
    includes: Seq<SpecPattern>,
    max_size: Option<u64>,
) -> bool {
    &&& !e.is_dir
    &&& include_keep(includes, spec_split(e.rel_path@, '/'))
    &&& !spec_should_ignore(rules, spec_split(e.rel_path@, '/'), false)
    &&& e.meta is Some
    &&& e.meta.unwrap().is_file
    &&& (match max_size {
        Some(l) => e.meta.unwrap().size <= l,
        None => true,
    })
    &&& spec_classify(e.rel_path@, sample_view(e.sample)) is Some
}

/// The root joined to a relative path with a forward slash.
pub open spec fn spec_join(root: Seq<char>, rel: Seq<char>) -> Seq<char> {
    if root.len() > 0 && root.last() == '/' {
        root + rel
    } else {
        root.push('/') + rel
    }
}

/// Whether a record reports entry `e` exactly: the same relative
/// path, the absolute path exactly when requested, and the entry's
/// size, modification time and classification.
pub open spec fn spec_record_ok(rec: FileRecord, e: Entry, root: Seq<char>, absolute: bool) -> bool {
    &&& rec.rel_path@ == e.rel_path@
    &&& (match rec.abs_path {
        Some(a) => absolute && a@ == spec_join(root, e.rel_path@),
        None => !absolute,
    })
    &&& e.meta is Some
    &&& rec.size == e.meta.unwrap().size
    &&& rec.mtime_ms == e.meta.unwrap().mtime_ms
    &&& Some(rec.binary) == spec_classify(e.rel_path@, sample_view(e.sample))
}

fn compile_includes_at(globs: &Vec<Vec<char>>, i: usize) -> (r: Option<Vec<Pattern>>)
    requires
        i <= globs@.len(),
    ensures
        match r {
            Some(v) => compile_includes(views_of(globs@), i as int) == Some(
                v@.map_values(|p: Pattern| p@),
            ),
            None => compile_includes(views_of(globs@), i as int) is None,
        },
    decreases globs@.len() - i,
{
    if i == globs.len() {
        let v: Vec<Pattern> = Vec::new();
        proof {
            assert(v@.map_values(|p: Pattern| p@) =~= Seq::<SpecPattern>::empty());
        }
        Some(v)
    } else {
        proof {
            assert(views_of(globs@)[i as int] == globs@[i as int]@);
        }
        match parse_rule(&globs[i]) {
            Some(p) => match compile_includes_at(globs, i + 1) {
                Some(mut v) => {
                    let ghost v0 = v@;
                    let ghost pv = p@;
                    v.insert(0, p);
                    proof {
                        assert(v@.map_values(|x: Pattern| x@) =~= seq![pv] + v0.map_values(
                            |x: Pattern| x@,
                        ));
                    }
                    Some(v)
                },
                None => None,
            },
            None => None,
        }
    }
}

#[verifier::loop_isolation(false)]
fn compile_includes_exec(globs: &Vec<String>) -> (r: Option<Vec<Pattern>>)
    ensures
        match r {
            Some(v) => compile_includes(str_views(globs@), 0) == Some(
                v@.map_values(|p: Pattern| p@),
            ),
            None => compile_includes(str_views(globs@), 0) is None,
        },
{
    let mut lines: Vec<Vec<char>> = Vec::new();
    let mut i: usize = 0;
    while i < globs.len()
        invariant
            i <= globs@.len(),
            views_of(lines@) == str_views(globs@.subrange(0, i as int)),
        decreases globs@.len() - i,
    {
        let ghost before = lines@;
        lines.push(chars_of(globs[i].as_str()));
        i = i + 1;
        proof {
            let want = str_views(globs@.subrange(0, i as int));
            assert forall|k: int| 0 <= k < lines@.len() implies views_of(lines@)[k] == want[k] by {
                assert(want[k] == globs@.subrange(0, i as int)[k]@);
                if k < before.len() {
                    assert(views_of(lines@)[k] == before[k]@);
                    assert(views_of(before)[k] == before[k]@);
                }
            }
            assert(views_of(lines@) =~= want);
        }
    }
    proof {
        assert(globs@.subrange(0, globs@.len() as int) =~= globs@);
    }
    compile_includes_at(&lines, 0)
}

fn include_keep_exec(includes: &Vec<Pattern>, rel_path: &str) -> (r: bool)
    ensures
        r == include_keep(includes@.map_values(|p: Pattern| p@), spec_split(rel_path@, '/')),
{
    if includes.len() == 0 {
        return true;
    }
    let chars = chars_of(rel_path);
    let segs = split_exec(&chars, '/');
    proof {
        assert(views_of(segs@).take(segs@.len() as int) =~= views_of(segs@));
    }
    match last_match(includes, &segs, segs.len(), false) {
        Some(neg) => !neg,
        None => false,
    }
}

fn join_abs(root: &String, rel: &String) -> (r: String)
    ensures
        r@ == spec_join(root@, rel@),
{
    let rc = chars_of(root.as_str());
    let mut a = root.clone();
    if rc.len() == 0 || rc[rc.len() - 1] != '/' {
        a.push('/');
    }
    a.append(rel.as_str());
    proof {
        assert(a@ =~= spec_join(root@, rel@));
    }
    a
}

/// Decides one walked entry: `Some` with its record where the entry
/// survives every filter, `None` where any filter drops it.
pub fn handle_entry(e: &Entry, matcher: &IgnoreMatcher, includes: &Vec<Pattern>, cfg: &Config) -> (r:
    Option<FileRecord>)
    ensures
        match r {
            Some(rec) => spec_entry_ok(
                *e,
                matcher@,
                includes@.map_values(|p: Pattern| p@),
                cfg.max_size_bytes,
            ) && spec_record_ok(rec, *e, cfg.root@, cfg.absolute),
            None => !spec_entry_ok(
                *e,
                matcher@,
                includes@.map_values(|p: Pattern| p@),
                cfg.max_size_bytes,
            ),
        },
{
    if e.is_dir {
        return None;
    }
    if !include_keep_exec(includes, e.rel_path.as_str()) {
        return None;
    }
    if matcher.should_ignore(e.rel_path.as_str(), false) {
        return None;
    }
    let meta = match &e.meta {
        Some(m) => *m,
        None => {
            return None;
        },
    };
    if !meta.is_file {
        return None;
    }
    match cfg.max_size_bytes {
        Some(limit) => {
            if meta.size > limit {
                return None;
            }
        },
        None => {},
    }
    let binary = match classify_entry(e.rel_path.as_str(), &e.sample) {
        Some(b) => b,
        None => {
            return None;
        },
    };
    let abs_path = if cfg.absolute {
        Some(join_abs(&cfg.root, &e.rel_path))
    } else {
        None
    };
    Some(
        FileRecord {
            rel_path: e.rel_path.clone(),
            abs_path,
            size: meta.size,
            mtime_ms: meta.mtime_ms,
            binary,
        },
    )
}

/// Indices of the entries among `entries[..i]` that survive every
/// filter, in traversal order.
pub open spec fn kept_upto(
    entries: Seq<Entry>,
    rules: Seq<SpecPattern>,
    includes: Seq<SpecPattern>,
    max_size: Option<u64>,
    i: int,
) -> Seq<int>
    decreases i,
{
    if i <= 0 {
        Seq::empty()
    } else if spec_entry_ok(entries[i - 1], rules, includes, max_size) {
        kept_upto(entries, rules, includes, max_size, i - 1).push(i - 1)
    } else {
        kept_upto(entries, rules, includes, max_size, i - 1)
    }
}

/// Indices of all surviving entries, in traversal order.
pub open spec fn kept_indices(
    entries: Seq<Entry>,
    rules: Seq<SpecPattern>,
    includes: Seq<SpecPattern>,
    max_size: Option<u64>,
) -> Seq<int> {
    kept_upto(entries, rules, includes, max_size, entries.len() as int)
}

/// The rule set one scan compiles, from its configuration and input.
pub open spec fn scan_rules_of(cfg: Config, input: ScanInput) -> Option<Seq<SpecPattern>> {
    compile_rules(
        opt_string_view(input.gitignore),
        opt_string_view(input.indexignore),
        str_views(cfg.extra_ignore@),
    )
}

/// The include patterns one scan compiles from its configuration.
pub open spec fn scan_includes_of(cfg: Config) -> Option<Seq<SpecPattern>> {
    compile_includes(str_views(cfg.include_globs@), 0)
}

/// What a successful scan returns: one record per surviving entry,
/// in traversal order, each reporting its entry exactly.
pub open spec fn scan_ok(cfg: Config, input: ScanInput, out: Seq<FileRecord>) -> bool {
    &&& scan_rules_of(cfg, input) is Some
    &&& scan_includes_of(cfg) is Some
    &&& {
        let ks = kept_indices(
            input.entries@,
            scan_rules_of(cfg, input).unwrap(),
            scan_includes_of(cfg).unwrap(),
            cfg.max_size_bytes,
        );
        &&& out.len() == ks.len()
        &&& (forall|k: int|
            0 <= k < out.len() ==> #[trigger] spec_record_ok(
                out[k],
                input.entries@[ks[k]],
                cfg.root@,
                cfg.absolute,
            ))
    }
}

/// Runs the whole filtering pipeline over the walked entries and
/// collects the records: compiles the layered rule set and the
/// include patterns (a malformed pattern is the only failure, and it
/// aborts before any record), then keeps exactly the entries that
/// survive every filter, one record each, in traversal order.
#[verifier::loop_isolation(false)]
pub fn scan_repo_collect(cfg: &Config, input: &ScanInput) -> (r: Result<Vec<FileRecord>, ScanError>)
    ensures
        match r {
            Ok(v) => scan_ok(*cfg, *input, v@),
            Err(e) => match e {
                ScanError::IgnorePattern => scan_rules_of(*cfg, *input) is None,
                ScanError::IncludeGlob => scan_rules_of(*cfg, *input) is Some && scan_includes_of(
                    *cfg,
                ) is None,
            },
        },
{
    let gitignore: Option<&str> = match &input.gitignore {
        Some(s) => Some(s.as_str()),
        None => None,
    };
    let indexignore: Option<&str> = match &input.indexignore {
        Some(s) => Some(s.as_str()),
        None => None,
    };
    proof {
        assert(opt_str_view(gitignore) == opt_string_view(input.gitignore));
        assert(opt_str_view(indexignore) == opt_string_view(input.indexignore));
    }
    let matcher = match load_ignore(gitignore, indexignore, &cfg.extra_ignore) {
        Ok(m) => m,
        Err(e) => {
            return Err(e);
        },
    };
    let includes = match compile_includes_exec(&cfg.include_globs) {
        Some(v) => v,
        None => {
            return Err(ScanError::IncludeGlob);
        },
    };
    let ghost rules = matcher@;
    let ghost incl = includes@.map_values(|p: Pattern| p@);
    let mut out: Vec<FileRecord> = Vec::new();
    let mut i: usize = 0;
    while i < input.entries.len()
        invariant
            i <= input.entries@.len(),
            out@.len() == kept_upto(input.entries@, rules, incl, cfg.max_size_bytes, i as int).len(),
            forall|k: int|
                0 <= k < out@.len() ==> #[trigger] spec_record_ok(
                    out@[k],
                    input.entries@[kept_upto(input.entries@, rules, incl, cfg.max_size_bytes, i as int)[k]],
                    cfg.root@,
                    cfg.absolute,
                ),
        decreases input.entries@.len() - i,
    {
        let ghost prev = kept_upto(input.entries@, rules, incl, cfg.max_size_bytes, i as int);
        match handle_entry(&input.entries[i], &matcher, &includes, cfg) {
            Some(rec) => {
                out.push(rec);
                proof {
                    assert(kept_upto(input.entries@, rules, incl, cfg.max_size_bytes, i + 1)
                        == prev.push(i as int));
                }
            },
            None => {
                proof {
                    assert(kept_upto(input.entries@, rules, incl, cfg.max_size_bytes, i + 1)
                        == prev);
                }
            },
        }
        i = i + 1;
    }
    Ok(out)
}

} // verus!
