//! Laws of the scan pipeline, stated and proved over the same spec
//! functions that the executable contracts use.

use vstd::prelude::*;

use crate::glob::SpecPattern;
use crate::scanner::{
    Config, Entry, FileRecord, ScanInput, kept_indices, kept_upto, scan_includes_of, scan_ok,
    scan_rules_of, spec_entry_ok, spec_record_ok,
};
use crate::scanner::opt_string_view;

verus! {

/// Shape of the kept-index sequence: every index is in range and
/// names a surviving entry, the indices are strictly increasing, and
/// every surviving entry's index occurs.
pub proof fn lemma_kept_upto_props(
    entries: Seq<Entry>,
    rules: Seq<SpecPattern>,
    includes: Seq<SpecPattern>,
    max_size: Option<u64>,
    i: int,
)
    requires
        0 <= i <= entries.len(),
    ensures
        forall|k: int|
            0 <= k < kept_upto(entries, rules, includes, max_size, i).len() ==> 0 <= #[trigger] kept_upto(
                entries,
                rules,
                includes,
                max_size,
                i,
            )[k] < i,
        forall|k: int|
            0 <= k < kept_upto(entries, rules, includes, max_size, i).len() ==> spec_entry_ok(
                entries[#[trigger] kept_upto(entries, rules, includes, max_size, i)[k]],
                rules,
                includes,
                max_size,
            ),
        forall|k1: int, k2: int|
            0 <= k1 < k2 < kept_upto(entries, rules, includes, max_size, i).len() ==> #[trigger] kept_upto(
                entries,
                rules,
                includes,
                max_size,
                i,
            )[k1] < #[trigger] kept_upto(entries, rules, includes, max_size, i)[k2],
        forall|j: int|
            0 <= j < i && spec_entry_ok(#[trigger] entries[j], rules, includes, max_size)
                ==> kept_upto(entries, rules, includes, max_size, i).contains(j),
    decreases i,
{
    if i > 0 {
        lemma_kept_upto_props(entries, rules, includes, max_size, i - 1);
        let prev = kept_upto(entries, rules, includes, max_size, i - 1);
        let cur = kept_upto(entries, rules, includes, max_size, i);
        if spec_entry_ok(entries[i - 1], rules, includes, max_size) {
            assert(cur == prev.push(i - 1));
            assert(cur[cur.len() - 1] == i - 1);
            assert forall|j: int|
                0 <= j < i && spec_entry_ok(#[trigger] entries[j], rules, includes, max_size)
                    implies cur.contains(j) by {
                if j < i - 1 {
                    let k = choose|k: int| 0 <= k < prev.len() && prev[k] == j;
                    assert(cur[k] == j);
                } else {
                    assert(cur[cur.len() - 1] == j);
                }
            }
        } else {
            assert(cur == prev);
            assert forall|j: int|
                0 <= j < i && spec_entry_ok(#[trigger] entries[j], rules, includes, max_size)
                    implies cur.contains(j) by {
                let k = choose|k: int| 0 <= k < prev.len() && prev[k] == j;
                assert(cur[k] == j);
            }
        }
    }
}

/// A file appears in the output exactly once iff its entry survives
/// every filter — its relative path is not ignored by the compiled
/// rule set after negation resolution, it matches the include
/// prefilter, and its size is within the configured maximum — and
/// directories never appear: every record's path is the path of a
/// surviving, non-directory entry, every surviving entry's path is
/// some record's path, and no two records share a path.
pub proof fn lemma_scan_exactly_once(cfg: Config, input: ScanInput, out: Seq<FileRecord>)
    requires
        scan_ok(cfg, input, out),
        forall|i1: int, i2: int|
            0 <= i1 < i2 < input.entries@.len() ==> #[trigger] input.entries@[i1].rel_path@
                != #[trigger] input.entries@[i2].rel_path@,
    ensures
        forall|j: int|
            0 <= j < input.entries@.len() && spec_entry_ok(
                #[trigger] input.entries@[j],
                scan_rules_of(cfg, input).unwrap(),
                scan_includes_of(cfg).unwrap(),
                cfg.max_size_bytes,
            ) ==> exists|k: int|
                0 <= k < out.len() && (#[trigger] out[k]).rel_path@ == input.entries@[j].rel_path@,
        forall|k: int|
            0 <= k < out.len() ==> exists|j: int|
                {
                    &&& 0 <= j < input.entries@.len()
                    &&& spec_entry_ok(
                        #[trigger] input.entries@[j],
                        scan_rules_of(cfg, input).unwrap(),
                        scan_includes_of(cfg).unwrap(),
                        cfg.max_size_bytes,
                    )
                    &&& !input.entries@[j].is_dir
                    &&& (#[trigger] out[k]).rel_path@ == input.entries@[j].rel_path@
                },
        forall|k1: int, k2: int|
            0 <= k1 < k2 < out.len() ==> (#[trigger] out[k1]).rel_path@ != (
            #[trigger] out[k2]).rel_path@,
{
    let entries = input.entries@;
    let rules = scan_rules_of(cfg, input).unwrap();
    let incl = scan_includes_of(cfg).unwrap();
    let ms = cfg.max_size_bytes;
    let ks = kept_indices(entries, rules, incl, ms);
    lemma_kept_upto_props(entries, rules, incl, ms, entries.len() as int);
    assert forall|j: int|
        0 <= j < entries.len() && spec_entry_ok(#[trigger] entries[j], rules, incl, ms)
            implies exists|k: int|
            0 <= k < out.len() && (#[trigger] out[k]).rel_path@ == entries[j].rel_path@ by {
        assert(ks.contains(j));
        let k = choose|k: int| 0 <= k < ks.len() && ks[k] == j;
        assert(spec_record_ok(out[k], entries[ks[k]], cfg.root@, cfg.absolute));
        assert(out[k].rel_path@ == entries[j].rel_path@);
    }
    assert forall|k: int| 0 <= k < out.len() implies exists|j: int|
        {
            &&& 0 <= j < entries.len()
            &&& spec_entry_ok(#[trigger] entries[j], rules, incl, ms)
            &&& !entries[j].is_dir
            &&& (#[trigger] out[k]).rel_path@ == entries[j].rel_path@
        } by {
        assert(spec_record_ok(out[k], entries[ks[k]], cfg.root@, cfg.absolute));
        let j = ks[k];
        assert(0 <= j < entries.len());
        assert(spec_entry_ok(entries[j], rules, incl, ms));
        assert(out[k].rel_path@ == entries[j].rel_path@);
    }
    assert forall|k1: int, k2: int| 0 <= k1 < k2 < out.len() implies (
    #[trigger] out[k1]).rel_path@ != (#[trigger] out[k2]).rel_path@ by {
        assert(spec_record_ok(out[k1], entries[ks[k1]], cfg.root@, cfg.absolute));
        assert(spec_record_ok(out[k2], entries[ks[k2]], cfg.root@, cfg.absolute));
        assert(ks[k1] < ks[k2]);
        assert(entries[ks[k1]].rel_path@ != entries[ks[k2]].rel_path@);
    }
}

/// A record carries an absolute path exactly when the configuration
/// asked for absolute output — never a present-but-empty field.
pub proof fn lemma_abs_path_presence(cfg: Config, input: ScanInput, out: Seq<FileRecord>)
    requires
        scan_ok(cfg, input, out),
    ensures
        forall|k: int|
            0 <= k < out.len() ==> ((#[trigger] out[k]).abs_path is Some <==> cfg.absolute),
{
    let entries = input.entries@;
    let rules = scan_rules_of(cfg, input).unwrap();
    let incl = scan_includes_of(cfg).unwrap();
    let ks = kept_indices(entries, rules, incl, cfg.max_size_bytes);
    assert forall|k: int| 0 <= k < out.len() implies ((#[trigger] out[k]).abs_path is Some
        <==> cfg.absolute) by {
        assert(spec_record_ok(out[k], entries[ks[k]], cfg.root@, cfg.absolute));
    }
}

/// Size boundary: with a configured maximum, an entry exactly at the
/// maximum is kept iff it passes every other filter, while one over
/// the maximum is always excluded.
pub proof fn lemma_size_boundary(
    e: Entry,
    rules: Seq<SpecPattern>,
    includes: Seq<SpecPattern>,
    limit: u64,
)
    requires
        e.meta is Some,
    ensures
        e.meta.unwrap().size <= limit ==> (spec_entry_ok(e, rules, includes, Some(limit))
            <==> spec_entry_ok(e, rules, includes, None)),
        e.meta.unwrap().size > limit ==> !spec_entry_ok(e, rules, includes, Some(limit)),
{
}

/// The records a scan admits do not depend on the configured
/// concurrency, nor on the other traversal knobs: two configurations
/// that agree on root, include globs, extra ignore patterns, size
/// limit and absolute flag admit exactly the same output.
pub proof fn lemma_concurrency_irrelevant(
    cfg1: Config,
    cfg2: Config,
    input: ScanInput,
    out: Seq<FileRecord>,
)
    requires
        cfg1.root == cfg2.root,
        cfg1.include_globs == cfg2.include_globs,
        cfg1.extra_ignore == cfg2.extra_ignore,
        cfg1.max_size_bytes == cfg2.max_size_bytes,
        cfg1.absolute == cfg2.absolute,
        scan_ok(cfg1, input, out),
    ensures
        scan_ok(cfg2, input, out),
{
    assert(scan_rules_of(cfg2, input) == scan_rules_of(cfg1, input));
    assert(scan_includes_of(cfg2) == scan_includes_of(cfg1));
}

/// Scanning the same entries in any order — as concurrent workers
/// hand them over in any interleaving — yields the same set of
/// relative paths: every path of one run's output is a path of the
/// other's.
#[verifier::rlimit(100)]
pub proof fn lemma_scan_set_invariant(
    cfg: Config,
    in1: ScanInput,
    out1: Seq<FileRecord>,
    in2: ScanInput,
    out2: Seq<FileRecord>,
)
    requires
        scan_ok(cfg, in1, out1),
        scan_ok(cfg, in2, out2),
        opt_string_view(in1.gitignore) == opt_string_view(in2.gitignore),
        opt_string_view(in1.indexignore) == opt_string_view(in2.indexignore),
        forall|i1: int, i2: int|
            0 <= i1 < i2 < in1.entries@.len() ==> #[trigger] in1.entries@[i1].rel_path@
                != #[trigger] in1.entries@[i2].rel_path@,
        forall|i1: int, i2: int|
            0 <= i1 < i2 < in2.entries@.len() ==> #[trigger] in2.entries@[i1].rel_path@
                != #[trigger] in2.entries@[i2].rel_path@,
        forall|i: int|
            0 <= i < in1.entries@.len() ==> in2.entries@.contains(#[trigger] in1.entries@[i]),
        forall|i: int|
            0 <= i < in2.entries@.len() ==> in1.entries@.contains(#[trigger] in2.entries@[i]),
    ensures
        forall|k1: int|
            0 <= k1 < out1.len() ==> exists|k2: int|
                0 <= k2 < out2.len() && (#[trigger] out1[k1]).rel_path@ == out2[k2].rel_path@,
        forall|k2: int|
            0 <= k2 < out2.len() ==> exists|k1: int|
                0 <= k1 < out1.len() && (#[trigger] out2[k2]).rel_path@ == out1[k1].rel_path@,
{
    assert(scan_rules_of(cfg, in2) == scan_rules_of(cfg, in1));
    let rules = scan_rules_of(cfg, in1).unwrap();
    let incl = scan_includes_of(cfg).unwrap();
    let ms = cfg.max_size_bytes;
    lemma_scan_exactly_once(cfg, in1, out1);
    lemma_scan_exactly_once(cfg, in2, out2);
    assert forall|k1: int| 0 <= k1 < out1.len() implies exists|k2: int|
        0 <= k2 < out2.len() && (#[trigger] out1[k1]).rel_path@ == out2[k2].rel_path@ by {
        let j1 = choose|j: int|
            {
                &&& 0 <= j < in1.entries@.len()
                &&& spec_entry_ok(#[trigger] in1.entries@[j], rules, incl, ms)
                &&& !in1.entries@[j].is_dir
                &&& out1[k1].rel_path@ == in1.entries@[j].rel_path@
            };
        let e = in1.entries@[j1];
        assert(in2.entries@.contains(e));
        let j2 = choose|j: int| 0 <= j < in2.entries@.len() && in2.entries@[j] == e;
        assert(spec_entry_ok(in2.entries@[j2], rules, incl, ms));
        let k2 = choose|k: int|
            0 <= k < out2.len() && (#[trigger] out2[k]).rel_path@ == in2.entries@[j2].rel_path@;
        assert(out2[k2].rel_path@ == out1[k1].rel_path@);
    }
    assert forall|k2: int| 0 <= k2 < out2.len() implies exists|k1: int|
        0 <= k1 < out1.len() && (#[trigger] out2[k2]).rel_path@ == out1[k1].rel_path@ by {
        let j2 = choose|j: int|
            {
                &&& 0 <= j < in2.entries@.len()
                &&& spec_entry_ok(#[trigger] in2.entries@[j], rules, incl, ms)
                &&& !in2.entries@[j].is_dir
                &&& out2[k2].rel_path@ == in2.entries@[j].rel_path@
            };
        let e = in2.entries@[j2];
        assert(in1.entries@.contains(e));
        let j1 = choose|j: int| 0 <= j < in1.entries@.len() && in1.entries@[j] == e;
        assert(spec_entry_ok(in1.entries@[j1], rules, incl, ms));
        let k1 = choose|k: int|
            0 <= k < out1.len() && (#[trigger] out1[k]).rel_path@ == in1.entries@[j1].rel_path@;
        assert(out1[k1].rel_path@ == out2[k2].rel_path@);
    }
}

} // verus!
