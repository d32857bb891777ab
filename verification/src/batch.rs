//! Aggregation of per-file outcomes into a failure list, a summary line and
//! a process exit status. The conversions themselves run independently; one
//! file's failure never touches another's outcome.

use vstd::prelude::*;

use crate::errors::ConvertError;

verus! {

/// What became of one source file: the destination it was written or linked
/// to, or the failing source path with its error.
pub enum FileOutcome {
    /// The file was converted; the destination path.
    Converted { dst: Vec<u8> },
    /// The conversion failed; the source path and why.
    Failed { src: Vec<u8>, error: ConvertError },
}

/// The source paths of the failed outcomes, in order.
pub open spec fn spec_failed_sources(s: Seq<FileOutcome>) -> Seq<Seq<u8>>
    decreases s.len(),
{
    if s.len() == 0 {
        Seq::empty()
    } else {
        spec_failed_sources(s.drop_last()) + (match s.last() {
            FileOutcome::Failed { src, .. } => seq![src@],
            FileOutcome::Converted { .. } => Seq::empty(),
        })
    }
}

/// The paths joined with a comma and a space between neighbours.
pub open spec fn spec_comma_joined(paths: Seq<Seq<u8>>) -> Seq<u8>
    decreases paths.len(),
{
    if paths.len() == 0 {
        Seq::empty()
    } else if paths.len() == 1 {
        paths[0]
    } else {
        spec_comma_joined(paths.drop_last()) + seq![44u8, 32u8] + paths.last()
    }
}

/// Collect the source paths of every failed outcome, in order.
pub fn failed_sources(outcomes: &Vec<FileOutcome>) -> (r: Vec<Vec<u8>>)
    ensures
        r@.map_values(|v: Vec<u8>| v@) == spec_failed_sources(outcomes@),
{
    let mut r: Vec<Vec<u8>> = Vec::new();
    let mut i: usize = 0;
    while i < outcomes.len()
        invariant
            i <= outcomes@.len(),
            r@.map_values(|v: Vec<u8>| v@) == spec_failed_sources(outcomes@.subrange(0, i as int)),
        decreases outcomes@.len() - i,
    {
        let ghost prefix = outcomes@.subrange(0, i as int);
        match &outcomes[i] {
            FileOutcome::Failed { src, .. } => {
                let mut copy: Vec<u8> = Vec::new();
                copy.extend_from_slice(src.as_slice());
                proof {
                    assert(copy@ =~= src@);
                }
                r.push(copy);
            },
            FileOutcome::Converted { .. } => {},
        }
        i = i + 1;
        proof {
            assert(outcomes@.subrange(0, i as int).drop_last() =~= prefix);
            assert(outcomes@.subrange(0, i as int).last() == outcomes@[i - 1]);
            assert(r@.map_values(|v: Vec<u8>| v@) =~= spec_failed_sources(
                outcomes@.subrange(0, i as int),
            ));
        }
    }
    proof {
        assert(outcomes@.subrange(0, outcomes@.len() as int) =~= outcomes@);
    }
    r
}

/// The aggregate summary: every failed source path on one line, separated by
/// a comma and a space.
pub fn summary_line(failed: &Vec<Vec<u8>>) -> (r: Vec<u8>)
    ensures
        r@ == spec_comma_joined(failed@.map_values(|v: Vec<u8>| v@)),
{
    let mut r: Vec<u8> = Vec::new();
    let mut i: usize = 0;
    while i < failed.len()
        invariant
            i <= failed@.len(),
            r@ == spec_comma_joined(failed@.map_values(|v: Vec<u8>| v@).subrange(0, i as int)),
        decreases failed@.len() - i,
    {
        let ghost all = failed@.map_values(|v: Vec<u8>| v@);
        let ghost prefix = all.subrange(0, i as int);
        if i > 0 {
            r.push(44);
            r.push(32);
        }
        r.extend_from_slice(failed[i].as_slice());
        i = i + 1;
        proof {
            assert(all.subrange(0, i as int).drop_last() =~= prefix);
            assert(all.subrange(0, i as int).last() == all[i - 1]);
            assert(all[i - 1] == failed@[i - 1]@);
            assert(r@ =~= spec_comma_joined(all.subrange(0, i as int)));
        }
    }
    proof {
        assert(failed@.map_values(|v: Vec<u8>| v@).subrange(
            0,
            failed@.len() as int,
        ) =~= failed@.map_values(|v: Vec<u8>| v@));
    }
    r
}

/// Exit status of a whole batch: success only when no file failed.
pub fn exit_code(failed_count: usize) -> (r: u8)
    ensures
        r == if failed_count == 0 { 0u8 } else { 2u8 },
{
    if failed_count == 0 {
        0
    } else {
        2
    }
}

} // verus!
