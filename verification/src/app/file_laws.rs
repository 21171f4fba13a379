//! Laws of the tools for files and commands.

use crate::app::files::{
    chunk_text, chunks_text, git_parts, git_report, git_step, lies_in, listing, shown_diff, GitRun,
    OutputChunk,
};
use crate::encoding::lossy;
use crate::text::{has_prefix, join, trim, trim_end};
use crate::text_laws::{ends_with_part, run_together};
use vstd::prelude::*;

verus! {

/// A path lies in a directory if it is the directory, or if it goes on behind it with a slash. A path
/// that merely begins with the same letters does not.
pub proof fn paths_lie_below(root: Seq<char>, path: Seq<char>)
    requires
        root != "/"@,
    ensures
        lies_in(root, path) <==> path == root || exists|rest: Seq<char>|
            #[trigger] (root.push('/') + rest) == path,
{
    reveal_strlit("/");
    let prefix = root + "/"@;
    assert(prefix =~= root.push('/'));
    if has_prefix(path, prefix) {
        assert(prefix + path.skip(prefix.len() as int) =~= path);
    }
    if exists|rest: Seq<char>| #[trigger] (root.push('/') + rest) == path {
        let rest = choose|rest: Seq<char>| #[trigger] (root.push('/') + rest) == path;
        assert(path.take(prefix.len() as int) =~= prefix);
    }
}

/// A directory is listed whole, an entry in each line, up to two hundred entries. Of more the first two
/// hundred are listed.
pub proof fn entries_are_listed(shown: Seq<char>, entries: Seq<Seq<char>>, recursive: bool)
    ensures
        0 < entries.len() <= 200 ==> listing(shown, entries, recursive) == join(entries, "\n"@),
        entries.len() > 200 ==> exists|note: Seq<char>|
            #[trigger] (join(entries.take(200), "\n"@) + note) == listing(
                shown,
                entries,
                recursive,
            ),
        entries.len() == 0 ==> listing(shown, entries, recursive) == "No files/folders found in "@
            + shown,
{
    if entries.len() > 200 {
        let first = join(entries.take(200), "\n"@);
        let whole = listing(shown, entries, recursive);
        assert(first + whole.skip(first.len() as int) =~= whole);
    }
}

/// Whether a run of git went well.
pub open spec fn went_well(run: GitRun) -> bool {
    run is Done
}

proof fn parts_so_far(runs: Seq<GitRun>, n: int)
    requires
        0 <= n <= runs.len(),
        forall|i: int| 0 <= i < n ==> went_well(#[trigger] runs[i]),
    ensures
        git_parts(runs, n) == Ok::<Seq<Seq<char>>, Seq<char>>(
            runs.take(n).filter(
                |run: GitRun| trim(lossy(run->Done_stdout@)).len() > 0,
            ).map_values(|run: GitRun| trim_end(lossy(run->Done_stdout@))),
        ),
    decreases n,
{
    reveal(Seq::filter);
    let wrote = |run: GitRun| trim(lossy(run->Done_stdout@)).len() > 0;
    let part = |run: GitRun| trim_end(lossy(run->Done_stdout@));
    if n > 0 {
        parts_so_far(runs, n - 1);
        assert(went_well(runs[n - 1]));
        assert(runs.take(n).drop_last() =~= runs.take(n - 1));
        assert(runs.take(n).last() == runs[n - 1]);
        let before = runs.take(n - 1).filter(wrote);
        if wrote(runs[n - 1]) {
            assert(runs.take(n).filter(wrote) == before.push(runs[n - 1]));
            assert(before.push(runs[n - 1]).map_values(part) =~= before.map_values(part).push(
                part(runs[n - 1]),
            ));
        } else {
            assert(runs.take(n).filter(wrote) == before);
        }
    } else {
        assert(runs.take(0).filter(wrote).map_values(part) =~= Seq::empty());
    }
}

/// Where all runs of git went well, what they wrote is shown, one run after the other, without those
/// that wrote nothing.
pub proof fn all_differences_are_shown(runs: Seq<GitRun>)
    requires
        forall|i: int| 0 <= i < runs.len() ==> went_well(#[trigger] runs[i]),
    ensures
        git_report(runs) == shown_diff(
            runs.filter(
                |run: GitRun| trim(lossy(run->Done_stdout@)).len() > 0,
            ).map_values(|run: GitRun| trim_end(lossy(run->Done_stdout@))),
        ),
{
    parts_so_far(runs, runs.len() as int);
    assert(runs.take(runs.len() as int) =~= runs);
}

/// The first run of git that fails decides what is said, whatever the others wrote.
pub proof fn the_first_failure_is_reported(runs: Seq<GitRun>, i: int)
    requires
        0 <= i < runs.len(),
        !went_well(runs[i]),
        forall|k: int| 0 <= k < i ==> went_well(#[trigger] runs[k]),
    ensures
        git_step(runs[i]) is Stop,
        git_report(runs) == git_step(runs[i])->Stop_0,
{
    parts_so_far(runs, i);
    failure_stays(runs, i, runs.len() as int);
}

proof fn failure_stays(runs: Seq<GitRun>, i: int, n: int)
    requires
        0 <= i < n <= runs.len(),
        git_step(runs[i]) is Stop,
        git_parts(runs, i) is Ok,
    ensures
        git_parts(runs, n) == Err::<Seq<Seq<char>>, Seq<char>>(git_step(runs[i])->Stop_0),
    decreases n,
{
    if n > i + 1 {
        failure_stays(runs, i, n - 1);
    }
}

/// What a command wrote is shown whole, chunk after chunk, in the order in which it came.
pub proof fn output_is_shown_in_order(chunks: Seq<OutputChunk>)
    ensures
        chunks_text(chunks, chunks.len() as int) == run_together(
            chunks.map_values(|chunk: OutputChunk| chunk_text(chunk)),
        ),
{
    output_so_far(chunks, chunks.len() as int);
    assert(chunks.take(chunks.len() as int) =~= chunks);
}

proof fn output_so_far(chunks: Seq<OutputChunk>, n: int)
    requires
        0 <= n <= chunks.len(),
    ensures
        chunks_text(chunks, n) == run_together(
            chunks.take(n).map_values(|chunk: OutputChunk| chunk_text(chunk)),
        ),
    decreases n,
{
    let shown = |chunk: OutputChunk| chunk_text(chunk);
    if n > 0 {
        output_so_far(chunks, n - 1);
        let before = chunks.take(n - 1).map_values(shown);
        assert(chunks.take(n).map_values(shown) =~= before.push(shown(chunks[n - 1])));
        ends_with_part(before, shown(chunks[n - 1]));
    } else {
        assert(chunks.take(0).map_values(shown) =~= Seq::empty());
    }
}

} // verus!
