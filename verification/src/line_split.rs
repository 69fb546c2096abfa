//! What counts as a line of the log. The log grows while it is read, so
//! its last line may still be on its way: only what ends in a line feed is a
//! line, and what stands behind the last line feed waits for its end.

use vstd::prelude::*;

verus! {

/// The byte that ends a line.
pub const LINE_FEED: u8 = 10;

/// The byte that some writers put before the line feed; it is no part of
/// the line.
pub const CARRIAGE_RETURN: u8 = 13;

/// The bytes read so far, cut up: the lines that are complete, each without
/// its line ending, and the bytes behind the last line feed.
pub ghost struct Split {
    pub lines: Seq<Seq<u8>>,
    pub rest: Seq<u8>,
}

/// `line` without a carriage return at its end.
pub open spec fn without_carriage_return(line: Seq<u8>) -> Seq<u8> {
    if line.len() > 0 && line.last() == CARRIAGE_RETURN {
        line.drop_last()
    } else {
        line
    }
}

/// The first `upto` of `bytes`, cut up. Each line feed ends a line; every
/// other byte belongs to the line that is on its way.
pub open spec fn split(bytes: Seq<u8>, upto: int) -> Split
    decreases upto,
{
    if upto <= 0 {
        Split { lines: Seq::empty(), rest: Seq::empty() }
    } else {
        let before = split(bytes, upto - 1);
        if bytes[upto - 1] == LINE_FEED {
            Split {
                lines: before.lines.push(without_carriage_return(before.rest)),
                rest: Seq::empty(),
            }
        } else {
            Split { lines: before.lines, rest: before.rest.push(bytes[upto - 1]) }
        }
    }
}

/// The complete lines of `bytes`.
pub open spec fn complete_lines(bytes: Seq<u8>) -> Seq<Seq<u8>> {
    split(bytes, bytes.len() as int).lines
}

/// The bytes of `bytes` behind its last line feed.
pub open spec fn unfinished(bytes: Seq<u8>) -> Seq<u8> {
    split(bytes, bytes.len() as int).rest
}

/// Takes the complete lines out of `pending`, the bytes read and not yet
/// handed on, and leaves in it the bytes that still wait for their line
/// feed.
pub fn take_complete_lines(pending: &mut Vec<u8>) -> (lines: Vec<Vec<u8>>)
    ensures
        lines.deep_view() == complete_lines(old(pending)@),
        final(pending)@ == unfinished(old(pending)@),
{
    let ghost bytes = pending@;
    let mut lines: Vec<Vec<u8>> = Vec::new();
    let mut current: Vec<u8> = Vec::new();
    let mut i: usize = 0;
    assert(lines.deep_view() =~= Seq::<Seq<u8>>::empty());
    while i < pending.len()
        invariant
            i <= pending.len(),
            pending@ == bytes,
            lines.deep_view() == split(bytes, i as int).lines,
            current@ == split(bytes, i as int).rest,
        decreases pending.len() - i,
    {
        let ghost lines_before = lines.deep_view();
        let ghost rest_before = current@;
        let byte = pending[i];
        if byte == LINE_FEED {
            let n = current.len();
            if n > 0 && current[n - 1] == CARRIAGE_RETURN {
                current.pop();
            }
            assert(current@ == without_carriage_return(rest_before));
            let ghost line = current@;
            assert(current.deep_view() =~= line);
            lines.push(current);
            current = Vec::new();
            assert(lines.deep_view() =~= lines_before.push(line)) by {
                assert forall|k: int| 0 <= k < lines_before.len() implies lines.deep_view()[k]
                    == lines_before[k] by {}
            }
        } else {
            current.push(byte);
        }
        i = i + 1;
    }
    *pending = current;
    lines
}

/// The first `upto` bytes are cut up the same way whatever follows them.
pub proof fn lemma_split_reads_its_bytes_only(a: Seq<u8>, b: Seq<u8>, upto: int)
    requires
        upto <= a.len(),
        upto <= b.len(),
        forall|i: int| 0 <= i < upto ==> a[i] == b[i],
    ensures
        split(a, upto) == split(b, upto),
    decreases upto,
{
    if upto > 0 {
        lemma_split_reads_its_bytes_only(a, b, upto - 1);
    }
}

/// No line holds a line feed, and neither do the bytes that wait.
pub proof fn lemma_no_line_holds_a_line_feed(bytes: Seq<u8>, upto: int)
    requires
        upto <= bytes.len(),
    ensures
        forall|k: int|
            0 <= k < split(bytes, upto).rest.len() ==> split(bytes, upto).rest[k] != LINE_FEED,
        forall|n: int, k: int|
            0 <= n < split(bytes, upto).lines.len() && 0 <= k < split(
                bytes,
                upto,
            ).lines[n].len() ==> #[trigger] split(bytes, upto).lines[n][k] != LINE_FEED,
    decreases upto,
{
    if upto > 0 {
        lemma_no_line_holds_a_line_feed(bytes, upto - 1);
        let before = split(bytes, upto - 1);
        let after = split(bytes, upto);
        if bytes[upto - 1] == LINE_FEED {
            let line = without_carriage_return(before.rest);
            assert(after.lines == before.lines.push(line));
            assert forall|k: int| 0 <= k < line.len() implies line[k] != LINE_FEED by {
                assert(line[k] == before.rest[k]);
            }
            assert forall|n: int, k: int|
                0 <= n < after.lines.len() && 0 <= k < after.lines[n].len() implies #[trigger] after.lines[n][k]
                != LINE_FEED by {
                if n < before.lines.len() {
                    assert(after.lines[n] == before.lines[n]);
                    assert(before.lines[n][k] != LINE_FEED);
                } else {
                    assert(after.lines[n] == line);
                }
            }
        } else {
            assert(after.rest == before.rest.push(bytes[upto - 1]));
            assert forall|k: int| 0 <= k < after.rest.len() implies after.rest[k] != LINE_FEED by {
                if k < before.rest.len() {
                    assert(after.rest[k] == before.rest[k]);
                }
            }
        }
    }
}

/// Bytes that hold no line feed hold no complete line: all of them wait.
pub proof fn lemma_without_line_feed_all_waits(bytes: Seq<u8>, upto: int)
    requires
        0 <= upto <= bytes.len(),
        forall|k: int| 0 <= k < upto ==> bytes[k] != LINE_FEED,
    ensures
        split(bytes, upto) == (Split { lines: Seq::empty(), rest: bytes.take(upto) }),
    decreases upto,
{
    if upto > 0 {
        lemma_without_line_feed_all_waits(bytes, upto - 1);
        assert(bytes.take(upto) =~= bytes.take(upto - 1).push(bytes[upto - 1]));
    } else {
        assert(bytes.take(upto) =~= Seq::<u8>::empty());
    }
}

/// However the bytes of the log arrive, in one piece or in two, the lines
/// are the same: what `earlier` left waiting is taken up again in front of
/// `later`, so that a line cut in two by the reading is handed on once,
/// whole, and in its place.
pub proof fn lemma_lines_do_not_depend_on_the_cut(earlier: Seq<u8>, later: Seq<u8>)
    ensures
        complete_lines(earlier + later) == complete_lines(earlier) + complete_lines(
            unfinished(earlier) + later,
        ),
        unfinished(earlier + later) == unfinished(unfinished(earlier) + later),
{
    lemma_cut_within(earlier, later, later.len() as int);
    assert((earlier + later).len() == earlier.len() + later.len());
    assert((unfinished(earlier) + later).len() == unfinished(earlier).len() + later.len());
}

/// The statement of `lemma_lines_do_not_depend_on_the_cut` for the first
/// `upto` bytes of `later`.
pub proof fn lemma_cut_within(earlier: Seq<u8>, later: Seq<u8>, upto: int)
    requires
        0 <= upto <= later.len(),
    ensures
        split(earlier + later, earlier.len() + upto).lines == complete_lines(earlier) + split(
            unfinished(earlier) + later,
            unfinished(earlier).len() + upto,
        ).lines,
        split(earlier + later, earlier.len() + upto).rest == split(
            unfinished(earlier) + later,
            unfinished(earlier).len() + upto,
        ).rest,
    decreases upto,
{
    let whole = earlier + later;
    let waiting = unfinished(earlier);
    let resumed = waiting + later;
    if upto == 0 {
        lemma_split_reads_its_bytes_only(whole, earlier, earlier.len() as int);
        lemma_no_line_holds_a_line_feed(earlier, earlier.len() as int);
        lemma_without_line_feed_all_waits(resumed, waiting.len() as int);
        assert(resumed.take(waiting.len() as int) =~= waiting);
        assert(complete_lines(earlier) + Seq::<Seq<u8>>::empty() =~= complete_lines(earlier));
    } else {
        lemma_cut_within(earlier, later, upto - 1);
        let in_whole = split(whole, earlier.len() + upto - 1);
        let in_resumed = split(resumed, waiting.len() + upto - 1);
        assert(whole[earlier.len() + upto - 1] == later[upto - 1]);
        assert(resumed[waiting.len() + upto - 1] == later[upto - 1]);
        if later[upto - 1] == LINE_FEED {
            let line = without_carriage_return(in_whole.rest);
            assert(in_whole.lines.push(line) =~= complete_lines(earlier) + in_resumed.lines.push(
                line,
            ));
        }
    }
}

} // verus!
