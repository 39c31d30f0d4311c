//! The start of each turn, from the sibling file that stamps the turns.

use std::collections::HashMap;

use vstd::prelude::*;
use crate::atomcode::AtomCodeJsonlLine;
use crate::text::{blank, is_blank, trim, trimmed};

verus! {

/// The turn starts seen in a run of lines: of each turn the earliest stamp.
pub open spec fn turn_starts(lines: Seq<AtomCodeJsonlLine>) -> Map<i64, i64>
    decreases lines.len(),
{
    if lines.len() == 0 {
        Map::empty()
    } else {
        let before = turn_starts(lines.drop_last());
        match (lines.last().turn_id, lines.last().ts) {
            (Some(turn), Some(ts)) => if before.contains_key(turn) && before[turn] <= ts {
                before
            } else {
                before.insert(turn, ts)
            },
            _ => before,
        }
    }
}

/// The document on a line: the line without the white space around it, where it holds any.
pub fn line_document(line: &str) -> (r: Option<String>)
    ensures
        match r {
            Some(text) => !is_blank(line@) && text@ == trim(line@),
            None => is_blank(line@),
        },
{
    if blank(line) {
        None
    } else {
        Some(trimmed(line))
    }
}

/// Collects the start of each turn. A turn can be written more than once (streaming, retries,
/// undo): it began at its earliest stamp.
pub fn load_turn_timestamps(lines: &Vec<AtomCodeJsonlLine>) -> (r: HashMap<i64, i64>)
    ensures
        r@ == turn_starts(lines@),
{
    broadcast use vstd::std_specs::hash::group_hash_axioms;

    let mut map: HashMap<i64, i64> = HashMap::new();
    let mut i: usize = 0;
    while i < lines.len()
        invariant
            i <= lines@.len(),
            map@ == turn_starts(lines@.take(i as int)),
        decreases lines@.len() - i,
    {
        assert(lines@.take(i + 1).drop_last() =~= lines@.take(i as int));
        let line = lines[i];
        if let Some(turn) = line.turn_id {
            if let Some(ts) = line.ts {
                let earlier: bool = match map.get(&turn) {
                    Some(existing) => ts < *existing,
                    None => true,
                };
                if earlier {
                    map.insert(turn, ts);
                }
            }
        }
        i += 1;
    }
    assert(lines@.take(lines@.len() as int) =~= lines@);
    map
}

/// Whether line `i` stamps `turn` with `ts`.
pub open spec fn stamps(lines: Seq<AtomCodeJsonlLine>, i: int, turn: i64, ts: i64) -> bool {
    0 <= i < lines.len() && lines[i].turn_id == Some(turn) && lines[i].ts == Some(ts)
}

/// The earliest stamp of a turn wins: a turn has a start exactly where some line stamps it, the
/// start is one of its stamps, and none of its stamps is earlier.
pub proof fn earliest_stamp_wins(lines: Seq<AtomCodeJsonlLine>, turn: i64)
    ensures
        turn_starts(lines).contains_key(turn) <==> exists|i: int, ts: i64|
            stamps(lines, i, turn, ts),
        turn_starts(lines).contains_key(turn) ==> exists|i: int|
            stamps(lines, i, turn, turn_starts(lines)[turn]),
        forall|i: int, ts: i64| #[trigger]
            stamps(lines, i, turn, ts) ==> turn_starts(lines)[turn] <= ts,
    decreases lines.len(),
{
    if lines.len() > 0 {
        let front = lines.drop_last();
        let last = lines.len() - 1;
        earliest_stamp_wins(front, turn);
        assert forall|i: int, ts: i64| stamps(front, i, turn, ts) implies #[trigger] stamps(
            lines,
            i,
            turn,
            ts,
        ) by {}
        assert forall|i: int, ts: i64| #[trigger] stamps(lines, i, turn, ts) implies i == last
            || stamps(front, i, turn, ts) by {}
        let starts = turn_starts(lines);
        if lines.last().turn_id == Some(turn) && lines.last().ts is Some {
            assert(stamps(lines, last, turn, lines.last().ts->0));
        }
        if starts.contains_key(turn) {
            if lines.last().turn_id == Some(turn) && lines.last().ts == Some(starts[turn]) {
                assert(stamps(lines, last, turn, starts[turn]));
            } else {
                let i = choose|i: int| stamps(front, i, turn, turn_starts(front)[turn]);
                assert(stamps(lines, i, turn, starts[turn]));
            }
        }
    }
}

} // verus!
