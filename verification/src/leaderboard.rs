//! The leaderboard store: one bounded, ascending-sorted list of
//! `(name, attempts)` entries per difficulty tier, loaded from and saved
//! to a pipe-delimited text format.
//!
//! Ordering is stable: a new entry is placed after the existing entries
//! with the same attempt count, and every board is truncated to the
//! store's capacity after each change.

use vstd::prelude::*;
use crate::difficulty::Difficulty;
use crate::difficulty::lemma_name_round_trip;
use crate::text::dec_repr;
use crate::text::is_ws;
use crate::text::lemma_dec_repr_digits;
use crate::text::lemma_parse_of_repr;
use crate::text::lemma_split_concat;
use crate::text::lemma_split_whole;
use crate::text::lemma_trim_clean;
use crate::text::parse_u32;
use crate::text::parse_u32_spec;
use crate::text::split_on;
use crate::text::split_spec;
use crate::text::trim;
use crate::text::trim_spec;
use crate::text::u32_string;

verus! {

/// One leaderboard record: who won a round and in how many attempts.
#[derive(Clone, Debug)]
pub struct Entry {
    pub name: String,
    pub attempts: u32,
}

/// A board as the contracts see it: a sequence of name/attempts pairs.
pub open spec fn entry_views(b: Seq<Entry>) -> Seq<(Seq<char>, u32)> {
    b.map_values(|e: Entry| (e.name@, e.attempts))
}

/// Whether a board is sorted by attempts, ascending.
pub open spec fn sorted_by_attempts(b: Seq<(Seq<char>, u32)>) -> bool {
    forall|i: int, j: int| 0 <= i < j < b.len() ==> b[i].1 <= b[j].1
}

/// Where a new entry with `a` attempts goes: after every existing entry
/// with at most `a` attempts, which keeps insertion stable among ties.
pub open spec fn insert_pos(b: Seq<(Seq<char>, u32)>, a: u32) -> nat
    decreases b.len(),
{
    if b.len() == 0 {
        0
    } else if b[0].1 <= a {
        1 + insert_pos(b.drop_first(), a)
    } else {
        0
    }
}

/// `insert_pos` is the first index holding more attempts than `a`.
pub proof fn lemma_insert_pos(b: Seq<(Seq<char>, u32)>, a: u32)
    ensures
        insert_pos(b, a) <= b.len(),
        forall|j: int| 0 <= j < insert_pos(b, a) ==> b[j].1 <= a,
        insert_pos(b, a) < b.len() ==> b[insert_pos(b, a) as int].1 > a,
    decreases b.len(),
{
    if b.len() > 0 && b[0].1 <= a {
        let t = b.drop_first();
        lemma_insert_pos(t, a);
        let p = insert_pos(b, a);
        if p < b.len() {
            assert(b[p as int] == t[p as int - 1]);
        }
        assert forall|j: int| 0 <= j < p implies b[j].1 <= a by {
            if j >= 1 {
                assert(b[j] == t[j - 1]);
            }
        }
    }
}

/// A board with `e` inserted at its stable position.
pub open spec fn insert_entry(
    b: Seq<(Seq<char>, u32)>,
    e: (Seq<char>, u32),
) -> Seq<(Seq<char>, u32)> {
    b.insert(insert_pos(b, e.1) as int, e)
}

/// A board cut down to at most `cap` entries.
pub open spec fn clip(b: Seq<(Seq<char>, u32)>, cap: int) -> Seq<(Seq<char>, u32)> {
    if b.len() <= cap {
        b
    } else {
        b.subrange(0, cap)
    }
}

/// Stable insertion keeps a board sorted.
pub proof fn lemma_insert_entry_sorted(b: Seq<(Seq<char>, u32)>, e: (Seq<char>, u32))
    requires
        sorted_by_attempts(b),
    ensures
        sorted_by_attempts(insert_entry(b, e)),
{
    lemma_insert_pos(b, e.1);
    let p = insert_pos(b, e.1) as int;
    let r = insert_entry(b, e);
    b.insert_ensures(p, e);
    assert forall|i: int, j: int| 0 <= i < j < r.len() implies r[i].1 <= r[j].1 by {
        if i < p && j < p {
            assert(r[i] == b[i] && r[j] == b[j]);
        } else if i < p && j == p {
            assert(r[i] == b[i]);
        } else if i < p && j > p {
            assert(r[i] == b[i] && r[j] == b[j - 1]);
        } else if i == p && j > p {
            assert(r[j] == b[j - 1]);
        } else if i > p && j > p {
            assert(r[i] == b[i - 1] && r[j] == b[j - 1]);
        }
    }
}

/// Clipping keeps a board sorted.
pub proof fn lemma_clip_sorted(b: Seq<(Seq<char>, u32)>, cap: int)
    requires
        sorted_by_attempts(b),
        cap >= 0,
    ensures
        sorted_by_attempts(clip(b, cap)),
        clip(b, cap).len() <= cap || clip(b, cap) == b,
{
}

/// Whether `attempts` makes the cut on a board of bound `cap`: either
/// the board still has room, or the score ties or beats the last entry.
pub open spec fn qualifies_spec(b: Seq<(Seq<char>, u32)>, cap: int, a: u32) -> bool {
    b.len() < cap || (b.len() > 0 && a <= b[b.len() - 1].1)
}

/// The persistent ranked lists, one per difficulty tier.
pub struct LeaderboardStore {
    pub capacity: usize,
    pub easy: Vec<Entry>,
    pub medium: Vec<Entry>,
    pub hard: Vec<Entry>,
    pub insane: Vec<Entry>,
}

impl LeaderboardStore {
    /// The board of one tier, as the contracts see it.
    pub open spec fn board_spec(self, d: Difficulty) -> Seq<(Seq<char>, u32)> {
        match d {
            Difficulty::Easy => entry_views(self.easy@),
            Difficulty::Medium => entry_views(self.medium@),
            Difficulty::Hard => entry_views(self.hard@),
            Difficulty::Insane => entry_views(self.insane@),
        }
    }

    /// Well-formedness of one board: sorted ascending and within bound.
    pub open spec fn board_ok(self, b: Seq<(Seq<char>, u32)>) -> bool {
        sorted_by_attempts(b) && b.len() <= self.capacity
    }

    /// Every board is sorted ascending by attempts and within capacity.
    pub open spec fn wf(self) -> bool {
        &&& self.board_ok(self.board_spec(Difficulty::Easy))
        &&& self.board_ok(self.board_spec(Difficulty::Medium))
        &&& self.board_ok(self.board_spec(Difficulty::Hard))
        &&& self.board_ok(self.board_spec(Difficulty::Insane))
    }

    /// An empty store keeping at most `capacity` entries per tier.
    pub fn new(capacity: usize) -> (r: LeaderboardStore)
        ensures
            r.wf(),
            r.capacity == capacity,
            forall|d: Difficulty| #[trigger] r.board_spec(d) == Seq::<(Seq<char>, u32)>::empty(),
    {
        let r = LeaderboardStore {
            capacity,
            easy: Vec::new(),
            medium: Vec::new(),
            hard: Vec::new(),
            insane: Vec::new(),
        };
        proof {
            assert forall|d: Difficulty| #[trigger] r.board_spec(d) == Seq::<
                (Seq<char>, u32),
            >::empty() by {
                assert(r.board_spec(d) =~= Seq::<(Seq<char>, u32)>::empty());
            }
        }
        r
    }

    /// How many entries a board may keep.
    pub fn capacity(&self) -> (r: usize)
        ensures
            r == self.capacity,
    {
        self.capacity
    }

    /// Borrow the entries of one tier, best first.
    pub fn board(&self, d: Difficulty) -> (r: &Vec<Entry>)
        ensures
            entry_views(r@) == self.board_spec(d),
    {
        match d {
            Difficulty::Easy => &self.easy,
            Difficulty::Medium => &self.medium,
            Difficulty::Hard => &self.hard,
            Difficulty::Insane => &self.insane,
        }
    }

    /// Whether a result of `attempts` would make the cut on tier `d`,
    /// so the caller knows to ask for a player name before recording.
    pub fn qualifies(&self, d: Difficulty, attempts: u32) -> (r: bool)
        ensures
            r == qualifies_spec(self.board_spec(d), self.capacity as int, attempts),
    {
        let board = self.board(d);
        if board.len() < self.capacity {
            true
        } else if board.len() == 0 {
            false
        } else {
            attempts <= board[board.len() - 1].attempts
        }
    }

    /// Record a finished round on tier `d`: insert the entry at its
    /// stable position and clip the board to capacity. Returns whether
    /// the board actually changed.
    pub fn record(&mut self, d: Difficulty, name: String, attempts: u32) -> (changed: bool)
        requires
            old(self).wf(),
        ensures
            final(self).wf(),
            final(self).capacity == old(self).capacity,
            final(self).board_spec(d) == clip(
                insert_entry(old(self).board_spec(d), (name@, attempts)),
                old(self).capacity as int,
            ),
            forall|d2: Difficulty|
                d2 != d ==> #[trigger] final(self).board_spec(d2) == old(self).board_spec(d2),
            changed == (insert_pos(old(self).board_spec(d), attempts) < old(self).capacity),
            changed == (final(self).board_spec(d) != old(self).board_spec(d)),
    {
        let cap = self.capacity;
        let entry = Entry { name, attempts };
        let changed = match d {
            Difficulty::Easy => insert_clip(&mut self.easy, entry, cap),
            Difficulty::Medium => insert_clip(&mut self.medium, entry, cap),
            Difficulty::Hard => insert_clip(&mut self.hard, entry, cap),
            Difficulty::Insane => insert_clip(&mut self.insane, entry, cap),
        };
        proof {
            let b = old(self).board_spec(d);
            let e = (entry.name@, entry.attempts);
            lemma_insert_pos(b, e.1);
            lemma_insert_entry_sorted(b, e);
            lemma_clip_sorted(insert_entry(b, e), cap as int);
            let after = clip(insert_entry(b, e), cap as int);
            let p = insert_pos(b, e.1);
            b.insert_ensures(p as int, e);
            if p < cap {
                if b.len() < cap {
                    assert(after.len() == b.len() + 1);
                } else {
                    assert(after[p as int].1 == e.1);
                    assert(b[p as int].1 > e.1);
                    assert(after[p as int] != b[p as int]);
                }
                assert(after != b);
            } else {
                assert(p == b.len());
                assert(insert_entry(b, e) == b.push(e)) by {
                    assert(b.insert(p as int, e) =~= b.push(e));
                }
                assert(after =~= b);
            }
        }
        changed
    }
}

/// What one line of the persisted file records, if anything: the line is
/// trimmed, must hold exactly three pipe-separated fields, a known tier
/// name and a readable attempt count. Anything else is silently skipped.
pub open spec fn parse_line_spec(line: Seq<char>) -> Option<(Difficulty, Seq<char>, u32)> {
    let t = trim_spec(line);
    if t.len() == 0 {
        None
    } else {
        let parts = split_spec(t, '|');
        if parts.len() != 3 {
            None
        } else {
            match Difficulty::from_name_spec(parts[0]) {
                Option::None => None,
                Option::Some(d) => match parse_u32_spec(parts[2]) {
                    Option::None => None,
                    Option::Some(a) => Some((d, parts[1], a)),
                },
            }
        }
    }
}

/// The entries that a sequence of lines records for tier `d`, in file
/// order; lines that record nothing, or another tier, contribute nothing.
pub open spec fn collect_board_spec(lines: Seq<Seq<char>>, d: Difficulty) -> Seq<
    (Seq<char>, u32),
>
    decreases lines.len(),
{
    if lines.len() == 0 {
        Seq::empty()
    } else {
        collect_board_spec(lines.drop_last(), d) + (match parse_line_spec(lines.last()) {
            Option::Some(t) => if t.0 == d {
                seq![(t.1, t.2)]
            } else {
                Seq::<(Seq<char>, u32)>::empty()
            },
            Option::None => Seq::<(Seq<char>, u32)>::empty(),
        })
    }
}

/// A board stably sorted by inserting its entries, in order, each after
/// the existing entries with at most as many attempts.
pub open spec fn sort_board_spec(b: Seq<(Seq<char>, u32)>) -> Seq<(Seq<char>, u32)>
    decreases b.len(),
{
    if b.len() == 0 {
        Seq::empty()
    } else {
        insert_entry(sort_board_spec(b.drop_last()), b.last())
    }
}

/// Stable sorting sorts.
pub proof fn lemma_sort_board_sorted(b: Seq<(Seq<char>, u32)>)
    ensures
        sorted_by_attempts(sort_board_spec(b)),
        sort_board_spec(b).len() == b.len(),
    decreases b.len(),
{
    if b.len() > 0 {
        lemma_sort_board_sorted(b.drop_last());
        lemma_insert_entry_sorted(sort_board_spec(b.drop_last()), b.last());
        lemma_insert_pos(sort_board_spec(b.drop_last()), b.last().1);
        sort_board_spec(b.drop_last()).insert_ensures(
            insert_pos(sort_board_spec(b.drop_last()), b.last().1) as int,
            b.last(),
        );
    }
}

/// What loading a whole file yields for tier `d`: its recorded entries
/// in file order, stably sorted, clipped to the capacity.
pub open spec fn load_board_spec(content: Seq<char>, d: Difficulty, cap: int) -> Seq<
    (Seq<char>, u32),
> {
    clip(sort_board_spec(collect_board_spec(split_spec(content, '\n'), d)), cap)
}

/// Read one line of the persisted file; malformed lines yield `None`.
pub fn parse_line(line: &str) -> (r: Option<(Difficulty, String, u32)>)
    ensures
        r is None ==> parse_line_spec(line@) is None,
        r matches Some(t) ==> parse_line_spec(line@) == Some((t.0, t.1@, t.2)),
{
    let t = trim(line);
    if t.is_empty() {
        return None;
    }
    let mut parts = split_on(t, '|');
    if parts.len() != 3 {
        return None;
    }
    proof {
        let pv = split_spec(trim_spec(line@), '|');
        assert(parts@.map_values(|x: String| x@).len() == 3);
        assert(parts@[0]@ == pv[0]);
        assert(parts@[1]@ == pv[1]);
        assert(parts@[2]@ == pv[2]);
    }
    let d = match Difficulty::from_name(parts[0].as_str()) {
        None => {
            return None;
        },
        Some(d) => d,
    };
    let a = match parse_u32(parts[2].as_str()) {
        None => {
            return None;
        },
        Some(a) => a,
    };
    let name = parts.remove(1);
    Some((d, name, a))
}

/// One record line without its newline: `<tier name>|<player>|<attempts>`.
pub open spec fn line_body_spec(dn: Seq<char>, e: (Seq<char>, u32)) -> Seq<char> {
    dn + seq!['|'] + e.0 + seq!['|'] + dec_repr(e.1 as int)
}

/// A whole board rendered as record lines, one entry per line, in order.
pub open spec fn render_board_spec(dn: Seq<char>, b: Seq<(Seq<char>, u32)>) -> Seq<char>
    decreases b.len(),
{
    if b.len() == 0 {
        Seq::empty()
    } else {
        render_board_spec(dn, b.drop_last()) + line_body_spec(dn, b.last()) + seq!['\n']
    }
}

/// The persisted text of a whole store: every tier's lines, grouped by
/// tier in a fixed order.
pub open spec fn render_store_spec(s: LeaderboardStore) -> Seq<char> {
    render_board_spec("Easy"@, s.board_spec(Difficulty::Easy)) + render_board_spec(
        "Medium"@,
        s.board_spec(Difficulty::Medium),
    ) + render_board_spec("Hard"@, s.board_spec(Difficulty::Hard)) + render_board_spec(
        "Insane"@,
        s.board_spec(Difficulty::Insane),
    )
}

impl LeaderboardStore {
    /// Serialise the whole store into the persisted text format; the
    /// caller overwrites the old file contents with this in full.
    pub fn save(&self) -> (r: String)
        ensures
            r@ == render_store_spec(*self),
    {
        let mut out = String::new();
        append_board(&mut out, Difficulty::Easy, &self.easy);
        append_board(&mut out, Difficulty::Medium, &self.medium);
        append_board(&mut out, Difficulty::Hard, &self.hard);
        append_board(&mut out, Difficulty::Insane, &self.insane);
        out
    }

    /// Parse the persisted text into a store keeping at most `capacity`
    /// entries per tier: lines in any order, malformed lines skipped,
    /// each tier's entries stably sorted and clipped. A caller whose
    /// file is missing passes the empty string.
    pub fn load(content: &str, capacity: usize) -> (r: LeaderboardStore)
        ensures
            r.wf(),
            r.capacity == capacity,
            forall|d: Difficulty| #[trigger]
                r.board_spec(d) == load_board_spec(content@, d, capacity as int),
    {
        let lines = split_on(content, '\n');
        let ghost lviews = lines@.map_values(|t: String| t@);
        let mut easy: Vec<Entry> = Vec::new();
        let mut medium: Vec<Entry> = Vec::new();
        let mut hard: Vec<Entry> = Vec::new();
        let mut insane: Vec<Entry> = Vec::new();
        proof {
            assert(lviews.subrange(0, 0) =~= Seq::<Seq<char>>::empty());
            assert(entry_views(easy@) =~= Seq::<(Seq<char>, u32)>::empty());
            assert(entry_views(medium@) =~= Seq::<(Seq<char>, u32)>::empty());
            assert(entry_views(hard@) =~= Seq::<(Seq<char>, u32)>::empty());
            assert(entry_views(insane@) =~= Seq::<(Seq<char>, u32)>::empty());
        }
        let mut i: usize = 0;
        while i < lines.len()
            invariant
                lviews == lines@.map_values(|t: String| t@),
                i <= lines@.len(),
                entry_views(easy@) == collect_board_spec(
                    lviews.subrange(0, i as int),
                    Difficulty::Easy,
                ),
                entry_views(medium@) == collect_board_spec(
                    lviews.subrange(0, i as int),
                    Difficulty::Medium,
                ),
                entry_views(hard@) == collect_board_spec(
                    lviews.subrange(0, i as int),
                    Difficulty::Hard,
                ),
                entry_views(insane@) == collect_board_spec(
                    lviews.subrange(0, i as int),
                    Difficulty::Insane,
                ),
            decreases lines@.len() - i,
        {
            let parsed = parse_line(lines[i].as_str());
            proof {
                assert(lviews[i as int] == lines@[i as int]@);
                let p = lviews.subrange(0, i as int);
                let q = lviews.subrange(0, i as int + 1);
                assert(q.drop_last() =~= p);
                assert(q.last() == lviews[i as int]);
            }
            match parsed {
                Some((d, name, attempts)) => {
                    let entry = Entry { name, attempts };
                    let ghost ev = (entry.name@, entry.attempts);
                    match d {
                        Difficulty::Easy => {
                            let ghost before = entry_views(easy@);
                            easy.push(entry);
                            proof {
                                assert(entry_views(easy@) =~= before.push(ev));
                            }
                        },
                        Difficulty::Medium => {
                            let ghost before = entry_views(medium@);
                            medium.push(entry);
                            proof {
                                assert(entry_views(medium@) =~= before.push(ev));
                            }
                        },
                        Difficulty::Hard => {
                            let ghost before = entry_views(hard@);
                            hard.push(entry);
                            proof {
                                assert(entry_views(hard@) =~= before.push(ev));
                            }
                        },
                        Difficulty::Insane => {
                            let ghost before = entry_views(insane@);
                            insane.push(entry);
                            proof {
                                assert(entry_views(insane@) =~= before.push(ev));
                            }
                        },
                    }
                    proof {
                        let p = lviews.subrange(0, i as int);
                        let q = lviews.subrange(0, i as int + 1);
                        assert(collect_board_spec(q, d) =~= collect_board_spec(p, d) + seq![ev]);
                        assert(collect_board_spec(p, d).push(ev) =~= collect_board_spec(p, d)
                            + seq![ev]);
                        assert forall|d2: Difficulty| d2 != d implies collect_board_spec(q, d2)
                            =~= collect_board_spec(p, d2) by {}
                    }
                },
                None => {
                    proof {
                        let p = lviews.subrange(0, i as int);
                        let q = lviews.subrange(0, i as int + 1);
                        assert forall|d2: Difficulty| collect_board_spec(q, d2)
                            =~= collect_board_spec(p, d2) by {}
                    }
                },
            }
            i = i + 1;
        }
        proof {
            assert(lviews.subrange(0, lviews.len() as int) =~= lviews);
        }
        let easy = sort_clip(easy, capacity);
        let medium = sort_clip(medium, capacity);
        let hard = sort_clip(hard, capacity);
        let insane = sort_clip(insane, capacity);
        let r = LeaderboardStore { capacity, easy, medium, hard, insane };
        proof {
            assert forall|d: Difficulty| #[trigger] r.board_spec(d) == load_board_spec(
                content@,
                d,
                capacity as int,
            ) by {}
            assert(r.wf()) by {
                lemma_wf_of_sorted_boards(r, content@);
            }
        }
        r
    }
}

/// Sorting and clipping a collected board makes it well formed.
proof fn lemma_wf_of_sorted_boards(r: LeaderboardStore, content: Seq<char>)
    requires
        forall|d: Difficulty| #[trigger]
            r.board_spec(d) == load_board_spec(content, d, r.capacity as int),
    ensures
        r.wf(),
{
    assert forall|d: Difficulty| sorted_by_attempts(#[trigger] r.board_spec(d)) && r.board_spec(
        d,
    ).len() <= r.capacity by {
        let collected = collect_board_spec(split_spec(content, '\n'), d);
        lemma_sort_board_sorted(collected);
        lemma_clip_sorted(sort_board_spec(collected), r.capacity as int);
    }
}

/// Stably sort a collected board and clip it to `cap` entries.
fn sort_clip(board: Vec<Entry>, cap: usize) -> (r: Vec<Entry>)
    ensures
        entry_views(r@) == clip(sort_board_spec(entry_views(board@)), cap as int),
{
    let ghost b = entry_views(board@);
    let mut out: Vec<Entry> = Vec::new();
    proof {
        assert(b.subrange(0, 0) =~= Seq::<(Seq<char>, u32)>::empty());
        assert(entry_views(out@) =~= Seq::<(Seq<char>, u32)>::empty());
    }
    let mut i: usize = 0;
    while i < board.len()
        invariant
            b == entry_views(board@),
            i <= board@.len(),
            entry_views(out@) == sort_board_spec(b.subrange(0, i as int)),
        decreases board@.len() - i,
    {
        let e = Entry { name: board[i].name.clone(), attempts: board[i].attempts };
        proof {
            assert(b[i as int] == (board@[i as int].name@, board@[i as int].attempts));
        }
        insert_sorted(&mut out, e);
        proof {
            let p = b.subrange(0, i as int);
            let q = b.subrange(0, i as int + 1);
            assert(q.drop_last() =~= p);
            assert(q.last() == b[i as int]);
        }
        i = i + 1;
    }
    proof {
        assert(b.subrange(0, b.len() as int) =~= b);
    }
    if out.len() > cap {
        let ghost sorted = entry_views(out@);
        out.truncate(cap);
        proof {
            assert(entry_views(out@) =~= clip(sorted, cap as int));
        }
    }
    out
}

/// Append one tier's record lines to the output text.
fn append_board(out: &mut String, d: Difficulty, board: &Vec<Entry>)
    ensures
        final(out)@ == old(out)@ + render_board_spec(d.name_spec(), entry_views(board@)),
{
    let ghost b = entry_views(board@);
    let mut i: usize = 0;
    proof {
        assert(out@ =~= old(out)@ + render_board_spec(d.name_spec(), b.subrange(0, 0)));
    }
    while i < board.len()
        invariant
            b == entry_views(board@),
            i <= board@.len(),
            out@ == old(out)@ + render_board_spec(d.name_spec(), b.subrange(0, i as int)),
        decreases board@.len() - i,
    {
        proof {
            reveal_strlit("|");
            reveal_strlit("\n");
        }
        out.append(d.name());
        out.append("|");
        out.append(board[i].name.as_str());
        out.append("|");
        let num = u32_string(board[i].attempts);
        out.append(num.as_str());
        out.append("\n");
        proof {
            let p = b.subrange(0, i as int);
            let q = b.subrange(0, i as int + 1);
            assert(q.drop_last() =~= p);
            assert(q.last() == b[i as int]);
            assert(b[i as int] == (board@[i as int].name@, board@[i as int].attempts));
            assert("|"@ =~= seq!['|']);
            assert("\n"@ =~= seq!['\n']);
            assert(out@ =~= old(out)@ + render_board_spec(d.name_spec(), q));
        }
        i = i + 1;
    }
    proof {
        assert(b.subrange(0, b.len() as int) =~= b);
    }
}

/// Whether a player name can survive a save/load cycle: it must not
/// contain the field separator or a line break.
pub open spec fn name_clean(n: Seq<char>) -> bool {
    forall|j: int| 0 <= j < n.len() ==> n[j] != '|' && n[j] != '\n'
}

/// Whether every name in the store can survive a save/load cycle.
pub open spec fn storable(s: LeaderboardStore) -> bool {
    forall|d: Difficulty, i: int|
        0 <= i < s.board_spec(d).len() ==> #[trigger] name_clean(s.board_spec(d)[i].0)
}

/// The record lines of one board, without their newlines.
pub open spec fn lines_of(dn: Seq<char>, b: Seq<(Seq<char>, u32)>) -> Seq<Seq<char>> {
    b.map_values(|e: (Seq<char>, u32)| line_body_spec(dn, e))
}

/// A tier's file name is non-empty, does not start with whitespace, and
/// contains neither the field separator nor a line break.
proof fn lemma_tier_name_chars(d: Difficulty)
    ensures
        d.name_spec().len() > 0,
        !is_ws(d.name_spec()[0]),
        name_clean(d.name_spec()),
{
    reveal_strlit("Easy");
    reveal_strlit("Medium");
    reveal_strlit("Hard");
    reveal_strlit("Insane");
}

/// A record line contains no line break when the player name is clean.
proof fn lemma_line_body_no_newline(dn: Seq<char>, e: (Seq<char>, u32))
    requires
        name_clean(dn),
        name_clean(e.0),
    ensures
        forall|j: int|
            0 <= j < line_body_spec(dn, e).len() ==> #[trigger] line_body_spec(dn, e)[j] != '\n',
{
    lemma_dec_repr_digits(e.1 as int);
    let body = line_body_spec(dn, e);
    let rep = dec_repr(e.1 as int);
    assert forall|j: int| 0 <= j < body.len() implies #[trigger] body[j] != '\n' by {
        let off = dn.len() + 1 + e.0.len() + 1;
        if j >= off {
            assert(body[j] == rep[j - off]);
        }
    }
}

/// Reading back the rendered line of an entry recovers the entry.
proof fn lemma_parse_render_line(d: Difficulty, n: Seq<char>, a: u32)
    requires
        name_clean(n),
    ensures
        parse_line_spec(line_body_spec(d.name_spec(), (n, a))) == Some((d, n, a)),
{
    let dn = d.name_spec();
    let rep = dec_repr(a as int);
    let body = line_body_spec(dn, (n, a));
    lemma_tier_name_chars(d);
    lemma_dec_repr_digits(a as int);

    // The line is already trimmed: it starts with the tier name's first
    // letter and ends with a digit.
    assert(body[0] == dn[0]);
    assert(body[body.len() - 1] == rep[rep.len() - 1]);
    lemma_trim_clean(body);

    // Splitting on the separator recovers the three fields.
    assert(body =~= dn + seq!['|'] + (n + seq!['|'] + rep));
    lemma_split_concat(dn, '|', n + seq!['|'] + rep);
    lemma_split_concat(n, '|', rep);
    lemma_split_whole(rep, '|');
    assert(split_spec(body, '|') =~= seq![dn, n, rep]);

    // The two parsed fields read back as what was rendered.
    lemma_name_round_trip(d);
    lemma_parse_of_repr(a);
}

/// Splitting rendered lines off the front of a text peels them off as
/// whole segments.
proof fn lemma_split_render_board(dn: Seq<char>, b: Seq<(Seq<char>, u32)>, rest: Seq<char>)
    requires
        name_clean(dn),
        forall|i: int| 0 <= i < b.len() ==> #[trigger] name_clean(b[i].0),
    ensures
        split_spec(render_board_spec(dn, b) + rest, '\n') == lines_of(dn, b) + split_spec(
            rest,
            '\n',
        ),
    decreases b.len(),
{
    if b.len() == 0 {
        assert(render_board_spec(dn, b) + rest =~= rest);
        assert(lines_of(dn, b) + split_spec(rest, '\n') =~= split_spec(rest, '\n'));
    } else {
        let dl = b.drop_last();
        let body = line_body_spec(dn, b.last());
        assert(render_board_spec(dn, b) + rest =~= render_board_spec(dn, dl) + (body + seq!['\n']
            + rest));
        assert(forall|i: int| 0 <= i < dl.len() ==> #[trigger] name_clean(dl[i].0)) by {
            assert(forall|i: int| 0 <= i < dl.len() ==> dl[i] == b[i]);
        }
        lemma_split_render_board(dn, dl, body + seq!['\n'] + rest);
        lemma_line_body_no_newline(dn, b.last());
        lemma_split_concat(body, '\n', rest);
        assert(lines_of(dn, dl) + (seq![body] + split_spec(rest, '\n')) =~= lines_of(dn, b)
            + split_spec(rest, '\n')) by {
            assert(lines_of(dn, b) =~= lines_of(dn, dl).push(body));
        }
    }
}

/// Collection distributes over concatenation of line sequences.
proof fn lemma_collect_concat(a: Seq<Seq<char>>, b: Seq<Seq<char>>, d: Difficulty)
    ensures
        collect_board_spec(a + b, d) == collect_board_spec(a, d) + collect_board_spec(b, d),
    decreases b.len(),
{
    if b.len() == 0 {
        assert(a + b =~= a);
        assert(collect_board_spec(a, d) + collect_board_spec(b, d) =~= collect_board_spec(a, d));
    } else {
        lemma_collect_concat(a, b.drop_last(), d);
        assert((a + b).drop_last() =~= a + b.drop_last());
        assert((a + b).last() == b.last());
        assert(collect_board_spec(a + b, d) =~= collect_board_spec(a, d) + collect_board_spec(
            b,
            d,
        ));
    }
}

/// Collecting the rendered lines of tier `d` recovers exactly its board
/// on `d`, and contributes nothing to any other tier.
proof fn lemma_collect_lines_of(d: Difficulty, b: Seq<(Seq<char>, u32)>, d2: Difficulty)
    requires
        forall|i: int| 0 <= i < b.len() ==> #[trigger] name_clean(b[i].0),
    ensures
        d2 == d ==> collect_board_spec(lines_of(d.name_spec(), b), d2) == b,
        d2 != d ==> collect_board_spec(lines_of(d.name_spec(), b), d2) == Seq::<
            (Seq<char>, u32),
        >::empty(),
    decreases b.len(),
{
    let lines = lines_of(d.name_spec(), b);
    if b.len() == 0 {
        assert(lines =~= Seq::<Seq<char>>::empty());
    } else {
        let dl = b.drop_last();
        assert(forall|i: int| 0 <= i < dl.len() ==> #[trigger] name_clean(dl[i].0)) by {
            assert(forall|i: int| 0 <= i < dl.len() ==> dl[i] == b[i]);
        }
        lemma_collect_lines_of(d, dl, d2);
        lemma_parse_render_line(d, b.last().0, b.last().1);
        assert(lines.drop_last() =~= lines_of(d.name_spec(), dl));
        assert(lines.last() == line_body_spec(d.name_spec(), b.last()));
        assert(b.last() == (b.last().0, b.last().1));
        if d2 == d {
            assert(collect_board_spec(lines, d2) =~= dl + seq![b.last()]);
            assert(dl + seq![b.last()] =~= b);
        } else {
            assert(collect_board_spec(lines, d2) =~= Seq::<(Seq<char>, u32)>::empty());
        }
    }
}

/// Stable sorting leaves an already sorted board unchanged.
proof fn lemma_sort_of_sorted(b: Seq<(Seq<char>, u32)>)
    requires
        sorted_by_attempts(b),
    ensures
        sort_board_spec(b) == b,
    decreases b.len(),
{
    if b.len() > 0 {
        let dl = b.drop_last();
        assert(sorted_by_attempts(dl)) by {
            assert(forall|i: int| 0 <= i < dl.len() ==> dl[i] == b[i]);
        }
        lemma_sort_of_sorted(dl);
        lemma_insert_pos(dl, b.last().1);
        let p = insert_pos(dl, b.last().1);
        if p < dl.len() {
            assert(dl[p as int] == b[p as int]);
            assert(b[p as int].1 <= b.last().1);
            assert(false);
        }
        assert(insert_entry(dl, b.last()) =~= b) by {
            assert(dl.insert(dl.len() as int, b.last()) =~= dl.push(b.last()));
            assert(dl.push(b.last()) =~= b);
        }
    }
}

/// Idempotence of persistence: saving a well-formed store whose names
/// are storable, then loading the text at the same capacity, yields the
/// same board for every tier.
pub proof fn lemma_save_load_identity(s: LeaderboardStore)
    requires
        s.wf(),
        storable(s),
    ensures
        forall|d: Difficulty| #[trigger]
            load_board_spec(render_store_spec(s), d, s.capacity as int) == s.board_spec(d),
{
    let be = s.board_spec(Difficulty::Easy);
    let bm = s.board_spec(Difficulty::Medium);
    let bh = s.board_spec(Difficulty::Hard);
    let bi = s.board_spec(Difficulty::Insane);
    let re = render_board_spec("Easy"@, be);
    let rm = render_board_spec("Medium"@, bm);
    let rh = render_board_spec("Hard"@, bh);
    let ri = render_board_spec("Insane"@, bi);
    let content = render_store_spec(s);

    lemma_tier_name_chars(Difficulty::Easy);
    lemma_tier_name_chars(Difficulty::Medium);
    lemma_tier_name_chars(Difficulty::Hard);
    lemma_tier_name_chars(Difficulty::Insane);
    assert(Difficulty::Easy.name_spec() == "Easy"@);
    assert(Difficulty::Medium.name_spec() == "Medium"@);
    assert(Difficulty::Hard.name_spec() == "Hard"@);
    assert(Difficulty::Insane.name_spec() == "Insane"@);

    // Splitting the rendered text on newlines recovers the lines of the
    // four boards, in order, followed by one empty segment.
    let le = lines_of("Easy"@, be);
    let lm = lines_of("Medium"@, bm);
    let lh = lines_of("Hard"@, bh);
    let li = lines_of("Insane"@, bi);
    let empty_text = Seq::<char>::empty();
    assert(content =~= re + (rm + (rh + (ri + empty_text))));
    lemma_split_render_board("Easy"@, be, rm + (rh + (ri + empty_text)));
    lemma_split_render_board("Medium"@, bm, rh + (ri + empty_text));
    lemma_split_render_board("Hard"@, bh, ri + empty_text);
    lemma_split_render_board("Insane"@, bi, empty_text);
    lemma_split_whole(empty_text, '\n');
    let tail = seq![empty_text];
    assert(split_spec(content, '\n') =~= le + (lm + (lh + (li + tail))));

    // An empty segment records nothing.
    assert(collect_board_spec(tail, Difficulty::Easy) =~= Seq::<(Seq<char>, u32)>::empty()) by {
        lemma_collect_of_empty_line();
    }

    assert forall|d: Difficulty| #[trigger] load_board_spec(content, d, s.capacity as int)
        == s.board_spec(d) by {
        lemma_collect_concat(le, lm + (lh + (li + tail)), d);
        lemma_collect_concat(lm, lh + (li + tail), d);
        lemma_collect_concat(lh, li + tail, d);
        lemma_collect_concat(li, tail, d);
        lemma_collect_lines_of(Difficulty::Easy, be, d);
        lemma_collect_lines_of(Difficulty::Medium, bm, d);
        lemma_collect_lines_of(Difficulty::Hard, bh, d);
        lemma_collect_lines_of(Difficulty::Insane, bi, d);
        lemma_collect_of_empty_line();
        assert(collect_board_spec(tail, d) =~= Seq::<(Seq<char>, u32)>::empty());
        assert(collect_board_spec(split_spec(content, '\n'), d) =~= s.board_spec(d));
        lemma_sort_of_sorted(s.board_spec(d));
    }
}

/// A name parsed out of a line that contains no line break is clean: it
/// is a pipe-split segment of the trimmed line.
proof fn lemma_parsed_name_clean(line: Seq<char>)
    requires
        crate::text::avoids(line, '\n'),
    ensures
        parse_line_spec(line) matches Some(t) ==> name_clean(t.1),
{
    if parse_line_spec(line) is Some {
        let t = trim_spec(line);
        crate::text::lemma_trim_avoids(line, '\n');
        crate::text::lemma_split_parts_avoid(t, '|', '\n');
        crate::text::lemma_split_parts_clean(t, '|');
        let parts = split_spec(t, '|');
        let name = parts[1];
        assert(crate::text::avoids(name, '\n'));
        assert(forall|j: int| 0 <= j < name.len() ==> name[j] != '|');
    }
}

/// Every name collected from newline-free lines is clean.
proof fn lemma_collect_names_clean(lines: Seq<Seq<char>>, d: Difficulty)
    requires
        forall|k: int| 0 <= k < lines.len() ==> crate::text::avoids(#[trigger] lines[k], '\n'),
    ensures
        forall|i: int|
            0 <= i < collect_board_spec(lines, d).len() ==> #[trigger] name_clean(
                collect_board_spec(lines, d)[i].0,
            ),
    decreases lines.len(),
{
    if lines.len() > 0 {
        let dl = lines.drop_last();
        assert(forall|k: int| 0 <= k < dl.len() ==> crate::text::avoids(#[trigger] dl[k], '\n'))
            by {
            assert(forall|k: int| 0 <= k < dl.len() ==> dl[k] == lines[k]);
        }
        lemma_collect_names_clean(dl, d);
        lemma_parsed_name_clean(lines.last());
        let c = collect_board_spec(lines, d);
        let cd = collect_board_spec(dl, d);
        assert forall|i: int| 0 <= i < c.len() implies #[trigger] name_clean(c[i].0) by {
            if i < cd.len() {
                assert(c[i] == cd[i]);
            }
        }
    }
}

/// Stable sorting keeps every name clean.
proof fn lemma_sort_names_clean(b: Seq<(Seq<char>, u32)>)
    requires
        forall|i: int| 0 <= i < b.len() ==> #[trigger] name_clean(b[i].0),
    ensures
        forall|i: int|
            0 <= i < sort_board_spec(b).len() ==> #[trigger] name_clean(sort_board_spec(b)[i].0),
    decreases b.len(),
{
    if b.len() > 0 {
        let dl = b.drop_last();
        assert(forall|i: int| 0 <= i < dl.len() ==> #[trigger] name_clean(dl[i].0)) by {
            assert(forall|i: int| 0 <= i < dl.len() ==> dl[i] == b[i]);
        }
        lemma_sort_names_clean(dl);
        let sd = sort_board_spec(dl);
        let p = insert_pos(sd, b.last().1);
        lemma_insert_pos(sd, b.last().1);
        sd.insert_ensures(p as int, b.last());
        let r = sort_board_spec(b);
        assert forall|i: int| 0 <= i < r.len() implies #[trigger] name_clean(r[i].0) by {
            if i < p {
                assert(r[i] == sd[i]);
            } else if i == p {
                assert(r[i] == b.last());
            } else {
                assert(r[i] == sd[i - 1]);
            }
        }
    }
}

/// Whatever text is loaded, the resulting store can be saved and
/// reloaded: every loaded name is clean.
pub proof fn lemma_load_storable(r: LeaderboardStore, content: Seq<char>)
    requires
        forall|d: Difficulty| #[trigger]
            r.board_spec(d) == load_board_spec(content, d, r.capacity as int),
    ensures
        storable(r),
{
    assert forall|d: Difficulty, i: int| 0 <= i < r.board_spec(d).len() implies #[trigger]
        name_clean(r.board_spec(d)[i].0) by {
        let lines = split_spec(content, '\n');
        crate::text::lemma_split_parts_clean(content, '\n');
        lemma_collect_names_clean(lines, d);
        let collected = collect_board_spec(lines, d);
        lemma_sort_names_clean(collected);
        let sorted = sort_board_spec(collected);
        let b = r.board_spec(d);
        assert(b == clip(sorted, r.capacity as int));
        if sorted.len() > r.capacity as int {
            assert(b[i] == sorted[i]);
        }
    }
}

/// Idempotence of persistence, the other way round: a store loaded from
/// any text saves to a text that loads back as the very same boards.
pub proof fn lemma_load_save_reload(r: LeaderboardStore, content: Seq<char>)
    requires
        forall|d: Difficulty| #[trigger]
            r.board_spec(d) == load_board_spec(content, d, r.capacity as int),
    ensures
        forall|d: Difficulty| #[trigger]
            load_board_spec(render_store_spec(r), d, r.capacity as int) == r.board_spec(d),
{
    lemma_wf_of_sorted_boards(r, content);
    lemma_load_storable(r, content);
    lemma_save_load_identity(r);
}

/// A single empty line records nothing for any tier.
proof fn lemma_collect_of_empty_line()
    ensures
        forall|d: Difficulty| #[trigger]
            collect_board_spec(seq![Seq::<char>::empty()], d) == Seq::<(Seq<char>, u32)>::empty(),
{
    let tail = seq![Seq::<char>::empty()];
    assert forall|d: Difficulty| #[trigger] collect_board_spec(tail, d) == Seq::<
        (Seq<char>, u32),
    >::empty() by {
        assert(tail.drop_last() =~= Seq::<Seq<char>>::empty());
        assert(tail.last() == Seq::<char>::empty());
        assert(trim_spec(Seq::<char>::empty()) == Seq::<char>::empty());
        assert(parse_line_spec(Seq::<char>::empty()) is None);
        assert(collect_board_spec(Seq::<Seq<char>>::empty(), d) =~= Seq::<
            (Seq<char>, u32),
        >::empty());
        assert(collect_board_spec(tail, d) =~= Seq::<(Seq<char>, u32)>::empty());
    }
}

/// Insert `e` into a single board at its stable position, then clip the
/// board to `cap` entries. Returns whether the board changed.
fn insert_clip(board: &mut Vec<Entry>, e: Entry, cap: usize) -> (changed: bool)
    requires
        old(board)@.len() <= cap,
    ensures
        entry_views(final(board)@) == clip(
            insert_entry(entry_views(old(board)@), (e.name@, e.attempts)),
            cap as int,
        ),
        changed == (insert_pos(entry_views(old(board)@), e.attempts) < cap),
{
    let ghost b = entry_views(old(board)@);
    let ghost ev = (e.name@, e.attempts);
    let pos = insert_sorted(board, e);
    if board.len() > cap {
        board.truncate(cap);
        proof {
            assert(entry_views(board@) =~= clip(insert_entry(b, ev), cap as int));
        }
    }
    proof {
        assert(entry_views(board@) =~= clip(insert_entry(b, ev), cap as int));
    }
    pos < cap
}

/// Insert `e` into a single board at its stable position: after every
/// entry with at most as many attempts. Returns that position.
fn insert_sorted(board: &mut Vec<Entry>, e: Entry) -> (pos: usize)
    ensures
        pos == insert_pos(entry_views(old(board)@), e.attempts),
        entry_views(final(board)@) == insert_entry(
            entry_views(old(board)@),
            (e.name@, e.attempts),
        ),
{
    let ghost b = entry_views(old(board)@);
    let ghost ev = (e.name@, e.attempts);
    proof {
        lemma_insert_pos(b, e.attempts);
    }
    let mut pos: usize = 0;
    while pos < board.len() && board[pos].attempts <= e.attempts
        invariant
            board@ == old(board)@,
            b == entry_views(board@),
            pos <= board@.len(),
            forall|j: int| 0 <= j < pos ==> b[j].1 <= e.attempts,
        decreases board@.len() - pos,
    {
        proof {
            assert(b[pos as int] == (board@[pos as int].name@, board@[pos as int].attempts));
        }
        pos = pos + 1;
    }
    proof {
        assert(pos < board@.len() ==> b[pos as int].1 > e.attempts);
        assert(pos == insert_pos(b, e.attempts)) by {
            let p = insert_pos(b, e.attempts);
            if p < pos {
                assert(b[p as int].1 <= e.attempts);
            }
            if pos < p {
                assert(b[pos as int].1 <= e.attempts);
            }
        }
    }
    board.insert(pos, e);
    proof {
        assert(entry_views(board@) =~= insert_entry(b, ev));
    }
    pos
}

} // verus!
