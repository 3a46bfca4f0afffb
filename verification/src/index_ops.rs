//! The search index of a sheet: what it holds for given rows, how it is
//! rebuilt from them, and how it follows the edit of a single cell.

use vstd::prelude::*;
use vstd::string::*;
use vstd::hash_map::StringHashMap;
use crate::text::{cell_to_string, text_of, to_lowercase, token_of};
use crate::types::{Cell, CellPosition, CellValue, Sheet, SheetData, SheetIndex};

verus! {

/// The positions that an index lists under a token, in the order in which it
/// holds them; none where it lacks the token.
pub open spec fn bucket(index: Map<Seq<char>, Seq<CellPosition>>, token: Seq<char>) -> Seq<
    CellPosition,
> {
    if index.contains_key(token) {
        index[token]
    } else {
        Seq::empty()
    }
}

/// The token under which a cell is listed: its folded text, and none for a
/// cell whose text is empty.
pub open spec fn key_of(cell: Cell) -> Option<Seq<char>> {
    if text_of(cell).len() == 0 {
        None
    } else {
        Some(token_of(cell))
    }
}

/// Whether a cell belongs under `token`: its text is not empty and folds to
/// the token.
pub open spec fn listed_under(cell: Cell, token: Seq<char>) -> bool {
    key_of(cell) == Some(token)
}

/// The positions of the cells of one row that belong under `token`, from left
/// to right, for the row with number `r`.
pub open spec fn row_hits(row: Seq<Cell>, r: usize, token: Seq<char>) -> Seq<CellPosition>
    decreases row.len(),
{
    if row.len() == 0 {
        Seq::empty()
    } else {
        let before = row_hits(row.drop_last(), r, token);
        if listed_under(row.last(), token) {
            before.push(CellPosition { row: r, col: (row.len() - 1) as usize })
        } else {
            before
        }
    }
}

/// The positions of the cells that belong under `token`, row by row and from
/// left to right within a row.
pub open spec fn hits(rows: Seq<Seq<Cell>>, token: Seq<char>) -> Seq<CellPosition>
    decreases rows.len(),
{
    if rows.len() == 0 {
        Seq::empty()
    } else {
        hits(rows.drop_last(), token) + row_hits(rows.last(), (rows.len() - 1) as usize, token)
    }
}

/// The index that belongs to given rows: each token that some cell folds to,
/// with the positions of those cells.
pub open spec fn index_of(rows: Seq<Seq<Cell>>) -> Map<Seq<char>, Seq<CellPosition>> {
    Map::new(|token: Seq<char>| hits(rows, token).len() > 0, |token: Seq<char>| hits(rows, token))
}

/// An index with one more position at the end of a token's bucket.
pub open spec fn add_position(
    index: Map<Seq<char>, Seq<CellPosition>>,
    token: Seq<char>,
    position: CellPosition,
) -> Map<Seq<char>, Seq<CellPosition>> {
    index.insert(token, bucket(index, token).push(position))
}

/// A bucket without the position of the cell in row `row` and column `col`.
pub open spec fn without(positions: Seq<CellPosition>, row: usize, col: usize) -> Seq<
    CellPosition,
>
    decreases positions.len(),
{
    if positions.len() == 0 {
        Seq::empty()
    } else {
        let kept = without(positions.drop_last(), row, col);
        let last = positions.last();
        if last.row == row && last.col == col {
            kept
        } else {
            kept.push(last)
        }
    }
}

/// An index in which a token's bucket no longer holds the given cell; a
/// bucket that becomes empty leaves the index.
pub open spec fn drop_position(
    index: Map<Seq<char>, Seq<CellPosition>>,
    token: Seq<char>,
    row: usize,
    col: usize,
) -> Map<Seq<char>, Seq<CellPosition>> {
    if index.contains_key(token) {
        let kept = without(index[token], row, col);
        if kept.len() == 0 {
            index.remove(token)
        } else {
            index.insert(token, kept)
        }
    } else {
        index
    }
}

/// The index after the cell in row `row` and column `col` went from being
/// listed under `old_key` to being listed under `new_key`, `None` standing
/// for a cell that is not listed: unchanged where the two are the same;
/// otherwise the cell leaves the bucket of the old token and joins that of
/// the new one.
pub open spec fn index_moved(
    index: Map<Seq<char>, Seq<CellPosition>>,
    row: usize,
    col: usize,
    old_key: Option<Seq<char>>,
    new_key: Option<Seq<char>>,
) -> Map<Seq<char>, Seq<CellPosition>> {
    if old_key == new_key {
        index
    } else {
        let dropped = match old_key {
            Some(token) => drop_position(index, token, row, col),
            None => index,
        };
        match new_key {
            Some(token) => add_position(dropped, token, CellPosition { row, col }),
            None => dropped,
        }
    }
}

/// The index after the cell in row `row` and column `col` went from `old_cell`
/// to `new_cell`.
pub open spec fn index_after_edit(
    index: Map<Seq<char>, Seq<CellPosition>>,
    row: usize,
    col: usize,
    old_cell: Cell,
    new_cell: Cell,
) -> Map<Seq<char>, Seq<CellPosition>> {
    index_moved(index, row, col, key_of(old_cell), key_of(new_cell))
}

impl SheetIndex {
    /// An index that lists nothing.
    pub fn new() -> (index: Self)
        ensures
            index@ == Map::<Seq<char>, Seq<CellPosition>>::empty(),
    {
        SheetIndex::default()
    }

    /// The positions listed under `token`, in the order in which the index
    /// holds them.
    pub fn positions(&self, token: &str) -> (found: Vec<CellPosition>)
        ensures
            found@ == bucket(self@, token@),
    {
        let mut found: Vec<CellPosition> = Vec::new();
        match self.inverted_index.get(token) {
            Some(held) => {
                let mut i: usize = 0;
                while i < held.len()
                    invariant
                        i <= held.len(),
                        found@ == held@.take(i as int),
                    decreases held.len() - i,
                {
                    found.push(held[i]);
                    i = i + 1;
                }
                assert(found@ =~= held@);
            },
            None => {},
        }
        found
    }

    /// Lists `position` under `token`, after the positions already there.
    pub fn add(&mut self, token: String, position: CellPosition)
        ensures
            final(self)@ == add_position(old(self)@, token@, position),
    {
        let mut positions = self.positions(token.as_str());
        positions.push(position);
        self.inverted_index.insert(token, positions);
        assert(self@ =~= add_position(old(self)@, token@, position));
    }

    /// Takes the cell in row `row` and column `col` out of the bucket of
    /// `token`, and the token out of the index where nothing is left under it.
    pub fn remove(&mut self, token: &str, row: usize, col: usize)
        ensures
            final(self)@ == drop_position(old(self)@, token@, row, col),
    {
        let mut kept: Vec<CellPosition> = Vec::new();
        match self.inverted_index.get(token) {
            Some(held) => {
                let mut i: usize = 0;
                while i < held.len()
                    invariant
                        i <= held.len(),
                        kept@ == without(held@.take(i as int), row, col),
                    decreases held.len() - i,
                {
                    let position = held[i];
                    assert(held@.take(i + 1).drop_last() =~= held@.take(i as int));
                    if !(position.row == row && position.col == col) {
                        kept.push(position);
                    }
                    i = i + 1;
                }
                assert(held@.take(i as int) =~= held@);
            },
            None => {
                return ;
            },
        }
        if kept.len() == 0 {
            self.inverted_index.remove(token);
        } else {
            self.inverted_index.insert(String::from_str(token), kept);
        }
        assert(self@ =~= drop_position(old(self)@, token@, row, col));
    }

    /// Moves the cell in row `row` and column `col` from the bucket of
    /// `old_key` to the bucket of `new_key`, `None` standing for a cell that
    /// is not listed. Does nothing where the two keys are the same.
    pub fn reposition(
        &mut self,
        row: usize,
        col: usize,
        old_key: Option<String>,
        new_key: Option<String>,
    )
        ensures
            final(self)@ == index_moved(
                old(self)@,
                row,
                col,
                match old_key {
                    Some(token) => Some(token@),
                    None => None,
                },
                match new_key {
                    Some(token) => Some(token@),
                    None => None,
                },
            ),
    {
        let same = match (&old_key, &new_key) {
            (Some(old_token), Some(new_token)) => *old_token == *new_token,
            (None, None) => true,
            _ => false,
        };
        if same {
            return ;
        }
        match old_key {
            Some(token) => {
                self.remove(token.as_str(), row, col);
            },
            None => {},
        }
        match new_key {
            Some(token) => {
                self.add(token, CellPosition { row, col });
            },
            None => {},
        }
    }
}

/// Unfolds `row_hits` by the last of the first `c + 1` cells of a row.
proof fn lemma_row_hits_step(row: Seq<Cell>, r: usize, c: int, token: Seq<char>)
    requires
        0 <= c < row.len(),
    ensures
        row_hits(row.take(c + 1), r, token) == if listed_under(row[c], token) {
            row_hits(row.take(c), r, token).push(CellPosition { row: r, col: c as usize })
        } else {
            row_hits(row.take(c), r, token)
        },
{
    assert(row.take(c + 1).drop_last() =~= row.take(c));
}

/// Unfolds `hits` by the last of the first `r + 1` rows.
proof fn lemma_hits_step(rows: Seq<Seq<Cell>>, r: int, token: Seq<char>)
    requires
        0 <= r < rows.len(),
    ensures
        hits(rows.take(r + 1), token) == hits(rows.take(r), token) + row_hits(
            rows[r],
            r as usize,
            token,
        ),
{
    assert(rows.take(r + 1).drop_last() =~= rows.take(r));
}

/// One bucket of an index under construction.
struct Slot {
    token: String,
    positions: Vec<CellPosition>,
}

/// An index under construction: the buckets in the order in which their
/// tokens first came, and for each token the place of its bucket. A position
/// joins its bucket without the bucket being copied.
pub struct IndexBuilder {
    slots: Vec<Slot>,
    places: StringHashMap<usize>,
}

impl IndexBuilder {
    /// Each token has its place among the buckets, each bucket is the place
    /// of its token, and no bucket is empty.
    pub closed spec fn wf(&self) -> bool {
        &&& forall|t: Seq<char>| #[trigger]
            self.places@.contains_key(t) ==> self.places@[t] < self.slots.len()
                && self.slots[self.places@[t] as int].token@ == t
        &&& forall|i: int|
            0 <= i < self.slots.len() ==> self.places@.contains_key(
                (#[trigger] self.slots[i]).token@,
            ) && self.places@[self.slots[i].token@] == i && self.slots[i].positions.len() > 0
    }

    /// The positions gathered under a token so far, in the order in which
    /// they came.
    pub closed spec fn gathered(&self, token: Seq<char>) -> Seq<CellPosition> {
        if self.places@.contains_key(token) {
            self.slots[self.places@[token] as int].positions@
        } else {
            Seq::empty()
        }
    }

    /// A builder that has gathered nothing.
    pub fn new() -> (builder: Self)
        ensures
            builder.wf(),
            forall|t: Seq<char>| #[trigger] builder.gathered(t) == Seq::<CellPosition>::empty(),
    {
        IndexBuilder { slots: Vec::new(), places: StringHashMap::new() }
    }

    /// Gathers `position` under `token`, after the positions already there.
    pub fn add(&mut self, token: String, position: CellPosition)
        requires
            old(self).wf(),
        ensures
            final(self).wf(),
            forall|t: Seq<char>| #[trigger]
                final(self).gathered(t) == if t == token@ {
                    old(self).gathered(t).push(position)
                } else {
                    old(self).gathered(t)
                },
    {
        let place = match self.places.get(token.as_str()) {
            Some(at) => Some(*at),
            None => None,
        };
        match place {
            Some(at) => {
                self.slots[at].positions.push(position);
                assert forall|i: int| 0 <= i < self.slots.len() implies (
                #[trigger] self.slots[i]).token@ == old(self).slots[i].token@ by {}
            },
            None => {
                let at = self.slots.len();
                self.places.insert(token.clone(), at);
                let mut positions: Vec<CellPosition> = Vec::new();
                positions.push(position);
                self.slots.push(Slot { token, positions });
                assert forall|i: int| 0 <= i < at implies (#[trigger] self.slots[i])
                    == old(self).slots[i] by {}
                assert forall|i: int| 0 <= i < self.slots.len() implies self.places@.contains_key(
                    (#[trigger] self.slots[i]).token@,
                ) && self.places@[self.slots[i].token@] == i && self.slots[i].positions.len()
                    > 0 by {
                    if i < at {
                        assert(old(self).places@.contains_key(old(self).slots[i].token@));
                    }
                }
                assert forall|t: Seq<char>| #[trigger]
                    self.gathered(t) == if t == token@ {
                        old(self).gathered(t).push(position)
                    } else {
                        old(self).gathered(t)
                    } by {
                    if t == token@ {
                        assert(self.gathered(t) =~= Seq::<CellPosition>::empty().push(position));
                    }
                }
            },
        }
    }

    /// The index of what was gathered: each token with its positions, and no
    /// token without any.
    pub fn finish(self) -> (index: SheetIndex)
        requires
            self.wf(),
        ensures
            forall|t: Seq<char>| #[trigger] bucket(index@, t) == self.gathered(t),
            forall|t: Seq<char>| #[trigger] index@.contains_key(t) ==> index@[t].len() > 0,
    {
        let ghost full = self.slots@;
        let ghost places = self.places@;
        let mut slots = self.slots;
        let mut index = SheetIndex::new();
        while slots.len() > 0
            invariant
                slots@ == full.take(slots.len() as int),
                slots.len() <= full.len(),
                forall|t: Seq<char>| #[trigger]
                    places.contains_key(t) ==> places[t] < full.len() && full[places[t] as int].token@
                        == t,
                forall|i: int|
                    0 <= i < full.len() ==> places.contains_key((#[trigger] full[i]).token@)
                        && places[full[i].token@] == i && full[i].positions.len() > 0,
                forall|t: Seq<char>| #[trigger]
                    index@.contains_key(t) <==> (places.contains_key(t) && places[t]
                        >= slots.len()),
                forall|t: Seq<char>| #[trigger]
                    index@.contains_key(t) ==> index@[t] == full[places[t] as int].positions@,
            decreases slots.len(),
        {
            let ghost before = index@;
            let ghost last = slots.len() - 1;
            match slots.pop() {
                Some(slot) => {
                    assert(slot == full[last]);
                    let Slot { token, positions } = slot;
                    index.inverted_index.insert(token, positions);
                    assert(index@ =~= before.insert(token@, positions@));
                    assert(slots@ =~= full.take(slots.len() as int));
                },
                None => {},
            }
        }
        index
    }
}

/// Builds the index that belongs to `rows`.
pub fn build_index(rows: &Vec<Vec<CellValue>>) -> (index: SheetIndex)
    ensures
        index@ == index_of(rows.deep_view()),
{
    let ghost cells = rows.deep_view();
    let mut builder = IndexBuilder::new();
    let mut r: usize = 0;
    while r < rows.len()
        invariant
            r <= rows.len(),
            cells == rows.deep_view(),
            builder.wf(),
            forall|t: Seq<char>| #[trigger] builder.gathered(t) == hits(cells.take(r as int), t),
        decreases rows.len() - r,
    {
        let row = &rows[r];
        let mut c: usize = 0;
        assert forall|t: Seq<char>| #[trigger]
            builder.gathered(t) == hits(cells.take(r as int), t) + row_hits(
                cells[r as int].take(0),
                r,
                t,
            ) by {
            assert(hits(cells.take(r as int), t) + Seq::<CellPosition>::empty() =~= hits(
                cells.take(r as int),
                t,
            ));
        }
        while c < row.len()
            invariant
                r < rows.len(),
                c <= row.len(),
                row == &rows[r as int],
                cells == rows.deep_view(),
                builder.wf(),
                forall|t: Seq<char>| #[trigger]
                    builder.gathered(t) == hits(cells.take(r as int), t) + row_hits(
                        cells[r as int].take(c as int),
                        r,
                        t,
                    ),
            decreases row.len() - c,
        {
            let ghost before = builder;
            let ghost position = CellPosition { row: r, col: c };
            assert(cells[r as int][c as int] == row[c as int]@);
            if let Some(token) = key_of_cell(&row[c]) {
                builder.add(token, CellPosition { row: r, col: c });
                assert forall|t: Seq<char>| #[trigger]
                    builder.gathered(t) == hits(cells.take(r as int), t) + row_hits(
                        cells[r as int].take(c + 1),
                        r,
                        t,
                    ) by {
                    lemma_row_hits_step(cells[r as int], r, c as int, t);
                    assert(before.gathered(t) == hits(cells.take(r as int), t) + row_hits(
                        cells[r as int].take(c as int),
                        r,
                        t,
                    ));
                    if t == token@ {
                        assert(builder.gathered(t) =~= hits(cells.take(r as int), t) + row_hits(
                            cells[r as int].take(c as int),
                            r,
                            t,
                        ).push(position));
                    }
                }
            } else {
                assert forall|t: Seq<char>| #[trigger]
                    builder.gathered(t) == hits(cells.take(r as int), t) + row_hits(
                        cells[r as int].take(c + 1),
                        r,
                        t,
                    ) by {
                    lemma_row_hits_step(cells[r as int], r, c as int, t);
                }
            }
            c = c + 1;
        }
        assert forall|t: Seq<char>| #[trigger] builder.gathered(t) == hits(cells.take(r + 1), t) by {
            assert(cells[r as int].take(c as int) =~= cells[r as int]);
            lemma_hits_step(cells, r as int, t);
        }
        r = r + 1;
    }
    assert(cells.take(r as int) =~= cells);
    let ghost gathered = builder;
    let index = builder.finish();
    assert forall|t: Seq<char>| #[trigger]
        index@.contains_key(t) == index_of(cells).contains_key(t) && (index@.contains_key(t)
            ==> index@[t] == index_of(cells)[t]) by {
        assert(bucket(index@, t) == gathered.gathered(t));
        assert(gathered.gathered(t) == hits(cells, t));
    }
    assert(index@ =~= index_of(cells));
    index
}

/// The token under which a cell is listed, none for a cell without text.
pub fn key_of_cell(cell: &CellValue) -> (key: Option<String>)
    ensures
        match key {
            Some(token) => key_of(cell@) == Some(token@),
            None => key_of(cell@) is None,
        },
{
    let text = cell_to_string(cell);
    if text.as_str().is_empty() {
        None
    } else {
        Some(to_lowercase(text.as_str()))
    }
}

/// Recomputes the index of a sheet from its rows.
pub fn rebuild_sheet_index(sheet: &mut SheetData)
    ensures
        final(sheet)@ == (Sheet { index: index_of(old(sheet)@.rows), ..old(sheet)@ }),
{
    sheet.index = build_index(&sheet.rows);
}

/// Brings the index of a sheet up to date after the cell in row `row` and
/// column `col` went from `old_value` to `new_value`. Only the index changes.
pub fn update_cell_index(
    sheet: &mut SheetData,
    row: usize,
    col: usize,
    old_value: &CellValue,
    new_value: &CellValue,
)
    ensures
        final(sheet)@ == (Sheet {
            index: index_after_edit(old(sheet)@.index, row, col, old_value@, new_value@),
            ..old(sheet)@
        }),
{
    let old_key = key_of_cell(old_value);
    let new_key = key_of_cell(new_value);
    sheet.index.reposition(row, col, old_key, new_key);
}

} // verus!
