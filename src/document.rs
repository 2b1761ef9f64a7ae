use crate::position::Position;
use crate::row::{Row, absent, chars_of, first_occurrence_at, lemma_encode_concat, occurs_at};
use vstd::utf8::{decode_utf8, encode_utf8, encode_utf8_decode_utf8};
use vstd::prelude::*;

verus! {

/// Number of characters before the first `'\n'` of `s` (all of `s` if none).
pub open spec fn line_len(s: Seq<char>) -> nat
    decreases s.len(),
{
    if s.len() == 0 || s[0] == '\n' {
        0
    } else {
        1 + line_len(s.drop_first())
    }
}

/// A line that was ended by `'\n'` loses one `'\r'` just before it.
pub open spec fn strip_cr(l: Seq<char>) -> Seq<char> {
    if l.len() > 0 && l.last() == '\r' {
        l.drop_last()
    } else {
        l
    }
}

/// The lines of a text: split at each `'\n'` (or `"\r\n"`); a final line
/// ending adds no empty line.
pub open spec fn lines_of(s: Seq<char>) -> Seq<Seq<char>>
    decreases s.len(),
{
    if s.len() == 0 {
        Seq::empty()
    } else {
        let n = line_len(s) as int;
        if n < s.len() {
            seq![strip_cr(s.subrange(0, n))] + lines_of(s.subrange(n + 1, s.len() as int))
        } else {
            seq![s]
        }
    }
}

/// The text of a file holding `rows`: each row followed by `'\n'`.
pub open spec fn file_text(rows: Seq<Seq<char>>) -> Seq<char>
    decreases rows.len(),
{
    if rows.len() == 0 {
        Seq::empty()
    } else {
        rows[0] + seq!['\n'] + file_text(rows.drop_first())
    }
}

/// One step of the line scan: the split at the first line end of `s.skip(i)`.
proof fn lemma_lines_step(s: Seq<char>, i: int, j: int)
    requires
        0 <= i < s.len(),
        i <= j <= s.len(),
        line_len(s.subrange(i, s.len() as int)) == j - i,
    ensures
        j < s.len() ==> lines_of(s.subrange(i, s.len() as int)) == seq![
            strip_cr(s.subrange(i, j)),
        ] + lines_of(s.subrange(j + 1, s.len() as int)),
        j == s.len() ==> lines_of(s.subrange(i, s.len() as int)) == seq![s.subrange(i, j)],
{
    let t = s.subrange(i, s.len() as int);
    assert(t.subrange(0, j - i) =~= s.subrange(i, j));
    if j < s.len() {
        assert(t.subrange(j - i + 1, t.len() as int) =~= s.subrange(j + 1, s.len() as int));
    }
}

/// The characters of a file name, if there is one.
pub open spec fn name_of(f: &Option<String>) -> Option<Seq<char>> {
    match f {
        Some(n) => Some(n@),
        None => None,
    }
}

/// The text being edited: its rows, the file it belongs to, and whether it
/// holds changes that were not saved.
pub struct Document {
    pub filename: Option<String>,
    rows: Vec<Row>,
    dirty: bool,
}

impl Document {
    /// The characters of each row, in order.
    pub closed spec fn lines(&self) -> Seq<Seq<char>> {
        self.rows@.map_values(|r: Row| r@)
    }

    /// The name of the file the document belongs to.
    pub closed spec fn file_name(&self) -> Option<Seq<char>> {
        name_of(&self.filename)
    }

    /// Whether the document was changed since it was opened or last saved.
    pub closed spec fn spec_dirty(&self) -> bool {
        self.dirty
    }

    /// A document that belongs to no file and has no rows.
    pub fn default() -> (r: Document)
        ensures
            r.lines() == Seq::<Seq<char>>::empty(),
            r.file_name() is None,
            !r.spec_dirty(),
    {
        let d = Document { filename: None, rows: Vec::new(), dirty: false };
        assert(d.lines() =~= Seq::<Seq<char>>::empty());
        d
    }

    /// The document for `filename`, whose file held `contents`, or `None`
    /// where it could not be read: then the document starts with no rows.
    pub fn open(filename: &str, contents: Option<&str>) -> (r: Document)
        ensures
            r.file_name() == Some(filename@),
            !r.spec_dirty(),
            r.lines() == match contents {
                Some(c) => lines_of(c@),
                None => Seq::<Seq<char>>::empty(),
            },
    {
        let rows = match contents {
            Some(c) => rows_of(&chars_of(c)),
            None => Vec::new(),
        };
        let d = Document { filename: Some(filename.to_owned()), rows, dirty: false };
        assert(d.lines() =~= match contents {
            Some(c) => lines_of(c@),
            None => Seq::<Seq<char>>::empty(),
        });
        d
    }

    pub fn is_dirty(&self) -> (r: bool)
        ensures
            r == self.spec_dirty(),
    {
        self.dirty
    }

    pub fn len(&self) -> (r: usize)
        ensures
            r == self.lines().len(),
    {
        self.rows.len()
    }

    /// The row at index `i`, if there is one.
    pub fn row(&self, i: u16) -> (r: Option<&Row>)
        ensures
            match r {
                Some(row) => i < self.lines().len() && row@ == self.lines()[i as int],
                None => i >= self.lines().len(),
            },
    {
        if (i as usize) < self.rows.len() {
            Some(&self.rows[i as usize])
        } else {
            None
        }
    }

    /// Whether the document belongs to a file.
    pub fn has_filename(&self) -> (r: bool)
        ensures
            r == self.file_name() is Some,
    {
        self.filename.is_some()
    }

    /// The characters of the name of the file the document belongs to.
    pub fn name_chars(&self) -> (r: Option<Vec<char>>)
        ensures
            match r {
                Some(n) => self.file_name() == Some(n@),
                None => self.file_name() is None,
            },
    {
        match &self.filename {
            Some(n) => Some(chars_of(n.as_str())),
            None => None,
        }
    }

    /// Binds the document to the file `name`.
    pub fn set_filename(&mut self, name: String)
        ensures
            final(self).file_name() == Some(name@),
            final(self).lines() == old(self).lines(),
            final(self).spec_dirty() == old(self).spec_dirty(),
    {
        self.filename = Some(name);
    }

    /// Inserts `ch` at `position`, with the column clamped to the row; where
    /// the position lies past the last row, `ch` becomes a new last row.
    pub fn insert(&mut self, ch: char, position: &Position)
        ensures
            final(self).spec_dirty(),
            final(self).file_name() == old(self).file_name(),
            final(self).lines() == inserted(old(self).lines(), ch, position.x as int, position.y as int),
    {
        self.dirty = true;
        let y = position.y as usize;
        if y < self.rows.len() {
            let len = self.rows[y].len();
            let at = if (position.x as usize) < len { position.x as usize } else { len };
            self.rows[y].insert(ch, at);
        } else {
            let mut row = Row::default();
            row.insert(ch, 0);
            assert(row@ =~= seq![ch]);
            self.rows.push(row);
        }
        assert(self.lines() =~= inserted(old(self).lines(), ch, position.x as int, position.y as int));
    }

    /// Breaks the line at `at`: the part of row `at.y` from column `at.x`
    /// (clamped to the row) becomes a new row just after it. At the row past
    /// the last one, adds an empty row; further down, does nothing.
    pub fn insert_newline(&mut self, at: &Position)
        ensures
            final(self).file_name() == old(self).file_name(),
            at.y > old(self).lines().len() ==> *final(self) == *old(self),
            at.y <= old(self).lines().len() ==> final(self).spec_dirty(),
            final(self).lines() == newline_inserted(old(self).lines(), at.x as int, at.y as int),
    {
        let y = at.y as usize;
        if y > self.rows.len() {
            return;
        }
        self.dirty = true;
        if y == self.rows.len() {
            self.rows.push(Row::default());
        } else {
            let len = self.rows[y].len();
            let x = if (at.x as usize) < len { at.x as usize } else { len };
            let row = self.rows[y].split(x);
            self.rows.insert(y + 1, row);
        }
        assert(self.lines() =~= newline_inserted(old(self).lines(), at.x as int, at.y as int));
    }

    /// Deletes the character at `at`. At the end of a row that has a row
    /// after it, joins that next row onto it. Past the last row, does nothing.
    pub fn delete(&mut self, at: &Position)
        ensures
            final(self).file_name() == old(self).file_name(),
            at.y >= old(self).lines().len() ==> *final(self) == *old(self),
            at.y < old(self).lines().len() ==> final(self).spec_dirty(),
            final(self).lines() == deleted(old(self).lines(), at.x as int, at.y as int),
    {
        let y = at.y as usize;
        if y >= self.rows.len() {
            return;
        }
        self.dirty = true;
        if at.x as usize == self.rows[y].len() && y < self.rows.len() - 1 {
            let next = self.rows.remove(y + 1);
            self.rows[y].append(&next);
        } else {
            self.rows[y].delete(at.x as usize);
        }
        assert(self.lines() =~= deleted(old(self).lines(), at.x as int, at.y as int));
    }

    /// Marks the document as saved and returns the bytes that its file is to
    /// hold (every row followed by a line feed), or `None` where the document
    /// belongs to no file.
    pub fn save(&mut self) -> (r: Option<Vec<u8>>)
        ensures
            !final(self).spec_dirty(),
            final(self).lines() == old(self).lines(),
            final(self).file_name() == old(self).file_name(),
            match r {
                Some(bytes) => old(self).file_name() is Some
                    && bytes@ == encode_utf8(file_text(old(self).lines())),
                None => old(self).file_name() is None,
            },
    {
        let r = if self.filename.is_some() {
            Some(self.contents())
        } else {
            None
        };
        self.dirty = false;
        r
    }

    /// The UTF-8 bytes of every row, each followed by a line feed.
    pub fn contents(&self) -> (r: Vec<u8>)
        ensures
            r@ == encode_utf8(file_text(self.lines())),
    {
        let mut out: Vec<u8> = Vec::new();
        let mut i: usize = 0;
        proof {
            assert(self.lines().subrange(0, 0) =~= Seq::<Seq<char>>::empty());
            assert(file_text(Seq::<Seq<char>>::empty()) =~= Seq::<char>::empty());
            assert(encode_utf8(Seq::<char>::empty()) =~= Seq::<u8>::empty());
        }
        while i < self.rows.len()
            invariant
                i <= self.lines().len(),
                self.lines().len() == self.rows@.len(),
                out@ == encode_utf8(file_text(self.lines().subrange(0, i as int))),
            decreases self.rows@.len() - i,
        {
            let mut bytes = self.rows[i].as_bytes();
            out.append(&mut bytes);
            out.push(10u8);
            proof {
                let prev = self.lines().subrange(0, i as int);
                let row = self.lines()[i as int];
                lemma_file_text_push(prev, row);
                assert(self.lines().subrange(0, i + 1) =~= prev.push(row));
                lemma_encode_concat(file_text(prev), row + seq!['\n']);
                lemma_encode_concat(row, seq!['\n']);
                assert(seq!['\n'].drop_first() =~= Seq::<char>::empty());
                assert(('\n' as u32) == 10u32);
                assert((10u32 & 0x7Fu32) == 10u32) by (bit_vector);
                assert(encode_utf8(Seq::<char>::empty()) =~= Seq::<u8>::empty());
                assert(encode_utf8(seq!['\n']) =~= seq![10u8]);
                assert(file_text(prev) + row + seq!['\n'] =~= file_text(prev) + (row + seq!['\n']));
            }
            i = i + 1;
            assert(out@ =~= encode_utf8(file_text(self.lines().subrange(0, i as int))));
        }
        assert(self.lines().subrange(0, i as int) =~= self.lines());
        out
    }

    /// The position of the first occurrence of `query`, scanning the rows in
    /// order and each row from the left. `None` where the query occurs in no
    /// row, or where that first occurrence lies beyond what a position holds.
    pub fn find(&self, query: &str) -> (r: Option<Position>)
        ensures
            match r {
                Some(p) => found_at(self.lines(), query@, p.x as int, p.y as int),
                None => forall|x: int, y: int|
                    #[trigger] found_at(self.lines(), query@, x, y) ==> (x > u16::MAX || y
                        > u16::MAX),
            },
    {
        self.find_chars(&chars_of(query))
    }

    /// As `find`, for a query given as characters.
    pub fn find_chars(&self, q: &Vec<char>) -> (r: Option<Position>)
        ensures
            match r {
                Some(p) => found_at(self.lines(), q@, p.x as int, p.y as int),
                None => forall|x: int, y: int|
                    #[trigger] found_at(self.lines(), q@, x, y) ==> (x > u16::MAX || y
                        > u16::MAX),
            },
    {
        let mut y: usize = 0;
        while y < self.rows.len()
            invariant
                y <= self.lines().len(),
                self.lines().len() == self.rows@.len(),
                                forall|k: int| 0 <= k < y ==> absent(#[trigger] self.lines()[k], q@),
            decreases self.rows@.len() - y,
        {
            match self.rows[y].find(q) {
                Some(x) => {
                    if x <= 0xFFFF && y <= 0xFFFF {
                        return Some(Position::new(x as u16, y as u16));
                    } else {
                        proof {
                            assert forall|a: int, b: int| #[trigger]
                                found_at(self.lines(), q@, a, b) implies (a > u16::MAX || b
                                > u16::MAX) by {
                                if b < y {
                                    assert(occurs_at(self.lines()[b], q@, a));
                                } else if b > y {
                                    assert(occurs_at(self.lines()[y as int], q@, x as int));
                                } else {
                                    lemma_first_unique(self.lines()[b], q@, a, x as int);
                                }
                            }
                        }
                        return None;
                    }
                },
                None => {},
            }
            y = y + 1;
        }
        proof {
            assert forall|a: int, b: int| #[trigger]
                found_at(self.lines(), q@, a, b) implies (a > u16::MAX || b > u16::MAX) by {
                assert(occurs_at(self.lines()[b], q@, a));
            }
        }
        None
    }
}

proof fn lemma_first_unique(s: Seq<char>, q: Seq<char>, a: int, b: int)
    requires
        first_occurrence_at(s, q, a),
        first_occurrence_at(s, q, b),
    ensures
        a == b,
{
}

/// The first occurrence of `q`, in row order and then column order, starts
/// at column `x` of row `y`.
pub open spec fn found_at(rows: Seq<Seq<char>>, q: Seq<char>, x: int, y: int) -> bool {
    &&& 0 <= y < rows.len()
    &&& first_occurrence_at(rows[y], q, x)
    &&& forall|k: int| 0 <= k < y ==> absent(#[trigger] rows[k], q)
}

proof fn lemma_file_text_push(rows: Seq<Seq<char>>, row: Seq<char>)
    ensures
        file_text(rows.push(row)) == file_text(rows) + row + seq!['\n'],
    decreases rows.len(),
{
    if rows.len() == 0 {
        assert(rows.push(row).drop_first() =~= Seq::<Seq<char>>::empty());
        assert(file_text(Seq::<Seq<char>>::empty()) =~= Seq::<char>::empty());
        assert(file_text(rows) =~= Seq::<char>::empty());
        assert(file_text(rows.push(row)) =~= file_text(rows) + row + seq!['\n']);
    } else {
        assert(rows.push(row).drop_first() =~= rows.drop_first().push(row));
        lemma_file_text_push(rows.drop_first(), row);
        assert(file_text(rows.push(row)) =~= file_text(rows) + row + seq!['\n']);
    }
}

/// A row that a file holds back exactly: no line feed inside, and no
/// carriage return at its end.
pub open spec fn storable(row: Seq<char>) -> bool {
    &&& forall|i: int| 0 <= i < row.len() ==> row[i] != '\n'
    &&& (row.len() > 0 ==> row.last() != '\r')
}

/// A row with neither line feed nor carriage return.
pub open spec fn plain(row: Seq<char>) -> bool {
    forall|i: int| 0 <= i < row.len() ==> row[i] != '\n' && row[i] != '\r'
}

/// Typing a character other than a line feed or carriage return, breaking a
/// row and deleting all keep every row plain, and plain rows are stored back
/// exactly: so after any such edits, saving and reloading gives the edited
/// rows.
pub proof fn lemma_edits_keep_rows_plain(rows: Seq<Seq<char>>, ch: char, x: int, y: int)
    requires
        forall|k: int| 0 <= k < rows.len() ==> plain(#[trigger] rows[k]),
        ch != '\n' && ch != '\r',
        0 <= x,
        0 <= y,
    ensures
        forall|k: int|
            0 <= k < inserted(rows, ch, x, y).len() ==> plain(#[trigger] inserted(rows, ch, x, y)[k]),
        forall|k: int|
            0 <= k < newline_inserted(rows, x, y).len() ==> plain(
                #[trigger] newline_inserted(rows, x, y)[k],
            ),
        forall|k: int|
            0 <= k < deleted(rows, x, y).len() ==> plain(#[trigger] deleted(rows, x, y)[k]),
        forall|k: int| 0 <= k < rows.len() ==> storable(#[trigger] rows[k]),
{
    assert forall|k: int| 0 <= k < rows.len() implies storable(#[trigger] rows[k]) by {
        assert(plain(rows[k]));
        if rows[k].len() > 0 {
            assert(rows[k].last() == rows[k][rows[k].len() - 1]);
        }
    }
    if 0 <= y < rows.len() {
        let r = rows[y];
        assert(plain(r));
        let at = if x < r.len() { x } else { r.len() as int };
        let r2 = r.insert(at, ch);
        assert forall|i: int| 0 <= i < r2.len() implies r2[i] != '\n' && r2[i] != '\r' by {
            if i < at {
                assert(r2[i] == r[i]);
            } else if i > at {
                assert(r2[i] == r[i - 1]);
            }
        }
        assert(plain(r2));
        let lo = r.subrange(0, at);
        let hi = r.subrange(at, r.len() as int);
        assert(plain(lo));
        assert(plain(hi));
        if x == r.len() && y + 1 < rows.len() {
            let m = r + rows[y + 1];
            assert(plain(rows[y + 1]));
            assert forall|i: int| 0 <= i < m.len() implies m[i] != '\n' && m[i] != '\r' by {
                if i >= r.len() {
                    assert(m[i] == rows[y + 1][i - r.len()]);
                }
            }
        } else if 0 <= x < r.len() {
            let d = r.remove(x);
            assert forall|i: int| 0 <= i < d.len() implies d[i] != '\n' && d[i] != '\r' by {
                if i < x {
                    assert(d[i] == r[i]);
                } else {
                    assert(d[i] == r[i + 1]);
                }
            }
        }
    } else {
        assert(plain(seq![ch]));
    }
    assert(plain(Seq::<char>::empty()));
}

proof fn lemma_line_len_of_row(row: Seq<char>, rest: Seq<char>)
    requires
        forall|i: int| 0 <= i < row.len() ==> row[i] != '\n',
    ensures
        line_len(row + seq!['\n'] + rest) == row.len(),
    decreases row.len(),
{
    let t = row + seq!['\n'] + rest;
    if row.len() > 0 {
        assert(t.drop_first() =~= row.drop_first() + seq!['\n'] + rest);
        lemma_line_len_of_row(row.drop_first(), rest);
    } else {
        assert(t[0] == '\n');
    }
}

/// Saving rows and reading the file back gives the same rows, for rows that
/// hold no line feed and do not end in a carriage return.
pub proof fn lemma_save_then_reload(rows: Seq<Seq<char>>)
    requires
        forall|k: int| 0 <= k < rows.len() ==> storable(#[trigger] rows[k]),
    ensures
        lines_of(decode_utf8(encode_utf8(file_text(rows)))) == rows,
{
    encode_utf8_decode_utf8(file_text(rows));
    lemma_lines_of_file_text(rows);
}

proof fn lemma_lines_of_file_text(rows: Seq<Seq<char>>)
    requires
        forall|k: int| 0 <= k < rows.len() ==> storable(#[trigger] rows[k]),
    ensures
        lines_of(file_text(rows)) == rows,
    decreases rows.len(),
{
    if rows.len() == 0 {
        assert(file_text(rows).len() == 0);
        assert(lines_of(file_text(rows)) =~= rows);
    } else {
        let row = rows[0];
        let rest = file_text(rows.drop_first());
        let t = file_text(rows);
        assert(storable(rows[0]));
        assert(t == row + seq!['\n'] + rest);
        lemma_line_len_of_row(row, rest);
        assert(t.subrange(0, row.len() as int) =~= row);
        assert(t.subrange(row.len() + 1int, t.len() as int) =~= rest);
        assert forall|k: int| 0 <= k < rows.drop_first().len() implies storable(
            #[trigger] rows.drop_first()[k],
        ) by {
            assert(rows.drop_first()[k] == rows[k + 1]);
        }
        lemma_lines_of_file_text(rows.drop_first());
        assert(strip_cr(row) == row);
        assert(lines_of(t) =~= rows);
    }
}

/// Breaking a row that has a row after it at its end, then deleting at the
/// start of the new empty row, gives back the rows from before.
pub proof fn lemma_newline_then_delete_below(rows: Seq<Seq<char>>, y: int)
    requires
        0 <= y,
        y + 1 < rows.len(),
    ensures
        deleted(newline_inserted(rows, rows[y].len() as int, y), 0, y + 1) == rows,
{
    let n = newline_inserted(rows, rows[y].len() as int, y);
    assert(rows[y].subrange(0, rows[y].len() as int) =~= rows[y]);
    assert(n[y + 1] =~= Seq::<char>::empty());
    assert(n[y + 1] + n[y + 2] =~= rows[y + 1]);
    assert(deleted(n, 0, y + 1) =~= rows);
}

/// Breaking a row at any column, then deleting at the end of the kept part,
/// joins the two parts and gives back the rows from before.
pub proof fn lemma_newline_then_delete_at_break(rows: Seq<Seq<char>>, x: int, y: int)
    requires
        0 <= y < rows.len(),
        0 <= x <= rows[y].len(),
    ensures
        deleted(newline_inserted(rows, x, y), x, y) == rows,
{
    let n = newline_inserted(rows, x, y);
    assert(n[y] + n[y + 1] =~= rows[y]);
    assert(deleted(n, x, y) =~= rows);
}

/// Deleting at the end of the last row changes no row.
pub proof fn lemma_delete_at_end_of_last_row(rows: Seq<Seq<char>>)
    requires
        rows.len() > 0,
    ensures
        deleted(rows, rows.last().len() as int, rows.len() - 1) == rows,
{
}

/// The rows after inserting `ch` at column `x` of row `y`.
pub open spec fn inserted(rows: Seq<Seq<char>>, ch: char, x: int, y: int) -> Seq<Seq<char>> {
    if 0 <= y < rows.len() {
        let at = if x < rows[y].len() { x } else { rows[y].len() as int };
        rows.update(y, rows[y].insert(at, ch))
    } else {
        rows.push(seq![ch])
    }
}

/// The rows after breaking row `y` at column `x`.
pub open spec fn newline_inserted(rows: Seq<Seq<char>>, x: int, y: int) -> Seq<Seq<char>> {
    if y > rows.len() {
        rows
    } else if y == rows.len() {
        rows.push(Seq::empty())
    } else {
        let at = if x < rows[y].len() { x } else { rows[y].len() as int };
        rows.update(y, rows[y].subrange(0, at)).insert(
            y + 1,
            rows[y].subrange(at, rows[y].len() as int),
        )
    }
}

/// The rows after a forward delete at column `x` of row `y`.
pub open spec fn deleted(rows: Seq<Seq<char>>, x: int, y: int) -> Seq<Seq<char>> {
    if y >= rows.len() {
        rows
    } else if x == rows[y].len() && y + 1 < rows.len() {
        rows.update(y, rows[y] + rows[y + 1]).remove(y + 1)
    } else if x < rows[y].len() {
        rows.update(y, rows[y].remove(x))
    } else {
        rows
    }
}

/// Splits a text into rows, one per line.
fn rows_of(s: &Vec<char>) -> (r: Vec<Row>)
    ensures
        r@.map_values(|row: Row| row@) == lines_of(s@),
{
    let n = s.len();
    let mut rows: Vec<Row> = Vec::new();
    let mut i: usize = 0;
    assert(s@.subrange(0, n as int) =~= s@);
    assert(rows@.map_values(|row: Row| row@) =~= Seq::<Seq<char>>::empty());
    assert(Seq::<Seq<char>>::empty() + lines_of(s@) =~= lines_of(s@));
    while i < n
        invariant
            n == s@.len(),
            i <= n,
            rows@.map_values(|row: Row| row@) + lines_of(s@.subrange(i as int, n as int)) == lines_of(s@),
        decreases n - i,
    {
        let mut j: usize = i;
        while j < n && s[j] != '\n'
            invariant
                n == s@.len(),
                i <= j <= n,
                i < n,
                line_len(s@.subrange(i as int, n as int)) == (j - i) + line_len(s@.subrange(j as int, n as int)),
            decreases n - j,
        {
            assert(s@.subrange(j as int, n as int).drop_first() =~= s@.subrange(j + 1, n as int));
            j = j + 1;
        }
        let end: usize = if j < n && j > i && s[j - 1] == '\r' { j - 1 } else { j };
        let mut line: Vec<char> = Vec::new();
        let mut k: usize = i;
        while k < end
            invariant
                n == s@.len(),
                i <= k <= end <= n,
                line@ == s@.subrange(i as int, k as int),
            decreases end - k,
        {
            line.push(s[k]);
            k = k + 1;
            assert(line@ =~= s@.subrange(i as int, k as int));
        }
        proof {
            lemma_lines_step(s@, i as int, j as int);
            if j < n {
                assert(strip_cr(s@.subrange(i as int, j as int)) =~= line@);
            } else {
                assert(line@ =~= s@.subrange(i as int, j as int));
            }
        }
        let ghost before = rows@;
        rows.push(Row::from_chars(line));
        assert(rows@.map_values(|row: Row| row@) =~= before.map_values(|row: Row| row@).push(line@));
        if j < n {
            i = j + 1;
        } else {
            i = n;
            assert(lines_of(s@.subrange(n as int, n as int)) =~= Seq::<Seq<char>>::empty()) by {
                assert(s@.subrange(n as int, n as int).len() == 0);
            }
        }
        assert(rows@.map_values(|row: Row| row@) + lines_of(s@.subrange(i as int, n as int)) =~= lines_of(s@));
    }
    assert(s@.subrange(n as int, n as int).len() == 0);
    assert(rows@.map_values(|row: Row| row@) =~= lines_of(s@));
    rows
}

} // verus!
