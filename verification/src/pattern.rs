//! Parser for the plaintext pattern format: lines of `.` and `O`
//! markers, with blank lines and `!`-prefixed comment lines ignored, the
//! pattern centered on the simulated board.  The parser works on bytes;
//! the markers and the whitespace it strips are ASCII.

use vstd::prelude::*;

verus! {

/// Rows of the simulated board a pattern is loaded onto.
pub const SIMULATED_ROWS: usize = 60;

/// Columns of the simulated board a pattern is loaded onto.
pub const SIMULATED_COLS: usize = 60;

/// The line separator.
pub const NEWLINE: u8 = 10;

/// The marker for a dead cell.
pub const DEAD_MARK: u8 = 46;

/// The marker for a live cell.
pub const LIVE_MARK: u8 = 79;

/// The comment prefix.
pub const COMMENT_MARK: u8 = 33;

/// ASCII whitespace, as trimmed from the ends of each line: space, tab,
/// line feed, vertical tab, form feed, carriage return.
pub open spec fn is_space(b: u8) -> bool {
    b == 32 || b == 9 || b == 10 || b == 11 || b == 12 || b == 13
}

/// The text split at every newline byte; a trailing newline yields a
/// final empty line, and empty text is one empty line.
pub open spec fn split_lines(s: Seq<u8>) -> Seq<Seq<u8>>
    decreases s.len(),
{
    if s.len() == 0 {
        seq![Seq::<u8>::empty()]
    } else if s[0] == NEWLINE {
        seq![Seq::<u8>::empty()] + split_lines(s.skip(1))
    } else {
        let rest = split_lines(s.skip(1));
        seq![seq![s[0]] + rest[0]] + rest.skip(1)
    }
}

/// Splitting yields at least one line.
pub proof fn lemma_split_lines_nonempty(s: Seq<u8>)
    ensures
        split_lines(s).len() >= 1,
    decreases s.len(),
{
    if s.len() > 0 {
        lemma_split_lines_nonempty(s.skip(1));
    }
}

/// How one more byte extends the split: a newline starts a new empty
/// line, any other byte extends the last line.
proof fn lemma_split_lines_push(s: Seq<u8>, b: u8)
    ensures
        b == NEWLINE ==> split_lines(s.push(b)) == split_lines(s) + seq![Seq::<u8>::empty()],
        b != NEWLINE ==> split_lines(s.push(b)) == split_lines(s).take(
            split_lines(s).len() - 1,
        ) + seq![split_lines(s).last().push(b)],
    decreases s.len(),
{
    lemma_split_lines_nonempty(s);
    if s.len() == 0 {
        assert(s.push(b) =~= seq![b]);
        assert(seq![b].skip(1).len() == 0);
        assert(split_lines(seq![b].skip(1)) == seq![Seq::<u8>::empty()]);
        if b == NEWLINE {
            assert(split_lines(seq![b]) =~~= split_lines(s) + seq![Seq::<u8>::empty()]);
        } else {
            assert(split_lines(seq![b]) =~~= split_lines(s).take(split_lines(s).len() - 1)
                + seq![split_lines(s).last().push(b)]);
        }
    } else {
        lemma_split_lines_push(s.skip(1), b);
        lemma_split_lines_nonempty(s.skip(1));
        assert(s.push(b)[0] == s[0]);
        assert(s.push(b).skip(1) =~= s.skip(1).push(b));
        if b == NEWLINE {
            assert(split_lines(s.push(b)) =~~= split_lines(s) + seq![Seq::<u8>::empty()]);
        } else {
            assert(split_lines(s.push(b)) =~~= split_lines(s).take(split_lines(s).len() - 1)
                + seq![split_lines(s).last().push(b)]);
        }
    }
}

/// The rows of a vector of byte rows, as sequences.
pub open spec fn byte_rows_view(v: Vec<Vec<u8>>) -> Seq<Seq<u8>> {
    v@.map_values(|r: Vec<u8>| r@)
}

/// Split the text at every newline byte.
fn split_exec(text: &[u8]) -> (lines: Vec<Vec<u8>>)
    ensures
        byte_rows_view(lines) == split_lines(text@),
{
    let n = text.len();
    let mut done: Vec<Vec<u8>> = Vec::new();
    let mut cur: Vec<u8> = Vec::new();
    let mut i: usize = 0;
    while i < n
        invariant
            n == text@.len(),
            i <= n,
            split_lines(text@.take(i as int)) == byte_rows_view(done) + seq![cur@],
        decreases n - i,
    {
        let b = text[i];
        proof {
            assert(text@.take(i + 1) =~= text@.take(i as int).push(text@[i as int]));
            lemma_split_lines_push(text@.take(i as int), b);
            lemma_split_lines_nonempty(text@.take(i as int));
        }
        if b == NEWLINE {
            done.push(cur);
            cur = Vec::new();
            proof {
                assert(split_lines(text@.take(i + 1)) =~= byte_rows_view(done) + seq![cur@]);
            }
        } else {
            let ghost old_split = split_lines(text@.take(i as int));
            cur.push(b);
            proof {
                assert(old_split.take(old_split.len() - 1) =~= byte_rows_view(done));
                assert(old_split.last() == cur@.drop_last());
                assert(split_lines(text@.take(i + 1)) =~= byte_rows_view(done) + seq![cur@]);
            }
        }
        i = i + 1;
    }
    proof {
        assert(text@.take(n as int) =~= text@);
    }
    done.push(cur);
    proof {
        assert(byte_rows_view(done) =~= split_lines(text@));
    }
    done
}

/// The line with its leading whitespace removed.
pub open spec fn trim_front(l: Seq<u8>) -> Seq<u8>
    decreases l.len(),
{
    if l.len() > 0 && is_space(l[0]) {
        trim_front(l.skip(1))
    } else {
        l
    }
}

/// The line with its trailing whitespace removed.
pub open spec fn trim_back(l: Seq<u8>) -> Seq<u8>
    decreases l.len(),
{
    if l.len() > 0 && is_space(l[l.len() - 1]) {
        trim_back(l.take(l.len() - 1))
    } else {
        l
    }
}

/// The line with whitespace removed from both ends.
pub open spec fn trim_spec(l: Seq<u8>) -> Seq<u8> {
    trim_back(trim_front(l))
}

/// Trimming the front removes exactly the whitespace prefix.
proof fn lemma_trim_front_skip(l: Seq<u8>, a: int)
    requires
        0 <= a <= l.len(),
        forall|k: int| 0 <= k < a ==> is_space(#[trigger] l[k]),
        a == l.len() || !is_space(l[a]),
    ensures
        trim_front(l) == l.skip(a),
    decreases a,
{
    if a == 0 {
        assert(l.skip(0) =~= l);
    } else {
        lemma_trim_front_skip(l.skip(1), a - 1);
        assert(l.skip(1).skip(a - 1) =~= l.skip(a));
    }
}

/// Trimming the back removes exactly the whitespace suffix.
proof fn lemma_trim_back_take(l: Seq<u8>, b: int)
    requires
        0 <= b <= l.len(),
        forall|k: int| b <= k < l.len() ==> is_space(#[trigger] l[k]),
        b == 0 || !is_space(l[b - 1]),
    ensures
        trim_back(l) == l.take(b),
    decreases l.len() - b,
{
    if b == l.len() {
        assert(l.take(b) =~= l);
    } else {
        assert(is_space(l[l.len() - 1]));
        lemma_trim_back_take(l.take(l.len() - 1), b);
        assert(l.take(l.len() - 1).take(b) =~= l.take(b));
    }
}

/// Whether the byte is ASCII whitespace.
fn is_space_b(b: u8) -> (r: bool)
    ensures
        r == is_space(b),
{
    b == 32 || b == 9 || b == 10 || b == 11 || b == 12 || b == 13
}

/// Remove whitespace from both ends of the line.
fn trim_bytes(v: &Vec<u8>) -> (r: Vec<u8>)
    ensures
        r@ == trim_spec(v@),
{
    let n = v.len();
    let mut a: usize = 0;
    while a < n && is_space_b(v[a])
        invariant
            n == v@.len(),
            a <= n,
            forall|k: int| 0 <= k < a ==> is_space(#[trigger] v@[k]),
        decreases n - a,
    {
        a = a + 1;
    }
    let mut b: usize = n;
    while b > a && is_space_b(v[b - 1])
        invariant
            n == v@.len(),
            a <= b <= n,
            forall|k: int| b <= k < n ==> is_space(#[trigger] v@[k]),
        decreases b,
    {
        b = b - 1;
    }
    let mut r: Vec<u8> = Vec::new();
    let mut k: usize = a;
    while k < b
        invariant
            n == v@.len(),
            a <= k <= b <= n,
            r@.len() == k - a,
            forall|j: int| 0 <= j < r@.len() ==> #[trigger] r@[j] == v@[a + j],
        decreases b - k,
    {
        r.push(v[k]);
        k = k + 1;
    }
    proof {
        lemma_trim_front_skip(v@, a as int);
        let f = v@.skip(a as int);
        lemma_trim_back_take(f, b - a);
        assert(f.take(b - a) =~= r@);
    }
    r
}

/// Whether a raw line survives filtering: its trimmed form is nonempty
/// and is not a comment.
pub open spec fn keep_line(l: Seq<u8>) -> bool {
    trim_spec(l).len() > 0 && trim_spec(l)[0] != COMMENT_MARK
}

/// The trimmed forms of the lines that survive filtering, in order.
pub open spec fn kept_lines(ls: Seq<Seq<u8>>) -> Seq<Seq<u8>>
    decreases ls.len(),
{
    if ls.len() == 0 {
        Seq::empty()
    } else {
        let rest = kept_lines(ls.skip(1));
        if keep_line(ls[0]) {
            seq![trim_spec(ls[0])] + rest
        } else {
            rest
        }
    }
}

/// How one more raw line extends the kept lines.
proof fn lemma_kept_lines_push(ls: Seq<Seq<u8>>, l: Seq<u8>)
    ensures
        kept_lines(ls.push(l)) == if keep_line(l) {
            kept_lines(ls).push(trim_spec(l))
        } else {
            kept_lines(ls)
        },
    decreases ls.len(),
{
    if ls.len() == 0 {
        assert(ls.push(l).skip(1) =~= Seq::<Seq<u8>>::empty());
        assert(kept_lines(ls.push(l).skip(1)) == Seq::<Seq<u8>>::empty());
        if keep_line(l) {
            assert(kept_lines(ls.push(l)) =~~= kept_lines(ls).push(trim_spec(l)));
        } else {
            assert(kept_lines(ls.push(l)) =~~= kept_lines(ls));
        }
    } else {
        assert(ls.push(l).skip(1) =~= ls.skip(1).push(l));
        lemma_kept_lines_push(ls.skip(1), l);
        if keep_line(l) {
            assert(kept_lines(ls.push(l)) =~~= kept_lines(ls).push(trim_spec(l)));
        } else {
            assert(kept_lines(ls.push(l)) =~~= kept_lines(ls));
        }
    }
}

/// A line that survives filtering appears, trimmed, among the kept lines.
proof fn lemma_kept_contains(ls: Seq<Seq<u8>>, i: int)
    requires
        0 <= i < ls.len(),
        keep_line(ls[i]),
    ensures
        exists|k: int|
            0 <= k < kept_lines(ls).len() && #[trigger] kept_lines(ls)[k] == trim_spec(ls[i]),
    decreases i,
{
    if i == 0 {
        assert(kept_lines(ls)[0] == trim_spec(ls[0]));
    } else {
        assert(ls.skip(1)[i - 1] == ls[i]);
        lemma_kept_contains(ls.skip(1), i - 1);
        let k0 = choose|k: int|
            0 <= k < kept_lines(ls.skip(1)).len() && #[trigger] kept_lines(ls.skip(1))[k]
                == trim_spec(ls.skip(1)[i - 1]);
        if keep_line(ls[0]) {
            assert(kept_lines(ls)[k0 + 1] == trim_spec(ls[i]));
        } else {
            assert(kept_lines(ls)[k0] == trim_spec(ls[i]));
        }
    }
}

/// Whether every byte of a trimmed line is a cell marker.
pub open spec fn line_valid(l: Seq<u8>) -> bool {
    forall|k: int| 0 <= k < l.len() ==> #[trigger] l[k] == DEAD_MARK || l[k] == LIVE_MARK
}

/// Decide whether every byte of the line is a cell marker.
fn line_is_valid(v: &Vec<u8>) -> (r: bool)
    ensures
        r == line_valid(v@),
{
    let n = v.len();
    let mut k: usize = 0;
    while k < n
        invariant
            n == v@.len(),
            k <= n,
            forall|j: int| 0 <= j < k ==> #[trigger] v@[j] == DEAD_MARK || v@[j] == LIVE_MARK,
        decreases n - k,
    {
        let b = v[k];
        if b != DEAD_MARK && b != LIVE_MARK {
            return false;
        }
        k = k + 1;
    }
    true
}

/// The kept pattern lines of a text.
pub open spec fn pattern_lines(text: Seq<u8>) -> Seq<Seq<u8>> {
    kept_lines(split_lines(text))
}

/// Whether every kept line holds only cell markers.
pub open spec fn lines_all_valid(ls: Seq<Seq<u8>>) -> bool {
    forall|i: int| 0 <= i < ls.len() ==> line_valid(#[trigger] ls[i])
}

/// Whether every kept line has the length of the first.
pub open spec fn lines_same_len(ls: Seq<Seq<u8>>) -> bool {
    forall|i: int| 0 <= i < ls.len() ==> #[trigger] ls[i].len() == ls[0].len()
}

/// Whether the pattern fits on the simulated board.
pub open spec fn fits_board(ls: Seq<Seq<u8>>) -> bool {
    ls.len() <= SIMULATED_ROWS && ls[0].len() <= SIMULATED_COLS
}

/// The simulated board with the pattern centered on it: a cell is live
/// exactly when it falls under a `O` marker of the centered pattern.
pub open spec fn pattern_grid(ls: Seq<Seq<u8>>) -> Seq<Seq<bool>> {
    let sy = SIMULATED_ROWS as int / 2 - ls.len() as int / 2;
    let sx = SIMULATED_COLS as int / 2 - ls[0].len() as int / 2;
    Seq::new(
        SIMULATED_ROWS as nat,
        |r: int|
            Seq::new(
                SIMULATED_COLS as nat,
                |c: int|
                    {
                        &&& sy <= r < sy + ls.len()
                        &&& sx <= c < sx + ls[0].len()
                        &&& ls[r - sy][c - sx] == LIVE_MARK
                    },
            ),
    )
}

/// Why a pattern text was rejected.
#[derive(Clone, Copy, Debug, PartialEq, Eq, Structural)]
pub enum PatternError {
    /// Some kept line holds a byte that is not `.` or `O`.
    InvalidMarker,
    /// No line survives filtering.
    NoLines,
    /// The kept lines do not all have the same length.
    InconsistentLength,
    /// The pattern is wider or taller than the simulated board.
    PatternTooLarge,
}

/// Parse the plaintext pattern format: split the text into lines, trim
/// each, drop blank and `!`-prefixed lines, demand that what is left is
/// a nonempty rectangle of `.` and `O` markers no larger than the board,
/// and return the board with the pattern centered on it.
pub fn parse_plaintext(text: &[u8]) -> (r: Result<Vec<Vec<bool>>, PatternError>)
    ensures
        ({
            let ls = pattern_lines(text@);
            &&& !lines_all_valid(ls) ==> r == Result::<Vec<Vec<bool>>, PatternError>::Err(
                PatternError::InvalidMarker,
            )
            &&& lines_all_valid(ls) && ls.len() == 0 ==> r == Result::<
                Vec<Vec<bool>>,
                PatternError,
            >::Err(PatternError::NoLines)
            &&& lines_all_valid(ls) && ls.len() > 0 && !lines_same_len(ls) ==> r == Result::<
                Vec<Vec<bool>>,
                PatternError,
            >::Err(PatternError::InconsistentLength)
            &&& lines_all_valid(ls) && ls.len() > 0 && lines_same_len(ls) && !fits_board(ls)
                ==> r == Result::<Vec<Vec<bool>>, PatternError>::Err(PatternError::PatternTooLarge)
            &&& lines_all_valid(ls) && ls.len() > 0 && lines_same_len(ls) && fits_board(ls) ==> (
            r matches Ok(cells) && crate::life::grid_view(cells) == pattern_grid(ls))
        }),
{
    let all = split_exec(text);
    let ghost full = byte_rows_view(all);
    let n = all.len();

    // read in lines, trim them, and throw out comments and blanks;
    // reject a kept line with anything but the two markers
    let mut kept: Vec<Vec<u8>> = Vec::new();
    let mut i: usize = 0;
    while i < n
        invariant
            full == byte_rows_view(all),
            full == split_lines(text@),
            n == all@.len(),
            i <= n,
            byte_rows_view(kept) == kept_lines(full.take(i as int)),
            lines_all_valid(byte_rows_view(kept)),
        decreases n - i,
    {
        let t = trim_bytes(&all[i]);
        proof {
            assert(full[i as int] == all@[i as int]@);
            assert(full.take(i + 1) =~= full.take(i as int).push(full[i as int]));
            lemma_kept_lines_push(full.take(i as int), full[i as int]);
        }
        let is_kept = t.len() > 0 && t[0] != COMMENT_MARK;
        if is_kept {
            if !line_is_valid(&t) {
                proof {
                    lemma_kept_contains(full, i as int);
                    assert(!lines_all_valid(pattern_lines(text@)));
                }
                return Err(PatternError::InvalidMarker);
            }
            kept.push(t);
            proof {
                assert(byte_rows_view(kept) =~= kept_lines(full.take(i + 1)));
                assert(lines_all_valid(byte_rows_view(kept)));
            }
        } else {
            proof {
                assert(byte_rows_view(kept) =~= kept_lines(full.take(i + 1)));
            }
        }
        i = i + 1;
    }
    proof {
        assert(full.take(n as int) =~= full);
    }
    let ghost kl = pattern_lines(text@);
    proof {
        assert(byte_rows_view(kept) == kl);
    }

    // error if there are no kept lines
    let m = kept.len();
    if m == 0 {
        return Err(PatternError::NoLines);
    }

    // ensure the length of each kept line is consistent
    let width = kept[0].len();
    let mut k: usize = 1;
    while k < m
        invariant
            kl == pattern_lines(text@),
            byte_rows_view(kept) == kl,
            lines_all_valid(kl),
            m == kept@.len(),
            width == kl[0].len(),
            1 <= k <= m,
            forall|j: int| 0 <= j < k ==> #[trigger] kl[j].len() == width,
        decreases m - k,
    {
        if kept[k].len() != width {
            proof {
                assert(kl[k as int].len() != kl[0].len());
            }
            return Err(PatternError::InconsistentLength);
        }
        k = k + 1;
    }

    // ensure the pattern fits on the board
    if width > SIMULATED_COLS || m > SIMULATED_ROWS {
        return Err(PatternError::PatternTooLarge);
    }

    // get the start column and start row that center the pattern
    let sx: usize = SIMULATED_COLS / 2 - width / 2;
    let sy: usize = SIMULATED_ROWS / 2 - m / 2;

    // build the board
    let mut cells: Vec<Vec<bool>> = Vec::new();
    let mut r: usize = 0;
    while r < SIMULATED_ROWS
        invariant
            kl == pattern_lines(text@),
            byte_rows_view(kept) == kl,
            lines_all_valid(kl),
            m == kept@.len(),
            width == kl[0].len(),
            lines_same_len(kl),
            1 <= m <= SIMULATED_ROWS,
            width <= SIMULATED_COLS,
            sx == SIMULATED_COLS as int / 2 - width as int / 2,
            sy == SIMULATED_ROWS as int / 2 - m as int / 2,
            r <= SIMULATED_ROWS,
            cells@.len() == r,
            forall|rr: int| 0 <= rr < r ==> #[trigger] cells@[rr]@ == pattern_grid(kl)[rr],
        decreases SIMULATED_ROWS - r,
    {
        let mut row: Vec<bool> = Vec::new();
        let mut c: usize = 0;
        while c < SIMULATED_COLS
            invariant
                byte_rows_view(kept) == kl,
                m == kept@.len(),
                width == kl[0].len(),
                lines_same_len(kl),
                1 <= m <= SIMULATED_ROWS,
                width <= SIMULATED_COLS,
                sx == SIMULATED_COLS as int / 2 - width as int / 2,
                sy == SIMULATED_ROWS as int / 2 - m as int / 2,
                r < SIMULATED_ROWS,
                c <= SIMULATED_COLS,
                row@.len() == c,
                forall|cc: int|
                    0 <= cc < c ==> #[trigger] row@[cc] == pattern_grid(kl)[r as int][cc],
            decreases SIMULATED_COLS - c,
        {
            let v = r >= sy && r < sy + m && c >= sx && c < sx + width && {
                proof {
                    assert(kl[r - sy] == kept@[r - sy]@);
                    assert(kl[r - sy].len() == kl[0].len());
                }
                kept[r - sy][c - sx] == LIVE_MARK
            };
            proof {
                assert(pattern_grid(kl)[r as int][c as int] == v);
            }
            row.push(v);
            c = c + 1;
        }
        proof {
            assert(row@ =~= pattern_grid(kl)[r as int]);
        }
        cells.push(row);
        r = r + 1;
    }
    proof {
        assert(crate::life::grid_view(cells) =~~= pattern_grid(kl));
    }
    Ok(cells)
}

} // verus!
