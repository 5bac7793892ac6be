use vstd::prelude::*;

verus! {

/// A line without its carriage return, when it ends in one.
pub open spec fn strip_cr(l: Seq<char>) -> Seq<char> {
    if l.len() > 0 && l.last() == '\r' {
        l.drop_last()
    } else {
        l
    }
}

/// Reading `s` from the left: the lines closed by a newline so far, and the
/// characters of the line still open.
pub open spec fn scan(s: Seq<char>) -> (Seq<Seq<char>>, Seq<char>)
    decreases s.len(),
{
    if s.len() == 0 {
        (seq![], seq![])
    } else {
        let prev = scan(s.drop_last());
        if s.last() == '\n' {
            (prev.0.push(strip_cr(prev.1)), seq![])
        } else {
            (prev.0, prev.1.push(s.last()))
        }
    }
}

/// The lines of a text: split at `\n` or `\r\n`; a final line ending is optional.
pub open spec fn lines_of(s: Seq<char>) -> Seq<Seq<char>> {
    let st = scan(s);
    if st.1.len() == 0 {
        st.0
    } else {
        st.0.push(st.1)
    }
}

/// The text form of a list of rows: each row followed by a newline.
pub open spec fn text_of(rows: Seq<Seq<char>>) -> Seq<char>
    decreases rows.len(),
{
    if rows.len() == 0 {
        seq![]
    } else {
        text_of(rows.drop_last()) + rows.last() + seq!['\n']
    }
}

/// A row that a line of text can carry unchanged.
pub open spec fn plain_row(r: Seq<char>) -> bool {
    &&& forall|j: int| 0 <= j < r.len() ==> r[j] != '\n'
    &&& (r.len() > 0 ==> r.last() != '\r')
}

/// The length of the longest row.
pub open spec fn max_len(rows: Seq<Seq<char>>) -> nat
    decreases rows.len(),
{
    if rows.len() == 0 {
        0
    } else {
        let m = max_len(rows.drop_last());
        if rows.last().len() > m {
            rows.last().len()
        } else {
            m
        }
    }
}

/// A row cut or padded with blanks to exactly `n` characters.
pub open spec fn fit(r: Seq<char>, n: nat) -> Seq<char> {
    Seq::new(n, |j: int| if j < r.len() { r[j] } else { ' ' })
}

/// Every row cut or padded to `n` characters.
pub open spec fn fit_all(rows: Seq<Seq<char>>, n: nat) -> Seq<Seq<char>> {
    Seq::new(rows.len(), |i: int| fit(rows[i], n))
}

/// Every row has exactly `w` characters.
pub open spec fn rectangular(rows: Seq<Seq<char>>, w: nat) -> bool {
    forall|i: int| 0 <= i < rows.len() ==> #[trigger] rows[i].len() == w
}

/// The rows of a nested vector, as sequences.
pub open spec fn rows_view(v: Seq<Vec<char>>) -> Seq<Seq<char>> {
    Seq::new(v.len(), |i: int| v[i]@)
}

/// Every row is at most as long as the longest, and some row is that long.
pub proof fn lemma_max_len_bound(rows: Seq<Seq<char>>)
    ensures
        forall|i: int| 0 <= i < rows.len() ==> #[trigger] rows[i].len() <= max_len(rows),
        rows.len() > 0 ==> exists|i: int| 0 <= i < rows.len() && #[trigger] rows[i].len() == max_len(rows),
    decreases rows.len(),
{
    if rows.len() > 0 {
        let init = rows.drop_last();
        lemma_max_len_bound(init);
        assert forall|i: int| 0 <= i < rows.len() implies #[trigger] rows[i].len() <= max_len(rows) by {
            if i < init.len() {
                assert(rows[i] == init[i]);
            }
        }
        if rows.last().len() > max_len(init) || init.len() == 0 {
            assert(rows[rows.len() - 1].len() == max_len(rows));
        } else {
            let k = choose|k: int| 0 <= k < init.len() && #[trigger] init[k].len() == max_len(init);
            assert(rows[k] == init[k]);
        }
    }
}

/// Appending characters free of newlines only extends the open line.
proof fn lemma_scan_plain(p: Seq<char>, r: Seq<char>)
    requires
        forall|j: int| 0 <= j < r.len() ==> r[j] != '\n',
    ensures
        scan(p + r) == (scan(p).0, scan(p).1 + r),
    decreases r.len(),
{
    if r.len() == 0 {
        assert(p + r =~= p);
        assert(scan(p).1 + r =~= scan(p).1);
    } else {
        let r0 = r.drop_last();
        assert((p + r).drop_last() =~= p + r0);
        assert((p + r).last() == r.last());
        lemma_scan_plain(p, r0);
        assert(scan(p).1 + r0 + seq![r.last()] =~= scan(p).1 + r);
        assert((scan(p).1 + r0).push(r.last()) =~= scan(p).1 + r);
    }
}

/// Reading back the text form of plain rows gives the rows, with no open line.
proof fn lemma_scan_text(rows: Seq<Seq<char>>)
    requires
        forall|i: int| 0 <= i < rows.len() ==> plain_row(#[trigger] rows[i]),
    ensures
        scan(text_of(rows)) == (rows, Seq::<char>::empty()),
    decreases rows.len(),
{
    if rows.len() == 0 {
        assert(scan(text_of(rows)).0 =~= rows);
    } else {
        let init = rows.drop_last();
        let last = rows.last();
        assert forall|i: int| 0 <= i < init.len() implies plain_row(#[trigger] init[i]) by {
            assert(init[i] == rows[i]);
        }
        assert(plain_row(rows[rows.len() - 1]));
        lemma_scan_text(init);
        let t = text_of(rows);
        let body = text_of(init) + last;
        assert(t.drop_last() =~= body);
        assert(t.last() == '\n');
        lemma_scan_plain(text_of(init), last);
        assert(Seq::<char>::empty() + last =~= last);
        assert(strip_cr(last) == last);
        assert(init.push(last) =~= rows);
    }
}

/// Lines read from the text form of plain rows are those rows.
pub proof fn lemma_lines_of_text(rows: Seq<Seq<char>>)
    requires
        forall|i: int| 0 <= i < rows.len() ==> plain_row(#[trigger] rows[i]),
    ensures
        lines_of(text_of(rows)) == rows,
{
    lemma_scan_text(rows);
}

/// Relies on `String::push`: the character is appended at the end.
#[verifier::external_body]
fn push_char(s: &mut String, c: char)
    ensures
        final(s)@ == old(s)@.push(c),
{
    s.push(c);
}

/// Splits a text into its lines, as `lines_of` describes.
pub fn split_lines(content: &str) -> (r: Vec<Vec<char>>)
    ensures
        rows_view(r@) == lines_of(content@),
{
    let mut rows: Vec<Vec<char>> = Vec::new();
    let mut cur: Vec<char> = Vec::new();
    for c in it: content.chars()
        invariant
            it.seq() == content@,
            rows_view(rows@) == scan(content@.take(it.index() as int)).0,
            cur@ == scan(content@.take(it.index() as int)).1,
    {
        let ghost before = content@.take(it.index() as int);
        assert(content@.take(it.index() + 1).drop_last() =~= before);
        if c == '\n' {
            let n = cur.len();
            if n > 0 && cur[n - 1] == '\r' {
                cur.pop();
            }
            rows.push(cur);
            cur = Vec::new();
            assert(rows_view(rows@) =~= scan(before).0.push(strip_cr(scan(before).1)));
        } else {
            cur.push(c);
        }
    }
    assert(content@.take(content@.len() as int) =~= content@);
    if cur.len() > 0 {
        rows.push(cur);
        assert(rows_view(rows@) =~= lines_of(content@));
    }
    rows
}

/// The text form of the rows: each row followed by a newline.
pub fn rows_to_text(rows: &Vec<Vec<char>>) -> (r: String)
    ensures
        r@ == text_of(rows_view(rows@)),
{
    let mut out = String::new();
    let mut i: usize = 0;
    while i < rows.len()
        invariant
            i <= rows.len(),
            out@ == text_of(rows_view(rows@).take(i as int)),
        decreases rows.len() - i,
    {
        let row = &rows[i];
        let ghost start = out@;
        let mut j: usize = 0;
        while j < row.len()
            invariant
                j <= row.len(),
                row == rows@[i as int],
                out@ == start + row@.take(j as int),
            decreases row.len() - j,
        {
            push_char(&mut out, row[j]);
            assert(row@.take(j as int).push(row@[j as int]) =~= row@.take(j + 1));
            j += 1;
        }
        push_char(&mut out, '\n');
        let ghost done = rows_view(rows@).take(i + 1);
        assert(done.drop_last() =~= rows_view(rows@).take(i as int));
        assert(row@.take(j as int) =~= row@);
        assert(out@ =~= text_of(done));
        i += 1;
    }
    assert(rows_view(rows@).take(i as int) =~= rows_view(rows@));
    out
}

} // verus!
