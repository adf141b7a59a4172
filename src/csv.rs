use vstd::prelude::*;
use vstd::string::StringExecFns;

verus! {

/// One exported trial, its real-valued fields already rendered as text.
pub struct CsvRow {
    pub p_value: String,
    pub effect_size: String,
    pub ci_lower: String,
    pub ci_upper: String,
    pub s_value: String,
    pub significant: bool,
}

/// The first line of every export.
pub open spec fn header_line() -> Seq<char> {
    "simulation_id,p_value,effect_size,ci_lower,ci_upper,s_value,significant\n"@
}

pub open spec fn digit_text(d: nat) -> Seq<char> {
    if d == 0 {
        "0"@
    } else if d == 1 {
        "1"@
    } else if d == 2 {
        "2"@
    } else if d == 3 {
        "3"@
    } else if d == 4 {
        "4"@
    } else if d == 5 {
        "5"@
    } else if d == 6 {
        "6"@
    } else if d == 7 {
        "7"@
    } else if d == 8 {
        "8"@
    } else {
        "9"@
    }
}

/// Decimal notation of `n`, without leading zeros.
pub open spec fn decimal(n: nat) -> Seq<char>
    decreases n,
{
    if n < 10 {
        digit_text(n)
    } else {
        decimal(n / 10) + digit_text(n % 10)
    }
}

pub open spec fn bool_text(b: bool) -> Seq<char> {
    if b {
        "true"@
    } else {
        "false"@
    }
}

/// The line of the trial numbered `id`.
pub open spec fn row_line(id: nat, row: CsvRow) -> Seq<char> {
    decimal(id) + ","@ + row.p_value@ + ","@ + row.effect_size@ + ","@ + row.ci_lower@ + ","@
        + row.ci_upper@ + ","@ + row.s_value@ + ","@ + bool_text(row.significant) + "\n"@
}

/// The lines of the first `k` rows, numbered from 1.
pub open spec fn rows_text(rows: Seq<CsvRow>, k: int) -> Seq<char>
    decreases k,
{
    if k <= 0 {
        Seq::empty()
    } else {
        rows_text(rows, k - 1) + row_line(k as nat, rows[k - 1])
    }
}

/// The whole export of `rows`.
pub open spec fn csv_spec(rows: Seq<CsvRow>) -> Seq<char> {
    header_line() + rows_text(rows, rows.len() as int)
}

fn push_digit(s: &mut String, d: usize)
    requires
        d < 10,
    ensures
        final(s)@ == old(s)@ + digit_text(d as nat),
{
    let t = if d == 0 {
        "0"
    } else if d == 1 {
        "1"
    } else if d == 2 {
        "2"
    } else if d == 3 {
        "3"
    } else if d == 4 {
        "4"
    } else if d == 5 {
        "5"
    } else if d == 6 {
        "6"
    } else if d == 7 {
        "7"
    } else if d == 8 {
        "8"
    } else {
        "9"
    };
    s.append(t);
}

fn push_decimal(s: &mut String, n: usize)
    ensures
        final(s)@ == old(s)@ + decimal(n as nat),
    decreases n,
{
    if n >= 10 {
        push_decimal(s, n / 10);
        push_digit(s, n % 10);
        assert(final(s)@ =~= old(s)@ + decimal(n as nat));
    } else {
        push_digit(s, n);
    }
}

fn push_field(s: &mut String, field: &String)
    ensures
        final(s)@ == old(s)@ + ","@ + field@,
{
    s.append(",");
    s.append(field.as_str());
}

fn push_row(s: &mut String, id: usize, row: &CsvRow)
    ensures
        final(s)@ == old(s)@ + row_line(id as nat, *row),
{
    let ghost start = s@;
    push_decimal(s, id);
    push_field(s, &row.p_value);
    push_field(s, &row.effect_size);
    push_field(s, &row.ci_lower);
    push_field(s, &row.ci_upper);
    push_field(s, &row.s_value);
    s.append(",");
    if row.significant {
        s.append("true");
    } else {
        s.append("false");
    }
    s.append("\n");
    assert(s@ =~= start + row_line(id as nat, *row));
}

/// Comma-separated text of `rows`: the header line, then one line per row
/// in order, numbered from 1.
pub fn csv_text(rows: &Vec<CsvRow>) -> (r: String)
    requires
        rows.len() < usize::MAX,
    ensures
        r@ == csv_spec(rows@),
{
    let mut out = String::from_str(
        "simulation_id,p_value,effect_size,ci_lower,ci_upper,s_value,significant\n",
    );
    let mut i: usize = 0;
    while i < rows.len()
        invariant
            i <= rows.len() < usize::MAX,
            out@ == header_line() + rows_text(rows@, i as int),
        decreases rows.len() - i,
    {
        push_row(&mut out, i + 1, &rows[i]);
        i = i + 1;
    }
    out
}


/// Number of occurrences of `c` among the first `k` elements of `s`.
pub open spec fn count_upto(s: Seq<char>, c: char, k: int) -> nat
    decreases k,
{
    if k <= 0 {
        0
    } else {
        count_upto(s, c, k - 1) + if s[k - 1] == c {
            1nat
        } else {
            0nat
        }
    }
}

pub open spec fn count_char(s: Seq<char>, c: char) -> nat {
    count_upto(s, c, s.len() as int)
}

/// No field of `row` holds a line break.
pub open spec fn single_line_fields(row: CsvRow) -> bool {
    &&& count_char(row.p_value@, '\n') == 0
    &&& count_char(row.effect_size@, '\n') == 0
    &&& count_char(row.ci_lower@, '\n') == 0
    &&& count_char(row.ci_upper@, '\n') == 0
    &&& count_char(row.s_value@, '\n') == 0
}

proof fn lemma_count_prefix(a: Seq<char>, b: Seq<char>, c: char, k: int)
    requires
        0 <= k <= a.len(),
    ensures
        count_upto(a + b, c, k) == count_upto(a, c, k),
    decreases k,
{
    if k > 0 {
        lemma_count_prefix(a, b, c, k - 1);
    }
}

proof fn lemma_count_suffix(a: Seq<char>, b: Seq<char>, c: char, j: int)
    requires
        0 <= j <= b.len(),
    ensures
        count_upto(a + b, c, a.len() + j) == count_char(a, c) + count_upto(b, c, j),
    decreases j,
{
    if j > 0 {
        lemma_count_suffix(a, b, c, j - 1);
    } else {
        lemma_count_prefix(a, b, c, a.len() as int);
    }
}

proof fn lemma_count_concat(a: Seq<char>, b: Seq<char>, c: char)
    ensures
        count_char(a + b, c) == count_char(a, c) + count_char(b, c),
{
    lemma_count_suffix(a, b, c, b.len() as int);
}

proof fn lemma_decimal_single_line(n: nat)
    ensures
        count_char(decimal(n), '\n') == 0,
        decimal(n).len() >= 1,
    decreases n,
{
    reveal_strlit("0");
    reveal_strlit("1");
    reveal_strlit("2");
    reveal_strlit("3");
    reveal_strlit("4");
    reveal_strlit("5");
    reveal_strlit("6");
    reveal_strlit("7");
    reveal_strlit("8");
    reveal_strlit("9");
    reveal_with_fuel(count_upto, 2);
    if n >= 10 {
        lemma_decimal_single_line(n / 10);
        lemma_count_concat(decimal(n / 10), digit_text(n % 10), '\n');
    }
}

proof fn lemma_row_line(id: nat, row: CsvRow)
    requires
        single_line_fields(row),
    ensures
        count_char(row_line(id, row), '\n') == 1,
        row_line(id, row).last() == '\n',
        row_line(id, row) == decimal(id) + ","@ + (row_line(id, row).subrange(
            decimal(id).len() + 1int,
            row_line(id, row).len() as int,
        )),
{
    reveal_strlit(",");
    reveal_strlit("\n");
    reveal_strlit("true");
    reveal_strlit("false");
    reveal_with_fuel(count_upto, 6);
    lemma_decimal_single_line(id);
    let comma = ","@;
    let s0 = decimal(id) + comma;
    let s1 = s0 + row.p_value@;
    let s2 = s1 + comma;
    let s3 = s2 + row.effect_size@;
    let s4 = s3 + comma;
    let s5 = s4 + row.ci_lower@;
    let s6 = s5 + comma;
    let s7 = s6 + row.ci_upper@;
    let s8 = s7 + comma;
    let s9 = s8 + row.s_value@;
    let s10 = s9 + comma;
    let s11 = s10 + bool_text(row.significant);
    lemma_count_concat(decimal(id), comma, '\n');
    lemma_count_concat(s0, row.p_value@, '\n');
    lemma_count_concat(s1, comma, '\n');
    lemma_count_concat(s2, row.effect_size@, '\n');
    lemma_count_concat(s3, comma, '\n');
    lemma_count_concat(s4, row.ci_lower@, '\n');
    lemma_count_concat(s5, comma, '\n');
    lemma_count_concat(s6, row.ci_upper@, '\n');
    lemma_count_concat(s7, comma, '\n');
    lemma_count_concat(s8, row.s_value@, '\n');
    lemma_count_concat(s9, comma, '\n');
    lemma_count_concat(s10, bool_text(row.significant), '\n');
    lemma_count_concat(s11, "\n"@, '\n');
    let line = row_line(id, row);
    assert(line == s11 + "\n"@);
    assert(line =~= s0 + line.subrange(s0.len() as int, line.len() as int));
}

proof fn lemma_rows_text(rows: Seq<CsvRow>, k: int)
    requires
        0 <= k <= rows.len(),
        forall|i: int| 0 <= i < rows.len() ==> single_line_fields(#[trigger] rows[i]),
    ensures
        count_char(rows_text(rows, k), '\n') == k,
        k > 0 ==> rows_text(rows, k).last() == '\n',
    decreases k,
{
    reveal_with_fuel(count_upto, 1);
    if k > 0 {
        lemma_rows_text(rows, k - 1);
        lemma_row_line(k as nat, rows[k - 1]);
        lemma_count_concat(rows_text(rows, k - 1), row_line(k as nat, rows[k - 1]), '\n');
    }
}

proof fn lemma_rows_text_extends(rows: Seq<CsvRow>, k: int, m: int)
    requires
        0 <= k <= m,
    ensures
        rows_text(rows, m) == rows_text(rows, k) + rows_text(rows, m).subrange(
            rows_text(rows, k).len() as int,
            rows_text(rows, m).len() as int,
        ),
    decreases m,
{
    if m > k {
        lemma_rows_text_extends(rows, k, m - 1);
    }
    assert(rows_text(rows, m) =~= rows_text(rows, k) + rows_text(rows, m).subrange(
        rows_text(rows, k).len() as int,
        rows_text(rows, m).len() as int,
    ));
}

proof fn lemma_header()
    ensures
        count_char(header_line(), '\n') == 1,
        header_line().len() > 0,
        header_line().last() == '\n',
{
    reveal_strlit("simulation_id,p_value,effect_size,ci_lower,ci_upper,s_value,significant\n");
    reveal_with_fuel(count_upto, 74);
}

/// `text` is `pre`, then the number `n` and a comma, then `post`, where
/// `pre` ends in its `n`-th line break.
pub open spec fn numbered_split(text: Seq<char>, pre: Seq<char>, post: Seq<char>, n: int) -> bool {
    &&& text == pre + decimal(n as nat) + ","@ + post
    &&& count_char(pre, '\n') == n
    &&& pre.len() > 0
    &&& pre.last() == '\n'
}

/// The line that follows the `n`-th line break of `text` starts with the
/// number `n` and a comma.
pub open spec fn line_numbered(text: Seq<char>, n: int) -> bool {
    exists|pre: Seq<char>, post: Seq<char>| #[trigger] numbered_split(text, pre, post, n)
}

proof fn lemma_line_numbered(rows: Seq<CsvRow>, n: int)
    requires
        1 <= n <= rows.len(),
        forall|i: int| 0 <= i < rows.len() ==> single_line_fields(#[trigger] rows[i]),
    ensures
        line_numbered(csv_spec(rows), n),
{
    let all = rows.len() as int;
    let before = rows_text(rows, n - 1);
    let pre = header_line() + before;
    lemma_header();
    lemma_rows_text(rows, n - 1);
    lemma_count_concat(header_line(), before, '\n');
    lemma_rows_text_extends(rows, n, all);
    lemma_row_line(n as nat, rows[n - 1]);
    let line = row_line(n as nat, rows[n - 1]);
    let id = decimal(n as nat);
    let line_rest = line.subrange(id.len() + 1int, line.len() as int);
    let whole = rows_text(rows, all);
    let upto = rows_text(rows, n);
    let tail = whole.subrange(upto.len() as int, whole.len() as int);
    let post = line_rest + tail;
    assert(upto == before + line);
    assert(whole == upto + tail);
    assert(line == id + ","@ + line_rest);
    assert(whole =~= before + (id + ","@ + post));
    assert(csv_spec(rows) =~= pre + id + ","@ + post);
    if n - 1 > 0 {
        assert(pre.last() == before.last());
    }
    assert(numbered_split(csv_spec(rows), pre, post, n));
}

/// The export of `rows`, whose fields are single-line, is made of exactly
/// `rows.len() + 1` lines, each ending in a line break: the header, then one
/// line per row, the line after the `n`-th line break starting with the
/// number `n` and a comma.
pub proof fn lemma_csv_layout(rows: Seq<CsvRow>)
    requires
        forall|i: int| 0 <= i < rows.len() ==> single_line_fields(#[trigger] rows[i]),
    ensures
        count_char(csv_spec(rows), '\n') == rows.len() + 1,
        csv_spec(rows).last() == '\n',
        forall|n: int| 1 <= n <= rows.len() ==> #[trigger] line_numbered(csv_spec(rows), n),
{
    lemma_header();
    let all = rows.len() as int;
    lemma_rows_text(rows, all);
    lemma_count_concat(header_line(), rows_text(rows, all), '\n');
    assert forall|n: int| 1 <= n <= rows.len() implies #[trigger] line_numbered(
        csv_spec(rows),
        n,
    ) by {
        lemma_line_numbered(rows, n);
    }
}

} // verus!
