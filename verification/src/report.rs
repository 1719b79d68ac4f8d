//! Reading the environment manager's report.
//!
//! The report is text in lines. A header of lines that start with `#` comes
//! first; the line after the header is a boundary and is dropped; every later
//! line names one environment: its first token is the name, its second the
//! environment's root directory, and anything after that is ignored.

use vstd::prelude::*;
use vstd::string::*;
use crate::environment::{
    lemma_models_push, models, EnvironmentModel, PythonEnvironment,
    PythonEnvironmentSelectExtension,
};
use crate::paths::{interpreter_of, FileSet};
use crate::scanner::found;
use crate::text::{chars_of, lemma_run_len, run_end, run_len, string_of, CharClass};

verus! {

/// The first line of `s`, without its line feed.
pub open spec fn first_line(s: Seq<char>) -> Seq<char> {
    s.take(run_len(s, CharClass::LineBody) as int)
}

/// What follows the first line of `s` and its line feed.
pub open spec fn after_first_line(s: Seq<char>) -> Seq<char> {
    let n = run_len(s, CharClass::LineBody);
    if n < s.len() {
        s.skip(n as int + 1)
    } else {
        Seq::empty()
    }
}

/// The lines of `s`. A line ends at a line feed or at the end of the text; a
/// text that ends in a line feed has no empty last line. A carriage return
/// before a line feed stays with its line, where it is white space like any
/// other: it starts no header line and belongs to no token.
pub open spec fn lines(s: Seq<char>) -> Seq<Seq<char>>
    decreases s.len(),
{
    if s.len() == 0 {
        Seq::empty()
    } else {
        seq![first_line(s)] + lines(after_first_line(s))
    }
}

/// The tokens of a line: its maximal runs of characters that are not white
/// space, from left to right.
pub open spec fn tokens(s: Seq<char>) -> Seq<Seq<char>>
    decreases s.len(),
{
    let lead = run_len(s, CharClass::Blank);
    let t = s.skip(lead as int);
    let w = run_len(t, CharClass::Word);
    if w == 0 {
        Seq::empty()
    } else {
        proof {
            lemma_run_len(s, CharClass::Blank);
            lemma_run_len(t, CharClass::Word);
        }
        seq![t.take(w as int)] + tokens(t.skip(w as int))
    }
}

/// A header line starts with `#`.
pub open spec fn is_header(line: Seq<char>) -> bool {
    line.len() > 0 && line[0] == '#'
}

/// The lines that name environments: those after the first line that is no
/// header line.
pub open spec fn data_lines(ls: Seq<Seq<char>>) -> Seq<Seq<char>>
    decreases ls.len(),
{
    if ls.len() == 0 {
        ls
    } else if is_header(ls[0]) {
        data_lines(ls.drop_first())
    } else {
        ls.drop_first()
    }
}

/// What one data line names.
pub struct RowModel {
    pub name: Seq<char>,
    pub root: Seq<char>,
}

/// An environment that the report names, before anyone looked whether it has
/// an interpreter.
#[derive(Debug)]
pub struct ReportRow {
    pub name: String,
    pub root: String,
}

impl View for ReportRow {
    type V = RowModel;

    open spec fn view(&self) -> RowModel {
        RowModel { name: self.name@, root: self.root@ }
    }
}

/// The views of a list of rows, in order.
pub open spec fn row_models(rows: Seq<ReportRow>) -> Seq<RowModel> {
    rows.map_values(|r: ReportRow| r@)
}

/// The row of one data line: none where the line has fewer than two tokens.
pub open spec fn line_rows(line: Seq<char>) -> Seq<RowModel> {
    let ts = tokens(line);
    if ts.len() >= 2 {
        seq![RowModel { name: ts[0], root: ts[1] }]
    } else {
        Seq::empty()
    }
}

/// The rows of a list of data lines, in order.
pub open spec fn rows_of_lines(ls: Seq<Seq<char>>) -> Seq<RowModel>
    decreases ls.len(),
{
    if ls.len() == 0 {
        Seq::empty()
    } else {
        line_rows(ls[0]) + rows_of_lines(ls.drop_first())
    }
}

/// The rows of a report.
pub open spec fn report_rows(text: Seq<char>) -> Seq<RowModel> {
    rows_of_lines(data_lines(lines(text)))
}

/// The record of one row: none where the environment has no interpreter.
pub open spec fn row_records(row: RowModel, present: Set<Seq<char>>) -> Seq<EnvironmentModel> {
    if present.contains(interpreter_of(row.root)) {
        seq![found(row.name, row.root)]
    } else {
        Seq::empty()
    }
}

/// The records of a list of rows, in order.
pub open spec fn resolve(rows: Seq<RowModel>, present: Set<Seq<char>>) -> Seq<EnvironmentModel>
    decreases rows.len(),
{
    if rows.len() == 0 {
        Seq::empty()
    } else {
        resolve(rows.drop_last(), present) + row_records(rows.last(), present)
    }
}

/// The records of a report.
pub open spec fn parse_report(text: Seq<char>, present: Set<Seq<char>>) -> Seq<EnvironmentModel> {
    resolve(report_rows(text), present)
}

/// A line with fewer than two tokens names no environment.
pub proof fn lemma_short_line(line: Seq<char>)
    requires
        tokens(line).len() < 2,
    ensures
        line_rows(line) == Seq::<RowModel>::empty(),
{
}

/// A report that is all header lines, with or without a boundary line after
/// them, names no environment.
pub proof fn lemma_header_only(ls: Seq<Seq<char>>)
    requires
        forall|i: int| 0 <= i < ls.len() - 1 ==> is_header(#[trigger] ls[i]),
    ensures
        rows_of_lines(data_lines(ls)) == Seq::<RowModel>::empty(),
    decreases ls.len(),
{
    if ls.len() == 0 {
    } else if is_header(ls[0]) {
        let rest = ls.drop_first();
        assert forall|i: int| 0 <= i < rest.len() - 1 implies is_header(#[trigger] rest[i]) by {
            assert(rest[i] == ls[i + 1]);
        }
        lemma_header_only(rest);
    } else {
        assert(ls.len() == 1);
        assert(ls.drop_first().len() == 0);
    }
}

/// The copy of `chars[from..to]`.
fn slice_of(chars: &Vec<char>, from: usize, to: usize) -> (r: Vec<char>)
    requires
        from <= to <= chars@.len(),
    ensures
        r@ == chars@.subrange(from as int, to as int),
{
    let mut r: Vec<char> = Vec::new();
    let mut i: usize = from;
    while i < to
        invariant
            from <= i <= to <= chars@.len(),
            r@ == chars@.subrange(from as int, i as int),
        decreases to - i,
    {
        r.push(chars[i]);
        i += 1;
        assert(r@ =~= chars@.subrange(from as int, i as int));
    }
    r
}

/// Splits a text into its lines.
pub fn split_lines(chars: &Vec<char>) -> (r: Vec<Vec<char>>)
    ensures
        r@.map_values(|l: Vec<char>| l@) == lines(chars@),
{
    let mut r: Vec<Vec<char>> = Vec::new();
    let mut pos: usize = 0;
    let n: usize = chars.len();
    assert(chars@.skip(0) =~= chars@);
    assert(r@.map_values(|l: Vec<char>| l@) =~= Seq::<Seq<char>>::empty());
    while pos < n
        invariant
            pos <= n,
            n == chars@.len(),
            lines(chars@) == r@.map_values(|l: Vec<char>| l@) + lines(chars@.skip(pos as int)),
        decreases n - pos,
    {
        let ghost s = chars@.skip(pos as int);
        let ghost done = r@.map_values(|l: Vec<char>| l@);
        let e: usize = run_end(chars, pos, CharClass::LineBody);
        let line = slice_of(chars, pos, e);
        let next: usize = if e < n {
            e + 1
        } else {
            n
        };
        proof {
            assert(line@ =~= first_line(s));
            assert(chars@.skip(next as int) =~= after_first_line(s));
        }
        r.push(line);
        pos = next;
        proof {
            assert(r@.map_values(|l: Vec<char>| l@) =~= done + seq![first_line(s)]);
            assert(done + (seq![first_line(s)] + lines(after_first_line(s))) =~= (done + seq![
                first_line(s),
            ]) + lines(after_first_line(s)));
        }
    }
    assert(r@.map_values(|l: Vec<char>| l@) + Seq::<Seq<char>>::empty() =~= r@.map_values(
        |l: Vec<char>| l@,
    ));
    r
}

/// The row that a data line names, if it names one.
pub fn read_row(line: &Vec<char>) -> (r: Option<ReportRow>)
    ensures
        match r {
            Some(row) => line_rows(line@) == seq![row@],
            None => line_rows(line@) == Seq::<RowModel>::empty(),
        },
{
    let a: usize = run_end(line, 0, CharClass::Blank);
    let b: usize = run_end(line, a, CharClass::Word);
    proof {
        assert(line@.skip(0) =~= line@);
    }
    if b == a {
        return None;
    }
    let c: usize = run_end(line, b, CharClass::Blank);
    let d: usize = run_end(line, c, CharClass::Word);
    proof {
        let t = line@.skip(a as int);
        assert(t.take(b - a) =~= line@.subrange(a as int, b as int));
        assert(t.skip(b - a) =~= line@.skip(b as int));
        let u = line@.skip(b as int);
        let t2 = u.skip(c - b);
        assert(t2 =~= line@.skip(c as int));
        assert(t2.take(d - c) =~= line@.subrange(c as int, d as int));
        assert(tokens(line@) == seq![t.take(b - a)] + tokens(u));
        if d != c {
            assert(tokens(u) == seq![t2.take(d - c)] + tokens(t2.skip(d - c)));
        } else {
            assert(tokens(u) =~= Seq::<Seq<char>>::empty());
        }
    }
    if d == c {
        return None;
    }
    Some(ReportRow { name: string_of(line, a, b), root: string_of(line, c, d) })
}

/// The environments that a report names, in the report's order.
pub fn read_rows(output: &str) -> (rows: Vec<ReportRow>)
    ensures
        row_models(rows@) == report_rows(output@),
{
    let chars = chars_of(output);
    let ls = split_lines(&chars);
    let ghost all = lines(output@);
    let mut rows: Vec<ReportRow> = Vec::new();
    let mut i: usize = 0;
    assert(all.skip(0) =~= all);
    while i < ls.len() && ls[i].len() > 0 && ls[i][0] == '#'
        invariant
            i <= ls@.len(),
            ls@.map_values(|l: Vec<char>| l@) == all,
            data_lines(all) == data_lines(all.skip(i as int)),
        decreases ls@.len() - i,
    {
        proof {
            assert(all[i as int] == ls@[i as int]@);
            assert(all.skip(i as int).drop_first() =~= all.skip(i + 1));
        }
        i += 1;
    }
    if i < ls.len() {
        proof {
            assert(all[i as int] == ls@[i as int]@);
            assert(all.skip(i as int).drop_first() =~= all.skip(i + 1));
        }
        i += 1;
    }
    let ghost data = all.skip(i as int);
    assert(data_lines(all) =~= data);
    assert(data.skip(0) =~= data);
    assert(row_models(rows@) =~= Seq::<RowModel>::empty());
    let first: usize = i;
    while i < ls.len()
        invariant
            first <= i <= ls@.len(),
            ls@.map_values(|l: Vec<char>| l@) == all,
            data == all.skip(first as int),
            rows_of_lines(data) == row_models(rows@) + rows_of_lines(all.skip(i as int)),
        decreases ls@.len() - i,
    {
        let ghost done = row_models(rows@);
        let ghost rest = all.skip(i as int);
        proof {
            assert(rest[0] == ls@[i as int]@);
            assert(rest.drop_first() =~= all.skip(i + 1));
        }
        match read_row(&ls[i]) {
            Some(row) => {
                proof {
                    assert(row_models(rows@.push(row)) =~= done + seq![row@]);
                }
                rows.push(row);
            },
            None => {},
        }
        i += 1;
        proof {
            assert(done + (line_rows(rest[0]) + rows_of_lines(rest.drop_first())) =~= (done
                + line_rows(rest[0])) + rows_of_lines(rest.drop_first()));
            assert(done + Seq::<RowModel>::empty() =~= done);
        }
    }
    assert(row_models(rows@) + Seq::<RowModel>::empty() =~= row_models(rows@));
    rows
}

impl PythonEnvironmentSelectExtension {
    /// The environments of a report that have an interpreter, in the report's
    /// order. Reading a report never fails.
    pub fn parse_conda_output(output: &str, present: &FileSet) -> (r: Result<
        Vec<PythonEnvironment>,
        String,
    >)
        ensures
            r is Ok,
            models(r->Ok_0@) == parse_report(output@, present@),
    {
        let rows = read_rows(output);
        let mut envs: Vec<PythonEnvironment> = Vec::new();
        let mut i: usize = 0;
        assert(models(envs@) =~= Seq::<EnvironmentModel>::empty());
        while i < rows.len()
            invariant
                i <= rows@.len(),
                models(envs@) == resolve(row_models(rows@).take(i as int), present@),
            decreases rows@.len() - i,
        {
            let ghost before = models(envs@);
            proof {
                let all = row_models(rows@);
                assert(all.take(i + 1).drop_last() =~= all.take(i as int));
                assert(all.take(i + 1).last() == rows@[i as int]@);
            }
            if let Some(python_path) = Self::find_python_executable(rows[i].root.as_str(), present) {
                let env = PythonEnvironment { name: rows[i].name.clone(), python_path };
                proof {
                    lemma_models_push(envs@, env);
                }
                envs.push(env);
            }
            assert(models(envs@) =~= before + row_records(rows@[i as int]@, present@));
            i += 1;
        }
        assert(row_models(rows@).take(i as int) =~= row_models(rows@));
        Ok(envs)
    }
}

} // verus!
