//! Rendering a list of records as aligned text.
//!
//! Each record is one row: its name, padded with spaces to the width of the
//! list, four spaces, and its interpreter path. The width of a list is the
//! largest size of a name in bytes; a name is padded until it has that many
//! characters. The rows stand between a banner and a line that counts them.

use vstd::prelude::*;
use vstd::string::*;
use vstd::utf8::encode_utf8;
use crate::environment::{models, EnvironmentModel, PythonEnvironment};

verus! {

/// The size of a name in bytes.
pub open spec fn name_width(name: Seq<char>) -> nat {
    encode_utf8(name).len()
}

/// The width of a list: the largest size of a name in it, 0 for an empty list.
pub open spec fn max_width(envs: Seq<EnvironmentModel>) -> nat
    decreases envs.len(),
{
    if envs.len() == 0 {
        0
    } else {
        let w = max_width(envs.drop_last());
        let n = name_width(envs.last().name);
        if n > w {
            n
        } else {
            w
        }
    }
}

/// `n` spaces.
pub open spec fn spaces(n: nat) -> Seq<char> {
    Seq::new(n, |i: int| ' ')
}

/// `name`, followed by as many spaces as it has characters fewer than `width`.
pub open spec fn padded(name: Seq<char>, width: nat) -> Seq<char> {
    if name.len() < width {
        name + spaces((width - name.len()) as nat)
    } else {
        name
    }
}

/// The row of one record in a list of the given width.
pub open spec fn row_text(env: EnvironmentModel, width: nat) -> Seq<char> {
    padded(env.name, width) + "    "@ + env.python_path
}

/// The rows of a list of the given width.
pub open spec fn row_texts(envs: Seq<EnvironmentModel>, width: nat) -> Seq<Seq<char>> {
    envs.map_values(|e: EnvironmentModel| row_text(e, width))
}

/// The parts, with `sep` between each two neighbours.
pub open spec fn join_with(parts: Seq<Seq<char>>, sep: Seq<char>) -> Seq<char>
    decreases parts.len(),
{
    if parts.len() == 0 {
        Seq::empty()
    } else if parts.len() == 1 {
        parts[0]
    } else {
        join_with(parts.drop_last(), sep) + sep + parts.last()
    }
}

/// The decimal digit for `d`.
pub open spec fn digit(d: nat) -> char {
    if d == 0 {
        '0'
    } else if d == 1 {
        '1'
    } else if d == 2 {
        '2'
    } else if d == 3 {
        '3'
    } else if d == 4 {
        '4'
    } else if d == 5 {
        '5'
    } else if d == 6 {
        '6'
    } else if d == 7 {
        '7'
    } else if d == 8 {
        '8'
    } else {
        '9'
    }
}

/// `n` in decimal, without leading zeros.
pub open spec fn decimal(n: nat) -> Seq<char>
    decreases n,
{
    if n < 10 {
        seq![digit(n)]
    } else {
        decimal(n / 10) + seq![digit(n % 10)]
    }
}

/// The text that shows a list of records.
pub open spec fn rendered(envs: Seq<EnvironmentModel>) -> Seq<char> {
    "======\n "@ + join_with(row_texts(envs, max_width(envs)), "\n"@) + " ======"@ + "\nlen: "@
        + decimal(envs.len())
}

/// The views of a list of strings, in order.
pub open spec fn texts(parts: Seq<String>) -> Seq<Seq<char>> {
    parts.map_values(|s: String| s@)
}

/// An empty list is shown as the banner alone, with a count of 0.
pub proof fn lemma_render_empty()
    ensures
        rendered(Seq::<EnvironmentModel>::empty()) == "======\n "@ + " ======"@ + "\nlen: "@ + seq![
            '0',
        ],
{
    let none = Seq::<EnvironmentModel>::empty();
    assert(row_texts(none, max_width(none)) =~= Seq::<Seq<char>>::empty());
    assert("======\n "@ + Seq::<char>::empty() =~= "======\n "@);
}

/// A padded name starts with the name, goes on with spaces only, and has
/// `width` characters unless the name alone has more.
pub proof fn lemma_padded(name: Seq<char>, width: nat)
    ensures
        padded(name, width).len() == if name.len() < width {
            width
        } else {
            name.len()
        },
        padded(name, width).take(name.len() as int) == name,
        forall|i: int| name.len() <= i < padded(name, width).len() ==> padded(name, width)[i] == ' ',
{
    assert(padded(name, width).take(name.len() as int) =~= name);
}

/// A text has at least as many bytes as characters.
pub proof fn lemma_chars_fit_bytes(name: Seq<char>)
    ensures
        name.len() <= name_width(name),
    decreases name.len(),
{
    if name.len() > 0 {
        lemma_chars_fit_bytes(name.drop_first());
    }
}

/// No name of a list is wider than the list.
pub proof fn lemma_width_bounds(envs: Seq<EnvironmentModel>, i: int)
    requires
        0 <= i < envs.len(),
    ensures
        name_width(envs[i].name) <= max_width(envs),
    decreases envs.len(),
{
    if i < envs.len() - 1 {
        lemma_width_bounds(envs.drop_last(), i);
    }
}

/// The rows of a list are aligned: each row is the record's name, then
/// spaces up to the fourth column after the list's width, then the record's
/// path.
pub proof fn lemma_rows_aligned(envs: Seq<EnvironmentModel>, i: int)
    requires
        0 <= i < envs.len(),
    ensures
        ({
            let w = max_width(envs);
            let row = row_texts(envs, w)[i];
            &&& envs[i].name.len() <= w
            &&& row.len() == w + 4 + envs[i].python_path.len()
            &&& row.take(envs[i].name.len() as int) == envs[i].name
            &&& forall|k: int| envs[i].name.len() <= k < w + 4 ==> row[k] == ' '
            &&& row.skip(w as int + 4) == envs[i].python_path
        }),
{
    let w = max_width(envs);
    let name = envs[i].name;
    let row = row_texts(envs, w)[i];
    lemma_chars_fit_bytes(name);
    lemma_width_bounds(envs, i);
    lemma_padded(name, w);
    reveal_strlit("    ");
    let gap = "    "@;
    assert(gap.len() == 4);
    assert(gap[0] == ' ' && gap[1] == ' ' && gap[2] == ' ' && gap[3] == ' ');
    assert(row == padded(name, w) + gap + envs[i].python_path);
    assert(row.take(name.len() as int) =~= name);
    assert(row.skip(w as int + 4) =~= envs[i].python_path);
    assert forall|k: int| name.len() <= k < w + 4 implies row[k] == ' ' by {
        if k < w {
            assert(row[k] == padded(name, w)[k]);
        } else {
            assert(row[k] == gap[k - w]);
        }
    }
}

fn digit_char(d: usize) -> (c: char)
    requires
        d < 10,
    ensures
        c == digit(d as nat),
{
    if d == 0 {
        '0'
    } else if d == 1 {
        '1'
    } else if d == 2 {
        '2'
    } else if d == 3 {
        '3'
    } else if d == 4 {
        '4'
    } else if d == 5 {
        '5'
    } else if d == 6 {
        '6'
    } else if d == 7 {
        '7'
    } else if d == 8 {
        '8'
    } else {
        '9'
    }
}

/// Appends `n` in decimal.
pub fn push_decimal(s: &mut String, n: usize)
    ensures
        final(s)@ == old(s)@ + decimal(n as nat),
    decreases n,
{
    if n < 10 {
        s.push(digit_char(n));
        assert(s@ =~= old(s)@ + decimal(n as nat));
    } else {
        push_decimal(s, n / 10);
        s.push(digit_char(n % 10));
        assert(s@ =~= old(s)@ + decimal(n as nat));
    }
}

/// The largest size of a name in the list.
pub fn widest_name(envs: &Vec<PythonEnvironment>) -> (w: usize)
    ensures
        w == max_width(models(envs@)),
{
    let mut w: usize = 0;
    let mut i: usize = 0;
    assert(models(envs@).take(0) =~= Seq::<EnvironmentModel>::empty());
    while i < envs.len()
        invariant
            i <= envs@.len(),
            w == max_width(models(envs@).take(i as int)),
        decreases envs@.len() - i,
    {
        proof {
            let all = models(envs@);
            assert(all.take(i + 1).drop_last() =~= all.take(i as int));
            assert(all.take(i + 1).last() == envs@[i as int]@);
        }
        let n: usize = envs[i].name.as_str().as_bytes().len();
        if n > w {
            w = n;
        }
        i += 1;
    }
    assert(models(envs@).take(i as int) =~= models(envs@));
    w
}

/// `name`, padded with spaces to `width` characters.
pub fn pad(name: &str, width: usize) -> (r: String)
    ensures
        r@ == padded(name@, width as nat),
{
    let mut r = String::from_str(name);
    let mut count: usize = name.unicode_len();
    let ghost start = count;
    assert(name@ + spaces(0) =~= name@);
    while count < width
        invariant
            start == name@.len(),
            start <= count,
            start < width ==> count <= width,
            start >= width ==> count == start,
            r@ == name@ + spaces((count - start) as nat),
        decreases width - count,
    {
        r.push(' ');
        count += 1;
        assert(r@ =~= name@ + spaces((count - start) as nat));
    }
    assert(r@ =~= padded(name@, width as nat));
    r
}

/// The parts, with `sep` between each two neighbours.
pub fn join_strings(parts: &Vec<String>, sep: &str) -> (r: String)
    ensures
        r@ == join_with(texts(parts@), sep@),
{
    let mut r = String::new();
    let mut i: usize = 0;
    assert(texts(parts@).take(0) =~= Seq::<Seq<char>>::empty());
    while i < parts.len()
        invariant
            i <= parts@.len(),
            r@ == join_with(texts(parts@).take(i as int), sep@),
        decreases parts@.len() - i,
    {
        proof {
            let all = texts(parts@);
            assert(all.take(i + 1).drop_last() =~= all.take(i as int));
            assert(all.take(i + 1).last() == parts@[i as int]@);
            assert(all.take(1)[0] == all[0]);
        }
        if i > 0 {
            r.append(sep);
        }
        r.append(parts[i].as_str());
        proof {
            if i == 0 {
                assert(r@ =~= parts@[0]@);
            }
        }
        i += 1;
    }
    assert(texts(parts@).take(i as int) =~= texts(parts@));
    r
}

/// Shows a list of records: a banner, one aligned row for each record, and
/// the number of records.
pub fn render(envs: &Vec<PythonEnvironment>) -> (text: String)
    ensures
        text@ == rendered(models(envs@)),
{
    let width: usize = widest_name(envs);
    let mut rows: Vec<String> = Vec::new();
    let mut i: usize = 0;
    let ghost all = row_texts(models(envs@), width as nat);
    assert(texts(rows@) =~= all.take(0));
    while i < envs.len()
        invariant
            i <= envs@.len(),
            all == row_texts(models(envs@), width as nat),
            texts(rows@) == all.take(i as int),
        decreases envs@.len() - i,
    {
        let row = pad(envs[i].name.as_str(), width).concat("    ").concat(
            envs[i].python_path.as_str(),
        );
        proof {
            assert(row@ == row_text(envs@[i as int]@, width as nat));
            assert(models(envs@)[i as int] == envs@[i as int]@);
            assert(all[i as int] == row_text(models(envs@)[i as int], width as nat));
            assert(texts(rows@.push(row)) =~= texts(rows@).push(row@));
            assert(all.take(i + 1) =~= all.take(i as int).push(all[i as int]));
        }
        rows.push(row);
        i += 1;
    }
    assert(all.take(i as int) =~= all);
    let mut text = String::from_str("======\n ");
    let body = join_strings(&rows, "\n");
    text.append(body.as_str());
    text.append(" ======");
    text.append("\nlen: ");
    push_decimal(&mut text, envs.len());
    text
}

} // verus!
