//! Literal placeholder substitution and row injection into a text template.

use vstd::prelude::*;
use vstd::string::{StrSliceExecFns, StringExecFns};
use crate::invoice::BillingRow;
use crate::money::{mills_text, push_mills, rate_text, Rate};
use crate::text::{chars_of, push_char, trim_of, trim_text};

verus! {

/// `p` occurs in `t` at index `i`.
pub open spec fn matches_at(t: Seq<char>, i: int, p: Seq<char>) -> bool {
    0 <= i && i + p.len() <= t.len() && t.subrange(i, i + p.len()) == p
}

/// `t` with every occurrence of `p` replaced by `v`, scanning left to right
/// without overlap; the inserted text is not scanned again.
pub open spec fn replace_all(t: Seq<char>, p: Seq<char>, v: Seq<char>) -> Seq<char>
    decreases t.len(),
{
    if p.len() == 0 || t.len() == 0 {
        t
    } else if p.len() <= t.len() && t.subrange(0, p.len() as int) == p {
        v + replace_all(t.subrange(p.len() as int, t.len() as int), p, v)
    } else {
        seq![t[0]] + replace_all(t.drop_first(), p, v)
    }
}

/// The placeholder of a field name: `{{NAME}}`.
pub open spec fn placeholder(name: Seq<char>) -> Seq<char> {
    seq!['{', '{'] + name + seq!['}', '}']
}

/// `t` after replacing the placeholder of each field by its value, one field
/// after the other in the given order.
pub open spec fn apply_fields(t: Seq<char>, fields: Seq<(Seq<char>, Seq<char>)>) -> Seq<char>
    decreases fields.len(),
{
    if fields.len() == 0 {
        t
    } else {
        replace_all(
            apply_fields(t, fields.drop_last()),
            placeholder(fields.last().0),
            fields.last().1,
        )
    }
}

/// The names and values of fields, as texts.
pub open spec fn field_views(fields: Seq<(String, String)>) -> Seq<(Seq<char>, Seq<char>)> {
    fields.map_values(|f: (String, String)| (f.0@, f.1@))
}

/// The fields with their values trimmed of surrounding whitespace.
pub open spec fn trim_values(fields: Seq<(Seq<char>, Seq<char>)>) -> Seq<(Seq<char>, Seq<char>)> {
    fields.map_values(|f: (Seq<char>, Seq<char>)| (f.0, trim_of(f.1)))
}

/// The first index at or after `i` where `p` occurs in `t`.
pub open spec fn find_from(t: Seq<char>, p: Seq<char>, i: int) -> Option<int>
    decreases t.len() + 1 - i,
{
    if i < 0 || i + p.len() > t.len() {
        None
    } else if t.subrange(i, i + p.len()) == p {
        Some(i)
    } else {
        find_from(t, p, i + 1)
    }
}

/// The lines joined, each preceded by a line break.
pub open spec fn joined(lines: Seq<Seq<char>>) -> Seq<char>
    decreases lines.len(),
{
    if lines.len() == 0 {
        seq![]
    } else {
        joined(lines.drop_last()) + seq!['\n'] + lines.last()
    }
}

/// `t` with the lines inserted right after the first occurrence of `marker`,
/// in their order; `t` itself when the marker does not occur.
pub open spec fn injected(t: Seq<char>, marker: Seq<char>, lines: Seq<Seq<char>>) -> Seq<char> {
    match find_from(t, marker, 0) {
        None => t,
        Some(i) => {
            let cut = i + marker.len();
            t.subrange(0, cut) + joined(lines) + t.subrange(cut, t.len() as int)
        },
    }
}

/// A table line: `date & description & start-end & rate & amount`, then a
/// space and two backslashes.
pub open spec fn table_line(
    date: Seq<char>,
    description: Seq<char>,
    start_display: Seq<char>,
    end_display: Seq<char>,
    rate: Rate,
    amount_mills: int,
) -> Seq<char> {
    let sep = seq![' ', '&', ' '];
    date + sep + description + sep + start_display + seq!['-'] + end_display + sep + rate_text(
        rate,
    ) + sep + mills_text(amount_mills) + seq![' ', '\\', '\\']
}

/// The table line of a billing row.
pub open spec fn row_line(row: BillingRow) -> Seq<char> {
    table_line(
        row.date@,
        row.description@,
        row.start_display@,
        row.end_display@,
        row.rate,
        row.amount_mills as int,
    )
}

/// The table lines of billing rows, in order.
pub open spec fn row_lines(rows: Seq<BillingRow>) -> Seq<Seq<char>> {
    rows.map_values(|r: BillingRow| row_line(r))
}

/// The rendered document: fields substituted first, then rows injected.
pub open spec fn rendered(
    template: Seq<char>,
    fields: Seq<(Seq<char>, Seq<char>)>,
    rows: Seq<BillingRow>,
    row_marker: Seq<char>,
) -> Seq<char> {
    injected(apply_fields(template, fields), row_marker, row_lines(rows))
}

fn occurs_at(t: &Vec<char>, i: usize, p: &Vec<char>) -> (r: bool)
    requires
        i + p@.len() <= t@.len(),
    ensures
        r == (t@.subrange(i as int, i + p@.len()) == p@),
{
    let tn = t.len();
    let mut j: usize = 0;
    while j < p.len()
        invariant
            tn == t@.len(),
            i + p@.len() <= t@.len(),
            j <= p@.len(),
            forall|k: int| 0 <= k < j ==> t@[i + k] == p@[k],
        decreases p@.len() - j,
    {
        if t[i + j] != p[j] {
            assert(t@.subrange(i as int, i + p@.len())[j as int] != p@[j as int]);
            return false;
        }
        j = j + 1;
    }
    assert(t@.subrange(i as int, i + p@.len()) =~= p@);
    true
}

/// Replaces every occurrence of `p` in `t` by `v`, left to right.
pub fn replace_text(t: &str, p: &str, v: &str) -> (r: String)
    requires
        p@.len() > 0,
    ensures
        r@ == replace_all(t@, p@, v@),
{
    let tv = chars_of(t);
    let pv = chars_of(p);
    let n = tv.len();
    let m = pv.len();
    let mut out = String::new();
    let mut i: usize = 0;
    assert(t@.subrange(0, n as int) == t@);
    while i < n
        invariant
            tv@ == t@,
            pv@ == p@,
            n == t@.len(),
            m == p@.len(),
            m > 0,
            i <= n,
            out@ + replace_all(t@.subrange(i as int, n as int), p@, v@) == replace_all(t@, p@, v@),
        decreases n - i,
    {
        let ghost rest = t@.subrange(i as int, n as int);
        if m <= n - i && occurs_at(&tv, i, &pv) {
            assert(rest.subrange(0, m as int) == t@.subrange(i as int, i + m));
            assert(rest.subrange(m as int, rest.len() as int) == t@.subrange(i + m, n as int));
            out.append(v);
            i = i + m;
        } else {
            assert(rest.len() < m || rest.subrange(0, m as int) != p@) by {
                if m <= n - i {
                    assert(rest.subrange(0, m as int) == t@.subrange(i as int, i + m));
                }
            }
            assert(rest.drop_first() == t@.subrange(i + 1, n as int));
            push_char(&mut out, tv[i]);
            i = i + 1;
        }
    }
    assert(t@.subrange(n as int, n as int).len() == 0);
    out
}

/// What `find_from` finds is an occurrence, and the first one from `i` on.
pub proof fn lemma_find_from(t: Seq<char>, p: Seq<char>, i: int)
    requires
        0 <= i,
    ensures
        match find_from(t, p, i) {
            Some(j) => i <= j && matches_at(t, j, p) && forall|k: int|
                i <= k < j ==> !matches_at(t, k, p),
            None => forall|k: int| i <= k ==> !matches_at(t, k, p),
        },
    decreases t.len() + 1 - i,
{
    if i + p.len() <= t.len() && t.subrange(i, i + p.len()) != p {
        lemma_find_from(t, p, i + 1);
    }
}

fn find_marker(t: &Vec<char>, p: &Vec<char>) -> (r: Option<usize>)
    ensures
        match r {
            Some(i) => find_from(t@, p@, 0) == Some(i as int) && i + p@.len() <= t@.len(),
            None => find_from(t@, p@, 0) is None,
        },
{
    let n = t.len();
    let m = p.len();
    if m > n {
        assert(find_from(t@, p@, 0) is None);
        return None;
    }
    let mut i: usize = 0;
    loop
        invariant
            n == t@.len(),
            m == p@.len(),
            m <= n,
            i <= n - m,
            find_from(t@, p@, 0) == find_from(t@, p@, i as int),
        decreases n - m - i,
    {
        if occurs_at(t, i, p) {
            return Some(i);
        }
        if i == n - m {
            assert(find_from(t@, p@, i + 1) is None);
            return None;
        }
        i = i + 1;
    }
}

/// The table line of one billing row.
pub fn row_text(row: &BillingRow) -> (r: String)
    ensures
        r@ == row_line(*row),
{
    let mut r = row.date.clone();
    r.append(" & ");
    r.append(row.description.as_str());
    r.append(" & ");
    r.append(row.start_display.as_str());
    push_char(&mut r, '-');
    r.append(row.end_display.as_str());
    r.append(" & ");
    push_mills(&mut r, row.rate.cents as i128 * 10);
    r.append(" & ");
    push_mills(&mut r, row.amount_mills);
    push_char(&mut r, ' ');
    push_char(&mut r, '\\');
    push_char(&mut r, '\\');
    proof {
        reveal_strlit(" & ");
    }
    assert(r@ =~= row_line(*row));
    r
}

/// Inserts the lines of the rows, in order and each after a line break, right
/// after the first occurrence of `marker`; without the marker the text is
/// returned as it is.
pub fn inject_rows(t: &str, marker: &str, rows: &Vec<BillingRow>) -> (r: String)
    ensures
        r@ == injected(t@, marker@, row_lines(rows@)),
{
    let tv = chars_of(t);
    let mv = chars_of(marker);
    match find_marker(&tv, &mv) {
        None => t.to_owned(),
        Some(i) => {
            let n = tv.len();
            let cut = i + mv.len();
            let mut out = t.substring_char(0, cut).to_owned();
            let ghost lines = row_lines(rows@);
            let ghost head = t@.subrange(0, cut as int);
            for k in 0..rows.len()
                invariant
                    lines == row_lines(rows@),
                    lines.len() == rows@.len(),
                    out@ == head + joined(lines.take(k as int)),
            {
                let ghost before = out@;
                push_char(&mut out, '\n');
                let line = row_text(&rows[k]);
                out.append(line.as_str());
                proof {
                    let lk = lines.take(k + 1);
                    assert(lk.drop_last() == lines.take(k as int));
                    assert(lk.last() == line@);
                    assert(joined(lk) == joined(lines.take(k as int)) + seq!['\n'] + line@);
                    assert(out@ == before.push('\n') + line@);
                    assert(out@ =~= head + joined(lk));
                }
            }
            assert(lines.take(rows@.len() as int) == lines);
            out.append(t.substring_char(cut, n));
            out
        },
    }
}

/// The placeholder text `{{NAME}}` of a field name.
pub fn placeholder_text(name: &str) -> (r: String)
    ensures
        r@ == placeholder(name@),
{
    let mut r = String::new();
    r.append("{{");
    r.append(name);
    r.append("}}");
    proof {
        reveal_strlit("{{");
        reveal_strlit("}}");
    }
    assert(r@ =~= placeholder(name@));
    r
}

/// Substitutes each field's value, as it is, for every occurrence of its
/// placeholder, field after field, then injects the rows after the marker.
pub fn render_verbatim(
    template: &str,
    fields: &Vec<(String, String)>,
    rows: &Vec<BillingRow>,
    row_marker: &str,
) -> (r: String)
    ensures
        r@ == rendered(template@, field_views(fields@), rows@, row_marker@),
{
    let mut t = template.to_owned();
    let ghost fs = field_views(fields@);
    for k in 0..fields.len()
        invariant
            fs == field_views(fields@),
            t@ == apply_fields(template@, fs.take(k as int)),
    {
        assert(fs.take(k + 1).drop_last() == fs.take(k as int));
        let ph = placeholder_text(fields[k].0.as_str());
        t = replace_text(t.as_str(), ph.as_str(), fields[k].1.as_str());
    }
    assert(fs.take(fields@.len() as int) == fs);
    inject_rows(t.as_str(), row_marker, rows)
}

/// Renders a template: each field's value, trimmed of surrounding whitespace,
/// replaces every occurrence of the field's placeholder `{{NAME}}`; then the
/// rows are injected after the first occurrence of the marker, if any.
pub fn render(
    template: &str,
    fields: &Vec<(String, String)>,
    rows: &Vec<BillingRow>,
    row_marker: &str,
) -> (r: String)
    ensures
        r@ == rendered(template@, trim_values(field_views(fields@)), rows@, row_marker@),
{
    let mut trimmed: Vec<(String, String)> = Vec::new();
    for k in 0..fields.len()
        invariant
            trimmed@.len() == k,
            forall|j: int|
                0 <= j < k ==> (#[trigger] trimmed@[j]).0@ == fields@[j].0@ && trimmed@[j].1@
                    == trim_of(fields@[j].1@),
    {
        let name = fields[k].0.clone();
        let value = trim_text(fields[k].1.as_str());
        trimmed.push((name, value));
    }
    assert(field_views(trimmed@) =~= trim_values(field_views(fields@)));
    render_verbatim(template, &trimmed, rows, row_marker)
}

/// When the marker does not occur in the text, injecting rows leaves the text
/// unchanged: the rows are dropped.
pub proof fn lemma_no_marker_keeps_text(t: Seq<char>, marker: Seq<char>, lines: Seq<Seq<char>>)
    requires
        forall|k: int| !matches_at(t, k, marker),
    ensures
        injected(t, marker, lines) == t,
{
    lemma_find_from(t, marker, 0);
}

proof fn lemma_joined_prefix(lines: Seq<Seq<char>>, j: int)
    requires
        0 <= j <= lines.len(),
    ensures
        joined(lines.take(j)).len() <= joined(lines).len(),
        joined(lines).subrange(0, joined(lines.take(j)).len() as int) == joined(lines.take(j)),
    decreases lines.len() - j,
{
    if j < lines.len() {
        lemma_joined_prefix(lines, j + 1);
        assert(lines.take(j + 1).drop_last() == lines.take(j));
        let a = joined(lines.take(j));
        let b = joined(lines.take(j + 1));
        assert(b.subrange(0, a.len() as int) == a);
        assert(joined(lines).subrange(0, a.len() as int) == b.subrange(0, a.len() as int));
    } else {
        assert(lines.take(j) == lines);
    }
}

/// The rows go in right after the first occurrence of the marker, in their
/// order: the line of row `k`, after a line break, follows the lines of the
/// rows before it.
pub proof fn lemma_rows_follow_marker_in_order(
    t: Seq<char>,
    marker: Seq<char>,
    lines: Seq<Seq<char>>,
    i: int,
    k: int,
)
    requires
        matches_at(t, i, marker),
        forall|j: int| 0 <= j < i ==> !matches_at(t, j, marker),
        0 <= k < lines.len(),
    ensures
        ({
            let pos = i + marker.len() + joined(lines.take(k)).len();
            &&& pos + 1 + lines[k].len() <= injected(t, marker, lines).len()
            &&& injected(t, marker, lines).subrange(pos, pos + 1 + lines[k].len()) == seq!['\n']
                + lines[k]
        }),
{
    lemma_find_from(t, marker, 0);
    assert(find_from(t, marker, 0) == Some(i));
    lemma_joined_prefix(lines, k + 1);
    assert(lines.take(k + 1).drop_last() == lines.take(k));
    let a = joined(lines.take(k));
    let b = joined(lines.take(k + 1));
    let whole = joined(lines);
    let cut = i + marker.len();
    let out = injected(t, marker, lines);
    assert(b == a + seq!['\n'] + lines[k]);
    assert(out == t.subrange(0, cut) + whole + t.subrange(cut, t.len() as int));
    let pos = cut + a.len();
    assert(out.subrange(pos, pos + 1 + lines[k].len()) =~= whole.subrange(
        a.len() as int,
        (a.len() + 1 + lines[k].len()) as int,
    ));
    assert(whole.subrange(a.len() as int, (a.len() + 1 + lines[k].len()) as int) =~= b.subrange(
        a.len() as int,
        b.len() as int,
    ));
}

/// Rendering depends on the texts given and nothing else: the same template,
/// field texts, row lines and marker always give the same document.
pub proof fn lemma_render_repeatable(
    template: Seq<char>,
    fields_a: Seq<(String, String)>,
    fields_b: Seq<(String, String)>,
    rows_a: Seq<BillingRow>,
    rows_b: Seq<BillingRow>,
    row_marker: Seq<char>,
)
    requires
        field_views(fields_a) == field_views(fields_b),
        row_lines(rows_a) == row_lines(rows_b),
    ensures
        rendered(template, trim_values(field_views(fields_a)), rows_a, row_marker) == rendered(
            template,
            trim_values(field_views(fields_b)),
            rows_b,
            row_marker,
        ),
{
}

} // verus!
