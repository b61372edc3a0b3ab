use tutor_invoice::invoice::BillingRow;
use tutor_invoice::money::Rate;
use tutor_invoice::template::{inject_rows, placeholder_text, render, render_verbatim, replace_text, row_text};

fn row(date: &str, description: &str, amount_mills: i128) -> BillingRow {
    BillingRow {
        date: date.to_string(),
        description: description.to_string(),
        start_display: "9:00am".to_string(),
        end_display: "10:00am".to_string(),
        rate: Rate { cents: 2000 },
        billed_half_hours: 2,
        amount_mills,
    }
}

fn fields(pairs: &[(&str, &str)]) -> Vec<(String, String)> {
    pairs.iter().map(|(n, v)| (n.to_string(), v.to_string())).collect()
}

#[test]
fn render_replaces_every_occurrence() {
    let out = render("{{TITLE}} and {{TITLE}}", &fields(&[("TITLE", "Invoice")]), &vec![], "% COLUMN START");
    assert_eq!(out, "Invoice and Invoice");
}

#[test]
fn render_trims_field_values() {
    let out = render("[{{TITLE}}]", &fields(&[("TITLE", "  Invoice\n")]), &vec![], "% COLUMN START");
    assert_eq!(out, "[Invoice]");
    let out = render_verbatim("[{{TITLE}}]", &fields(&[("TITLE", "  Invoice\n")]), &vec![], "% COLUMN START");
    assert_eq!(out, "[  Invoice\n]");
}

#[test]
fn render_leaves_unknown_placeholders() {
    let out = render("{{TITLE}} {{OTHER}} {TITLE}", &fields(&[("TITLE", "T")]), &vec![], "% COLUMN START");
    assert_eq!(out, "T {{OTHER}} {TITLE}");
}

#[test]
fn render_without_marker_drops_rows() {
    let template = "no marker here\n{{NOTHING}}";
    let rows = vec![row("2024-01-01", "Algebra", 20000)];
    assert_eq!(render(template, &vec![], &rows, "% COLUMN START"), template);
    assert_eq!(inject_rows(template, "% COLUMN START", &rows), template);
}

#[test]
fn render_puts_rows_after_marker_in_order() {
    let template = "begin\n% COLUMN START\nend % COLUMN START";
    let rows = vec![row("2024-01-01", "First", 20000), row("2024-01-02", "Second", 30000)];
    let out = render(template, &vec![], &rows, "% COLUMN START");
    assert_eq!(
        out,
        "begin\n% COLUMN START\n2024-01-01 & First & 9:00am-10:00am & 20 & 20 \\\\\n2024-01-02 & Second & 9:00am-10:00am & 20 & 30 \\\\\nend % COLUMN START"
    );
}

#[test]
fn render_substitutes_before_injecting() {
    let template = "{{MARK}}|{{TITLE}}";
    let rows = vec![row("2024-01-01", "{{TITLE}}", 20000)];
    let out = render(template, &fields(&[("MARK", "% COLUMN START"), ("TITLE", "T")]), &rows, "% COLUMN START");
    assert_eq!(out, "% COLUMN START\n2024-01-01 & {{TITLE}} & 9:00am-10:00am & 20 & 20 \\\\|T");
}

#[test]
fn render_twice_gives_same_output() {
    let template = "{{TITLE}}\n% COLUMN START\n{{TOTAL}}";
    let f = fields(&[("TITLE", "Invoice"), ("TOTAL", "50")]);
    let rows = vec![row("2024-01-01", "Algebra", 20000), row("2024-01-02", "Geometry", 30000)];
    let first = render(template, &f, &rows, "% COLUMN START");
    let second = render(template, &f, &rows, "% COLUMN START");
    assert_eq!(first, second);
}

#[test]
fn replace_is_left_to_right_without_overlap() {
    assert_eq!(replace_text("aaaa", "aa", "b"), "bb");
    assert_eq!(replace_text("aaa", "aa", "b"), "ba");
    assert_eq!(replace_text("xay", "a", "aa"), "xaay");
    assert_eq!(replace_text("", "a", "b"), "");
}

#[test]
fn placeholder_has_double_braces() {
    assert_eq!(placeholder_text("TITLE"), "{{TITLE}}");
}

#[test]
fn row_line_shape() {
    assert_eq!(row_text(&row("2024-01-01", "Algebra", 1250)), "2024-01-01 & Algebra & 9:00am-10:00am & 20 & 1.25 \\\\");
}
