//! The reports of the `config validate` and `config import` commands, built
//! from the validator's findings.

use vstd::prelude::*;
use crate::commands::finding_text;
use crate::commands::format_finding;
use crate::commands::Severity;
use crate::commands::ValidationFinding;
use crate::text::chars_to_string;
use crate::text::decimal;
use crate::text::push_decimal;
use crate::text::push_str;
use crate::text::push_string;
use crate::text::str_chars;
use crate::text::views;

verus! {

/// The findings of severity `sev`, in order.
pub open spec fn of_severity(f: Seq<ValidationFinding>, sev: Severity) -> Seq<ValidationFinding>
    decreases f.len(),
{
    if f.len() == 0 {
        Seq::empty()
    } else if f.last().severity == sev {
        of_severity(f.drop_last(), sev).push(f.last())
    } else {
        of_severity(f.drop_last(), sev)
    }
}

/// One indented line per finding.
pub open spec fn indented(f: Seq<ValidationFinding>) -> Seq<Seq<char>> {
    f.map_values(|x: ValidationFinding| "  "@ + finding_text(x))
}

/// What `config validate` prints, line by line.
pub open spec fn validate_lines(f: Seq<ValidationFinding>) -> Seq<Seq<char>> {
    let w = of_severity(f, Severity::Warning);
    let e = of_severity(f, Severity::Error);
    if f.len() == 0 {
        seq!["Configuration is valid. No issues found."@]
    } else {
        (if w.len() > 0 {
            seq!["Warnings ("@ + decimal(w.len()) + "):"@] + indented(w)
        } else {
            Seq::empty()
        }) + if e.len() > 0 {
            seq!["Errors ("@ + decimal(e.len()) + "):"@] + indented(e) + seq![
                "\nConfiguration has "@ + decimal(e.len()) + " error(s). Fix them before running."@,
            ]
        } else {
            seq!["\nConfiguration is valid with "@ + decimal(w.len()) + " warning(s)."@]
        }
    }
}

/// The indented lines of the findings of severity `sev`.
pub fn severity_lines(findings: &Vec<ValidationFinding>, sev: Severity) -> (v: Vec<String>)
    ensures
        views(v@) == indented(of_severity(findings@, sev)),
        v@.len() == of_severity(findings@, sev).len(),
{
    let mut v: Vec<String> = Vec::new();
    let mut i: usize = 0;
    while i < findings.len()
        invariant
            i <= findings@.len(),
            views(v@) == indented(of_severity(findings@.take(i as int), sev)),
            v@.len() == of_severity(findings@.take(i as int), sev).len(),
        decreases findings.len() - i,
    {
        assert(findings@.take(i + 1).drop_last() =~= findings@.take(i as int));
        let f = &findings[i];
        if f.severity == sev {
            let t = format_finding(f);
            let mut s = str_chars("  ");
            push_string(&mut s, &t);
            let ghost before = views(v@);
            v.push(chars_to_string(&s));
            assert(views(v@) =~= indented(of_severity(findings@.take(i + 1), sev))) by {
                assert(views(v@) =~= before.push("  "@ + finding_text(*f)));
            }
        }
        i = i + 1;
    }
    assert(findings@.take(i as int) =~= findings@);
    v
}

fn count_line(pre: &str, n: usize, post: &str) -> (r: String)
    ensures
        r@ == pre@ + decimal(n as nat) + post@,
{
    let mut s = str_chars(pre);
    push_decimal(&mut s, n as u64);
    push_str(&mut s, post);
    chars_to_string(&s)
}

fn append_all(v: &mut Vec<String>, w: Vec<String>)
    ensures
        views(final(v)@) == views(old(v)@) + views(w@),
{
    let mut i: usize = 0;
    while i < w.len()
        invariant
            i <= w@.len(),
            views(v@) == views(old(v)@) + views(w@.take(i as int)),
        decreases w.len() - i,
    {
        let ghost before = views(v@);
        v.push(w[i].clone());
        assert(views(v@) =~= views(old(v)@) + views(w@.take(i + 1))) by {
            assert(views(v@) =~= before.push(w@[i as int]@));
        }
        i = i + 1;
    }
    assert(w@.take(i as int) =~= w@);
}

/// The report of `config validate`, and whether the command fails (it does
/// when there is any error).
pub fn validate_report(findings: &Vec<ValidationFinding>) -> (r: (Vec<String>, bool))
    ensures
        views(r.0@) == validate_lines(findings@),
        r.1 == (of_severity(findings@, Severity::Error).len() > 0),
{
    let mut v: Vec<String> = Vec::new();
    if findings.len() == 0 {
        v.push(String::from_str("Configuration is valid. No issues found."));
        assert(views(v@) =~= validate_lines(findings@));
        return (v, false);
    }
    let warnings = severity_lines(findings, Severity::Warning);
    let errors = severity_lines(findings, Severity::Error);
    let nw = warnings.len();
    let ne = errors.len();
    let ghost ws = of_severity(findings@, Severity::Warning);
    let ghost es = of_severity(findings@, Severity::Error);
    if nw > 0 {
        v.push(count_line("Warnings (", nw, "):"));
        append_all(&mut v, warnings);
    }
    let ghost head = views(v@);
    assert(head =~= (if ws.len() > 0 {
        seq!["Warnings ("@ + decimal(ws.len()) + "):"@] + indented(ws)
    } else {
        Seq::<Seq<char>>::empty()
    }));
    if ne > 0 {
        let h = count_line("Errors (", ne, "):");
        v.push(h);
        let ghost s1 = views(v@);
        assert(s1 =~= head + seq![h@]);
        append_all(&mut v, errors);
        let ghost s2 = views(v@);
        let t = count_line("\nConfiguration has ", ne, " error(s). Fix them before running.");
        v.push(t);
        assert(views(v@) =~= s2.push(t@));
        assert(views(v@) =~= head + (seq!["Errors ("@ + decimal(es.len()) + "):"@] + indented(es) + seq![
            "\nConfiguration has "@ + decimal(es.len()) + " error(s). Fix them before running."@,
        ]));
    } else {
        v.push(count_line("\nConfiguration is valid with ", nw, " warning(s)."));
        assert(views(v@) =~= head + seq!["\nConfiguration is valid with "@ + decimal(ws.len()) + " warning(s)."@]);
    }
    assert(views(v@) =~= validate_lines(findings@));
    (v, ne > 0)
}

} // verus!
