//! Discovery on Unix-like systems: parsing the output of the print-status
//! command, one printer identifier per line.

use vstd::prelude::*;
use vstd::string::*;

use crate::printer::{wf_model, Printer, PrinterModel};
use crate::text::{
    replace_underscores, split_char, split_char_str, trim_str, trimmed, underscores_to_spaces,
};

verus! {

/// The display name derived from a listed identifier: underscores become
/// spaces, then the ends are trimmed. Cosmetic only; the identifier itself
/// is kept byte for byte.
pub open spec fn unix_display_name(line: Seq<char>) -> Seq<char> {
    trimmed(underscores_to_spaces(line))
}

/// The records one listing line contributes: one for a non-empty line,
/// none for an empty one.
pub open spec fn line_records(line: Seq<char>) -> Seq<PrinterModel> {
    if line.len() > 0 {
        seq![
            PrinterModel {
                name: unix_display_name(line),
                system_name: line,
                driver_name: Seq::<char>::empty(),
            },
        ]
    } else {
        Seq::<PrinterModel>::empty()
    }
}

/// The records of a sequence of listing lines, in listing order.
pub open spec fn records_of_lines(lines: Seq<Seq<char>>) -> Seq<PrinterModel>
    decreases lines.len(),
{
    if lines.len() == 0 {
        Seq::<PrinterModel>::empty()
    } else {
        records_of_lines(lines.drop_last()) + line_records(lines.last())
    }
}

/// All records parsed from the raw output of the Unix listing command.
pub open spec fn unix_records(out: Seq<char>) -> Seq<PrinterModel> {
    records_of_lines(split_char(out, '\n'))
}

/// Parses the output of the Unix print-status command: one system
/// identifier per line. Every non-empty line yields one record whose
/// `system_name` is the raw line and whose `name` is the cosmetic form;
/// empty lines yield none, so every record is well-formed.
pub fn parse_unix_listing(out: &str) -> (r: Vec<Printer>)
    ensures
        r.deep_view() == unix_records(out@),
        forall|i: int| 0 <= i < r.deep_view().len() ==> wf_model(#[trigger] r.deep_view()[i]),
{
    let lines = split_char_str(out, '\n');
    let mut r: Vec<Printer> = Vec::new();
    let ghost lv = lines.deep_view();
    let mut i: usize = 0;
    proof {
        assert(lv.take(0) =~= Seq::<Seq<char>>::empty());
        assert(r.deep_view() =~= Seq::<PrinterModel>::empty());
    }
    while i < lines.len()
        invariant
            i <= lines.len(),
            lv == lines.deep_view(),
            lv.len() == lines.len(),
            r.deep_view() == records_of_lines(lv.take(i as int)),
            forall|k: int|
                0 <= k < r.deep_view().len() ==> wf_model(#[trigger] r.deep_view()[k]),
        decreases lines.len() - i,
    {
        let line = &lines[i];
        if line.unicode_len() > 0 {
            let replaced = replace_underscores(line.as_str());
            let name = trim_str(replaced.as_str());
            let system_name = line.clone();
            let p = Printer { name, system_name, driver_name: String::new() };
            r.push(p);
        }
        i = i + 1;
        proof {
            let t = lv.take(i as int);
            assert(t.drop_last() =~= lv.take(i as int - 1));
            assert(t.last() == lv[i - 1]);
        }
    }
    proof {
        assert(lv.take(lines.len() as int) =~= lv);
    }
    r
}

/// The non-empty lines among `lines`, in order.
pub open spec fn kept_lines(lines: Seq<Seq<char>>) -> Seq<Seq<char>>
    decreases lines.len(),
{
    if lines.len() == 0 {
        Seq::<Seq<char>>::empty()
    } else {
        kept_lines(lines.drop_last()) + (if lines.last().len() > 0 {
            seq![lines.last()]
        } else {
            Seq::<Seq<char>>::empty()
        })
    }
}

proof fn lemma_records_align(lines: Seq<Seq<char>>)
    ensures
        records_of_lines(lines).len() == kept_lines(lines).len(),
        forall|i: int|
            0 <= i < records_of_lines(lines).len() ==> {
                let r = #[trigger] records_of_lines(lines)[i];
                &&& r.system_name == kept_lines(lines)[i]
                &&& r.name == unix_display_name(kept_lines(lines)[i])
                &&& r.driver_name == Seq::<char>::empty()
            },
    decreases lines.len(),
{
    if lines.len() > 0 {
        lemma_records_align(lines.drop_last());
    }
}

/// Law: a well-formed Unix listing of N non-empty lines parses to exactly N
/// records; record `i` keeps line `i` verbatim as its system identifier,
/// derives its display name from it, and reports no driver.
pub proof fn lemma_unix_listing_records(out: Seq<char>)
    ensures
        unix_records(out).len() == kept_lines(split_char(out, '\n')).len(),
        forall|i: int|
            0 <= i < unix_records(out).len() ==> {
                let r = #[trigger] unix_records(out)[i];
                let line = kept_lines(split_char(out, '\n'))[i];
                &&& r.system_name == line
                &&& r.name == unix_display_name(line)
                &&& r.driver_name == Seq::<char>::empty()
            },
{
    lemma_records_align(split_char(out, '\n'));
}

} // verus!
