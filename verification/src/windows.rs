//! Discovery on Windows: parsing the printer listing either as a textual
//! report of label:value blocks separated by a blank line, or as a JSON
//! document holding an array of `{Name, DriverName}` objects.

use vstd::prelude::*;
use vstd::string::*;

use crate::json::{decode_listing, listing_entries_of};
use crate::printer::{wf_model, Printer, PrinterModel};
use crate::text::{after_last_colon, after_last_colon_str, split_crlf, split_crlf_str, trim_str, trimmed};

verus! {

/// The value carried by one label:value line: the text after the last
/// colon, trimmed. A line without a colon yields the whole line, trimmed.
pub open spec fn label_value(line: Seq<char>) -> Seq<char> {
    trimmed(after_last_colon(line))
}

/// The blocks of a listing, each a run of consecutive non-empty lines;
/// blank lines separate blocks.
pub open spec fn blocks_of(lines: Seq<Seq<char>>) -> Seq<Seq<Seq<char>>>
    decreases lines.len(),
{
    if lines.len() == 0 {
        seq![Seq::<Seq<char>>::empty()]
    } else {
        let prev = blocks_of(lines.drop_last());
        if lines.last().len() == 0 {
            prev.push(Seq::<Seq<char>>::empty())
        } else {
            prev.update(prev.len() - 1, prev.last().push(lines.last()))
        }
    }
}

/// A block that matches the expected report shape: at least the `Name` and
/// `DriverName` lines, and a non-empty name value.
pub open spec fn wf_block(b: Seq<Seq<char>>) -> bool {
    b.len() >= 2 && label_value(b[0]).len() > 0
}

/// The records one block contributes: one for a well-formed block, whose
/// name value is both display name and system identifier; none for a
/// malformed block, which is skipped rather than aborting the listing.
pub open spec fn block_records(b: Seq<Seq<char>>) -> Seq<PrinterModel> {
    if wf_block(b) {
        seq![
            PrinterModel {
                name: label_value(b[0]),
                system_name: label_value(b[0]),
                driver_name: label_value(b[1]),
            },
        ]
    } else {
        Seq::<PrinterModel>::empty()
    }
}

/// The records of a sequence of blocks, in listing order.
pub open spec fn records_of_blocks(bs: Seq<Seq<Seq<char>>>) -> Seq<PrinterModel>
    decreases bs.len(),
{
    if bs.len() == 0 {
        Seq::<PrinterModel>::empty()
    } else {
        records_of_blocks(bs.drop_last()) + block_records(bs.last())
    }
}

/// All records parsed from the textual form of the Windows listing.
pub open spec fn windows_text_records(out: Seq<char>) -> Seq<PrinterModel> {
    records_of_blocks(blocks_of(split_crlf(out)))
}

/// Parses the textual form of the Windows listing: records separated by a
/// blank line, each carrying a `Name` and a `DriverName` label:value line.
/// Malformed blocks (fewer than two lines, or an empty name value) are
/// skipped, so every record is well-formed.
pub fn parse_windows_text_listing(out: &str) -> (r: Vec<Printer>)
    ensures
        r.deep_view() == windows_text_records(out@),
        forall|i: int| 0 <= i < r.deep_view().len() ==> wf_model(#[trigger] r.deep_view()[i]),
{
    let lines = split_crlf_str(out);
    let ghost lv = lines.deep_view();
    let mut r: Vec<Printer> = Vec::new();
    let mut first = String::new();
    let mut cur_len: usize = 0;
    let mut i: usize = 0;
    proof {
        assert(lv.take(0) =~= Seq::<Seq<char>>::empty());
        assert(r.deep_view() =~= Seq::<PrinterModel>::empty());
        let bs0 = seq![Seq::<Seq<char>>::empty()];
        assert(bs0.drop_last() =~= Seq::<Seq<Seq<char>>>::empty());
        assert(records_of_blocks(bs0.drop_last()) =~= Seq::<PrinterModel>::empty());
        assert(block_records(bs0.last()) =~= Seq::<PrinterModel>::empty());
        assert(records_of_blocks(bs0) =~= Seq::<PrinterModel>::empty());
    }
    while i < lines.len()
        invariant
            i <= lines.len(),
            cur_len <= i,
            lv == lines.deep_view(),
            lv.len() == lines.len(),
            blocks_of(lv.take(i as int)).len() >= 1,
            blocks_of(lv.take(i as int)).last().len() == cur_len,
            cur_len >= 1 ==> blocks_of(lv.take(i as int)).last()[0] == first@,
            r.deep_view() == records_of_blocks(blocks_of(lv.take(i as int))),
            forall|k: int|
                0 <= k < r.deep_view().len() ==> wf_model(#[trigger] r.deep_view()[k]),
        decreases lines.len() - i,
    {
        let ghost old_blocks = blocks_of(lv.take(i as int));
        let line = &lines[i];
        proof {
            let t = lv.take(i as int + 1);
            assert(t.drop_last() =~= lv.take(i as int));
            assert(t.last() == lv[i as int]);
        }
        if line.unicode_len() == 0 {
            cur_len = 0;
            proof {
                let new_blocks = blocks_of(lv.take(i as int + 1));
                assert(new_blocks == old_blocks.push(Seq::<Seq<char>>::empty()));
                assert(new_blocks.drop_last() =~= old_blocks);
                assert(records_of_blocks(new_blocks) =~= records_of_blocks(old_blocks));
            }
        } else {
            proof {
                let new_blocks = blocks_of(lv.take(i as int + 1));
                let grown = old_blocks.last().push(lv[i as int]);
                assert(new_blocks == old_blocks.update(old_blocks.len() - 1, grown));
                assert(new_blocks.drop_last() =~= old_blocks.drop_last());
                assert(new_blocks.last() == grown);
            }
            if cur_len == 0 {
                first = line.clone();
                cur_len = 1;
                proof {
                    let new_blocks = blocks_of(lv.take(i as int + 1));
                    assert(!wf_block(new_blocks.last()));
                    assert(records_of_blocks(new_blocks) =~= records_of_blocks(old_blocks));
                }
            } else if cur_len == 1 {
                let name_raw = after_last_colon_str(first.as_str());
                let name = trim_str(name_raw.as_str());
                let ghost new_blocks = blocks_of(lv.take(i as int + 1));
                let ghost b = new_blocks.last();
                proof {
                    assert(b[0] == first@);
                    assert(b[1] == lv[i as int]);
                    assert(name@ == label_value(b[0]));
                }
                if name.unicode_len() > 0 {
                    let driver_raw = after_last_colon_str(line.as_str());
                    let driver_name = trim_str(driver_raw.as_str());
                    let system_name = name.clone();
                    let p = Printer { name, system_name, driver_name };
                    proof {
                        assert(wf_block(b));
                        assert(block_records(b) =~= seq![p@]);
                    }
                    r.push(p);
                } else {
                    proof {
                        assert(!wf_block(b));
                        assert(records_of_blocks(new_blocks) =~= records_of_blocks(
                            old_blocks,
                        ));
                    }
                }
                cur_len = 2;
            } else {
                proof {
                    let new_blocks = blocks_of(lv.take(i as int + 1));
                    let b = new_blocks.last();
                    let ob = old_blocks.last();
                    assert(b[0] == ob[0]);
                    assert(b[1] == ob[1]);
                    assert(block_records(b) =~= block_records(ob));
                }
                cur_len = cur_len + 1;
            }
        }
        i = i + 1;
    }
    proof {
        assert(lv.take(lines.len() as int) =~= lv);
    }
    r
}

proof fn lemma_block_records_align(bs: Seq<Seq<Seq<char>>>)
    requires
        forall|i: int| 0 <= i < bs.len() ==> wf_block(#[trigger] bs[i]),
    ensures
        records_of_blocks(bs).len() == bs.len(),
        forall|i: int|
            0 <= i < bs.len() ==> {
                let r = #[trigger] records_of_blocks(bs)[i];
                &&& r.name == label_value(bs[i][0])
                &&& r.system_name == label_value(bs[i][0])
                &&& r.driver_name == label_value(bs[i][1])
            },
    decreases bs.len(),
{
    if bs.len() > 0 {
        assert(forall|i: int|
            0 <= i < bs.drop_last().len() ==> wf_block(#[trigger] bs.drop_last()[i]));
        lemma_block_records_align(bs.drop_last());
    }
}

/// Law: a listing made only of well-formed label:value blocks parses to one
/// record per block; the block's name value is both the display name and
/// the system identifier, and its driver value is passed through.
pub proof fn lemma_windows_listing_records(out: Seq<char>)
    requires
        forall|i: int|
            0 <= i < blocks_of(split_crlf(out)).len() ==> wf_block(
                #[trigger] blocks_of(split_crlf(out))[i],
            ),
    ensures
        windows_text_records(out).len() == blocks_of(split_crlf(out)).len(),
        forall|i: int|
            0 <= i < windows_text_records(out).len() ==> {
                let r = #[trigger] windows_text_records(out)[i];
                let b = blocks_of(split_crlf(out))[i];
                &&& r.name == label_value(b[0])
                &&& r.system_name == label_value(b[0])
                &&& r.driver_name == label_value(b[1])
            },
{
    lemma_block_records_align(blocks_of(split_crlf(out)));
}

/// Mathematical model of one structured-listing entry.
#[verifier::ext_equal]
pub ghost struct EntryModel {
    /// The printer's reported name.
    pub name: Seq<char>,
    /// The printer's reported driver name.
    pub driver_name: Seq<char>,
}

/// One entry of the structured (JSON) form of the listing: the printer's
/// reported name and driver name.
pub struct ListingEntry {
    /// The printer's reported name.
    pub name: String,
    /// The printer's reported driver name; empty where none was reported.
    pub driver_name: String,
}

impl View for ListingEntry {
    type V = EntryModel;

    open spec fn view(&self) -> EntryModel {
        EntryModel { name: self.name@, driver_name: self.driver_name@ }
    }
}

impl DeepView for ListingEntry {
    type V = EntryModel;

    open spec fn deep_view(&self) -> EntryModel {
        self.view()
    }
}

/// The records one structured-listing entry contributes: one for an entry
/// with a non-empty name, none otherwise.
pub open spec fn single_entry_records(e: EntryModel) -> Seq<PrinterModel> {
    if e.name.len() > 0 {
        seq![PrinterModel { name: e.name, system_name: e.name, driver_name: e.driver_name }]
    } else {
        Seq::<PrinterModel>::empty()
    }
}

/// The records of a sequence of structured-listing entries, in order.
pub open spec fn entry_records(es: Seq<EntryModel>) -> Seq<PrinterModel>
    decreases es.len(),
{
    if es.len() == 0 {
        Seq::<PrinterModel>::empty()
    } else {
        entry_records(es.drop_last()) + single_entry_records(es.last())
    }
}

proof fn lemma_entry_records_wf(es: Seq<EntryModel>)
    ensures
        forall|i: int|
            0 <= i < entry_records(es).len() ==> {
                let r = #[trigger] entry_records(es)[i];
                wf_model(r) && r.name == r.system_name
            },
    decreases es.len(),
{
    if es.len() > 0 {
        lemma_entry_records_wf(es.drop_last());
        let prev = entry_records(es.drop_last());
        let add = single_entry_records(es.last());
        assert forall|i: int|
            0 <= i < entry_records(es).len() implies {
            let r = #[trigger] entry_records(es)[i];
            wf_model(r) && r.name == r.system_name
        } by {
            if i < prev.len() {
                assert(entry_records(es)[i] == prev[i]);
            } else {
                assert(entry_records(es)[i] == add[i - prev.len()]);
            }
        }
    }
}

/// Normalizes structured-listing entries into printer records: the reported
/// name becomes both the display name and the system identifier, and the
/// driver name is passed through; entries with an empty name are skipped,
/// so every record is well-formed.
pub fn printers_from_entries(entries: &Vec<ListingEntry>) -> (r: Vec<Printer>)
    ensures
        r.deep_view() == entry_records(entries.deep_view()),
        forall|i: int| 0 <= i < r.deep_view().len() ==> wf_model(#[trigger] r.deep_view()[i]),
{
    let ghost ev = entries.deep_view();
    let mut r: Vec<Printer> = Vec::new();
    let mut i: usize = 0;
    proof {
        assert(ev.take(0) =~= Seq::<EntryModel>::empty());
        assert(r.deep_view() =~= Seq::<PrinterModel>::empty());
    }
    while i < entries.len()
        invariant
            i <= entries.len(),
            ev == entries.deep_view(),
            ev.len() == entries.len(),
            r.deep_view() == entry_records(ev.take(i as int)),
        decreases entries.len() - i,
    {
        let e = &entries[i];
        if e.name.unicode_len() > 0 {
            let name = e.name.clone();
            let system_name = e.name.clone();
            let driver_name = e.driver_name.clone();
            r.push(Printer { name, system_name, driver_name });
        }
        i = i + 1;
        proof {
            let t = ev.take(i as int);
            assert(t.drop_last() =~= ev.take(i as int - 1));
            assert(t.last() == ev[i - 1]);
        }
    }
    proof {
        assert(ev.take(entries.len() as int) =~= ev);
        lemma_entry_records_wf(ev);
    }
    r
}

/// Parses the structured (JSON) form of the Windows listing: an array of
/// objects whose `Name` and `DriverName` fields carry strings. Returns
/// `None` exactly where the text does not decode to a JSON array, so a
/// caller can tell a failed query from an empty one; otherwise it returns
/// the records of every decoded entry — an element without a string `Name`
/// is skipped rather than aborting the listing, and a missing driver is
/// reported as empty. Every returned record is well-formed and uses the
/// reported name as both display name and system identifier.
pub fn parse_windows_json_listing(s: &str) -> (r: Option<Vec<Printer>>)
    ensures
        r is Some <==> listing_entries_of(s@) is Some,
        r matches Some(v) ==> {
            &&& listing_entries_of(s@) matches Some(es) && v.deep_view() == entry_records(es)
            &&& forall|i: int|
                0 <= i < v.deep_view().len() ==> {
                    let m = #[trigger] v.deep_view()[i];
                    wf_model(m) && m.name == m.system_name
                }
        },
{
    let entries = match decode_listing(s) {
        Some(e) => e,
        None => {
            return None;
        },
    };
    let printers = printers_from_entries(&entries);
    proof {
        lemma_entry_records_wf(entries.deep_view());
    }
    Some(printers)
}

} // verus!
