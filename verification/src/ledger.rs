//! The metadata ledger of a package: its records, oldest first, one on each
//! line.

use vstd::prelude::*;
use vstd::utf8::{char_is_scalar, encode_scalar, encode_utf8};

verus! {

/// The byte that separates the records of a ledger.
pub const LINE_FEED: u8 = 10;

/// The ledger after a record is appended: the old content, a line feed, the
/// record.
pub open spec fn spec_appended(ledger: Seq<u8>, record: Seq<u8>) -> Seq<u8> {
    ledger + seq![LINE_FEED] + record
}

/// The content of a ledger that holds the given records, oldest first: the
/// records with a line feed between each two.
pub open spec fn ledger_of(records: Seq<Seq<u8>>) -> Seq<u8>
    decreases records.len(),
{
    if records.len() == 0 {
        Seq::empty()
    } else if records.len() == 1 {
        records[0]
    } else {
        spec_appended(ledger_of(records.drop_last()), records.last())
    }
}

/// The bytes hold no line feed.
pub open spec fn single_line(bytes: Seq<u8>) -> bool {
    forall|i: int| 0 <= i < bytes.len() ==> bytes[i] != LINE_FEED
}

/// The lines of a text: what stands between its line feeds.
pub open spec fn lines_of(text: Seq<u8>) -> Seq<Seq<u8>>
    decreases text.len(),
{
    if text.len() == 0 {
        seq![Seq::empty()]
    } else {
        let before = lines_of(text.drop_last());
        if text.last() == LINE_FEED {
            before.push(Seq::empty())
        } else {
            before.update(before.len() - 1, before.last().push(text.last()))
        }
    }
}

/// A text without line feed has itself as its only line.
pub proof fn lemma_lines_of_single(line: Seq<u8>)
    requires
        single_line(line),
    ensures
        lines_of(line) == seq![line],
    decreases line.len(),
{
    if line.len() > 0 {
        let init = line.drop_last();
        lemma_lines_of_single(init);
        assert(init.push(line.last()) =~= line);
    } else {
        assert(line =~= Seq::empty());
    }
}

/// Appending a single line to a text adds that line to its lines.
pub proof fn lemma_lines_of_appended(head: Seq<u8>, line: Seq<u8>)
    requires
        single_line(line),
    ensures
        lines_of(spec_appended(head, line)) == lines_of(head).push(line),
    decreases line.len(),
{
    let text = spec_appended(head, line);
    if line.len() == 0 {
        assert(text.drop_last() =~= head);
        assert(line =~= Seq::empty());
    } else {
        let init = line.drop_last();
        assert(text.drop_last() =~= spec_appended(head, init));
        lemma_lines_of_appended(head, init);
        assert(init.push(line.last()) =~= line);
    }
}

/// The lines of a ledger are its records, where there is at least one
/// record and each is a single line.
pub proof fn lemma_ledger_lines(records: Seq<Seq<u8>>)
    requires
        records.len() > 0,
        forall|i: int| 0 <= i < records.len() ==> single_line(#[trigger] records[i]),
    ensures
        lines_of(ledger_of(records)) == records,
    decreases records.len(),
{
    if records.len() == 1 {
        lemma_lines_of_single(records[0]);
    } else {
        let init = records.drop_last();
        lemma_ledger_lines(init);
        lemma_lines_of_appended(ledger_of(init), records.last());
    }
}

/// The UTF-8 encoding of one character holds a line feed only where the
/// character is a line feed.
proof fn lemma_scalar_line_feed(c: char)
    requires
        c != '\n',
    ensures
        single_line(encode_scalar(c as u32)),
{
    char_is_scalar(c);
    let s = c as u32;
    assert(s <= 0x7F && s != 10 ==> (s & 0x7F) as u8 != 10) by (bit_vector);
    assert((0xC0u8 | ((s >> 6) & 0x1F) as u8) != 10) by (bit_vector);
    assert((0xE0u8 | ((s >> 12) & 0x0F) as u8) != 10) by (bit_vector);
    assert((0xF0u8 | ((s >> 18) & 0x7) as u8) != 10) by (bit_vector);
    assert((0x80u8 | (s & 0x3F) as u8) != 10) by (bit_vector);
    assert((0x80u8 | ((s >> 6) & 0x3F) as u8) != 10) by (bit_vector);
    assert((0x80u8 | ((s >> 12) & 0x3F) as u8) != 10) by (bit_vector);
}

/// The UTF-8 encoding of a text without line feed characters is a single
/// line.
pub proof fn lemma_encoded_single_line(text: Seq<char>)
    requires
        !text.contains('\n'),
    ensures
        single_line(encode_utf8(text)),
    decreases text.len(),
{
    if text.len() > 0 {
        let rest = text.drop_first();
        lemma_scalar_line_feed(text[0]);
        lemma_encoded_single_line(rest);
    }
}

/// Appends a record to the content of a ledger.
pub fn appended(mut ledger: Vec<u8>, mut record: Vec<u8>) -> (out: Vec<u8>)
    ensures
        out@ == spec_appended(ledger@, record@),
{
    ledger.push(LINE_FEED);
    ledger.append(&mut record);
    ledger
}

} // verus!
