//! The archive: records one after the other, with no framing around them.

use vstd::prelude::*;
use crate::error::{parsed_err, parsed_ok, ErrorView, FtfError, Parsed};
use crate::record::{
    lemma_parse_record_rest, lemma_record_roundtrip, parse_record, Record, RecordView,
};
use crate::source::ByteSource;

verus! {

/// A sequence of records
/// Must begin with a Magic record
#[derive(Debug, Clone, PartialEq, Eq)]
pub struct Archive {
    /// the records in the archive
    pub records: Vec<Record>,
}

/// The models of `records`, in order.
pub open spec fn records_view(records: Seq<Record>) -> Seq<RecordView> {
    records.map_values(|r: Record| r@)
}

impl View for Archive {
    type V = Seq<RecordView>;

    open spec fn view(&self) -> Seq<RecordView> {
        records_view(self.records@)
    }
}

/// The bytes of `records`, one after the other.
pub open spec fn encode_records(records: Seq<RecordView>) -> Seq<u8>
    decreases records.len(),
{
    if records.len() == 0 {
        Seq::empty()
    } else {
        records[0].encoding() + encode_records(records.drop_first())
    }
}

/// The number of records at the front of `records` that have an encoder.
pub open spec fn writable_prefix(records: Seq<RecordView>) -> nat
    decreases records.len(),
{
    if records.len() == 0 || !records[0].supported() {
        0
    } else {
        1 + writable_prefix(records.drop_first())
    }
}

/// What reading records to the end makes of `input`, after `done` have been
/// read: the end of the input at the start of a record ends the archive, and
/// the first failure, an end inside a record among them, fails it.
pub open spec fn parse_records(done: Seq<RecordView>, input: Seq<u8>) -> Parsed<Seq<RecordView>>
    decreases input.len(),
{
    if input.len() == 0 {
        parsed_ok(done, input)
    } else {
        let first = parse_record(input);
        match first.result {
            Err(e) => parsed_err(e, first.rest),
            Ok(r) => {
                proof {
                    lemma_parse_record_rest(input);
                }
                parse_records(done.push(r), first.rest)
            },
        }
    }
}

/// What reading an archive makes of `input`.
pub open spec fn parse_archive(input: Seq<u8>) -> Parsed<Seq<RecordView>> {
    parse_records(Seq::empty(), input)
}

/// The model of what reading an archive returned.
pub open spec fn archive_outcome(res: Result<Archive, FtfError>) -> Result<
    Seq<RecordView>,
    ErrorView,
> {
    match res {
        Ok(archive) => Ok(archive@),
        Err(e) => Err(e@),
    }
}

impl Archive {
    /// Reads records until the source is exhausted. A source that ends
    /// inside a record is an error.
    pub fn read(reader: &mut ByteSource) -> (res: Result<Self, FtfError>)
        ensures
            archive_outcome(res) == parse_archive(old(reader).remaining()).result,
            final(reader).remaining() == parse_archive(old(reader).remaining()).rest,
    {
        let mut res: Vec<Record> = Vec::new();
        assert(records_view(res@) =~= Seq::<RecordView>::empty());
        while !reader.is_exhausted()
            invariant
                parse_records(records_view(res@), reader.remaining()) == parse_archive(
                    old(reader).remaining(),
                ),
            decreases reader.remaining().len(),
        {
            let ghost done = records_view(res@);
            proof {
                lemma_parse_record_rest(reader.remaining());
            }
            let record = Record::read(reader)?;
            res.push(record);
            assert(records_view(res@) =~= done.push(record@));
        }
        Ok(Archive { records: res })
    }

    /// Writes the records in order. The first record without an encoder
    /// ends the writing with its error; what was written before it stays.
    pub fn write(&self, writer: &mut Vec<u8>) -> (res: Result<(), FtfError>)
        ensures
            final(writer)@ == old(writer)@ + encode_records(
                self@.take(writable_prefix(self@) as int),
            ),
            writable_prefix(self@) <= self@.len(),
            writable_prefix(self@) == self@.len() ==> res is Ok,
            writable_prefix(self@) < self@.len() ==> res is Err && res->Err_0@
                == self@[writable_prefix(self@) as int].write_error(),
    {
        let mut i: usize = 0;
        assert(self@.take(0) =~= Seq::<RecordView>::empty());
        assert(writer@ =~= old(writer)@ + encode_records(self@.take(0)));
        while i < self.records.len()
            invariant
                i <= self.records.len(),
                self@ == records_view(self.records@),
                writer@ == old(writer)@ + encode_records(self@.take(i as int)),
                forall|j: int| 0 <= j < i ==> (#[trigger] self@[j]).supported(),
            decreases self.records.len() - i,
        {
            let ghost before = writer@;
            let written = self.records[i].write(writer);
            match written {
                Ok(()) => {},
                Err(e) => {
                    proof {
                        lemma_writable_prefix_stops(self@, i as int);
                        assert(writer@ =~= before);
                    }
                    return Err(e);
                },
            }
            proof {
                assert(self@.take(i as int + 1) =~= self@.take(i as int).push(self@[i as int]));
                lemma_encode_records_push(self@.take(i as int), self@[i as int]);
            }
            i = i + 1;
        }
        proof {
            lemma_writable_prefix_all(self@);
            assert(self@.take(i as int) =~= self@);
        }
        Ok(())
    }
}

/// Appending one record appends its bytes.
pub proof fn lemma_encode_records_push(records: Seq<RecordView>, last: RecordView)
    ensures
        encode_records(records.push(last)) == encode_records(records) + last.encoding(),
    decreases records.len(),
{
    if records.len() == 0 {
        assert(records.push(last).drop_first() =~= Seq::<RecordView>::empty());
        assert(encode_records(Seq::<RecordView>::empty()) =~= Seq::<u8>::empty());
        assert(encode_records(records.push(last)) =~= last.encoding());
        assert(encode_records(records) + last.encoding() =~= last.encoding());
    } else {
        assert(records.push(last).drop_first() =~= records.drop_first().push(last));
        lemma_encode_records_push(records.drop_first(), last);
        assert(encode_records(records.push(last)) =~= encode_records(records) + last.encoding());
    }
}

/// The records with an encoder at the front end at the first one without.
pub proof fn lemma_writable_prefix_stops(records: Seq<RecordView>, index: int)
    requires
        0 <= index < records.len(),
        forall|j: int| 0 <= j < index ==> (#[trigger] records[j]).supported(),
        !records[index].supported(),
    ensures
        writable_prefix(records) == index,
    decreases index,
{
    if index > 0 {
        let rest = records.drop_first();
        assert forall|j: int| 0 <= j < index - 1 implies (#[trigger] rest[j]).supported() by {
            assert(rest[j] == records[j + 1]);
        }
        lemma_writable_prefix_stops(rest, index - 1);
    }
}

/// Where every record has an encoder, all of them are at the front.
pub proof fn lemma_writable_prefix_all(records: Seq<RecordView>)
    requires
        forall|j: int| 0 <= j < records.len() ==> (#[trigger] records[j]).supported(),
    ensures
        writable_prefix(records) == records.len(),
    decreases records.len(),
{
    if records.len() > 0 {
        let rest = records.drop_first();
        assert forall|j: int| 0 <= j < rest.len() implies (#[trigger] rest[j]).supported() by {
            assert(rest[j] == records[j + 1]);
        }
        lemma_writable_prefix_all(rest);
    }
}

/// Records that can be written and whose headers can hold their fields are
/// read back, in order, from the bytes that writing them gives.
pub proof fn lemma_records_roundtrip(done: Seq<RecordView>, records: Seq<RecordView>)
    requires
        forall|i: int| 0 <= i < records.len() ==> (#[trigger] records[i]).wf(),
    ensures
        parse_records(done, encode_records(records)) == parsed_ok(
            done + records,
            Seq::<u8>::empty(),
        ),
    decreases records.len(),
{
    if records.len() == 0 {
        assert(done + records =~= done);
    } else {
        let first = records[0];
        let rest = records.drop_first();
        lemma_record_roundtrip(first, encode_records(rest));
        assert forall|i: int| 0 <= i < rest.len() implies (#[trigger] rest[i]).wf() by {
            assert(rest[i] == records[i + 1]);
        }
        lemma_records_roundtrip(done.push(first), rest);
        assert(done.push(first) + rest =~= done + records);
    }
}

/// An archive of records that can be written and whose headers can hold
/// their fields is written in full, and reading the bytes gives the same
/// records back.
pub proof fn lemma_archive_roundtrip(records: Seq<RecordView>)
    requires
        forall|i: int| 0 <= i < records.len() ==> (#[trigger] records[i]).wf(),
    ensures
        writable_prefix(records) == records.len(),
        parse_archive(encode_records(records)).result == Ok::<Seq<RecordView>, ErrorView>(
            records,
        ),
{
    assert forall|j: int| 0 <= j < records.len() implies (#[trigger] records[j]).supported() by {
        assert(records[j].wf());
    }
    lemma_writable_prefix_all(records);
    lemma_records_roundtrip(Seq::empty(), records);
    assert(Seq::<RecordView>::empty() + records =~= records);
}

} // verus!
