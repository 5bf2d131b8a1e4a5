#![allow(unused_imports, unused_variables, unused_mut, dead_code)]

use ftfrs::bitutils::extract_bits;
use ftfrs::{
    Archive, Argument, ByteSource, Counter, DurationBegin, DurationComplete, DurationEnd, Event,
    EventRecord, FtfError, InitializationRecord, Instant, IoError, MetadataRecord, ProviderEvent,
    ProviderInfo, ProviderSection, Record, RecordHeader, RecordType, StringRecord, StringRef,
    ThreadRecord, ThreadRef, TraceInfo,
};

fn instant_of(event: Event) -> Instant {
    Instant::new(
        event.timestamp(),
        *event.thread(),
        event.category().clone(),
        event.name().clone(),
        event.arguments().to_vec(),
    )
}

fn trace_info_of(trace_info_type: u8, data: u64) -> TraceInfo {
    TraceInfo::new(
        trace_info_type,
        &[
            (data >> 32) as u8,
            (data >> 24) as u8,
            (data >> 16) as u8,
            (data >> 8) as u8,
            data as u8,
        ],
    )
}

/// Creates a ProviderInfo metadata record for testing
fn create_provider_info() -> MetadataRecord {
    MetadataRecord::ProviderInfo(ProviderInfo::new(42, "test_provider".to_string()))
}

/// Creates a TraceInfo metadata record for testing
fn create_trace_info() -> MetadataRecord {
    MetadataRecord::TraceInfo(trace_info_of(1, 0x12345678))
}

/// Creates a StringRecord for testing
fn create_string_record() -> StringRecord {
    StringRecord::new(1, "test_string".to_string())
}

/// Creates a ThreadRecord for testing
fn create_thread_record() -> ThreadRecord {
    ThreadRecord::new(1, 0x1234, 0x5678)
}

/// Creates an InitializationRecord for testing
fn create_initialization_record() -> InitializationRecord {
    InitializationRecord::new(1000000)
}

/// Creates an Instant event for testing
fn create_instant_event() -> EventRecord {
    let event = Event::new(
        100,
        ThreadRef::Ref(1),
        StringRef::Inline("category".to_string()),
        StringRef::Inline("event_name".to_string()),
        Vec::new(),
    );

    EventRecord::Instant(instant_of(event))
}

/// Creates a sample archive with various record types
fn create_sample_archive() -> Archive {
    let records = vec![
        // Magic number record
        Record::Metadata(MetadataRecord::MagicNumber),
        // Provider info record
        Record::Metadata(create_provider_info()),
        // Trace info record
        Record::Metadata(create_trace_info()),
        // String record
        Record::String(create_string_record()),
        // Thread record
        Record::Thread(create_thread_record()),
        // Initialization record
        Record::Initialization(create_initialization_record()),
        // Event record (Instant event)
        Record::Event(create_instant_event()),
    ];

    Archive { records }
}

#[test]
fn archive_test_test_empty_archive() -> Result<(), FtfError> {
    // Create an empty archive
    let archive = Archive {
        records: Vec::new(),
    };

    // Serialize to buffer
    let mut buffer = Vec::new();
    archive.write(&mut buffer)?;

    // Verify empty buffer
    assert!(buffer.is_empty());

    // Deserialize back
    let mut cursor = ByteSource::new(buffer.to_vec());
    let deserialized = Archive::read(&mut cursor)?;

    // Verify empty archive
    assert!(deserialized.records.is_empty());

    Ok(())
}

#[test]
fn archive_test_test_single_record_archive() -> Result<(), FtfError> {
    // Create archive with single record (Magic Number)
    let archive = Archive {
        records: vec![Record::Metadata(MetadataRecord::MagicNumber)],
    };

    // Serialize to buffer
    let mut buffer = Vec::new();
    archive.write(&mut buffer)?;

    // Verify non-empty buffer
    assert!(!buffer.is_empty());

    // Deserialize back
    let mut cursor = ByteSource::new(buffer.to_vec());
    let deserialized = Archive::read(&mut cursor)?;

    // Verify single record
    assert_eq!(deserialized.records.len(), 1);

    // Verify record type
    match &deserialized.records[0] {
        Record::Metadata(MetadataRecord::MagicNumber) => (),
        _ => panic!(
            "Expected MagicNumber record, got {:?}",
            deserialized.records[0]
        ),
    }

    Ok(())
}

#[test]
fn archive_test_test_multi_record_archive() -> Result<(), FtfError> {
    // Create a sample archive with multiple records
    let archive = create_sample_archive();
    let original_len = archive.records.len();

    // Serialize to buffer
    let mut buffer = Vec::new();
    archive.write(&mut buffer)?;

    // Verify buffer has content
    assert!(!buffer.is_empty());

    // Deserialize back
    let mut cursor = ByteSource::new(buffer.to_vec());
    let deserialized = Archive::read(&mut cursor)?;

    // Verify record count
    assert_eq!(deserialized.records.len(), original_len);

    // Verify records match
    for (i, (original, deserialized)) in archive
        .records
        .iter()
        .zip(deserialized.records.iter())
        .enumerate()
    {
        assert_eq!(
            original, deserialized,
            "Record at index {} doesn't match",
            i
        );
    }

    Ok(())
}

#[test]
fn archive_test_test_archive_with_unsupported_record_types() -> Result<(), FtfError> {
    // Create an archive with a mixture of supported and unsupported record types
    let mut archive = create_sample_archive();

    // Add unsupported record types
    archive.records.push(Record::Blob);
    archive.records.push(Record::Userspace);

    // Serialize to buffer (should skip unsupported records)
    let mut buffer = Vec::new();

    // This should return an error for unsupported record types
    let write_result = archive.write(&mut buffer);
    assert!(write_result.is_err());

    // But the buffer should still contain some supported records that were written before the error
    assert!(!buffer.is_empty());

    // Deserializing should give us just the records that were successfully written
    let mut cursor = ByteSource::new(buffer.to_vec());
    let deserialized = Archive::read(&mut cursor)?;

    // Verify all records are supported types
    for record in &deserialized.records {
        match record {
            Record::Metadata(_)
            | Record::Initialization(_)
            | Record::String(_)
            | Record::Thread(_)
            | Record::Event(_) => (),
            _ => panic!("Unexpected unsupported record type: {:?}", record),
        }
    }

    Ok(())
}

#[test]
fn archive_test_test_archive_handles_incomplete_read() -> Result<(), FtfError> {
    // Create a sample archive
    let archive = create_sample_archive();

    // Serialize to buffer
    let mut buffer = Vec::new();
    archive.write(&mut buffer)?;

    // Take just part of the buffer (first 16 bytes)
    let partial_buffer = buffer[0..16].to_vec();

    // Deserialize the partial buffer
    let mut cursor = ByteSource::new(partial_buffer.to_vec());
    // The source ends inside the second record, which is an error
    let result = Archive::read(&mut cursor);
    assert!(matches!(result, Err(FtfError::Io(IoError::UnexpectedEof))));

    // The records before the truncation are read from the bytes that hold them whole
    let mut whole = ByteSource::new(buffer[0..8].to_vec());
    let deserialized = Archive::read(&mut whole)?;
    assert!(!deserialized.records.is_empty());
    assert!(deserialized.records.len() <= archive.records.len());

    Ok(())
}

#[test]
fn archive_test_test_archive_read_write_read_cycle() -> Result<(), FtfError> {
    // Create a sample archive
    let original_archive = create_sample_archive();

    // Write to buffer
    let mut buffer1 = Vec::new();
    original_archive.write(&mut buffer1)?;

    // Read back
    let mut cursor1 = ByteSource::new(buffer1.to_vec());
    let intermediate_archive = Archive::read(&mut cursor1)?;

    // Write again
    let mut buffer2 = Vec::new();
    intermediate_archive.write(&mut buffer2)?;

    // Verify the buffers are identical (round-trip serialization is consistent)
    assert_eq!(buffer1.len(), buffer2.len());
    assert_eq!(buffer1, buffer2);

    // Read again
    let mut cursor2 = ByteSource::new(buffer2.to_vec());
    let final_archive = Archive::read(&mut cursor2)?;

    // Verify the original and final archives are the same
    assert_eq!(original_archive.records.len(), final_archive.records.len());

    for (i, (original, final_rec)) in original_archive
        .records
        .iter()
        .zip(final_archive.records.iter())
        .enumerate()
    {
        assert_eq!(
            original, final_rec,
            "Record at index {} doesn't match after cycle",
            i
        );
    }

    Ok(())
}

#[test]
fn archive_test_test_archive_appending() -> Result<(), FtfError> {
    // Create two separate archives
    let archive1 = Archive {
        records: vec![
            Record::Metadata(MetadataRecord::MagicNumber),
            Record::String(create_string_record()),
        ],
    };

    let thread_record = create_thread_record();
    let archive2 = Archive {
        records: vec![Record::Thread(thread_record)],
    };

    // Serialize both to the same buffer (appending)
    let mut buffer = Vec::new();
    archive1.write(&mut buffer)?;
    archive2.write(&mut buffer)?;

    // Deserialize combined buffer
    let mut cursor = ByteSource::new(buffer.to_vec());
    let combined = Archive::read(&mut cursor)?;

    // Should have all 3 records
    assert_eq!(combined.records.len(), 3);

    // Verify order and content
    match &combined.records[0] {
        Record::Metadata(MetadataRecord::MagicNumber) => (),
        _ => panic!("Expected MagicNumber, got {:?}", combined.records[0]),
    }

    match &combined.records[1] {
        Record::String(sr) => {
            assert_eq!(sr.index(), create_string_record().index());
            assert_eq!((*sr.value()), (*create_string_record().value()));
        }
        _ => panic!("Expected StringRecord, got {:?}", combined.records[1]),
    }

    match &combined.records[2] {
        Record::Thread(tr) => {
            assert_eq!(tr.index(), thread_record.index());
            assert_eq!(tr.process_koid(), thread_record.process_koid());
            assert_eq!(tr.thread_koid(), thread_record.thread_koid());
        }
        _ => panic!("Expected ThreadRecord, got {:?}", combined.records[2]),
    }

    Ok(())
}
