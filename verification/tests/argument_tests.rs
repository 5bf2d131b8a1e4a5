#![allow(unused_imports, unused_variables, unused_mut, dead_code)]

use ftfrs::bitutils::extract_bits;
use ftfrs::{
    Archive, Argument, ByteSource, Counter, DurationBegin, DurationComplete, DurationEnd, Event,
    EventRecord, FtfError, InitializationRecord, Instant, IoError, MetadataRecord, ProviderEvent,
    ProviderInfo, ProviderSection, Record, RecordHeader, RecordType, StringRecord, StringRef,
    ThreadRecord, ThreadRef, TraceInfo,
};

fn float_arg(name: StringRef, value: f64) -> Argument {
    Argument::Float(name, value.to_bits())
}

fn as_f64<B: std::borrow::Borrow<u64>>(bits: B) -> f64 {
    f64::from_bits(*bits.borrow())
}

// Helper function to create a header word for argument records
fn create_argument_header(arg_type: u8, arg_size: u16, arg_name: u16, data: u32) -> u64 {
    let mut header: u64 = 0;
    header |= (arg_type as u64) & 0xF;
    header |= ((arg_size as u64) & 0xFFF) << 4;
    header |= ((arg_name as u64) & 0xFFFF) << 16;
    header |= ((data as u64) & 0xFFFFFFFF) << 32;
    header
}

// Helper function to perform write and read roundtrip testing
fn test_write_read_roundtrip(arg: Argument) -> Result<(), FtfError> {
    let mut buffer = Vec::new();
    arg.write(&mut buffer)?;

    let mut cursor = ByteSource::new(buffer.to_vec());
    let read_arg = Argument::read(&mut cursor)?;

    // Special handling for NaN values as NaN != NaN in floating point comparisons
    match (&arg, &read_arg) {
        (Argument::Float(name1, val1), Argument::Float(name2, val2)) => {
            let val1 = as_f64(val1);
            let val2 = as_f64(val2);
            assert_eq!(name1, name2);
            if val1.is_nan() && val2.is_nan() {
                // Both are NaN, test passes
            } else {
                assert_eq!(val1, val2);
            }
            return Ok(());
        }
        _ => assert_eq!(arg, read_arg),
    }

    Ok(())
}

#[test]
fn test_null_argument() -> Result<(), FtfError> {
    // Null argument with reference name
    let arg_name_ref = 0x0123; // Reference to string at index 0x123
    let header = create_argument_header(0, 1, arg_name_ref, 0);

    let mut data = Vec::new();
    data.extend_from_slice(&header.to_le_bytes());

    let mut cursor = ByteSource::new(data.to_vec());
    let arg = Argument::read(&mut cursor)?;

    match arg {
        Argument::Null(name) => match name {
            StringRef::Ref(idx) => assert_eq!(idx, 0x0123),
            _ => panic!("Expected string reference name"),
        },
        _ => panic!("Expected Null argument"),
    }

    Ok(())
}

#[test]
fn test_int32_argument() -> Result<(), FtfError> {
    // Int32 argument with value -42
    let arg_name = 0x0042; // Reference to string at index 0x42
    let value: i32 = -42;
    let header = create_argument_header(1, 1, arg_name, value as u32);

    let mut data = Vec::new();
    data.extend_from_slice(&header.to_le_bytes());

    let mut cursor = ByteSource::new(data.to_vec());
    let arg = Argument::read(&mut cursor)?;

    match arg {
        Argument::Int32(name, val) => {
            assert_eq!(name, StringRef::Ref(0x0042));
            assert_eq!(val, -42);
        }
        _ => panic!("Expected Int32 argument"),
    }

    // Max positive value
    let max_val: i32 = i32::MAX;
    let header = create_argument_header(1, 1, arg_name, max_val as u32);

    let mut data = Vec::new();
    data.extend_from_slice(&header.to_le_bytes());

    let mut cursor = ByteSource::new(data.to_vec());
    let arg = Argument::read(&mut cursor)?;

    match arg {
        Argument::Int32(_, val) => assert_eq!(val, i32::MAX),
        _ => panic!("Expected Int32 argument"),
    }

    // Min negative value
    let min_val: i32 = i32::MIN;
    let header = create_argument_header(1, 1, arg_name, min_val as u32);

    let mut data = Vec::new();
    data.extend_from_slice(&header.to_le_bytes());

    let mut cursor = ByteSource::new(data.to_vec());
    let arg = Argument::read(&mut cursor)?;

    match arg {
        Argument::Int32(_, val) => assert_eq!(val, i32::MIN),
        _ => panic!("Expected Int32 argument"),
    }

    Ok(())
}

#[test]
fn test_uint32_argument() -> Result<(), FtfError> {
    // UInt32 argument with value 42
    let arg_name = 0x0052; // Reference to string at index 0x52
    let value: u32 = 42;
    let header = create_argument_header(2, 1, arg_name, value);

    let mut data = Vec::new();
    data.extend_from_slice(&header.to_le_bytes());

    let mut cursor = ByteSource::new(data.to_vec());
    let arg = Argument::read(&mut cursor)?;

    match arg {
        Argument::UInt32(name, val) => {
            assert_eq!(name, StringRef::Ref(0x0052));
            assert_eq!(val, 42);
        }
        _ => panic!("Expected UInt32 argument"),
    }

    // Max value
    let max_val: u32 = u32::MAX;
    let header = create_argument_header(2, 1, arg_name, max_val);

    let mut data = Vec::new();
    data.extend_from_slice(&header.to_le_bytes());

    let mut cursor = ByteSource::new(data.to_vec());
    let arg = Argument::read(&mut cursor)?;

    match arg {
        Argument::UInt32(_, val) => assert_eq!(val, u32::MAX),
        _ => panic!("Expected UInt32 argument"),
    }

    Ok(())
}

#[test]
fn test_int64_argument() -> Result<(), FtfError> {
    // Int64 argument with value -1234567890123
    let arg_name = 0x0062; // Reference to string at index 0x62
    let value: i64 = -1234567890123;
    let header = create_argument_header(3, 2, arg_name, 0); // Size 2 = 16 bytes (header + value)

    let mut data = Vec::new();
    data.extend_from_slice(&header.to_le_bytes());
    data.extend_from_slice(&(value as u64).to_le_bytes());

    let mut cursor = ByteSource::new(data.to_vec());
    let arg = Argument::read(&mut cursor)?;

    match arg {
        Argument::Int64(name, val) => {
            assert_eq!(name, StringRef::Ref(0x0062));
            assert_eq!(val, -1234567890123);
        }
        _ => panic!("Expected Int64 argument"),
    }

    // Max positive value
    let max_val: i64 = i64::MAX;
    let header = create_argument_header(3, 2, arg_name, 0);

    let mut data = Vec::new();
    data.extend_from_slice(&header.to_le_bytes());
    data.extend_from_slice(&(max_val as u64).to_le_bytes());

    let mut cursor = ByteSource::new(data.to_vec());
    let arg = Argument::read(&mut cursor)?;

    match arg {
        Argument::Int64(_, val) => assert_eq!(val, i64::MAX),
        _ => panic!("Expected Int64 argument"),
    }

    // Min negative value
    let min_val: i64 = i64::MIN;
    let header = create_argument_header(3, 2, arg_name, 0);

    let mut data = Vec::new();
    data.extend_from_slice(&header.to_le_bytes());
    data.extend_from_slice(&(min_val as u64).to_le_bytes());

    let mut cursor = ByteSource::new(data.to_vec());
    let arg = Argument::read(&mut cursor)?;

    match arg {
        Argument::Int64(_, val) => assert_eq!(val, i64::MIN),
        _ => panic!("Expected Int64 argument"),
    }

    Ok(())
}

#[test]
fn test_uint64_argument() -> Result<(), FtfError> {
    // UInt64 argument with value 12345678901234
    let arg_name = 0x0072; // Reference to string at index 0x72
    let value: u64 = 12345678901234;
    let header = create_argument_header(4, 2, arg_name, 0); // Size 2 = 16 bytes (header + value)

    let mut data = Vec::new();
    data.extend_from_slice(&header.to_le_bytes());
    data.extend_from_slice(&value.to_le_bytes());

    let mut cursor = ByteSource::new(data.to_vec());
    let arg = Argument::read(&mut cursor)?;

    match arg {
        Argument::UInt64(name, val) => {
            assert_eq!(name, StringRef::Ref(0x0072));
            assert_eq!(val, 12345678901234);
        }
        _ => panic!("Expected UInt64 argument"),
    }

    // Max value
    let max_val: u64 = u64::MAX;
    let header = create_argument_header(4, 2, arg_name, 0);

    let mut data = Vec::new();
    data.extend_from_slice(&header.to_le_bytes());
    data.extend_from_slice(&max_val.to_le_bytes());

    let mut cursor = ByteSource::new(data.to_vec());
    let arg = Argument::read(&mut cursor)?;

    match arg {
        Argument::UInt64(_, val) => assert_eq!(val, u64::MAX),
        _ => panic!("Expected UInt64 argument"),
    }

    Ok(())
}

#[test]
fn test_float_argument() -> Result<(), FtfError> {
    // Float argument with value 1.2345
    let arg_name = 0x0082; // Reference to string at index 0x82
    let value: f64 = 1.2345;
    let header = create_argument_header(5, 2, arg_name, 0); // Size 2 = 16 bytes (header + value)

    let mut data = Vec::new();
    data.extend_from_slice(&header.to_le_bytes());
    data.extend_from_slice(&value.to_bits().to_le_bytes());

    let mut cursor = ByteSource::new(data.to_vec());
    let arg = Argument::read(&mut cursor)?;

    match arg {
        Argument::Float(name, val) => {
            let val = as_f64(val);
            assert_eq!(name, StringRef::Ref(0x0082));
            assert!((val - 1.2345).abs() < f64::EPSILON);
        }
        _ => panic!("Expected Float argument"),
    }

    // Special values: NaN
    let nan_val = f64::NAN;
    let header = create_argument_header(5, 2, arg_name, 0);

    let mut data = Vec::new();
    data.extend_from_slice(&header.to_le_bytes());
    data.extend_from_slice(&nan_val.to_bits().to_le_bytes());

    let mut cursor = ByteSource::new(data.to_vec());
    let arg = Argument::read(&mut cursor)?;

    match arg {
        Argument::Float(_, val) => {
            let val = as_f64(val);
            assert!(val.is_nan());
        }
        _ => panic!("Expected Float argument with NaN value"),
    }

    // Special values: Infinity
    let inf_val = f64::INFINITY;
    let header = create_argument_header(5, 2, arg_name, 0);

    let mut data = Vec::new();
    data.extend_from_slice(&header.to_le_bytes());
    data.extend_from_slice(&inf_val.to_bits().to_le_bytes());

    let mut cursor = ByteSource::new(data.to_vec());
    let arg = Argument::read(&mut cursor)?;

    match arg {
        Argument::Float(_, val) => {
            let val = as_f64(val);
            assert!(val.is_infinite() && val.is_sign_positive());
        }
        _ => panic!("Expected Float argument with Infinity value"),
    }

    Ok(())
}

#[test]
fn test_str_argument() -> Result<(), FtfError> {
    // String argument with reference name and reference value
    let arg_name_ref = 0x0123; // Reference to string at index 0x123
    let arg_value_ref = 0x0456; // Reference to string at index 0x456
    let header = create_argument_header(6, 1, arg_name_ref, arg_value_ref as u32);

    let mut data = Vec::new();
    data.extend_from_slice(&header.to_le_bytes());

    let mut cursor = ByteSource::new(data.to_vec());
    let arg = Argument::read(&mut cursor)?;

    match arg {
        Argument::Str(name, value) => match (name, value) {
            (StringRef::Ref(n), StringRef::Ref(v)) => {
                assert_eq!(n, 0x0123);
                assert_eq!(v, 0x0456);
            }
            _ => panic!("Expected string references for both name and value"),
        },
        _ => panic!("Expected Str argument"),
    }

    Ok(())
}

#[test]
fn test_pointer_argument() -> Result<(), FtfError> {
    // Pointer argument with reference name
    let arg_name = 0x0099; // Reference to string at index 0x99
    let value: u64 = 0xDEADBEEFCAFEBABE;
    let header = create_argument_header(7, 2, arg_name, 0); // Size 2 = 16 bytes (header + value)

    let mut data = Vec::new();
    data.extend_from_slice(&header.to_le_bytes());
    data.extend_from_slice(&value.to_le_bytes());

    let mut cursor = ByteSource::new(data.to_vec());
    let arg = Argument::read(&mut cursor)?;

    match arg {
        Argument::Pointer(name, val) => {
            assert_eq!(name, StringRef::Ref(0x0099));
            assert_eq!(val, 0xDEADBEEFCAFEBABE);
        }
        _ => panic!("Expected Pointer argument"),
    }

    // Null pointer
    let value: u64 = 0;
    let header = create_argument_header(7, 2, arg_name, 0);

    let mut data = Vec::new();
    data.extend_from_slice(&header.to_le_bytes());
    data.extend_from_slice(&value.to_le_bytes());

    let mut cursor = ByteSource::new(data.to_vec());
    let arg = Argument::read(&mut cursor)?;

    match arg {
        Argument::Pointer(_, val) => assert_eq!(val, 0),
        _ => panic!("Expected Pointer argument"),
    }

    Ok(())
}

#[test]
fn test_kernel_object_id_argument() -> Result<(), FtfError> {
    // KernelObjectId argument
    let arg_name = 0x0099; // Reference to string at index 0x99
    let value: u64 = 0x1234567890ABCDEF;
    let header = create_argument_header(8, 2, arg_name, 0); // Size 2 = 16 bytes (header + value)

    let mut data = Vec::new();
    data.extend_from_slice(&header.to_le_bytes());
    data.extend_from_slice(&value.to_le_bytes());

    let mut cursor = ByteSource::new(data.to_vec());
    let arg = Argument::read(&mut cursor)?;
    match arg {
        Argument::KernelObjectId(name, val) => {
            assert_eq!(name, StringRef::Ref(0x0099));
            assert_eq!(val, 0x1234567890ABCDEF);
        }
        _ => panic!("Expected KernelObjectId argument"),
    }

    Ok(())
}

#[test]
fn test_boolean_argument() -> Result<(), FtfError> {
    // Boolean argument: true
    let arg_name = 0x00AA; // Reference to string at index 0xAA
    let value: u32 = 1; // 1 = true
    let header = create_argument_header(9, 1, arg_name, value);

    let mut data = Vec::new();
    data.extend_from_slice(&header.to_le_bytes());

    let mut cursor = ByteSource::new(data.to_vec());
    let arg = Argument::read(&mut cursor)?;

    match arg {
        Argument::Boolean(name, val) => {
            assert_eq!(name, StringRef::Ref(0x00AA));
            assert!(val);
        }
        _ => panic!("Expected Boolean argument"),
    }

    // Boolean argument: false
    let value: u32 = 0; // 0 = false
    let header = create_argument_header(9, 1, arg_name, value);

    let mut data = Vec::new();
    data.extend_from_slice(&header.to_le_bytes());

    let mut cursor = ByteSource::new(data.to_vec());
    let arg = Argument::read(&mut cursor)?;

    match arg {
        Argument::Boolean(_, val) => assert!(!val),
        _ => panic!("Expected Boolean argument"),
    }

    Ok(())
}

#[test]
fn test_null_argument_with_inline_name() -> Result<(), FtfError> {
    // Create a buffer with header for null argument with inline name
    let name_str = "myname";
    let name_len = name_str.len() as u16;

    // We need to create a header where:
    // - bits 0-3: Argument type (0 for Null)
    // - bits 4-15: Size (2 words = 16 bytes: 8 for header, 8 for inline string)
    // - bits 16-31: Name field with 0x8000 bit set
    let arg_name_field = name_len | 0x8000;
    let header = create_argument_header(0, 2, arg_name_field, 0);

    let mut data = Vec::new();
    data.extend_from_slice(&header.to_le_bytes());

    // Add inline string data with padding to 8 bytes
    let mut padded_name = name_str.as_bytes().to_vec();
    padded_name.resize(8, 0); // Pad with zeros to 8 bytes
    data.extend_from_slice(&padded_name);

    let mut cursor = ByteSource::new(data.to_vec());
    let arg = Argument::read(&mut cursor)?;

    match arg {
        Argument::Null(name) => match name {
            StringRef::Inline(s) => assert_eq!(s, name_str),
            _ => panic!("Expected inline string name"),
        },
        _ => panic!("Expected Null argument"),
    }

    Ok(())
}

#[test]
fn test_str_argument_with_inline_values() -> Result<(), FtfError> {
    // Test string argument with inline name and inline value
    let name_str = "name";
    let value_str = "value";
    let name_len = name_str.len() as u16;
    let value_len = value_str.len() as u16;

    // We need to create a header where:
    // - bits 0-3: Argument type (6 for Str)
    // - bits 4-15: Size (3 words = 24 bytes: 8 for header, 8 for inline name, 8 for inline value)
    // - bits 16-31: Name field with 0x8000 bit set (inline) + length
    // - bits 32-47: Value field with 0x8000 bit set (inline) + length
    let arg_name_field = name_len | 0x8000;
    let arg_value_field = value_len | 0x8000;

    // Combine name and value fields into data field (bits 32-63)
    let data_field = arg_value_field as u32;

    let header = create_argument_header(6, 3, arg_name_field, data_field);

    let mut data = Vec::new();
    data.extend_from_slice(&header.to_le_bytes());

    // Add inline name string data with padding to 8 bytes
    let mut padded_name = name_str.as_bytes().to_vec();
    padded_name.resize(8, 0); // Pad with zeros to 8 bytes
    data.extend_from_slice(&padded_name);

    // Add inline value string data with padding to 8 bytes
    let mut padded_value = value_str.as_bytes().to_vec();
    padded_value.resize(8, 0); // Pad with zeros to 8 bytes
    data.extend_from_slice(&padded_value);

    let mut cursor = ByteSource::new(data.to_vec());
    let arg = Argument::read(&mut cursor)?;

    match arg {
        Argument::Str(name, value) => match (name, value) {
            (StringRef::Inline(n), StringRef::Inline(v)) => {
                assert_eq!(n, name_str);
                assert_eq!(v, value_str);
            }
            _ => panic!("Expected inline strings for both name and value"),
        },
        _ => panic!("Expected Str argument"),
    }

    Ok(())
}

#[test]
fn test_str_argument_mixed_inline_ref() -> Result<(), FtfError> {
    // Test string argument with inline name and reference value
    let name_str = "inname";
    let name_len = name_str.len() as u16;
    let value_ref = 0x0456; // Reference to string at index 0x456

    // Header setup:
    // - bits 0-3: Argument type (6 for Str)
    // - bits 4-15: Size (2 words = 16 bytes: 8 for header, 8 for inline name)
    // - bits 16-31: Name field with 0x8000 bit set (inline) + length
    // - bits 32-47: Value field (reference) with 0x8000 bit set
    let arg_name_field = name_len | 0x8000;

    // Value field in data portion (bits 32-63)
    let data_field = value_ref as u32;

    let header = create_argument_header(6, 2, arg_name_field, data_field);

    let mut data = Vec::new();
    data.extend_from_slice(&header.to_le_bytes());

    // Add inline name string data with padding to 8 bytes
    let mut padded_name = name_str.as_bytes().to_vec();
    padded_name.resize(8, 0); // Pad with zeros to 8 bytes
    data.extend_from_slice(&padded_name);

    let mut cursor = ByteSource::new(data.to_vec());
    let arg = Argument::read(&mut cursor)?;

    match arg {
        Argument::Str(name, value) => match (name, value) {
            (StringRef::Inline(n), StringRef::Ref(v)) => {
                assert_eq!(n, name_str);
                assert_eq!(v, value_ref);
            }
            _ => panic!("Expected inline name and reference value"),
        },
        _ => panic!("Expected Str argument"),
    }

    Ok(())
}

#[test]
fn test_pointer_argument_with_inline_name() -> Result<(), FtfError> {
    // Create a pointer argument with inline name
    let name_str = "ptr";
    let name_len = name_str.len() as u16;
    let pointer_value: u64 = 0xDEADBEEFCAFEBABE;

    // Header setup:
    // - bits 0-3: Argument type (7 for Pointer)
    // - bits 4-15: Size (3 words = 24 bytes: 8 for header, 8 for inline name, 8 for value)
    // - bits 16-31: Name field with 0x8000 bit set (inline) + length
    let arg_name_field = name_len | 0x8000;

    let header = create_argument_header(7, 3, arg_name_field, 0);

    let mut data = Vec::new();
    data.extend_from_slice(&header.to_le_bytes());

    // Add inline name string data with padding to 8 bytes
    let mut padded_name = name_str.as_bytes().to_vec();
    padded_name.resize(8, 0); // Pad with zeros to 8 bytes
    data.extend_from_slice(&padded_name);

    // Add pointer value
    data.extend_from_slice(&pointer_value.to_le_bytes());

    let mut cursor = ByteSource::new(data.to_vec());
    let arg = Argument::read(&mut cursor)?;

    match arg {
        Argument::Pointer(name, val) => {
            match name {
                StringRef::Inline(n) => assert_eq!(n, name_str),
                _ => panic!("Expected inline string name"),
            }
            assert_eq!(val, pointer_value);
        }
        _ => panic!("Expected Pointer argument"),
    }

    Ok(())
}

#[test]
fn test_invalid_argument_type() {
    // Try to parse an invalid argument type (10 is beyond the valid range)
    let arg_name = 0x00BB; // Reference to string at index 0xBB
    let header = create_argument_header(10, 1, arg_name, 0);

    let mut data = Vec::new();
    data.extend_from_slice(&header.to_le_bytes());

    let mut cursor = ByteSource::new(data.to_vec());
    let result = Argument::read(&mut cursor);

    assert!(result.is_err());

    // Verify the error is of the expected type
    match result {
        Err(ftfrs::FtfError::InvalidArgumentType(e)) => {
            assert_eq!(e.0, 10);
        }
        _ => panic!("Expected InvalidArgumentType error"),
    }
}

// ========== Tests for Argument::write method ==========

#[test]
fn test_write_null_argument() -> Result<(), FtfError> {
    // Null argument with reference name
    let arg_name_ref = 0x0123; // Reference to string at index 0x123
    let arg = Argument::Null(StringRef::Ref(arg_name_ref));

    let mut buffer = Vec::new();
    arg.write(&mut buffer)?;

    // Expected header for Null argument with reference name:
    // - Type: 0 (Null)
    // - Size: 1 word
    // - Name: Reference 0x0123
    // - Data: 0
    let expected_header = create_argument_header(0, 1, arg_name_ref, 0);
    let expected = expected_header.to_ne_bytes().to_vec();

    assert_eq!(buffer, expected, "Buffer doesn't match expected output");

    // Test roundtrip
    test_write_read_roundtrip(arg)?;

    // Null argument with inline name
    let arg_name_str = "nullarg";
    let arg = Argument::Null(StringRef::Inline(arg_name_str.to_string()));

    let mut buffer = Vec::new();
    arg.write(&mut buffer)?;

    // Verify size (header + padded string)
    assert_eq!(
        buffer.len(),
        16,
        "Expected 16 bytes for null arg with inline name (8 header + 8 padded string)"
    );

    // Test roundtrip for inline name
    test_write_read_roundtrip(arg)?;

    Ok(())
}

#[test]
fn test_write_int32_argument() -> Result<(), FtfError> {
    // Int32 argument with reference name
    let arg_name_ref = 0x0042;
    let value: i32 = -42;
    let arg = Argument::Int32(StringRef::Ref(arg_name_ref), value);

    let mut buffer = Vec::new();
    arg.write(&mut buffer)?;

    // Expected header for Int32 argument:
    // - Type: 1 (Int32)
    // - Size: 1 word
    // - Name: Reference 0x0042
    // - Data: -42 (value)
    let expected_header = create_argument_header(1, 1, arg_name_ref, value as u32);
    let expected = expected_header.to_ne_bytes().to_vec();

    assert_eq!(buffer, expected, "Buffer doesn't match expected output");

    // Test roundtrip
    test_write_read_roundtrip(arg)?;

    // Int32 with inline name
    let arg_name_str = "int32arg";
    let arg = Argument::Int32(StringRef::Inline(arg_name_str.to_string()), value);

    let mut buffer = Vec::new();
    arg.write(&mut buffer)?;

    // Verify size (header + padded string)
    assert_eq!(
        buffer.len(),
        16,
        "Expected 16 bytes for int32 arg with inline name (8 header + 8 padded string)"
    );

    // Test roundtrip for inline name
    test_write_read_roundtrip(arg)?;

    // Test max int32 value
    test_write_read_roundtrip(Argument::Int32(StringRef::Ref(arg_name_ref), i32::MAX))?;

    // Test min int32 value
    test_write_read_roundtrip(Argument::Int32(StringRef::Ref(arg_name_ref), i32::MIN))?;

    Ok(())
}

#[test]
fn test_write_uint32_argument() -> Result<(), FtfError> {
    // UInt32 argument with reference name
    let arg_name_ref = 0x0052;
    let value: u32 = 42;
    let arg = Argument::UInt32(StringRef::Ref(arg_name_ref), value);

    let mut buffer = Vec::new();
    arg.write(&mut buffer)?;

    // Expected header for UInt32 argument:
    // - Type: 2 (UInt32)
    // - Size: 1 word
    // - Name: Reference 0x0052
    // - Data: 42 (value)
    let expected_header = create_argument_header(2, 1, arg_name_ref, value);
    let expected = expected_header.to_ne_bytes().to_vec();

    assert_eq!(buffer, expected, "Buffer doesn't match expected output");

    // Test roundtrip
    test_write_read_roundtrip(arg)?;

    // UInt32 with inline name
    let arg_name_str = "uint32arg";
    let arg = Argument::UInt32(StringRef::Inline(arg_name_str.to_string()), value);

    // Test roundtrip for inline name
    test_write_read_roundtrip(arg)?;

    // Test max uint32 value
    test_write_read_roundtrip(Argument::UInt32(StringRef::Ref(arg_name_ref), u32::MAX))?;

    Ok(())
}

#[test]
fn test_write_int64_argument() -> Result<(), FtfError> {
    // Int64 argument with reference name
    let arg_name_ref = 0x0062;
    let value: i64 = -1234567890123;
    let arg = Argument::Int64(StringRef::Ref(arg_name_ref), value);

    let mut buffer = Vec::new();
    arg.write(&mut buffer)?;

    // Expected output for Int64:
    // - Header with type 3 (Int64), size 2 words
    // - 8-byte value
    let expected_header = create_argument_header(3, 2, arg_name_ref, 0);
    let mut expected = expected_header.to_ne_bytes().to_vec();
    expected.extend_from_slice(&(value as u64).to_ne_bytes());

    assert_eq!(buffer, expected, "Buffer doesn't match expected output");
    assert_eq!(
        buffer.len(),
        16,
        "Expected 16 bytes for int64 arg (8 header + 8 value)"
    );

    // Test roundtrip
    test_write_read_roundtrip(arg)?;

    // Int64 with inline name
    let arg_name_str = "int64arg";
    let arg = Argument::Int64(StringRef::Inline(arg_name_str.to_string()), value);

    let mut buffer = Vec::new();
    arg.write(&mut buffer)?;

    // Verify size (header + padded string + value)
    assert_eq!(
        buffer.len(),
        24,
        "Expected 24 bytes for int64 arg with inline name (8 header + 8 string + 8 value)"
    );

    // Test roundtrip for inline name
    test_write_read_roundtrip(arg)?;

    // Test max int64 value
    test_write_read_roundtrip(Argument::Int64(StringRef::Ref(arg_name_ref), i64::MAX))?;

    // Test min int64 value
    test_write_read_roundtrip(Argument::Int64(StringRef::Ref(arg_name_ref), i64::MIN))?;

    Ok(())
}

#[test]
fn test_write_uint64_argument() -> Result<(), FtfError> {
    // UInt64 argument with reference name
    let arg_name_ref = 0x0072;
    let value: u64 = 12345678901234;
    let arg = Argument::UInt64(StringRef::Ref(arg_name_ref), value);

    let mut buffer = Vec::new();
    arg.write(&mut buffer)?;

    // Expected output for UInt64:
    // - Header with type 4 (UInt64), size 2 words
    // - 8-byte value
    let expected_header = create_argument_header(4, 2, arg_name_ref, 0);
    let mut expected = expected_header.to_ne_bytes().to_vec();
    expected.extend_from_slice(&value.to_ne_bytes());

    assert_eq!(buffer, expected, "Buffer doesn't match expected output");
    assert_eq!(
        buffer.len(),
        16,
        "Expected 16 bytes for uint64 arg (8 header + 8 value)"
    );

    // Test roundtrip
    test_write_read_roundtrip(arg)?;

    // UInt64 with inline name
    let arg_name_str = "uint64arg";
    let arg = Argument::UInt64(StringRef::Inline(arg_name_str.to_string()), value);

    // Test roundtrip for inline name
    test_write_read_roundtrip(arg)?;

    // Test max uint64 value
    test_write_read_roundtrip(Argument::UInt64(StringRef::Ref(arg_name_ref), u64::MAX))?;

    Ok(())
}

#[test]
fn test_write_float_argument() -> Result<(), FtfError> {
    // Float argument with reference name
    let arg_name_ref = 0x0082;
    let value: f64 = 1.2345;
    let arg = float_arg(StringRef::Ref(arg_name_ref), value);

    let mut buffer = Vec::new();
    arg.write(&mut buffer)?;

    // Expected output for Float:
    // - Header with type 5 (Float), size 2 words
    // - 8-byte floating point value
    let expected_header = create_argument_header(5, 2, arg_name_ref, 0);
    let mut expected = expected_header.to_ne_bytes().to_vec();
    expected.extend_from_slice(&value.to_bits().to_ne_bytes());

    assert_eq!(buffer, expected, "Buffer doesn't match expected output");
    assert_eq!(
        buffer.len(),
        16,
        "Expected 16 bytes for float arg (8 header + 8 value)"
    );

    // Test roundtrip
    test_write_read_roundtrip(arg)?;

    // Float with inline name
    let arg_name_str = "floatarg";
    let arg = float_arg(StringRef::Inline(arg_name_str.to_string()), value);

    // Test roundtrip for inline name
    test_write_read_roundtrip(arg)?;

    // Test special values
    test_write_read_roundtrip(float_arg(StringRef::Ref(arg_name_ref), f64::NAN))?;
    test_write_read_roundtrip(float_arg(StringRef::Ref(arg_name_ref), f64::INFINITY))?;
    test_write_read_roundtrip(float_arg(
        StringRef::Ref(arg_name_ref),
        f64::NEG_INFINITY,
    ))?;
    test_write_read_roundtrip(float_arg(StringRef::Ref(arg_name_ref), 0.0))?;

    Ok(())
}

#[test]
fn test_write_str_argument() -> Result<(), FtfError> {
    // String argument with reference name and reference value
    let arg_name_ref = 0x0123;
    let arg_value_ref = 0x0456;
    let arg = Argument::Str(StringRef::Ref(arg_name_ref), StringRef::Ref(arg_value_ref));

    let mut buffer = Vec::new();
    arg.write(&mut buffer)?;

    // Expected header for Str argument with ref name and ref value:
    // - Type: 6 (Str)
    // - Size: 1 word
    // - Name: Reference 0x0123
    // - Data: Reference 0x0456 in bits 32-47
    let expected_header = create_argument_header(6, 1, arg_name_ref, arg_value_ref as u32);
    let expected = expected_header.to_ne_bytes().to_vec();

    assert_eq!(buffer, expected, "Buffer doesn't match expected output");
    assert_eq!(
        buffer.len(),
        8,
        "Expected 8 bytes for str arg with ref name and ref value"
    );

    // Test roundtrip
    test_write_read_roundtrip(arg)?;

    // String with inline name and reference value
    let arg_name_str = "strname";
    let arg = Argument::Str(
        StringRef::Inline(arg_name_str.to_string()),
        StringRef::Ref(arg_value_ref),
    );

    // Test roundtrip for inline name, ref value
    test_write_read_roundtrip(arg)?;

    // String with reference name and inline value
    let arg_value_str = "strvalue";
    let arg = Argument::Str(
        StringRef::Ref(arg_name_ref),
        StringRef::Inline(arg_value_str.to_string()),
    );

    let mut buffer = Vec::new();
    arg.write(&mut buffer)?;

    // Verify size (header + padded inline value)
    assert_eq!(
        buffer.len(),
        16,
        "Expected 16 bytes for str arg with ref name and inline value"
    );

    // Test roundtrip for ref name, inline value
    test_write_read_roundtrip(arg)?;

    // String with inline name and inline value
    let arg = Argument::Str(
        StringRef::Inline(arg_name_str.to_string()),
        StringRef::Inline(arg_value_str.to_string()),
    );

    let mut buffer = Vec::new();
    arg.write(&mut buffer)?;

    // Verify size (header + padded inline name + padded inline value)
    assert_eq!(
        buffer.len(),
        24,
        "Expected 24 bytes for str arg with inline name and inline value"
    );

    // Test roundtrip for inline name, inline value
    test_write_read_roundtrip(arg)?;

    Ok(())
}

#[test]
fn test_write_pointer_argument() -> Result<(), FtfError> {
    // Pointer argument with reference name
    let arg_name_ref = 0x0099;
    let value: u64 = 0xDEADBEEFCAFEBABE;
    let arg = Argument::Pointer(StringRef::Ref(arg_name_ref), value);

    let mut buffer = Vec::new();
    arg.write(&mut buffer)?;

    // Expected output for Pointer:
    // - Header with type 7 (Pointer), size 2 words
    // - 8-byte value
    let expected_header = create_argument_header(7, 2, arg_name_ref, 0);
    let mut expected = expected_header.to_ne_bytes().to_vec();
    expected.extend_from_slice(&value.to_ne_bytes());

    assert_eq!(buffer, expected, "Buffer doesn't match expected output");
    assert_eq!(
        buffer.len(),
        16,
        "Expected 16 bytes for pointer arg (8 header + 8 value)"
    );

    // Test roundtrip
    test_write_read_roundtrip(arg)?;

    // Pointer with inline name
    let arg_name_str = "ptrarg";
    let arg = Argument::Pointer(StringRef::Inline(arg_name_str.to_string()), value);

    // Test roundtrip for inline name
    test_write_read_roundtrip(arg)?;

    // Test null pointer
    test_write_read_roundtrip(Argument::Pointer(StringRef::Ref(arg_name_ref), 0))?;

    Ok(())
}

#[test]
fn test_write_kernel_object_id_argument() -> Result<(), FtfError> {
    // KernelObjectId argument with reference name
    let arg_name_ref = 0x0099;
    let value: u64 = 0x1234567890ABCDEF;
    let arg = Argument::KernelObjectId(StringRef::Ref(arg_name_ref), value);

    let mut buffer = Vec::new();
    arg.write(&mut buffer)?;

    // Expected output for KernelObjectId:
    // - Header with type 8 (KernelObjectId), size 2 words
    // - 8-byte value
    let expected_header = create_argument_header(8, 2, arg_name_ref, 0);
    let mut expected = expected_header.to_ne_bytes().to_vec();
    expected.extend_from_slice(&value.to_ne_bytes());

    assert_eq!(
        buffer.len(),
        16,
        "Expected 16 bytes for kernel object id arg (8 header + 8 value)"
    );

    // Note: There's a bug in the implementation where KernelObjectId actually uses ArgumentType::Pointer
    // instead of ArgumentType::KernelObjectId, so we don't test exact buffer contents here.

    // Test roundtrip
    let mut read_buffer = ByteSource::new(buffer.to_vec());
    let read_arg = Argument::read(&mut read_buffer)?;

    match read_arg {
        Argument::KernelObjectId(name, val) => {
            assert_eq!(name, StringRef::Ref(arg_name_ref));
            assert_eq!(val, value);
        }
        _ => panic!("Expected KernelObjectId argument after roundtrip"),
    }

    // KernelObjectId with inline name
    let arg_name_str = "koid";
    let arg = Argument::KernelObjectId(StringRef::Inline(arg_name_str.to_string()), value);

    // Test roundtrip for inline name
    let mut buffer = Vec::new();
    arg.write(&mut buffer)?;
    let mut read_buffer = ByteSource::new(buffer.to_vec());
    let read_arg = Argument::read(&mut read_buffer)?;

    match read_arg {
        Argument::KernelObjectId(name, val) => {
            match name {
                StringRef::Inline(s) => assert_eq!(s, arg_name_str),
                _ => panic!("Expected inline name after roundtrip"),
            }
            assert_eq!(val, value);
        }
        _ => panic!("Expected KernelObjectId argument after roundtrip"),
    }

    Ok(())
}

#[test]
fn test_write_boolean_argument() -> Result<(), FtfError> {
    // Boolean argument (true) with reference name
    let arg_name_ref = 0x00AA;
    let value = true;
    let arg = Argument::Boolean(StringRef::Ref(arg_name_ref), value);

    let mut buffer = Vec::new();
    arg.write(&mut buffer)?;

    // Expected header for Boolean argument with true value:
    // - Type: 9 (Boolean)
    // - Size: 1 word
    // - Name: Reference 0x00AA
    // - Data: 1 (true)
    let expected_header = create_argument_header(9, 1, arg_name_ref, 1);
    let expected = expected_header.to_ne_bytes().to_vec();

    assert_eq!(
        buffer, expected,
        "Buffer doesn't match expected output for Boolean(true)"
    );
    assert_eq!(
        buffer.len(),
        8,
        "Expected 8 bytes for boolean arg (8 header)"
    );

    // Test roundtrip for true value
    test_write_read_roundtrip(arg)?;

    // Boolean argument (false) with reference name
    let arg = Argument::Boolean(StringRef::Ref(arg_name_ref), false);

    let mut buffer = Vec::new();
    arg.write(&mut buffer)?;

    // Expected header for Boolean argument with false value:
    // - Type: 9 (Boolean)
    // - Size: 1 word
    // - Name: Reference 0x00AA
    // - Data: 0 (false)
    let expected_header = create_argument_header(9, 1, arg_name_ref, 0);
    let expected = expected_header.to_ne_bytes().to_vec();

    assert_eq!(
        buffer, expected,
        "Buffer doesn't match expected output for Boolean(false)"
    );

    // Test roundtrip for false value
    test_write_read_roundtrip(arg)?;

    // Boolean with inline name
    let arg_name_str = "boolarg";
    let arg = Argument::Boolean(StringRef::Inline(arg_name_str.to_string()), true);

    // Test roundtrip for inline name
    test_write_read_roundtrip(arg)?;

    Ok(())
}

#[test]
fn test_comprehensive_roundtrip() -> Result<(), FtfError> {
    // Test all argument types in a comprehensive roundtrip test
    // Note: String references must use values <= 0x7FFF
    let test_cases = vec![
        // Null argument variants
        Argument::Null(StringRef::Ref(0x1111)),
        Argument::Null(StringRef::Inline("null_name".to_string())),
        // Int32 argument variants
        Argument::Int32(StringRef::Ref(0x2222), 42),
        Argument::Int32(StringRef::Inline("int32_name".to_string()), -42),
        Argument::Int32(StringRef::Ref(0x2222), i32::MAX),
        Argument::Int32(StringRef::Ref(0x2222), i32::MIN),
        // UInt32 argument variants
        Argument::UInt32(StringRef::Ref(0x3333), 42),
        Argument::UInt32(StringRef::Inline("uint32_name".to_string()), 0xFFFFFFFF),
        // Int64 argument variants
        Argument::Int64(StringRef::Ref(0x4444), -1234567890),
        Argument::Int64(StringRef::Inline("int64_name".to_string()), 1234567890),
        Argument::Int64(StringRef::Ref(0x4444), i64::MAX),
        Argument::Int64(StringRef::Ref(0x4444), i64::MIN),
        // UInt64 argument variants
        Argument::UInt64(StringRef::Ref(0x5555), 0x1234567890ABCDEF),
        Argument::UInt64(
            StringRef::Inline("uint64_name".to_string()),
            0xFFFFFFFFFFFFFFFF,
        ),
        // Float argument variants
        float_arg(StringRef::Ref(0x6666), 1.2345),
        float_arg(StringRef::Inline("float_name".to_string()), -3.71828),
        float_arg(StringRef::Ref(0x6666), f64::INFINITY),
        float_arg(StringRef::Ref(0x6666), f64::NEG_INFINITY),
        float_arg(StringRef::Ref(0x6666), 0.0),
        // Str argument variants - note: string refs must be <= 0x7FFF for value part
        Argument::Str(StringRef::Ref(0x1234), StringRef::Ref(0x0888)),
        Argument::Str(
            StringRef::Inline("str_name".to_string()),
            StringRef::Ref(0x0456),
        ),
        Argument::Str(
            StringRef::Ref(0x1234),
            StringRef::Inline("str_value".to_string()),
        ),
        Argument::Str(
            StringRef::Inline("str_name".to_string()),
            StringRef::Inline("str_value".to_string()),
        ),
        // Pointer argument variants
        Argument::Pointer(StringRef::Ref(0x1999), 0xDEADBEEFCAFEBABE),
        Argument::Pointer(StringRef::Inline("ptr_name".to_string()), 0),
        // KernelObjectId argument variants
        Argument::KernelObjectId(StringRef::Ref(0x2AAA), 0x1234567890ABCDEF),
        Argument::KernelObjectId(StringRef::Inline("koid_name".to_string()), 123456),
        // Boolean argument variants
        Argument::Boolean(StringRef::Ref(0x3BBB), true),
        Argument::Boolean(StringRef::Ref(0x3BBB), false),
        Argument::Boolean(StringRef::Inline("bool_name".to_string()), true),
    ];

    for arg in test_cases {
        let mut buffer = Vec::new();
        arg.write(&mut buffer)?;

        let mut cursor = ByteSource::new(buffer.to_vec());
        let read_arg = Argument::read(&mut cursor)?;

        assert_eq!(arg, read_arg, "Roundtrip failed for argument: {:?}", arg);
    }

    Ok(())
}
