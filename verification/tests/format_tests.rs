use soldb_program::accounts::{SolTable, SolValue};
use soldb_program::error::{ProgramError, SolDbError};
use soldb_program::instructions::{Delete, InitTable, Insert, Put, SolDbIntructions};

#[test]
fn init_table_packs_as_borsh_does() {
    let ix = SolDbIntructions::InitTable(InitTable { name: "Users".to_string(), bump: 254 });
    let expected = borsh::to_vec(&(0u8, "Users".to_string(), 254u8)).unwrap();
    assert_eq!(ix.pack(), expected);
    assert_eq!(ix.pack(), vec![0, 5, 0, 0, 0, b'U', b's', b'e', b'r', b's', 254]);
}

#[test]
fn insert_packs_as_borsh_does() {
    let ix = SolDbIntructions::Insert(Insert {
        key: "k-0".to_string(),
        payload: b"v-0".to_vec(),
        bump: 9,
    });
    let expected = borsh::to_vec(&(1u8, "k-0".to_string(), b"v-0".to_vec(), 9u8)).unwrap();
    assert_eq!(ix.pack(), expected);
}

#[test]
fn put_packs_as_borsh_does() {
    let ix = SolDbIntructions::Put(Put {
        table: "Test".to_string(),
        table_bump: 200,
        key: b"k-0".to_vec(),
        key_bump: 201,
        payload: b"v-10".to_vec(),
    });
    let expected = borsh::to_vec(&(
        2u8,
        "Test".to_string(),
        200u8,
        b"k-0".to_vec(),
        201u8,
        b"v-10".to_vec(),
    ))
    .unwrap();
    assert_eq!(ix.pack(), expected);
}

#[test]
fn delete_packs_as_borsh_does() {
    let ix = SolDbIntructions::Delete(Delete {
        table: "Test".to_string(),
        table_bump: 1,
        key: b"k-0".to_vec(),
        key_bump: 2,
    });
    let expected = borsh::to_vec(&(3u8, "Test".to_string(), 1u8, b"k-0".to_vec(), 2u8)).unwrap();
    assert_eq!(ix.pack(), expected);
}

#[test]
fn unpack_reads_back_what_pack_writes() {
    let all = vec![
        SolDbIntructions::InitTable(InitTable { name: "ñandú".to_string(), bump: 3 }),
        SolDbIntructions::Insert(Insert { key: "k".to_string(), payload: vec![], bump: 0 }),
        SolDbIntructions::Put(Put {
            table: String::new(),
            table_bump: 255,
            key: vec![0, 1, 2],
            key_bump: 4,
            payload: vec![9; 300],
        }),
        SolDbIntructions::Delete(Delete {
            table: "t".to_string(),
            table_bump: 7,
            key: vec![],
            key_bump: 8,
        }),
    ];
    for ix in all {
        assert_eq!(SolDbIntructions::unpack(&ix.pack()), Ok(ix));
    }
}

#[test]
fn unpack_rejects_malformed_data() {
    let bad = ProgramError::InvalidInstructionData;
    assert_eq!(SolDbIntructions::unpack(&[]), Err(bad));
    assert_eq!(SolDbIntructions::unpack(&[4]), Err(bad));
    // a name that runs past the end
    assert_eq!(SolDbIntructions::unpack(&[0, 9, 0, 0, 0, b'a', 1]), Err(bad));
    // a trailing byte
    assert_eq!(SolDbIntructions::unpack(&[0, 1, 0, 0, 0, b'a', 1, 0]), Err(bad));
    // a missing bump
    assert_eq!(SolDbIntructions::unpack(&[0, 1, 0, 0, 0, b'a']), Err(bad));
    // a name that is not UTF-8
    assert_eq!(SolDbIntructions::unpack(&[0, 1, 0, 0, 0, 0xff, 1]), Err(bad));
    // a byte-string key need not be UTF-8
    let ok = SolDbIntructions::unpack(&[3, 0, 0, 0, 0, 1, 1, 0, 0, 0, 0xff, 2]);
    assert_eq!(
        ok,
        Ok(SolDbIntructions::Delete(Delete {
            table: String::new(),
            table_bump: 1,
            key: vec![0xff],
            key_bump: 2,
        }))
    );
}

#[test]
fn table_bytes_match_borsh_and_read_back() {
    let table = SolTable { name: "Test".to_string(), keys: vec!["k-0".to_string(), "k-1".to_string()] };
    let bytes = table.try_to_vec().unwrap();
    let expected =
        borsh::to_vec(&("Test".to_string(), vec!["k-0".to_string(), "k-1".to_string()])).unwrap();
    assert_eq!(bytes, expected);
    assert_eq!(SolTable::try_from_slice(&bytes), Some(table));
    let empty = SolTable::new("TestInit".to_string());
    assert_eq!(empty.keys, Vec::<String>::new());
    assert_eq!(empty.try_to_vec().unwrap().len(), 4 + 8 + 4);
}

#[test]
fn table_rejects_trailing_or_short_data() {
    let mut bytes = SolTable::new("T".to_string()).try_to_vec().unwrap();
    bytes.push(0);
    assert_eq!(SolTable::try_from_slice(&bytes), None);
    assert_eq!(SolTable::try_from_slice(&bytes[..3]), None);
    assert_eq!(SolTable::try_from_slice(&[]), None);
}

#[test]
fn value_bytes_match_borsh_and_read_back() {
    let value = SolValue { val: b"v-0".to_vec() };
    let bytes = value.try_to_vec().unwrap();
    assert_eq!(bytes, borsh::to_vec(&b"v-0".to_vec()).unwrap());
    assert_eq!(bytes, vec![3, 0, 0, 0, b'v', b'-', b'0']);
    assert_eq!(SolValue::try_from_slice(&bytes), Some(value));
    assert_eq!(SolValue::try_from_slice(&bytes[..6]), None);
}

#[test]
fn error_codes_and_messages() {
    let all = [
        (SolDbError::WrongOwner, 0u32, "Error: Account is not owned by this program"),
        (SolDbError::PdaMismatch, 1, "Error: PDA Account is not as expected"),
        (SolDbError::NotTable, 2, "Error: Not a SolTable Account"),
        (
            SolDbError::GrowthTooLarge,
            3,
            "Error: The growth of the account has exceeded the maximum of 10KB",
        ),
        (SolDbError::WrongError, 4, "Error: Wrong error value"),
        (SolDbError::NotWritable, 5, "Error: Account is not writable"),
    ];
    for (e, code, message) in all {
        assert_eq!(e.code(), code);
        assert_eq!(SolDbError::try_from(code), Ok(e));
        assert_eq!(e.to_str(), message);
        assert_eq!(ProgramError::from(e), ProgramError::Custom(code));
    }
    assert_eq!(SolDbError::try_from(6), Ok(SolDbError::WrongError));
    assert_eq!(SolDbError::try_from(u32::MAX), Ok(SolDbError::WrongError));
}
