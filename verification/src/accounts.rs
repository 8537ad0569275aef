//! The data that the program keeps in its accounts: a table account holds a
//! `SolTable`, a value account holds a `SolValue`.
use vstd::prelude::*;
use crate::codec::{
    bytes_fit, enc_bytes, enc_string, enc_strings, lemma_take_bytes_read, lemma_take_bytes_written,
    lemma_take_string_read, lemma_take_string_written, lemma_take_strings_read,
    lemma_take_strings_written, push_bytes, push_string, push_strings, read_bytes, read_string,
    read_strings, string_fits, strings_fit, take_bytes, take_string, take_strings,
};
use crate::error::ProgramError;

verus! {

/// A table: its name and the keys inserted under it.
#[derive(Clone, Debug, PartialEq, Eq)]
pub struct SolTable {
    pub name: String,
    pub keys: Vec<String>,
}

/// A stored value.
#[derive(Clone, Debug, PartialEq, Eq)]
pub struct SolValue {
    pub val: Vec<u8>,
}

/// What a table holds, as characters.
pub struct TableModel {
    pub name: Seq<char>,
    pub keys: Seq<Seq<char>>,
}

impl View for SolTable {
    type V = TableModel;

    open spec fn view(&self) -> TableModel {
        TableModel { name: self.name@, keys: self.keys.deep_view() }
    }
}

impl View for SolValue {
    type V = Seq<u8>;

    open spec fn view(&self) -> Seq<u8> {
        self.val@
    }
}

/// The bytes of a table account: the name, then the list of keys.
pub open spec fn table_bytes(t: TableModel) -> Seq<u8> {
    enc_string(t.name) + enc_strings(t.keys)
}

/// A table whose lengths can all be written.
pub open spec fn table_fits(t: TableModel) -> bool {
    string_fits(t.name) && strings_fit(t.keys)
}

/// The table that account data holds, if it holds exactly one.
pub open spec fn parse_table(b: Seq<u8>) -> Option<TableModel> {
    match take_string(b) {
        Some((name, rest)) => match take_strings(rest) {
            Some((keys, rest2)) => if rest2.len() == 0 {
                Some(TableModel { name, keys })
            } else {
                None
            },
            None => None,
        },
        None => None,
    }
}

/// The bytes of a value account: the value with its length in front.
pub open spec fn value_bytes(v: Seq<u8>) -> Seq<u8> {
    enc_bytes(v)
}

/// The value that account data holds, if it holds exactly one.
pub open spec fn parse_value(b: Seq<u8>) -> Option<Seq<u8>> {
    match take_bytes(b) {
        Some((v, rest)) => if rest.len() == 0 {
            Some(v)
        } else {
            None
        },
        None => None,
    }
}

impl SolTable {
    /// A table with the given name and no keys.
    pub fn new(name: String) -> (t: SolTable)
        ensures
            t@.name == name@,
            t@.keys == Seq::<Seq<char>>::empty(),
    {
        let t = SolTable { name, keys: Vec::new() };
        assert(t.keys.deep_view() =~= Seq::<Seq<char>>::empty());
        t
    }

    /// The account bytes of this table. Fails only when a length does not
    /// fit in the `u32` written in front of it.
    pub fn try_to_vec(&self) -> (r: Result<Vec<u8>, ProgramError>)
        ensures
            match r {
                Ok(bytes) => table_fits(self@) && bytes@ == table_bytes(self@),
                Err(e) => !table_fits(self@) && e == ProgramError::BorshIoError,
            },
    {
        let name = self.name.as_str();
        if name.as_bytes().len() > 4294967295 {
            return Err(ProgramError::BorshIoError);
        }
        if self.keys.len() > 4294967295 {
            return Err(ProgramError::BorshIoError);
        }
        let mut i: usize = 0;
        while i < self.keys.len()
            invariant
                i <= self.keys@.len(),
                forall|j: int| 0 <= j < i ==> string_fits(#[trigger] self.keys.deep_view()[j]),
            decreases self.keys@.len() - i,
        {
            assert(self.keys.deep_view()[i as int] == self.keys[i as int]@);
            if self.keys[i].as_str().as_bytes().len() > 4294967295 {
                return Err(ProgramError::BorshIoError);
            }
            i = i + 1;
        }
        let mut out: Vec<u8> = Vec::new();
        push_string(&mut out, name);
        push_strings(&mut out, &self.keys);
        assert(out@ =~= table_bytes(self@));
        Ok(out)
    }

    /// Reads a table from account data; `None` unless the data is exactly
    /// one table.
    pub fn try_from_slice(data: &[u8]) -> (r: Option<SolTable>)
        ensures
            match r {
                Some(t) => parse_table(data@) == Some(t@),
                None => parse_table(data@) is None,
            },
    {
        assert(data@.skip(0) =~= data@);
        let (name, p) = match read_string(data, 0) {
            Some(x) => x,
            None => return None,
        };
        let (keys, p2) = match read_strings(data, p) {
            Some(x) => x,
            None => return None,
        };
        if p2 == data.len() {
            Some(SolTable { name, keys })
        } else {
            None
        }
    }
}

impl SolValue {
    /// The account bytes of this value. Fails only when the value is longer
    /// than `u32::MAX` bytes.
    pub fn try_to_vec(&self) -> (r: Result<Vec<u8>, ProgramError>)
        ensures
            match r {
                Ok(bytes) => bytes_fit(self@) && bytes@ == value_bytes(self@),
                Err(e) => !bytes_fit(self@) && e == ProgramError::BorshIoError,
            },
    {
        if self.val.len() > 4294967295 {
            return Err(ProgramError::BorshIoError);
        }
        let mut out: Vec<u8> = Vec::new();
        push_bytes(&mut out, self.val.as_slice());
        assert(out@ =~= value_bytes(self@));
        Ok(out)
    }

    /// Reads a value from account data; `None` unless the data is exactly
    /// one value.
    pub fn try_from_slice(data: &[u8]) -> (r: Option<SolValue>)
        ensures
            match r {
                Some(v) => parse_value(data@) == Some(v@),
                None => parse_value(data@) is None,
            },
    {
        assert(data@.skip(0) =~= data@);
        match read_bytes(data, 0) {
            Some((val, p)) => if p == data.len() {
                Some(SolValue { val })
            } else {
                None
            },
            None => None,
        }
    }
}

/// A table's account bytes read back as the same table.
pub proof fn lemma_table_round_trip(t: TableModel)
    requires
        table_fits(t),
    ensures
        parse_table(table_bytes(t)) == Some(t),
{
    lemma_take_string_written(t.name, enc_strings(t.keys));
    assert(enc_strings(t.keys) =~= enc_strings(t.keys) + Seq::<u8>::empty());
    lemma_take_strings_written(t.keys, Seq::<u8>::empty());
    assert(table_bytes(t) =~= enc_string(t.name) + enc_strings(t.keys));
}

/// Account data that reads as a table is exactly that table's bytes.
pub proof fn lemma_table_bytes_canonical(b: Seq<u8>)
    requires
        parse_table(b) is Some,
    ensures
        table_fits(parse_table(b).unwrap()),
        table_bytes(parse_table(b).unwrap()) == b,
{
    lemma_take_string_read(b);
    let (name, rest) = take_string(b).unwrap();
    lemma_take_strings_read(rest);
    let (keys, rest2) = take_strings(rest).unwrap();
    assert(b =~= enc_string(name) + enc_strings(keys) + rest2);
}

/// A value's account bytes read back as the same value.
pub proof fn lemma_value_round_trip(v: Seq<u8>)
    requires
        bytes_fit(v),
    ensures
        parse_value(value_bytes(v)) == Some(v),
{
    assert(value_bytes(v) =~= enc_bytes(v) + Seq::<u8>::empty());
    lemma_take_bytes_written(v, Seq::<u8>::empty());
}

/// Account data that reads as a value is exactly that value's bytes.
pub proof fn lemma_value_bytes_canonical(b: Seq<u8>)
    requires
        parse_value(b) is Some,
    ensures
        bytes_fit(parse_value(b).unwrap()),
        value_bytes(parse_value(b).unwrap()) == b,
{
    lemma_take_bytes_read(b);
    let (v, rest) = take_bytes(b).unwrap();
    assert(b =~= enc_bytes(v) + rest);
}

} // verus!
