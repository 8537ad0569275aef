//! The program's instructions and their wire format: one tag byte naming
//! the instruction, then its fields in order.
use vstd::prelude::*;
use crate::codec::{
    bytes_fit, enc_bytes, enc_string, lemma_take_bytes_read, lemma_take_bytes_written,
    lemma_take_string_read, lemma_take_string_written, lemma_take_u8_read, lemma_take_u8_written,
    push_bytes, push_string, read_bytes, read_string, read_u8, string_fits, take_bytes,
    take_string, take_u8,
};
use crate::error::ProgramError;

verus! {

/// The program's instructions.
#[derive(Clone, Debug, PartialEq, Eq)]
pub enum SolDbIntructions {
    /// Initializes a new PDA account for a table.
    ///
    /// Expects the following accounts:
    /// 1. `[signer]` Owner of the table.
    /// 2. `[writable]` PDA to create for the table.
    /// 3. `[]` System program.
    InitTable(InitTable),
    /// Inserts a new key-value pair under an existing table.
    ///
    /// The key-value data is stored in a dedicated PDA derived from the key,
    /// the table account and the owner.
    ///
    /// Expects the following accounts:
    /// 1. `[signer, writable]` Owner, who pays for the new accounts.
    /// 2. `[writable]` Table account (must match PDA derived from table name
    ///    and owner).
    /// 3. `[writable]` Key-value PDA to be created.
    /// 4. `[]` System program.
    Insert(Insert),
    /// Updates an existing key-value pair under a table.
    ///
    /// Expects the following accounts:
    /// 1. `[signer, writable]` Owner of the table.
    /// 2. `[]` Table account.
    /// 3. `[writable]` Key-value PDA to overwrite.
    /// 4. `[]` System program.
    Put(Put),
    /// Deletes a key-value pair by emptying its PDA.
    ///
    /// Expects the following accounts:
    /// 1. `[writable]` Owner of the table, who receives the lamports.
    /// 2. `[]` Table account.
    /// 3. `[writable]` Key-value PDA to empty.
    /// 4. `[]` System program.
    Delete(Delete),
}

#[derive(Clone, Debug, PartialEq, Eq)]
pub struct InitTable {
    pub name: String,
    pub bump: u8,
}

#[derive(Clone, Debug, PartialEq, Eq)]
pub struct Insert {
    pub key: String,
    pub payload: Vec<u8>,
    pub bump: u8,
}

#[derive(Clone, Debug, PartialEq, Eq)]
pub struct Put {
    pub table: String,
    pub table_bump: u8,
    pub key: Vec<u8>,
    pub key_bump: u8,
    pub payload: Vec<u8>,
}

#[derive(Clone, Debug, PartialEq, Eq)]
pub struct Delete {
    pub table: String,
    pub table_bump: u8,
    pub key: Vec<u8>,
    pub key_bump: u8,
}

pub struct InitTableModel {
    pub name: Seq<char>,
    pub bump: u8,
}

pub struct InsertModel {
    pub key: Seq<char>,
    pub payload: Seq<u8>,
    pub bump: u8,
}

pub struct PutModel {
    pub table: Seq<char>,
    pub table_bump: u8,
    pub key: Seq<u8>,
    pub key_bump: u8,
    pub payload: Seq<u8>,
}

pub struct DeleteModel {
    pub table: Seq<char>,
    pub table_bump: u8,
    pub key: Seq<u8>,
    pub key_bump: u8,
}

pub enum InstructionModel {
    InitTable(InitTableModel),
    Insert(InsertModel),
    Put(PutModel),
    Delete(DeleteModel),
}

impl View for InitTable {
    type V = InitTableModel;

    open spec fn view(&self) -> InitTableModel {
        InitTableModel { name: self.name@, bump: self.bump }
    }
}

impl View for Insert {
    type V = InsertModel;

    open spec fn view(&self) -> InsertModel {
        InsertModel { key: self.key@, payload: self.payload@, bump: self.bump }
    }
}

impl View for Put {
    type V = PutModel;

    open spec fn view(&self) -> PutModel {
        PutModel {
            table: self.table@,
            table_bump: self.table_bump,
            key: self.key@,
            key_bump: self.key_bump,
            payload: self.payload@,
        }
    }
}

impl View for Delete {
    type V = DeleteModel;

    open spec fn view(&self) -> DeleteModel {
        DeleteModel {
            table: self.table@,
            table_bump: self.table_bump,
            key: self.key@,
            key_bump: self.key_bump,
        }
    }
}

impl View for SolDbIntructions {
    type V = InstructionModel;

    open spec fn view(&self) -> InstructionModel {
        match self {
            SolDbIntructions::InitTable(i) => InstructionModel::InitTable(i@),
            SolDbIntructions::Insert(i) => InstructionModel::Insert(i@),
            SolDbIntructions::Put(i) => InstructionModel::Put(i@),
            SolDbIntructions::Delete(i) => InstructionModel::Delete(i@),
        }
    }
}

// ---------------------------------------------------------------------------
// The wire format.

pub open spec fn init_table_bytes(m: InitTableModel) -> Seq<u8> {
    enc_string(m.name) + seq![m.bump]
}

pub open spec fn insert_bytes(m: InsertModel) -> Seq<u8> {
    enc_string(m.key) + enc_bytes(m.payload) + seq![m.bump]
}

pub open spec fn put_bytes(m: PutModel) -> Seq<u8> {
    enc_string(m.table) + seq![m.table_bump] + enc_bytes(m.key) + seq![m.key_bump] + enc_bytes(
        m.payload,
    )
}

pub open spec fn delete_bytes(m: DeleteModel) -> Seq<u8> {
    enc_string(m.table) + seq![m.table_bump] + enc_bytes(m.key) + seq![m.key_bump]
}

/// The instruction data of an instruction: its tag, then its fields.
pub open spec fn instruction_bytes(ix: InstructionModel) -> Seq<u8> {
    match ix {
        InstructionModel::InitTable(m) => seq![0u8] + init_table_bytes(m),
        InstructionModel::Insert(m) => seq![1u8] + insert_bytes(m),
        InstructionModel::Put(m) => seq![2u8] + put_bytes(m),
        InstructionModel::Delete(m) => seq![3u8] + delete_bytes(m),
    }
}

/// An instruction whose every length can be written in front of its field.
pub open spec fn instruction_fits(ix: InstructionModel) -> bool {
    match ix {
        InstructionModel::InitTable(m) => string_fits(m.name),
        InstructionModel::Insert(m) => string_fits(m.key) && bytes_fit(m.payload),
        InstructionModel::Put(m) => string_fits(m.table) && bytes_fit(m.key) && bytes_fit(
            m.payload,
        ),
        InstructionModel::Delete(m) => string_fits(m.table) && bytes_fit(m.key),
    }
}

pub open spec fn parse_init_table(b: Seq<u8>) -> Option<InitTableModel> {
    match take_string(b) {
        Some((name, r1)) => match take_u8(r1) {
            Some((bump, r2)) => if r2.len() == 0 {
                Some(InitTableModel { name, bump })
            } else {
                None
            },
            None => None,
        },
        None => None,
    }
}

pub open spec fn parse_insert(b: Seq<u8>) -> Option<InsertModel> {
    match take_string(b) {
        Some((key, r1)) => match take_bytes(r1) {
            Some((payload, r2)) => match take_u8(r2) {
                Some((bump, r3)) => if r3.len() == 0 {
                    Some(InsertModel { key, payload, bump })
                } else {
                    None
                },
                None => None,
            },
            None => None,
        },
        None => None,
    }
}

/// The fields of a `Put` after its table: the key, its bump seed and the
/// payload, filling the bytes.
pub open spec fn parse_put_tail(b: Seq<u8>) -> Option<(Seq<u8>, u8, Seq<u8>)> {
    match take_bytes(b) {
        Some((key, r3)) => match take_u8(r3) {
            Some((key_bump, r4)) => match take_bytes(r4) {
                Some((payload, r5)) => if r5.len() == 0 {
                    Some((key, key_bump, payload))
                } else {
                    None
                },
                None => None,
            },
            None => None,
        },
        None => None,
    }
}

pub open spec fn parse_put(b: Seq<u8>) -> Option<PutModel> {
    match take_string(b) {
        Some((table, r1)) => match take_u8(r1) {
            Some((table_bump, r2)) => match parse_put_tail(r2) {
                Some((key, key_bump, payload)) => Some(
                    PutModel { table, table_bump, key, key_bump, payload },
                ),
                None => None,
            },
            None => None,
        },
        None => None,
    }
}

pub open spec fn parse_delete(b: Seq<u8>) -> Option<DeleteModel> {
    match take_string(b) {
        Some((table, r1)) => match take_u8(r1) {
            Some((table_bump, r2)) => match take_bytes(r2) {
                Some((key, r3)) => match take_u8(r3) {
                    Some((key_bump, r4)) => if r4.len() == 0 {
                        Some(DeleteModel { table, table_bump, key, key_bump })
                    } else {
                        None
                    },
                    None => None,
                },
                None => None,
            },
            None => None,
        },
        None => None,
    }
}

/// The instruction that instruction data carries: a known tag followed by
/// exactly the fields of that instruction.
pub open spec fn parse_instruction(b: Seq<u8>) -> Option<InstructionModel> {
    if b.len() == 0 {
        None
    } else {
        let rest = b.skip(1);
        if b[0] == 0 {
            match parse_init_table(rest) {
                Some(m) => Some(InstructionModel::InitTable(m)),
                None => None,
            }
        } else if b[0] == 1 {
            match parse_insert(rest) {
                Some(m) => Some(InstructionModel::Insert(m)),
                None => None,
            }
        } else if b[0] == 2 {
            match parse_put(rest) {
                Some(m) => Some(InstructionModel::Put(m)),
                None => None,
            }
        } else if b[0] == 3 {
            match parse_delete(rest) {
                Some(m) => Some(InstructionModel::Delete(m)),
                None => None,
            }
        } else {
            None
        }
    }
}


// ---------------------------------------------------------------------------
// Reading and writing instructions.

impl InitTable {
    /// Reads the fields of an `InitTable`; `None` unless the data is exactly
    /// those fields.
    pub fn try_from_slice(data: &[u8]) -> (r: Option<InitTable>)
        ensures
            match r {
                Some(v) => parse_init_table(data@) == Some(v@),
                None => parse_init_table(data@) is None,
            },
    {
        assert(data@.skip(0) =~= data@);
        let (name, p1) = match read_string(data, 0) {
            Some(x) => x,
            None => return None,
        };
        let (bump, p2) = match read_u8(data, p1) {
            Some(x) => x,
            None => return None,
        };
        if p2 == data.len() {
            Some(InitTable { name, bump })
        } else {
            None
        }
    }

    /// The fields of this `InitTable` as bytes.
    pub fn pack_into(&self, out: &mut Vec<u8>)
        requires
            string_fits(self.name@),
        ensures
            final(out)@ == old(out)@ + init_table_bytes(self@),
    {
        push_string(out, self.name.as_str());
        out.push(self.bump);
        assert(out@ =~= old(out)@ + init_table_bytes(self@));
    }
}

impl Insert {
    /// Reads the fields of an `Insert`; `None` unless the data is exactly
    /// those fields.
    pub fn try_from_slice(data: &[u8]) -> (r: Option<Insert>)
        ensures
            match r {
                Some(v) => parse_insert(data@) == Some(v@),
                None => parse_insert(data@) is None,
            },
    {
        assert(data@.skip(0) =~= data@);
        let (key, p1) = match read_string(data, 0) {
            Some(x) => x,
            None => return None,
        };
        let (payload, p2) = match read_bytes(data, p1) {
            Some(x) => x,
            None => return None,
        };
        let (bump, p3) = match read_u8(data, p2) {
            Some(x) => x,
            None => return None,
        };
        if p3 == data.len() {
            Some(Insert { key, payload, bump })
        } else {
            None
        }
    }

    /// The fields of this `Insert` as bytes.
    pub fn pack_into(&self, out: &mut Vec<u8>)
        requires
            string_fits(self.key@),
            bytes_fit(self.payload@),
        ensures
            final(out)@ == old(out)@ + insert_bytes(self@),
    {
        push_string(out, self.key.as_str());
        push_bytes(out, self.payload.as_slice());
        out.push(self.bump);
        assert(out@ =~= old(out)@ + insert_bytes(self@));
    }
}

impl Put {
    /// Reads the fields of a `Put`; `None` unless the data is exactly those
    /// fields.
    pub fn try_from_slice(data: &[u8]) -> (r: Option<Put>)
        ensures
            match r {
                Some(v) => parse_put(data@) == Some(v@),
                None => parse_put(data@) is None,
            },
    {
        assert(data@.skip(0) =~= data@);
        let (table, p1) = match read_string(data, 0) {
            Some(x) => x,
            None => return None,
        };
        let (table_bump, p2) = match read_u8(data, p1) {
            Some(x) => x,
            None => return None,
        };
        let (key, p3) = match read_bytes(data, p2) {
            Some(x) => x,
            None => return None,
        };
        let (key_bump, p4) = match read_u8(data, p3) {
            Some(x) => x,
            None => return None,
        };
        let (payload, p5) = match read_bytes(data, p4) {
            Some(x) => x,
            None => return None,
        };
        if p5 == data.len() {
            Some(Put { table, table_bump, key, key_bump, payload })
        } else {
            None
        }
    }

    /// The fields of this `Put` as bytes.
    pub fn pack_into(&self, out: &mut Vec<u8>)
        requires
            string_fits(self.table@),
            bytes_fit(self.key@),
            bytes_fit(self.payload@),
        ensures
            final(out)@ == old(out)@ + put_bytes(self@),
    {
        push_string(out, self.table.as_str());
        out.push(self.table_bump);
        push_bytes(out, self.key.as_slice());
        out.push(self.key_bump);
        push_bytes(out, self.payload.as_slice());
        assert(out@ =~= old(out)@ + put_bytes(self@));
    }
}

impl Delete {
    /// Reads the fields of a `Delete`; `None` unless the data is exactly
    /// those fields.
    pub fn try_from_slice(data: &[u8]) -> (r: Option<Delete>)
        ensures
            match r {
                Some(v) => parse_delete(data@) == Some(v@),
                None => parse_delete(data@) is None,
            },
    {
        assert(data@.skip(0) =~= data@);
        let (table, p1) = match read_string(data, 0) {
            Some(x) => x,
            None => return None,
        };
        let (table_bump, p2) = match read_u8(data, p1) {
            Some(x) => x,
            None => return None,
        };
        let (key, p3) = match read_bytes(data, p2) {
            Some(x) => x,
            None => return None,
        };
        let (key_bump, p4) = match read_u8(data, p3) {
            Some(x) => x,
            None => return None,
        };
        if p4 == data.len() {
            Some(Delete { table, table_bump, key, key_bump })
        } else {
            None
        }
    }

    /// The fields of this `Delete` as bytes.
    pub fn pack_into(&self, out: &mut Vec<u8>)
        requires
            string_fits(self.table@),
            bytes_fit(self.key@),
        ensures
            final(out)@ == old(out)@ + delete_bytes(self@),
    {
        push_string(out, self.table.as_str());
        out.push(self.table_bump);
        push_bytes(out, self.key.as_slice());
        out.push(self.key_bump);
        assert(out@ =~= old(out)@ + delete_bytes(self@));
    }
}

impl SolDbIntructions {
    /// Reads an instruction from instruction data. Every failure, whether an
    /// unknown tag or fields that do not read, is `InvalidInstructionData`.
    pub fn unpack(input: &[u8]) -> (r: Result<SolDbIntructions, ProgramError>)
        ensures
            match parse_instruction(input@) {
                Some(ix) => r matches Ok(v) && v@ == ix,
                None => r == Err::<SolDbIntructions, ProgramError>(
                    ProgramError::InvalidInstructionData,
                ),
            },
    {
        if input.len() == 0 {
            return Err(ProgramError::InvalidInstructionData);
        }
        let variant = input[0];
        let rest = vstd::slice::slice_subrange(input, 1, input.len());
        assert(rest@ =~= input@.skip(1));
        if variant == 0 {
            match InitTable::try_from_slice(rest) {
                Some(v) => Ok(SolDbIntructions::InitTable(v)),
                None => Err(ProgramError::InvalidInstructionData),
            }
        } else if variant == 1 {
            match Insert::try_from_slice(rest) {
                Some(v) => Ok(SolDbIntructions::Insert(v)),
                None => Err(ProgramError::InvalidInstructionData),
            }
        } else if variant == 2 {
            match Put::try_from_slice(rest) {
                Some(v) => Ok(SolDbIntructions::Put(v)),
                None => Err(ProgramError::InvalidInstructionData),
            }
        } else if variant == 3 {
            match Delete::try_from_slice(rest) {
                Some(v) => Ok(SolDbIntructions::Delete(v)),
                None => Err(ProgramError::InvalidInstructionData),
            }
        } else {
            Err(ProgramError::InvalidInstructionData)
        }
    }

    /// The instruction data of this instruction, as a client sends it.
    pub fn pack(&self) -> (r: Vec<u8>)
        requires
            instruction_fits(self@),
        ensures
            r@ == instruction_bytes(self@),
    {
        let mut out: Vec<u8> = Vec::new();
        match self {
            SolDbIntructions::InitTable(v) => {
                out.push(0u8);
                v.pack_into(&mut out);
            },
            SolDbIntructions::Insert(v) => {
                out.push(1u8);
                v.pack_into(&mut out);
            },
            SolDbIntructions::Put(v) => {
                out.push(2u8);
                v.pack_into(&mut out);
            },
            SolDbIntructions::Delete(v) => {
                out.push(3u8);
                v.pack_into(&mut out);
            },
        }
        out
    }
}


// ---------------------------------------------------------------------------
// The wire format reads back what it writes, and nothing else.

/// Every instruction that a client packs is read back by the program as the
/// same instruction.
pub proof fn lemma_unpack_pack(ix: InstructionModel)
    requires
        instruction_fits(ix),
    ensures
        parse_instruction(instruction_bytes(ix)) == Some(ix),
{
    let b = instruction_bytes(ix);
    let e = Seq::<u8>::empty();
    match ix {
        InstructionModel::InitTable(m) => {
            assert(b.skip(1) =~= enc_string(m.name) + (seq![m.bump] + e));
            lemma_take_string_written(m.name, seq![m.bump] + e);
            lemma_take_u8_written(m.bump, e);
        },
        InstructionModel::Insert(m) => {
            assert(b.skip(1) =~= enc_string(m.key) + (enc_bytes(m.payload) + (seq![m.bump] + e)));
            lemma_take_string_written(m.key, enc_bytes(m.payload) + (seq![m.bump] + e));
            lemma_take_bytes_written(m.payload, seq![m.bump] + e);
            lemma_take_u8_written(m.bump, e);
        },
        InstructionModel::Put(m) => {
            let r4 = enc_bytes(m.payload) + e;
            let r3 = seq![m.key_bump] + r4;
            let r2 = enc_bytes(m.key) + r3;
            let r1 = seq![m.table_bump] + r2;
            assert(b.skip(1) =~= enc_string(m.table) + r1);
            lemma_take_string_written(m.table, r1);
            lemma_take_u8_written(m.table_bump, r2);
            lemma_take_bytes_written(m.key, r3);
            lemma_take_u8_written(m.key_bump, r4);
            lemma_take_bytes_written(m.payload, e);
        },
        InstructionModel::Delete(m) => {
            let r3 = seq![m.key_bump] + e;
            let r2 = enc_bytes(m.key) + r3;
            let r1 = seq![m.table_bump] + r2;
            assert(b.skip(1) =~= enc_string(m.table) + r1);
            lemma_take_string_written(m.table, r1);
            lemma_take_u8_written(m.table_bump, r2);
            lemma_take_bytes_written(m.key, r3);
            lemma_take_u8_written(m.key_bump, e);
        },
    }
}

proof fn lemma_init_table_canonical(b: Seq<u8>)
    requires
        parse_init_table(b) is Some,
    ensures
        string_fits(parse_init_table(b).unwrap().name),
        init_table_bytes(parse_init_table(b).unwrap()) == b,
{
    lemma_take_string_read(b);
    let (name, r1) = take_string(b).unwrap();
    lemma_take_u8_read(r1);
    assert(b =~= enc_string(name) + seq![take_u8(r1).unwrap().0]);
}

proof fn lemma_insert_canonical(b: Seq<u8>)
    requires
        parse_insert(b) is Some,
    ensures
        string_fits(parse_insert(b).unwrap().key),
        bytes_fit(parse_insert(b).unwrap().payload),
        insert_bytes(parse_insert(b).unwrap()) == b,
{
    lemma_take_string_read(b);
    let (key, r1) = take_string(b).unwrap();
    lemma_take_bytes_read(r1);
    let (payload, r2) = take_bytes(r1).unwrap();
    lemma_take_u8_read(r2);
    assert(b =~= enc_string(key) + enc_bytes(payload) + seq![take_u8(r2).unwrap().0]);
}

/// The tail of a `Put` that reads is exactly its fields written.
proof fn lemma_put_tail_canonical(r2: Seq<u8>)
    requires
        parse_put_tail(r2) is Some,
    ensures
        bytes_fit(parse_put_tail(r2).unwrap().0),
        bytes_fit(parse_put_tail(r2).unwrap().2),
        r2 == enc_bytes(parse_put_tail(r2).unwrap().0) + seq![parse_put_tail(r2).unwrap().1]
            + enc_bytes(parse_put_tail(r2).unwrap().2),
{
    lemma_take_bytes_read(r2);
    let (key, r3) = take_bytes(r2).unwrap();
    lemma_take_u8_read(r3);
    let (kb, r4) = take_u8(r3).unwrap();
    lemma_take_bytes_read(r4);
    let (payload, r5) = take_bytes(r4).unwrap();
    assert(r4 =~= enc_bytes(payload));
    assert(r2 =~= enc_bytes(key) + seq![kb] + enc_bytes(payload));
}

proof fn lemma_put_canonical(b: Seq<u8>)
    requires
        parse_put(b) is Some,
    ensures
        string_fits(parse_put(b).unwrap().table),
        bytes_fit(parse_put(b).unwrap().key),
        bytes_fit(parse_put(b).unwrap().payload),
        put_bytes(parse_put(b).unwrap()) == b,
{
    lemma_take_string_read(b);
    let (table, r1) = take_string(b).unwrap();
    lemma_take_u8_read(r1);
    let (tb, r2) = take_u8(r1).unwrap();
    lemma_put_tail_canonical(r2);
    let m = parse_put(b).unwrap();
    assert(m.table == table && m.table_bump == tb);
    assert(b =~= enc_string(table) + seq![tb] + (enc_bytes(m.key) + seq![m.key_bump] + enc_bytes(
        m.payload,
    )));
    assert(put_bytes(m) =~= b);
}

proof fn lemma_delete_canonical(b: Seq<u8>)
    requires
        parse_delete(b) is Some,
    ensures
        string_fits(parse_delete(b).unwrap().table),
        bytes_fit(parse_delete(b).unwrap().key),
        delete_bytes(parse_delete(b).unwrap()) == b,
{
    lemma_take_string_read(b);
    let (table, r1) = take_string(b).unwrap();
    lemma_take_u8_read(r1);
    let (tb, r2) = take_u8(r1).unwrap();
    lemma_take_bytes_read(r2);
    let (key, r3) = take_bytes(r2).unwrap();
    lemma_take_u8_read(r3);
    let (kb, r4) = take_u8(r3).unwrap();
    assert(b =~= enc_string(table) + seq![tb] + enc_bytes(key) + seq![kb]);
}

/// Instruction data that the program accepts is exactly the packed form of
/// the instruction it reads: no other bytes carry the same instruction.
pub proof fn lemma_pack_unpack(b: Seq<u8>)
    requires
        parse_instruction(b) is Some,
    ensures
        instruction_fits(parse_instruction(b).unwrap()),
        instruction_bytes(parse_instruction(b).unwrap()) == b,
{
    let rest = b.skip(1);
    assert(b =~= seq![b[0]] + rest);
    if b[0] == 0 {
        lemma_init_table_canonical(rest);
        let m = parse_init_table(rest).unwrap();
        assert(parse_instruction(b) == Some(InstructionModel::InitTable(m)));
    } else if b[0] == 1 {
        lemma_insert_canonical(rest);
        let m = parse_insert(rest).unwrap();
        assert(parse_instruction(b) == Some(InstructionModel::Insert(m)));
    } else if b[0] == 2 {
        lemma_put_canonical(rest);
        let m = parse_put(rest).unwrap();
        assert(parse_instruction(b) == Some(InstructionModel::Put(m)));
    } else {
        lemma_delete_canonical(rest);
        let m = parse_delete(rest).unwrap();
        assert(parse_instruction(b) == Some(InstructionModel::Delete(m)));
    }
}

} // verus!
