//! From the columns of an input unit to work items.
//!
//! The columnar files are opened and decoded by the program around this
//! library. It hands over, for each record batch, the two columns that matter
//! as plain values.

use vstd::prelude::*;
use vstd::string::*;
use vstd::utf8::encode_utf8;
use crate::cache::{has_hex_prefix, hex_prefix, lemma_prefix_in_front};
use crate::encoding::{hex_encode, hex_text};
use crate::text::lemma_equal_by_last;

verus! {

/// One work item: a contract address and its bytecode, both as hexadecimal
/// text that starts with `0x`.
#[derive(Debug, Clone)]
pub struct Contract {
    pub address: String,
    pub code: String,
}

/// What a [`Contract`] holds.
pub struct ContractModel {
    pub address: Seq<char>,
    pub code: Seq<char>,
}

impl View for Contract {
    type V = ContractModel;

    open spec fn view(&self) -> ContractModel {
        ContractModel { address: self.address@, code: self.code@ }
    }
}

/// The values of a column, by the column's type.
#[derive(Debug, Clone)]
pub enum ColumnValues {
    Utf8(Vec<String>),
    Binary(Vec<Vec<u8>>),
    LargeBinary(Vec<Vec<u8>>),
    FixedSizeBinary(Vec<Vec<u8>>),
    /// A column of any other type; its values are not read.
    Other,
}

/// One column of a record batch.
#[derive(Debug, Clone)]
pub struct Column {
    /// The column's type as the input format prints it.
    pub data_type: String,
    pub values: ColumnValues,
}

/// The two columns of a record batch that hold the work items; `None` for a
/// column that the batch does not have.
#[derive(Debug, Clone)]
pub struct Batch {
    pub address: Option<Column>,
    pub code: Option<Column>,
}

/// Why an input unit cannot be read.
#[derive(Debug, Clone)]
pub enum ReadError {
    MissingAddressColumn,
    MissingCodeColumn,
    /// The address column has a type that is not read; the type is given.
    UnsupportedAddressType(String),
    /// The code column has a type that is not read; the type is given.
    UnsupportedCodeType(String),
}

/// What a [`ReadError`] holds.
pub enum ReadErrorModel {
    MissingAddressColumn,
    MissingCodeColumn,
    UnsupportedAddressType(Seq<char>),
    UnsupportedCodeType(Seq<char>),
}

impl View for ReadError {
    type V = ReadErrorModel;

    open spec fn view(&self) -> ReadErrorModel {
        match self {
            ReadError::MissingAddressColumn => ReadErrorModel::MissingAddressColumn,
            ReadError::MissingCodeColumn => ReadErrorModel::MissingCodeColumn,
            ReadError::UnsupportedAddressType(t) => ReadErrorModel::UnsupportedAddressType(t@),
            ReadError::UnsupportedCodeType(t) => ReadErrorModel::UnsupportedCodeType(t@),
        }
    }
}

/// The text of a read error.
pub open spec fn read_error_text(error: ReadErrorModel) -> Seq<char> {
    match error {
        ReadErrorModel::MissingAddressColumn => "Missing contract_address column"@,
        ReadErrorModel::MissingCodeColumn => "Missing code column"@,
        ReadErrorModel::UnsupportedAddressType(t) => "Unsupported address column type: "@ + t,
        ReadErrorModel::UnsupportedCodeType(t) => "Unsupported code column type: "@ + t,
    }
}

impl ReadError {
    /// The text of the error.
    pub fn message(&self) -> (text: String)
        ensures
            text@ == read_error_text(self@),
    {
        match self {
            ReadError::MissingAddressColumn => String::from_str("Missing contract_address column"),
            ReadError::MissingCodeColumn => String::from_str("Missing code column"),
            ReadError::UnsupportedAddressType(t) => {
                let mut text = String::from_str("Unsupported address column type: ");
                text.append(t.as_str());
                text
            },
            ReadError::UnsupportedCodeType(t) => {
                let mut text = String::from_str("Unsupported code column type: ");
                text.append(t.as_str());
                text
            },
        }
    }
}

/// The lower-case hexadecimal text of each value.
pub open spec fn hex_texts(values: Seq<Vec<u8>>) -> Seq<Seq<char>> {
    values.map_values(|v: Vec<u8>| hex_text(v@))
}

/// The characters of each text.
pub open spec fn plain_texts(values: Seq<String>) -> Seq<Seq<char>> {
    values.map_values(|t: String| t@)
}

/// The addresses that a column gives: its texts, or the hexadecimal text of
/// its binary values. Columns of other types give none.
pub open spec fn address_texts(values: ColumnValues) -> Option<Seq<Seq<char>>> {
    match values {
        ColumnValues::Utf8(texts) => Some(plain_texts(texts@)),
        ColumnValues::Binary(raw) => Some(hex_texts(raw@)),
        ColumnValues::LargeBinary(raw) => Some(hex_texts(raw@)),
        ColumnValues::FixedSizeBinary(raw) => Some(hex_texts(raw@)),
        ColumnValues::Other => None,
    }
}

/// The bytecodes that a column gives: as for addresses, but binary values of
/// fixed size are not read.
pub open spec fn code_texts(values: ColumnValues) -> Option<Seq<Seq<char>>> {
    match values {
        ColumnValues::Utf8(texts) => Some(plain_texts(texts@)),
        ColumnValues::Binary(raw) => Some(hex_texts(raw@)),
        ColumnValues::LargeBinary(raw) => Some(hex_texts(raw@)),
        ColumnValues::FixedSizeBinary(_) => None,
        ColumnValues::Other => None,
    }
}

/// A bytecode that stands for no contract: the empty text, or `0x` alone.
pub open spec fn is_placeholder(code: Seq<char>) -> bool {
    code.len() == 0 || encode_utf8(code) == hex_prefix()
}

/// The text with `0x` in front, unless it starts with `0x` already.
pub open spec fn with_hex_prefix(text: Seq<char>) -> Seq<char> {
    if has_hex_prefix(encode_utf8(text)) {
        text
    } else {
        "0x"@ + text
    }
}

/// The work items among the first `n` rows: the rows whose bytecode is no
/// placeholder, in order, address and bytecode with `0x` in front.
pub open spec fn items_of_rows(addresses: Seq<Seq<char>>, codes: Seq<Seq<char>>, n: nat) -> Seq<
    ContractModel,
>
    decreases n,
{
    if n == 0 {
        Seq::empty()
    } else {
        let before = items_of_rows(addresses, codes, (n - 1) as nat);
        if is_placeholder(codes[n - 1]) {
            before
        } else {
            before.push(
                ContractModel {
                    address: with_hex_prefix(addresses[n - 1]),
                    code: with_hex_prefix(codes[n - 1]),
                },
            )
        }
    }
}

/// The number of rows that have both an address and a bytecode.
pub open spec fn row_count(addresses: Seq<Seq<char>>, codes: Seq<Seq<char>>) -> nat {
    if addresses.len() <= codes.len() {
        addresses.len()
    } else {
        codes.len()
    }
}

/// What a batch gives: its work items, or the first thing that is wrong with
/// it. A missing column is reported before an unread type, and the address
/// column before the code column.
pub open spec fn batch_items(batch: Batch) -> Result<Seq<ContractModel>, ReadErrorModel> {
    match (batch.address, batch.code) {
        (None, _) => Err(ReadErrorModel::MissingAddressColumn),
        (Some(_), None) => Err(ReadErrorModel::MissingCodeColumn),
        (Some(address), Some(code)) => match address_texts(address.values) {
            None => Err(ReadErrorModel::UnsupportedAddressType(address.data_type@)),
            Some(addresses) => match code_texts(code.values) {
                None => Err(ReadErrorModel::UnsupportedCodeType(code.data_type@)),
                Some(codes) => Ok(items_of_rows(addresses, codes, row_count(addresses, codes))),
            },
        },
    }
}

/// The models of a list of work items.
pub open spec fn contracts_of(contracts: Seq<Contract>) -> Seq<ContractModel> {
    contracts.map_values(|c: Contract| c@)
}

/// What a result of reading holds.
pub open spec fn read_of(result: Result<Vec<Contract>, ReadError>) -> Result<
    Seq<ContractModel>,
    ReadErrorModel,
> {
    match result {
        Ok(contracts) => Ok(contracts_of(contracts@)),
        Err(error) => Err(error@),
    }
}

fn clone_texts(values: &Vec<String>) -> (texts: Vec<String>)
    ensures
        plain_texts(texts@) == plain_texts(values@),
{
    let mut texts: Vec<String> = Vec::new();
    let n: usize = values.len();
    let mut i: usize = 0;
    assert(plain_texts(texts@) =~= plain_texts(values@.take(0)));
    while i < n
        invariant
            n == values@.len(),
            i <= n,
            plain_texts(texts@) == plain_texts(values@.take(i as int)),
        decreases n - i,
    {
        let ghost before = texts@;
        texts.push(values[i].clone());
        i = i + 1;
        proof {
            assert(texts@.drop_last() =~= before);
            assert(values@.take(i as int).drop_last() =~= values@.take(i - 1));
            assert(plain_texts(texts@).drop_last() =~= plain_texts(before));
            assert(plain_texts(values@.take(i as int)).drop_last() =~= plain_texts(
                values@.take(i - 1),
            ));
            lemma_equal_by_last(plain_texts(texts@), plain_texts(values@.take(i as int)));
        }
    }
    assert(values@.take(n as int) =~= values@);
    texts
}

fn encode_values(values: &Vec<Vec<u8>>) -> (texts: Vec<String>)
    ensures
        plain_texts(texts@) == hex_texts(values@),
{
    let mut texts: Vec<String> = Vec::new();
    let n: usize = values.len();
    let mut i: usize = 0;
    assert(plain_texts(texts@) =~= hex_texts(values@.take(0)));
    while i < n
        invariant
            n == values@.len(),
            i <= n,
            plain_texts(texts@) == hex_texts(values@.take(i as int)),
        decreases n - i,
    {
        let ghost before = texts@;
        texts.push(hex_encode(values[i].as_slice()));
        i = i + 1;
        proof {
            assert(texts@.drop_last() =~= before);
            assert(values@.take(i as int).drop_last() =~= values@.take(i - 1));
            assert(plain_texts(texts@).drop_last() =~= plain_texts(before));
            assert(hex_texts(values@.take(i as int)).drop_last() =~= hex_texts(
                values@.take(i - 1),
            ));
            lemma_equal_by_last(plain_texts(texts@), hex_texts(values@.take(i as int)));
        }
    }
    assert(values@.take(n as int) =~= values@);
    texts
}

fn read_addresses(values: &ColumnValues) -> (texts: Option<Vec<String>>)
    ensures
        match texts {
            Some(t) => address_texts(*values) == Some(plain_texts(t@)),
            None => address_texts(*values) is None,
        },
{
    match values {
        ColumnValues::Utf8(texts) => Some(clone_texts(texts)),
        ColumnValues::Binary(raw) => Some(encode_values(raw)),
        ColumnValues::LargeBinary(raw) => Some(encode_values(raw)),
        ColumnValues::FixedSizeBinary(raw) => Some(encode_values(raw)),
        ColumnValues::Other => None,
    }
}

fn read_codes(values: &ColumnValues) -> (texts: Option<Vec<String>>)
    ensures
        match texts {
            Some(t) => code_texts(*values) == Some(plain_texts(t@)),
            None => code_texts(*values) is None,
        },
{
    match values {
        ColumnValues::Utf8(texts) => Some(clone_texts(texts)),
        ColumnValues::Binary(raw) => Some(encode_values(raw)),
        ColumnValues::LargeBinary(raw) => Some(encode_values(raw)),
        ColumnValues::FixedSizeBinary(_) => None,
        ColumnValues::Other => None,
    }
}

/// Whether a bytecode stands for no contract.
pub fn is_placeholder_code(code: &str) -> (placeholder: bool)
    ensures
        placeholder == is_placeholder(code@),
{
    if code.is_empty() {
        return true;
    }
    let bytes = code.as_bytes();
    let placeholder = bytes.len() == 2 && bytes[0] == 0x30u8 && bytes[1] == 0x78u8;
    proof {
        if placeholder {
            assert(bytes@ =~= hex_prefix());
        } else if bytes@.len() == 2 {
            assert(hex_prefix()[0] == 0x30u8 && hex_prefix()[1] == 0x78u8);
        }
    }
    placeholder
}

/// A text that was given its `0x` starts with `0x`.
pub proof fn lemma_prefixed_text_has_prefix(text: Seq<char>)
    ensures
        has_hex_prefix(encode_utf8(with_hex_prefix(text))),
        with_hex_prefix(with_hex_prefix(text)) == with_hex_prefix(text),
{
    if !has_hex_prefix(encode_utf8(text)) {
        lemma_prefix_in_front(text);
        let bytes = hex_prefix() + encode_utf8(text);
        assert(bytes.subrange(0, 2) =~= hex_prefix());
    }
}

/// Puts `0x` in front of a text that does not start with it.
pub fn ensure_hex_prefix(text: &str) -> (prefixed: String)
    ensures
        prefixed@ == with_hex_prefix(text@),
        has_hex_prefix(encode_utf8(prefixed@)),
{
    proof {
        lemma_prefixed_text_has_prefix(text@);
    }
    let bytes = text.as_bytes();
    let has = bytes.len() >= 2 && bytes[0] == 0x30u8 && bytes[1] == 0x78u8;
    proof {
        if has {
            assert(bytes@.subrange(0, 2) =~= hex_prefix());
        } else if bytes@.len() >= 2 {
            assert(bytes@.subrange(0, 2)[0] == bytes@[0]);
            assert(bytes@.subrange(0, 2)[1] == bytes@[1]);
            assert(hex_prefix()[0] == 0x30u8 && hex_prefix()[1] == 0x78u8);
        }
    }
    if has {
        String::from_str(text)
    } else {
        let mut prefixed = String::from_str("0x");
        prefixed.append(text);
        prefixed
    }
}

/// What an input unit gives: the work items of its batches, one batch after
/// the other; the first batch that cannot be read fails the unit.
pub open spec fn unit_items(batches: Seq<Batch>) -> Result<Seq<ContractModel>, ReadErrorModel>
    decreases batches.len(),
{
    if batches.len() == 0 {
        Ok(Seq::empty())
    } else {
        match unit_items(batches.drop_last()) {
            Err(error) => Err(error),
            Ok(items) => match batch_items(batches.last()) {
                Err(error) => Err(error),
                Ok(more) => Ok(items + more),
            },
        }
    }
}

/// The work items of all units that can be read, one unit after the other.
pub open spec fn all_items(units: Seq<Vec<Batch>>) -> Seq<ContractModel>
    decreases units.len(),
{
    if units.len() == 0 {
        Seq::empty()
    } else {
        match unit_items(units.last()@) {
            Ok(items) => all_items(units.drop_last()) + items,
            Err(_) => all_items(units.drop_last()),
        }
    }
}

/// The reader of input units.
pub struct ParquetReader;

impl ParquetReader {
    /// Draws the work items out of one record batch. Rows whose bytecode is
    /// empty or only `0x` are left out; binary values are written in
    /// hexadecimal; every address and bytecode gets `0x` in front if it has
    /// none. Rows are paired up to the shorter of the two columns.
    pub fn extract_contracts_from_batch(batch: &Batch) -> (result: Result<Vec<Contract>, ReadError>)
        ensures
            read_of(result) == batch_items(*batch),
    {
        let address = match &batch.address {
            None => {
                return Err(ReadError::MissingAddressColumn);
            },
            Some(column) => column,
        };
        let code = match &batch.code {
            None => {
                return Err(ReadError::MissingCodeColumn);
            },
            Some(column) => column,
        };
        let addresses = match read_addresses(&address.values) {
            None => {
                return Err(ReadError::UnsupportedAddressType(address.data_type.clone()));
            },
            Some(texts) => texts,
        };
        let codes = match read_codes(&code.values) {
            None => {
                return Err(ReadError::UnsupportedCodeType(code.data_type.clone()));
            },
            Some(texts) => texts,
        };
        let n: usize = if addresses.len() <= codes.len() {
            addresses.len()
        } else {
            codes.len()
        };
        let ghost a = plain_texts(addresses@);
        let ghost c = plain_texts(codes@);
        let mut contracts: Vec<Contract> = Vec::new();
        let mut i: usize = 0;
        assert(contracts_of(contracts@) =~= items_of_rows(a, c, 0));
        while i < n
            invariant
                n == row_count(a, c),
                a == plain_texts(addresses@),
                c == plain_texts(codes@),
                i <= n,
                contracts_of(contracts@) == items_of_rows(a, c, i as nat),
            decreases n - i,
        {
            assert(c[i as int] == codes@[i as int]@);
            assert(a[i as int] == addresses@[i as int]@);
            if !is_placeholder_code(codes[i].as_str()) {
                let ghost before = contracts@;
                contracts.push(
                    Contract {
                        address: ensure_hex_prefix(addresses[i].as_str()),
                        code: ensure_hex_prefix(codes[i].as_str()),
                    },
                );
                proof {
                    assert(contracts@.drop_last() =~= before);
                    assert(contracts_of(contracts@).drop_last() =~= contracts_of(before));
                    assert(items_of_rows(a, c, (i + 1) as nat).drop_last() =~= items_of_rows(
                        a,
                        c,
                        i as nat,
                    ));
                    lemma_equal_by_last(
                        contracts_of(contracts@),
                        items_of_rows(a, c, (i + 1) as nat),
                    );
                }
            }
            i = i + 1;
        }
        Ok(contracts)
    }

    /// Reads one input unit from its record batches.
    pub fn read_contracts(batches: &Vec<Batch>) -> (result: Result<Vec<Contract>, ReadError>)
        ensures
            read_of(result) == unit_items(batches@),
    {
        let mut contracts: Vec<Contract> = Vec::new();
        let n: usize = batches.len();
        let mut i: usize = 0;
        assert(contracts_of(contracts@) =~= Seq::empty());
        assert(batches@.take(0) =~= Seq::<Batch>::empty());
        while i < n
            invariant
                n == batches@.len(),
                i <= n,
                unit_items(batches@.take(i as int)) == Ok::<Seq<ContractModel>, ReadErrorModel>(
                    contracts_of(contracts@),
                ),
            decreases n - i,
        {
            assert(batches@.take(i + 1).drop_last() =~= batches@.take(i as int));
            assert(batches@.take(i + 1).last() == batches@[i as int]);
            let ghost before = contracts@;
            match ParquetReader::extract_contracts_from_batch(&batches[i]) {
                Ok(mut more) => {
                    let ghost added = more@;
                    contracts.append(&mut more);
                    assert(contracts_of(contracts@) =~= contracts_of(before) + contracts_of(
                        added,
                    ));
                },
                Err(error) => {
                    proof {
                        lemma_unit_fails_with_batch(batches@, i as int);
                    }
                    return Err(error);
                },
            }
            i = i + 1;
        }
        assert(batches@.take(n as int) =~= batches@);
        Ok(contracts)
    }

    /// Reads all input units; a unit that cannot be read is passed over.
    pub fn read_all_parquets(units: &Vec<Vec<Batch>>) -> (contracts: Vec<Contract>)
        ensures
            contracts_of(contracts@) == all_items(units@),
    {
        let mut contracts: Vec<Contract> = Vec::new();
        let n: usize = units.len();
        let mut i: usize = 0;
        assert(contracts_of(contracts@) =~= Seq::empty());
        assert(units@.take(0) =~= Seq::<Vec<Batch>>::empty());
        while i < n
            invariant
                n == units@.len(),
                i <= n,
                contracts_of(contracts@) == all_items(units@.take(i as int)),
            decreases n - i,
        {
            assert(units@.take(i + 1).drop_last() =~= units@.take(i as int));
            assert(units@.take(i + 1).last() == units@[i as int]);
            let ghost before = contracts@;
            match ParquetReader::read_contracts(&units[i]) {
                Ok(mut more) => {
                    let ghost added = more@;
                    contracts.append(&mut more);
                    assert(contracts_of(contracts@) =~= contracts_of(before) + contracts_of(
                        added,
                    ));
                },
                Err(_) => {},
            }
            i = i + 1;
        }
        assert(units@.take(n as int) =~= units@);
        contracts
    }
}

/// A unit whose batches before `at` can be read and whose batch at `at`
/// cannot fails with the error of that batch.
proof fn lemma_unit_fails_with_batch(batches: Seq<Batch>, at: int)
    requires
        0 <= at < batches.len(),
        unit_items(batches.take(at)) is Ok,
        batch_items(batches[at]) is Err,
    ensures
        unit_items(batches) == Err::<Seq<ContractModel>, ReadErrorModel>(
            batch_items(batches[at])->Err_0,
        ),
    decreases batches.len(),
{
    if at == batches.len() - 1 {
        assert(batches.drop_last() =~= batches.take(at));
    } else {
        assert(batches.drop_last().take(at) =~= batches.take(at));
        lemma_unit_fails_with_batch(batches.drop_last(), at);
    }
}

} // verus!
