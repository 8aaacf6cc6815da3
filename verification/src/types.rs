//! The stored result of one analysis and its parts.

use vstd::prelude::*;
use vstd::string::*;
use indexmap::IndexMap;

verus! {

/// The insertion-ordered map of the `indexmap` crate. Nothing inside it is
/// visible here; what it holds is named by [`selector_entries`] and
/// [`name_entries`].
#[verifier::external_type_specification]
#[verifier::external_body]
#[verifier::reject_recursive_types(K)]
#[verifier::reject_recursive_types(V)]
#[verifier::reject_recursive_types(S)]
pub struct ExIndexMap<K, V, S>(IndexMap<K, V, S>);

/// The entries of a selector index, in the order in which it walks them.
pub uninterp spec fn selector_entries(index: IndexMap<[u8; 4], usize>) -> Seq<(Seq<u8>, usize)>;

/// The entries of a name index, in the order in which it walks them.
pub uninterp spec fn name_entries(index: IndexMap<String, usize>) -> Seq<(Seq<char>, usize)>;

/// The entries after `key` was set to `value`: an entry that has the key
/// keeps its place and takes the value, otherwise a new entry goes last.
pub open spec fn upsert<K>(entries: Seq<(K, usize)>, key: K, value: usize) -> Seq<(K, usize)>
    decreases entries.len(),
{
    if entries.len() == 0 {
        seq![(key, value)]
    } else if entries[0].0 == key {
        seq![(key, value)] + entries.skip(1)
    } else {
        seq![entries[0]] + upsert(entries.skip(1), key, value)
    }
}

/// `IndexMap::new`: an index without entries.
#[verifier::external_body]
fn selector_index_new() -> (index: IndexMap<[u8; 4], usize>)
    ensures
        selector_entries(index) == Seq::<(Seq<u8>, usize)>::empty(),
{
    IndexMap::new()
}

/// `IndexMap::insert`: a key that the index holds keeps its place and gets the
/// new value; a key that it does not hold is added behind all others.
#[verifier::external_body]
fn selector_index_insert(index: &mut IndexMap<[u8; 4], usize>, key: [u8; 4], value: usize)
    ensures
        selector_entries(*final(index)) == upsert(selector_entries(*old(index)), key@, value),
{
    index.insert(key, value);
}

/// `IndexMap::clear`: no entry is left.
#[verifier::external_body]
fn selector_index_clear(index: &mut IndexMap<[u8; 4], usize>)
    ensures
        selector_entries(*final(index)) == Seq::<(Seq<u8>, usize)>::empty(),
{
    index.clear();
}

/// `IndexMap::new`: an index without entries.
#[verifier::external_body]
fn name_index_new() -> (index: IndexMap<String, usize>)
    ensures
        name_entries(index) == Seq::<(Seq<char>, usize)>::empty(),
{
    IndexMap::new()
}

/// `IndexMap::insert`: a key that the index holds keeps its place and gets the
/// new value; a key that it does not hold is added behind all others.
#[verifier::external_body]
fn name_index_insert(index: &mut IndexMap<String, usize>, key: String, value: usize)
    ensures
        name_entries(*final(index)) == upsert(name_entries(*old(index)), key@, value),
{
    index.insert(key, value);
}

/// `IndexMap::clear`: no entry is left.
#[verifier::external_body]
fn name_index_clear(index: &mut IndexMap<String, usize>)
    ensures
        name_entries(*final(index)) == Seq::<(Seq<char>, usize)>::empty(),
{
    index.clear();
}

/// One parameter of a function or an error.
#[derive(Debug, Clone)]
pub struct ABIParam {
    pub name: String,
    pub type_: String,
    pub internal_type: Option<String>,
}

/// One function of the interface.
#[derive(Debug, Clone)]
pub struct ABIFunction {
    pub name: String,
    pub inputs: Vec<ABIParam>,
    pub outputs: Vec<ABIParam>,
    pub input_types: Vec<String>,
    pub output_types: Vec<String>,
    pub state_mutability: String,
    pub constant: bool,
    pub payable: bool,
    pub selector: [u8; 4],
    pub signature: String,
}

/// One parameter of an event.
#[derive(Debug, Clone)]
pub struct ABIEventParam {
    pub name: String,
    pub type_: String,
    pub indexed: bool,
    pub internal_type: Option<String>,
}

/// One event of the interface.
#[derive(Debug, Clone)]
pub struct ABIEvent {
    pub name: String,
    pub inputs: Vec<ABIEventParam>,
    pub anonymous: bool,
}

/// One custom error of the interface.
#[derive(Debug, Clone)]
pub struct ABIError {
    pub name: String,
    pub inputs: Vec<ABIParam>,
}

/// One slot of the storage layout.
#[derive(Debug, Clone)]
pub struct StorageSlot {
    pub index: u64,
    pub offset: u32,
    pub typ: String,
}

/// The stored result of one analysis. The two indexes are derived from the
/// function list: see [`ABI::indices_match`].
#[derive(Debug)]
pub struct ABI {
    pub functions: Vec<ABIFunction>,
    pub events: Vec<ABIEvent>,
    pub errors: Vec<ABIError>,
    pub constructor: Option<ABIFunction>,
    pub fallback: Option<ABIFunction>,
    pub receive: Option<ABIFunction>,
    pub storage_layout: Vec<StorageSlot>,
    pub decompile_error: Option<String>,
    pub storage_error: Option<String>,
    pub by_selector: IndexMap<[u8; 4], usize>,
    pub by_name: IndexMap<String, usize>,
}

/// What an [`ABIParam`] holds.
pub struct ParamModel {
    pub name: Seq<char>,
    pub type_: Seq<char>,
    pub internal_type: Option<Seq<char>>,
}

/// What an [`ABIEventParam`] holds.
pub struct EventParamModel {
    pub name: Seq<char>,
    pub type_: Seq<char>,
    pub indexed: bool,
    pub internal_type: Option<Seq<char>>,
}

/// What an [`ABIFunction`] holds.
pub struct FunctionModel {
    pub name: Seq<char>,
    pub inputs: Seq<ParamModel>,
    pub outputs: Seq<ParamModel>,
    pub input_types: Seq<Seq<char>>,
    pub output_types: Seq<Seq<char>>,
    pub state_mutability: Seq<char>,
    pub constant: bool,
    pub payable: bool,
    pub selector: Seq<u8>,
    pub signature: Seq<char>,
}

/// What an [`ABIEvent`] holds.
pub struct EventModel {
    pub name: Seq<char>,
    pub inputs: Seq<EventParamModel>,
    pub anonymous: bool,
}

/// What an [`ABIError`] holds.
pub struct ErrorModel {
    pub name: Seq<char>,
    pub inputs: Seq<ParamModel>,
}

/// What a [`StorageSlot`] holds.
pub struct SlotModel {
    pub index: u64,
    pub offset: u32,
    pub typ: Seq<char>,
}

/// What an [`ABI`] holds, the two indexes as their entries in order.
pub struct AbiModel {
    pub functions: Seq<FunctionModel>,
    pub events: Seq<EventModel>,
    pub errors: Seq<ErrorModel>,
    pub constructor: Option<FunctionModel>,
    pub fallback: Option<FunctionModel>,
    pub receive: Option<FunctionModel>,
    pub storage_layout: Seq<SlotModel>,
    pub decompile_error: Option<Seq<char>>,
    pub storage_error: Option<Seq<char>>,
    pub by_selector: Seq<(Seq<u8>, usize)>,
    pub by_name: Seq<(Seq<char>, usize)>,
}

/// The characters of an optional text.
pub open spec fn text_of(text: Option<String>) -> Option<Seq<char>> {
    match text {
        Some(t) => Some(t@),
        None => None,
    }
}

/// The characters of each text of a list.
pub open spec fn texts_of(texts: Seq<String>) -> Seq<Seq<char>> {
    texts.map_values(|t: String| t@)
}

/// The models of a list of parameters.
pub open spec fn params_of(params: Seq<ABIParam>) -> Seq<ParamModel> {
    params.map_values(|p: ABIParam| p@)
}

/// The models of a list of event parameters.
pub open spec fn event_params_of(params: Seq<ABIEventParam>) -> Seq<EventParamModel> {
    params.map_values(|p: ABIEventParam| p@)
}

/// The models of a list of functions.
pub open spec fn functions_of(functions: Seq<ABIFunction>) -> Seq<FunctionModel> {
    functions.map_values(|f: ABIFunction| f@)
}

/// The model of an optional function.
pub open spec fn function_of(function: Option<ABIFunction>) -> Option<FunctionModel> {
    match function {
        Some(f) => Some(f@),
        None => None,
    }
}

impl View for ABIParam {
    type V = ParamModel;

    open spec fn view(&self) -> ParamModel {
        ParamModel {
            name: self.name@,
            type_: self.type_@,
            internal_type: text_of(self.internal_type),
        }
    }
}

impl View for ABIEventParam {
    type V = EventParamModel;

    open spec fn view(&self) -> EventParamModel {
        EventParamModel {
            name: self.name@,
            type_: self.type_@,
            indexed: self.indexed,
            internal_type: text_of(self.internal_type),
        }
    }
}

impl View for ABIFunction {
    type V = FunctionModel;

    open spec fn view(&self) -> FunctionModel {
        FunctionModel {
            name: self.name@,
            inputs: params_of(self.inputs@),
            outputs: params_of(self.outputs@),
            input_types: texts_of(self.input_types@),
            output_types: texts_of(self.output_types@),
            state_mutability: self.state_mutability@,
            constant: self.constant,
            payable: self.payable,
            selector: self.selector@,
            signature: self.signature@,
        }
    }
}

impl View for ABIEvent {
    type V = EventModel;

    open spec fn view(&self) -> EventModel {
        EventModel {
            name: self.name@,
            inputs: event_params_of(self.inputs@),
            anonymous: self.anonymous,
        }
    }
}

impl View for ABIError {
    type V = ErrorModel;

    open spec fn view(&self) -> ErrorModel {
        ErrorModel { name: self.name@, inputs: params_of(self.inputs@) }
    }
}

impl View for StorageSlot {
    type V = SlotModel;

    open spec fn view(&self) -> SlotModel {
        SlotModel { index: self.index, offset: self.offset, typ: self.typ@ }
    }
}

impl View for ABI {
    type V = AbiModel;

    open spec fn view(&self) -> AbiModel {
        AbiModel {
            functions: functions_of(self.functions@),
            events: self.events@.map_values(|e: ABIEvent| e@),
            errors: self.errors@.map_values(|e: ABIError| e@),
            constructor: function_of(self.constructor),
            fallback: function_of(self.fallback),
            receive: function_of(self.receive),
            storage_layout: self.storage_layout@.map_values(|s: StorageSlot| s@),
            decompile_error: text_of(self.decompile_error),
            storage_error: text_of(self.storage_error),
            by_selector: selector_entries(self.by_selector),
            by_name: name_entries(self.by_name),
        }
    }
}

/// The selector index that belongs to a function list: the functions are
/// entered in order, each under its selector with its position; of several
/// functions with one selector the first fixes the place and the last the
/// position.
pub open spec fn selector_index(functions: Seq<FunctionModel>) -> Seq<(Seq<u8>, usize)>
    decreases functions.len(),
{
    if functions.len() == 0 {
        Seq::empty()
    } else {
        upsert(
            selector_index(functions.drop_last()),
            functions.last().selector,
            (functions.len() - 1) as usize,
        )
    }
}

/// The name index that belongs to a function list: as the selector index, by
/// name, and without the functions that have an empty name.
pub open spec fn name_index(functions: Seq<FunctionModel>) -> Seq<(Seq<char>, usize)>
    decreases functions.len(),
{
    if functions.len() == 0 {
        Seq::empty()
    } else if functions.last().name.len() == 0 {
        name_index(functions.drop_last())
    } else {
        upsert(
            name_index(functions.drop_last()),
            functions.last().name,
            (functions.len() - 1) as usize,
        )
    }
}

/// No two entries have the same key.
pub open spec fn distinct_keys<K>(entries: Seq<(K, usize)>) -> bool {
    forall|i: int, j: int| 0 <= i < j < entries.len() ==> entries[i].0 != entries[j].0
}

/// Some entry has the key.
pub open spec fn has_key<K>(entries: Seq<(K, usize)>, key: K) -> bool {
    exists|i: int| 0 <= i < entries.len() && (#[trigger] entries[i]).0 == key
}

/// Setting a key changes the entry that has it, where it stands, or adds an
/// entry at the end if none has it.
pub proof fn lemma_upsert_shape<K>(entries: Seq<(K, usize)>, key: K, value: usize)
    ensures
        !has_key(entries, key) ==> upsert(entries, key, value) == entries.push((key, value)),
        forall|p: int|
            0 <= p < entries.len() && (#[trigger] entries[p]).0 == key && (forall|q: int|
                0 <= q < p ==> (#[trigger] entries[q]).0 != key) ==> upsert(entries, key, value)
                == entries.update(p, (key, value)),
    decreases entries.len(),
{
    if entries.len() == 0 {
        assert(upsert(entries, key, value) =~= entries.push((key, value)));
    } else if entries[0].0 == key {
        assert(has_key(entries, key));
        assert(upsert(entries, key, value) =~= entries.update(0, (key, value)));
        assert forall|p: int|
            0 <= p < entries.len() && (#[trigger] entries[p]).0 == key && (forall|q: int|
                0 <= q < p ==> (#[trigger] entries[q]).0 != key) implies upsert(
            entries,
            key,
            value,
        ) == entries.update(p, (key, value)) by {
            if p > 0 {
                assert(entries[0].0 != key);
            }
        }
    } else {
        let rest = entries.skip(1);
        lemma_upsert_shape(rest, key, value);
        if !has_key(entries, key) {
            assert(!has_key(rest, key)) by {
                if has_key(rest, key) {
                    let i = choose|i: int| 0 <= i < rest.len() && (#[trigger] rest[i]).0 == key;
                    assert(entries[i + 1].0 == key);
                }
            }
            assert(upsert(entries, key, value) =~= entries.push((key, value)));
        }
        assert forall|p: int|
            0 <= p < entries.len() && (#[trigger] entries[p]).0 == key && (forall|q: int|
                0 <= q < p ==> (#[trigger] entries[q]).0 != key) implies upsert(
            entries,
            key,
            value,
        ) == entries.update(p, (key, value)) by {
            assert(p > 0);
            assert(rest[p - 1] == entries[p]);
            assert forall|q: int| 0 <= q < p - 1 implies (#[trigger] rest[q]).0 != key by {
                assert(rest[q] == entries[q + 1]);
            }
            assert(upsert(rest, key, value) == rest.update(p - 1, (key, value)));
            assert(upsert(entries, key, value) =~= entries.update(p, (key, value)));
        }
    }
}

/// The first place at which the key stands, if it stands anywhere.
proof fn lemma_first_place<K>(entries: Seq<(K, usize)>, key: K) -> (p: int)
    requires
        has_key(entries, key),
    ensures
        0 <= p < entries.len(),
        entries[p].0 == key,
        forall|q: int| 0 <= q < p ==> (#[trigger] entries[q]).0 != key,
    decreases entries.len(),
{
    if entries[0].0 == key {
        0
    } else {
        let rest = entries.skip(1);
        let i = choose|i: int| 0 <= i < entries.len() && (#[trigger] entries[i]).0 == key;
        assert(rest[i - 1].0 == key);
        let p = lemma_first_place(rest, key);
        assert(rest[p] == entries[p + 1]);
        assert forall|q: int| 0 <= q < p + 1 implies (#[trigger] entries[q]).0 != key by {
            if q > 0 {
                assert(rest[q - 1] == entries[q]);
            }
        }
        p + 1
    }
}

/// Setting a key keeps the keys distinct, gives the key the new value, adds
/// no other key and changes no other entry.
pub proof fn lemma_upsert_keeps_index<K>(entries: Seq<(K, usize)>, key: K, value: usize)
    requires
        distinct_keys(entries),
    ensures
        distinct_keys(upsert(entries, key, value)),
        has_key(upsert(entries, key, value), key),
        forall|other: K|
            other != key ==> (has_key(upsert(entries, key, value), other) <==> has_key(
                entries,
                other,
            )),
        forall|i: int|
            0 <= i < upsert(entries, key, value).len() ==> {
                let entry = #[trigger] upsert(entries, key, value)[i];
                if entry.0 == key {
                    entry.1 == value
                } else {
                    i < entries.len() && entry == entries[i]
                }
            },
{
    let after = upsert(entries, key, value);
    lemma_upsert_shape(entries, key, value);
    if has_key(entries, key) {
        let p = lemma_first_place(entries, key);
        assert(after == entries.update(p, (key, value)));
        assert(after[p].0 == key);
        assert forall|other: K| other != key implies (has_key(after, other) <==> has_key(
            entries,
            other,
        )) by {
            if has_key(after, other) {
                let i = choose|i: int| 0 <= i < after.len() && (#[trigger] after[i]).0 == other;
                assert(entries[i].0 == other);
            }
            if has_key(entries, other) {
                let i = choose|i: int|
                    0 <= i < entries.len() && (#[trigger] entries[i]).0 == other;
                assert(after[i].0 == other);
            }
        }
    } else {
        assert(after == entries.push((key, value)));
        assert(after[after.len() - 1].0 == key);
        assert forall|i: int, j: int| 0 <= i < j < after.len() implies after[i].0
            != after[j].0 by {
            if j == after.len() - 1 {
                assert(entries[i].0 != key);
            }
        }
        assert forall|other: K| other != key implies (has_key(after, other) <==> has_key(
            entries,
            other,
        )) by {
            if has_key(after, other) {
                let i = choose|i: int| 0 <= i < after.len() && (#[trigger] after[i]).0 == other;
                assert(entries[i].0 == other);
            }
            if has_key(entries, other) {
                let i = choose|i: int|
                    0 <= i < entries.len() && (#[trigger] entries[i]).0 == other;
                assert(after[i].0 == other);
            }
        }
        assert forall|i: int| 0 <= i < after.len() implies {
            let entry = #[trigger] after[i];
            if entry.0 == key {
                entry.1 == value
            } else {
                i < entries.len() && entry == entries[i]
            }
        } by {
            if i < entries.len() {
                assert(entries[i].0 != key);
            }
        }
    }
}

/// The selector index answers for its function list, which is no longer
/// than a vector can be: no selector is entered twice, every function's selector is entered, and each entry gives the
/// position of the last function that has its selector.
pub proof fn lemma_selector_index_answers(functions: Seq<FunctionModel>)
    requires
        functions.len() <= usize::MAX,
    ensures
        distinct_keys(selector_index(functions)),
        forall|i: int|
            0 <= i < functions.len() ==> has_key(
                selector_index(functions),
                (#[trigger] functions[i]).selector,
            ),
        forall|e: int|
            0 <= e < selector_index(functions).len() ==> {
                let entry = #[trigger] selector_index(functions)[e];
                &&& entry.1 < functions.len()
                &&& functions[entry.1 as int].selector == entry.0
                &&& forall|later: int|
                    entry.1 < later < functions.len() ==> (#[trigger] functions[later]).selector
                        != entry.0
            },
    decreases functions.len(),
{
    if functions.len() > 0 {
        let before = functions.drop_last();
        let last = functions.last();
        let at = (functions.len() - 1) as usize;
        lemma_selector_index_answers(before);
        lemma_upsert_keeps_index(selector_index(before), last.selector, at);
        let index = selector_index(functions);
        assert forall|i: int| 0 <= i < functions.len() implies has_key(
            index,
            (#[trigger] functions[i]).selector,
        ) by {
            if i < before.len() && functions[i].selector != last.selector {
                assert(before[i] == functions[i]);
                assert(has_key(selector_index(before), before[i].selector));
            }
        }
        assert forall|e: int| 0 <= e < index.len() implies {
            let entry = #[trigger] index[e];
            &&& entry.1 < functions.len()
            &&& functions[entry.1 as int].selector == entry.0
            &&& forall|later: int|
                entry.1 < later < functions.len() ==> (#[trigger] functions[later]).selector
                    != entry.0
        } by {
            let entry = index[e];
            if entry.0 != last.selector {
                assert(entry == selector_index(before)[e]);
                assert(before[entry.1 as int] == functions[entry.1 as int]);
                assert forall|later: int| entry.1 < later < functions.len() implies (
                #[trigger] functions[later]).selector != entry.0 by {
                    if later < before.len() {
                        assert(before[later] == functions[later]);
                    }
                }
            }
        }
    }
}

/// The name index answers for its function list, which is no longer than a
/// vector can be: no name is entered twice,
/// the empty name is not entered, every other function's name is, and each
/// entry gives the position of the last function that has its name.
pub proof fn lemma_name_index_answers(functions: Seq<FunctionModel>)
    requires
        functions.len() <= usize::MAX,
    ensures
        distinct_keys(name_index(functions)),
        !has_key(name_index(functions), Seq::<char>::empty()),
        forall|i: int|
            0 <= i < functions.len() && (#[trigger] functions[i]).name.len() > 0 ==> has_key(
                name_index(functions),
                functions[i].name,
            ),
        forall|e: int|
            0 <= e < name_index(functions).len() ==> {
                let entry = #[trigger] name_index(functions)[e];
                &&& entry.1 < functions.len()
                &&& functions[entry.1 as int].name == entry.0
                &&& forall|later: int|
                    entry.1 < later < functions.len() ==> (#[trigger] functions[later]).name
                        != entry.0
            },
    decreases functions.len(),
{
    if functions.len() > 0 {
        let before = functions.drop_last();
        let last = functions.last();
        let at = (functions.len() - 1) as usize;
        lemma_name_index_answers(before);
        let index = name_index(functions);
        let empty = Seq::<char>::empty();
        if last.name.len() == 0 {
            assert(last.name =~= empty);
            assert(index == name_index(before));
            assert forall|i: int|
                0 <= i < functions.len() && (#[trigger] functions[i]).name.len()
                    > 0 implies has_key(index, functions[i].name) by {
                assert(before[i] == functions[i]);
            }
            assert forall|e: int| 0 <= e < index.len() implies {
                let entry = #[trigger] index[e];
                &&& entry.1 < functions.len()
                &&& functions[entry.1 as int].name == entry.0
                &&& forall|later: int|
                    entry.1 < later < functions.len() ==> (#[trigger] functions[later]).name
                        != entry.0
            } by {
                let entry = index[e];
                assert(before[entry.1 as int] == functions[entry.1 as int]);
                assert(entry.0 != empty) by {
                    if entry.0 == empty {
                        assert(has_key(index, empty));
                    }
                }
                assert forall|later: int| entry.1 < later < functions.len() implies (
                #[trigger] functions[later]).name != entry.0 by {
                    if later < before.len() {
                        assert(before[later] == functions[later]);
                    }
                }
            }
        } else {
            lemma_upsert_keeps_index(name_index(before), last.name, at);
            assert forall|i: int|
                0 <= i < functions.len() && (#[trigger] functions[i]).name.len()
                    > 0 implies has_key(index, functions[i].name) by {
                if i < before.len() && functions[i].name != last.name {
                    assert(before[i] == functions[i]);
                    assert(has_key(name_index(before), before[i].name));
                }
            }
            assert forall|e: int| 0 <= e < index.len() implies {
                let entry = #[trigger] index[e];
                &&& entry.1 < functions.len()
                &&& functions[entry.1 as int].name == entry.0
                &&& forall|later: int|
                    entry.1 < later < functions.len() ==> (#[trigger] functions[later]).name
                        != entry.0
            } by {
                let entry = index[e];
                if entry.0 != last.name {
                    assert(entry == name_index(before)[e]);
                    assert(before[entry.1 as int] == functions[entry.1 as int]);
                    assert forall|later: int| entry.1 < later < functions.len() implies (
                    #[trigger] functions[later]).name != entry.0 by {
                        if later < before.len() {
                            assert(before[later] == functions[later]);
                        }
                    }
                }
            }
        }
    }
}

/// The result that holds nothing at all.
pub open spec fn empty_abi() -> AbiModel {
    AbiModel {
        functions: Seq::empty(),
        events: Seq::empty(),
        errors: Seq::empty(),
        constructor: None,
        fallback: None,
        receive: None,
        storage_layout: Seq::empty(),
        decompile_error: None,
        storage_error: None,
        by_selector: Seq::empty(),
        by_name: Seq::empty(),
    }
}

/// Enters the functions into two indexes that hold nothing yet.
fn fill_indices(
    functions: &Vec<ABIFunction>,
    by_selector: &mut IndexMap<[u8; 4], usize>,
    by_name: &mut IndexMap<String, usize>,
)
    requires
        selector_entries(*old(by_selector)) == Seq::<(Seq<u8>, usize)>::empty(),
        name_entries(*old(by_name)) == Seq::<(Seq<char>, usize)>::empty(),
    ensures
        selector_entries(*final(by_selector)) == selector_index(functions_of(functions@)),
        name_entries(*final(by_name)) == name_index(functions_of(functions@)),
{
    let n: usize = functions.len();
    let mut idx: usize = 0;
    while idx < n
        invariant
            n == functions@.len(),
            idx <= n,
            selector_entries(*by_selector) == selector_index(
                functions_of(functions@.take(idx as int)),
            ),
            name_entries(*by_name) == name_index(functions_of(functions@.take(idx as int))),
        decreases n - idx,
    {
        let func = &functions[idx];
        proof {
            let before = functions_of(functions@.take(idx as int));
            let after = functions_of(functions@.take(idx + 1));
            assert(after.drop_last() =~= before);
            assert(after.last() == func@);
        }
        selector_index_insert(by_selector, func.selector, idx);
        if !func.name.as_str().is_empty() {
            name_index_insert(by_name, func.name.clone(), idx);
        }
        idx = idx + 1;
    }
    assert(functions@.take(n as int) =~= functions@);
}

/// Builds both indexes of a function list.
pub fn build_indices(functions: &Vec<ABIFunction>) -> (indices: (
    IndexMap<[u8; 4], usize>,
    IndexMap<String, usize>,
))
    ensures
        selector_entries(indices.0) == selector_index(functions_of(functions@)),
        name_entries(indices.1) == name_index(functions_of(functions@)),
{
    let mut by_selector = selector_index_new();
    let mut by_name = name_index_new();
    fill_indices(functions, &mut by_selector, &mut by_name);
    (by_selector, by_name)
}

impl ABI {
    /// The two indexes are the ones that belong to the function list.
    pub open spec fn indices_match(&self) -> bool {
        &&& self@.by_selector == selector_index(self@.functions)
        &&& self@.by_name == name_index(self@.functions)
    }

    /// A result that holds nothing.
    pub fn new() -> (abi: ABI)
        ensures
            abi@ == empty_abi(),
            abi.indices_match(),
    {
        let abi = ABI {
            functions: Vec::new(),
            events: Vec::new(),
            errors: Vec::new(),
            constructor: None,
            fallback: None,
            receive: None,
            storage_layout: Vec::new(),
            decompile_error: None,
            storage_error: None,
            by_selector: selector_index_new(),
            by_name: name_index_new(),
        };
        assert(abi@.functions =~= Seq::empty());
        assert(abi@.events =~= Seq::empty());
        assert(abi@.errors =~= Seq::empty());
        assert(abi@.storage_layout =~= Seq::empty());
        abi
    }

    /// Derives both indexes anew from the function list; nothing else
    /// changes.
    pub fn rebuild_indices(&mut self)
        ensures
            final(self).indices_match(),
            final(self)@ == (AbiModel {
                by_selector: selector_index(old(self)@.functions),
                by_name: name_index(old(self)@.functions),
                ..old(self)@
            }),
    {
        selector_index_clear(&mut self.by_selector);
        name_index_clear(&mut self.by_name);
        fill_indices(&self.functions, &mut self.by_selector, &mut self.by_name);
    }
}

} // verus!
