//! Tally of function selectors.
//!
//! A call's input starts with a four-byte selector that names the function
//! called. The tally counts, over one execution, how often each pair of
//! selector and size of the remaining call data was seen.

use crate::encoding::{
    decimal_string, hex_encode, hex_string, lemma_decimal_injective, lemma_hex_injective,
    push_decimal,
};
use crate::inspector::{
    neutral, CallInputs, CallOutcome, CreateInputs, CreateOutcome, Event, Inspector, Interpreter,
    InterpreterResult, Log, Reply,
};
use crate::primitives::{copy_vec, Address, U256};
use alloy_rpc_types_trace::geth::FourByteFrame;
use vstd::prelude::*;
use vstd::string::StringExecFns;

verus! {

/// What the tally is keyed by: the selector's four bytes and the number of
/// input bytes that follow them.
pub type TallyKey = (Seq<u8>, nat);

/// One counter of the tally.
#[derive(Clone, Copy, Debug, PartialEq, Eq)]
pub struct TallyEntry {
    /// The first four bytes of the input.
    pub selector: [u8; 4],
    /// The number of input bytes after the selector.
    pub calldata_size: usize,
    /// How many calls had this selector and size.
    pub count: u64,
}

impl TallyEntry {
    /// The pair that this entry counts.
    pub open spec fn key(self) -> TallyKey {
        (self.selector@, self.calldata_size as nat)
    }
}

/// The pair under which a call with this input is counted.
pub open spec fn key_of_input(input: Seq<u8>) -> TallyKey
    recommends
        input.len() >= 4,
{
    (input.subrange(0, 4), (input.len() - 4) as nat)
}

/// A count after one more occurrence; it stays at the largest `u64` once there.
pub open spec fn bump(count: u64) -> u64 {
    if count < u64::MAX {
        (count + 1) as u64
    } else {
        count
    }
}

/// How often `key` was seen according to `tally`.
pub open spec fn seen(tally: Map<TallyKey, u64>, key: TallyKey) -> u64 {
    if tally.dom().contains(key) {
        tally[key]
    } else {
        0
    }
}

/// The tally after a call with the given input: inputs shorter than a selector
/// leave it as it is, any other input adds one to the count of its pair.
pub open spec fn record(tally: Map<TallyKey, u64>, input: Seq<u8>) -> Map<TallyKey, u64> {
    if input.len() >= 4 {
        let key = key_of_input(input);
        tally.insert(key, bump(seen(tally, key)))
    } else {
        tally
    }
}

/// An input of exactly four bytes is counted under those four bytes with a
/// call data size of zero.
pub proof fn lemma_bare_selector(tally: Map<TallyKey, u64>, input: Seq<u8>)
    requires
        input.len() == 4,
    ensures
        key_of_input(input) == (input, 0nat),
        record(tally, input).dom() == tally.dom().insert((input, 0nat)),
        record(tally, input)[(input, 0nat)] == bump(seen(tally, (input, 0nat))),
{
    assert(input.subrange(0, 4) =~= input);
}

/// An input of fewer than four bytes leaves the tally as it is: no entry is
/// made for it.
pub proof fn lemma_short_input_ignored(tally: Map<TallyKey, u64>, input: Seq<u8>)
    requires
        input.len() < 4,
    ensures
        record(tally, input) == tally,
{
}

/// A call with the same selector and call data size as one before adds to the
/// counter that is there: the tally gets no further entry, and the counter
/// has gone up twice.
pub proof fn lemma_repeated_call(tally: Map<TallyKey, u64>, first: Seq<u8>, second: Seq<u8>)
    requires
        first.len() >= 4,
        second.len() >= 4,
        key_of_input(first) == key_of_input(second),
    ensures
        record(record(tally, first), second).dom() == record(tally, first).dom(),
        record(record(tally, first), second) == record(tally, first).insert(
            key_of_input(first),
            bump(bump(seen(tally, key_of_input(first)))),
        ),
{
    let key = key_of_input(first);
    let once = record(tally, first);
    let twice = record(once, second);
    assert(once.dom().contains(key));
    assert(twice.dom() =~= once.dom());
    assert(twice =~= once.insert(key, bump(bump(seen(tally, key)))));
}

/// The text under which a pair is exported: `0x`, the selector in lowercase
/// hex, a hyphen, and the call data size in decimal.
pub open spec fn key_text(key: TallyKey) -> Seq<char> {
    seq!['0', 'x'] + hex_string(key.0) + seq!['-'] + decimal_string(key.1)
}

/// The exported form of a tally: the count of each pair under the pair's text.
pub open spec fn exported(tally: Map<TallyKey, u64>) -> Map<Seq<char>, u64> {
    Map::new(
        |text: Seq<char>| exists|key: TallyKey| tally.dom().contains(key) && key_text(key) == text,
        |text: Seq<char>| tally[choose|key: TallyKey| tally.dom().contains(key) && key_text(key) == text],
    )
}

/// Distinct pairs never share a text, so exporting merges no two counters.
pub proof fn lemma_key_text_injective(a: TallyKey, b: TallyKey)
    requires
        a.0.len() == 4,
        b.0.len() == 4,
        key_text(a) == key_text(b),
    ensures
        a == b,
{
    let ta = key_text(a);
    let tb = key_text(b);
    assert(hex_string(a.0).len() == 8);
    assert(hex_string(b.0).len() == 8);
    assert(ta.subrange(2, 10) =~= hex_string(a.0));
    assert(tb.subrange(2, 10) =~= hex_string(b.0));
    lemma_hex_injective(a.0, b.0);
    assert(ta.subrange(11, ta.len() as int) =~= decimal_string(a.1));
    assert(tb.subrange(11, tb.len() as int) =~= decimal_string(b.1));
    lemma_decimal_injective(a.1, b.1);
}

/// The outside type of an exported tally: a map from texts to counts.
#[verifier::external_type_specification]
#[verifier::external_body]
pub struct ExFourByteFrame(FourByteFrame);

/// What a `FourByteFrame` holds: the count stored under each text.
pub uninterp spec fn frame_entries(frame: FourByteFrame) -> Map<Seq<char>, u64>;

/// The map that a list of pairs with distinct texts stands for.
pub open spec fn pairs_map(pairs: Seq<(String, u64)>) -> Map<Seq<char>, u64> {
    Map::new(
        |text: Seq<char>| exists|i: int| 0 <= i < pairs.len() && (#[trigger] pairs[i]).0@ == text,
        |text: Seq<char>|
            pairs[choose|i: int| 0 <= i < pairs.len() && (#[trigger] pairs[i]).0@ == text].1,
    )
}

/// Whether no two pairs of the list have the same text.
pub open spec fn distinct_texts(pairs: Seq<(String, u64)>) -> bool {
    forall|i: int, j: int|
        0 <= i < j < pairs.len() ==> (#[trigger] pairs[i]).0@ != (#[trigger] pairs[j]).0@
}

/// `FourByteFrame`, a tuple struct around a `BTreeMap<String, u64>`: the frame
/// made of these pairs holds each count under its text and nothing else.
#[verifier::external_body]
fn frame_from_pairs(pairs: Vec<(String, u64)>) -> (frame: FourByteFrame)
    requires
        distinct_texts(pairs@),
    ensures
        frame_entries(frame) == pairs_map(pairs@),
{
    FourByteFrame(pairs.into_iter().collect())
}

/// The text under which a pair is exported.
pub fn key_string(selector: &[u8; 4], calldata_size: usize) -> (text: String)
    ensures
        text@ == key_text((selector@, calldata_size as nat)),
{
    let hex = hex_encode(selector.as_slice());
    let mut text = String::from_str("0x");
    text.append(hex.as_str());
    text.append("-");
    push_decimal(&mut text, calldata_size);
    proof {
        reveal_strlit("0x");
        reveal_strlit("-");
        assert(text@ =~= key_text((selector@, calldata_size as nat)));
    }
    text
}

/// Inspector that counts the function selectors of all calls of an execution,
/// each together with the size of the call data that followed it.
#[derive(Debug)]
pub struct FourByteInspector {
    /// One entry for each pair seen, in the order of first occurrence.
    inner: Vec<TallyEntry>,
}

/// The tally that a list of entries stands for.
pub open spec fn tally_of(entries: Seq<TallyEntry>) -> Map<TallyKey, u64> {
    Map::new(
        |key: TallyKey| exists|i: int| 0 <= i < entries.len() && #[trigger] entries[i].key() == key,
        |key: TallyKey|
            entries[choose|i: int| 0 <= i < entries.len() && #[trigger] entries[i].key() == key].count,
    )
}

/// No pair has two entries, and every entry has counted at least one call.
pub open spec fn entries_wf(entries: Seq<TallyEntry>) -> bool {
    &&& forall|i: int, j: int|
        0 <= i < j < entries.len() ==> #[trigger] entries[i].key() != #[trigger] entries[j].key()
    &&& forall|i: int| 0 <= i < entries.len() ==> #[trigger] entries[i].count >= 1
}

/// The tally holds the count of every entry under the entry's pair.
proof fn lemma_looked_up(entries: Seq<TallyEntry>, i: int)
    requires
        entries_wf(entries),
        0 <= i < entries.len(),
    ensures
        tally_of(entries).dom().contains(entries[i].key()),
        tally_of(entries)[entries[i].key()] == entries[i].count,
{
    let key = entries[i].key();
    let j = choose|j: int| 0 <= j < entries.len() && #[trigger] entries[j].key() == key;
    assert(j == i);
}

/// Setting the count of an entry sets the count of its pair in the tally and
/// leaves the other pairs alone.
proof fn lemma_counted_again(before: Seq<TallyEntry>, i: int, count: u64)
    requires
        entries_wf(before),
        0 <= i < before.len(),
        count >= 1,
    ensures
        entries_wf(before.update(i, TallyEntry { count, ..before[i] })),
        tally_of(before.update(i, TallyEntry { count, ..before[i] })) == tally_of(before).insert(
            before[i].key(),
            count,
        ),
{
    let key = before[i].key();
    let after = before.update(i, TallyEntry { count, ..before[i] });
    assert forall|j: int| 0 <= j < after.len() implies #[trigger] after[j].key()
        == before[j].key() by {}
    let left = tally_of(after);
    let right = tally_of(before).insert(key, count);
    assert forall|k: TallyKey| left.dom().contains(k) <==> right.dom().contains(k) by {
        if left.dom().contains(k) {
            let j = choose|j: int| 0 <= j < after.len() && #[trigger] after[j].key() == k;
            assert(before[j].key() == k);
        }
        if right.dom().contains(k) && k != key {
            let j = choose|j: int| 0 <= j < before.len() && #[trigger] before[j].key() == k;
            assert(after[j].key() == k);
        }
        if k == key {
            assert(after[i].key() == k);
        }
    }
    assert forall|k: TallyKey| left.dom().contains(k) implies left[k] == right[k] by {
        let j = choose|j: int| 0 <= j < after.len() && #[trigger] after[j].key() == k;
        lemma_looked_up(after, j);
        if k != key {
            lemma_looked_up(before, j);
        } else {
            assert(j == i);
        }
    }
    assert(left =~= right);
}

/// Adding an entry for a pair that the tally lacks adds the pair with the
/// entry's count and leaves the other pairs alone.
proof fn lemma_counted_first(before: Seq<TallyEntry>, entry: TallyEntry)
    requires
        entries_wf(before),
        !tally_of(before).dom().contains(entry.key()),
        entry.count >= 1,
    ensures
        entries_wf(before.push(entry)),
        tally_of(before.push(entry)) == tally_of(before).insert(entry.key(), entry.count),
{
    let key = entry.key();
    let after = before.push(entry);
    let n = before.len() as int;
    assert(after[n].key() == key);
    assert forall|j: int| 0 <= j < n implies #[trigger] after[j].key() == before[j].key() by {}
    assert forall|j: int| 0 <= j < n implies #[trigger] before[j].key() != key by {
        if before[j].key() == key {
            assert(tally_of(before).dom().contains(key));
        }
    }
    let left = tally_of(after);
    let right = tally_of(before).insert(key, entry.count);
    assert forall|k: TallyKey| left.dom().contains(k) <==> right.dom().contains(k) by {
        if left.dom().contains(k) {
            let j = choose|j: int| 0 <= j < after.len() && #[trigger] after[j].key() == k;
            if j < n {
                assert(before[j].key() == k);
            }
        }
        if right.dom().contains(k) && k != key {
            let j = choose|j: int| 0 <= j < before.len() && #[trigger] before[j].key() == k;
            assert(after[j].key() == k);
        }
    }
    assert forall|k: TallyKey| left.dom().contains(k) implies left[k] == right[k] by {
        let j = choose|j: int| 0 <= j < after.len() && #[trigger] after[j].key() == k;
        lemma_looked_up(after, j);
        if k != key {
            assert(j < n);
            lemma_looked_up(before, j);
        } else {
            assert(j == n);
        }
    }
    assert(left =~= right);
}

impl FourByteInspector {
    #[verifier::type_invariant]
    spec fn inv(&self) -> bool {
        entries_wf(self.inner@)
    }

    /// The entries held, in the order of first occurrence.
    pub closed spec fn entries(&self) -> Seq<TallyEntry> {
        self.inner@
    }

    /// The tally: how often each pair of selector and call data size was seen.
    pub open spec fn tally(&self) -> Map<TallyKey, u64> {
        tally_of(self.entries())
    }

    /// An inspector that has seen no call.
    pub fn new() -> (inspector: Self)
        ensures
            inspector.entries() == Seq::<TallyEntry>::empty(),
            inspector.tally() == Map::<TallyKey, u64>::empty(),
    {
        let inspector = FourByteInspector { inner: Vec::new() };
        assert(inspector.tally() =~= Map::<TallyKey, u64>::empty());
        inspector
    }

    /// The entries of the tally, one for each pair seen.
    pub fn inner(&self) -> (entries: &Vec<TallyEntry>)
        ensures
            entries@ == self.entries(),
            entries_wf(entries@),
    {
        proof {
            use_type_invariant(self);
        }
        &self.inner
    }

    /// The position of the entry for a pair, if there is one.
    fn position(&self, selector: &[u8; 4], calldata_size: usize) -> (found: Option<usize>)
        ensures
            match found {
                Some(i) => i < self.entries().len() && self.entries()[i as int].key() == (
                    selector@,
                    calldata_size as nat,
                ),
                None => !self.tally().dom().contains((selector@, calldata_size as nat)),
            },
    {
        let mut i: usize = 0;
        while i < self.inner.len()
            invariant
                i <= self.inner@.len(),
                forall|j: int| 0 <= j < i ==> #[trigger] self.inner@[j].key() != (selector@, calldata_size as nat),
            decreases self.inner@.len() - i,
        {
            let entry = &self.inner[i];
            if entry.selector[0] == selector[0] && entry.selector[1] == selector[1]
                && entry.selector[2] == selector[2] && entry.selector[3] == selector[3]
                && entry.calldata_size == calldata_size {
                assert(entry.selector@ =~= selector@);
                return Some(i);
            }
            assert(entry.selector@ != selector@ || entry.calldata_size != calldata_size);
            i += 1;
        }
        None
    }

    /// Takes note of one call. An input of at least four bytes adds one to the
    /// count of its selector and call data size; a shorter one is ignored.
    pub fn on_call(&mut self, input: &[u8])
        ensures
            final(self).tally() == record(old(self).tally(), input@),
    {
        proof {
            use_type_invariant(&*self);
        }
        if input.len() < 4 {
            return ;
        }
        let selector: [u8; 4] = [input[0], input[1], input[2], input[3]];
        let calldata_size: usize = input.len() - 4;
        assert(selector@ =~= input@.subrange(0, 4));
        let ghost key: TallyKey = key_of_input(input@);
        let found = self.position(&selector, calldata_size);
        let mut entries: Vec<TallyEntry> = Vec::new();
        core::mem::swap(&mut self.inner, &mut entries);
        let ghost before = entries@;
        match found {
            Some(i) => {
                let entry = entries[i];
                let count: u64 = if entry.count < u64::MAX {
                    entry.count + 1
                } else {
                    entry.count
                };
                entries.set(i, TallyEntry { selector, calldata_size, count });
                proof {
                    assert(selector@ =~= before[i as int].selector@);
                    assert(selector == before[i as int].selector);
                    assert(entries@ =~= before.update(
                        i as int,
                        TallyEntry { count, ..before[i as int] },
                    ));
                    lemma_looked_up(before, i as int);
                    lemma_counted_again(before, i as int, count);
                }
            },
            None => {
                let entry = TallyEntry { selector, calldata_size, count: 1 };
                entries.push(entry);
                proof {
                    assert(entries@ =~= before.push(entry));
                    lemma_counted_first(before, entry);
                }
            },
        }
        self.inner = entries;
    }

    /// The tally as pairs of text and count, one for each pair seen, in the
    /// order of first occurrence.
    pub fn export(&self) -> (pairs: Vec<(String, u64)>)
        ensures
            pairs@.len() == self.entries().len(),
            forall|i: int|
                0 <= i < pairs@.len() ==> (#[trigger] pairs@[i]).0@ == key_text(
                    self.entries()[i].key(),
                ) && pairs@[i].1 == self.entries()[i].count,
            distinct_texts(pairs@),
            pairs_map(pairs@) == exported(self.tally()),
    {
        proof {
            use_type_invariant(self);
        }
        let mut pairs: Vec<(String, u64)> = Vec::new();
        let mut i: usize = 0;
        while i < self.inner.len()
            invariant
                i <= self.inner@.len(),
                pairs@.len() == i,
                forall|j: int|
                    0 <= j < i ==> (#[trigger] pairs@[j]).0@ == key_text(self.inner@[j].key())
                        && pairs@[j].1 == self.inner@[j].count,
            decreases self.inner@.len() - i,
        {
            let entry = &self.inner[i];
            let text = key_string(&entry.selector, entry.calldata_size);
            pairs.push((text, entry.count));
            i += 1;
        }
        proof {
            lemma_export(self.inner@, pairs@);
        }
        pairs
    }

    /// Turns the tally into the frame that is handed out: each count under its
    /// pair's text.
    pub fn into_frame(self) -> (frame: FourByteFrame)
        ensures
            frame_entries(frame) == exported(self.tally()),
    {
        let pairs = self.export();
        frame_from_pairs(pairs)
    }
}

impl Clone for FourByteInspector {
    /// An inspector with the same tally.
    fn clone(&self) -> (copy: Self)
        ensures
            copy.entries() == self.entries(),
            copy.tally() == self.tally(),
    {
        proof {
            use_type_invariant(self);
        }
        FourByteInspector { inner: copy_vec(&self.inner) }
    }
}

impl Default for FourByteInspector {
    /// An inspector that has seen no call.
    fn default() -> (inspector: Self)
        ensures
            inspector.tally() == Map::<TallyKey, u64>::empty(),
    {
        FourByteInspector::new()
    }
}

impl Inspector for FourByteInspector {
    /// The tally takes note of the input of every call that starts and of
    /// nothing else, and never touches the execution.
    open spec fn reacts(pre: Self, event: Event, post: Self, reply: Reply) -> bool {
        &&& reply == neutral(event)
        &&& post.tally() == match event {
            Event::Call(inputs) => record(pre.tally(), inputs.input@),
            _ => pre.tally(),
        }
    }

    fn initialize_interp(&mut self, interp: &Interpreter) {
    }

    fn step(&mut self, interp: &Interpreter) {
    }

    fn log(&mut self, log: &Log) {
    }

    fn step_end(&mut self, interp: &Interpreter) {
    }

    fn call(&mut self, inputs: &CallInputs) -> (outcome: Option<CallOutcome>) {
        self.on_call(inputs.input.as_slice());
        None
    }

    fn call_end(&mut self, result: InterpreterResult) -> (changed: InterpreterResult) {
        result
    }

    fn create(&mut self, inputs: &CreateInputs) -> (outcome: Option<CreateOutcome>) {
        None
    }

    fn create_end(&mut self, result: InterpreterResult, address: Option<Address>) -> (outcome:
        CreateOutcome) {
        CreateOutcome::new(result, address)
    }

    fn selfdestruct(&mut self, contract: Address, target: Address, value: U256) {
    }
}

/// Pairs written entry by entry have distinct texts and stand for the exported
/// tally.
proof fn lemma_export(entries: Seq<TallyEntry>, pairs: Seq<(String, u64)>)
    requires
        entries_wf(entries),
        pairs.len() == entries.len(),
        forall|j: int|
            0 <= j < pairs.len() ==> (#[trigger] pairs[j]).0@ == key_text(entries[j].key())
                && pairs[j].1 == entries[j].count,
    ensures
        distinct_texts(pairs),
        pairs_map(pairs) == exported(tally_of(entries)),
{
    assert forall|i: int, j: int| 0 <= i < j < pairs.len() implies (#[trigger] pairs[i]).0@ != (
    #[trigger] pairs[j]).0@ by {
        if pairs[i].0@ == pairs[j].0@ {
            lemma_key_text_injective(entries[i].key(), entries[j].key());
        }
    }
    let tally = tally_of(entries);
    let left = pairs_map(pairs);
    let right = exported(tally);
    assert forall|text: Seq<char>| left.dom().contains(text) <==> right.dom().contains(text) by {
        if left.dom().contains(text) {
            let i = choose|i: int| 0 <= i < pairs.len() && (#[trigger] pairs[i]).0@ == text;
            assert(tally.dom().contains(entries[i].key()));
        }
        if right.dom().contains(text) {
            let key = choose|key: TallyKey| tally.dom().contains(key) && key_text(key) == text;
            let i = choose|i: int| 0 <= i < entries.len() && #[trigger] entries[i].key() == key;
            assert(pairs[i].0@ == text);
        }
    }
    assert forall|text: Seq<char>| left.dom().contains(text) implies left[text] == right[text] by {
        let i = choose|i: int| 0 <= i < pairs.len() && (#[trigger] pairs[i]).0@ == text;
        assert(tally.dom().contains(entries[i].key()));
        let key = choose|key: TallyKey| tally.dom().contains(key) && key_text(key) == text;
        let k = choose|k: int| 0 <= k < entries.len() && #[trigger] entries[k].key() == key;
        lemma_key_text_injective(entries[i].key(), key);
        assert(k == i);
    }
    assert(left =~= right);
}

} // verus!
