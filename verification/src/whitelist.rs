//! The players for whom the server is started.
//!
//! Where a whitelist is in force, a login starts the server only if the
//! player's id is on it. The list is kept in ascending order, each id once.

use vstd::prelude::*;
use vstd::utf8::encode_utf8;

use crate::json::{json_array, json_member, json_text, member, parse_json_array, render};

verus! {

/// The key of an entry under which the player's id stands.
pub const UUID_KEY: &'static str = "uuid";

/// Why a list of players could not be read.
#[derive(Debug)]
pub enum WhitelistParseError {
    /// The text is no JSON array: what serde_json says of it.
    ParseJson(serde_json::Error),
}

/// The number that a hexadecimal digit stands for.
pub open spec fn hex_digit(byte: u8) -> Option<nat> {
    if 0x30 <= byte <= 0x39 {
        Some((byte - 0x30) as nat)
    } else if 0x61 <= byte <= 0x66 {
        Some((byte - 0x61 + 10) as nat)
    } else if 0x41 <= byte <= 0x46 {
        Some((byte - 0x41 + 10) as nat)
    } else {
        None
    }
}

/// The number that hexadecimal digits denote, the most significant first, if
/// all of them are digits.
pub open spec fn hex_value(digits: Seq<u8>) -> Option<nat>
    decreases digits.len(),
{
    if digits.len() == 0 {
        Some(0)
    } else {
        match (hex_value(digits.drop_last()), hex_digit(digits.last())) {
            (Some(high), Some(low)) => Some(16 * high + low),
            _ => None,
        }
    }
}

/// Whether a byte is left out of an id's text before the id is read: a
/// hyphen, or a quotation mark.
pub open spec fn is_separator(byte: u8) -> bool {
    byte == 0x2d || byte == 0x22
}

/// The text without its hyphens and quotation marks.
pub open spec fn without_separators(text: Seq<u8>) -> Seq<u8>
    decreases text.len(),
{
    if text.len() == 0 {
        text
    } else if is_separator(text.last()) {
        without_separators(text.drop_last())
    } else {
        without_separators(text.drop_last()).push(text.last())
    }
}

/// The number that is written in hexadecimal digits, with a plus sign in
/// front or without, if it fits 128 bits. There must be a digit.
pub open spec fn hex_u128(text: Seq<u8>) -> Option<u128> {
    let digits = if text.len() > 0 && text[0] == 0x2b {
        text.skip(1)
    } else {
        text
    };
    if digits.len() == 0 {
        None
    } else {
        match hex_value(digits) {
            Some(value) => if value <= u128::MAX {
                Some(value as u128)
            } else {
                None
            },
            None => None,
        }
    }
}

/// The player's id that a text denotes: the number that is left in
/// hexadecimal digits once hyphens and quotation marks are taken out.
pub open spec fn uuid_of_text(text: Seq<char>) -> Option<u128> {
    hex_u128(without_separators(encode_utf8(text)))
}

/// The digits in front denote no more than all the digits: if all the digits
/// denote a number, so do the first `kept` of them, and a number that is not
/// larger.
pub proof fn lemma_hex_value_prefix(digits: Seq<u8>, kept: int)
    requires
        0 <= kept <= digits.len(),
    ensures
        hex_value(digits) matches Some(value) ==> hex_value(digits.take(kept)) matches Some(front)
            && front <= value,
    decreases digits.len(),
{
    if kept == digits.len() {
        assert(digits.take(kept) =~= digits);
    } else {
        assert(digits.drop_last().take(kept) =~= digits.take(kept));
        lemma_hex_value_prefix(digits.drop_last(), kept);
    }
}

/// The number that a hexadecimal digit stands for.
fn digit_value(byte: u8) -> (value: Option<u8>)
    ensures
        match value {
            Some(v) => hex_digit(byte) == Some(v as nat) && v < 16,
            None => hex_digit(byte) is None,
        },
{
    if 0x30 <= byte && byte <= 0x39 {
        Some(byte - 0x30)
    } else if 0x61 <= byte && byte <= 0x66 {
        Some(byte - 0x61 + 10)
    } else if 0x41 <= byte && byte <= 0x46 {
        Some(byte - 0x41 + 10)
    } else {
        None
    }
}

/// The player's id that a text denotes.
pub fn uuid_from_text(text: &str) -> (uuid: Option<u128>)
    ensures
        uuid == uuid_of_text(text@),
{
    let bytes = text.as_bytes();
    let mut kept: Vec<u8> = Vec::new();
    let mut i: usize = 0;
    assert(bytes@.take(0) =~= Seq::<u8>::empty());
    while i < bytes.len()
        invariant
            i <= bytes.len(),
            kept@ == without_separators(bytes@.take(i as int)),
        decreases bytes.len() - i,
    {
        assert(bytes@.take(i + 1).drop_last() =~= bytes@.take(i as int));
        let byte = bytes[i];
        if byte != 0x2d && byte != 0x22 {
            kept.push(byte);
        }
        i = i + 1;
    }
    assert(bytes@.take(bytes@.len() as int) =~= bytes@);
    let start: usize = if kept.len() > 0 && kept[0] == 0x2b {
        1
    } else {
        0
    };
    let ghost stripped = without_separators(encode_utf8(text@));
    let ghost digits = kept@.skip(start as int);
    assert(kept@.skip(0) =~= kept@);
    if start == kept.len() {
        return None;
    }
    let mut value: u128 = 0;
    let mut at: usize = start;
    assert(digits.take(0) =~= Seq::<u8>::empty());
    while at < kept.len()
        invariant
            start <= at <= kept.len(),
            start < kept.len(),
            kept@ == stripped,
            stripped == without_separators(encode_utf8(text@)),
            start == (if kept@.len() > 0 && kept@[0] == 0x2b {
                1int
            } else {
                0int
            }),
            digits == kept@.skip(start as int),
            kept@.skip(0) == kept@,
            hex_value(digits.take(at - start)) == Some(value as nat),
        decreases kept.len() - at,
    {
        proof {
            assert(digits.take(at - start + 1).drop_last() =~= digits.take(at - start));
            assert(digits.take(at - start + 1).last() == kept@[at as int]);
            lemma_hex_value_prefix(digits, at - start + 1);
        }
        let low = match digit_value(kept[at]) {
            Some(low) => low,
            None => {
                return None;
            },
        };
        if value > (u128::MAX - low as u128) / 16 {
            return None;
        }
        value = 16 * value + low as u128;
        at = at + 1;
    }
    assert(digits.take(digits.len() as int) =~= digits);
    Some(value)
}

/// The player's id of an entry of a list: what its member `uuid` denotes.
pub open spec fn uuid_of_entry(entry: serde_json::Value) -> Option<u128> {
    uuid_of_text(json_text(json_member(entry, UUID_KEY@)))
}

/// The ids of the entries that have one, in the order of the entries.
pub open spec fn uuids_of_entries(entries: Seq<serde_json::Value>) -> Seq<u128>
    decreases entries.len(),
{
    if entries.len() == 0 {
        Seq::<u128>::empty()
    } else {
        match uuid_of_entry(entries.last()) {
            Some(uuid) => uuids_of_entries(entries.drop_last()).push(uuid),
            None => uuids_of_entries(entries.drop_last()),
        }
    }
}

/// The JSON texts of the entries that have no id, in the order of the
/// entries.
pub open spec fn rejected_entries(entries: Seq<serde_json::Value>) -> Seq<Seq<char>>
    decreases entries.len(),
{
    if entries.len() == 0 {
        Seq::<Seq<char>>::empty()
    } else {
        match uuid_of_entry(entries.last()) {
            Some(_) => rejected_entries(entries.drop_last()),
            None => rejected_entries(entries.drop_last()).push(json_text(entries.last())),
        }
    }
}

/// The texts of `texts`, as plain values.
pub open spec fn texts_of(texts: Seq<String>) -> Seq<Seq<char>> {
    Seq::new(texts.len(), |i: int| texts[i]@)
}

/// What a list of players holds.
#[derive(Debug)]
pub struct ListedPlayers {
    /// The ids of the entries that have one.
    pub uuids: Vec<u128>,
    /// The entries that have none, as JSON text.
    pub rejected: Vec<String>,
}

/// Sorts the entries of a list that has been read as JSON into those that
/// have an id and those that have none.
pub fn uuids_from_entries(entries: &Vec<serde_json::Value>) -> (listed: ListedPlayers)
    ensures
        listed.uuids@ == uuids_of_entries(entries@),
        texts_of(listed.rejected@) == rejected_entries(entries@),
{
    let mut uuids: Vec<u128> = Vec::new();
    let mut rejected: Vec<String> = Vec::new();
    let mut i: usize = 0;
    assert(entries@.take(0) =~= Seq::<serde_json::Value>::empty());
    assert(texts_of(rejected@) =~= Seq::<Seq<char>>::empty());
    while i < entries.len()
        invariant
            i <= entries.len(),
            uuids@ == uuids_of_entries(entries@.take(i as int)),
            texts_of(rejected@) == rejected_entries(entries@.take(i as int)),
        decreases entries.len() - i,
    {
        assert(entries@.take(i + 1).drop_last() =~= entries@.take(i as int));
        let entry = &entries[i];
        let ghost before = rejected@;
        match uuid_from_text(render(member(entry, UUID_KEY)).as_str()) {
            Some(uuid) => {
                uuids.push(uuid);
            },
            None => {
                rejected.push(render(entry));
                assert(texts_of(rejected@) =~= texts_of(before).push(json_text(*entry)));
            },
        }
        i = i + 1;
    }
    assert(entries@.take(entries@.len() as int) =~= entries@);
    ListedPlayers { uuids, rejected }
}

/// The players that the JSON text of a list names: the text must be a JSON
/// array, and each of its elements is an entry.
pub open spec fn listed_players(content: Seq<char>) -> Result<
    (Seq<u128>, Seq<Seq<char>>),
    WhitelistParseError,
> {
    match json_array(content) {
        Err(error) => Err(WhitelistParseError::ParseJson(error)),
        Ok(entries) => Ok((uuids_of_entries(entries), rejected_entries(entries))),
    }
}

/// Reads the players that the JSON text of a list names.
pub fn get_uuids_from_json(content: &str) -> (listed: Result<ListedPlayers, WhitelistParseError>)
    ensures
        match listed_players(content@) {
            Ok((uuids, rejected)) => {
                &&& listed matches Ok(players)
                &&& players.uuids@ == uuids
                &&& texts_of(players.rejected@) == rejected
            },
            Err(e) => listed matches Err(failure) && failure == e,
        },
{
    match parse_json_array(content) {
        Ok(entries) => Ok(uuids_from_entries(&entries)),
        Err(error) => Err(WhitelistParseError::ParseJson(error)),
    }
}

/// Whether `ids` is in strictly ascending order.
pub open spec fn strictly_ascending(ids: Seq<u128>) -> bool {
    forall|i: int, j: int| 0 <= i < j < ids.len() ==> ids[i] < ids[j]
}

/// A set of player ids.
#[derive(Debug)]
pub struct Whitelist {
    uuids: Vec<u128>,
}

impl View for Whitelist {
    type V = Set<u128>;

    /// The ids on the list.
    closed spec fn view(&self) -> Set<u128> {
        self.uuids@.to_set()
    }
}

/// Puts `uuid` in its place in the ascending `uuids`, unless it is there.
fn insert_ascending(uuids: &mut Vec<u128>, uuid: u128)
    requires
        strictly_ascending(old(uuids)@),
    ensures
        strictly_ascending(final(uuids)@),
        final(uuids)@.to_set() == old(uuids)@.to_set().insert(uuid),
{
    let mut at: usize = 0;
    while at < uuids.len() && uuids[at] < uuid
        invariant
            at <= uuids.len(),
            uuids@ == old(uuids)@,
            forall|i: int| 0 <= i < at ==> uuids@[i] < uuid,
        decreases uuids.len() - at,
    {
        at = at + 1;
    }
    if at < uuids.len() && uuids[at] == uuid {
        assert(uuids@.to_set() =~= old(uuids)@.to_set().insert(uuid)) by {
            assert(uuids@.contains(uuid));
        }
        return ;
    }
    uuids.insert(at, uuid);
    proof {
        let before = old(uuids)@;
        let after = uuids@;
        assert(after[at as int] == uuid);
        assert forall|x: u128| after.to_set().contains(x) <==> before.to_set().insert(
            uuid,
        ).contains(x) by {
            if after.contains(x) {
                let k = choose|k: int| 0 <= k < after.len() && after[k] == x;
                if k < at {
                    assert(before[k] == x);
                } else if k > at {
                    assert(before[k - 1] == x);
                }
            }
            if before.contains(x) {
                let k = choose|k: int| 0 <= k < before.len() && before[k] == x;
                if k < at {
                    assert(after[k] == x);
                } else {
                    assert(after[k + 1] == x);
                }
            }
        }
        assert(after.to_set() =~= before.to_set().insert(uuid));
    }
}

impl Whitelist {
    /// What holds of every whitelist.
    #[verifier::type_invariant]
    spec fn wf(&self) -> bool {
        strictly_ascending(self.uuids@)
    }

    /// The whitelist of the ids in `uuids`, in whatever order they come and
    /// however often.
    pub fn new(uuids: Vec<u128>) -> (whitelist: Self)
        ensures
            whitelist@ == uuids@.to_set(),
    {
        let mut ascending: Vec<u128> = Vec::new();
        let mut i: usize = 0;
        assert(ascending@.to_set() =~= uuids@.take(0).to_set());
        while i < uuids.len()
            invariant
                i <= uuids.len(),
                strictly_ascending(ascending@),
                ascending@.to_set() == uuids@.take(i as int).to_set(),
            decreases uuids.len() - i,
        {
            insert_ascending(&mut ascending, uuids[i]);
            proof {
                let next = uuids@.take(i + 1);
                assert(next.drop_last() =~= uuids@.take(i as int));
                assert(next =~= uuids@.take(i as int).push(uuids@[i as int]));
                assert forall|x: u128| next.to_set().contains(x) <==> uuids@.take(
                    i as int,
                ).to_set().insert(uuids@[i as int]).contains(x) by {
                    if next.contains(x) {
                        let k = choose|k: int| 0 <= k < next.len() && next[k] == x;
                        if k < i {
                            assert(uuids@.take(i as int)[k] == x);
                        }
                    }
                    if uuids@.take(i as int).contains(x) {
                        let k = choose|k: int|
                            0 <= k < uuids@.take(i as int).len() && uuids@.take(i as int)[k] == x;
                        assert(next[k] == x);
                    }
                    if x == uuids@[i as int] {
                        assert(next[i as int] == x);
                    }
                }
                assert(next.to_set() =~= uuids@.take(i as int).to_set().insert(uuids@[i as int]));
            }
            i = i + 1;
        }
        assert(uuids@.take(uuids@.len() as int) =~= uuids@);
        Whitelist { uuids: ascending }
    }

    /// The whitelist of the players of two lists: those that are allowed on
    /// the server, and those that operate it.
    pub fn merged(whitelist: Vec<u128>, ops: Vec<u128>) -> (merged: Self)
        ensures
            merged@ == whitelist@.to_set().union(ops@.to_set()),
    {
        let ghost first = whitelist@;
        let ghost second = ops@;
        let mut all = whitelist;
        all.extend_from_slice(ops.as_slice());
        proof {
            let joined = first + second;
            assert(all@ =~= joined);
            assert forall|x: u128| joined.to_set().contains(x) <==> first.to_set().union(
                second.to_set(),
            ).contains(x) by {
                if joined.contains(x) {
                    let k = choose|k: int| 0 <= k < joined.len() && joined[k] == x;
                    if k < first.len() {
                        assert(first[k] == x);
                    } else {
                        assert(second[k - first.len()] == x);
                    }
                }
                if first.contains(x) {
                    let k = choose|k: int| 0 <= k < first.len() && first[k] == x;
                    assert(joined[k] == x);
                }
                if second.contains(x) {
                    let k = choose|k: int| 0 <= k < second.len() && second[k] == x;
                    assert(joined[first.len() + k] == x);
                }
            }
            assert(joined.to_set() =~= first.to_set().union(second.to_set()));
        }
        Self::new(all)
    }

    /// The ids on the list, in ascending order, each of them once.
    pub fn uuids(&self) -> (uuids: &Vec<u128>)
        ensures
            strictly_ascending(uuids@),
            uuids@.to_set() == self@,
    {
        proof {
            use_type_invariant(self);
        }
        &self.uuids
    }

    /// Whether `uuid` is on the list.
    pub fn contains(&self, uuid: u128) -> (found: bool)
        ensures
            found == self@.contains(uuid),
    {
        proof {
            use_type_invariant(self);
        }
        let mut low: usize = 0;
        let mut high: usize = self.uuids.len();
        while low < high
            invariant
                low <= high <= self.uuids.len(),
                strictly_ascending(self.uuids@),
                forall|i: int| 0 <= i < low ==> self.uuids@[i] < uuid,
                forall|i: int| high <= i < self.uuids.len() ==> self.uuids@[i] > uuid,
            decreases high - low,
        {
            let mid = low + (high - low) / 2;
            if self.uuids[mid] == uuid {
                assert(self.uuids@.contains(uuid));
                return true;
            } else if self.uuids[mid] < uuid {
                low = mid + 1;
            } else {
                high = mid;
            }
        }
        assert(!self.uuids@.contains(uuid));
        false
    }
}

} // verus!
