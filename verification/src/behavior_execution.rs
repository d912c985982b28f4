//! The index of behaviors: which language each behavior is written in, its
//! number among the behaviors of that language, and the table that finds an
//! index by name or alias and a name by index.

use vstd::prelude::*;
use vstd::utf8::encode_utf8;

use crate::behavior::{BehaviorEntryView, BehaviorMap, BehaviorView};
use crate::language::{language_of_file_name, Language};

verus! {

/// The place of a behavior among all behaviors: the index of its language,
/// and its number among the behaviors of that language, counted from zero
/// in the order of registration.
#[derive(Debug, Clone, Copy, PartialEq, Eq, Hash, Structural)]
pub struct BehaviorIndex(pub u16, pub u16);

impl BehaviorIndex {
    pub fn lang_index(&self) -> (index: u16)
        ensures
            index == self.0,
    {
        self.0
    }

    pub fn lang_behavior_index(&self) -> (index: u16)
        ensures
            index == self.1,
    {
        self.1
    }
}

/// The language of a behavior, told from its canonical name.
pub open spec fn behavior_language(behavior: BehaviorView) -> Option<Language> {
    language_of_file_name(behavior.shared.name)
}

/// How many of the behaviors are written in the language.
pub open spec fn language_count(behaviors: Seq<BehaviorView>, language: Language) -> nat
    decreases behaviors.len(),
{
    if behaviors.len() == 0 {
        0
    } else {
        language_count(behaviors.drop_last(), language) + if behavior_language(behaviors.last())
            == Some(language) {
            1nat
        } else {
            0nat
        }
    }
}

/// The index of the behavior at a position: its language, and how many
/// behaviors of that language stand before it.
pub open spec fn assigned_index(behaviors: Seq<BehaviorView>, position: int) -> BehaviorIndex
    recommends
        0 <= position < behaviors.len(),
        behavior_language(behaviors[position]) is Some,
{
    let language = behavior_language(behaviors[position]).unwrap();
    BehaviorIndex(
        language.index() as u16,
        language_count(behaviors.take(position), language) as u16,
    )
}

/// The keys under which a behavior is registered: the bytes of its
/// canonical name, then those of each alias.
pub open spec fn behavior_keys(behavior: BehaviorView) -> Seq<Seq<u8>> {
    seq![encode_utf8(behavior.shared.name)] + behavior.shared.shortnames.map_values(
        |alias: Seq<char>| encode_utf8(alias),
    )
}

/// The position of the last behavior that is registered under the key.
pub open spec fn last_registrant(behaviors: Seq<BehaviorView>, key: Seq<u8>) -> Option<int>
    decreases behaviors.len(),
{
    if behaviors.len() == 0 {
        None
    } else if behavior_keys(behaviors.last()).contains(key) {
        Some(behaviors.len() - 1)
    } else {
        last_registrant(behaviors.drop_last(), key)
    }
}

/// The table from names and aliases to indices: a key stands for the last
/// behavior that is registered under it.
pub open spec fn name_table(behaviors: Seq<BehaviorView>) -> Map<Seq<u8>, BehaviorIndex> {
    Map::new(
        |key: Seq<u8>| last_registrant(behaviors, key) is Some,
        |key: Seq<u8>| assigned_index(behaviors, last_registrant(behaviors, key).unwrap()),
    )
}

/// Whether the behavior at the position was given the index.
pub open spec fn holds_index(
    behaviors: Seq<BehaviorView>,
    position: int,
    index: BehaviorIndex,
) -> bool {
    0 <= position < behaviors.len() && assigned_index(behaviors, position) == index
}

/// The table from indices to canonical names: the index of each behavior
/// stands for that behavior's canonical name.
pub open spec fn index_table(behaviors: Seq<BehaviorView>) -> Map<BehaviorIndex, Seq<char>> {
    Map::new(
        |index: BehaviorIndex| exists|position: int| holds_index(behaviors, position, index),
        |index: BehaviorIndex|
            behaviors[choose|position: int| holds_index(behaviors, position, index)].shared.name,
    )
}

/// The position of the first behavior whose name tells no language.
pub open spec fn first_unresolvable(behaviors: Seq<BehaviorView>) -> Option<int>
    decreases behaviors.len(),
{
    if behaviors.len() == 0 {
        None
    } else {
        match first_unresolvable(behaviors.drop_last()) {
            Some(position) => Some(position),
            None => if behavior_language(behaviors.last()) is None {
                Some(behaviors.len() - 1)
            } else {
                None
            },
        }
    }
}

/// Whether no language has more behaviors than sequence numbers: a
/// sequence number is sixteen bits wide.
pub open spec fn sequence_numbers_fit(behaviors: Seq<BehaviorView>) -> bool {
    forall|language: Language| #[trigger] language_count(behaviors, language) <= 0x1_0000
}

/// Why behaviors could not be indexed or described.
#[derive(Debug, Clone, PartialEq, Eq)]
pub enum BehaviorError {
    /// The canonical name of a behavior tells no language. Holds the name.
    InvalidBehaviorName(String),
    /// The file name of a behavior tells no language. Holds the file name.
    UnknownLanguage(String),
    /// The behavior is no part of the table of indices. Holds its name.
    MissingIndex(String),
    /// The behavior has no source text attached. Holds its name.
    MissingSource(String),
}

/// What a [`BehaviorError`] says, as plain values.
pub enum BehaviorErrorView {
    InvalidBehaviorName(Seq<char>),
    UnknownLanguage(Seq<char>),
    MissingIndex(Seq<char>),
    MissingSource(Seq<char>),
}

impl View for BehaviorError {
    type V = BehaviorErrorView;

    open spec fn view(&self) -> BehaviorErrorView {
        match self {
            BehaviorError::InvalidBehaviorName(name) => BehaviorErrorView::InvalidBehaviorName(
                name@,
            ),
            BehaviorError::UnknownLanguage(file_name) => BehaviorErrorView::UnknownLanguage(
                file_name@,
            ),
            BehaviorError::MissingIndex(name) => BehaviorErrorView::MissingIndex(name@),
            BehaviorError::MissingSource(name) => BehaviorErrorView::MissingSource(name@),
        }
    }
}

impl BehaviorErrorView {
    /// The sentence that reports the error.
    pub open spec fn message(self) -> Seq<char> {
        match self {
            BehaviorErrorView::InvalidBehaviorName(name) => {
                "Invalid behavior name: \""@ + name + "\""@
            },
            BehaviorErrorView::UnknownLanguage(_) => {
                "Couldn't get language from behavior file name"@
            },
            BehaviorErrorView::MissingIndex(_) => "Couldn't get index from behavior name"@,
            BehaviorErrorView::MissingSource(_) => {
                "SharedBehavior didn't have an attached source"@
            },
        }
    }
}

impl BehaviorError {
    /// The sentence that reports the error.
    pub fn message(&self) -> (text: String)
        ensures
            text@ == self@.message(),
    {
        match self {
            BehaviorError::InvalidBehaviorName(name) => {
                String::from_str("Invalid behavior name: \"").concat(name.as_str()).concat("\"")
            },
            BehaviorError::UnknownLanguage(_) => {
                String::from_str("Couldn't get language from behavior file name")
            },
            BehaviorError::MissingIndex(_) => {
                String::from_str("Couldn't get index from behavior name")
            },
            BehaviorError::MissingSource(_) => {
                String::from_str("SharedBehavior didn't have an attached source")
            },
        }
    }
}

/// One line of the table from names to indices.
#[derive(Debug)]
struct NameEntry {
    key: Vec<u8>,
    index: BehaviorIndex,
}

/// Whether no key occurs in two lines.
spec fn keys_distinct(entries: Seq<NameEntry>) -> bool {
    forall|i: int, j: int|
        0 <= i < j < entries.len() ==> (#[trigger] entries[i]).key@ != (#[trigger] entries[j]).key@
}

/// Whether the line at the position holds the key.
spec fn stands_at(entries: Seq<NameEntry>, position: int, key: Seq<u8>) -> bool {
    0 <= position < entries.len() && entries[position].key@ == key
}

/// The lines as a map from keys to indices.
spec fn entries_map(entries: Seq<NameEntry>) -> Map<Seq<u8>, BehaviorIndex> {
    Map::new(
        |key: Seq<u8>| exists|position: int| stands_at(entries, position, key),
        |key: Seq<u8>| entries[choose|position: int| stands_at(entries, position, key)].index,
    )
}

/// Compares two byte strings.
fn bytes_equal(left: &[u8], right: &[u8]) -> (equal: bool)
    ensures
        equal == (left@ == right@),
{
    if left.len() != right.len() {
        return false;
    }
    let len: usize = left.len();
    let mut i: usize = 0;
    while i < len
        invariant
            i <= len,
            len == left@.len(),
            len == right@.len(),
            forall|j: int| 0 <= j < i ==> left@[j] == right@[j],
        decreases len - i,
    {
        if left[i] != right[i] {
            return false;
        }
        i += 1;
    }
    assert(left@ =~= right@);
    true
}

/// Finds the line that holds the key.
fn find_key(entries: &Vec<NameEntry>, key: &[u8]) -> (found: Option<usize>)
    ensures
        match found {
            Some(position) => stands_at(entries@, position as int, key@),
            None => forall|position: int| !stands_at(entries@, position, key@),
        },
{
    let count: usize = entries.len();
    let mut i: usize = 0;
    while i < count
        invariant
            i <= count,
            count == entries.len(),
            forall|position: int| 0 <= position < i ==> !stands_at(entries@, position, key@),
        decreases count - i,
    {
        if bytes_equal(entries[i].key.as_slice(), key) {
            return Some(i);
        }
        i += 1;
    }
    None
}

/// Where no key occurs twice, the key of each line stands for the index of
/// that line.
proof fn lemma_line_is_found(entries: Seq<NameEntry>, position: int)
    requires
        keys_distinct(entries),
        0 <= position < entries.len(),
    ensures
        entries_map(entries).get(entries[position].key@) == Some(entries[position].index),
{
    let key = entries[position].key@;
    assert(stands_at(entries, position, key));
    let chosen = choose|chosen: int| stands_at(entries, chosen, key);
    if chosen < position {
        assert(entries[chosen].key@ != entries[position].key@);
    } else if position < chosen {
        assert(entries[position].key@ != entries[chosen].key@);
    }
}

/// Puts the index under the key: in place of the index that stood there, or
/// as a new line.
fn upsert(entries: &mut Vec<NameEntry>, key: Vec<u8>, index: BehaviorIndex)
    requires
        keys_distinct(old(entries)@),
    ensures
        keys_distinct(final(entries)@),
        entries_map(final(entries)@) == entries_map(old(entries)@).insert(key@, index),
{
    let ghost before = entries@;
    let ghost key_view = key@;
    let found = find_key(entries, key.as_slice());
    let ghost line = match found {
        Some(position) => position as int,
        None => before.len() as int,
    };
    match found {
        Some(position) => {
            entries.set(position, NameEntry { key, index });
        },
        None => {
            entries.push(NameEntry { key, index });
        },
    }
    proof {
        let after = entries@;
        let expected = entries_map(before).insert(key_view, index);
        // The new line holds the key; every other line is as it was, and
        // none of them holds the key.
        assert(stands_at(after, line, key_view) && after[line].index == index);
        assert forall|i: int| 0 <= i < after.len() && i != line implies #[trigger] after[i]
            == before[i] && !stands_at(before, i, key_view) by {
            if found is Some {
                if i < line {
                    assert(before[i].key@ != before[line].key@);
                } else {
                    assert(before[line].key@ != before[i].key@);
                }
            }
        }
        assert forall|i: int, j: int| 0 <= i < j < after.len() implies (#[trigger] after[i]).key@
            != (#[trigger] after[j]).key@ by {
            if i != line && j != line {
                assert(before[i].key@ != before[j].key@);
            }
        }
        assert forall|k: Seq<u8>| #[trigger] expected.contains_key(k) implies entries_map(
            after,
        ).get(k) == expected.get(k) by {
            if k == key_view {
                lemma_line_is_found(after, line);
            } else {
                let stood = choose|stood: int| stands_at(before, stood, k);
                lemma_line_is_found(before, stood);
                assert(after[stood] == before[stood]);
                lemma_line_is_found(after, stood);
            }
        }
        assert forall|k: Seq<u8>| #[trigger]
            entries_map(after).contains_key(k) implies expected.contains_key(k) by {
            let stands = choose|stands: int| stands_at(after, stands, k);
            if stands != line {
                assert(stands_at(before, stands, k));
            }
        }
        assert(entries_map(after) =~= expected);
    }
}

/// The behaviors of a map, in its order.
pub open spec fn behaviors_of(entries: Seq<BehaviorEntryView>) -> Seq<BehaviorView> {
    entries.map_values(|entry: BehaviorEntryView| entry.behavior)
}

/// What a [`BehaviorIndices`] holds: the index of every name and alias,
/// and the canonical name of every index.
pub struct BehaviorIndicesView {
    pub name_to_index: Map<Seq<u8>, BehaviorIndex>,
    pub index_to_name: Map<BehaviorIndex, Seq<char>>,
}

/// What indexing the behaviors gives: the two tables, or, where the name
/// of some behavior tells no language, the error that holds the first such
/// name.
pub open spec fn indexing_outcome(behaviors: Seq<BehaviorView>) -> Result<
    BehaviorIndicesView,
    BehaviorErrorView,
> {
    match first_unresolvable(behaviors) {
        Some(position) => Err(
            BehaviorErrorView::InvalidBehaviorName(behaviors[position].shared.name),
        ),
        None => Ok(
            BehaviorIndicesView {
                name_to_index: name_table(behaviors),
                index_to_name: index_table(behaviors),
            },
        ),
    }
}

/// The names, held in one row per language and ordered by sequence number,
/// as a map from indices to names.
spec fn rows_map(rows: Seq<Vec<String>>) -> Map<BehaviorIndex, Seq<char>> {
    Map::new(
        |index: BehaviorIndex| index.0 < rows.len() && index.1 < rows[index.0 as int].len(),
        |index: BehaviorIndex| rows[index.0 as int][index.1 as int]@,
    )
}

/// The table of behavior indices: built once from the behaviors of a
/// project and only read afterwards.
#[derive(Debug)]
pub struct BehaviorIndices {
    name_to_index: Vec<NameEntry>,
    index_to_name: Vec<Vec<String>>,
}

impl View for BehaviorIndices {
    type V = BehaviorIndicesView;

    closed spec fn view(&self) -> BehaviorIndicesView {
        BehaviorIndicesView {
            name_to_index: entries_map(self.name_to_index@),
            index_to_name: rows_map(self.index_to_name@),
        }
    }
}

/// The outcome of indexing, as plain values.
pub open spec fn indexing_view(outcome: Result<BehaviorIndices, BehaviorError>) -> Result<
    BehaviorIndicesView,
    BehaviorErrorView,
> {
    match outcome {
        Ok(indices) => Ok(indices@),
        Err(error) => Err(error@),
    }
}

/// The table from names to indices once the first `n` behaviors are
/// registered.
spec fn name_table_upto(behaviors: Seq<BehaviorView>, n: int) -> Map<Seq<u8>, BehaviorIndex> {
    Map::new(
        |key: Seq<u8>| last_registrant(behaviors.take(n), key) is Some,
        |key: Seq<u8>| assigned_index(behaviors, last_registrant(behaviors.take(n), key).unwrap()),
    )
}

/// The table with each of the keys standing for the index.
spec fn overlay(table: Map<Seq<u8>, BehaviorIndex>, keys: Seq<Seq<u8>>, index: BehaviorIndex) -> Map<
    Seq<u8>,
    BehaviorIndex,
> {
    Map::new(
        |key: Seq<u8>| table.contains_key(key) || keys.contains(key),
        |key: Seq<u8>| if keys.contains(key) {
            index
        } else {
            table[key]
        },
    )
}

/// Putting one more key under the index overlays one more key.
proof fn lemma_overlay_step(
    table: Map<Seq<u8>, BehaviorIndex>,
    keys: Seq<Seq<u8>>,
    taken: int,
    index: BehaviorIndex,
)
    requires
        0 <= taken < keys.len(),
    ensures
        overlay(table, keys.take(taken), index).insert(keys[taken], index) == overlay(
            table,
            keys.take(taken + 1),
            index,
        ),
{
    let shorter = keys.take(taken);
    let longer = keys.take(taken + 1);
    assert forall|key: Seq<u8>| longer.contains(key) <==> (shorter.contains(key) || key
        == keys[taken]) by {
        if longer.contains(key) {
            let i = choose|i: int| 0 <= i < longer.len() && longer[i] == key;
            if i < taken {
                assert(shorter[i] == key);
            }
        }
        if shorter.contains(key) {
            let i = choose|i: int| 0 <= i < shorter.len() && shorter[i] == key;
            assert(longer[i] == key);
        }
        if key == keys[taken] {
            assert(longer[taken] == key);
        }
    }
    assert(overlay(table, shorter, index).insert(keys[taken], index) =~= overlay(
        table,
        longer,
        index,
    ));
}

/// One more behavior adds one to the count of its language and nothing to
/// the others.
pub proof fn lemma_language_count_step(behaviors: Seq<BehaviorView>, n: int, language: Language)
    requires
        0 <= n < behaviors.len(),
    ensures
        language_count(behaviors.take(n + 1), language) == language_count(
            behaviors.take(n),
            language,
        ) + if behavior_language(behaviors[n]) == Some(language) {
            1nat
        } else {
            0nat
        },
{
    assert(behaviors.take(n + 1).drop_last() =~= behaviors.take(n));
}

/// A language has no more behaviors among the first `n` than among all.
pub proof fn lemma_language_count_monotonic(
    behaviors: Seq<BehaviorView>,
    n: int,
    language: Language,
)
    requires
        0 <= n <= behaviors.len(),
    ensures
        language_count(behaviors.take(n), language) <= language_count(behaviors, language),
    decreases behaviors.len() - n,
{
    if n == behaviors.len() {
        assert(behaviors.take(n) =~= behaviors);
    } else {
        lemma_language_count_step(behaviors, n, language);
        lemma_language_count_monotonic(behaviors, n + 1, language);
    }
}

/// Registering the next behavior overlays its keys with its index.
proof fn lemma_name_table_step(behaviors: Seq<BehaviorView>, n: int)
    requires
        0 <= n < behaviors.len(),
    ensures
        overlay(
            name_table_upto(behaviors, n),
            behavior_keys(behaviors[n]),
            assigned_index(behaviors, n),
        ) == name_table_upto(behaviors, n + 1),
{
    assert(behaviors.take(n + 1).drop_last() =~= behaviors.take(n));
    assert(overlay(
        name_table_upto(behaviors, n),
        behavior_keys(behaviors[n]),
        assigned_index(behaviors, n),
    ) =~= name_table_upto(behaviors, n + 1));
}

/// Whether the rows hold the name at the index.
spec fn placed(rows: Seq<Vec<String>>, index: BehaviorIndex, name: Seq<char>) -> bool {
    rows_map(rows).contains_key(index) && rows_map(rows)[index] == name
}

/// Whether there is one row per language, as long as the language has
/// behaviors.
spec fn rows_match_counts(rows: Seq<Vec<String>>, behaviors: Seq<BehaviorView>) -> bool {
    &&& rows.len() == 3
    &&& forall|language: Language| #[trigger]
        rows[language.index() as int].len() == language_count(behaviors, language)
}

impl BehaviorIndices {
    #[verifier::type_invariant]
    spec fn inv(&self) -> bool {
        &&& keys_distinct(self.name_to_index@)
        &&& self.index_to_name@.len() == 3
    }

    /// Indexes the behaviors of a map, in the map's order.
    ///
    /// Each behavior gets the index of the language that its canonical name
    /// tells, and the next free number of that language. Its canonical name
    /// and each of its aliases then stand for that index, in place of
    /// whatever they stood for before, and the index stands for the
    /// canonical name.
    pub fn from_behaviors(behaviors: &BehaviorMap) -> (indices: Result<
        BehaviorIndices,
        BehaviorError,
    >)
        requires
            sequence_numbers_fit(behaviors_of(behaviors@)),
        ensures
            indexing_view(indices) == indexing_outcome(behaviors_of(behaviors@)),
    {
        let ghost all = behaviors_of(behaviors@);
        let count: usize = behaviors.len();
        let mut index_to_name: Vec<Vec<String>> = Vec::new();
        index_to_name.push(Vec::new());
        index_to_name.push(Vec::new());
        index_to_name.push(Vec::new());
        let mut name_to_index: Vec<NameEntry> = Vec::new();
        let mut n: usize = 0;
        proof {
            assert(all.take(0) =~= Seq::<BehaviorView>::empty());
            assert(entries_map(name_to_index@) =~= name_table_upto(all, 0));
        }
        while n < count
            invariant
                n <= count,
                count == behaviors@.len(),
                all == behaviors_of(behaviors@),
                sequence_numbers_fit(all),
                first_unresolvable(all.take(n as int)) is None,
                rows_match_counts(index_to_name@, all.take(n as int)),
                forall|i: int|
                    0 <= i < n ==> placed(
                        index_to_name@,
                        #[trigger] assigned_index(all, i),
                        all[i].shared.name,
                    ),
                forall|index: BehaviorIndex| #[trigger]
                    rows_map(index_to_name@).contains_key(index) ==> exists|i: int|
                        0 <= i < n && holds_index(all, i, index),
                keys_distinct(name_to_index@),
                entries_map(name_to_index@) == name_table_upto(all, n as int),
            decreases count - n,
        {
            let entry = behaviors.entry_at(n);
            let shared = &entry.behavior.shared;
            proof {
                assert(all.take(n + 1).drop_last() =~= all.take(n as int));
                assert(all[n as int] == entry@.behavior);
            }
            let language = match Language::from_file_name(shared.name.as_str()) {
                Some(language) => language,
                None => {
                    proof {
                        lemma_first_unresolvable_stays(all, n + 1);
                    }
                    return Err(BehaviorError::InvalidBehaviorName(shared.name.clone()));
                },
            };
            let lang_index: usize = language.as_index();
            let number: usize = index_to_name[lang_index].len();
            proof {
                lemma_language_count_step(all, n as int, language);
                lemma_language_count_monotonic(all, n + 1, language);
            }
            let behavior_index = BehaviorIndex(lang_index as u16, number as u16);
            assert(behavior_index == assigned_index(all, n as int));
            let ghost rows_before = index_to_name@;
            index_to_name[lang_index].push(shared.name.clone());
            proof {
                let rows_after = index_to_name@;
                assert forall|other: Language| #[trigger]
                    rows_after[other.index() as int].len() == language_count(
                        all.take(n + 1),
                        other,
                    ) by {
                    lemma_language_count_step(all, n as int, other);
                    assert(rows_before[other.index() as int].len() == language_count(
                        all.take(n as int),
                        other,
                    ));
                }
                assert forall|i: int| 0 <= i < n + 1 implies placed(
                    rows_after,
                    #[trigger] assigned_index(all, i),
                    all[i].shared.name,
                ) by {
                    if i < n {
                        assert(placed(rows_before, assigned_index(all, i), all[i].shared.name));
                    }
                }
                assert forall|index: BehaviorIndex| #[trigger]
                    rows_map(rows_after).contains_key(index) implies exists|i: int|
                    0 <= i < n + 1 && holds_index(all, i, index) by {
                    if rows_map(rows_before).contains_key(index) {
                        let i = choose|i: int| 0 <= i < n && holds_index(all, i, index);
                        assert(holds_index(all, i, index));
                    } else {
                        assert(holds_index(all, n as int, index));
                    }
                }
            }
            let ghost keys = behavior_keys(all[n as int]);
            let ghost table = name_table_upto(all, n as int);
            upsert(&mut name_to_index, shared.name.as_str().as_bytes_vec(), behavior_index);
            proof {
                assert(keys.take(1) =~= seq![keys[0]]);
                assert(keys.take(0) =~= Seq::<Seq<u8>>::empty());
                assert(overlay(table, keys.take(0), behavior_index) =~= table);
                lemma_overlay_step(table, keys, 0, behavior_index);
            }
            let aliases: usize = shared.shortnames.len();
            let mut a: usize = 0;
            while a < aliases
                invariant
                    a <= aliases,
                    aliases == shared.shortnames.len(),
                    keys.len() == aliases + 1,
                    forall|j: int|
                        0 <= j < aliases ==> #[trigger] keys[j + 1] == encode_utf8(
                            shared.shortnames@[j]@,
                        ),
                    keys_distinct(name_to_index@),
                    entries_map(name_to_index@) == overlay(table, keys.take(a + 1), behavior_index),
                decreases aliases - a,
            {
                upsert(
                    &mut name_to_index,
                    shared.shortnames[a].as_str().as_bytes_vec(),
                    behavior_index,
                );
                proof {
                    assert(keys[a + 1] == encode_utf8(shared.shortnames@[a as int]@));
                    lemma_overlay_step(table, keys, a + 1, behavior_index);
                }
                a += 1;
            }
            proof {
                assert(keys.take(aliases + 1) =~= keys);
                lemma_name_table_step(all, n as int);
            }
            n += 1;
        }
        proof {
            assert(all.take(n as int) =~= all);
            assert(name_table_upto(all, n as int) =~= name_table(all));
            assert forall|index: BehaviorIndex| index_table(all).contains_key(index) implies #[trigger]
                rows_map(index_to_name@).contains_key(index) && rows_map(index_to_name@)[index]
                == index_table(all)[index] by {
                let position = choose|position: int| holds_index(all, position, index);
                assert(placed(
                    index_to_name@,
                    assigned_index(all, position),
                    all[position].shared.name,
                ));
            }
            assert forall|index: BehaviorIndex| #[trigger]
                rows_map(index_to_name@).contains_key(index) implies index_table(all).contains_key(
                index,
            ) by {
                let i = choose|i: int| 0 <= i < n && holds_index(all, i, index);
                assert(holds_index(all, i, index));
            }
            assert(rows_map(index_to_name@) =~= index_table(all));
        }
        Ok(BehaviorIndices { index_to_name, name_to_index })
    }
}

/// Tells whether the behaviors of a map can be indexed: whether no language
/// has more behaviors than there are sequence numbers.
pub fn can_index(behaviors: &BehaviorMap) -> (ready: bool)
    ensures
        ready == sequence_numbers_fit(behaviors_of(behaviors@)),
{
    let ghost all = behaviors_of(behaviors@);
    let count: usize = behaviors.len();
    let mut javascript: usize = 0;
    let mut python: usize = 0;
    let mut rust: usize = 0;
    let mut n: usize = 0;
    proof {
        assert(all.take(0) =~= Seq::<BehaviorView>::empty());
    }
    while n < count
        invariant
            n <= count,
            count == behaviors@.len(),
            all == behaviors_of(behaviors@),
            javascript == language_count(all.take(n as int), Language::JavaScript),
            python == language_count(all.take(n as int), Language::Python),
            rust == language_count(all.take(n as int), Language::Rust),
            javascript <= n,
            python <= n,
            rust <= n,
        decreases count - n,
    {
        let entry = behaviors.entry_at(n);
        proof {
            assert(all[n as int] == entry@.behavior);
            lemma_language_count_step(all, n as int, Language::JavaScript);
            lemma_language_count_step(all, n as int, Language::Python);
            lemma_language_count_step(all, n as int, Language::Rust);
        }
        match Language::from_file_name(entry.behavior.shared.name.as_str()) {
            Some(Language::JavaScript) => {
                javascript += 1;
            },
            Some(Language::Python) => {
                python += 1;
            },
            Some(Language::Rust) => {
                rust += 1;
            },
            None => {},
        }
        n += 1;
    }
    let ready = javascript <= 0x1_0000 && python <= 0x1_0000 && rust <= 0x1_0000;
    proof {
        assert(all.take(n as int) =~= all);
        if ready {
            assert forall|language: Language| #[trigger]
                language_count(all, language) <= 0x1_0000 by {
                match language {
                    Language::JavaScript => {},
                    Language::Python => {},
                    Language::Rust => {},
                }
            }
        } else {
            assert(language_count(all, Language::JavaScript) > 0x1_0000 || language_count(
                all,
                Language::Python,
            ) > 0x1_0000 || language_count(all, Language::Rust) > 0x1_0000);
        }
    }
    ready
}

impl BehaviorIndices {
    /// The index that a name or alias stands for, if it stands for any.
    pub fn get_index(&self, key: &[u8]) -> (index: Option<&BehaviorIndex>)
        ensures
            index == match self@.name_to_index.get(key@) {
                Some(index) => Some(&index),
                None => None,
            },
    {
        proof {
            use_type_invariant(self);
        }
        match find_key(&self.name_to_index, key) {
            Some(position) => {
                proof {
                    lemma_line_is_found(self.name_to_index@, position as int);
                }
                Some(&self.name_to_index[position].index)
            },
            None => None,
        }
    }

    /// The canonical name of the behavior with the index, if there is one.
    pub fn get_name(&self, behavior_index: &BehaviorIndex) -> (name: Option<&String>)
        ensures
            match name {
                Some(name) => self@.index_to_name.get(*behavior_index) == Some(name@),
                None => !self@.index_to_name.contains_key(*behavior_index),
            },
    {
        let lang_index: usize = behavior_index.0 as usize;
        let number: usize = behavior_index.1 as usize;
        if lang_index < self.index_to_name.len() {
            let row = &self.index_to_name[lang_index];
            if number < row.len() {
                return Some(&row[number]);
            }
        }
        None
    }
}

/// Once a behavior's name tells no language, so it stays when more
/// behaviors follow.
proof fn lemma_first_unresolvable_stays(behaviors: Seq<BehaviorView>, n: int)
    requires
        0 < n <= behaviors.len(),
        first_unresolvable(behaviors.take(n - 1)) is None,
        behavior_language(behaviors[n - 1]) is None,
    ensures
        first_unresolvable(behaviors) == Some(n - 1),
    decreases behaviors.len() - n,
{
    assert(behaviors.take(n).drop_last() =~= behaviors.take(n - 1));
    if n == behaviors.len() {
        assert(behaviors.take(n) =~= behaviors);
    } else {
        lemma_first_unresolvable_found(behaviors, n, n - 1);
    }
}

/// The first such position among the first `n` behaviors is the first
/// among all.
proof fn lemma_first_unresolvable_found(behaviors: Seq<BehaviorView>, n: int, position: int)
    requires
        0 <= n <= behaviors.len(),
        first_unresolvable(behaviors.take(n)) == Some(position),
    ensures
        first_unresolvable(behaviors) == Some(position),
    decreases behaviors.len() - n,
{
    if n == behaviors.len() {
        assert(behaviors.take(n) =~= behaviors);
    } else {
        assert(behaviors.take(n + 1).drop_last() =~= behaviors.take(n));
        lemma_first_unresolvable_found(behaviors, n + 1, position);
    }
}

} // verus!
