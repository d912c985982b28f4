//! What holds of every table of behavior indices, whatever the behaviors.

use vstd::prelude::*;
use vstd::utf8::encode_utf8;

use crate::behavior::{BehaviorEntryView, BehaviorView};
use crate::behavior_execution::{
    assigned_index, behavior_keys, behavior_language, behaviors_of, first_unresolvable,
    holds_index, index_table, language_count, last_registrant, lemma_language_count_monotonic,
    lemma_language_count_step, name_table, sequence_numbers_fit, BehaviorErrorView,
    BehaviorIndicesView,
};
use crate::exp_init::{entry_description, exp_init_outcome, BehaviorDescriptionView};
use crate::language::Language;

verus! {

/// The number of a behavior among the behaviors of its language: how many
/// behaviors of that language stand before it.
pub open spec fn sequence_number(behaviors: Seq<BehaviorView>, position: int) -> nat
    recommends
        0 <= position < behaviors.len(),
        behavior_language(behaviors[position]) is Some,
{
    language_count(behaviors.take(position), behavior_language(behaviors[position]).unwrap())
}

/// Whether the behavior at the position is of the language and has the
/// sequence number.
pub open spec fn has_sequence_number(
    behaviors: Seq<BehaviorView>,
    language: Language,
    position: int,
    number: nat,
) -> bool {
    &&& 0 <= position < behaviors.len()
    &&& behavior_language(behaviors[position]) == Some(language)
    &&& sequence_number(behaviors, position) == number
}

/// Whether some behavior of the language has the sequence number.
pub open spec fn number_taken(
    behaviors: Seq<BehaviorView>,
    language: Language,
    number: nat,
) -> bool {
    exists|position: int| has_sequence_number(behaviors, language, position, number)
}

/// Where no behavior's name fails to tell a language, every behavior's does.
pub proof fn lemma_all_resolvable(behaviors: Seq<BehaviorView>, position: int)
    requires
        first_unresolvable(behaviors) is None,
        0 <= position < behaviors.len(),
    ensures
        behavior_language(behaviors[position]) is Some,
    decreases behaviors.len(),
{
    if position < behaviors.len() - 1 {
        lemma_all_resolvable(behaviors.drop_last(), position);
    }
}

/// A language has no more behaviors than there are behaviors.
pub proof fn lemma_language_count_bounded(behaviors: Seq<BehaviorView>, language: Language)
    ensures
        language_count(behaviors, language) <= behaviors.len(),
    decreases behaviors.len(),
{
    if behaviors.len() > 0 {
        lemma_language_count_bounded(behaviors.drop_last(), language);
    }
}

/// Behaviors that are no more than there are sequence numbers can always
/// be indexed.
pub proof fn lemma_few_behaviors_fit(behaviors: Seq<BehaviorView>)
    requires
        behaviors.len() <= 0x1_0000,
    ensures
        sequence_numbers_fit(behaviors),
{
    assert forall|language: Language| #[trigger]
        language_count(behaviors, language) <= 0x1_0000 by {
        lemma_language_count_bounded(behaviors, language);
    }
}

/// A language has no more behaviors among the first `shorter` than among
/// the first `longer`.
pub proof fn lemma_language_count_grows(
    behaviors: Seq<BehaviorView>,
    shorter: int,
    longer: int,
    language: Language,
)
    requires
        0 <= shorter <= longer <= behaviors.len(),
    ensures
        language_count(behaviors.take(shorter), language) <= language_count(
            behaviors.take(longer),
            language,
        ),
{
    lemma_language_count_monotonic(behaviors.take(longer), shorter, language);
    assert(behaviors.take(longer).take(shorter) =~= behaviors.take(shorter));
}

/// The index of a behavior holds the index of its language and its
/// sequence number, and the sequence number is below the number of
/// behaviors of the language.
pub proof fn lemma_assigned_index_parts(behaviors: Seq<BehaviorView>, position: int)
    requires
        sequence_numbers_fit(behaviors),
        0 <= position < behaviors.len(),
        behavior_language(behaviors[position]) is Some,
    ensures
        assigned_index(behaviors, position).0 == behavior_language(
            behaviors[position],
        ).unwrap().index(),
        assigned_index(behaviors, position).1 == sequence_number(behaviors, position),
        sequence_number(behaviors, position) < language_count(
            behaviors,
            behavior_language(behaviors[position]).unwrap(),
        ),
{
    let language = behavior_language(behaviors[position]).unwrap();
    lemma_language_count_step(behaviors, position, language);
    lemma_language_count_monotonic(behaviors, position + 1, language);
    assert(language_count(behaviors, language) <= 0x1_0000);
}

/// No two behaviors of one language share a sequence number.
pub proof fn lemma_sequence_numbers_distinct(
    behaviors: Seq<BehaviorView>,
    first: int,
    second: int,
)
    requires
        0 <= first < behaviors.len(),
        0 <= second < behaviors.len(),
        first != second,
        behavior_language(behaviors[first]) is Some,
        behavior_language(behaviors[first]) == behavior_language(behaviors[second]),
    ensures
        sequence_number(behaviors, first) != sequence_number(behaviors, second),
{
    let language = behavior_language(behaviors[first]).unwrap();
    if first < second {
        lemma_language_count_step(behaviors, first, language);
        lemma_language_count_grows(behaviors, first + 1, second, language);
    } else {
        lemma_language_count_step(behaviors, second, language);
        lemma_language_count_grows(behaviors, second + 1, first, language);
    }
}

/// Every number below the number of behaviors of a language is the
/// sequence number of one of them.
pub proof fn lemma_sequence_numbers_cover(
    behaviors: Seq<BehaviorView>,
    language: Language,
    number: nat,
) -> (position: int)
    requires
        number < language_count(behaviors, language),
    ensures
        0 <= position < behaviors.len(),
        behavior_language(behaviors[position]) == Some(language),
        sequence_number(behaviors, position) == number,
    decreases behaviors.len(),
{
    let shorter = behaviors.drop_last();
    let last = behaviors.len() - 1;
    if number < language_count(shorter, language) {
        let position = lemma_sequence_numbers_cover(shorter, language, number);
        assert(shorter.take(position) =~= behaviors.take(position));
        position
    } else {
        assert(behaviors.take(last) =~= shorter);
        last
    }
}

/// The sequence numbers of the behaviors of a language are the numbers
/// from zero up to, and without, the number of those behaviors: each is
/// below that number, each number below it is taken, and none is taken
/// twice.
pub proof fn lemma_sequence_numbers_contiguous(behaviors: Seq<BehaviorView>, language: Language)
    ensures
        forall|position: int|
            0 <= position < behaviors.len() && behavior_language(behaviors[position]) == Some(
                language,
            ) ==> #[trigger] sequence_number(behaviors, position) < language_count(
                behaviors,
                language,
            ),
        forall|number: nat|
            number < language_count(behaviors, language) ==> #[trigger] number_taken(
                behaviors,
                language,
                number,
            ),
        forall|first: int, second: int|
            0 <= first < behaviors.len() && 0 <= second < behaviors.len() && first != second
                && behavior_language(behaviors[first]) == Some(language) && behavior_language(
                behaviors[second],
            ) == Some(language) ==> #[trigger] sequence_number(behaviors, first)
                != #[trigger] sequence_number(behaviors, second),
{
    assert forall|position: int|
        0 <= position < behaviors.len() && behavior_language(behaviors[position]) == Some(
            language,
        ) implies #[trigger] sequence_number(behaviors, position) < language_count(
        behaviors,
        language,
    ) by {
        lemma_language_count_step(behaviors, position, language);
        lemma_language_count_monotonic(behaviors, position + 1, language);
    }
    assert forall|number: nat| number < language_count(behaviors, language) implies #[trigger]
        number_taken(behaviors, language, number) by {
        let position = lemma_sequence_numbers_cover(behaviors, language, number);
        assert(has_sequence_number(behaviors, language, position, number));
    }
    assert forall|first: int, second: int|
        0 <= first < behaviors.len() && 0 <= second < behaviors.len() && first != second
            && behavior_language(behaviors[first]) == Some(language) && behavior_language(
            behaviors[second],
        ) == Some(language) implies #[trigger] sequence_number(behaviors, first)
        != #[trigger] sequence_number(behaviors, second) by {
        lemma_sequence_numbers_distinct(behaviors, first, second);
    }
}

/// No two behaviors share an index.
pub proof fn lemma_assigned_indices_distinct(
    behaviors: Seq<BehaviorView>,
    first: int,
    second: int,
)
    requires
        sequence_numbers_fit(behaviors),
        first_unresolvable(behaviors) is None,
        0 <= first < behaviors.len(),
        0 <= second < behaviors.len(),
        first != second,
    ensures
        assigned_index(behaviors, first) != assigned_index(behaviors, second),
{
    lemma_all_resolvable(behaviors, first);
    lemma_all_resolvable(behaviors, second);
    lemma_assigned_index_parts(behaviors, first);
    lemma_assigned_index_parts(behaviors, second);
    if behavior_language(behaviors[first]) == behavior_language(behaviors[second]) {
        lemma_sequence_numbers_distinct(behaviors, first, second);
    }
}

/// The index of every behavior stands for that behavior's canonical name.
pub proof fn lemma_index_names_behavior(behaviors: Seq<BehaviorView>, position: int)
    requires
        sequence_numbers_fit(behaviors),
        first_unresolvable(behaviors) is None,
        0 <= position < behaviors.len(),
    ensures
        index_table(behaviors).get(assigned_index(behaviors, position)) == Some(
            behaviors[position].shared.name,
        ),
{
    let index = assigned_index(behaviors, position);
    assert(holds_index(behaviors, position, index));
    let chosen = choose|chosen: int| holds_index(behaviors, chosen, index);
    if chosen != position {
        lemma_assigned_indices_distinct(behaviors, chosen, position);
    }
}

/// The last registrant of a key is a behavior that is registered under it.
pub proof fn lemma_last_registrant_is_registered(behaviors: Seq<BehaviorView>, key: Seq<u8>)
    ensures
        last_registrant(behaviors, key) matches Some(position) ==> 0 <= position < behaviors.len()
            && behavior_keys(behaviors[position]).contains(key),
    decreases behaviors.len(),
{
    if behaviors.len() > 0 && !behavior_keys(behaviors.last()).contains(key) {
        lemma_last_registrant_is_registered(behaviors.drop_last(), key);
    }
}

/// Every name and alias of every behavior stands for an index: that of the
/// last behavior that is registered under it, which is the behavior itself
/// or one that follows it.
pub proof fn lemma_registered_key_resolves(
    behaviors: Seq<BehaviorView>,
    position: int,
    key: Seq<u8>,
)
    requires
        0 <= position < behaviors.len(),
        behavior_keys(behaviors[position]).contains(key),
    ensures
        last_registrant(behaviors, key) matches Some(last) && position <= last < behaviors.len()
            && name_table(behaviors).get(key) == Some(assigned_index(behaviors, last)),
    decreases behaviors.len(),
{
    if !behavior_keys(behaviors.last()).contains(key) {
        lemma_registered_key_resolves(behaviors.drop_last(), position, key);
    }
}

/// The key of the alias at a place in the list of a behavior's aliases.
pub open spec fn alias_key(behaviors: Seq<BehaviorView>, position: int, alias: int) -> Seq<u8> {
    encode_utf8(behaviors[position].shared.shortnames[alias])
}

/// The key of a behavior's canonical name.
pub open spec fn name_key(behaviors: Seq<BehaviorView>, position: int) -> Seq<u8> {
    encode_utf8(behaviors[position].shared.name)
}

/// Whether an alias of a behavior and the behavior's canonical name were
/// last registered together: by one behavior, which has that same
/// canonical name. It is so whenever no later behavior is registered under
/// either (see [`lemma_unshadowed_keys_stay_together`]).
pub open spec fn registered_together(
    behaviors: Seq<BehaviorView>,
    position: int,
    alias: int,
) -> bool {
    &&& last_registrant(behaviors, alias_key(behaviors, position, alias)) == last_registrant(
        behaviors,
        name_key(behaviors, position),
    )
    &&& last_registrant(behaviors, name_key(behaviors, position)) matches Some(last)
    &&& behaviors[last].shared.name == behaviors[position].shared.name
}

/// Whether no behavior after the one at the position is registered under
/// the key.
pub open spec fn unshadowed(behaviors: Seq<BehaviorView>, position: int, key: Seq<u8>) -> bool {
    forall|later: int|
        position < later < behaviors.len() ==> !(#[trigger] behavior_keys(
            behaviors[later],
        )).contains(key)
}

/// A key of a behavior under which no later behavior is registered was
/// last registered by that behavior.
pub proof fn lemma_unshadowed_key(behaviors: Seq<BehaviorView>, position: int, key: Seq<u8>)
    requires
        0 <= position < behaviors.len(),
        behavior_keys(behaviors[position]).contains(key),
        unshadowed(behaviors, position, key),
    ensures
        last_registrant(behaviors, key) == Some(position),
    decreases behaviors.len(),
{
    if position < behaviors.len() - 1 {
        let shorter = behaviors.drop_last();
        assert(!behavior_keys(behaviors[behaviors.len() - 1]).contains(key));
        assert forall|later: int| position < later < shorter.len() implies !(
        #[trigger] behavior_keys(shorter[later])).contains(key) by {
            assert(!behavior_keys(behaviors[later]).contains(key));
        }
        lemma_unshadowed_key(shorter, position, key);
    }
}

/// The bytes of an alias and of the canonical name are keys of the behavior.
pub proof fn lemma_own_keys(behaviors: Seq<BehaviorView>, position: int, alias: int)
    requires
        0 <= position < behaviors.len(),
        0 <= alias < behaviors[position].shared.shortnames.len(),
    ensures
        behavior_keys(behaviors[position]).contains(alias_key(behaviors, position, alias)),
        behavior_keys(behaviors[position]).contains(name_key(behaviors, position)),
{
    let keys = behavior_keys(behaviors[position]);
    assert(keys[0] == name_key(behaviors, position));
    assert(keys[alias + 1] == alias_key(behaviors, position, alias));
}

/// Where no later behavior is registered under an alias of a behavior nor
/// under its canonical name, the two were last registered together.
pub proof fn lemma_unshadowed_keys_stay_together(
    behaviors: Seq<BehaviorView>,
    position: int,
    alias: int,
)
    requires
        0 <= position < behaviors.len(),
        0 <= alias < behaviors[position].shared.shortnames.len(),
        unshadowed(behaviors, position, alias_key(behaviors, position, alias)),
        unshadowed(behaviors, position, name_key(behaviors, position)),
    ensures
        registered_together(behaviors, position, alias),
{
    lemma_own_keys(behaviors, position, alias);
    lemma_unshadowed_key(behaviors, position, alias_key(behaviors, position, alias));
    lemma_unshadowed_key(behaviors, position, name_key(behaviors, position));
}

/// An alias of a behavior stands for the same index as the behavior's
/// canonical name, and that index stands for the canonical name, exactly
/// when the two were last registered together. Where a later behavior
/// took over only one of the two, or took over both under another name,
/// the alias and the name have parted.
pub proof fn lemma_alias_resolves_like_name(
    behaviors: Seq<BehaviorView>,
    position: int,
    alias: int,
)
    requires
        sequence_numbers_fit(behaviors),
        first_unresolvable(behaviors) is None,
        0 <= position < behaviors.len(),
        0 <= alias < behaviors[position].shared.shortnames.len(),
    ensures
        name_table(behaviors).contains_key(alias_key(behaviors, position, alias)),
        name_table(behaviors).contains_key(name_key(behaviors, position)),
        index_table(behaviors).contains_key(
            name_table(behaviors)[alias_key(behaviors, position, alias)],
        ),
        registered_together(behaviors, position, alias) <==> {
            &&& name_table(behaviors)[alias_key(behaviors, position, alias)] == name_table(
                behaviors,
            )[name_key(behaviors, position)]
            &&& index_table(behaviors)[name_table(behaviors)[alias_key(
                behaviors,
                position,
                alias,
            )]] == behaviors[position].shared.name
        },
{
    let by_alias = alias_key(behaviors, position, alias);
    let by_name = name_key(behaviors, position);
    lemma_own_keys(behaviors, position, alias);
    lemma_registered_key_resolves(behaviors, position, by_alias);
    lemma_registered_key_resolves(behaviors, position, by_name);
    let alias_owner = last_registrant(behaviors, by_alias).unwrap();
    let name_owner = last_registrant(behaviors, by_name).unwrap();
    lemma_index_names_behavior(behaviors, alias_owner);
    lemma_index_names_behavior(behaviors, name_owner);
    if alias_owner != name_owner {
        lemma_assigned_indices_distinct(behaviors, alias_owner, name_owner);
    }
}

/// Whether every one of the first `n` behaviors of a map has a description.
pub open spec fn all_described(
    indices: BehaviorIndicesView,
    entries: Seq<BehaviorEntryView>,
    n: int,
) -> bool {
    forall|i: int| 0 <= i < n ==> (#[trigger] entry_description(indices, entries[i])) is Ok
}

/// Whether the behavior at the position has the description.
pub open spec fn described_as(
    indices: BehaviorIndicesView,
    entries: Seq<BehaviorEntryView>,
    position: int,
    description: BehaviorDescriptionView,
) -> bool {
    &&& entry_description(indices, entries[position]) matches Ok(found)
    &&& found == description
}

/// Whether the behavior at the position is the first of a map that has no
/// description, and the error says why it has none.
pub open spec fn first_undescribed(
    indices: BehaviorIndicesView,
    entries: Seq<BehaviorEntryView>,
    position: int,
    error: BehaviorErrorView,
) -> bool {
    &&& 0 <= position < entries.len()
    &&& all_described(indices, entries, position)
    &&& entry_description(indices, entries[position]) matches Err(found)
    &&& found == error
}

/// The behaviors of a map are described all or none: where each has a
/// description, the list holds them one for one in the map's order; where
/// some have none, the error is that of the first such behavior.
pub proof fn lemma_exp_init_all_or_first(
    indices: BehaviorIndicesView,
    entries: Seq<BehaviorEntryView>,
)
    ensures
        match exp_init_outcome(indices, entries) {
            Ok(descriptions) => {
                &&& descriptions.len() == entries.len()
                &&& forall|i: int|
                    0 <= i < entries.len() ==> described_as(
                        indices,
                        entries,
                        i,
                        #[trigger] descriptions[i],
                    )
            },
            Err(error) => exists|position: int|
                first_undescribed(indices, entries, position, error),
        },
    decreases entries.len(),
{
    if entries.len() > 0 {
        let shorter = entries.drop_last();
        let last = entries.len() - 1;
        lemma_exp_init_all_or_first(indices, shorter);
        match exp_init_outcome(indices, shorter) {
            Ok(descriptions) => {
                assert forall|i: int| 0 <= i < last implies described_as(
                    indices,
                    entries,
                    i,
                    #[trigger] descriptions[i],
                ) by {
                    assert(shorter[i] == entries[i]);
                    assert(described_as(indices, shorter, i, descriptions[i]));
                }
                assert(all_described(indices, entries, last)) by {
                    assert forall|i: int| 0 <= i < last implies (#[trigger] entry_description(
                        indices,
                        entries[i],
                    )) is Ok by {
                        assert(described_as(indices, entries, i, descriptions[i]));
                    }
                }
                match entry_description(indices, entries.last()) {
                    Ok(_) => {},
                    Err(error) => {
                        assert(first_undescribed(indices, entries, last, error));
                    },
                }
            },
            Err(error) => {
                let first = choose|position: int|
                    first_undescribed(indices, shorter, position, error);
                assert(shorter[first] == entries[first]);
                assert forall|i: int| 0 <= i < first implies (#[trigger] entry_description(
                    indices,
                    entries[i],
                )) is Ok by {
                    assert(shorter[i] == entries[i]);
                    assert(entry_description(indices, shorter[i]) is Ok);
                }
                assert(first_undescribed(indices, entries, first, error));
            },
        }
    }
}

/// A table that was built from a map holds an index for every behavior of
/// that map: describing the behaviors of the same map never fails for
/// want of an index.
pub proof fn lemma_same_map_has_every_index(entries: Seq<BehaviorEntryView>, position: int)
    requires
        0 <= position < entries.len(),
    ensures
        name_table(behaviors_of(entries)).contains_key(
            encode_utf8(entries[position].behavior.shared.name),
        ),
{
    let behaviors = behaviors_of(entries);
    let key = encode_utf8(entries[position].behavior.shared.name);
    assert(behavior_keys(behaviors[position])[0] == key);
    lemma_registered_key_resolves(behaviors, position, key);
}

} // verus!
