//! What a runner is told of the behaviors when an experiment starts.

use vstd::prelude::*;
use vstd::utf8::encode_utf8;

use crate::behavior::{extend_with_strings, Behavior, BehaviorEntryView, BehaviorMap};
use crate::behavior_execution::{
    BehaviorError, BehaviorErrorView, BehaviorIndex, BehaviorIndices, BehaviorIndicesView,
};
use crate::language::{language_of_file_name, Language};

verus! {

/// What a runner is told of one behavior when an experiment starts.
#[derive(Debug, Clone, PartialEq, Eq)]
pub struct BehaviorDescription {
    pub index: BehaviorIndex,
    pub name: String,
    pub short_names: Vec<String>,
    pub source: String,
    pub required_field_keys: Vec<String>,
    pub language: Language,
    pub dyn_access: bool,
}

/// What a [`BehaviorDescription`] holds, as plain values.
pub struct BehaviorDescriptionView {
    pub index: BehaviorIndex,
    pub name: Seq<char>,
    pub short_names: Seq<Seq<char>>,
    pub source: Seq<char>,
    pub required_field_keys: Seq<Seq<char>>,
    pub language: Language,
    pub dyn_access: bool,
}

impl View for BehaviorDescription {
    type V = BehaviorDescriptionView;

    open spec fn view(&self) -> BehaviorDescriptionView {
        BehaviorDescriptionView {
            index: self.index,
            name: self.name@,
            short_names: self.short_names.deep_view(),
            source: self.source@,
            required_field_keys: self.required_field_keys.deep_view(),
            language: self.language,
            dyn_access: self.dyn_access,
        }
    }
}

impl DeepView for BehaviorDescription {
    type V = BehaviorDescriptionView;

    open spec fn deep_view(&self) -> BehaviorDescriptionView {
        self@
    }
}

/// The description of one behavior of a map, or why there is none.
///
/// The language is told from the file name under which the behavior
/// stands in the map, the index is the one that the behavior's canonical
/// name stands for, and the source text must be attached. The three are
/// asked for in this order, and the first that is missing decides the
/// error.
pub open spec fn entry_description(
    indices: BehaviorIndicesView,
    entry: BehaviorEntryView,
) -> Result<BehaviorDescriptionView, BehaviorErrorView> {
    let shared = entry.behavior.shared;
    let keys = entry.behavior.keys;
    match language_of_file_name(entry.file_name) {
        None => Err(BehaviorErrorView::UnknownLanguage(entry.file_name)),
        Some(language) => match indices.name_to_index.get(encode_utf8(shared.name)) {
            None => Err(BehaviorErrorView::MissingIndex(shared.name)),
            Some(index) => match shared.behavior_src {
                None => Err(BehaviorErrorView::MissingSource(shared.name)),
                Some(source) => Ok(
                    BehaviorDescriptionView {
                        index,
                        name: shared.name,
                        short_names: shared.shortnames,
                        source,
                        required_field_keys: keys.required_field_keys(),
                        language,
                        dyn_access: keys.dyn_access,
                    },
                ),
            },
        },
    }
}

/// The descriptions of all behaviors of a map, in the map's order, or the
/// error of the first behavior that has none.
pub open spec fn exp_init_outcome(
    indices: BehaviorIndicesView,
    entries: Seq<BehaviorEntryView>,
) -> Result<Seq<BehaviorDescriptionView>, BehaviorErrorView>
    decreases entries.len(),
{
    if entries.len() == 0 {
        Ok(Seq::empty())
    } else {
        match exp_init_outcome(indices, entries.drop_last()) {
            Err(error) => Err(error),
            Ok(descriptions) => match entry_description(indices, entries.last()) {
                Ok(description) => Ok(descriptions.push(description)),
                Err(error) => Err(error),
            },
        }
    }
}

/// The outcome of describing, as plain values.
pub open spec fn descriptions_view(
    outcome: Result<Vec<BehaviorDescription>, BehaviorError>,
) -> Result<Seq<BehaviorDescriptionView>, BehaviorErrorView> {
    match outcome {
        Ok(descriptions) => Ok(descriptions.deep_view()),
        Err(error) => Err(error@),
    }
}

/// An error among the first `n` behaviors is the error of the whole map.
pub proof fn lemma_exp_init_error_stays(
    indices: BehaviorIndicesView,
    entries: Seq<BehaviorEntryView>,
    n: int,
)
    requires
        0 <= n <= entries.len(),
        exp_init_outcome(indices, entries.take(n)) is Err,
    ensures
        exp_init_outcome(indices, entries) == exp_init_outcome(indices, entries.take(n)),
    decreases entries.len() - n,
{
    if n == entries.len() {
        assert(entries.take(n) =~= entries);
    } else {
        assert(entries.take(n + 1).drop_last() =~= entries.take(n));
        lemma_exp_init_error_stays(indices, entries, n + 1);
    }
}

/// Describes one behavior of a map.
pub fn describe_behavior(
    behavior_indices: &BehaviorIndices,
    file_name: &str,
    behavior: &Behavior,
) -> (description: Result<BehaviorDescription, BehaviorError>)
    ensures
        match description {
            Ok(description) => Ok(description@),
            Err(error) => Err(error@),
        } == entry_description(
            behavior_indices@,
            BehaviorEntryView { file_name: file_name@, behavior: behavior@ },
        ),
{
    let shared = &behavior.shared;
    let keys = &behavior.keys;
    let language = match Language::from_file_name(file_name) {
        Some(language) => language,
        None => {
            return Err(BehaviorError::UnknownLanguage(file_name.to_owned()));
        },
    };
    let index = match behavior_indices.get_index(shared.name.as_str().as_bytes()) {
        Some(index) => *index,
        None => {
            return Err(BehaviorError::MissingIndex(shared.name.clone()));
        },
    };
    let source = match &shared.behavior_src {
        Some(source) => source.clone(),
        None => {
            return Err(BehaviorError::MissingSource(shared.name.clone()));
        },
    };
    let required_field_keys = keys.required_field_keys();
    let mut short_names: Vec<String> = Vec::new();
    extend_with_strings(&mut short_names, &shared.shortnames);
    assert(short_names.deep_view() =~= shared.shortnames.deep_view());
    Ok(
        BehaviorDescription {
            index,
            name: shared.name.clone(),
            short_names,
            source,
            required_field_keys,
            language,
            dyn_access: keys.dyn_access,
        },
    )
}

/// Describes every behavior of a map to a runner, in the map's order.
///
/// A behavior whose canonical name is no part of `behavior_indices` was not
/// among the behaviors that the table was built from: the caller has mixed
/// up two maps, and gets the error that says so.
pub fn exp_init_message(behavior_indices: &BehaviorIndices, behavior_map: &BehaviorMap) -> (message:
    Result<Vec<BehaviorDescription>, BehaviorError>)
    ensures
        descriptions_view(message) == exp_init_outcome(behavior_indices@, behavior_map@),
{
    let ghost entries = behavior_map@;
    let count: usize = behavior_map.len();
    let mut behavior_descriptions: Vec<BehaviorDescription> = Vec::new();
    let mut n: usize = 0;
    proof {
        assert(entries.take(0) =~= Seq::<BehaviorEntryView>::empty());
        assert(behavior_descriptions.deep_view() =~= Seq::<BehaviorDescriptionView>::empty());
    }
    while n < count
        invariant
            n <= count,
            count == entries.len(),
            entries == behavior_map@,
            exp_init_outcome(behavior_indices@, entries.take(n as int)) == Ok::<
                Seq<BehaviorDescriptionView>,
                BehaviorErrorView,
            >(behavior_descriptions.deep_view()),
        decreases count - n,
    {
        let entry = behavior_map.entry_at(n);
        proof {
            assert(entries.take(n + 1).drop_last() =~= entries.take(n as int));
            assert(entries.take(n + 1).last() == entry@);
        }
        let ghost before = behavior_descriptions.deep_view();
        match describe_behavior(behavior_indices, entry.file_name.as_str(), &entry.behavior) {
            Ok(description) => {
                behavior_descriptions.push(description);
                assert(behavior_descriptions.deep_view() =~= before.push(description@));
            },
            Err(error) => {
                proof {
                    lemma_exp_init_error_stays(behavior_indices@, entries, n + 1);
                }
                return Err(error);
            },
        }
        n += 1;
    }
    proof {
        assert(entries.take(n as int) =~= entries);
    }
    Ok(behavior_descriptions)
}

} // verus!
