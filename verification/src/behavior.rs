//! Behaviors as configuration supplies them: the shared description of each,
//! the field keys it declares, and the map from file names to behaviors.

use vstd::prelude::*;

verus! {

/// What every copy of a behavior shares: its canonical name, its aliases
/// and, once loaded, its source text.
#[derive(Debug, Clone, PartialEq, Eq)]
pub struct SharedBehavior {
    pub name: String,
    pub shortnames: Vec<String>,
    pub behavior_src: Option<String>,
}

/// What a [`SharedBehavior`] holds, as plain values.
pub struct SharedBehaviorView {
    pub name: Seq<char>,
    pub shortnames: Seq<Seq<char>>,
    pub behavior_src: Option<Seq<char>>,
}

impl View for SharedBehavior {
    type V = SharedBehaviorView;

    open spec fn view(&self) -> SharedBehaviorView {
        SharedBehaviorView {
            name: self.name@,
            shortnames: self.shortnames.deep_view(),
            behavior_src: self.behavior_src.deep_view(),
        }
    }
}

/// The field keys that a behavior declares: the keys it names itself, in
/// the order it names them, the built-in keys it refers to, and whether it
/// reaches for fields that no schema constrains.
#[derive(Debug, Clone, PartialEq, Eq)]
pub struct SendableBehaviorKeys {
    pub field_names: Vec<String>,
    pub dyn_access: bool,
    pub built_in_key_use: Option<Vec<String>>,
}

/// What a [`SendableBehaviorKeys`] holds, as plain values.
pub struct BehaviorKeysView {
    pub field_names: Seq<Seq<char>>,
    pub dyn_access: bool,
    pub built_in_key_use: Option<Seq<Seq<char>>>,
}

impl View for SendableBehaviorKeys {
    type V = BehaviorKeysView;

    open spec fn view(&self) -> BehaviorKeysView {
        BehaviorKeysView {
            field_names: self.field_names.deep_view(),
            dyn_access: self.dyn_access,
            built_in_key_use: self.built_in_key_use.deep_view(),
        }
    }
}

impl BehaviorKeysView {
    /// Every key the behavior needs, in one list: the keys it names, then
    /// the built-in keys it refers to. Nothing is reordered and a key that
    /// occurs twice stays twice.
    pub open spec fn required_field_keys(self) -> Seq<Seq<char>> {
        match self.built_in_key_use {
            Some(built_in) => self.field_names + built_in,
            None => self.field_names,
        }
    }
}

/// Copies the strings of `source` to the end of `target`, in order.
pub(crate) fn extend_with_strings(target: &mut Vec<String>, source: &Vec<String>)
    ensures
        final(target).deep_view() == old(target).deep_view() + source.deep_view(),
{
    let ghost before = target.deep_view();
    let count: usize = source.len();
    let mut i: usize = 0;
    while i < count
        invariant
            i <= count,
            count == source.len(),
            target.len() == before.len() + i,
            forall|j: int| 0 <= j < before.len() ==> (#[trigger] target[j])@ == before[j],
            forall|j: int|
                before.len() <= j < target.len() ==> (#[trigger] target[j])@ == source[j
                    - before.len()]@,
        decreases count - i,
    {
        target.push(source[i].clone());
        i += 1;
    }
    assert(target.deep_view() =~= before + source.deep_view());
}

impl SendableBehaviorKeys {
    /// Every key the behavior needs, in one list.
    pub fn required_field_keys(&self) -> (keys: Vec<String>)
        ensures
            keys.deep_view() == self@.required_field_keys(),
    {
        let mut keys: Vec<String> = Vec::new();
        extend_with_strings(&mut keys, &self.field_names);
        match &self.built_in_key_use {
            Some(built_in) => {
                extend_with_strings(&mut keys, built_in);
            },
            None => {},
        }
        assert(keys.deep_view() =~= self@.required_field_keys());
        keys
    }
}

/// One behavior: what its copies share, and the keys it declares.
#[derive(Debug, Clone, PartialEq, Eq)]
pub struct Behavior {
    pub shared: SharedBehavior,
    pub keys: SendableBehaviorKeys,
}

/// What a [`Behavior`] holds, as plain values.
pub struct BehaviorView {
    pub shared: SharedBehaviorView,
    pub keys: BehaviorKeysView,
}

impl View for Behavior {
    type V = BehaviorView;

    open spec fn view(&self) -> BehaviorView {
        BehaviorView { shared: self.shared@, keys: self.keys@ }
    }
}

/// One entry of a [`BehaviorMap`], as plain values.
pub struct BehaviorEntryView {
    pub file_name: Seq<char>,
    pub behavior: BehaviorView,
}

/// An entry of a [`BehaviorMap`]: a file name and the behavior found there.
#[derive(Debug, Clone, PartialEq, Eq)]
pub struct BehaviorEntry {
    pub file_name: String,
    pub behavior: Behavior,
}

impl View for BehaviorEntry {
    type V = BehaviorEntryView;

    open spec fn view(&self) -> BehaviorEntryView {
        BehaviorEntryView { file_name: self.file_name@, behavior: self.behavior@ }
    }
}

impl DeepView for BehaviorEntry {
    type V = BehaviorEntryView;

    open spec fn deep_view(&self) -> BehaviorEntryView {
        self@
    }
}

/// Whether no file name occurs twice among the entries.
pub open spec fn file_names_distinct(entries: Seq<BehaviorEntryView>) -> bool {
    forall|i: int, j: int|
        0 <= i < j < entries.len() ==> (#[trigger] entries[i]).file_name != (
        #[trigger] entries[j]).file_name
}

/// Where among the entries a file name stands, if it does.
pub open spec fn position_of(entries: Seq<BehaviorEntryView>, file_name: Seq<char>) -> Option<int>
    decreases entries.len(),
{
    if entries.len() == 0 {
        None
    } else if entries.last().file_name == file_name {
        Some(entries.len() - 1)
    } else {
        position_of(entries.drop_last(), file_name)
    }
}

/// A file name that stands nowhere among the entries differs from each of theirs.
proof fn lemma_position_of_none(entries: Seq<BehaviorEntryView>, file_name: Seq<char>)
    requires
        position_of(entries, file_name) is None,
    ensures
        forall|i: int| 0 <= i < entries.len() ==> (#[trigger] entries[i]).file_name != file_name,
    decreases entries.len(),
{
    if entries.len() > 0 {
        lemma_position_of_none(entries.drop_last(), file_name);
        assert forall|i: int| 0 <= i < entries.len() implies (#[trigger] entries[i]).file_name
            != file_name by {
            if i < entries.len() - 1 {
                assert(entries.drop_last()[i] == entries[i]);
            }
        }
    }
}

/// The behaviors of a project by file name, in the order in which their
/// file names were first inserted. No file name occurs twice.
#[derive(Debug)]
pub struct BehaviorMap {
    inner: Vec<BehaviorEntry>,
}

impl View for BehaviorMap {
    type V = Seq<BehaviorEntryView>;

    closed spec fn view(&self) -> Seq<BehaviorEntryView> {
        self.inner.deep_view()
    }
}

impl BehaviorMap {
    #[verifier::type_invariant]
    spec fn inv(&self) -> bool {
        file_names_distinct(self.inner.deep_view())
    }

    /// A map without behaviors.
    pub fn new() -> (map: BehaviorMap)
        ensures
            map@ == Seq::<BehaviorEntryView>::empty(),
    {
        let map = BehaviorMap { inner: Vec::new() };
        assert(map.inner.deep_view() =~= Seq::<BehaviorEntryView>::empty());
        map
    }

    /// How many behaviors the map holds.
    pub fn len(&self) -> (len: usize)
        ensures
            len == self@.len(),
    {
        self.inner.len()
    }

    /// The entry at a position of the insertion order.
    pub fn entry(&self, position: usize) -> (entry: Option<&BehaviorEntry>)
        ensures
            match entry {
                Some(entry) => position < self@.len() && entry@ == self@[position as int],
                None => position >= self@.len(),
            },
    {
        if position < self.inner.len() {
            Some(&self.inner[position])
        } else {
            None
        }
    }

    /// The entry at a position that the map has.
    pub(crate) fn entry_at(&self, position: usize) -> (entry: &BehaviorEntry)
        requires
            position < self@.len(),
        ensures
            entry@ == self@[position as int],
    {
        &self.inner[position]
    }

    /// Puts a behavior under a file name. A behavior that stood under the
    /// same file name is replaced where it stood and handed back; a new
    /// file name goes to the end.
    pub fn insert(&mut self, file_name: String, behavior: Behavior) -> (replaced: Option<Behavior>)
        ensures
            file_names_distinct(final(self)@),
            match position_of(old(self)@, file_name@) {
                Some(position) => {
                    &&& final(self)@ == old(self)@.update(
                        position,
                        BehaviorEntryView { file_name: file_name@, behavior: behavior@ },
                    )
                    &&& replaced matches Some(previous)
                    &&& previous@ == old(self)@[position].behavior
                },
                None => {
                    &&& final(self)@ == old(self)@.push(
                        BehaviorEntryView { file_name: file_name@, behavior: behavior@ },
                    )
                    &&& replaced is None
                },
            },
    {
        proof {
            use_type_invariant(&*self);
        }
        let ghost before = self.inner.deep_view();
        let ghost added = BehaviorEntryView { file_name: file_name@, behavior: behavior@ };
        let count: usize = self.inner.len();
        let mut i: usize = count;
        assert(before.take(count as int) =~= before);
        while i > 0 && !(self.inner[i - 1].file_name == file_name)
            invariant
                i <= count,
                count == self.inner.len(),
                before == self.inner.deep_view(),
                position_of(before, file_name@) == position_of(before.take(i as int), file_name@),
            decreases i,
        {
            proof {
                let prefix = before.take(i as int);
                assert(prefix.drop_last() =~= before.take(i - 1));
                assert(prefix.last() == before[i - 1]);
            }
            i -= 1;
        }
        let mut entries: Vec<BehaviorEntry> = Vec::new();
        core::mem::swap(&mut entries, &mut self.inner);
        assert(self.inner.deep_view() =~= Seq::<BehaviorEntryView>::empty());
        entries.push(BehaviorEntry { file_name, behavior });
        let replaced = if i > 0 {
            proof {
                let prefix = before.take(i as int);
                assert(prefix.last() == before[i - 1]);
            }
            let previous = entries.swap_remove(i - 1);
            proof {
                assert(entries.deep_view() =~= before.update(i - 1, added));
                assert forall|a: int, b: int| 0 <= a < b < before.len() implies (
                #[trigger] entries.deep_view()[a]).file_name != (
                #[trigger] entries.deep_view()[b]).file_name by {
                    assert(before[a].file_name != before[b].file_name);
                }
            }
            Some(previous.behavior)
        } else {
            proof {
                assert(before.take(0) =~= Seq::<BehaviorEntryView>::empty());
                lemma_position_of_none(before, file_name@);
                assert(entries.deep_view() =~= before.push(added));
                assert forall|a: int, b: int| 0 <= a < b < entries.deep_view().len() implies (
                #[trigger] entries.deep_view()[a]).file_name != (
                #[trigger] entries.deep_view()[b]).file_name by {
                    if b < before.len() {
                        assert(before[a].file_name != before[b].file_name);
                    }
                }
            }
            None
        };
        self.inner = entries;
        replaced
    }
}

} // verus!
