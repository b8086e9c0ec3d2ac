//! Typed questions: a yes/no `Noul`, a `Choice` among named options, and a
//! `Score` along an ordered rubric.

use crate::order::{compare_keys, key_lt, lemma_bytes_lt_transitive, lemma_key_lt_total, KeyOrder};
use vstd::prelude::*;

verus! {

/// `instructions` (and some `criteria` entries) accept a plain string, a
/// structured object, or an array. `Plain` covers the common string case;
/// `Structured` covers everything else.
#[derive(Debug)]
pub enum Text {
    Plain(String),
    Structured(serde_json::Value),
}

impl Clone for Text {
    /// The same text.
    fn clone(&self) -> (t: Text)
        ensures
            t == *self,
    {
        match self {
            Text::Plain(s) => Text::Plain(s.clone()),
            Text::Structured(v) => Text::Structured(v.clone()),
        }
    }
}

/// A copy of an optional text.
pub fn clone_optional_text(t: &Option<Text>) -> (c: Option<Text>)
    ensures
        c == *t,
{
    match t {
        Some(x) => Some(x.clone()),
        None => None,
    }
}

impl From<String> for Text {
    fn from(s: String) -> (t: Text) {
        Text::Plain(s)
    }
}

impl vstd::std_specs::convert::FromSpecImpl<String> for Text {
    open spec fn obeys_from_spec() -> bool {
        true
    }

    open spec fn from_spec(v: String) -> Text {
        Text::Plain(v)
    }
}

impl From<serde_json::Value> for Text {
    fn from(v: serde_json::Value) -> (t: Text) {
        Text::Structured(v)
    }
}

impl vstd::std_specs::convert::FromSpecImpl<serde_json::Value> for Text {
    open spec fn obeys_from_spec() -> bool {
        true
    }

    open spec fn from_spec(v: serde_json::Value) -> Text {
        Text::Structured(v)
    }
}

impl<'a> From<&'a str> for Text {
    /// Plain text of the same characters as `s`.
    fn from(s: &'a str) -> (t: Text)
        ensures
            t matches Text::Plain(p) && p@ == s@,
    {
        Text::Plain(s.to_owned())
    }
}

impl<'a> vstd::std_specs::convert::FromSpecImpl<&'a str> for Text {
    /// What `from` gives for a `&str` is a fresh `String`, which no spec
    /// function can name: its characters are stated on `from` itself.
    open spec fn obeys_from_spec() -> bool {
        false
    }

    open spec fn from_spec(v: &'a str) -> Text {
        Text::Plain(vstd::pervasive::arbitrary())
    }
}

/// What a Noul's `true` and `false` outcomes mean. Both fields are optional.
#[derive(Debug)]
pub struct NoulCriteria {
    pub when_true: Option<Text>,
    pub when_false: Option<Text>,
}

impl Default for NoulCriteria {
    /// Neither outcome described.
    fn default() -> (c: NoulCriteria)
        ensures
            c.when_true is None,
            c.when_false is None,
    {
        NoulCriteria { when_true: None, when_false: None }
    }
}

impl Clone for NoulCriteria {
    /// The same criteria.
    fn clone(&self) -> (c: NoulCriteria)
        ensures
            c == *self,
    {
        NoulCriteria {
            when_true: clone_optional_text(&self.when_true),
            when_false: clone_optional_text(&self.when_false),
        }
    }
}

/// The keys of `entries` stand in strictly increasing order.
pub open spec fn keys_sorted(entries: Seq<(String, Option<Text>)>) -> bool {
    forall|i: int, j: int|
        0 <= i < j < entries.len() ==> key_lt(#[trigger] entries[i].0@, #[trigger] entries[j].0@)
}

/// `entries` list exactly the keys of `m`, each with its value in `m`.
pub open spec fn entries_represent(
    entries: Seq<(String, Option<Text>)>,
    m: Map<Seq<char>, Option<Text>>,
) -> bool {
    &&& forall|i: int|
        0 <= i < entries.len() ==> m.contains_key(#[trigger] entries[i].0@) && m[entries[i].0@]
            == entries[i].1
    &&& forall|k: Seq<char>|
        #[trigger] m.contains_key(k) ==> exists|i: int| 0 <= i < entries.len() && entries[i].0@ == k
}

/// The options of a choice, each described by a rubric entry or by nothing:
/// a map from option name to description, kept in the order of the names'
/// bytes, as a `BTreeMap<String, Option<Text>>` keeps it.
#[derive(Debug)]
pub struct ChoiceCriteria {
    entries: Vec<(String, Option<Text>)>,
}

impl ChoiceCriteria {
    #[verifier::type_invariant]
    spec fn well_formed(self) -> bool {
        keys_sorted(self.entries@)
    }
}

/// `entries` list the name `k`.
pub open spec fn lists_key(entries: Seq<(String, Option<Text>)>, k: Seq<char>) -> bool {
    exists|i: int| 0 <= i < entries.len() && #[trigger] entries[i].0@ == k
}

/// A place in `entries` where the name `k` is listed.
pub open spec fn key_index(entries: Seq<(String, Option<Text>)>, k: Seq<char>) -> int {
    choose|i: int| 0 <= i < entries.len() && #[trigger] entries[i].0@ == k
}

/// The map that `entries` list: each name to the description listed with it.
pub open spec fn entries_map(entries: Seq<(String, Option<Text>)>) -> Map<Seq<char>, Option<Text>> {
    Map::new(
        |k: Seq<char>| lists_key(entries, k),
        |k: Seq<char>| entries[key_index(entries, k)].1,
    )
}

impl View for ChoiceCriteria {
    type V = Map<Seq<char>, Option<Text>>;

    closed spec fn view(&self) -> Map<Seq<char>, Option<Text>> {
        entries_map(self.entries@)
    }
}

impl Clone for ChoiceCriteria {
    /// The same options, in the same order, with the same descriptions.
    fn clone(&self) -> (c: ChoiceCriteria)
        ensures
            c@ == self@,
    {
        proof {
            use_type_invariant(self);
        }
        let mut entries: Vec<(String, Option<Text>)> = Vec::new();
        let mut i: usize = 0;
        while i < self.entries.len()
            invariant
                i <= self.entries@.len(),
                entries@ == self.entries@.take(i as int),
            decreases self.entries.len() - i,
        {
            let key = self.entries[i].0.clone();
            let description = clone_optional_text(&self.entries[i].1);
            entries.push((key, description));
            assert(entries@ =~= self.entries@.take(i + 1));
            i += 1;
        }
        assert(entries@ =~= self.entries@);
        ChoiceCriteria { entries }
    }
}

/// Entries that list exactly the keys of `m` with their values give `m` back.
proof fn lemma_entries_map_of_represent(
    entries: Seq<(String, Option<Text>)>,
    m: Map<Seq<char>, Option<Text>>,
)
    requires
        entries_represent(entries, m),
    ensures
        entries_map(entries) == m,
{
    let em = entries_map(entries);
    assert forall|k: Seq<char>| #[trigger] em.contains_key(k) <==> m.contains_key(k) by {
        if em.contains_key(k) {
            let i = key_index(entries, k);
            assert(m.contains_key(entries[i].0@));
        }
    }
    assert forall|k: Seq<char>| #[trigger] em.contains_key(k) implies em[k] == m[k] by {
        let i = key_index(entries, k);
        assert(m[entries[i].0@] == entries[i].1);
    }
    assert(em =~= m);
}

/// Entries with distinct keys list exactly the keys of the map they give.
proof fn lemma_sorted_entries_represent(entries: Seq<(String, Option<Text>)>)
    requires
        keys_sorted(entries),
    ensures
        entries_represent(entries, entries_map(entries)),
{
    let em = entries_map(entries);
    assert forall|n: int| 0 <= n < entries.len() implies em.contains_key(
        #[trigger] entries[n].0@,
    ) && em[entries[n].0@] == entries[n].1 by {
        let k = entries[n].0@;
        assert(lists_key(entries, k));
        let i = key_index(entries, k);
        if i != n {
            lemma_sorted_distinct(entries, i, n);
        }
        assert(em[k] == entries[i].1);
    }
}

/// The map that `options` give when inserted one after the other: where a
/// name comes more than once, its last description wins.
pub open spec fn options_map(options: Seq<(String, Option<Text>)>) -> Map<Seq<char>, Option<Text>>
    decreases options.len(),
{
    if options.len() == 0 {
        Map::empty()
    } else {
        options_map(options.drop_last()).insert(options.last().0@, options.last().1)
    }
}

proof fn lemma_sorted_distinct(entries: Seq<(String, Option<Text>)>, i: int, j: int)
    requires
        keys_sorted(entries),
        0 <= i < entries.len(),
        0 <= j < entries.len(),
        i != j,
    ensures
        entries[i].0@ != entries[j].0@,
{
    if i < j {
        assert(key_lt(entries[i].0@, entries[j].0@));
    } else {
        assert(key_lt(entries[j].0@, entries[i].0@));
    }
    lemma_key_lt_total(entries[i].0@, entries[j].0@);
}

proof fn lemma_insert_sorted(entries: Seq<(String, Option<Text>)>, i: int, e: (String, Option<Text>))
    requires
        keys_sorted(entries),
        0 <= i <= entries.len(),
        forall|j: int| 0 <= j < i ==> key_lt(#[trigger] entries[j].0@, e.0@),
        i < entries.len() ==> key_lt(e.0@, entries[i].0@),
    ensures
        keys_sorted(entries.insert(i, e)),
        forall|j: int| 0 <= j < entries.len() ==> #[trigger] entries[j].0@ != e.0@,
{
    let n = entries.insert(i, e);
    assert forall|j: int| i < j < entries.len() implies key_lt(e.0@, #[trigger] entries[j].0@) by {
        assert(key_lt(entries[i].0@, entries[j].0@));
        lemma_bytes_lt_transitive(
            crate::order::key_bytes(e.0@),
            crate::order::key_bytes(entries[i].0@),
            crate::order::key_bytes(entries[j].0@),
        );
    }
    assert forall|a: int, b: int| 0 <= a < b < n.len() implies key_lt(
        #[trigger] n[a].0@,
        #[trigger] n[b].0@,
    ) by {
        if b < i {
            assert(n[a] == entries[a] && n[b] == entries[b]);
        } else if b == i {
            assert(n[a] == entries[a]);
        } else if a < i {
            assert(n[a] == entries[a] && n[b] == entries[b - 1]);
            if a + 1 == b {
            } else {
                assert(key_lt(entries[a].0@, entries[b - 1].0@));
            }
        } else if a == i {
            assert(n[b] == entries[b - 1]);
        } else {
            assert(n[a] == entries[a - 1] && n[b] == entries[b - 1]);
        }
    }
    assert forall|j: int| 0 <= j < entries.len() implies #[trigger] entries[j].0@ != e.0@ by {
        lemma_key_lt_total(entries[j].0@, e.0@);
    }
}

impl ChoiceCriteria {
    /// No options yet.
    pub fn new() -> (c: ChoiceCriteria)
        ensures
            c@ == Map::<Seq<char>, Option<Text>>::empty(),
    {
        let c = ChoiceCriteria { entries: Vec::new() };
        assert(entries_map(c.entries@) =~= Map::<Seq<char>, Option<Text>>::empty());
        c
    }

    /// Adds the option `key` with `description`; an option of that name
    /// already there has its description replaced.
    pub fn insert(&mut self, key: String, description: Option<Text>)
        ensures
            final(self)@ == old(self)@.insert(key@, description),
    {
        let mut current = ChoiceCriteria::new();
        std::mem::swap(&mut current, self);
        proof {
            use_type_invariant(&current);
        }
        let ChoiceCriteria { entries } = current;
        let mut entries = entries;
        let ghost old_entries = entries@;
        let ghost m = entries_map(old_entries);
        proof {
            lemma_sorted_entries_represent(old_entries);
        }
        let mut i: usize = 0;
        while i < entries.len() && compare_keys(entries[i].0.as_str(), key.as_str())
            == KeyOrder::Before
            invariant
                entries@ == old_entries,
                0 <= i <= entries.len(),
                forall|j: int| 0 <= j < i ==> key_lt(#[trigger] old_entries[j].0@, key@),
            decreases entries.len() - i,
        {
            i += 1;
        }
        let ghost new_map = m.insert(key@, description);
        if i < entries.len() && compare_keys(entries[i].0.as_str(), key.as_str()) == KeyOrder::Same {
            entries.set(i, (key, description));
            proof {
                let n = entries@;
                assert(n[i as int].0@ == old_entries[i as int].0@);
                assert forall|a: int, b: int| 0 <= a < b < n.len() implies key_lt(
                    #[trigger] n[a].0@,
                    #[trigger] n[b].0@,
                ) by {
                    assert(key_lt(old_entries[a].0@, old_entries[b].0@));
                }
                assert forall|j: int| 0 <= j < n.len() implies new_map.contains_key(
                    #[trigger] n[j].0@,
                ) && new_map[n[j].0@] == n[j].1 by {
                    if j != i {
                        lemma_sorted_distinct(old_entries, j, i as int);
                    }
                }
                assert forall|k: Seq<char>| #[trigger] new_map.contains_key(k) implies exists|j: int|
                    0 <= j < n.len() && n[j].0@ == k by {
                    if k == key@ {
                        assert(n[i as int].0@ == k);
                    } else {
                        assert(m.contains_key(k));
                        let j = choose|j: int| 0 <= j < old_entries.len() && old_entries[j].0@ == k;
                        assert(n[j].0@ == k);
                    }
                }
            }
            proof {
                lemma_entries_map_of_represent(entries@, new_map);
            }
            *self = ChoiceCriteria { entries };
        } else {
            proof {
                if i < entries.len() {
                    lemma_key_lt_total(old_entries[i as int].0@, key@);
                }
                lemma_insert_sorted(old_entries, i as int, (key, description));
            }
            let ghost e = (key, description);
            entries.insert(i, (key, description));
            proof {
                let n = entries@;
                assert(n == old_entries.insert(i as int, e));
                assert forall|j: int| 0 <= j < n.len() implies new_map.contains_key(
                    #[trigger] n[j].0@,
                ) && new_map[n[j].0@] == n[j].1 by {
                    if j < i {
                        assert(n[j] == old_entries[j]);
                    } else if j > i {
                        assert(n[j] == old_entries[j - 1]);
                    }
                }
                assert forall|k: Seq<char>| #[trigger] new_map.contains_key(k) implies exists|j: int|
                    0 <= j < n.len() && n[j].0@ == k by {
                    if k == key@ {
                        assert(n[i as int].0@ == k);
                    } else {
                        assert(m.contains_key(k));
                        let j = choose|j: int| 0 <= j < old_entries.len() && old_entries[j].0@ == k;
                        if j < i {
                            assert(n[j].0@ == k);
                        } else {
                            assert(n[j + 1].0@ == k);
                        }
                    }
                }
            }
            proof {
                lemma_entries_map_of_represent(entries@, new_map);
            }
            *self = ChoiceCriteria { entries };
        }
    }

    /// The options with their descriptions, in the order of the names' bytes.
    pub fn entries(&self) -> (entries: &Vec<(String, Option<Text>)>)
        ensures
            keys_sorted(entries@),
            entries_represent(entries@, self@),
    {
        proof {
            use_type_invariant(self);
            lemma_sorted_entries_represent(self.entries@);
        }
        &self.entries
    }

    /// The options with their descriptions, in the order of the names' bytes,
    /// taken out of the criteria.
    pub fn into_entries(self) -> (entries: Vec<(String, Option<Text>)>)
        ensures
            keys_sorted(entries@),
            entries_represent(entries@, self@),
    {
        proof {
            use_type_invariant(&self);
        }
        proof {
            lemma_sorted_entries_represent(self.entries@);
        }
        let ChoiceCriteria { entries } = self;
        entries
    }

    /// The number of options.
    pub fn len(&self) -> (n: usize)
        ensures
            n == self@.len(),
    {
        proof {
            use_type_invariant(self);
            lemma_sorted_entries_represent(self.entries@);
            lemma_entries_len(self.entries@, entries_map(self.entries@));
        }
        self.entries.len()
    }
}

proof fn lemma_entries_len(entries: Seq<(String, Option<Text>)>, m: Map<Seq<char>, Option<Text>>)
    requires
        keys_sorted(entries),
        entries_represent(entries, m),
    ensures
        m.dom().finite(),
        m.len() == entries.len(),
{
    let keys = entries.map_values(|e: (String, Option<Text>)| e.0@);
    assert(m.dom() =~= keys.to_set()) by {
        assert forall|k| m.dom().contains(k) implies keys.to_set().contains(k) by {
            let i = choose|i: int| 0 <= i < entries.len() && entries[i].0@ == k;
            assert(keys[i] == k);
        }
        assert forall|k| keys.to_set().contains(k) implies m.dom().contains(k) by {
            let i = choose|i: int| 0 <= i < keys.len() && keys[i] == k;
            assert(m.contains_key(entries[i].0@));
        }
    }
    assert(keys.no_duplicates()) by {
        assert forall|i: int, j: int| 0 <= i < keys.len() && 0 <= j < keys.len() && i != j implies keys[i]
            != keys[j] by {
            lemma_sorted_distinct(entries, i, j);
        }
    }
    keys.unique_seq_to_set();
}

/// A typed question sent to `POST /v1/systemone`. Every question in a request
/// is evaluated independently against the same `state`.
#[derive(Debug)]
#[allow(inconsistent_fields)]
pub enum Question {
    /// A yes/no question. The answer is the probability the answer is yes.
    Noul { instructions: Text, criteria: Option<NoulCriteria> },
    /// Picks one option from a fixed set (up to 255). `criteria` maps each
    /// option to a rubric description (`None` when it needs no detail).
    Choice { instructions: Text, criteria: ChoiceCriteria },
    /// Rates the state along an ordered rubric (2 to 10 levels).
    Score { instructions: Text, criteria: Vec<Text> },
}

/// A copy of each text of `texts`, in order.
pub fn clone_texts(texts: &Vec<Text>) -> (c: Vec<Text>)
    ensures
        c@ == texts@,
{
    let mut c: Vec<Text> = Vec::new();
    let mut i: usize = 0;
    while i < texts.len()
        invariant
            i <= texts@.len(),
            c@ == texts@.take(i as int),
        decreases texts.len() - i,
    {
        c.push(texts[i].clone());
        assert(c@ =~= texts@.take(i + 1));
        i += 1;
    }
    assert(c@ =~= texts@);
    c
}

impl Clone for Question {
    /// The same question: the same instructions, and the same criteria.
    fn clone(&self) -> (q: Question)
        ensures
            match *self {
                Question::Noul { .. } => q == *self,
                Question::Choice { instructions, criteria } => q matches Question::Choice {
                    instructions: i,
                    criteria: c,
                } && i == instructions && c@ == criteria@,
                Question::Score { instructions, criteria } => q matches Question::Score {
                    instructions: i,
                    criteria: c,
                } && i == instructions && c@ == criteria@,
            },
    {
        match self {
            Question::Noul { instructions, criteria } => Question::Noul {
                instructions: instructions.clone(),
                criteria: match criteria {
                    Some(c) => Some(c.clone()),
                    None => None,
                },
            },
            Question::Choice { instructions, criteria } => Question::Choice {
                instructions: instructions.clone(),
                criteria: criteria.clone(),
            },
            Question::Score { instructions, criteria } => Question::Score {
                instructions: instructions.clone(),
                criteria: clone_texts(criteria),
            },
        }
    }
}

impl Question {
    /// A yes/no question with no criteria.
    pub fn noul(instructions: Text) -> (q: Question)
        ensures
            q == (Question::Noul { instructions, criteria: None }),
    {
        Question::Noul { instructions, criteria: None }
    }

    /// A yes/no question that spells out what `true` and `false` mean.
    pub fn noul_with_criteria(instructions: Text, when_true: Text, when_false: Text) -> (q: Question)
        ensures
            q == (Question::Noul {
                instructions,
                criteria: Some(NoulCriteria { when_true: Some(when_true), when_false: Some(when_false) }),
            }),
    {
        Question::Noul {
            instructions,
            criteria: Some(NoulCriteria { when_true: Some(when_true), when_false: Some(when_false) }),
        }
    }

    /// A choice among `options`, each optionally paired with a rubric
    /// description; where a name comes twice, its last description wins.
    pub fn choice(instructions: Text, options: Vec<(String, Option<Text>)>) -> (q: Question)
        ensures
            q matches Question::Choice { instructions: i, criteria: c } && i == instructions && c@
                == options_map(options@),
    {
        let ghost all = options@;
        let mut rest = options;
        let mut criteria = ChoiceCriteria::new();
        let mut n: usize = 0;
        assert(all.len() == rest.len());
        assert(all.skip(0) =~= all);
        assert(all.take(0) =~= Seq::<(String, Option<Text>)>::empty());
        while rest.len() > 0
            invariant
                n <= all.len(),
                all.len() <= usize::MAX,
                rest@ == all.skip(n as int),
                criteria@ == options_map(all.take(n as int)),
            decreases rest.len(),
        {
            let (key, description) = rest.remove(0);
            proof {
                assert(all.take(n + 1).drop_last() =~= all.take(n as int));
                assert(all.skip(n + 1) =~= all.skip(n as int).remove(0));
            }
            criteria.insert(key, description);
            n += 1;
        }
        assert(all.take(n as int) =~= all);
        Question::Choice { instructions, criteria }
    }

    /// A score along the ordered rubric `levels`.
    pub fn score(instructions: Text, levels: Vec<Text>) -> (q: Question)
        ensures
            q == (Question::Score { instructions, criteria: levels }),
    {
        Question::Score { instructions, criteria: levels }
    }
}

/// Where two options share a name, the one given last decides its
/// description, and the options given earlier keep theirs.
pub proof fn lemma_last_option_wins(options: Seq<(String, Option<Text>)>, i: int)
    requires
        0 <= i < options.len(),
        forall|j: int| i < j < options.len() ==> #[trigger] options[j].0@ != options[i].0@,
    ensures
        options_map(options).contains_key(options[i].0@),
        options_map(options)[options[i].0@] == options[i].1,
    decreases options.len(),
{
    if i < options.len() - 1 {
        lemma_last_option_wins(options.drop_last(), i);
    }
}

/// The names of a choice are exactly the names given among its options.
pub proof fn lemma_options_names(options: Seq<(String, Option<Text>)>, k: Seq<char>)
    ensures
        options_map(options).contains_key(k) <==> exists|i: int|
            0 <= i < options.len() && #[trigger] options[i].0@ == k,
    decreases options.len(),
{
    if options.len() > 0 {
        lemma_options_names(options.drop_last(), k);
        if options_map(options.drop_last()).contains_key(k) {
            let i = choose|i: int| 0 <= i < options.len() - 1 && #[trigger] options.drop_last()[i].0@ == k;
            assert(options[i].0@ == k);
        }
        if exists|i: int| 0 <= i < options.len() && #[trigger] options[i].0@ == k {
            let i = choose|i: int| 0 <= i < options.len() && #[trigger] options[i].0@ == k;
            if i < options.len() - 1 {
                assert(options.drop_last()[i].0@ == k);
            }
        }
    }
}

} // verus!
