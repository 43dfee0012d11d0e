//! The settings map shared by the submission path and the control channel.
use vstd::prelude::*;
use vstd::string::StringExecFns;
use crate::layout::text;

verus! {

/// Hard-coded value of `max_characters` where none is stored.
pub const DEFAULT_MAX_CHARACTERS: i64 = 160;

/// Hard-coded value of `max_sentences_per_csv` where none is stored.
pub const DEFAULT_MAX_SENTENCES: usize = 100;

/// A stored value: an integer, a string, or any other JSON value as its text.
pub enum SettingValue {
    Int(i64),
    Text(String),
    Other(String),
}

pub enum SettingView {
    Int(int),
    Text(Seq<char>),
    Other(Seq<char>),
}

impl View for SettingValue {
    type V = SettingView;

    open spec fn view(&self) -> SettingView {
        match self {
            SettingValue::Int(n) => SettingView::Int(*n as int),
            SettingValue::Text(s) => SettingView::Text(s@),
            SettingValue::Other(s) => SettingView::Other(s@),
        }
    }
}

impl SettingValue {
    pub fn duplicate(&self) -> (r: SettingValue)
        ensures
            r@ == self@,
    {
        match self {
            SettingValue::Int(n) => SettingValue::Int(*n),
            SettingValue::Text(s) => SettingValue::Text(s.clone()),
            SettingValue::Other(s) => SettingValue::Other(s.clone()),
        }
    }
}

pub open spec fn max_characters_key() -> Seq<char> {
    text("max_characters")
}

pub open spec fn max_sentences_key() -> Seq<char> {
    text("max_sentences_per_csv")
}

pub open spec fn osc_address_key() -> Seq<char> {
    text("td_osc_address")
}

/// The map that a list of entries stands for: a later entry of a key wins.
pub open spec fn map_of(s: Seq<(String, SettingValue)>) -> Map<Seq<char>, SettingView>
    decreases s.len(),
{
    if s.len() == 0 {
        Map::empty()
    } else {
        map_of(s.drop_last()).insert(s.last().0@, s.last().1@)
    }
}

/// The map after start-up repair: each recognised numeric key that is
/// absent gets its default; present keys keep their values.
pub open spec fn with_defaults(m: Map<Seq<char>, SettingView>) -> Map<Seq<char>, SettingView> {
    let m1 = if m.contains_key(max_characters_key()) {
        m
    } else {
        m.insert(max_characters_key(), SettingView::Int(DEFAULT_MAX_CHARACTERS as int))
    };
    if m1.contains_key(max_sentences_key()) {
        m1
    } else {
        m1.insert(max_sentences_key(), SettingView::Int(DEFAULT_MAX_SENTENCES as int))
    }
}

/// The row cap: the stored `max_sentences_per_csv` where it is an integer
/// of at least 1 that fits a `usize`, else the default.
pub open spec fn cap_of(m: Map<Seq<char>, SettingView>) -> nat {
    if m.contains_key(max_sentences_key()) {
        match m[max_sentences_key()] {
            SettingView::Int(n) => if 1 <= n <= usize::MAX {
                n as nat
            } else {
                DEFAULT_MAX_SENTENCES as nat
            },
            _ => DEFAULT_MAX_SENTENCES as nat,
        }
    } else {
        DEFAULT_MAX_SENTENCES as nat
    }
}

/// Where notifications go: the stored `td_osc_address` where it is a string.
pub open spec fn target_of(m: Map<Seq<char>, SettingView>) -> Option<Seq<char>> {
    if m.contains_key(osc_address_key()) {
        match m[osc_address_key()] {
            SettingView::Text(a) => Some(a),
            _ => None,
        }
    } else {
        None
    }
}

proof fn lemma_map_of_last(s: Seq<(String, SettingValue)>, i: int, k: Seq<char>)
    requires
        0 <= i < s.len(),
        s[i].0@ == k,
        forall|j: int| i < j < s.len() ==> (#[trigger] s[j]).0@ != k,
    ensures
        map_of(s).contains_key(k),
        map_of(s)[k] == s[i].1@,
    decreases s.len(),
{
    if i < s.len() - 1 {
        assert(s.drop_last()[i] == s[i]);
        assert forall|j: int| i < j < s.drop_last().len() implies (#[trigger] s.drop_last()[j]).0@ != k by {
            assert(s.drop_last()[j] == s[j]);
        }
        lemma_map_of_last(s.drop_last(), i, k);
        assert(s[s.len() - 1].0@ != k);
    }
}

proof fn lemma_map_of_absent(s: Seq<(String, SettingValue)>, k: Seq<char>)
    requires
        forall|j: int| 0 <= j < s.len() ==> (#[trigger] s[j]).0@ != k,
    ensures
        !map_of(s).contains_key(k),
    decreases s.len(),
{
    if s.len() > 0 {
        assert forall|j: int| 0 <= j < s.drop_last().len() implies (#[trigger] s.drop_last()[j]).0@ != k by {
            assert(s.drop_last()[j] == s[j]);
        }
        lemma_map_of_absent(s.drop_last(), k);
        assert(s[s.len() - 1].0@ != k);
    }
}

proof fn lemma_map_of_update(s: Seq<(String, SettingValue)>, i: int, e: (String, SettingValue))
    requires
        0 <= i < s.len(),
        s[i].0@ == e.0@,
        forall|j: int| i < j < s.len() ==> (#[trigger] s[j]).0@ != e.0@,
    ensures
        map_of(s.update(i, e)) =~= map_of(s).insert(e.0@, e.1@),
    decreases s.len(),
{
    let t = s.update(i, e);
    if i == s.len() - 1 {
        assert(t.drop_last() =~= s.drop_last());
    } else {
        assert(t.drop_last() =~= s.drop_last().update(i, e));
        assert forall|j: int| i < j < s.drop_last().len() implies (#[trigger] s.drop_last()[j]).0@ != e.0@ by {
            assert(s.drop_last()[j] == s[j]);
        }
        lemma_map_of_update(s.drop_last(), i, e);
        assert(s[s.len() - 1].0@ != e.0@);
    }
}

/// The settings: string keys with JSON-typed values.
pub struct Settings {
    entries: Vec<(String, SettingValue)>,
}

impl View for Settings {
    type V = Map<Seq<char>, SettingView>;

    closed spec fn view(&self) -> Map<Seq<char>, SettingView> {
        map_of(self.entries@)
    }
}

impl Settings {
    pub fn new() -> (r: Settings)
        ensures
            r@ == Map::<Seq<char>, SettingView>::empty(),
    {
        Settings { entries: Vec::new() }
    }

    /// Index of the last entry of `key`, if any.
    fn find(&self, key: &str) -> (r: Option<usize>)
        ensures
            match r {
                Some(i) => i < self.entries@.len() && self.entries@[i as int].0@ == key@
                    && forall|j: int| i < j < self.entries@.len() ==> (#[trigger] self.entries@[j]).0@ != key@,
                None => forall|j: int| 0 <= j < self.entries@.len() ==> (#[trigger] self.entries@[j]).0@ != key@,
            },
    {
        let k = String::from_str(key);
        let mut i: usize = self.entries.len();
        while i > 0
            invariant
                i <= self.entries@.len(),
                k@ == key@,
                forall|j: int| i <= j < self.entries@.len() ==> (#[trigger] self.entries@[j]).0@ != key@,
            decreases i,
        {
            if self.entries[i - 1].0 == k {
                return Some(i - 1);
            }
            i = i - 1;
        }
        None
    }

    /// The value stored under `key`.
    pub fn get(&self, key: &str) -> (r: Option<&SettingValue>)
        ensures
            match r {
                Some(v) => self@.contains_key(key@) && self@[key@] == v@,
                None => !self@.contains_key(key@),
            },
    {
        match self.find(key) {
            Some(i) => {
                proof {
                    lemma_map_of_last(self.entries@, i as int, key@);
                }
                Some(&self.entries[i].1)
            },
            None => {
                proof {
                    lemma_map_of_absent(self.entries@, key@);
                }
                None
            },
        }
    }

    /// Whether a value is stored under `key`.
    pub fn has(&self, key: &str) -> (r: bool)
        ensures
            r == self@.contains_key(key@),
    {
        self.get(key).is_some()
    }

    /// Stores `value` under `key`, in place of any earlier value.
    pub fn insert(&mut self, key: &str, value: SettingValue)
        ensures
            final(self)@ == old(self)@.insert(key@, value@),
    {
        match self.find(key) {
            Some(i) => {
                let ghost s = self.entries@;
                let e = (String::from_str(key), value);
                proof {
                    lemma_map_of_update(s, i as int, e);
                }
                self.entries.set(i, e);
                assert(self.entries@ == s.update(i as int, e));
            },
            None => {
                let ghost s = self.entries@;
                self.entries.push((String::from_str(key), value));
                assert(self.entries@.drop_last() =~= s);
            },
        }
    }

    /// All entries; where a key stood twice, the later entry holds its value.
    pub fn entries(&self) -> (r: &Vec<(String, SettingValue)>)
        ensures
            map_of(r@) == self@,
    {
        &self.entries
    }

    /// Settings holding the given entries (a later entry of a key wins).
    pub fn from_entries(entries: Vec<(String, SettingValue)>) -> (r: Settings)
        ensures
            r@ == map_of(entries@),
    {
        let mut r = Settings::new();
        let mut i: usize = 0;
        while i < entries.len()
            invariant
                i <= entries@.len(),
                r@ == map_of(entries@.subrange(0, i as int)),
            decreases entries.len() - i,
        {
            let v = entries[i].1.duplicate();
            r.insert(entries[i].0.as_str(), v);
            assert(entries@.subrange(0, i + 1).drop_last() =~= entries@.subrange(0, i as int));
            i = i + 1;
        }
        assert(entries@.subrange(0, entries.len() as int) =~= entries@);
        r
    }

    /// Start-up repair: stores the default of each recognised numeric key
    /// that has no value, and leaves every stored value as it is.
    pub fn init_defaults(&mut self)
        ensures
            final(self)@ == with_defaults(old(self)@),
    {
        if !self.has("max_characters") {
            self.insert("max_characters", SettingValue::Int(DEFAULT_MAX_CHARACTERS));
        }
        if !self.has("max_sentences_per_csv") {
            self.insert("max_sentences_per_csv", SettingValue::Int(DEFAULT_MAX_SENTENCES as i64));
        }
    }

    /// The row cap of the hot file.
    pub fn row_cap(&self) -> (r: usize)
        ensures
            r as nat == cap_of(self@),
    {
        match self.get("max_sentences_per_csv") {
            Some(SettingValue::Int(n)) => if 1 <= *n && (*n as u64) <= (usize::MAX as u64) {
                *n as usize
            } else {
                DEFAULT_MAX_SENTENCES
            },
            _ => DEFAULT_MAX_SENTENCES,
        }
    }

    /// Where notifications of new rows go, if anywhere.
    pub fn notification_target(&self) -> (r: Option<String>)
        ensures
            match r {
                Some(a) => target_of(self@) == Some(a@),
                None => target_of(self@) is None,
            },
    {
        match self.get("td_osc_address") {
            Some(SettingValue::Text(a)) => Some(a.clone()),
            _ => None,
        }
    }
}

/// Start-up repair can run any number of times: a second run changes
/// nothing, and no run replaces a value that was already stored.
pub proof fn lemma_init_idempotent(m: Map<Seq<char>, SettingView>)
    ensures
        with_defaults(with_defaults(m)) == with_defaults(m),
        forall|k: Seq<char>| m.contains_key(k) ==> #[trigger] with_defaults(m).contains_key(k)
            && with_defaults(m)[k] == m[k],
{
    assert(max_characters_key() != max_sentences_key()) by {
        reveal_strlit("max_characters");
        reveal_strlit("max_sentences_per_csv");
        assert(max_characters_key().len() != max_sentences_key().len());
    }
}

} // verus!
