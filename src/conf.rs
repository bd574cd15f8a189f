//! The configuration resource: string keys mapped to string values, which
//! compilation and execution consult for optional behaviours.
use vstd::prelude::*;

use crate::text::same_text;

verus! {

/// The mapping that a sequence of settings leaves: a later setting of a key
/// overrides an earlier one.
pub open spec fn settings_map(s: Seq<(Seq<char>, Seq<char>)>) -> Map<Seq<char>, Seq<char>>
    decreases s.len(),
{
    if s.len() == 0 {
        Map::empty()
    } else {
        settings_map(s.drop_last()).insert(s.last().0, s.last().1)
    }
}

/// The settings of `entries` as text.
pub open spec fn entries_text(entries: Seq<(String, String)>) -> Seq<(Seq<char>, Seq<char>)> {
    entries.map_values(|e: (String, String)| (e.0@, e.1@))
}

/// If no setting of `s` names `k`, `k` is absent; otherwise the setting
/// closest to the end gives its value.
proof fn lemma_settings_lookup(s: Seq<(Seq<char>, Seq<char>)>, k: Seq<char>, i: int)
    requires
        -1 <= i < s.len(),
        forall|j: int| i < j < s.len() ==> s[j].0 != k,
        i >= 0 ==> s[i].0 == k,
    ensures
        i < 0 ==> !settings_map(s).contains_key(k),
        i >= 0 ==> settings_map(s).contains_key(k) && settings_map(s)[k] == s[i].1,
    decreases s.len(),
{
    if s.len() > 0 && i < s.len() - 1 {
        lemma_settings_lookup(s.drop_last(), k, i);
    }
}

/// Setting `k` over a position that holds the last setting of `k` is the same
/// as setting it anew.
proof fn lemma_settings_overwrite(
    s: Seq<(Seq<char>, Seq<char>)>,
    i: int,
    k: Seq<char>,
    v: Seq<char>,
)
    requires
        0 <= i < s.len(),
        s[i].0 == k,
        forall|j: int| i < j < s.len() ==> s[j].0 != k,
    ensures
        settings_map(s.update(i, (k, v))) == settings_map(s).insert(k, v),
    decreases s.len(),
{
    let t = s.update(i, (k, v));
    if i == s.len() - 1 {
        assert(t.drop_last() =~= s.drop_last());
        assert(settings_map(s).insert(k, v) =~= settings_map(s.drop_last()).insert(k, v));
    } else {
        assert(t.drop_last() =~= s.drop_last().update(i, (k, v)));
        lemma_settings_overwrite(s.drop_last(), i, k, v);
        assert(settings_map(t) =~= settings_map(s).insert(k, v));
    }
}

/// A configuration, kept as the settings made on it; setting a key again
/// overwrites its earlier setting in place.
pub struct Configuration {
    entries: Vec<(String, String)>,
}

impl View for Configuration {
    type V = Map<Seq<char>, Seq<char>>;

    closed spec fn view(&self) -> Map<Seq<char>, Seq<char>> {
        settings_map(entries_text(self.entries@))
    }
}

impl Configuration {
    /// The last position of a setting of `key`, if any.
    fn find(&self, key: &str) -> (r: Option<usize>)
        ensures
            r matches Some(i) ==> i < self.entries@.len() && self.entries@[i as int].0@ == key@,
            forall|j: int|
                r.unwrap_or(0) <= j < self.entries@.len() && (r is None || j > r.unwrap())
                    ==> #[trigger] self.entries@[j].0@ != key@,
    {
        let mut i: usize = self.entries.len();
        while i > 0
            invariant
                i <= self.entries@.len(),
                forall|j: int| i <= j < self.entries@.len() ==> #[trigger] self.entries@[j].0@ != key@,
            decreases i,
        {
            if same_text(self.entries[i - 1].0.as_str(), key) {
                return Some(i - 1);
            }
            i = i - 1;
        }
        None
    }

    /// A configuration with no keys set.
    pub fn conf_new() -> (r: Configuration)
        ensures
            r@ == Map::<Seq<char>, Seq<char>>::empty(),
    {
        Configuration { entries: Vec::new() }
    }

    /// The value of `key`, or `None` when it was never set; a key set to the
    /// empty text gives `Some` of it.
    pub fn conf_get(&self, key: &str) -> (r: Option<String>)
        ensures
            r is Some == self@.contains_key(key@),
            r matches Some(v) ==> v@ == self@[key@],
    {
        let ghost s = entries_text(self.entries@);
        match self.find(key) {
            Some(i) => {
                proof {
                    lemma_settings_lookup(s, key@, i as int);
                }
                Some(self.entries[i].1.clone())
            },
            None => {
                proof {
                    lemma_settings_lookup(s, key@, -1);
                }
                None
            },
        }
    }

    /// The settings made, oldest first; applying them in order gives this
    /// configuration.
    pub fn settings(&self) -> (r: &Vec<(String, String)>)
        ensures
            settings_map(entries_text(r@)) == self@,
    {
        &self.entries
    }

    /// Sets `key` to `value`, replacing what it held.
    pub fn conf_set(&mut self, key: &str, value: &str)
        ensures
            final(self)@ == old(self)@.insert(key@, value@),
    {
        let ghost s = entries_text(self.entries@);
        let entry = (key.to_string(), value.to_string());
        match self.find(key) {
            Some(i) => {
                self.entries.set(i, entry);
                proof {
                    lemma_settings_overwrite(s, i as int, key@, value@);
                    assert(entries_text(self.entries@) =~= s.update(i as int, (key@, value@)));
                }
            },
            None => {
                self.entries.push(entry);
                proof {
                    assert(entries_text(self.entries@) =~= s.push((key@, value@)));
                    assert(s.push((key@, value@)).drop_last() =~= s);
                }
            },
        }
    }
}

/// Reading a key right after setting it gives exactly the value set, even
/// when that value is empty.
pub proof fn lemma_get_after_set(conf: Configuration, key: Seq<char>, value: Seq<char>)
    ensures
        conf@.insert(key, value).contains_key(key),
        conf@.insert(key, value)[key] == value,
{
}

/// A configuration that only ever had other keys set reads a key as absent,
/// which is distinct from any value, the empty one included.
pub proof fn lemma_never_set_is_absent(settings: Seq<(Seq<char>, Seq<char>)>, key: Seq<char>)
    requires
        forall|i: int| 0 <= i < settings.len() ==> settings[i].0 != key,
    ensures
        !settings_map(settings).contains_key(key),
{
    lemma_settings_lookup(settings, key, -1);
}

} // verus!
