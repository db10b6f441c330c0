//! The key map: which key name triggers which command, and how the help pane
//! groups the keys of each command.

use vstd::prelude::*;

use crate::message::{message_named, Message};

verus! {

/// Key names paired with commands, as mathematical values.
pub open spec fn pairs_view(v: Seq<(String, Message)>) -> Seq<(Seq<char>, Message)> {
    v.map_values(|p: (String, Message)| (p.0@, p.1))
}

/// The command bound to `key`: the last entry that names it wins, as when
/// the entries are inserted into a map one after another.
pub open spec fn lookup(entries: Seq<(Seq<char>, Message)>, key: Seq<char>) -> Option<Message>
    decreases entries.len(),
{
    if entries.len() == 0 {
        None
    } else if entries.last().0 == key {
        Some(entries.last().1)
    } else {
        lookup(entries.drop_last(), key)
    }
}

/// The built-in key map.
pub open spec fn default_entries() -> Seq<(Seq<char>, Message)> {
    seq![
        ("esc"@, Message::Quit),
        ("q"@, Message::Quit),
        ("ctrl+c"@, Message::Quit),
        ("ctrl+d"@, Message::Quit),
        ("shift+g"@, Message::LastRow),
        ("g"@, Message::FirstRow),
        ("j"@, Message::NextRow),
        ("k"@, Message::PrevRow),
    ]
}

/// No key is listed twice.
pub open spec fn keys_unique(s: Seq<(Seq<char>, Message)>) -> bool {
    forall|i: int, j: int| 0 <= i < j < s.len() ==> #[trigger] s[i].0 != #[trigger] s[j].0
}

/// The index of the first entry for `key`, if any.
pub open spec fn key_index(s: Seq<(Seq<char>, Message)>, key: Seq<char>) -> Option<int>
    decreases s.len(),
{
    if s.len() == 0 {
        None
    } else {
        match key_index(s.drop_last(), key) {
            Some(j) => Some(j),
            None => if s.last().0 == key {
                Some(s.len() - 1)
            } else {
                None
            },
        }
    }
}

/// The bindings after binding `key` to `m`: the entry for `key` takes the
/// new command, or the binding is added at the end.
pub open spec fn put_binding(s: Seq<(Seq<char>, Message)>, key: Seq<char>, m: Message) -> Seq<
    (Seq<char>, Message),
> {
    match key_index(s, key) {
        Some(j) => s.update(j, (key, m)),
        None => s.push((key, m)),
    }
}

/// The bindings `s` with each key listed once, where it first appears, with
/// the command of its last binding.
pub open spec fn last_bindings(s: Seq<(Seq<char>, Message)>) -> Seq<(Seq<char>, Message)>
    decreases s.len(),
{
    if s.len() == 0 {
        Seq::empty()
    } else {
        put_binding(last_bindings(s.drop_last()), s.last().0, s.last().1)
    }
}

proof fn lemma_key_index(s: Seq<(Seq<char>, Message)>, key: Seq<char>)
    ensures
        match key_index(s, key) {
            Some(j) => 0 <= j < s.len() && s[j].0 == key,
            None => forall|i: int| 0 <= i < s.len() ==> (#[trigger] s[i]).0 != key,
        },
    decreases s.len(),
{
    if s.len() > 0 {
        lemma_key_index(s.drop_last(), key);
        if key_index(s.drop_last(), key) is None {
            assert forall|i: int| 0 <= i < s.len() - 1 implies (#[trigger] s[i]).0 != key by {
                assert(s[i] == s.drop_last()[i]);
            }
        }
    }
}

proof fn lemma_key_index_prefix(s: Seq<(Seq<char>, Message)>, key: Seq<char>, j: int)
    requires
        0 <= j < s.len(),
        key_index(s.take(j), key) is None,
        s[j].0 == key,
    ensures
        key_index(s, key) == Some(j),
    decreases s.len(),
{
    if s.len() - 1 == j {
        assert(s.drop_last() =~= s.take(j));
    } else {
        assert(s.drop_last().take(j) =~= s.take(j));
        lemma_key_index_prefix(s.drop_last(), key, j);
    }
}

proof fn lemma_lookup_at(s: Seq<(Seq<char>, Message)>, j: int)
    requires
        keys_unique(s),
        0 <= j < s.len(),
    ensures
        lookup(s, s[j].0) == Some(s[j].1),
    decreases s.len(),
{
    if j < s.len() - 1 {
        assert(s[j].0 != s[s.len() - 1].0);
        let p = s.drop_last();
        assert(p[j] == s[j]);
        assert(keys_unique(p)) by {
            assert forall|a: int, b: int| 0 <= a < b < p.len() implies #[trigger] p[a].0
                != #[trigger] p[b].0 by {
                assert(p[a] == s[a] && p[b] == s[b]);
            }
        }
        lemma_lookup_at(p, j);
    }
}

proof fn lemma_lookup_absent(s: Seq<(Seq<char>, Message)>, key: Seq<char>)
    requires
        forall|i: int| 0 <= i < s.len() ==> (#[trigger] s[i]).0 != key,
    ensures
        lookup(s, key) is None,
    decreases s.len(),
{
    if s.len() > 0 {
        let p = s.drop_last();
        assert forall|i: int| 0 <= i < p.len() implies (#[trigger] p[i]).0 != key by {
            assert(p[i] == s[i]);
        }
        lemma_lookup_absent(p, key);
    }
}

/// What a key is bound to, for bindings with distinct keys: the command of
/// its entry, or nothing.
proof fn lemma_lookup_unique(s: Seq<(Seq<char>, Message)>, key: Seq<char>)
    requires
        keys_unique(s),
    ensures
        lookup(s, key) == match key_index(s, key) {
            Some(j) => Some(s[j].1),
            None => None::<Message>,
        },
{
    lemma_key_index(s, key);
    match key_index(s, key) {
        Some(j) => lemma_lookup_at(s, j),
        None => lemma_lookup_absent(s, key),
    }
}

proof fn lemma_put_binding(s: Seq<(Seq<char>, Message)>, key: Seq<char>, m: Message)
    requires
        keys_unique(s),
    ensures
        keys_unique(put_binding(s, key, m)),
        forall|k: Seq<char>|
            #[trigger] lookup(put_binding(s, key, m), k) == if k == key {
                Some(m)
            } else {
                lookup(s, k)
            },
{
    let t = put_binding(s, key, m);
    lemma_key_index(s, key);
    assert(t.len() >= s.len());
    assert forall|i: int| 0 <= i < s.len() && t[i].0 != key implies t[i] == s[i] by {}
    assert forall|i: int| 0 <= i < t.len() && (#[trigger] t[i]).0 == key implies key_index(s, key)
        == Some(i) || (key_index(s, key) is None && i == s.len()) by {}
    assert(keys_unique(t)) by {
        assert forall|a: int, b: int| 0 <= a < b < t.len() implies #[trigger] t[a].0
            != #[trigger] t[b].0 by {
            if t[a].0 == key || t[b].0 == key {
            } else {
                assert(t[a] == s[a] && t[b] == s[b]);
            }
        }
    }
    assert forall|k: Seq<char>|
        #[trigger] lookup(t, k) == if k == key {
            Some(m)
        } else {
            lookup(s, k)
        } by {
        lemma_lookup_unique(t, k);
        lemma_lookup_unique(s, k);
        lemma_key_index(t, k);
        lemma_key_index(s, k);
        if k == key {
            match key_index(s, key) {
                Some(j) => lemma_lookup_at(t, j),
                None => lemma_lookup_at(t, s.len() as int),
            }
        } else {
            match key_index(s, k) {
                Some(i) => {
                    assert(t[i] == s[i]);
                    lemma_lookup_at(t, i);
                },
                None => {
                    assert forall|i: int| 0 <= i < t.len() implies (#[trigger] t[i]).0 != k by {
                        if i < s.len() && t[i].0 != key {
                            assert(t[i] == s[i]);
                        }
                    }
                    lemma_lookup_absent(t, k);
                },
            }
        }
    }
}

/// The bindings with each key once have distinct keys and bind every key as
/// the bindings they come from do.
proof fn lemma_last_bindings(s: Seq<(Seq<char>, Message)>)
    ensures
        keys_unique(last_bindings(s)),
        forall|k: Seq<char>| #[trigger] lookup(last_bindings(s), k) == lookup(s, k),
    decreases s.len(),
{
    if s.len() > 0 {
        let p = s.drop_last();
        lemma_last_bindings(p);
        lemma_put_binding(last_bindings(p), s.last().0, s.last().1);
    }
}

/// Binds `key` to `m` in `entries`.
fn put_binding_in(entries: &mut Vec<(String, Message)>, key: String, m: Message)
    ensures
        pairs_view(final(entries)@) == put_binding(pairs_view(old(entries)@), key@, m),
{
    let ghost start = pairs_view(entries@);
    let mut j: usize = 0;
    while j < entries.len()
        invariant
            j <= entries@.len(),
            pairs_view(entries@) == start,
            start == pairs_view(old(entries)@),
            key_index(start.take(j as int), key@) is None,
        decreases entries@.len() - j,
    {
        proof {
            assert(start.take(j + 1).drop_last() =~= start.take(j as int));
        }
        if entries[j].0 == key {
            proof {
                lemma_key_index_prefix(start, key@, j as int);
            }
            entries.set(j, (key, m));
            proof {
                assert(pairs_view(entries@) =~= put_binding(start, key@, m));
            }
            return;
        }
        j = j + 1;
    }
    proof {
        assert(start.take(j as int) =~= start);
    }
    entries.push((key, m));
    proof {
        assert(pairs_view(entries@) =~= start.push((key@, m)));
    }
}

/// A mapping from key names to commands.
#[derive(Clone, Debug)]
pub struct KeyMap {
    entries: Vec<(String, Message)>,
}

impl View for KeyMap {
    type V = Seq<(Seq<char>, Message)>;

    closed spec fn view(&self) -> Seq<(Seq<char>, Message)> {
        pairs_view(self.entries@)
    }
}

impl KeyMap {
    /// A key map with the given bindings. Each key is listed once, where it
    /// first appears, with the command of its last binding.
    pub fn from_entries(entries: Vec<(String, Message)>) -> (r: KeyMap)
        ensures
            r@ == last_bindings(pairs_view(entries@)),
            keys_unique(r@),
            forall|k: Seq<char>| #[trigger] lookup(r@, k) == lookup(pairs_view(entries@), k),
    {
        let ghost input = pairs_view(entries@);
        let mut kept: Vec<(String, Message)> = Vec::new();
        let mut i: usize = 0;
        while i < entries.len()
            invariant
                i <= entries@.len(),
                input == pairs_view(entries@),
                pairs_view(kept@) == last_bindings(input.take(i as int)),
            decreases entries@.len() - i,
        {
            proof {
                assert(input.take(i + 1).drop_last() =~= input.take(i as int));
            }
            put_binding_in(&mut kept, entries[i].0.clone(), entries[i].1);
            i = i + 1;
        }
        proof {
            assert(input.take(i as int) =~= input);
            lemma_last_bindings(input);
        }
        KeyMap { entries: kept }
    }

    /// The key map that the entries of a configuration file (key name,
    /// command name) stand for. Refuses the first entry whose command name is
    /// unknown.
    pub fn from_named(entries: &Vec<(String, String)>) -> (r: Result<KeyMap, ConfigError>)
        ensures
            match r {
                Ok(m) => all_named(entries_view(entries@)) && m@ == last_bindings(
                    bindings_of(entries_view(entries@)),
                ) && keys_unique(m@) && forall|k: Seq<char>|
                    #[trigger] lookup(m@, k) == lookup(bindings_of(entries_view(entries@)), k),
                Err(e) => refusal(entries_view(entries@), e),
            },
    {
        let mut bindings: Vec<(String, Message)> = Vec::new();
        let mut i: usize = 0;
        while i < entries.len()
            invariant
                i <= entries@.len(),
                all_named(entries_view(entries@).take(i as int)),
                pairs_view(bindings@) == bindings_of(entries_view(entries@).take(i as int)),
            decreases entries@.len() - i,
        {
            let ghost seen = entries_view(entries@).take(i as int);
            let key = &entries[i].0;
            let name = &entries[i].1;
            match Message::from_name(name.as_str()) {
                Some(m) => {
                    let ghost before = bindings@;
                    bindings.push((key.clone(), m));
                    proof {
                        let next = entries_view(entries@).take(i + 1);
                        assert(next =~= seen.push((key@, name@)));
                        assert(pairs_view(bindings@) =~= pairs_view(before).push((key@, m)));
                        assert(bindings_of(next) =~= bindings_of(seen).push((key@, m)));
                        assert(all_named(next)) by {
                            assert forall|j: int| 0 <= j < next.len() implies message_named(
                                #[trigger] next[j].1,
                            ) is Some by {
                                if j < i {
                                    assert(next[j] == seen[j]);
                                }
                            }
                        }
                    }
                },
                None => {
                    let e = ConfigError::UnknownMessage { key: key.clone(), name: name.clone() };
                    assert(entries_view(entries@)[i as int] == (key@, name@));
                    assert(refusal_at(entries_view(entries@), e, i as int));
                    return Err(e);
                },
            }
            i = i + 1;
        }
        proof {
            assert(entries_view(entries@).take(i as int) =~= entries_view(entries@));
        }
        Ok(KeyMap::from_entries(bindings))
    }

    /// The built-in key map, used when no configuration file is found.
    pub fn default_keymap() -> (r: KeyMap)
        ensures
            r@ == default_entries(),
            keys_unique(r@),
    {
        proof {
            reveal_strlit("esc");
            reveal_strlit("q");
            reveal_strlit("ctrl+c");
            reveal_strlit("ctrl+d");
            reveal_strlit("shift+g");
            reveal_strlit("g");
            reveal_strlit("j");
            reveal_strlit("k");
            assert("esc"@.len() == 3 && "shift+g"@.len() == 7 && "ctrl+c"@.len() == 6);
            assert("ctrl+c"@[5] != "ctrl+d"@[5]);
            assert("q"@[0] == 'q' && "g"@[0] == 'g' && "j"@[0] == 'j' && "k"@[0] == 'k');
        }
        let mut entries: Vec<(String, Message)> = Vec::new();
        entries.push(("esc".to_owned(), Message::Quit));
        entries.push(("q".to_owned(), Message::Quit));
        entries.push(("ctrl+c".to_owned(), Message::Quit));
        entries.push(("ctrl+d".to_owned(), Message::Quit));
        entries.push(("shift+g".to_owned(), Message::LastRow));
        entries.push(("g".to_owned(), Message::FirstRow));
        entries.push(("j".to_owned(), Message::NextRow));
        entries.push(("k".to_owned(), Message::PrevRow));
        let r = KeyMap { entries };
        assert(r@ =~= default_entries());
        assert forall|a: int, b: int| 0 <= a < b < r@.len() implies #[trigger] r@[a].0
            != #[trigger] r@[b].0 by {
            let ka = r@[a].0;
            let kb = r@[b].0;
            if ka.len() == kb.len() {
                assert(ka[ka.len() - 1] != kb[kb.len() - 1]);
            }
        }
        r
    }

    /// The bindings, in order.
    pub fn entries(&self) -> (r: &Vec<(String, Message)>)
        ensures
            pairs_view(r@) == self@,
    {
        &self.entries
    }

    /// The command bound to the key named `key`.
    pub fn get(&self, key: &str) -> (r: Option<Message>)
        ensures
            r == lookup(self@, key@),
    {
        let wanted = key.to_owned();
        let mut i = self.entries.len();
        assert(self@.take(i as int) =~= self@);
        while i > 0
            invariant
                i <= self.entries@.len(),
                wanted@ == key@,
                lookup(self@, key@) == lookup(self@.take(i as int), key@),
            decreases i,
        {
            proof {
                assert(self@.take(i as int).drop_last() =~= self@.take(i - 1));
            }
            if self.entries[i - 1].0 == wanted {
                return Some(self.entries[i - 1].1);
            }
            i = i - 1;
        }
        None
    }
}

/// Why a configuration was refused.
#[derive(Clone, Debug)]
pub enum ConfigError {
    /// The key map binds a key to a name that is no command.
    UnknownMessage { key: String, name: String },
}

/// The entries of a configuration file, all of whose names are commands.
pub open spec fn all_named(entries: Seq<(Seq<char>, Seq<char>)>) -> bool {
    forall|i: int| 0 <= i < entries.len() ==> message_named(#[trigger] entries[i].1) is Some
}

/// The bindings that a configuration file's entries stand for.
pub open spec fn bindings_of(entries: Seq<(Seq<char>, Seq<char>)>) -> Seq<(Seq<char>, Message)> {
    entries.map_values(|e: (Seq<char>, Seq<char>)| (e.0, message_named(e.1)->0))
}

pub open spec fn entries_view(v: Seq<(String, String)>) -> Seq<(Seq<char>, Seq<char>)> {
    v.map_values(|p: (String, String)| (p.0@, p.1@))
}

/// The error that refuses the entry at index `j`: every entry before it
/// names a command, and it does not.
pub open spec fn refusal_at(entries: Seq<(Seq<char>, Seq<char>)>, e: ConfigError, j: int) -> bool {
    &&& 0 <= j < entries.len()
    &&& all_named(entries.take(j))
    &&& message_named(entries[j].1) is None
    &&& match e {
        ConfigError::UnknownMessage { key, name } => key@ == entries[j].0 && name@ == entries[j].1,
    }
}

/// The error that refuses the first entry that names no command.
pub open spec fn refusal(entries: Seq<(Seq<char>, Seq<char>)>, e: ConfigError) -> bool {
    exists|j: int| refusal_at(entries, e, j)
}

/// The viewer's configuration.
#[derive(Clone, Debug)]
pub struct AppConfig {
    keymap: KeyMap,
}

impl AppConfig {
    pub closed spec fn keymap_view(&self) -> Seq<(Seq<char>, Message)> {
        self.keymap@
    }

    /// Builds the configuration from the key map entries of a configuration
    /// file (key name, command name), or from the built-in key map when there
    /// is no file. Refuses the first entry whose command name is unknown.
    pub fn new(loaded: Option<Vec<(String, String)>>) -> (r: Result<AppConfig, ConfigError>)
        ensures
            match loaded {
                None => r matches Ok(c) && c.keymap_view() == default_entries(),
                Some(entries) => match r {
                    Ok(c) => all_named(entries_view(entries@)) && c.keymap_view() == last_bindings(
                        bindings_of(entries_view(entries@)),
                    ),
                    Err(e) => refusal(entries_view(entries@), e),
                },
            },
    {
        match loaded {
            None => Ok(AppConfig::default_config()),
            Some(entries) => match KeyMap::from_named(&entries) {
                Ok(keymap) => Ok(AppConfig { keymap }),
                Err(e) => Err(e),
            },
        }
    }

    /// The configuration with the built-in key map.
    pub fn default_config() -> (r: AppConfig)
        ensures
            r.keymap_view() == default_entries(),
    {
        AppConfig { keymap: KeyMap::default_keymap() }
    }

    /// The key map.
    pub fn keymap(&self) -> (r: &KeyMap)
        ensures
            r@ == self.keymap_view(),
    {
        &self.keymap
    }
}

/// What `str::to_uppercase` yields for `s`.
pub uninterp spec fn upper_of(s: Seq<char>) -> Seq<char>;

/// Relies on `str::to_uppercase`: the uppercase mapping of the string, which
/// depends on its characters alone.
#[verifier::external_body]
fn to_uppercase(s: &str) -> (r: String)
    ensures
        r@ == upper_of(s@),
{
    s.to_uppercase()
}

/// The index of the first group of `groups` that belongs to `m`, if any.
pub open spec fn group_of(groups: Seq<(Seq<char>, Message)>, m: Message) -> Option<int>
    decreases groups.len(),
{
    if groups.len() == 0 {
        None
    } else {
        match group_of(groups.drop_last(), m) {
            Some(j) => Some(j),
            None => if groups.last().1 == m {
                Some(groups.len() - 1)
            } else {
                None
            },
        }
    }
}

/// The groups after one more key of command `m`: the key joins the group of
/// `m` after a `" | "`, or starts a new group at the end.
pub open spec fn add_to_groups(groups: Seq<(Seq<char>, Message)>, key: Seq<char>, m: Message) -> Seq<
    (Seq<char>, Message),
> {
    match group_of(groups, m) {
        Some(j) => groups.update(j, (groups[j].0 + " | "@ + key, m)),
        None => groups.push((key, m)),
    }
}

/// The keys of each command, uppercased and joined with `" | "`, one group
/// per command in the order in which the commands first appear.
pub open spec fn grouped_keys(entries: Seq<(Seq<char>, Message)>) -> Seq<(Seq<char>, Message)>
    decreases entries.len(),
{
    if entries.len() == 0 {
        Seq::empty()
    } else {
        add_to_groups(grouped_keys(entries.drop_last()), upper_of(entries.last().0), entries.last().1)
    }
}

/// Adds the key `key` (already in its display form) of command `m` to the
/// help groups.
pub fn add_key_to_group(groups: &mut Vec<(String, Message)>, key: String, m: Message)
    ensures
        pairs_view(final(groups)@) == add_to_groups(pairs_view(old(groups)@), key@, m),
{
    let ghost start = pairs_view(groups@);
    let mut j: usize = 0;
    while j < groups.len()
        invariant
            j <= groups@.len(),
            pairs_view(groups@) == start,
            start == pairs_view(old(groups)@),
            group_of(start.take(j as int), m) is None,
        decreases groups@.len() - j,
    {
        proof {
            assert(start.take(j + 1).drop_last() =~= start.take(j as int));
        }
        if groups[j].1 == m {
            proof {
                lemma_group_of_prefix(start, m, j as int);
            }
            let mut joined = groups[j].0.clone();
            joined.append(" | ");
            joined.append(key.as_str());
            groups.set(j, (joined, m));
            proof {
                assert(pairs_view(groups@) =~= add_to_groups(start, key@, m));
            }
            return;
        }
        j = j + 1;
    }
    proof {
        assert(start.take(j as int) =~= start);
    }
    groups.push((key, m));
    proof {
        assert(pairs_view(groups@) =~= start.push((key@, m)));
    }
}

/// Where no group of the first `j` belongs to `m` and group `j` does, group
/// `j` is the group of `m`.
proof fn lemma_group_of_prefix(groups: Seq<(Seq<char>, Message)>, m: Message, j: int)
    requires
        0 <= j < groups.len(),
        group_of(groups.take(j), m) is None,
        groups[j].1 == m,
    ensures
        group_of(groups, m) == Some(j),
    decreases groups.len(),
{
    if groups.len() - 1 == j {
        assert(groups.drop_last() =~= groups.take(j));
    } else {
        assert(groups.drop_last().take(j) =~= groups.take(j));
        lemma_group_of_prefix(groups.drop_last(), m, j);
    }
}

/// The help pane's rows: the keys of each command of the key map,
/// uppercased and joined with `" | "`, one row per command in the order in
/// which the commands first appear.
pub fn combine_keys_by_value(map: &KeyMap) -> (r: Vec<(String, Message)>)
    ensures
        pairs_view(r@) == grouped_keys(map@),
{
    let entries = map.entries();
    let mut groups: Vec<(String, Message)> = Vec::new();
    let mut i: usize = 0;
    while i < entries.len()
        invariant
            i <= entries@.len(),
            pairs_view(entries@) == map@,
            pairs_view(groups@) == grouped_keys(map@.take(i as int)),
        decreases entries@.len() - i,
    {
        proof {
            assert(map@.take(i + 1).drop_last() =~= map@.take(i as int));
        }
        let upper = to_uppercase(entries[i].0.as_str());
        add_key_to_group(&mut groups, upper, entries[i].1);
        i = i + 1;
    }
    proof {
        assert(map@.take(i as int) =~= map@);
    }
    groups
}

/// The length in bytes of a string's UTF-8 encoding.
pub open spec fn byte_len(s: Seq<char>) -> nat {
    vstd::utf8::encode_utf8(s).len()
}

/// The longest key text of the help rows, in bytes.
pub open spec fn longest_keys(rows: Seq<(Seq<char>, Message)>) -> nat
    decreases rows.len(),
{
    if rows.len() == 0 {
        0
    } else {
        let before = longest_keys(rows.drop_last());
        let last = byte_len(rows.last().0);
        if before >= last {
            before
        } else {
            last
        }
    }
}

/// The width of the key column of the help pane: the longest key text, in
/// bytes. There must be at least one row, and every key text must fit in a
/// `u16`.
pub fn longest_combined_keymap(combined_keymaps: &Vec<(String, Message)>) -> (r: u16)
    requires
        combined_keymaps@.len() > 0,
        forall|i: int|
            0 <= i < combined_keymaps@.len() ==> byte_len(#[trigger] combined_keymaps@[i].0@)
                <= u16::MAX,
    ensures
        r == longest_keys(pairs_view(combined_keymaps@)),
{
    let ghost rows = pairs_view(combined_keymaps@);
    let mut longest: u16 = 0;
    let mut i: usize = 0;
    while i < combined_keymaps.len()
        invariant
            i <= combined_keymaps@.len(),
            rows == pairs_view(combined_keymaps@),
            longest == longest_keys(rows.take(i as int)),
            forall|k: int|
                0 <= k < combined_keymaps@.len() ==> byte_len(#[trigger] combined_keymaps@[k].0@)
                    <= u16::MAX,
        decreases combined_keymaps@.len() - i,
    {
        proof {
            assert(rows.take(i + 1).drop_last() =~= rows.take(i as int));
        }
        let len = combined_keymaps[i].0.as_str().len();
        assert(len == byte_len(combined_keymaps@[i as int].0@));
        if len as u16 > longest {
            longest = len as u16;
        }
        i = i + 1;
    }
    proof {
        assert(rows.take(i as int) =~= rows);
    }
    longest
}

} // verus!
