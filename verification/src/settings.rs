//! Engine settings: a tree of named values addressed by dot-separated paths
//! such as `"window.width"`, read from and written back to `config.json`.
//!
//! The leaves are whatever the configuration format holds; this module only
//! walks and edits the objects between them, keeping each object's keys in
//! the order they were read or first set.

use vstd::prelude::*;
use vstd::string::*;

verus! {

/// `path` cut at every `.`, like `str::split('.')`: an empty path is one
/// empty segment, and neighbouring dots give an empty segment between them.
pub open spec fn split_dots(path: Seq<char>) -> Seq<Seq<char>>
    decreases path.len(),
{
    if path.len() == 0 {
        seq![Seq::<char>::empty()]
    } else {
        let before = split_dots(path.drop_last());
        if path.last() == '.' {
            before.push(Seq::<char>::empty())
        } else {
            before.update(before.len() - 1, before.last().push(path.last()))
        }
    }
}

/// `split_dots` always yields at least one segment.
pub proof fn lemma_split_dots_nonempty(path: Seq<char>)
    ensures
        split_dots(path).len() >= 1,
    decreases path.len(),
{
    if path.len() > 0 {
        lemma_split_dots_nonempty(path.drop_last());
    }
}

/// The segments of `path`, each a key: `"window.width"` is `["window", "width"]`.
pub fn split_path(path: &str) -> (keys: Vec<String>)
    ensures
        keys@.map_values(|k: String| k@) == split_dots(path@),
        keys@.len() >= 1,
{
    let len: usize = path.unicode_len();
    let mut keys: Vec<String> = Vec::new();
    let mut start: usize = 0;
    let mut i: usize = 0;
    proof {
        assert(path@.take(0) =~= Seq::<char>::empty());
        assert(path@.subrange(0, 0) =~= Seq::<char>::empty());
        assert(keys@.map_values(|k: String| k@) =~= Seq::<Seq<char>>::empty());
        assert(keys@.map_values(|k: String| k@).push(path@.subrange(0, 0)) =~= split_dots(path@.take(0)));
    }
    while i < len
        invariant
            len == path@.len(),
            0 <= start <= i <= len,
            keys@.map_values(|k: String| k@).push(path@.subrange(start as int, i as int)) == split_dots(
                path@.take(i as int),
            ),
        decreases len - i,
    {
        let c: char = path.get_char(i);
        let ghost prev = path@.take(i as int);
        proof {
            assert(path@.take(i + 1).drop_last() =~= prev);
            assert(path@.take(i + 1).last() == c);
            lemma_split_dots_nonempty(prev);
        }
        if c == '.' {
            let segment: String = path.substring_char(start, i).to_owned();
            keys.push(segment);
            start = i + 1;
            proof {
                assert(path@.subrange(start as int, i + 1) =~= Seq::<char>::empty());
                assert(keys@.map_values(|k: String| k@) =~= split_dots(prev));
            }
        } else {
            proof {
                let segs = keys@.map_values(|k: String| k@);
                assert(path@.subrange(start as int, i + 1) =~= path@.subrange(start as int, i as int).push(c));
                assert(segs.push(path@.subrange(start as int, i + 1)) =~= split_dots(prev).update(
                    split_dots(prev).len() - 1,
                    split_dots(prev).last().push(c),
                ));
            }
        }
        i = i + 1;
    }
    let last: String = path.substring_char(start, len).to_owned();
    keys.push(last);
    proof {
        assert(path@.take(len as int) =~= path@);
        assert(keys@.map_values(|k: String| k@) =~= split_dots(path@));
    }
    keys
}

/// A settings value: a leaf the configuration format holds, or an object of
/// named values in the order their keys were read or first set.
pub enum SettingsValue<L> {
    Leaf(L),
    Object(Vec<(String, SettingsValue<L>)>),
}

/// The position of the first entry named `key`, or `-1` if none is.
pub open spec fn member_index<L>(entries: Seq<(String, SettingsValue<L>)>, key: Seq<char>) -> int
    decreases entries.len(),
{
    if entries.len() == 0 {
        -1
    } else {
        let before = member_index(entries.drop_last(), key);
        if before >= 0 {
            before
        } else if entries.last().0@ == key {
            entries.len() - 1
        } else {
            -1
        }
    }
}

/// [`member_index`] finds the first entry named `key`, and `-1` means no
/// entry is named `key`.
pub proof fn lemma_member_index<L>(entries: Seq<(String, SettingsValue<L>)>, key: Seq<char>)
    ensures
        -1 <= member_index(entries, key) < entries.len(),
        member_index(entries, key) >= 0 ==> entries[member_index(entries, key)].0@ == key,
        forall|i: int| 0 <= i < entries.len() && (member_index(entries, key) == -1 || i < member_index(entries, key))
            ==> #[trigger] entries[i].0@ != key,
    decreases entries.len(),
{
    if entries.len() > 0 {
        lemma_member_index(entries.drop_last(), key);
        let before = entries.drop_last();
        assert forall|i: int| 0 <= i < entries.len() && (member_index(entries, key) == -1 || i < member_index(entries, key))
            implies #[trigger] entries[i].0@ != key by {
            if i < entries.len() - 1 {
                assert(entries[i] == before[i]);
            }
        }
        if member_index(before, key) >= 0 {
            assert(entries[member_index(before, key)] == before[member_index(before, key)]);
        }
    }
}

/// The entries of `node` if it is an object, none otherwise.
pub open spec fn entries_of<L>(node: SettingsValue<L>) -> Seq<(String, SettingsValue<L>)> {
    match node {
        SettingsValue::Object(entries) => entries@,
        SettingsValue::Leaf(_) => Seq::empty(),
    }
}

/// The keys of `node` in order, none if it is not an object.
pub open spec fn keys_of<L>(node: SettingsValue<L>) -> Seq<Seq<char>> {
    entries_of(node).map_values(|entry: (String, SettingsValue<L>)| entry.0@)
}

/// The value named `key` directly inside `node`.
pub open spec fn child<L>(node: SettingsValue<L>, key: Seq<char>) -> Option<SettingsValue<L>> {
    let index = member_index(entries_of(node), key);
    if index >= 0 {
        Some(entries_of(node)[index].1)
    } else {
        None
    }
}

/// The value reached from `node` by following `keys` one object at a time,
/// `None` as soon as a key is missing or a value on the way is not an object.
pub open spec fn lookup<L>(node: SettingsValue<L>, keys: Seq<Seq<char>>) -> Option<SettingsValue<L>>
    decreases keys.len(),
{
    if keys.len() == 0 {
        Some(node)
    } else {
        match child(node, keys[0]) {
            Some(next) => lookup(next, keys.drop_first()),
            None => None,
        }
    }
}

/// `prefix` is a prefix of `keys`.
pub open spec fn is_prefix(prefix: Seq<Seq<char>>, keys: Seq<Seq<char>>) -> bool {
    prefix.len() <= keys.len() && keys.take(prefix.len() as int) == prefix
}

/// Following `first` then `second` is following `first + second`.
pub proof fn lemma_lookup_append<L>(node: SettingsValue<L>, first: Seq<Seq<char>>, second: Seq<Seq<char>>)
    ensures
        lookup(node, first + second) == match lookup(node, first) {
            Some(reached) => lookup(reached, second),
            None => None,
        },
    decreases first.len(),
{
    if first.len() > 0 {
        assert((first + second).drop_first() =~= first.drop_first() + second);
        assert((first + second)[0] == first[0]);
        match child(node, first[0]) {
            Some(next) => lemma_lookup_append(next, first.drop_first(), second),
            None => {},
        }
    } else {
        assert(first + second =~= second);
    }
}

/// The position of the first entry of `entries` named `key`.
fn find_member<L>(entries: &Vec<(String, SettingsValue<L>)>, key: &String) -> (index: Option<usize>)
    ensures
        match index {
            Some(i) => i == member_index(entries@, key@),
            None => member_index(entries@, key@) == -1,
        },
{
    let mut j: usize = 0;
    while j < entries.len()
        invariant
            0 <= j <= entries@.len(),
            member_index(entries@.take(j as int), key@) == -1,
        decreases entries@.len() - j,
    {
        proof {
            assert(entries@.take(j + 1).drop_last() =~= entries@.take(j as int));
        }
        if entries[j].0 == *key {
            proof {
                lemma_member_index_prefix(entries@, j + 1, key@);
            }
            return Some(j);
        }
        j = j + 1;
    }
    proof {
        assert(entries@.take(entries@.len() as int) =~= entries@);
    }
    None
}

/// A match in a prefix is the match in the whole.
pub proof fn lemma_member_index_prefix<L>(entries: Seq<(String, SettingsValue<L>)>, n: int, key: Seq<char>)
    requires
        0 <= n <= entries.len(),
        member_index(entries.take(n), key) >= 0,
    ensures
        member_index(entries, key) == member_index(entries.take(n), key),
    decreases entries.len() - n,
{
    if n < entries.len() {
        assert(entries.take(n + 1).drop_last() =~= entries.take(n));
        lemma_member_index_prefix(entries, n + 1, key);
    } else {
        assert(entries.take(n) =~= entries);
    }
}

/// The value at `keys` below `node`, read without changing anything.
pub fn lookup_keys<'a, L>(node: &'a SettingsValue<L>, keys: &Vec<String>) -> (found: Option<&'a SettingsValue<L>>)
    ensures
        match found {
            Some(reached) => lookup(*node, keys@.map_values(|k: String| k@)) == Some(*reached),
            None => lookup(*node, keys@.map_values(|k: String| k@)) is None,
        },
{
    let ghost all = keys@.map_values(|k: String| k@);
    let mut current: &SettingsValue<L> = node;
    let mut i: usize = 0;
    proof {
        assert(all.skip(0) =~= all);
    }
    while i < keys.len()
        invariant
            0 <= i <= keys@.len(),
            all == keys@.map_values(|k: String| k@),
            lookup(*node, all) == lookup(*current, all.skip(i as int)),
        decreases keys@.len() - i,
    {
        proof {
            assert(all.skip(i as int).drop_first() =~= all.skip(i + 1));
            assert(all.skip(i as int)[0] == keys@[i as int]@);
        }
        match current {
            SettingsValue::Object(entries) => {
                match find_member(entries, &keys[i]) {
                    Some(index) => {
                        proof {
                            lemma_member_index(entries@, keys@[i as int]@);
                        }
                        current = &entries[index].1;
                    },
                    None => {
                        return None;
                    },
                }
            },
            SettingsValue::Leaf(_) => {
                return None;
            },
        }
        i = i + 1;
    }
    proof {
        assert(all.skip(keys@.len() as int) =~= Seq::<Seq<char>>::empty());
    }
    Some(current)
}

/// Replacing an entry by one of the same name moves no name.
pub proof fn lemma_member_index_update<L>(
    entries: Seq<(String, SettingsValue<L>)>,
    index: int,
    entry: (String, SettingsValue<L>),
    key: Seq<char>,
)
    requires
        0 <= index < entries.len(),
        entries[index].0@ == entry.0@,
    ensures
        member_index(entries.update(index, entry), key) == member_index(entries, key),
{
    let updated = entries.update(index, entry);
    lemma_member_index(entries, key);
    lemma_member_index(updated, key);
    assert forall|j: int| 0 <= j < entries.len() implies #[trigger] updated[j].0@ == entries[j].0@ by {}
    let a = member_index(entries, key);
    let b = member_index(updated, key);
    if a >= 0 && b >= 0 {
        if a < b {
            assert(updated[a].0@ == entries[a].0@);
        } else if b < a {
            assert(updated[b].0@ == entries[b].0@);
        }
    } else if a >= 0 {
        assert(updated[a].0@ == entries[a].0@);
    } else if b >= 0 {
        assert(updated[b].0@ == entries[b].0@);
    }
}

/// Appending an entry only makes its own name findable, and only if it was
/// not already.
pub proof fn lemma_member_index_push<L>(
    entries: Seq<(String, SettingsValue<L>)>,
    entry: (String, SettingsValue<L>),
    key: Seq<char>,
)
    ensures
        member_index(entries.push(entry), key) == if member_index(entries, key) >= 0 {
            member_index(entries, key)
        } else if entry.0@ == key {
            entries.len() as int
        } else {
            -1
        },
{
    assert(entries.push(entry).drop_last() =~= entries);
}

/// Two key paths that agree on their first key are prefixes of one another
/// exactly when the rest of them are.
pub proof fn lemma_prefix_after_first_key(path: Seq<Seq<char>>, q: Seq<Seq<char>>)
    requires
        path.len() > 0,
        q.len() > 0,
        path[0] == q[0],
    ensures
        is_prefix(q.drop_first(), path.drop_first()) ==> is_prefix(q, path),
        is_prefix(path.drop_first(), q.drop_first()) ==> is_prefix(path, q),
{
    let (p2, q2) = (path.drop_first(), q.drop_first());
    if is_prefix(q2, p2) {
        assert forall|i: int| 0 <= i < q.len() implies #[trigger] path.take(q.len() as int)[i] == q[i] by {
            if i > 0 {
                assert(p2.take(q2.len() as int)[i - 1] == q2[i - 1]);
            }
        }
        assert(path.take(q.len() as int) =~= q);
    }
    if is_prefix(p2, q2) {
        assert forall|i: int| 0 <= i < path.len() implies #[trigger] q.take(path.len() as int)[i] == path[i] by {
            if i > 0 {
                assert(q2.take(p2.len() as int)[i - 1] == p2[i - 1]);
            }
        }
        assert(q.take(path.len() as int) =~= path);
    }
}

/// The keys an object along a written path ends with, given what stood
/// there before (`None` if nothing did) and the key the path takes there: the
/// keys it had, in order, with `key` last if it was not among them.
pub open spec fn keys_after_set<L>(before: Option<SettingsValue<L>>, key: Seq<char>) -> Seq<Seq<char>> {
    let entries = match before {
        Some(node) => entries_of(node),
        None => Seq::empty(),
    };
    let keys = entries.map_values(|entry: (String, SettingsValue<L>)| entry.0@);
    if member_index(entries, key) >= 0 {
        keys
    } else {
        keys.push(key)
    }
}

/// After a write through `key`, what stands there (`after`) is an object
/// whose keys are those of `before` in their order, `key` added last if new.
pub open spec fn level_in_order<L>(before: Option<SettingsValue<L>>, after: Option<SettingsValue<L>>, key: Seq<char>) -> bool {
    &&& after matches Some(node) && node is Object
    &&& keys_of(after->Some_0) == keys_after_set(before, key)
}

/// Sets the value at `keys[from..]` below `node` to `value`, creating the
/// objects on the way that are missing and replacing with an object any value
/// on the way that is not one. An existing key keeps its place; a new key goes
/// last.
pub fn set_keys<L>(node: SettingsValue<L>, keys: &Vec<String>, from: usize, value: SettingsValue<L>) -> (updated: SettingsValue<L>)
    requires
        from < keys@.len(),
    ensures
        ({
            let path = keys@.map_values(|k: String| k@).skip(from as int);
            &&& lookup(updated, path) == Some(value)
            &&& forall|q: Seq<Seq<char>>|
                !is_prefix(q, path) && !is_prefix(path, q) ==> #[trigger] lookup(updated, q) == lookup(node, q)
            &&& updated is Object
            &&& keys_of(updated) == if member_index(entries_of(node), path[0]) >= 0 {
                keys_of(node)
            } else {
                keys_of(node).push(path[0])
            }
            &&& forall|k: int|
                0 <= k < path.len() ==> #[trigger] level_in_order(
                    lookup(node, path.take(k)),
                    lookup(updated, path.take(k)),
                    path[k],
                )
        }),
    decreases keys@.len() - from,
{
    let ghost all = keys@.map_values(|k: String| k@);
    let ghost path = all.skip(from as int);
    let ghost rest = all.skip(from + 1);
    proof {
        assert(path.drop_first() =~= rest);
        assert(path[0] == keys@[from as int]@);
    }
    let ghost old_entries = entries_of(node);
    let mut entries: Vec<(String, SettingsValue<L>)> = match node {
        SettingsValue::Object(entries) => entries,
        SettingsValue::Leaf(_) => Vec::new(),
    };
    proof {
        assert(entries@ =~= old_entries);
    }
    let key: String = keys[from].clone();
    let last: bool = keys.len() - from == 1;
    let ghost value_copy = value;
    match find_member(&entries, &key) {
        Some(index) => {
            proof {
                lemma_member_index(old_entries, key@);
            }
            let (name, previous) = entries.remove(index);
            let ghost previous_copy = previous;
            let next: SettingsValue<L> = if last {
                value
            } else {
                set_keys(previous, keys, from + 1, value)
            };
            let ghost next_copy = next;
            entries.insert(index, (name, next));
            let ghost new_entries = entries@;
            proof {
                assert(new_entries =~= old_entries.update(index as int, (name, next_copy)));
                assert forall|k: Seq<char>| #[trigger] member_index(new_entries, k) == member_index(old_entries, k) by {
                    lemma_member_index_update(old_entries, index as int, (name, next_copy), k);
                }
                let r = SettingsValue::Object(entries);
                assert(child(r, path[0]) == Some(next_copy));
                assert(child(node, path[0]) == Some(previous_copy));
                if last {
                    assert(rest =~= Seq::<Seq<char>>::empty());
                }
                assert(lookup(r, path) == Some(value_copy));
                assert forall|q: Seq<Seq<char>>| !is_prefix(q, path) && !is_prefix(path, q) implies #[trigger] lookup(r, q)
                    == lookup(node, q) by {
                    if q.len() == 0 {
                        assert(path.take(0) =~= q);
                    } else if q[0] != path[0] {
                        lemma_member_index(old_entries, q[0]);
                        assert(member_index(new_entries, q[0]) == member_index(old_entries, q[0]));
                        assert(child(r, q[0]) == child(node, q[0]));
                    } else {
                        let q2 = q.drop_first();
                        lemma_prefix_after_first_key(path, q);
                        if last {
                            assert(q.take(path.len() as int) =~= path);
                        } else {
                            assert(!is_prefix(q2, rest) && !is_prefix(rest, q2));
                            assert(lookup(next_copy, q2) == lookup(previous_copy, q2));
                            assert(lookup(r, q) == lookup(next_copy, q2));
                            assert(lookup(node, q) == lookup(previous_copy, q2));
                        }
                    }
                }
                assert(keys_of(r) =~= keys_of(node));
                assert forall|k: int| 0 <= k < path.len() implies #[trigger] level_in_order(
                    lookup(node, path.take(k)),
                    lookup(r, path.take(k)),
                    path[k],
                ) by {
                    if k == 0 {
                        assert(path.take(0) =~= Seq::<Seq<char>>::empty());
                        assert(keys_after_set(Some(node), path[0]) =~= keys_of(node));
                    } else {
                        let t = path.take(k);
                        let t2 = rest.take(k - 1);
                        assert(t[0] == path[0]);
                        assert(t.drop_first() =~= t2);
                        assert(rest[k - 1] == path[k]);
                        assert(lookup(r, t) == lookup(next_copy, t2));
                        assert(lookup(node, t) == lookup(previous_copy, t2));
                        assert(level_in_order(lookup(previous_copy, t2), lookup(next_copy, t2), rest[k - 1]));
                    }
                }
            }
        },
        None => {
            let empty: SettingsValue<L> = SettingsValue::Object(Vec::new());
            let ghost empty_copy = empty;
            let next: SettingsValue<L> = if last {
                value
            } else {
                set_keys(empty, keys, from + 1, value)
            };
            let ghost next_copy = next;
            let ghost pushed_key = key;
            entries.push((key, next));
            let ghost new_entries = entries@;
            proof {
                assert(new_entries == old_entries.push((pushed_key, next_copy)));
                assert forall|k: Seq<char>| k != path[0] implies #[trigger] member_index(new_entries, k) == member_index(
                    old_entries,
                    k,
                ) by {
                    lemma_member_index_push(old_entries, (pushed_key, next_copy), k);
                }
                lemma_member_index_push(old_entries, (pushed_key, next_copy), path[0]);
                let r = SettingsValue::Object(entries);
                assert(child(r, path[0]) == Some(next_copy));
                assert(child(node, path[0]) is None);
                if last {
                    assert(rest =~= Seq::<Seq<char>>::empty());
                }
                assert(lookup(r, path) == Some(value_copy));
                assert forall|q: Seq<Seq<char>>| !is_prefix(q, path) && !is_prefix(path, q) implies #[trigger] lookup(r, q)
                    == lookup(node, q) by {
                    if q.len() == 0 {
                        assert(path.take(0) =~= q);
                    } else if q[0] != path[0] {
                        lemma_member_index(old_entries, q[0]);
                        assert(member_index(new_entries, q[0]) == member_index(old_entries, q[0]));
                        assert(child(r, q[0]) == child(node, q[0]));
                    } else {
                        let q2 = q.drop_first();
                        lemma_prefix_after_first_key(path, q);
                        if last {
                            assert(q.take(path.len() as int) =~= path);
                        } else {
                            assert(!is_prefix(q2, rest) && !is_prefix(rest, q2));
                            if q2.len() == 0 {
                                assert(path.take(q.len() as int) =~= q);
                            }
                            assert(lookup(next_copy, q2) == lookup(empty_copy, q2));
                            assert(entries_of(empty_copy) =~= Seq::<(String, SettingsValue<L>)>::empty());
                        }
                    }
                }
                assert(keys_of(r) =~= keys_of(node).push(path[0]));
                assert forall|k: int| 0 <= k < path.len() implies #[trigger] level_in_order(
                    lookup(node, path.take(k)),
                    lookup(r, path.take(k)),
                    path[k],
                ) by {
                    if k == 0 {
                        assert(path.take(0) =~= Seq::<Seq<char>>::empty());
                        assert(keys_after_set(Some(node), path[0]) =~= keys_of(node).push(path[0]));
                    } else {
                        let t = path.take(k);
                        let t2 = rest.take(k - 1);
                        assert(t[0] == path[0]);
                        assert(t.drop_first() =~= t2);
                        assert(rest[k - 1] == path[k]);
                        assert(lookup(r, t) == lookup(next_copy, t2));
                        assert(lookup(node, t) is None);
                        assert(level_in_order(lookup(empty_copy, t2), lookup(next_copy, t2), rest[k - 1]));
                        if k == 1 {
                            assert(t2 =~= Seq::<Seq<char>>::empty());
                            assert(entries_of(empty_copy) =~= Seq::<(String, SettingsValue<L>)>::empty());
                            assert(keys_after_set(lookup(empty_copy, t2), rest[k - 1]) =~= keys_after_set(
                                None::<SettingsValue<L>>,
                                rest[k - 1],
                            ));
                        } else {
                            assert(entries_of(empty_copy) =~= Seq::<(String, SettingsValue<L>)>::empty());
                            assert(lookup(empty_copy, t2) is None);
                        }
                    }
                }
            }
        },
    }
    SettingsValue::Object(entries)
}

/// The value reached by following `keys` from the root `data`; nothing is
/// reached from a root that was never read.
pub open spec fn lookup_in<L>(data: Option<SettingsValue<L>>, keys: Seq<Seq<char>>) -> Option<SettingsValue<L>> {
    match data {
        Some(root) => lookup(root, keys),
        None => None,
    }
}

/// The keys of the root object, none if the root is not an object.
pub open spec fn root_keys<L>(data: Option<SettingsValue<L>>) -> Seq<Seq<char>> {
    match data {
        Some(root) => keys_of(root),
        None => Seq::empty(),
    }
}

/// The engine's settings: the value tree read from `config.json`, if it was
/// read, and whether a load succeeded.
pub struct EngineSettings<L> {
    data: Option<SettingsValue<L>>,
    loaded: bool,
}

impl<L> EngineSettings<L> {
    /// The settings tree, `None` before anything was read or set.
    pub closed spec fn data_view(&self) -> Option<SettingsValue<L>> {
        self.data
    }

    /// Whether a load succeeded.
    pub closed spec fn loaded_view(&self) -> bool {
        self.loaded
    }

    /// No settings read: every path falls back to its default.
    pub fn new() -> (settings: Self)
        ensures
            settings.data_view() is None,
            !settings.loaded_view(),
    {
        EngineSettings { data: None, loaded: false }
    }

    /// Installs the tree a successful load read, marking the settings loaded.
    pub fn load_value(&mut self, data: SettingsValue<L>)
        ensures
            final(self).data_view() == Some(data),
            final(self).loaded_view(),
    {
        self.data = Some(data);
        self.loaded = true;
    }

    /// Finishes a load with what reading and parsing the file gave: a parsed
    /// tree is installed and the settings are loaded; a failure is handed
    /// back and leaves the settings exactly as they were.
    pub fn finish_load<E>(&mut self, parsed: Result<SettingsValue<L>, E>) -> (result: Result<(), E>)
        ensures
            match parsed {
                Ok(data) => result is Ok && final(self).data_view() == Some(data) && final(self).loaded_view(),
                Err(e) => result == Err::<(), E>(e) && final(self).data_view() == old(self).data_view()
                    && final(self).loaded_view() == old(self).loaded_view(),
            },
    {
        match parsed {
            Ok(data) => {
                self.load_value(data);
                Ok(())
            },
            Err(e) => Err(e),
        }
    }

    /// Whether a load has succeeded.
    pub fn is_loaded(&self) -> (loaded: bool)
        ensures
            loaded == self.loaded_view(),
    {
        self.loaded
    }

    /// The whole tree, for writing back out.
    pub fn data(&self) -> (data: Option<&SettingsValue<L>>)
        ensures
            match data {
                Some(root) => self.data_view() == Some(*root),
                None => self.data_view() is None,
            },
    {
        match &self.data {
            Some(root) => Some(root),
            None => None,
        }
    }

    /// The value at a dot-separated `path` such as `"window.width"`, or
    /// `None` if any segment is missing or passes through a non-object.
    pub fn get_path(&self, path: &str) -> (found: Option<&SettingsValue<L>>)
        ensures
            match found {
                Some(reached) => lookup_in(self.data_view(), split_dots(path@)) == Some(*reached),
                None => lookup_in(self.data_view(), split_dots(path@)) is None,
            },
    {
        let keys: Vec<String> = split_path(path);
        match &self.data {
            Some(root) => lookup_keys(root, &keys),
            None => None,
        }
    }

    /// Writes `value` at a dot-separated `path`, creating the objects on the
    /// way that are missing and replacing with an object any value on the way
    /// that is not one. Reading `path` back gives `value`; every path that
    /// neither leads to nor runs through `path` reads as before; at every
    /// level along the path, keys keep the order they were read or first set
    /// in, a new key going last.
    pub fn set_path(&mut self, path: &str, value: SettingsValue<L>)
        ensures
            lookup_in(final(self).data_view(), split_dots(path@)) == Some(value),
            forall|q: Seq<Seq<char>>|
                !is_prefix(q, split_dots(path@)) && !is_prefix(split_dots(path@), q) ==> #[trigger] lookup_in(
                    final(self).data_view(),
                    q,
                ) == lookup_in(old(self).data_view(), q),
            root_keys(final(self).data_view()) == if member_index(
                match old(self).data_view() {
                    Some(root) => entries_of(root),
                    None => Seq::empty(),
                },
                split_dots(path@)[0],
            ) >= 0 {
                root_keys(old(self).data_view())
            } else {
                root_keys(old(self).data_view()).push(split_dots(path@)[0])
            },
            forall|k: int|
                0 <= k < split_dots(path@).len() ==> #[trigger] level_in_order(
                    lookup_in(old(self).data_view(), split_dots(path@).take(k)),
                    lookup_in(final(self).data_view(), split_dots(path@).take(k)),
                    split_dots(path@)[k],
                ),
            final(self).loaded_view() == old(self).loaded_view(),
    {
        let keys: Vec<String> = split_path(path);
        let ghost all = keys@.map_values(|k: String| k@);
        proof {
            assert(all.skip(0) =~= all);
        }
        let root: SettingsValue<L> = match self.data.take() {
            Some(root) => root,
            None => SettingsValue::Object(Vec::new()),
        };
        let ghost root_copy = root;
        proof {
            if old(self).data is None {
                assert(entries_of(root_copy) =~= Seq::<(String, SettingsValue<L>)>::empty());
                assert(keys_of(root_copy) =~= Seq::<Seq<char>>::empty());
                assert forall|q: Seq<Seq<char>>| q.len() > 0 implies lookup(root_copy, q) is None by {}
            }
        }
        let updated: SettingsValue<L> = set_keys(root, &keys, 0, value);
        self.data = Some(updated);
        proof {
            assert forall|q: Seq<Seq<char>>|
                !is_prefix(q, all) && !is_prefix(all, q) implies #[trigger] lookup_in(self.data, q) == lookup_in(
                old(self).data,
                q,
            ) by {
                if q.len() == 0 {
                    assert(all.take(0) =~= q);
                }
            }
            assert forall|k: int| 0 <= k < all.len() implies #[trigger] level_in_order(
                lookup_in(old(self).data, all.take(k)),
                lookup_in(self.data, all.take(k)),
                all[k],
            ) by {
                assert(level_in_order(lookup(root_copy, all.take(k)), lookup(updated, all.take(k)), all[k]));
                if old(self).data is None {
                    if k == 0 {
                        assert(all.take(0) =~= Seq::<Seq<char>>::empty());
                        assert(keys_after_set(lookup(root_copy, all.take(k)), all[k]) =~= keys_after_set(
                            None::<SettingsValue<L>>,
                            all[k],
                        ));
                    } else {
                        assert(lookup(root_copy, all.take(k)) is None);
                    }
                }
            }
        }
    }
}

impl<L> Default for EngineSettings<L> {
    fn default() -> (settings: Self)
        ensures
            settings.data_view() is None,
            !settings.loaded_view(),
    {
        Self::new()
    }
}

/// Whatever was written at `keys` is what a read below it walks into: the
/// path `keys + rest` reaches exactly what `rest` reaches inside the written
/// value.
pub proof fn law_read_below_a_write<L>(
    data: Option<SettingsValue<L>>,
    keys: Seq<Seq<char>>,
    value: SettingsValue<L>,
    rest: Seq<Seq<char>>,
)
    requires
        lookup_in(data, keys) == Some(value),
    ensures
        lookup_in(data, keys + rest) == lookup(value, rest),
{
    if let Some(root) = data {
        lemma_lookup_append(root, keys, rest);
    }
}

} // verus!
