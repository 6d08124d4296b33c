//! Named text values: the variables a demo captures and the environment its commands run in.

use crate::text::same_text;
use vstd::prelude::*;

verus! {

broadcast use vstd::seq::group_seq_axioms;

/// Names with their values, in the order in which the names first appeared.
pub type Entries = Seq<(Seq<char>, Seq<char>)>;

/// No name occurs twice.
pub open spec fn distinct(entries: Entries) -> bool {
    forall|i: int, j: int|
        0 <= i < j < entries.len() ==> (#[trigger] entries[i]).0 != (#[trigger] entries[j]).0
}

/// The first position at or after `i` of an entry named `name`, or the number of entries.
pub open spec fn find_name(entries: Entries, name: Seq<char>, i: int) -> int
    decreases entries.len() - i,
{
    if i >= entries.len() {
        entries.len() as int
    } else if entries[i].0 == name {
        i
    } else {
        find_name(entries, name, i + 1)
    }
}

/// The entries as a map from names to values.
pub open spec fn bindings(entries: Entries) -> Map<Seq<char>, Seq<char>> {
    Map::new(
        |name: Seq<char>| find_name(entries, name, 0) < entries.len(),
        |name: Seq<char>| entries[find_name(entries, name, 0)].1,
    )
}

/// `entries` with `name` bound to `value`: in place where the name is bound, at the end where not.
pub open spec fn put(entries: Entries, name: Seq<char>, value: Seq<char>) -> Entries {
    let i = find_name(entries, name, 0);
    if i < entries.len() {
        entries.update(i, (name, value))
    } else {
        entries.push((name, value))
    }
}

/// `entries` without the entry named `name`.
pub open spec fn without(entries: Entries, name: Seq<char>) -> Entries {
    let i = find_name(entries, name, 0);
    if i < entries.len() {
        entries.remove(i)
    } else {
        entries
    }
}

/// `base` with every entry of `overlay` put into it, in order.
pub open spec fn put_all(base: Entries, overlay: Entries) -> Entries
    decreases overlay.len(),
{
    if overlay.len() == 0 {
        base
    } else {
        put(put_all(base, overlay.drop_last()), overlay.last().0, overlay.last().1)
    }
}

pub proof fn lemma_find_name(entries: Entries, name: Seq<char>, i: int)
    requires
        0 <= i <= entries.len(),
    ensures
        i <= find_name(entries, name, i) <= entries.len(),
        find_name(entries, name, i) < entries.len() ==> entries[find_name(entries, name, i)].0
            == name,
        forall|j: int| i <= j < find_name(entries, name, i) ==> (#[trigger] entries[j]).0 != name,
    decreases entries.len() - i,
{
    if i < entries.len() && entries[i].0 != name {
        lemma_find_name(entries, name, i + 1);
    }
}

/// The position of a name among distinct names is the only one there is.
pub proof fn lemma_found(entries: Entries, name: Seq<char>, k: int)
    requires
        distinct(entries),
        0 <= k < entries.len(),
        entries[k].0 == name,
    ensures
        find_name(entries, name, 0) == k,
        bindings(entries).contains_key(name),
        bindings(entries)[name] == entries[k].1,
{
    lemma_find_name(entries, name, 0);
    let i = find_name(entries, name, 0);
    if i < k {
        assert(entries[i].0 != entries[k].0);
    }
}

/// A name that no entry has is not bound.
pub proof fn lemma_absent(entries: Entries, name: Seq<char>)
    requires
        forall|k: int| 0 <= k < entries.len() ==> (#[trigger] entries[k]).0 != name,
    ensures
        find_name(entries, name, 0) == entries.len(),
        !bindings(entries).contains_key(name),
{
    lemma_find_name(entries, name, 0);
}

/// Binding a name keeps the names distinct and changes that one binding only.
pub proof fn law_put(entries: Entries, name: Seq<char>, value: Seq<char>)
    requires
        distinct(entries),
    ensures
        distinct(put(entries, name, value)),
        bindings(put(entries, name, value)) == bindings(entries).insert(name, value),
{
    let i = find_name(entries, name, 0);
    let next = put(entries, name, value);
    lemma_find_name(entries, name, 0);
    assert(distinct(next)) by {
        assert forall|a: int, b: int| 0 <= a < b < next.len() implies (#[trigger] next[a]).0 != (
        #[trigger] next[b]).0 by {
            if i < entries.len() {
                assert(entries[a].0 == next[a].0);
                assert(entries[b].0 == next[b].0);
            } else if b < entries.len() {
                assert(entries[a].0 != entries[b].0);
            } else {
                assert(entries[a].0 != name);
            }
        }
    }
    assert forall|n: Seq<char>| #[trigger]
        bindings(next).contains_key(n) == bindings(entries).insert(name, value).contains_key(n) && (
    bindings(next).contains_key(n) ==> bindings(next)[n] == bindings(entries).insert(
        name,
        value,
    )[n]) by {
        lemma_find_name(entries, n, 0);
        lemma_find_name(next, n, 0);
        let j = find_name(entries, n, 0);
        if n == name {
            lemma_found(next, n, i);
        } else if j < entries.len() {
            assert(next[j] == entries[j]);
            lemma_found(next, n, j);
        } else {
            assert forall|k: int| 0 <= k < next.len() implies (#[trigger] next[k]).0 != n by {
                if k < entries.len() {
                    assert(entries[k].0 != n);
                }
            }
            lemma_absent(next, n);
        }
    }
    assert(bindings(next) =~= bindings(entries).insert(name, value));
}

/// Dropping a name keeps the names distinct and unbinds that one name only.
pub proof fn law_without(entries: Entries, name: Seq<char>)
    requires
        distinct(entries),
    ensures
        distinct(without(entries, name)),
        bindings(without(entries, name)) == bindings(entries).remove(name),
{
    let i = find_name(entries, name, 0);
    let next = without(entries, name);
    lemma_find_name(entries, name, 0);
    assert(distinct(next)) by {
        assert forall|a: int, b: int| 0 <= a < b < next.len() implies (#[trigger] next[a]).0 != (
        #[trigger] next[b]).0 by {
            if i < entries.len() {
                let a0 = if a < i { a } else { a + 1 };
                let b0 = if b < i { b } else { b + 1 };
                assert(entries[a0].0 != entries[b0].0);
            }
        }
    }
    assert forall|n: Seq<char>| #[trigger]
        bindings(next).contains_key(n) == bindings(entries).remove(name).contains_key(n) && (
    bindings(next).contains_key(n) ==> bindings(next)[n] == bindings(entries).remove(name)[n]) by {
        lemma_find_name(entries, n, 0);
        lemma_find_name(next, n, 0);
        let j = find_name(entries, n, 0);
        if i < entries.len() {
            if n == name {
                assert forall|k: int| 0 <= k < next.len() implies (#[trigger] next[k]).0 != n by {
                    let k0 = if k < i { k } else { k + 1 };
                    assert(next[k] == entries[k0]);
                    assert(entries[i].0 == name);
                    if k0 < i {
                        assert(entries[k0].0 != entries[i].0);
                    } else {
                        assert(entries[i].0 != entries[k0].0);
                    }
                }
                lemma_absent(next, n);
            } else if j < entries.len() {
                let j0 = if j < i { j } else { j - 1 };
                assert(next[j0] == entries[j]);
                lemma_found(next, n, j0);
            } else {
                assert forall|k: int| 0 <= k < next.len() implies (#[trigger] next[k]).0 != n by {
                    let k0 = if k < i { k } else { k + 1 };
                    assert(next[k] == entries[k0]);
                }
                lemma_absent(next, n);
            }
        }
    }
    assert(bindings(next) =~= bindings(entries).remove(name));
}

/// Putting all of an overlay in makes the overlay win wherever both bind a name.
pub proof fn law_put_all(base: Entries, overlay: Entries)
    requires
        distinct(base),
        distinct(overlay),
    ensures
        distinct(put_all(base, overlay)),
        bindings(put_all(base, overlay)) == bindings(base).union_prefer_right(bindings(overlay)),
    decreases overlay.len(),
{
    if overlay.len() == 0 {
        assert(bindings(base) =~= bindings(base).union_prefer_right(bindings(overlay)));
    } else {
        let head = overlay.drop_last();
        let name = overlay.last().0;
        let value = overlay.last().1;
        assert(distinct(head)) by {
            assert forall|a: int, b: int| 0 <= a < b < head.len() implies (#[trigger] head[a]).0
                != (#[trigger] head[b]).0 by {
                assert(overlay[a].0 != overlay[b].0);
            }
        }
        law_put_all(base, head);
        law_put(put_all(base, head), name, value);
        assert(put(head, name, value) =~= overlay) by {
            assert forall|k: int| 0 <= k < head.len() implies (#[trigger] head[k]).0 != name by {
                assert(overlay[k].0 != overlay[overlay.len() - 1].0);
            }
            lemma_absent(head, name);
        }
        law_put(head, name, value);
        assert(bindings(base).union_prefer_right(bindings(head)).insert(name, value) =~= bindings(
            base,
        ).union_prefer_right(bindings(head).insert(name, value)));
    }
}

/// Named text values with no name twice.
pub struct Vars {
    entries: Vec<(String, String)>,
}

/// The entries of a list of pairs.
pub open spec fn pairs_view(pairs: Seq<(String, String)>) -> Entries {
    pairs.map_values(|pair: (String, String)| (pair.0@, pair.1@))
}

impl View for Vars {
    type V = Entries;

    closed spec fn view(&self) -> Entries {
        pairs_view(self.entries@)
    }
}

impl Vars {
    /// No name occurs twice.
    #[verifier::type_invariant]
    pub open spec fn valid(self) -> bool {
        distinct(self@)
    }

    /// No names at all.
    pub fn new() -> (vars: Vars)
        ensures
            vars@ == Entries::empty(),
    {
        let vars = Vars { entries: Vec::new() };
        assert(vars@ =~= Entries::empty());
        vars
    }

    /// The number of names.
    pub fn len(&self) -> (n: usize)
        ensures
            n == self@.len(),
    {
        self.entries.len()
    }

    /// The position of `name`, or the number of names where it is not bound.
    fn position(&self, name: &str) -> (position: usize)
        ensures
            position == find_name(self@, name@, 0),
            position <= self@.len(),
    {
        let mut i: usize = 0;
        while i < self.entries.len() && !same_text(self.entries[i].0.as_str(), name)
            invariant
                i <= self.entries@.len(),
                find_name(self@, name@, 0) == find_name(self@, name@, i as int),
            decreases self.entries@.len() - i,
        {
            i += 1;
        }
        i
    }

    /// The value of `name`.
    pub fn get(&self, name: &str) -> (value: Option<&String>)
        ensures
            value is Some <==> bindings(self@).contains_key(name@),
            value matches Some(v) ==> v@ == bindings(self@)[name@],
    {
        let i = self.position(name);
        if i < self.entries.len() {
            Some(&self.entries[i].1)
        } else {
            None
        }
    }

    /// The name at position `i`.
    pub fn name_at(&self, i: usize) -> (name: &String)
        requires
            i < self@.len(),
        ensures
            name@ == self@[i as int].0,
    {
        &self.entries[i].0
    }

    /// The value at position `i`.
    pub fn value_at(&self, i: usize) -> (value: &String)
        requires
            i < self@.len(),
        ensures
            value@ == self@[i as int].1,
    {
        &self.entries[i].1
    }

    /// Binds `name` to `value`.
    pub fn insert(&mut self, name: String, value: String)
        ensures
            final(self)@ == put(old(self)@, name@, value@),
            bindings(final(self)@) == bindings(old(self)@).insert(name@, value@),
    {
        proof {
            use_type_invariant(&*self);
            law_put(self@, name@, value@);
        }
        let ghost before = self@;
        let i = self.position(name.as_str());
        let mut entries: Vec<(String, String)> = Vec::new();
        std::mem::swap(&mut entries, &mut self.entries);
        let ghost target = put(before, name@, value@);
        if i < entries.len() {
            entries.set(i, (name, value));
        } else {
            entries.push((name, value));
        }
        assert(pairs_view(entries@) =~= target);
        self.entries = entries;
    }

    /// Unbinds `name`.
    pub fn remove(&mut self, name: &str)
        ensures
            final(self)@ == without(old(self)@, name@),
            bindings(final(self)@) == bindings(old(self)@).remove(name@),
    {
        proof {
            use_type_invariant(&*self);
            law_without(self@, name@);
        }
        let ghost before = self@;
        let i = self.position(name);
        let mut entries: Vec<(String, String)> = Vec::new();
        std::mem::swap(&mut entries, &mut self.entries);
        let ghost target = without(before, name@);
        if i < entries.len() {
            let _gone = entries.remove(i);
        }
        assert(pairs_view(entries@) =~= target);
        self.entries = entries;
    }

    /// The same names with the same values, in the same order.
    pub fn copy(&self) -> (copy: Vars)
        ensures
            copy@ == self@,
    {
        proof {
            use_type_invariant(self);
        }
        let mut entries: Vec<(String, String)> = Vec::new();
        let mut i: usize = 0;
        while i < self.entries.len()
            invariant
                i <= self.entries@.len(),
                pairs_view(entries@) == self@.take(i as int),
            decreases self.entries@.len() - i,
        {
            let ghost before = pairs_view(entries@);
            entries.push((self.entries[i].0.clone(), self.entries[i].1.clone()));
            assert(pairs_view(entries@) =~= before.push(self@[i as int]));
            assert(self@.take(i + 1) =~= self@.take(i as int).push(self@[i as int]));
            i += 1;
        }
        assert(self@.take(i as int) =~= self@);
        Vars { entries }
    }

    /// The values of `pairs`, each name with the last value given for it.
    pub fn from_pairs(pairs: Vec<(String, String)>) -> (vars: Vars)
        ensures
            vars@ == put_all(Entries::empty(), pairs_view(pairs@)),
    {
        let mut vars = Vars::new();
        let mut i: usize = 0;
        let ghost all = pairs_view(pairs@);
        while i < pairs.len()
            invariant
                i <= pairs@.len(),
                all == pairs_view(pairs@),
                vars@ == put_all(Entries::empty(), all.take(i as int)),
            decreases pairs@.len() - i,
        {
            assert(all.take(i + 1).drop_last() =~= all.take(i as int));
            vars.insert(pairs[i].0.clone(), pairs[i].1.clone());
            i += 1;
        }
        assert(all.take(i as int) =~= all);
        vars
    }
}

// ---------------------------------------------------------------------------
// Environment
// ---------------------------------------------------------------------------

/// `base` with the values of `overlay` laid over it.
pub fn merge_env(base: &Vars, overlay: &Vars) -> (env: Vars)
    ensures
        env@ == put_all(base@, overlay@),
        bindings(env@) == bindings(base@).union_prefer_right(bindings(overlay@)),
{
    proof {
        use_type_invariant(base);
        use_type_invariant(overlay);
        law_put_all(base@, overlay@);
    }
    let mut env = base.copy();
    let mut i: usize = 0;
    while i < overlay.len()
        invariant
            i <= overlay@.len(),
            env@ == put_all(base@, overlay@.take(i as int)),
        decreases overlay@.len() - i,
    {
        assert(overlay@.take(i + 1).drop_last() =~= overlay@.take(i as int));
        env.insert(overlay.name_at(i).clone(), overlay.value_at(i).clone());
        i += 1;
    }
    assert(overlay@.take(i as int) =~= overlay@);
    env
}

/// The environment a demo starts in: that of the process, with the values of the config laid
/// over it.
pub fn initial_env(process: Vec<(String, String)>, config_env: &Vars) -> (env: Vars)
    ensures
        env@ == put_all(put_all(Entries::empty(), pairs_view(process@)), config_env@),
        bindings(env@) == bindings(
            put_all(Entries::empty(), pairs_view(process@)),
        ).union_prefer_right(bindings(config_env@)),
{
    merge_env(&Vars::from_pairs(process), config_env)
}

/// After a command, the environment it left behind still holds `name` as its step laid it over.
pub open spec fn untouched(
    overlay: Map<Seq<char>, Seq<char>>,
    snapshot: Map<Seq<char>, Seq<char>>,
    name: Seq<char>,
) -> bool {
    &&& overlay.contains_key(name)
    &&& snapshot.contains_key(name)
    &&& snapshot[name] == overlay[name]
}

/// The environment that a command passes on to later steps. What the command left behind is
/// kept, except that values its step laid over and the command did not touch are put back to
/// what they were before.
pub open spec fn settled(
    before: Map<Seq<char>, Seq<char>>,
    overlay: Map<Seq<char>, Seq<char>>,
    snapshot: Map<Seq<char>, Seq<char>>,
) -> Map<Seq<char>, Seq<char>> {
    Map::new(
        |name: Seq<char>|
            if untouched(overlay, snapshot, name) {
                before.contains_key(name)
            } else {
                snapshot.contains_key(name)
            },
        |name: Seq<char>|
            if untouched(overlay, snapshot, name) {
                before[name]
            } else {
                snapshot[name]
            },
    )
}

/// Takes over the environment that a command left behind, if it is known.
pub fn persist_env_snapshot(
    env_state: &mut Vars,
    before: &Vars,
    overlay: &Vars,
    snapshot: Option<Vars>,
)
    ensures
        match snapshot {
            Some(left) => bindings(final(env_state)@) == settled(
                bindings(before@),
                bindings(overlay@),
                bindings(left@),
            ),
            None => final(env_state)@ == old(env_state)@,
        },
{
    proof {
        use_type_invariant(overlay);
    }
    let mut next = match snapshot {
        Some(left) => left,
        None => {
            return ;
        },
    };
    let ghost left = bindings(next@);
    let ghost prior = bindings(before@);
    let mut i: usize = 0;
    assert(bindings(next@) =~= settled(prior, bindings(overlay@.take(0)), left));
    while i < overlay.len()
        invariant
            i <= overlay@.len(),
            distinct(overlay@),
            prior == bindings(before@),
            bindings(next@) == settled(prior, bindings(overlay@.take(i as int)), left),
        decreases overlay@.len() - i,
    {
        let name = overlay.name_at(i);
        let value = overlay.value_at(i);
        let ghost done = overlay@.take(i as int);
        proof {
            lemma_take_entry(overlay@, i as int);
        }
        assert(untouched(bindings(done), left, name@) == false);
        let same = match next.get(name.as_str()) {
            Some(current) => same_text(current.as_str(), value.as_str()),
            None => false,
        };
        if same {
            match before.get(name.as_str()) {
                Some(previous) => {
                    next.insert(name.clone(), previous.clone());
                },
                None => {
                    next.remove(name.as_str());
                },
            }
        }
        assert(bindings(next@) =~= settled(prior, bindings(done).insert(name@, value@), left));
        i += 1;
    }
    assert(overlay@.take(i as int) =~= overlay@);
    *env_state = next;
}

proof fn lemma_take_entry(entries: Entries, i: int)
    requires
        distinct(entries),
        0 <= i < entries.len(),
    ensures
        !bindings(entries.take(i)).contains_key(entries[i].0),
        bindings(entries.take(i + 1)) == bindings(entries.take(i)).insert(
            entries[i].0,
            entries[i].1,
        ),
{
    let done = entries.take(i);
    assert(distinct(done)) by {
        assert forall|a: int, b: int| 0 <= a < b < done.len() implies (#[trigger] done[a]).0 != (
        #[trigger] done[b]).0 by {
            assert(entries[a].0 != entries[b].0);
        }
    }
    assert forall|k: int| 0 <= k < done.len() implies (#[trigger] done[k]).0 != entries[i].0 by {
        assert(entries[k].0 != entries[i].0);
    }
    lemma_absent(done, entries[i].0);
    law_put(done, entries[i].0, entries[i].1);
    assert(put(done, entries[i].0, entries[i].1) =~= entries.take(i + 1));
}

/// A command that leaves its environment as it found it changes nothing for later steps: the
/// values its step laid over stay local to the step.
pub proof fn law_overlay_stays_local(
    before: Map<Seq<char>, Seq<char>>,
    overlay: Map<Seq<char>, Seq<char>>,
)
    ensures
        settled(before, overlay, before.union_prefer_right(overlay)) == before,
{
    assert(settled(before, overlay, before.union_prefer_right(overlay)) =~= before);
}

/// What a command changes or sets persists, whether or not its step laid a value over it.
pub proof fn law_change_persists(
    before: Map<Seq<char>, Seq<char>>,
    overlay: Map<Seq<char>, Seq<char>>,
    snapshot: Map<Seq<char>, Seq<char>>,
    name: Seq<char>,
)
    requires
        snapshot.contains_key(name),
        overlay.contains_key(name) ==> overlay[name] != snapshot[name],
    ensures
        settled(before, overlay, snapshot).contains_key(name),
        settled(before, overlay, snapshot)[name] == snapshot[name],
{
}

/// What a command unsets is gone for later steps.
pub proof fn law_unset_persists(
    before: Map<Seq<char>, Seq<char>>,
    overlay: Map<Seq<char>, Seq<char>>,
    snapshot: Map<Seq<char>, Seq<char>>,
    name: Seq<char>,
)
    requires
        !snapshot.contains_key(name),
    ensures
        !settled(before, overlay, snapshot).contains_key(name),
{
}

/// Of several values given for a name, the last one holds.
pub proof fn law_later_values_hold(
    base: Entries,
    overlay: Entries,
    name: Seq<char>,
    value: Seq<char>,
)
    requires
        distinct(base),
    ensures
        put_all(base, Seq::empty()) == base,
        distinct(put_all(base, overlay)),
        bindings(put_all(base, overlay.push((name, value)))) == bindings(
            put_all(base, overlay),
        ).insert(name, value),
    decreases overlay.len(),
{
    lemma_put_all_stays_distinct(base, overlay);
    assert(overlay.push((name, value)).drop_last() =~= overlay);
    law_put(put_all(base, overlay), name, value);
}

proof fn lemma_put_all_stays_distinct(base: Entries, overlay: Entries)
    requires
        distinct(base),
    ensures
        distinct(put_all(base, overlay)),
    decreases overlay.len(),
{
    if overlay.len() > 0 {
        lemma_put_all_stays_distinct(base, overlay.drop_last());
        law_put(put_all(base, overlay.drop_last()), overlay.last().0, overlay.last().1);
    }
}

}
