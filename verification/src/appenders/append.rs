//! What every appender shares: its verbosity limit, its target and its
//! per-module limits, and the decision whether a record is for it.
use vstd::prelude::*;
use vstd::utf8::encode_utf8;
use crate::level::{LevelFilter, level_passes, passes};
use crate::record::Record;
use crate::text::{is_prefix, is_split_piece, starts_with, has_split_piece, same_text};

verus! {

/// A module name and the verbosity limit for the records of that module.
pub type ModuleLevel = (String, LevelFilter);

/// The length in bytes of the UTF-8 encoding of a text, as `str::len`
/// gives it.
pub open spec fn byte_len(s: Seq<char>) -> usize {
    encode_utf8(s).len() as usize
}

/// The order in which module limits are kept: an entry with an empty name
/// comes first, then the others from the longest name (in bytes) to the
/// shortest; `a` may stand before `b`.
pub open spec fn sorts_no_later(a: Seq<char>, b: Seq<char>) -> bool {
    byte_len(a) == 0 || (byte_len(b) != 0 && byte_len(a) >= byte_len(b))
}

/// The module limits stand in the order of `sorts_no_later`.
pub open spec fn levels_sorted(levels: Seq<ModuleLevel>) -> bool {
    forall|i: int, j: int|
        0 <= i < j < levels.len() ==> sorts_no_later(#[trigger] levels[i].0@, #[trigger] levels[j].0@)
}

/// The first index from `k` on whose entry must stand after an entry named
/// `name`; the length of `levels` when there is none.
pub open spec fn insert_index_from(levels: Seq<ModuleLevel>, name: Seq<char>, k: int) -> int
    decreases levels.len() - k,
{
    if k < 0 || k >= levels.len() {
        levels.len() as int
    } else if !sorts_no_later(levels[k].0@, name) {
        k
    } else {
        insert_index_from(levels, name, k + 1)
    }
}

/// Where a new entry named `name` goes in `levels`: after every entry that
/// sorts no later than it.
pub open spec fn insert_index(levels: Seq<ModuleLevel>, name: Seq<char>) -> int {
    insert_index_from(levels, name, 0)
}

/// The index of the first entry from `k` on whose name is a prefix of
/// `module`.
pub open spec fn first_match_from(levels: Seq<ModuleLevel>, module: Seq<char>, k: int) -> Option<int>
    decreases levels.len() - k,
{
    if k < 0 || k >= levels.len() {
        None
    } else if is_prefix(levels[k].0@, module) {
        Some(k)
    } else {
        first_match_from(levels, module, k + 1)
    }
}

/// The verbosity limit that the module limits set for records of `module`:
/// that of the first entry whose name is a prefix of `module`.
pub open spec fn module_cap(levels: Seq<ModuleLevel>, module: Seq<char>) -> Option<LevelFilter> {
    match first_match_from(levels, module, 0) {
        Some(i) => Some(levels[i].1),
        None => None,
    }
}

/// The record's target is for an appender with target `own`: the appender
/// has no target, or the record's target is its module path, or `own` is one
/// of the `;`-separated pieces of the record's target.
pub open spec fn target_accepts(own: Seq<char>, record: &Record) -> bool {
    own.len() == 0 || record.target@ == record.module_chars() || is_split_piece(record.target@, own)
}

/// The record passes the module limit that applies to its module, if any.
pub open spec fn module_accepts(levels: Seq<ModuleLevel>, record: &Record) -> bool {
    record.module_chars().len() == 0 || match module_cap(levels, record.module_chars()) {
        Some(cap) => level_passes(record.level, cap),
        None => true,
    }
}

/// An appender with target `own`, verbosity limit `max_level` and module
/// limits `levels` takes `record`.
pub open spec fn spec_enabled(
    own: Seq<char>,
    max_level: LevelFilter,
    levels: Seq<ModuleLevel>,
    record: &Record,
) -> bool {
    &&& level_passes(record.level, max_level)
    &&& target_accepts(own, record)
    &&& module_accepts(levels, record)
}

/// The verbosity limit of the first module limit whose name is a prefix of
/// `module`.
pub fn find_module_level(levels: &[ModuleLevel], module: &str) -> (r: Option<LevelFilter>)
    ensures
        r == module_cap(levels@, module@),
{
    let n = levels.len();
    let mut i: usize = 0;
    while i < n
        invariant
            n == levels@.len(),
            i <= n,
            first_match_from(levels@, module@, 0) == first_match_from(levels@, module@, i as int),
        decreases n - i,
    {
        if starts_with(module, levels[i].0.as_str()) {
            return Some(levels[i].1);
        }
        i = i + 1;
    }
    None
}

/// Inserts `entry` into sorted module limits after every entry that sorts no
/// later than it, which keeps them sorted.
pub fn insert_module_level(levels: &mut Vec<ModuleLevel>, entry: ModuleLevel)
    requires
        levels_sorted(old(levels)@),
    ensures
        final(levels)@ == old(levels)@.insert(insert_index(old(levels)@, entry.0@), entry),
        levels_sorted(final(levels)@),
{
    let ghost old_levels = levels@;
    let name_len = entry.0.as_str().len();
    let n = levels.len();
    let mut i: usize = 0;
    while i < n
        invariant
            levels@ == old_levels,
            n == levels@.len(),
            name_len == byte_len(entry.0@),
            i <= n,
            insert_index(old_levels, entry.0@) == insert_index_from(old_levels, entry.0@, i as int),
            forall|k: int| 0 <= k < i ==> sorts_no_later(#[trigger] old_levels[k].0@, entry.0@),
        ensures
            i <= n,
            i < n ==> !sorts_no_later(old_levels[i as int].0@, entry.0@),
        decreases n - i,
    {
        let len_i = levels[i].0.as_str().len();
        let no_later = len_i == 0 || (name_len != 0 && len_i >= name_len);
        if !no_later {
            break;
        }
        i = i + 1;
    }
    proof {
        if i < n {
            assert(!sorts_no_later(old_levels[i as int].0@, entry.0@));
        }
        assert(insert_index(old_levels, entry.0@) == i);
    }
    levels.insert(i, entry);
    proof {
        lemma_insert_keeps_sorted(old_levels, entry);
    }
}

/// An appender: it has a target, a verbosity limit and module limits, and
/// from them it decides which records it takes.
pub trait Append: Send + Sync + 'static {
    /// The appender's target; empty when it has none.
    spec fn spec_target(&self) -> Seq<char>;

    /// The appender's verbosity limit.
    spec fn spec_max_level(&self) -> LevelFilter;

    /// The appender's module limits, in the order in which they are consulted.
    spec fn spec_module_levels(&self) -> Seq<ModuleLevel>;

    fn target(&self) -> (t: &str)
        ensures
            t@ == self.spec_target(),
    ;

    fn max_level(&self) -> (l: LevelFilter)
        ensures
            l == self.spec_max_level(),
    ;

    fn module_level(&self) -> (m: &[ModuleLevel])
        ensures
            m@ == self.spec_module_levels(),
    ;

    /// Whether the appender takes `record`: the record's level passes the
    /// appender's verbosity limit, its target is for the appender, and its
    /// level passes the limit of the first module limit whose name is a
    /// prefix of the record's module path.
    fn enabled(&self, record: &Record) -> (b: bool)
        ensures
            b == spec_enabled(self.spec_target(), self.spec_max_level(), self.spec_module_levels(), record),
    {
        if !passes(record.level(), self.max_level()) {
            return false;
        }
        let target = record.target();
        let module = record.module_or_empty();
        let own = self.target();
        if !own.is_empty() && !same_text(target, module) && !has_split_piece(target, own) {
            return false;
        }
        if !module.is_empty() {
            match find_module_level(self.module_level(), module) {
                Some(cap) => {
                    if !passes(record.level(), cap) {
                        return false;
                    }
                },
                None => {},
            }
        }
        true
    }
}

/// The decision of an appender's `append`: a record goes on when the
/// appender's message filter let it through and the appender takes it.
pub fn should_append<A: Append>(appender: &A, record: &Record, passes_filter: bool) -> (b: bool)
    ensures
        b == (passes_filter && spec_enabled(
            appender.spec_target(),
            appender.spec_max_level(),
            appender.spec_module_levels(),
            record,
        )),
{
    passes_filter && appender.enabled(record)
}

} // verus!

verus! {

/// An appender that takes a record also takes every record that differs
/// from it only in a more severe level.
pub proof fn lemma_more_severe_is_taken(
    own: Seq<char>,
    max_level: LevelFilter,
    levels: Seq<ModuleLevel>,
    taken: &Record,
    other: &Record,
)
    requires
        spec_enabled(own, max_level, levels, taken),
        other.level.rank() <= taken.level.rank(),
        other.target@ == taken.target@,
        other.module_chars() == taken.module_chars(),
    ensures
        spec_enabled(own, max_level, levels, other),
{
}

/// An appender with no target, the verbosity limit `Trace` and no module
/// limits takes every record.
pub proof fn lemma_unrestricted_takes_all(record: &Record)
    ensures
        spec_enabled(Seq::empty(), LevelFilter::Trace, Seq::empty(), record),
{
    assert(first_match_from(Seq::<ModuleLevel>::empty(), record.module_chars(), 0) is None);
}

/// A verbosity limit of `Off` takes no record.
pub proof fn lemma_off_takes_none(own: Seq<char>, levels: Seq<ModuleLevel>, record: &Record)
    ensures
        !spec_enabled(own, LevelFilter::Off, levels, record),
{
}

/// The first entry from `k` on whose name is a prefix of `module` is one,
/// and none before it from `k` on is one.
proof fn lemma_first_match_from(levels: Seq<ModuleLevel>, module: Seq<char>, k: int)
    requires
        0 <= k,
    ensures
        match first_match_from(levels, module, k) {
            Some(i) => k <= i < levels.len() && is_prefix(levels[i].0@, module)
                && forall|j: int| k <= j < i ==> !is_prefix(#[trigger] levels[j].0@, module),
            None => forall|j: int| k <= j < levels.len() ==> !is_prefix(#[trigger] levels[j].0@, module),
        },
    decreases levels.len() - k,
{
    if k < levels.len() && !is_prefix(levels[k].0@, module) {
        lemma_first_match_from(levels, module, k + 1);
    }
}

/// When no module limit has an empty name, the limit that applies to a
/// module is one with a longest name (in bytes) among those that are a
/// prefix of the module.
pub proof fn lemma_longest_prefix_applies(levels: Seq<ModuleLevel>, module: Seq<char>)
    requires
        levels_sorted(levels),
        forall|j: int| 0 <= j < levels.len() ==> byte_len(#[trigger] levels[j].0@) != 0,
    ensures
        first_match_from(levels, module, 0) matches Some(i) ==> forall|j: int|
            0 <= j < levels.len() && is_prefix(#[trigger] levels[j].0@, module) ==> byte_len(levels[j].0@)
                <= byte_len(levels[i].0@),
{
    lemma_first_match_from(levels, module, 0);
    if let Some(i) = first_match_from(levels, module, 0) {
        assert forall|j: int|
            0 <= j < levels.len() && is_prefix(#[trigger] levels[j].0@, module) implies byte_len(
                levels[j].0@,
            ) <= byte_len(levels[i].0@) by {
            if j > i {
                assert(sorts_no_later(levels[i].0@, levels[j].0@));
            } else if j < i {
                assert(!is_prefix(levels[j].0@, module));
            }
        }
    }
}

/// Inserting a module limit where `insert_module_level` puts it gives the
/// limits that it had and the new one, each as often as before: adding a
/// limit and sorting the limits by the order of `sorts_no_later`, keeping the
/// new one after those of its own length.
pub proof fn lemma_insert_is_permutation(levels: Seq<ModuleLevel>, entry: ModuleLevel)
    ensures
        levels.insert(insert_index(levels, entry.0@), entry).to_multiset() =~= levels.push(
            entry,
        ).to_multiset(),
{
    broadcast use vstd::multiset::group_multiset_axioms;
    lemma_insert_index_in_range(levels, entry.0@, 0);
    let p = insert_index(levels, entry.0@);
    let front = levels.subrange(0, p);
    let back = levels.subrange(p, levels.len() as int);
    assert(levels =~= front + back);
    vstd::seq_lib::lemma_multiset_commutative(front.push(entry), back);
    vstd::seq_lib::lemma_multiset_commutative(front, back);
    front.to_multiset_ensures();
    levels.to_multiset_ensures();
}

/// Where `insert_module_level` puts a new entry lies within the limits.
pub proof fn lemma_insert_index_in_range(levels: Seq<ModuleLevel>, name: Seq<char>, k: int)
    requires
        0 <= k,
    ensures
        k <= levels.len() ==> k <= insert_index_from(levels, name, k) <= levels.len(),
        0 <= insert_index_from(levels, name, k) <= levels.len(),
    decreases levels.len() - k,
{
    if k < levels.len() && sorts_no_later(levels[k].0@, name) {
        lemma_insert_index_in_range(levels, name, k + 1);
    }
}

} // verus!

verus! {

/// The order in which module limits are kept is transitive.
proof fn lemma_sorts_no_later_transitive(a: Seq<char>, b: Seq<char>, c: Seq<char>)
    requires
        sorts_no_later(a, b),
        sorts_no_later(b, c),
    ensures
        sorts_no_later(a, c),
{
}

proof fn lemma_insert_index_from(levels: Seq<ModuleLevel>, name: Seq<char>, k: int)
    requires
        0 <= k <= levels.len(),
    ensures
        k <= insert_index_from(levels, name, k) <= levels.len(),
        forall|j: int| k <= j < insert_index_from(levels, name, k) ==> sorts_no_later(#[trigger] levels[j].0@, name),
        insert_index_from(levels, name, k) < levels.len() ==> !sorts_no_later(
            levels[insert_index_from(levels, name, k)].0@,
            name,
        ),
    decreases levels.len() - k,
{
    if k < levels.len() && sorts_no_later(levels[k].0@, name) {
        lemma_insert_index_from(levels, name, k + 1);
    }
}

/// In sorted module limits, a new entry named `name` goes after every entry
/// that sorts no later than it, those of its own length among them, and
/// before every other entry.
pub proof fn lemma_insert_position(levels: Seq<ModuleLevel>, name: Seq<char>)
    requires
        levels_sorted(levels),
    ensures
        0 <= insert_index(levels, name) <= levels.len(),
        forall|j: int| 0 <= j < insert_index(levels, name) ==> sorts_no_later(#[trigger] levels[j].0@, name),
        forall|j: int|
            insert_index(levels, name) <= j < levels.len() ==> !sorts_no_later(#[trigger] levels[j].0@, name),
{
    lemma_insert_index_from(levels, name, 0);
    let p = insert_index(levels, name);
    assert forall|j: int| p <= j < levels.len() implies !sorts_no_later(#[trigger] levels[j].0@, name) by {
        if j > p && sorts_no_later(levels[j].0@, name) {
            lemma_sorts_no_later_transitive(levels[p].0@, levels[j].0@, name);
        }
    }
}

/// Inserting an entry where `insert_module_level` puts it keeps module limits
/// sorted.
pub proof fn lemma_insert_keeps_sorted(levels: Seq<ModuleLevel>, entry: ModuleLevel)
    requires
        levels_sorted(levels),
    ensures
        levels_sorted(levels.insert(insert_index(levels, entry.0@), entry)),
{
    lemma_insert_position(levels, entry.0@);
    let p = insert_index(levels, entry.0@);
    let r = levels.insert(p, entry);
    assert forall|a: int, b: int| 0 <= a < b < r.len() implies sorts_no_later(#[trigger] r[a].0@, #[trigger] r[b].0@) by {
        if b < p {
            assert(r[a] == levels[a] && r[b] == levels[b]);
        } else if b == p {
            assert(r[a] == levels[a]);
        } else if a == p {
            assert(r[b] == levels[b - 1]);
            assert(!sorts_no_later(levels[b - 1].0@, entry.0@));
        } else if a < p {
            assert(r[a] == levels[a] && r[b] == levels[b - 1]);
        } else {
            assert(r[a] == levels[a - 1] && r[b] == levels[b - 1]);
        }
    }
}

/// Adding a module limit to sorted limits, as `with_module_level` does, is a
/// stable sort of the limits followed by the new one: the result is sorted,
/// holds the same entries, keeps the old entries in their order, and puts the
/// new entry after the old ones of its own length.
pub proof fn lemma_adding_module_level_is_stable_sort(levels: Seq<ModuleLevel>, entry: ModuleLevel)
    requires
        levels_sorted(levels),
    ensures
        levels_sorted(levels.insert(insert_index(levels, entry.0@), entry)),
        levels.insert(insert_index(levels, entry.0@), entry).to_multiset() == levels.push(entry).to_multiset(),
        levels.insert(insert_index(levels, entry.0@), entry).remove(insert_index(levels, entry.0@)) == levels,
        forall|j: int|
            0 <= j < insert_index(levels, entry.0@) ==> sorts_no_later(#[trigger] levels[j].0@, entry.0@),
        forall|j: int|
            insert_index(levels, entry.0@) <= j < levels.len() ==> !sorts_no_later(#[trigger] levels[j].0@, entry.0@),
{
    lemma_insert_position(levels, entry.0@);
    lemma_insert_keeps_sorted(levels, entry);
    lemma_insert_is_permutation(levels, entry);
    let p = insert_index(levels, entry.0@);
    assert(levels.insert(p, entry).remove(p) =~= levels);
}

/// The module limits that adding `entries` one after the other to an
/// appender without module limits gives.
pub open spec fn levels_after(entries: Seq<ModuleLevel>) -> Seq<ModuleLevel>
    decreases entries.len(),
{
    if entries.len() == 0 {
        Seq::empty()
    } else {
        let before = levels_after(entries.drop_last());
        before.insert(insert_index(before, entries.last().0@), entries.last())
    }
}

/// Among the added `entries`, the one at `k` names a prefix of `module`, no
/// entry naming a prefix of `module` has a longer name (in bytes), and none
/// added before it has a name as long.
pub open spec fn is_best_match(entries: Seq<ModuleLevel>, module: Seq<char>, k: int) -> bool {
    &&& 0 <= k < entries.len()
    &&& is_prefix(entries[k].0@, module)
    &&& forall|j: int|
        0 <= j < entries.len() && is_prefix(#[trigger] entries[j].0@, module) ==> byte_len(entries[j].0@)
            <= byte_len(entries[k].0@)
    &&& forall|j: int|
        0 <= j < k && is_prefix(#[trigger] entries[j].0@, module) ==> byte_len(entries[j].0@) < byte_len(
            entries[k].0@,
        )
}

/// Adding entries one after the other keeps them sorted, as many as were
/// added, each of them one of the added entries.
pub proof fn lemma_levels_after_shape(entries: Seq<ModuleLevel>)
    ensures
        levels_sorted(levels_after(entries)),
        levels_after(entries).len() == entries.len(),
        forall|i: int|
            0 <= i < entries.len() ==> exists|j: int| 0 <= j < entries.len() && #[trigger] levels_after(entries)[i] == entries[j],
    decreases entries.len(),
{
    if entries.len() > 0 {
        let front = entries.drop_last();
        let e = entries.last();
        lemma_levels_after_shape(front);
        let before = levels_after(front);
        lemma_insert_keeps_sorted(before, e);
        lemma_insert_position(before, e.0@);
        let p = insert_index(before, e.0@);
        let after = levels_after(entries);
        assert(after == before.insert(p, e));
        assert forall|i: int| 0 <= i < entries.len() implies exists|j: int|
            0 <= j < entries.len() && #[trigger] after[i] == entries[j] by {
            if i < p {
                assert(after[i] == before[i]);
                let j = choose|j: int| 0 <= j < front.len() && before[i] == front[j];
                assert(entries[j] == front[j]);
            } else if i == p {
                assert(after[i] == entries[entries.len() - 1]);
            } else {
                assert(after[i] == before[i - 1]);
                let j = choose|j: int| 0 <= j < front.len() && before[i - 1] == front[j];
                assert(entries[j] == front[j]);
            }
        }
    }
}

/// Shows `first_match_from(levels, module, 0) == Some(i)` from its meaning.
proof fn lemma_first_match_is(levels: Seq<ModuleLevel>, module: Seq<char>, i: int)
    requires
        0 <= i < levels.len(),
        is_prefix(levels[i].0@, module),
        forall|j: int| 0 <= j < i ==> !is_prefix(#[trigger] levels[j].0@, module),
    ensures
        first_match_from(levels, module, 0) == Some(i),
{
    lemma_first_match_from(levels, module, 0);
    match first_match_from(levels, module, 0) {
        Some(x) => {
            if x < i {
                assert(!is_prefix(levels[x].0@, module));
            } else if x > i {
                assert(!is_prefix(levels[i].0@, module));
            }
        },
        None => {
            assert(!is_prefix(levels[i].0@, module));
        },
    }
}

/// When module limits are added one after the other and no name is empty,
/// the first limit whose name is a prefix of `module` is the best match among
/// the added entries: one with a longest such name, and of those the one
/// added first; there is none when no added name is a prefix of `module`.
pub proof fn lemma_first_match_after(entries: Seq<ModuleLevel>, module: Seq<char>)
    requires
        forall|j: int| 0 <= j < entries.len() ==> byte_len(#[trigger] entries[j].0@) != 0,
    ensures
        match first_match_from(levels_after(entries), module, 0) {
            Some(i) => 0 <= i < entries.len() && exists|k: int|
                is_best_match(entries, module, k) && #[trigger] levels_after(entries)[i] == entries[k],
            None => forall|j: int| 0 <= j < entries.len() ==> !is_prefix(#[trigger] entries[j].0@, module),
        },
    decreases entries.len(),
{
    lemma_levels_after_shape(entries);
    let after = levels_after(entries);
    lemma_first_match_from(after, module, 0);
    if entries.len() > 0 {
        let n = entries.len() as int;
        let front = entries.drop_last();
        let e = entries.last();
        assert(e == entries[n - 1]);
        assert forall|j: int| 0 <= j < front.len() implies byte_len(#[trigger] front[j].0@) != 0 by {
            assert(front[j] == entries[j]);
        }
        lemma_first_match_after(front, module);
        lemma_levels_after_shape(front);
        let before = levels_after(front);
        lemma_insert_position(before, e.0@);
        let p = insert_index(before, e.0@);
        assert(after == before.insert(p, e));
        lemma_first_match_from(before, module, 0);
        let e_matches = is_prefix(e.0@, module);
        match first_match_from(before, module, 0) {
            None => {
                if e_matches {
                    assert forall|j: int| 0 <= j < p implies !is_prefix(#[trigger] after[j].0@, module) by {
                        assert(after[j] == before[j]);
                    }
                    lemma_first_match_is(after, module, p);
                    assert forall|j: int| 0 <= j < n && is_prefix(#[trigger] entries[j].0@, module)
                        implies byte_len(entries[j].0@) <= byte_len(entries[n - 1].0@) by {
                        if j < n - 1 {
                            assert(entries[j] == front[j]);
                        }
                    }
                    assert forall|j: int| 0 <= j < n - 1 && is_prefix(#[trigger] entries[j].0@, module)
                        implies byte_len(entries[j].0@) < byte_len(entries[n - 1].0@) by {
                        assert(entries[j] == front[j]);
                    }
                    assert(is_best_match(entries, module, n - 1));
                    assert(after[p] == entries[n - 1]);
                } else {
                    assert forall|j: int| 0 <= j < n implies !is_prefix(#[trigger] entries[j].0@, module) by {
                        if j < n - 1 {
                            assert(entries[j] == front[j]);
                        }
                    }
                    if let Some(x) = first_match_from(after, module, 0) {
                        let j = choose|j: int| 0 <= j < n && after[x] == entries[j];
                        assert(is_prefix(entries[j].0@, module));
                    }
                }
            },
            Some(i) => {
                let k = choose|k: int| is_best_match(front, module, k) && before[i] == front[k];
                assert(front[k] == entries[k]);
                let longer = e_matches && byte_len(e.0@) > byte_len(front[k].0@);
                if longer {
                    assert(!sorts_no_later(before[i].0@, e.0@));
                    assert(p <= i);
                    assert forall|j: int| 0 <= j < p implies !is_prefix(#[trigger] after[j].0@, module) by {
                        assert(after[j] == before[j]);
                    }
                    lemma_first_match_is(after, module, p);
                    assert forall|j: int| 0 <= j < n && is_prefix(#[trigger] entries[j].0@, module)
                        implies byte_len(entries[j].0@) <= byte_len(entries[n - 1].0@) by {
                        if j < n - 1 {
                            assert(entries[j] == front[j]);
                        }
                    }
                    assert forall|j: int| 0 <= j < n - 1 && is_prefix(#[trigger] entries[j].0@, module)
                        implies byte_len(entries[j].0@) < byte_len(entries[n - 1].0@) by {
                        assert(entries[j] == front[j]);
                    }
                    assert(is_best_match(entries, module, n - 1));
                    assert(after[p] == entries[n - 1]);
                } else {
                    let i2 = if i < p { i } else { i + 1 };
                    if e_matches {
                        assert(sorts_no_later(before[i].0@, e.0@));
                        assert(i < p);
                    }
                    assert(after[i2] == before[i]);
                    assert forall|j: int| 0 <= j < i2 implies !is_prefix(#[trigger] after[j].0@, module) by {
                        if j < p {
                            assert(after[j] == before[j]);
                        } else if j == p {
                            assert(after[j] == e);
                        } else {
                            assert(after[j] == before[j - 1]);
                        }
                    }
                    lemma_first_match_is(after, module, i2);
                    assert forall|j: int| 0 <= j < n && is_prefix(#[trigger] entries[j].0@, module)
                        implies byte_len(entries[j].0@) <= byte_len(entries[k].0@) by {
                        if j < n - 1 {
                            assert(entries[j] == front[j]);
                        }
                    }
                    assert forall|j: int| 0 <= j < k && is_prefix(#[trigger] entries[j].0@, module)
                        implies byte_len(entries[j].0@) < byte_len(entries[k].0@) by {
                        assert(entries[j] == front[j]);
                    }
                    assert(is_best_match(entries, module, k));
                }
            },
        }
    }
}

/// An appender whose module limits were added one after the other, none with
/// an empty name, takes a record of a module by the limit of the best match
/// among the added entries: the one with the longest name that is a prefix of
/// the module, and of those the one added first; a module that no added name
/// is a prefix of is held to no module limit.
pub proof fn lemma_enabled_by_best_match(
    own: Seq<char>,
    max_level: LevelFilter,
    entries: Seq<ModuleLevel>,
    record: &Record,
    k: int,
)
    requires
        forall|j: int| 0 <= j < entries.len() ==> byte_len(#[trigger] entries[j].0@) != 0,
        record.module_chars().len() != 0,
        is_best_match(entries, record.module_chars(), k),
    ensures
        spec_enabled(own, max_level, levels_after(entries), record) == (level_passes(record.level, max_level)
            && target_accepts(own, record) && level_passes(record.level, entries[k].1)),
{
    let module = record.module_chars();
    lemma_first_match_after(entries, module);
    match first_match_from(levels_after(entries), module, 0) {
        Some(i) => {
            let k2 = choose|k2: int| is_best_match(entries, module, k2) && levels_after(entries)[i] == entries[k2];
            if k2 < k {
                assert(byte_len(entries[k2].0@) < byte_len(entries[k].0@));
            } else if k2 > k {
                assert(byte_len(entries[k].0@) < byte_len(entries[k2].0@));
            }
        },
        None => {
            assert(!is_prefix(entries[k].0@, module));
        },
    }
}

/// A module that no added name is a prefix of is held to no module limit.
pub proof fn lemma_enabled_without_match(
    own: Seq<char>,
    max_level: LevelFilter,
    entries: Seq<ModuleLevel>,
    record: &Record,
)
    requires
        forall|j: int| 0 <= j < entries.len() ==> byte_len(#[trigger] entries[j].0@) != 0,
        forall|j: int| 0 <= j < entries.len() ==> !is_prefix(#[trigger] entries[j].0@, record.module_chars()),
    ensures
        spec_enabled(own, max_level, levels_after(entries), record) == (level_passes(record.level, max_level)
            && target_accepts(own, record)),
{
    let module = record.module_chars();
    lemma_first_match_after(entries, module);
    lemma_levels_after_shape(entries);
    if let Some(i) = first_match_from(levels_after(entries), module, 0) {
        let k = choose|k: int| is_best_match(entries, module, k) && #[trigger] levels_after(entries)[i] == entries[k];
        assert(!is_prefix(entries[k].0@, module));
    }
}

} // verus!

verus! {

/// Adding one more module limit to limits that came from `entries` gives
/// the limits that come from `entries` followed by it; so an appender built
/// with `new()` and `with_module_level(e1)` .. `with_module_level(ek)` has
/// `levels_after(seq![e1, .., ek])` as its module limits.
pub proof fn lemma_levels_after_push(entries: Seq<ModuleLevel>, entry: ModuleLevel)
    ensures
        levels_after(entries.push(entry)) == levels_after(entries).insert(
            insert_index(levels_after(entries), entry.0@),
            entry,
        ),
{
    assert(entries.push(entry).drop_last() =~= entries);
}

} // verus!
