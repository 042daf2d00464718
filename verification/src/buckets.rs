//! Pending files by bucket: each bucket collects files until it is large enough to be
//! written out as one blob.
use vstd::prelude::*;
use vstd::hash_map::StringHashMap;
use vstd::multiset::Multiset;

use crate::aggregate::{lemma_total_push, total_bytes, Payload};

verus! {

struct Bucket<F> {
    key: String,
    files: Vec<F>,
    size: u64,
}

/// The pending files of every bucket that has been used.
pub struct BucketMap<F: Payload> {
    buckets: Vec<Bucket<F>>,
    slots: StringHashMap<usize>,
}

/// The files that wait in a bucket; none where it has not been used.
pub open spec fn waiting<F: Payload>(buckets: Map<Seq<char>, Seq<F>>, key: Seq<char>) -> Seq<F> {
    if buckets.contains_key(key) {
        buckets[key]
    } else {
        Seq::empty()
    }
}

/// The files that were handed out, in the model.
pub open spec fn handed_out<F>(out: Option<Vec<F>>) -> Option<Seq<F>> {
    match out {
        Some(files) => Some(files@),
        None => None,
    }
}

/// The files that were handed out together with their bucket.
pub open spec fn group_of<F>(out: Option<(String, Vec<F>)>) -> Option<Seq<F>> {
    match out {
        Some((_, files)) => Some(files@),
        None => None,
    }
}

/// Whether `after` are the buckets once a file was added to one of them, and `out` what
/// was handed out: all files of the bucket, once it holds at least `max_size` bytes.
pub open spec fn added<F: Payload>(
    before: Map<Seq<char>, Seq<F>>,
    key: Seq<char>,
    file: F,
    max_size: u64,
    out: Option<Seq<F>>,
    after: Map<Seq<char>, Seq<F>>,
) -> bool {
    let files = waiting(before, key).push(file);
    if total_bytes(files) >= max_size {
        &&& out == Some(files)
        &&& after == before.insert(key, Seq::empty())
    } else {
        &&& out is None
        &&& after == before.insert(key, files)
    }
}

/// No file is lost and none is doubled: what waits in a bucket afterwards, together with
/// what was handed out, is what had waited there before, and the new file.
pub proof fn law_every_file_waits_or_is_handed_out<F: Payload>(
    before: Map<Seq<char>, Seq<F>>,
    key: Seq<char>,
    file: F,
    max_size: u64,
    out: Option<Seq<F>>,
    after: Map<Seq<char>, Seq<F>>,
    other: Seq<char>,
)
    requires
        added(before, key, file, max_size, out, after),
    ensures
        (match out {
            Some(files) => files,
            None => Seq::empty(),
        }) + waiting(after, key) == waiting(before, key).push(file),
        other != key ==> waiting(after, other) == waiting(before, other),
{
    assert(waiting(before, key).push(file) + Seq::<F>::empty() =~= waiting(before, key).push(file));
    assert(Seq::<F>::empty() + waiting(before, key).push(file) =~= waiting(before, key).push(file));
}

/// A bucket always holds less than a full blob, and what is handed out is a full blob that
/// exceeds the limit by less than the file that filled it.
pub proof fn law_buckets_stay_below_the_limit<F: Payload>(
    before: Map<Seq<char>, Seq<F>>,
    key: Seq<char>,
    file: F,
    max_size: u64,
    out: Option<Seq<F>>,
    after: Map<Seq<char>, Seq<F>>,
)
    requires
        max_size > 0,
        forall|k: Seq<char>| total_bytes(#[trigger] waiting(before, k)) < max_size,
        added(before, key, file, max_size, out, after),
    ensures
        forall|k: Seq<char>| total_bytes(#[trigger] waiting(after, k)) < max_size,
        out matches Some(files) ==> max_size <= total_bytes(files) < max_size + file.bytes(),
{
    lemma_total_push(waiting(before, key), file);
    assert forall|k: Seq<char>| total_bytes(#[trigger] waiting(after, k)) < max_size by {
        if k != key {
            assert(waiting(after, k) == waiting(before, k));
        }
    }
}

/// Whether `out` hands out every bucket that has files, each once and with all its files,
/// and nothing waits any more.
pub open spec fn drained<F: Payload>(
    before: Map<Seq<char>, Seq<F>>,
    out: Seq<(String, Vec<F>)>,
    after: Map<Seq<char>, Seq<F>>,
) -> bool {
    &&& after.dom() == before.dom()
    &&& forall|k: Seq<char>| #[trigger] after.contains_key(k) ==> after[k].len() == 0
    &&& forall|n: int|
        0 <= n < out.len() ==> {
            let key = (#[trigger] out[n]).0@;
            &&& before.contains_key(key)
            &&& out[n].1@ == before[key]
            &&& out[n].1@.len() > 0
        }
    &&& forall|n: int, m: int|
        0 <= n < m < out.len() ==> (#[trigger] out[n]).0@ != (#[trigger] out[m]).0@
    &&& forall|k: Seq<char>| #[trigger]
        before.contains_key(k) && before[k].len() > 0 ==> exists|n: int|
            0 <= n < out.len() && (#[trigger] out[n]).0@ == k
}

/// The files of some groups, each as often as it occurs in them.
pub open spec fn files_in<F: Payload>(groups: Seq<Seq<F>>) -> Multiset<F>
    decreases groups.len(),
{
    if groups.len() == 0 {
        Multiset::empty()
    } else {
        files_in(groups.drop_last()).add(groups.last().to_multiset())
    }
}

/// The groups that a number of additions handed out.
pub open spec fn groups_of<F: Payload>(outs: Seq<Option<Seq<F>>>) -> Seq<Seq<F>>
    decreases outs.len(),
{
    if outs.len() == 0 {
        Seq::empty()
    } else {
        match outs.last() {
            Some(files) => groups_of(outs.drop_last()).push(files),
            None => groups_of(outs.drop_last()),
        }
    }
}

/// The files of each bucket that was handed out.
pub open spec fn bucket_files<F: Payload>(out: Seq<(String, Vec<F>)>) -> Seq<Seq<F>> {
    Seq::new(out.len(), |n: int| out[n].1@)
}

/// Whether `states` are the buckets before the first, between and after the last of a number
/// of additions, which hand out `outs` and begin with no bucket.
pub open spec fn run_of<F: Payload>(
    states: Seq<Map<Seq<char>, Seq<F>>>,
    keys: Seq<Seq<char>>,
    files: Seq<F>,
    max_sizes: Seq<u64>,
    outs: Seq<Option<Seq<F>>>,
) -> bool {
    &&& states.len() == files.len() + 1
    &&& keys.len() == files.len()
    &&& outs.len() == files.len()
    &&& max_sizes.len() == files.len()
    &&& states[0] == Map::<Seq<char>, Seq<F>>::empty()
    &&& forall|i: int|
        0 <= i < files.len() ==> #[trigger] added(
            states[i],
            keys[i],
            files[i],
            max_sizes[i],
            outs[i],
            states[i + 1],
        )
}

/// Whether the groups are all that waits, each bucket at most once.
spec fn lists<F: Payload>(
    buckets: Map<Seq<char>, Seq<F>>,
    keys: Seq<Seq<char>>,
    groups: Seq<Seq<F>>,
) -> bool {
    &&& keys.len() == groups.len()
    &&& forall|n: int|
        0 <= n < groups.len() ==> #[trigger] groups[n] == waiting(buckets, keys[n])
    &&& forall|n: int, m: int| 0 <= n < m < keys.len() ==> #[trigger] keys[n] != #[trigger] keys[m]
    &&& forall|k: Seq<char>|
        (#[trigger] waiting(buckets, k)).len() > 0 ==> exists|n: int|
            0 <= n < keys.len() && #[trigger] keys[n] == k
}

proof fn lemma_files_in_push<F: Payload>(groups: Seq<Seq<F>>, files: Seq<F>)
    ensures
        files_in(groups.push(files)) == files_in(groups).add(files.to_multiset()),
{
    assert(groups.push(files).drop_last() =~= groups);
}

proof fn lemma_files_in_update<F: Payload>(groups: Seq<Seq<F>>, n: int, files: Seq<F>)
    requires
        0 <= n < groups.len(),
    ensures
        files_in(groups.update(n, files)).add(groups[n].to_multiset()) == files_in(groups).add(
            files.to_multiset(),
        ),
    decreases groups.len(),
{
    let t = groups.update(n, files);
    if n == groups.len() - 1 {
        assert(t.drop_last() =~= groups.drop_last());
        assert(files_in(t).add(groups[n].to_multiset()) =~= files_in(groups).add(
            files.to_multiset(),
        ));
    } else {
        assert(t.drop_last() =~= groups.drop_last().update(n, files));
        lemma_files_in_update(groups.drop_last(), n, files);
        let last = groups.last().to_multiset();
        assert(t.last() == groups.last());
        assert(files_in(t).add(groups[n].to_multiset()) =~= files_in(t.drop_last()).add(
            groups[n].to_multiset(),
        ).add(last));
        assert(files_in(groups).add(files.to_multiset()) =~= files_in(groups.drop_last()).add(
            files.to_multiset(),
        ).add(last));
    }
}

proof fn lemma_nothing_in_empty_groups<F: Payload>(groups: Seq<Seq<F>>)
    requires
        forall|n: int| 0 <= n < groups.len() ==> (#[trigger] groups[n]).len() == 0,
    ensures
        files_in(groups) == Multiset::<F>::empty(),
    decreases groups.len(),
{
    broadcast use vstd::seq_lib::group_to_multiset_ensures;

    if groups.len() > 0 {
        lemma_nothing_in_empty_groups(groups.drop_last());
        assert(groups.last() =~= Seq::<F>::empty());
        assert(files_in(groups) =~= Multiset::<F>::empty());
    }
}

/// What was handed out so far, together with what waits, is what was added.
proof fn lemma_run<F: Payload>(
    states: Seq<Map<Seq<char>, Seq<F>>>,
    keys: Seq<Seq<char>>,
    files: Seq<F>,
    max_sizes: Seq<u64>,
    outs: Seq<Option<Seq<F>>>,
    open: Seq<Seq<char>>,
    groups: Seq<Seq<F>>,
)
    requires
        run_of(states, keys, files, max_sizes, outs),
        lists(states.last(), open, groups),
    ensures
        files_in(groups_of(outs)).add(files_in(groups)) == files.to_multiset(),
        forall|n: int|
            0 <= n < groups_of(outs).len() ==> (#[trigger] groups_of(outs)[n]).len() > 0,
    decreases files.len(),
{
    broadcast use vstd::seq_lib::group_to_multiset_ensures;

    if files.len() == 0 {
        lemma_nothing_in_empty_groups(groups);
        assert(files =~= Seq::<F>::empty());
        assert(files_in(groups_of(outs)).add(files_in(groups)) =~= files.to_multiset());
    } else {
        let i = files.len() - 1;
        let (key, file, out) = (keys[i], files[i], outs[i]);
        let (before, after) = (states[i], states[i + 1]);
        assert(added(before, key, file, max_sizes[i], out, after));
        assert(states.last() == after);
        let earlier = waiting(before, key);
        assert forall|k: Seq<char>| k != key implies #[trigger] waiting(after, k) == waiting(
            before,
            k,
        ) by {}
        assert(run_of(
            states.drop_last(),
            keys.drop_last(),
            files.drop_last(),
            max_sizes.drop_last(),
            outs.drop_last(),
        )) by {
            let (s, k, f, o) = (
                states.drop_last(),
                keys.drop_last(),
                files.drop_last(),
                outs.drop_last(),
            );
            let m = max_sizes.drop_last();
            assert forall|j: int| 0 <= j < f.len() implies #[trigger] added(
                s[j],
                k[j],
                f[j],
                m[j],
                o[j],
                s[j + 1],
            ) by {
                assert(added(states[j], keys[j], files[j], max_sizes[j], outs[j], states[j + 1]));
            }
        }
        assert(states.drop_last().last() == before);
        let known = exists|n: int| 0 <= n < open.len() && #[trigger] open[n] == key;
        let n = choose|n: int| 0 <= n < open.len() && #[trigger] open[n] == key;
        let (was_open, was) = if known {
            (open, groups.update(n, earlier))
        } else {
            (open.push(key), groups.push(earlier))
        };
        assert(lists(before, was_open, was)) by {
            assert forall|k: Seq<char>|
                (#[trigger] waiting(before, k)).len() > 0 implies exists|m: int|
                0 <= m < was_open.len() && #[trigger] was_open[m] == k by {
                if k == key {
                    if known {
                        assert(was_open[n] == key);
                    } else {
                        assert(was_open[open.len() as int] == key);
                    }
                } else {
                    assert(waiting(after, k).len() > 0);
                    let m = choose|m: int| 0 <= m < open.len() && #[trigger] open[m] == k;
                    assert(was_open[m] == k);
                }
            }
            assert forall|m: int| 0 <= m < was.len() implies #[trigger] was[m] == waiting(
                before,
                was_open[m],
            ) by {
                if m < open.len() {
                    assert(groups[m] == waiting(after, open[m]));
                    if known && m != n {
                        assert(open[m] != open[n]);
                    }
                }
            }
        }
        lemma_run(
            states.drop_last(),
            keys.drop_last(),
            files.drop_last(),
            max_sizes.drop_last(),
            outs.drop_last(),
            was_open,
            was,
        );
        let rest = groups_of(outs.drop_last());
        let all = earlier.push(file);
        assert(all.to_multiset() == earlier.to_multiset().insert(file));
        assert(files =~= files.drop_last().push(file));
        assert(files.to_multiset() == files.drop_last().to_multiset().insert(file));
        if known {
            lemma_files_in_update(groups, n, earlier);
            assert(groups[n] == waiting(after, key));
        } else {
            lemma_files_in_push(groups, earlier);
            assert(waiting(after, key).len() == 0);
        }
        let now = waiting(after, key);
        assert(files_in(was).add(now.to_multiset()) =~= files_in(groups).add(
            earlier.to_multiset(),
        )) by {
            if !known {
                assert(now =~= Seq::<F>::empty());
            }
        }
        if out is Some {
            assert(out == Some(all));
            assert(now =~= Seq::<F>::empty());
            lemma_files_in_push(rest, all);
        } else {
            assert(now == all);
        }
        assert forall|x: F| #[trigger]
            files_in(groups_of(outs)).add(files_in(groups)).count(x) == files.to_multiset().count(
                x,
            ) by {
            assert(files_in(was).add(now.to_multiset()).count(x) == files_in(groups).add(
                earlier.to_multiset(),
            ).count(x));
            assert(files_in(rest).add(files_in(was)).count(x)
                == files.drop_last().to_multiset().count(x));
        }
        assert(files_in(groups_of(outs)).add(files_in(groups)) =~= files.to_multiset());
    }
}

/// Over a whole run every file comes out exactly once: the groups that the additions handed
/// out, together with those that were drained at the end, hold the files that were added and
/// no others, none is empty, and nothing waits any more.
pub proof fn law_every_file_comes_out_once<F: Payload>(
    states: Seq<Map<Seq<char>, Seq<F>>>,
    keys: Seq<Seq<char>>,
    files: Seq<F>,
    max_sizes: Seq<u64>,
    outs: Seq<Option<Seq<F>>>,
    rest: Seq<(String, Vec<F>)>,
    after: Map<Seq<char>, Seq<F>>,
)
    requires
        run_of(states, keys, files, max_sizes, outs),
        drained(states.last(), rest, after),
    ensures
        files_in(groups_of(outs)).add(files_in(bucket_files(rest))) == files.to_multiset(),
        forall|n: int|
            0 <= n < groups_of(outs).len() ==> (#[trigger] groups_of(outs)[n]).len() > 0,
        forall|n: int| 0 <= n < rest.len() ==> (#[trigger] rest[n]).1@.len() > 0,
        forall|k: Seq<char>| (#[trigger] waiting(after, k)).len() == 0,
{
    let open = Seq::new(rest.len(), |n: int| rest[n].0@);
    let groups = bucket_files(rest);
    let last = states.last();
    assert(lists(last, open, groups)) by {
        assert forall|n: int| 0 <= n < groups.len() implies #[trigger] groups[n] == waiting(
            last,
            open[n],
        ) by {
            assert(last.contains_key(rest[n].0@));
        }
        assert forall|n: int, m: int| 0 <= n < m < open.len() implies #[trigger] open[n]
            != #[trigger] open[m] by {
            assert(rest[n].0@ != rest[m].0@);
        }
        assert forall|k: Seq<char>| (#[trigger] waiting(last, k)).len() > 0 implies exists|n: int|
            0 <= n < open.len() && #[trigger] open[n] == k by {
            assert(last.contains_key(k) && last[k].len() > 0);
            let n = choose|n: int| 0 <= n < rest.len() && (#[trigger] rest[n]).0@ == k;
            assert(open[n] == k);
        }
    }
    lemma_run(states, keys, files, max_sizes, outs, open, groups);
}

/// The groups that a number of calls handed out, each with its bucket.
pub open spec fn handed_groups<F: Payload>(outs: Seq<Option<(String, Vec<F>)>>) -> Seq<Seq<F>> {
    groups_of(Seq::new(outs.len(), |i: int| group_of(outs[i])))
}

impl<F: Payload> View for BucketMap<F> {
    type V = Map<Seq<char>, Seq<F>>;

    closed spec fn view(&self) -> Map<Seq<char>, Seq<F>> {
        Map::new(
            |k: Seq<char>| self.slots@.contains_key(k),
            |k: Seq<char>| self.buckets@[self.slots@[k] as int].files@,
        )
    }
}

impl<F: Payload> BucketMap<F> {
    /// Every bucket is found under its key, and its size is that of its files.
    pub closed spec fn wf(&self) -> bool {
        &&& forall|k: Seq<char>| #[trigger]
            self.slots@.contains_key(k) ==> self.slots@[k] < self.buckets@.len()
                && self.buckets@[self.slots@[k] as int].key@ == k
        &&& forall|i: int|
            0 <= i < self.buckets@.len() ==> self.slots@.contains_key(
                #[trigger] self.buckets@[i].key@,
            ) && self.slots@[self.buckets@[i].key@] == i
        &&& forall|i: int|
            0 <= i < self.buckets@.len() ==> (#[trigger] self.buckets@[i]).size == total_bytes(
                self.buckets@[i].files@,
            )
    }

    /// The pending files of a bucket; none where it has not been used.
    pub open spec fn pending(&self, key: Seq<char>) -> Seq<F> {
        waiting(self@, key)
    }

    pub fn new() -> (r: Self)
        ensures
            r.wf(),
            r@ == Map::<Seq<char>, Seq<F>>::empty(),
    {
        let r = BucketMap { buckets: Vec::new(), slots: StringHashMap::new() };
        assert(r@ =~= Map::<Seq<char>, Seq<F>>::empty());
        r
    }

    /// The position of a bucket, which is made where there is none yet.
    fn slot(&mut self, key: &str) -> (i: usize)
        requires
            old(self).wf(),
        ensures
            final(self).wf(),
            final(self)@ == old(self)@.insert(key@, old(self).pending(key@)),
            i < final(self).buckets@.len(),
            final(self).buckets@[i as int].key@ == key@,
    {
        let found: Option<usize> = match self.slots.get(key) {
            Some(i) => Some(*i),
            None => None,
        };
        let ghost before = *self;
        match found {
            Some(i) => {
                assert(self@ =~= before@.insert(key@, before.pending(key@)));
                i
            },
            None => {
                let i: usize = self.buckets.len();
                self.buckets.push(Bucket { key: key.to_owned(), files: Vec::new(), size: 0 });
                self.slots.insert(key.to_owned(), i);
                assert(self@ =~= before@.insert(key@, before.pending(key@)));
                i
            },
        }
    }

    /// Adds a file to a bucket. Once the bucket holds at least `max_size` bytes, all its
    /// files are handed out and it is empty again.
    pub fn add(&mut self, key: &str, file: F, max_size: u64) -> (r: Option<Vec<F>>)
        requires
            old(self).wf(),
            total_bytes(old(self).pending(key@)) + file.bytes() <= u64::MAX,
        ensures
            final(self).wf(),
            added(old(self)@, key@, file, max_size, handed_out(r), final(self)@),
    {
        let ghost before = *self;
        let ghost earlier = self.pending(key@);
        proof {
            lemma_total_push(earlier, file);
        }
        let i = self.slot(key);
        let ghost made = *self;
        let ghost mid = self@;
        assert(forall|k: Seq<char>| #[trigger]
            made.slots@.contains_key(k) && k != key@ ==> made.slots@[k] != i);
        let mut files: Vec<F> = Vec::new();
        std::mem::swap(&mut files, &mut self.buckets[i].files);
        assert(mid[key@] == earlier);
        let size: u64 = self.buckets[i].size + file.byte_len();
        files.push(file);
        if size >= max_size {
            self.buckets[i].size = 0;
            assert(self.buckets@[i as int].files@ =~= Seq::<F>::empty());
            assert(self@ =~= mid.insert(key@, Seq::empty()));
            assert(self@ =~= before@.insert(key@, Seq::empty()));
            Some(files)
        } else {
            self.buckets[i].size = size;
            self.buckets[i].files = files;
            assert(self@ =~= mid.insert(key@, earlier.push(file)));
            assert(self@ =~= before@.insert(key@, earlier.push(file)));
            None
        }
    }

    /// Hands out the files of every bucket that has some, and empties all of them.
    pub fn drain_all(&mut self) -> (out: Vec<(String, Vec<F>)>)
        requires
            old(self).wf(),
        ensures
            final(self).wf(),
            drained(old(self)@, out@, final(self)@),
    {
        let ghost before = *self;
        let mut out: Vec<(String, Vec<F>)> = Vec::new();
        let mut i: usize = 0;
        while i < self.buckets.len()
            invariant
                before.wf(),
                self.wf(),
                self.slots@ == before.slots@,
                i <= self.buckets@.len(),
                self.buckets@.len() == before.buckets@.len(),
                forall|j: int|
                    0 <= j < self.buckets@.len() ==> (#[trigger] self.buckets@[j]).key@
                        == before.buckets@[j].key@,
                forall|j: int|
                    i <= j < self.buckets@.len() ==> #[trigger] self.buckets@[j]
                        == before.buckets@[j],
                forall|j: int| 0 <= j < i ==> (#[trigger] self.buckets@[j]).files@.len() == 0,
                forall|n: int|
                    0 <= n < out@.len() ==> {
                        let key = (#[trigger] out@[n]).0@;
                        &&& before.slots@.contains_key(key)
                        &&& before.slots@[key] < i
                        &&& out@[n].1@ == before.buckets@[before.slots@[key] as int].files@
                        &&& out@[n].1@.len() > 0
                    },
                forall|n: int, m: int|
                    0 <= n < m < out@.len() ==> (#[trigger] out@[n]).0@ != (
                    #[trigger] out@[m]).0@,
                forall|k: Seq<char>| #[trigger]
                    before.slots@.contains_key(k) && before.slots@[k] < i
                        && before.buckets@[before.slots@[k] as int].files@.len() > 0 ==> exists|
                        n: int,
                    |
                        0 <= n < out@.len() && (#[trigger] out@[n]).0@ == k,
            decreases self.buckets@.len() - i,
        {
            let ghost prev_out = out@;
            let ghost here = before.buckets@[i as int];
            assert(self.buckets@[i as int] == here);
            if self.buckets[i].files.len() > 0 {
                let mut files: Vec<F> = Vec::new();
                std::mem::swap(&mut files, &mut self.buckets[i].files);
                self.buckets[i].size = 0;
                assert(self.buckets@[i as int].files@ =~= Seq::<F>::empty());
                let key = self.buckets[i].key.clone();
                assert(before.slots@[key@] == i);
                out.push((key, files));
                assert(out@[out@.len() - 1].0@ == here.key@);
                assert forall|k: Seq<char>| #[trigger]
                    before.slots@.contains_key(k) && before.slots@[k] < i + 1
                        && before.buckets@[before.slots@[k] as int].files@.len()
                        > 0 implies exists|n: int|
                    0 <= n < out@.len() && (#[trigger] out@[n]).0@ == k by {
                    if before.slots@[k] < i {
                        let n = choose|n: int|
                            0 <= n < prev_out.len() && (#[trigger] prev_out[n]).0@ == k;
                        assert(out@[n] == prev_out[n]);
                    } else {
                        assert(k == here.key@);
                    }
                }
            } else {
                assert forall|k: Seq<char>| #[trigger]
                    before.slots@.contains_key(k) && before.slots@[k] < i + 1
                        && before.buckets@[before.slots@[k] as int].files@.len()
                        > 0 implies exists|n: int|
                    0 <= n < out@.len() && (#[trigger] out@[n]).0@ == k by {
                    assert(before.slots@[k] < i);
                }
            }
            i += 1;
        }
        assert(self@.dom() =~= before@.dom());
        out
    }
}

} // verus!
