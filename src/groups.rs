//! Sequence-topic groups and their join on the sequence name.
use crate::names::{compare_names, lemma_name_lt_transitive, lemma_name_order, name_le, name_lt};
use crate::resources::{Resource, SequenceResourceLocator, TopicResourceLocator};
use std::cmp::Ordering;
use vstd::hash_map::StringHashMap;
use vstd::prelude::*;

verus! {

/// A group as a value: the sequence name and the topic names, in order.
pub type GroupView = (Seq<char>, Seq<Seq<char>>);

/// The names of a list of topic locators.
pub open spec fn topic_names(ts: Seq<TopicResourceLocator>) -> Seq<Seq<char>> {
    ts.map_values(|t: TopicResourceLocator| t@)
}

/// The position of the last group of `b` named `k`, or -1 when there is none.
pub open spec fn last_index(b: Seq<GroupView>, k: Seq<char>) -> int
    decreases b.len(),
{
    if b.len() == 0 {
        -1
    } else if b.last().0 == k {
        b.len() - 1
    } else {
        last_index(b.drop_last(), k)
    }
}

/// Some group of `b` is named `k`.
pub open spec fn has_key(b: Seq<GroupView>, k: Seq<char>) -> bool {
    last_index(b, k) >= 0
}

/// The topics that `b` holds for `k`: those of its last group named `k`.
pub open spec fn topics_for(b: Seq<GroupView>, k: Seq<char>) -> Seq<Seq<char>> {
    b[last_index(b, k)].1
}

/// The join of `a` and `b`: in the order of `a`, each group of `a` whose name `b` also
/// holds and no earlier group of `a` holds, with the topics of `b` for that name appended.
pub open spec fn merged(a: Seq<GroupView>, b: Seq<GroupView>) -> Seq<GroupView>
    decreases a.len(),
{
    if a.len() == 0 {
        Seq::empty()
    } else {
        let prev = merged(a.drop_last(), b);
        let g = a.last();
        if has_key(b, g.0) && !has_key(a.drop_last(), g.0) {
            prev.push((g.0, g.1 + topics_for(b, g.0)))
        } else {
            prev
        }
    }
}

/// No two groups of `s` share a sequence name.
pub open spec fn unique_keys(s: Seq<GroupView>) -> bool {
    forall|i: int, j: int| 0 <= i < j < s.len() ==> s[i].0 != s[j].0
}

/// The join as the sort-and-search strategy computes it: in the order of `a`, every
/// group of `a` whose name `b` holds, with the topics of `b` for that name appended.
pub open spec fn searched(a: Seq<GroupView>, b: Seq<GroupView>) -> Seq<GroupView>
    decreases a.len(),
{
    if a.len() == 0 {
        Seq::empty()
    } else {
        let prev = searched(a.drop_last(), b);
        let g = a.last();
        if has_key(b, g.0) {
            prev.push((g.0, g.1 + topics_for(b, g.0)))
        } else {
            prev
        }
    }
}

/// The groups of `s` are in ascending order of sequence name.
pub open spec fn sorted_by_name(s: Seq<SequenceTopicGroup>) -> bool {
    forall|i: int, j: int| 0 <= i < j < s.len() ==> name_le(s[i].sequence@, s[j].sequence@)
}

/// `last_index` is the last position holding `k`.
pub proof fn lemma_last_index(b: Seq<GroupView>, k: Seq<char>)
    ensures
        -1 <= last_index(b, k) < b.len(),
        last_index(b, k) >= 0 ==> b[last_index(b, k)].0 == k,
        forall|j: int| 0 <= j < b.len() && b[j].0 == k ==> j <= last_index(b, k),
    decreases b.len(),
{
    if b.len() > 0 && b.last().0 != k {
        lemma_last_index(b.drop_last(), k);
        assert forall|j: int| 0 <= j < b.len() && b[j].0 == k implies j <= last_index(b, k) by {
            if j < b.len() - 1 {
                assert(b.drop_last()[j] == b[j]);
            }
        }
    }
}

/// One sequence and the topics listed for it.
#[derive(Debug)]
pub struct SequenceTopicGroup {
    pub sequence: SequenceResourceLocator,
    pub topics: Vec<TopicResourceLocator>,
}

impl View for SequenceTopicGroup {
    type V = GroupView;

    open spec fn view(&self) -> GroupView {
        (self.sequence@, topic_names(self.topics@))
    }
}

impl SequenceTopicGroup {
    /// Pairs a sequence with its topics.
    pub fn new(sequence: SequenceResourceLocator, topics: Vec<TopicResourceLocator>) -> (r: Self)
        ensures
            r.sequence == sequence,
            r.topics == topics,
    {
        Self { sequence, topics }
    }

    /// Splits the group into its sequence and its topics.
    pub fn into_parts(self) -> (r: (SequenceResourceLocator, Vec<TopicResourceLocator>))
        ensures
            r.0 == self.sequence,
            r.1 == self.topics,
    {
        (self.sequence, self.topics)
    }
}

/// An ordered listing of groups.
#[derive(Debug)]
pub struct SequenceTopicGroups(Vec<SequenceTopicGroup>);

impl View for SequenceTopicGroups {
    type V = Seq<GroupView>;

    closed spec fn view(&self) -> Seq<GroupView> {
        self.0@.map_values(|g: SequenceTopicGroup| g@)
    }
}

/// `v` in reverse order.
fn reversed<T>(v: Vec<T>) -> (r: Vec<T>)
    ensures
        r@.len() == v@.len(),
        forall|j: int| 0 <= j < v@.len() ==> r@[j] == v@[v@.len() - 1 - j],
{
    let mut src = v;
    let mut out: Vec<T> = Vec::new();
    while src.len() > 0
        invariant
            src@.len() + out@.len() == v@.len(),
            forall|j: int| 0 <= j < src@.len() ==> src@[j] == v@[j],
            forall|j: int| 0 <= j < out@.len() ==> out@[j] == v@[v@.len() - 1 - j],
        decreases src@.len(),
    {
        let x = src.pop().unwrap();
        out.push(x);
    }
    out
}

impl SequenceTopicGroups {
    /// The listing of `groups`, in their order.
    pub fn new(groups: Vec<SequenceTopicGroup>) -> (r: Self)
        ensures
            r@ == groups@.map_values(|g: SequenceTopicGroup| g@),
    {
        Self(groups)
    }

    /// The listing with no group.
    pub fn empty() -> (r: Self)
        ensures
            r@ == Seq::<GroupView>::empty(),
    {
        proof {
            assert(Seq::<SequenceTopicGroup>::empty().map_values(|g: SequenceTopicGroup| g@)
                =~= Seq::<GroupView>::empty());
        }
        Self(Vec::new())
    }

    /// The number of groups.
    pub fn len(&self) -> (r: usize)
        ensures
            r == self@.len(),
    {
        self.0.len()
    }

    /// Joins with the given strategy. Sort-and-search asks one group per name in `group`.
    pub fn merge_with(self, group: Self, strategy: MergeStrategy) -> (r: Self)
        requires
            strategy == MergeStrategy::SortAndSearch ==> unique_keys(group@),
        ensures
            strategy == MergeStrategy::HashIndexed ==> r@ == merged(self@, group@),
            strategy == MergeStrategy::SortAndSearch ==> r@ == searched(self@, group@),
    {
        match strategy {
            MergeStrategy::HashIndexed => self.merge_hashed(group),
            MergeStrategy::SortAndSearch => self.merge_sorted(group),
        }
    }

    /// Joins with the strategy that `MergeStrategy::select` picks for `threshold`.
    pub fn merge_by_policy(self, group: Self, threshold: usize) -> (r: Self)
        requires
            (if self@.len() <= group@.len() {
                self@.len()
            } else {
                group@.len()
            }) < threshold ==> unique_keys(group@),
        ensures
            r@ == (if (if self@.len() <= group@.len() {
                self@.len()
            } else {
                group@.len()
            }) < threshold {
                searched(self@, group@)
            } else {
                merged(self@, group@)
            }),
    {
        let strategy = MergeStrategy::select(self.len(), group.len(), threshold);
        self.merge_with(group, strategy)
    }

    /// Joins this listing with `group` on the sequence name, with the hash-indexed strategy.
    pub fn merge(self, group: Self) -> (r: Self)
        ensures
            r@ == merged(self@, group@),
    {
        self.merge_hashed(group)
    }

    /// Hash-indexed join: `group` is drained once into an index from sequence name to
    /// topics, then this listing is scanned once, each match taking its topics out of
    /// the index.
    pub fn merge_hashed(self, group: Self) -> (r: Self)
        ensures
            r@ == merged(self@, group@),
    {
        let ghost a = self@;
        let ghost b = group@;
        let ghost bv = group.0@;
        let mut rest = group.0;
        let mut index: StringHashMap<usize> = StringHashMap::new();
        let mut pending: Vec<Vec<TopicResourceLocator>> = Vec::new();
        proof {
            assert forall|k: Seq<char>| #[trigger]
                index@.contains_key(k) <==> last_index(b, k) >= rest@.len() by {
                lemma_last_index(b, k);
            }
        }
        while rest.len() > 0
            invariant
                b == bv.map_values(|g: SequenceTopicGroup| g@),
                rest@.len() <= b.len(),
                forall|j: int| 0 <= j < rest@.len() ==> rest@[j] == bv[j],
                forall|k: Seq<char>| #[trigger]
                    index@.contains_key(k) <==> last_index(b, k) >= rest@.len(),
                forall|k: Seq<char>| #[trigger]
                    index@.contains_key(k) ==> index@[k] < pending@.len() && topic_names(
                        pending@[index@[k] as int]@,
                    ) == topics_for(b, k),
                forall|k1: Seq<char>, k2: Seq<char>|
                    #[trigger] index@.contains_key(k1) && #[trigger] index@.contains_key(k2)
                        && k1 != k2 ==> index@[k1] != index@[k2],
            decreases rest@.len(),
        {
            let g = rest.pop().unwrap();
            let n = rest.len();
            let (seq, topics) = g.into_parts();
            let key = seq.into_string();
            proof {
                assert(b[n as int] == bv[n as int]@);
                lemma_last_index(b, key@);
            }
            if !index.contains_key(key.as_str()) {
                let p = pending.len();
                proof {
                    assert(last_index(b, key@) == n);
                }
                index.insert(key, p);
                pending.push(topics);
            }
            proof {
                assert forall|k: Seq<char>| #[trigger]
                    index@.contains_key(k) <==> last_index(b, k) >= n by {
                    lemma_last_index(b, k);
                }
            }
        }
        let total = self.0.len();
        let mut scan = reversed(self.0);
        let mut result: Vec<SequenceTopicGroup> = Vec::new();
        let mut i: usize = 0;
        while scan.len() > 0
            invariant
                a.len() == total,
                a == self.0@.map_values(|g: SequenceTopicGroup| g@),
                scan@.len() + i == total,
                forall|j: int| 0 <= j < scan@.len() ==> scan@[j] == self.0@[total - 1 - j],
                result@.map_values(|g: SequenceTopicGroup| g@) == merged(a.take(i as int), b),
                forall|k: Seq<char>| #[trigger]
                    index@.contains_key(k) <==> has_key(b, k) && !has_key(a.take(i as int), k),
                forall|k: Seq<char>| #[trigger]
                    index@.contains_key(k) ==> index@[k] < pending@.len() && topic_names(
                        pending@[index@[k] as int]@,
                    ) == topics_for(b, k),
                forall|k1: Seq<char>, k2: Seq<char>|
                    #[trigger] index@.contains_key(k1) && #[trigger] index@.contains_key(k2)
                        && k1 != k2 ==> index@[k1] != index@[k2],
            decreases scan@.len(),
        {
            let mut g = scan.pop().unwrap();
            let ghost old_result = result@;
            let ghost gv = g@;
            proof {
                assert(g == self.0@[i as int]);
                assert(a[i as int] == gv);
                assert(a.take(i + 1).drop_last() =~= a.take(i as int));
                assert(a.take(i + 1).last() == gv);
                assert forall|k: Seq<char>|
                    has_key(a.take(i + 1), k) == (has_key(a.take(i as int), k) || gv.0 == k) by {
                    lemma_has_key_push(a.take(i as int), gv, k);
                    assert(a.take(i + 1) =~= a.take(i as int).push(gv));
                }
            }
            let found = index.get(g.sequence.name().as_str());
            match found {
                Some(p) => {
                    let p = *p;
                    let ghost key = gv.0;
                    index.remove(g.sequence.name().as_str());
                    let mut taken: Vec<TopicResourceLocator> = Vec::new();
                    std::mem::swap(&mut pending[p], &mut taken);
                    let ghost old_topics = g.topics@;
                    let ghost moved = taken@;
                    g.topics.append(&mut taken);
                    proof {
                        assert(topic_names(g.topics@) =~= topic_names(old_topics) + topic_names(
                            moved,
                        ));
                        assert(g@ == (gv.0, gv.1 + topics_for(b, gv.0)));
                    }
                    result.push(g);
                    proof {
                        assert(result@.map_values(|g: SequenceTopicGroup| g@) =~= old_result.map_values(
                            |g: SequenceTopicGroup| g@,
                        ).push(g@));
                    }
                },
                None => {},
            }
            i = i + 1;
        }
        proof {
            assert(a.take(total as int) =~= a);
        }
        Self(result)
    }

    /// Sort-and-search join: `group` is sorted by sequence name, then each group of this
    /// listing is looked up in it by binary search and takes a copy of its topics.
    pub fn merge_sorted(self, group: Self) -> (r: Self)
        requires
            unique_keys(group@),
    ensures
            r@ == searched(self@, group@),
    {
        let ghost a = self@;
        let ghost b = group@;
        let ghost bv = group.0@;
        let mut sorted = group.0;
        sort_by_sequence_name(&mut sorted);
        proof {
            broadcast use vstd::seq_lib::group_to_multiset_ensures;

            assert forall|x: SequenceTopicGroup| sorted@.contains(x) <==> bv.contains(x) by {
                assert(sorted@.contains(x) <==> sorted@.to_multiset().count(x) > 0);
                assert(bv.contains(x) <==> bv.to_multiset().count(x) > 0);
            }
        }
        let total = self.0.len();
        let mut scan = reversed(self.0);
        let mut result: Vec<SequenceTopicGroup> = Vec::new();
        let mut i: usize = 0;
        while scan.len() > 0
            invariant
                a.len() == total,
                a == self.0@.map_values(|g: SequenceTopicGroup| g@),
                b == bv.map_values(|g: SequenceTopicGroup| g@),
                unique_keys(b),
                sorted_by_name(sorted@),
                forall|x: SequenceTopicGroup| sorted@.contains(x) <==> bv.contains(x),
                scan@.len() + i == total,
                forall|j: int| 0 <= j < scan@.len() ==> scan@[j] == self.0@[total - 1 - j],
                result@.map_values(|g: SequenceTopicGroup| g@) == searched(a.take(i as int), b),
            decreases scan@.len(),
        {
            let mut g = scan.pop().unwrap();
            let ghost old_result = result@;
            let ghost gv = g@;
            proof {
                assert(g == self.0@[i as int]);
                assert(a[i as int] == gv);
                assert(a.take(i + 1).drop_last() =~= a.take(i as int));
                assert(a.take(i + 1).last() == gv);
            }
            match find_sequence(&sorted, g.sequence.name().as_str()) {
                Some(j) => {
                    let mut extra = copy_topics(&sorted[j].topics);
                    proof {
                        let x = sorted@[j as int];
                        assert(sorted@.contains(x));
                        assert(bv.contains(x));
                        let k = choose|k: int| 0 <= k < bv.len() && bv[k] == x;
                        assert(b[k] == bv[k]@);
                        assert(b[k].0 == gv.0);
                        lemma_last_index(b, gv.0);
                        assert(last_index(b, gv.0) == k);
                    }
                    let ghost old_topics = g.topics@;
                    let ghost moved = extra@;
                    g.topics.append(&mut extra);
                    proof {
                        assert(topic_names(g.topics@) =~= topic_names(old_topics) + topic_names(
                            moved,
                        ));
                    }
                    result.push(g);
                    proof {
                        assert(result@.map_values(|g: SequenceTopicGroup| g@) =~= old_result.map_values(
                            |g: SequenceTopicGroup| g@,
                        ).push(g@));
                    }
                },
                None => {
                    proof {
                        lemma_last_index(b, gv.0);
                        if has_key(b, gv.0) {
                            let k = last_index(b, gv.0);
                            assert(bv.contains(bv[k]));
                            let j = choose|j: int| 0 <= j < sorted@.len() && sorted@[j] == bv[k];
                        }
                    }
                },
            }
            i = i + 1;
        }
        proof {
            assert(a.take(total as int) =~= a);
        }
        Self(result)
    }
}

/// The two interchangeable join strategies.
#[derive(Debug, Clone, Copy, PartialEq, Eq, Structural)]
pub enum MergeStrategy {
    /// Index one side by name, scan the other: linear time. The default.
    HashIndexed,
    /// Sort one side by name, binary-search it for each group of the other.
    SortAndSearch,
}

impl MergeStrategy {
    /// The selection policy: sort-and-search when the smaller listing has fewer than
    /// `threshold` groups, hash-indexed otherwise.
    pub fn select(a_len: usize, b_len: usize, threshold: usize) -> (r: Self)
        ensures
            r == (if (if a_len <= b_len {
                a_len
            } else {
                b_len
            }) < threshold {
                MergeStrategy::SortAndSearch
            } else {
                MergeStrategy::HashIndexed
            }),
    {
        let smaller = if a_len <= b_len {
            a_len
        } else {
            b_len
        };
        if smaller < threshold {
            MergeStrategy::SortAndSearch
        } else {
            MergeStrategy::HashIndexed
        }
    }
}

impl Default for SequenceTopicGroups {
    fn default() -> (r: Self)
        ensures
            r@ == Seq::<GroupView>::empty(),
    {
        Self::empty()
    }
}

impl From<SequenceTopicGroups> for Vec<SequenceTopicGroup> {
    fn from(value: SequenceTopicGroups) -> (r: Vec<SequenceTopicGroup>)
        ensures
            r@.map_values(|g: SequenceTopicGroup| g@) == value@,
    {
        value.0
    }
}

impl vstd::std_specs::convert::FromSpecImpl<SequenceTopicGroups> for Vec<SequenceTopicGroup> {
    open spec fn obeys_from_spec() -> bool {
        true
    }

    closed spec fn from_spec(v: SequenceTopicGroups) -> Vec<SequenceTopicGroup> {
        v.0
    }
}

impl From<Vec<SequenceTopicGroup>> for SequenceTopicGroups {
    fn from(value: Vec<SequenceTopicGroup>) -> (r: SequenceTopicGroups)
        ensures
            r@ == value@.map_values(|g: SequenceTopicGroup| g@),
    {
        SequenceTopicGroups(value)
    }
}

impl vstd::std_specs::convert::FromSpecImpl<Vec<SequenceTopicGroup>> for SequenceTopicGroups {
    open spec fn obeys_from_spec() -> bool {
        true
    }

    closed spec fn from_spec(v: Vec<SequenceTopicGroup>) -> SequenceTopicGroups {
        SequenceTopicGroups(v)
    }
}

/// Relies on `slice::sort_by`: the groups are permuted, and come out in ascending order
/// under `compare_names`, which is a total order (`lemma_name_order`,
/// `lemma_name_lt_transitive`).
#[verifier::external_body]
fn sort_by_sequence_name(v: &mut Vec<SequenceTopicGroup>)
    ensures
        final(v)@.to_multiset() == old(v)@.to_multiset(),
        sorted_by_name(final(v)@),
{
    v.sort_by(|x, y| compare_names(x.sequence.name(), y.sequence.name()));
}

/// Binary search of `key` among the sequence names of the sorted `s`.
fn find_sequence(s: &Vec<SequenceTopicGroup>, key: &str) -> (r: Option<usize>)
    requires
        sorted_by_name(s@),
    ensures
        match r {
            Some(j) => j < s@.len() && s@[j as int].sequence@ == key@,
            None => forall|j: int| 0 <= j < s@.len() ==> s@[j].sequence@ != key@,
        },
{
    let mut lo: usize = 0;
    let mut hi: usize = s.len();
    while lo < hi
        invariant
            lo <= hi <= s@.len(),
            sorted_by_name(s@),
            forall|j: int| 0 <= j < lo ==> name_lt(#[trigger] s@[j].sequence@, key@),
            forall|j: int| hi <= j < s@.len() ==> name_lt(key@, #[trigger] s@[j].sequence@),
        decreases hi - lo,
    {
        let mid = lo + (hi - lo) / 2;
        let ghost m = s@[mid as int].sequence@;
        match compare_names(key, s[mid].sequence.name().as_str()) {
            Ordering::Less => {
                proof {
                    assert forall|j: int| mid <= j < s@.len() implies name_lt(
                        key@,
                        #[trigger] s@[j].sequence@,
                    ) by {
                        if j > mid {
                            assert(name_le(m, s@[j].sequence@));
                            if m != s@[j].sequence@ {
                                lemma_name_lt_transitive(key@, m, s@[j].sequence@);
                            }
                        }
                    }
                }
                hi = mid;
            },
            Ordering::Equal => {
                return Some(mid);
            },
            Ordering::Greater => {
                proof {
                    assert forall|j: int| 0 <= j <= mid implies name_lt(
                        #[trigger] s@[j].sequence@,
                        key@,
                    ) by {
                        if j < mid {
                            assert(name_le(s@[j].sequence@, m));
                            if m != s@[j].sequence@ {
                                lemma_name_lt_transitive(s@[j].sequence@, m, key@);
                            }
                        }
                    }
                }
                lo = mid + 1;
            },
        }
    }
    proof {
        assert forall|j: int| 0 <= j < s@.len() implies s@[j].sequence@ != key@ by {
            lemma_name_order(key@, key@);
        }
    }
    None
}

/// A copy of a list of topic locators.
fn copy_topics(ts: &Vec<TopicResourceLocator>) -> (r: Vec<TopicResourceLocator>)
    ensures
        topic_names(r@) == topic_names(ts@),
{
    let mut out: Vec<TopicResourceLocator> = Vec::new();
    let mut i: usize = 0;
    while i < ts.len()
        invariant
            i <= ts@.len(),
            out@.len() == i,
            forall|j: int| 0 <= j < i ==> out@[j]@ == ts@[j]@,
        decreases ts@.len() - i,
    {
        out.push(ts[i].duplicate());
        i = i + 1;
    }
    assert(topic_names(out@) =~= topic_names(ts@));
    out
}

/// A name occurs in `s.push(x)` iff it occurs in `s` or names `x`.
proof fn lemma_has_key_push(s: Seq<GroupView>, x: GroupView, k: Seq<char>)
    ensures
        has_key(s.push(x), k) == (has_key(s, k) || x.0 == k),
        x.0 != k ==> last_index(s.push(x), k) == last_index(s, k),
{
    assert(s.push(x).drop_last() =~= s);
    lemma_last_index(s, k);
}

/// Appending a group keeps the names unique exactly when its name is new.
proof fn lemma_unique_push(s: Seq<GroupView>, x: GroupView)
    ensures
        unique_keys(s.push(x)) == (unique_keys(s) && !has_key(s, x.0)),
{
    lemma_last_index(s, x.0);
    if unique_keys(s.push(x)) {
        assert forall|i: int, j: int| 0 <= i < j < s.len() implies s[i].0 != s[j].0 by {
            assert(s.push(x)[i] == s[i] && s.push(x)[j] == s[j]);
        }
        if has_key(s, x.0) {
            assert(s.push(x)[last_index(s, x.0)] == s[last_index(s, x.0)]);
            assert(s.push(x)[s.len() as int] == x);
        }
    }
    if unique_keys(s) && !has_key(s, x.0) {
        assert forall|i: int, j: int| 0 <= i < j < s.push(x).len() implies s.push(x)[i].0
            != s.push(x)[j].0 by {
            if j == s.len() {
                assert(s.push(x)[i] == s[i]);
            } else {
                assert(s.push(x)[i] == s[i] && s.push(x)[j] == s[j]);
            }
        }
    }
}

/// Join correctness: for `a` with one group per sequence name, the join holds one group
/// per name, exactly for the names that both `a` and `b` hold, and the topics of each are
/// those of `a` followed by those of `b`, none dropped and none added.
pub proof fn lemma_merge_correct(a: Seq<GroupView>, b: Seq<GroupView>)
    requires
        unique_keys(a),
    ensures
        unique_keys(merged(a, b)),
        forall|k: Seq<char>| #[trigger]
            has_key(merged(a, b), k) <==> has_key(a, k) && has_key(b, k),
        forall|k: Seq<char>| #[trigger]
            has_key(merged(a, b), k) ==> topics_for(merged(a, b), k) == topics_for(a, k)
                + topics_for(b, k),
    decreases a.len(),
{
    if a.len() > 0 {
        let a0 = a.drop_last();
        let g = a.last();
        let prev = merged(a0, b);
        assert(a =~= a0.push(g));
        lemma_unique_push(a0, g);
        lemma_merge_correct(a0, b);
        assert forall|k: Seq<char>| #[trigger] has_key(a, k) == (has_key(a0, k) || g.0 == k) by {
            lemma_has_key_push(a0, g, k);
        }
        assert forall|k: Seq<char>| k != g.0 && has_key(a0, k) implies #[trigger] topics_for(
            a,
            k,
        ) == topics_for(a0, k) by {
            lemma_has_key_push(a0, g, k);
            lemma_last_index(a0, k);
        }
        assert(last_index(a, g.0) == a.len() - 1);
        assert(topics_for(a, g.0) == g.1);
        if has_key(b, g.0) {
            let x = (g.0, g.1 + topics_for(b, g.0));
            assert(merged(a, b) == prev.push(x));
            lemma_unique_push(prev, x);
            assert forall|k: Seq<char>| #[trigger]
                has_key(merged(a, b), k) <==> has_key(a, k) && has_key(b, k) by {
                lemma_has_key_push(prev, x, k);
            }
            assert forall|k: Seq<char>| #[trigger] has_key(merged(a, b), k) implies topics_for(
                merged(a, b),
                k,
            ) == topics_for(a, k) + topics_for(b, k) by {
                lemma_has_key_push(prev, x, k);
                if k == g.0 {
                    assert(last_index(prev.push(x), k) == prev.len());
                } else {
                    lemma_last_index(prev, k);
                    assert(prev.push(x)[last_index(prev, k)] == prev[last_index(prev, k)]);
                }
            }
        } else {
            assert(merged(a, b) == prev);
        }
    }
}

/// The join's key set is commutative while its topic order is not: for `a` and `b` with
/// one group per name, `merged(a, b)` and `merged(b, a)` hold the same names; for each,
/// the first lists the topics of `a` then those of `b`, the second the reverse, and the
/// two hold the same multiset of topics.
pub proof fn lemma_merge_commutes_on_keys(a: Seq<GroupView>, b: Seq<GroupView>)
    requires
        unique_keys(a),
        unique_keys(b),
    ensures
        forall|k: Seq<char>| #[trigger]
            has_key(merged(a, b), k) == has_key(merged(b, a), k),
        forall|k: Seq<char>| #[trigger]
            has_key(merged(a, b), k) ==> topics_for(merged(a, b), k) == topics_for(a, k)
                + topics_for(b, k) && topics_for(merged(b, a), k) == topics_for(b, k)
                + topics_for(a, k) && topics_for(merged(a, b), k).to_multiset() == topics_for(
                merged(b, a),
                k,
            ).to_multiset(),
{
    lemma_merge_correct(a, b);
    lemma_merge_correct(b, a);
    assert forall|k: Seq<char>| #[trigger] has_key(merged(a, b), k) implies topics_for(
        merged(a, b),
        k,
    ) == topics_for(a, k) + topics_for(b, k) && topics_for(merged(b, a), k) == topics_for(b, k)
        + topics_for(a, k) && topics_for(merged(a, b), k).to_multiset() == topics_for(
        merged(b, a),
        k,
    ).to_multiset() by {
        assert(has_key(merged(b, a), k));
        vstd::seq_lib::lemma_multiset_commutative(topics_for(a, k), topics_for(b, k));
        vstd::seq_lib::lemma_multiset_commutative(topics_for(b, k), topics_for(a, k));
        assert(topics_for(a, k).to_multiset().add(topics_for(b, k).to_multiset()) =~= topics_for(
            b,
            k,
        ).to_multiset().add(topics_for(a, k).to_multiset()));
    }
}

/// Absorption: joining with an empty listing, on either side, gives the empty listing.
pub proof fn lemma_merge_empty(a: Seq<GroupView>, b: Seq<GroupView>)
    ensures
        merged(a, Seq::empty()) == Seq::<GroupView>::empty(),
        merged(Seq::empty(), b) == Seq::<GroupView>::empty(),
    decreases a.len(),
{
    if a.len() > 0 {
        lemma_merge_empty(a.drop_last(), b);
    }
}

/// Strategy equivalence: on inputs with one group per name in `a`, the hash-indexed and
/// the sort-and-search joins give the same listing, group for group and topic for topic.
pub proof fn lemma_strategies_agree(a: Seq<GroupView>, b: Seq<GroupView>)
    requires
        unique_keys(a),
    ensures
        merged(a, b) == searched(a, b),
    decreases a.len(),
{
    if a.len() > 0 {
        let a0 = a.drop_last();
        assert(a =~= a0.push(a.last()));
        lemma_unique_push(a0, a.last());
        lemma_strategies_agree(a0, b);
    }
}

} // verus!
