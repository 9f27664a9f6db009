use mosaicod::groups::{MergeStrategy, SequenceTopicGroup, SequenceTopicGroups};
use mosaicod::lifecycle::{LockError, SequenceState, TopicLifecycle};
use mosaicod::names::{compare_names, sanitize_name};
use mosaicod::resources::{
    is_sub_resource, Resource, ResourceType, SequenceResourceLocator, TopicResourceLocator,
};
use mosaicod::time::{DateTime, Timestamp, TimestampRange};
use std::cmp::Ordering;

fn listing(spec: &[(&str, &[&str])]) -> SequenceTopicGroups {
    let mut groups = Vec::new();
    for (seq, topics) in spec {
        let topics = topics.iter().map(|t| TopicResourceLocator::from(t)).collect();
        groups.push(SequenceTopicGroup::new(SequenceResourceLocator::from(seq), topics));
    }
    SequenceTopicGroups::new(groups)
}

fn flatten(groups: SequenceTopicGroups) -> Vec<(String, Vec<String>)> {
    let groups: Vec<SequenceTopicGroup> = groups.into();
    groups
        .into_iter()
        .map(|g| {
            let (seq, topics) = g.into_parts();
            (String::from(seq), topics.into_iter().map(String::from).collect())
        })
        .collect()
}

fn owned(spec: &[(&str, &[&str])]) -> Vec<(String, Vec<String>)> {
    spec.iter()
        .map(|(s, ts)| (s.to_string(), ts.iter().map(|t| t.to_string()).collect()))
        .collect()
}

#[test]
fn resource_name() {
    let target = "my/resource/name";
    let san = sanitize_name("/my/resource/name");
    assert_eq!(san, target);

    let san = sanitize_name("    my/resource/name   ");
    assert_eq!(san, target);

    let san = sanitize_name("//my/resource/name");
    assert_eq!(san, target);
}

#[test]
fn merge_sequence_topic_groups() {
    let group1 = SequenceTopicGroups::new(vec![
        SequenceTopicGroup::new(
            SequenceResourceLocator::from("seq_a"),
            vec![TopicResourceLocator::from("topic1")],
        ),
        SequenceTopicGroup::new(
            SequenceResourceLocator::from("seq_b"),
            vec![TopicResourceLocator::from("topic2")],
        ),
    ]);

    let group2 = SequenceTopicGroups::new(vec![
        SequenceTopicGroup::new(
            SequenceResourceLocator::from("seq_a"),
            vec![TopicResourceLocator::from("topic3")],
        ),
        SequenceTopicGroup::new(
            SequenceResourceLocator::from("seq_c"),
            vec![TopicResourceLocator::from("topic4")],
        ),
    ]);

    let merged: Vec<SequenceTopicGroup> = group1.merge(group2).into();

    assert_eq!(merged.len(), 1);
    assert_eq!(merged[0].sequence.name(), "seq_a");
    assert_eq!(merged[0].topics.len(), 2);
}

#[test]
fn sanitize_keeps_canonical_name() {
    assert_eq!(sanitize_name("my/resource/name"), "my/resource/name");
    let once = sanitize_name("  ///a/b  ");
    assert_eq!(sanitize_name(&once), once);
}

#[test]
fn sanitize_strips_all_separators_and_unicode_whitespace() {
    assert_eq!(sanitize_name("\t\u{3000} ////seq/topic \n\u{a0}"), "seq/topic");
    assert_eq!(sanitize_name("   "), "");
    assert_eq!(sanitize_name("///"), "");
    assert_eq!(sanitize_name(""), "");
}

#[test]
fn sanitize_leaves_whitespace_after_separators() {
    assert_eq!(sanitize_name("/ a"), " a");
    assert_eq!(sanitize_name(" a"), "a");
}

#[test]
fn locator_is_built_sanitized() {
    let t = TopicResourceLocator::from("  /seq/imu ");
    assert_eq!(t.name(), "seq/imu");
    assert_eq!(t.resource_type(), ResourceType::Topic);
    let s = SequenceResourceLocator::from("//seq");
    assert_eq!(s.name(), "seq");
    assert_eq!(s.resource_type(), ResourceType::Sequence);
}

#[test]
fn end_to_end_merge_scenario() {
    let a = listing(&[("seq_a", &["t1"]), ("seq_b", &["t2"])]);
    let b = listing(&[("seq_a", &["t3"]), ("seq_c", &["t4"])]);
    assert_eq!(flatten(a.merge(b)), owned(&[("seq_a", &["t1", "t3"])]));
}

#[test]
fn merge_keeps_order_of_receiver() {
    let a = listing(&[("s3", &["a3"]), ("s1", &["a1"]), ("s2", &["a2"])]);
    let b = listing(&[("s1", &["b1", "b1x"]), ("s2", &[]), ("s3", &["b3"])]);
    assert_eq!(
        flatten(a.merge(b)),
        owned(&[("s3", &["a3", "b3"]), ("s1", &["a1", "b1", "b1x"]), ("s2", &["a2"])])
    );
}

#[test]
fn merge_with_empty_is_empty() {
    let a = listing(&[("s1", &["t"])]);
    assert!(flatten(a.merge(SequenceTopicGroups::empty())).is_empty());
    let b = listing(&[("s1", &["t"])]);
    assert!(flatten(SequenceTopicGroups::default().merge(b)).is_empty());
}

#[test]
fn merge_disjoint_is_empty() {
    let a = listing(&[("s1", &["t"]), ("s2", &["u"])]);
    let b = listing(&[("s3", &["t"]), ("s4", &["u"])]);
    assert!(flatten(a.merge(b)).is_empty());
}

#[test]
fn merge_reversed_reverses_topic_order() {
    let spec_a: &[(&str, &[&str])] = &[("x", &["a1"]), ("y", &["a2"]), ("z", &["a3"])];
    let spec_b: &[(&str, &[&str])] = &[("y", &["b2"]), ("x", &["b1"]), ("w", &["b0"])];
    let ab = flatten(listing(spec_a).merge(listing(spec_b)));
    let ba = flatten(listing(spec_b).merge(listing(spec_a)));
    assert_eq!(ab, owned(&[("x", &["a1", "b1"]), ("y", &["a2", "b2"])]));
    assert_eq!(ba, owned(&[("y", &["b2", "a2"]), ("x", &["b1", "a1"])]));
}

#[test]
fn merge_duplicate_in_argument_last_wins() {
    let a = listing(&[("s", &["a"])]);
    let b = listing(&[("s", &["first"]), ("s", &["last"])]);
    assert_eq!(flatten(a.merge(b)), owned(&[("s", &["a", "last"])]));
}

#[test]
fn merge_duplicate_in_receiver_first_only() {
    let a = listing(&[("s", &["a1"]), ("s", &["a2"])]);
    let b = listing(&[("s", &["b"])]);
    assert_eq!(flatten(a.merge_hashed(b)), owned(&[("s", &["a1", "b"])]));
}

#[test]
fn strategies_agree() {
    let cases: Vec<(Vec<(&str, &[&str])>, Vec<(&str, &[&str])>)> = vec![
        (vec![], vec![]),
        (vec![("a", &["1"])], vec![]),
        (vec![], vec![("a", &["1"])]),
        (vec![("a", &["1"]), ("b", &["2"])], vec![("c", &["3"]), ("d", &["4"])]),
        (
            vec![("d", &["1", "2"]), ("b", &["3"]), ("a", &[]), ("c", &["4"])],
            vec![("a", &["5"]), ("b", &["6", "7"]), ("c", &[]), ("d", &["8"])],
        ),
        (
            vec![("zeta", &["1"]), ("alpha", &["2"]), ("mid", &["3"])],
            vec![("mid", &["4"]), ("omega", &["5"]), ("zeta", &["6"]), ("al", &["7"])],
        ),
    ];
    for (a, b) in cases {
        let hashed = flatten(listing(&a).merge_hashed(listing(&b)));
        let sorted = flatten(listing(&a).merge_sorted(listing(&b)));
        assert_eq!(hashed, sorted);
        let chosen = flatten(listing(&a).merge_by_policy(listing(&b), 1000));
        assert_eq!(hashed, chosen);
    }
}

#[test]
fn strategies_agree_on_larger_listing() {
    let names: Vec<String> = (0..200).map(|i| format!("project/dataset_{}/series_{}", i / 10, i % 10)).collect();
    let mut a = Vec::new();
    let mut b = Vec::new();
    for (i, n) in names.iter().enumerate() {
        let ta = vec![TopicResourceLocator::from(&format!("{}/a{}", n, i))];
        a.push(SequenceTopicGroup::new(SequenceResourceLocator::from(n), ta));
        if i % 3 != 0 {
            let tb = vec![TopicResourceLocator::from(&format!("{}/b{}", n, i))];
            b.insert(0, SequenceTopicGroup::new(SequenceResourceLocator::from(n), tb));
        }
    }
    let copy = |v: &Vec<SequenceTopicGroup>| {
        SequenceTopicGroups::new(
            v.iter()
                .map(|g| SequenceTopicGroup::new(g.sequence.clone(), g.topics.clone()))
                .collect(),
        )
    };
    let hashed = flatten(copy(&a).merge_with(copy(&b), MergeStrategy::HashIndexed));
    let sorted = flatten(copy(&a).merge_with(copy(&b), MergeStrategy::SortAndSearch));
    assert_eq!(hashed.len(), 133);
    assert_eq!(hashed, sorted);
}

#[test]
fn strategy_selection_policy() {
    assert_eq!(MergeStrategy::select(3, 100, 10), MergeStrategy::SortAndSearch);
    assert_eq!(MergeStrategy::select(100, 3, 10), MergeStrategy::SortAndSearch);
    assert_eq!(MergeStrategy::select(10, 100, 10), MergeStrategy::HashIndexed);
    assert_eq!(MergeStrategy::select(0, 0, 0), MergeStrategy::HashIndexed);
}

#[test]
fn compare_names_is_lexicographic() {
    assert_eq!(compare_names("abc", "abd"), Ordering::Less);
    assert_eq!(compare_names("ab", "abc"), Ordering::Less);
    assert_eq!(compare_names("b", "abc"), Ordering::Greater);
    assert_eq!(compare_names("", ""), Ordering::Equal);
    assert_eq!(compare_names("é", "z"), Ordering::Greater);
}

#[test]
fn chunk_path_is_zero_padded() {
    let t = TopicResourceLocator::from("seq/topic");
    assert_eq!(t.datafile(0, "parquet"), "seq/topic/data-00000.parquet");
    assert_eq!(t.datafile(42, "parquet"), "seq/topic/data-00042.parquet");
    assert_eq!(t.datafile(99999, "bin"), "seq/topic/data-99999.bin");
}

#[test]
fn chunk_path_widens_past_five_digits() {
    let s = SequenceResourceLocator::from("seq");
    let p = s.datafile(123456, "parquet");
    assert_eq!(p, "seq/data-123456.parquet");
    let digits = p.trim_start_matches("seq/data-").trim_end_matches(".parquet");
    assert_eq!(digits.parse::<usize>().unwrap(), 123456);
    assert_ne!(s.datafile(12345, "parquet"), s.datafile(123450, "parquet"));
}

#[test]
fn metadata_path_is_under_name() {
    assert_eq!(SequenceResourceLocator::from("seq").metadata(), "seq/metadata.json");
    assert_eq!(TopicResourceLocator::from("seq/t").metadata(), "seq/t/metadata.json");
}

#[test]
fn sub_resource_is_a_character_prefix() {
    let parent = SequenceResourceLocator::from("seq");
    assert!(is_sub_resource(&SequenceResourceLocator::from("seq1"), &parent));
    assert!(is_sub_resource(&TopicResourceLocator::from("seq/topic"), &parent));
    assert!(!is_sub_resource(&TopicResourceLocator::from("se"), &parent));
    assert!(!is_sub_resource(&TopicResourceLocator::from("other/seq"), &parent));
}

#[test]
fn locator_display_form() {
    assert_eq!(TopicResourceLocator::from("a/b").to_string(), "[topic|a/b]");
    assert_eq!(SequenceResourceLocator::from("/a").to_string(), "[sequence|a]");
}

#[test]
fn timestamp_bounds_and_text() {
    assert_eq!(i64::from(Timestamp::max()), i64::MAX);
    assert_eq!(i64::from(Timestamp::min()), i64::MIN);
    assert_eq!(Timestamp::min().to_string(), "-9223372036854775808");
    assert_eq!(Timestamp::from(1234).to_string(), "1234");
    assert_eq!(Timestamp::default().to_string(), "0");
    let r = TimestampRange::new(Timestamp::from(-5), Timestamp::from(7));
    assert_eq!(r.to_string(), "-5 -> 7");
    assert!(Timestamp::min() < Timestamp::max());
}

#[test]
fn datetime_from_timestamp() {
    let d = DateTime::from_timestamp(Timestamp::from(0)).unwrap();
    assert_eq!(d.fmt_to_ms(), "19700101000000000");
    assert_eq!(d.to_string(), "1970-01-01 00:00:00 UTC");
    let d = DateTime::from_timestamp(Timestamp::from(1_700_000_000_123)).unwrap();
    assert_eq!(d.fmt_to_ms(), "20231114221320123");
    assert!(DateTime::from_timestamp(Timestamp::max()).is_none());
    let now = Timestamp::now();
    assert!(i64::from(now) > 1_700_000_000_000);
    assert!(DateTime::now().timestamp() >= now);
}

#[test]
fn topic_locks_after_data_and_graceful_close() {
    let mut t = TopicLifecycle::new();
    t.close(true);
    assert!(!t.locked);
    assert_eq!(t.record_chunk(), Ok(()));
    t.close(false);
    assert!(!t.locked);
    t.close(true);
    assert!(t.locked);
    assert_eq!(t.record_chunk(), Err(LockError::TopicLocked));
}

#[test]
fn sequence_finalize_needs_all_topics_locked() {
    let mut a = TopicLifecycle::new();
    let mut b = TopicLifecycle::new();
    a.record_chunk().unwrap();
    a.close(true);
    let topics = vec![a, b];
    assert_eq!(SequenceState::observe(&topics, false), SequenceState::Open);
    assert_eq!(SequenceState::Open.finalize(&topics), Err(LockError::TopicsNotLocked));
    b.record_chunk().unwrap();
    b.close(true);
    let topics = vec![a, b];
    let state = SequenceState::observe(&topics, false);
    assert_eq!(state, SequenceState::TopicsComplete);
    assert!(!state.is_locked());
    let done = state.finalize(&topics).unwrap();
    assert_eq!(done, SequenceState::Finalized);
    assert!(done.is_locked());
}

#[test]
fn empty_name_paths_stay_relative() {
    let t = TopicResourceLocator::from("///");
    assert_eq!(t.metadata(), "metadata.json");
    assert_eq!(t.datafile(0, "parquet"), "data-00000.parquet");
    let s = SequenceResourceLocator::from("");
    assert_eq!(s.metadata(), "metadata.json");
    assert_eq!(s.datafile(7, "bin"), "data-00007.bin");
}

#[test]
fn conversions_keep_values() {
    assert_eq!(String::from(TopicResourceLocator::from(" /a/b ")), "a/b");
    assert_eq!(String::from(SequenceResourceLocator::from("//s")), "s");
    assert_eq!(i64::from(Timestamp::from(-42)), -42);
    let groups = SequenceTopicGroups::from(vec![SequenceTopicGroup::new(
        SequenceResourceLocator::from("s"),
        vec![TopicResourceLocator::from("t")],
    )]);
    assert_eq!(flatten(groups), owned(&[("s", &["t"])]));
}
