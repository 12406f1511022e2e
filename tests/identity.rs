use imessage_export_core::identity::IdentityCache;

fn s(x: &str) -> String {
    x.to_string()
}

#[test]
fn equal_participant_sets_share_canonical_id() {
    let chats = vec![(3, vec![7, 9]), (5, vec![9, 7])];
    let cache = IdentityCache::new(&chats, &vec![]);
    assert_eq!(cache.chat_canonical(3), Some(3));
    assert_eq!(cache.chat_canonical(5), Some(3));
    assert_eq!(cache.duplicate_conversation_count(), 1);
}

#[test]
fn duplicate_pair_adds_one_to_count() {
    let base = vec![(1, vec![2]), (4, vec![3, 8])];
    let before = IdentityCache::new(&base, &vec![]).duplicate_conversation_count();
    let mut with_pair = base.clone();
    with_pair.push((10, vec![7, 9]));
    with_pair.push((11, vec![9, 7]));
    let after = IdentityCache::new(&with_pair, &vec![]).duplicate_conversation_count();
    assert_eq!(before, 0);
    assert_eq!(after, before + 1);
}

#[test]
fn canonical_is_smallest_raw_id_of_group() {
    let chats = vec![(8, vec![1, 2]), (2, vec![2, 1, 1]), (5, vec![1, 2]), (6, vec![3])];
    let cache = IdentityCache::new(&chats, &vec![]);
    assert_eq!(cache.chat_canonical(8), Some(2));
    assert_eq!(cache.chat_canonical(2), Some(2));
    assert_eq!(cache.chat_canonical(5), Some(2));
    assert_eq!(cache.chat_canonical(6), Some(6));
    assert_eq!(cache.duplicate_conversation_count(), 2);
}

#[test]
fn conversation_without_participants_maps_to_itself() {
    let chats = vec![(12, vec![])];
    let cache = IdentityCache::new(&chats, &vec![]);
    assert_eq!(cache.chat_canonical(12), Some(12));
    assert_eq!(cache.duplicate_conversation_count(), 0);
}

#[test]
fn unknown_raw_id_has_no_canonical() {
    let cache = IdentityCache::new(&vec![(1, vec![2])], &vec![(4, s("a@b.c"))]);
    assert_eq!(cache.chat_canonical(2), None);
    assert_eq!(cache.handle_canonical(5), None);
}

#[test]
fn handles_with_equal_contact_merge() {
    let handles = vec![(9, s("+15555550100")), (4, s("a@b.c")), (3, s("+15555550100")), (7, s("a@b.c"))];
    let cache = IdentityCache::new(&vec![], &handles);
    assert_eq!(cache.handle_canonical(9), Some(3));
    assert_eq!(cache.handle_canonical(3), Some(3));
    assert_eq!(cache.handle_canonical(4), Some(4));
    assert_eq!(cache.handle_canonical(7), Some(4));
    assert_eq!(cache.duplicate_handle_count(), 2);
}

#[test]
fn building_twice_gives_same_tables() {
    let chats = vec![(3, vec![7, 9]), (5, vec![9, 7]), (6, vec![1])];
    let handles = vec![(1, s("x")), (2, s("x"))];
    let a = IdentityCache::new(&chats, &handles);
    let b = IdentityCache::new(&chats, &handles);
    for raw in [3, 5, 6] {
        assert_eq!(a.chat_canonical(raw), b.chat_canonical(raw));
    }
    assert_eq!(a.handle_canonical(2), b.handle_canonical(2));
    assert_eq!(a.handle_canonical(2), Some(1));
}

#[test]
fn empty_tables() {
    let cache = IdentityCache::new(&vec![], &vec![]);
    assert_eq!(cache.duplicate_conversation_count(), 0);
    assert_eq!(cache.duplicate_handle_count(), 0);
    assert_eq!(cache.chat_canonical(0), None);
}

#[test]
fn conversations_without_participants_stay_apart() {
    let chats = vec![(1, vec![]), (2, vec![]), (3, vec![4]), (5, vec![4])];
    let cache = IdentityCache::new(&chats, &vec![]);
    assert_eq!(cache.chat_canonical(1), Some(1));
    assert_eq!(cache.chat_canonical(2), Some(2));
    assert_eq!(cache.chat_canonical(5), Some(3));
    assert_eq!(cache.duplicate_conversation_count(), 1);
}
