use std::collections::VecDeque;

use ytm_rs::player::{song_key_at, PlayStep, PlayerState};
use ytm_rs::song_operations::song_op_constructor::{path_deque, verify_n};
use ytm_rs::song_operations::{
    ActualRecursiveOps, BackResult, CItemMessage, ConstructorCommand, ConstructorItem, InfLoopType, ItemId,
    NextResult, OperationTracker, RecursiveSongOp as RSO, SongOpConstructor, SongOpMessage, SongOpTracker,
    TreeDirected, UpdateResult,
};

fn song(key: &str) -> RSO {
    RSO::SinglePlay(key.to_string())
}

#[test]
fn song_operations_tester() {
    let ops: RSO = RSO::SingleRandom(vec![
        RSO::SinglePlay("".to_string()),
        RSO::RandomPlay(vec![
            RSO::SinglePlay("".to_string()),
            RSO::SingleRandom(vec![RSO::SinglePlay("".to_string()), RSO::SinglePlay("".to_string())]),
        ]),
    ]);

    let mut tracker = SongOpTracker::from(&ops);

    println!["Hello, {}!", "World"];

    println!["{:?}", tracker];
    println!["{:?}", tracker.get_current()];

    let limit = 100;
    let mut n = 0;
    while NextResult::Current == tracker.move_next() && n < limit {
        println!["{:?}", tracker.get_current()];
        n += 1;
    }
    println!["Finished going forwards"];

    while BackResult::Current == tracker.move_back() {
        println!["{:?}", tracker.get_current()];
    }
}

#[test]
fn song_op_tracker_tester() {
    let ops: RSO = RSO::PlayOnce(vec![
        RSO::SinglePlay("".to_string()),
        RSO::PlayOnce(vec![
            RSO::SinglePlay("".to_string()),
            RSO::RandomPlay(vec![RSO::SinglePlay("".to_string()), RSO::SinglePlay("".to_string())]),
        ]),
    ]);

    let mut tracker = SongOpTracker::from(&ops);

    println!["{:?}", tracker];
    println!["{:?}", tracker.get_current()];

    let limit = 100;
    let mut n = 0;
    while NextResult::Current == tracker.move_next() && n < limit {
        println!["{:?}", tracker.get_current()];
        n += 1;
    }
    println!["Finished going forwards"];

    while BackResult::Current == tracker.move_back() {
        println!["{:?}", tracker.get_current()];
    }
}

#[test]
fn test_path_to_id() {
    let song_id = ItemId::default();
    let song = ConstructorItem::Song("hell".to_string(), song_id);
    let song_id2 = ItemId::default();
    let song2 = ConstructorItem::Song("hell".to_string(), song_id2);

    let subtree = SongOpConstructor::from(vec![song2]);
    let subtree_id = subtree.id;

    let list = vec![song, ConstructorItem::Operation(subtree)];
    let tree = SongOpConstructor::from(list);

    let unused_id = ItemId::default();

    assert_eq![Some(vec![0]), tree.path_to_id(&song_id)];
    assert_eq![Some(vec![1]), tree.path_to_id(&subtree_id)];
    assert_eq![Some(vec![1, 0]), tree.path_to_id(&song_id2)];
    assert_eq![None, tree.path_to_id(&unused_id)];
}

#[test]
fn every_operation_is_valid() {
    let op = RSO::PlayOnce(vec![song("a"), RSO::Stretch(vec![], 0), RSO::InfiniteRandom(vec![song("b")])]);
    assert!(op.is_valid());
    assert!(song("a").is_valid());
}

#[test]
fn loop_types() {
    assert_eq!(song("a").loop_type(), InfLoopType::Never);
    assert_eq!(RSO::InfiniteLoop(vec![song("a")]).loop_type(), InfLoopType::Always);
    assert_eq!(RSO::InfiniteRandom(vec![]).loop_type(), InfLoopType::Always);
    assert_eq!(RSO::PlayOnce(vec![song("a"), song("b")]).loop_type(), InfLoopType::Never);
    assert_eq!(
        RSO::PlayOnce(vec![song("a"), RSO::LoopNTimes(vec![RSO::InfiniteLoop(vec![song("b")])], 2)]).loop_type(),
        InfLoopType::Always
    );
    assert_eq!(
        RSO::SingleRandom(vec![song("a"), RSO::InfiniteLoop(vec![song("b")])]).loop_type(),
        InfLoopType::Maybe
    );
    // the first looping child decides
    assert_eq!(
        RSO::PlayOnce(vec![
            RSO::SingleRandom(vec![RSO::InfiniteLoop(vec![song("a")])]),
            RSO::InfiniteLoop(vec![song("b")]),
        ])
        .loop_type(),
        InfLoopType::Maybe
    );
}

#[test]
fn random_choices_are_checked() {
    assert!(RSO::PlayOnce(vec![RSO::SingleRandom(vec![song("a")])]).has_choices());
    assert!(!RSO::PlayOnce(vec![RSO::SingleRandom(vec![])]).has_choices());
    assert!(!RSO::InfiniteRandom(vec![]).has_choices());
    assert!(RSO::RandomPlay(vec![]).has_choices());
}

#[test]
fn random_choice_points_at_a_child() {
    for _ in 0..20 {
        let t = SongOpTracker::from(&RSO::SingleRandom(vec![song("a"), song("b"), song("c")]));
        let path = t.get_current();
        assert_eq!(path.len(), 1);
        assert!(path[0] < 3);
    }
}

#[test]
fn random_play_order_is_a_permutation() {
    let t = SongOpTracker::from(&RSO::RandomPlay(vec![song("a"), song("b"), song("c"), song("d")]));
    match t {
        SongOpTracker::RandomPlay { current, randomized_indices, children } => {
            assert_eq!(current, 0);
            assert_eq!(children.len(), 4);
            let mut sorted = randomized_indices.clone();
            sorted.sort();
            assert_eq!(sorted, vec![0, 1, 2, 3]);
        },
        _ => panic!("a random play tracker was expected"),
    }
}

#[test]
fn flat_list_next_then_back() {
    let ops = RSO::PlayOnce(vec![song("a"), song("b"), song("c")]);
    let mut t = SongOpTracker::from(&ops);
    assert_eq!(t.get_current(), vec![0]);
    assert_eq!(t.move_next(), NextResult::Current);
    assert_eq!(t.get_current(), vec![1]);
    assert_eq!(t.move_back(), BackResult::Current);
    assert_eq!(t.get_current(), vec![0]);
    assert_eq!(t.move_back(), BackResult::Rewound);
    assert_eq!(t.get_current(), vec![0]);
}

#[test]
fn play_once_ends_after_last_song() {
    let mut t = SongOpTracker::from(&RSO::PlayOnce(vec![song("a"), song("b")]));
    assert_eq!(t.move_next(), NextResult::Current);
    assert_eq!(t.move_next(), NextResult::Ended);
}

#[test]
fn loop_n_times_plays_each_round() {
    let mut t = SongOpTracker::from(&RSO::LoopNTimes(vec![song("a"), song("b")], 2));
    let mut seen = vec![t.get_current()[0]];
    while t.move_next() == NextResult::Current {
        seen.push(t.get_current()[0]);
    }
    assert_eq!(seen, vec![0, 1, 0, 1]);
}

#[test]
fn stretch_repeats_each_song() {
    let mut t = SongOpTracker::from(&RSO::Stretch(vec![song("a"), song("b")], 2));
    let mut seen = vec![t.get_current()[0]];
    while t.move_next() == NextResult::Current {
        seen.push(t.get_current()[0]);
    }
    assert_eq!(seen, vec![0, 0, 1, 1]);
}

#[test]
fn infinite_loop_wraps_around() {
    let mut t = SongOpTracker::from(&RSO::InfiniteLoop(vec![song("a"), song("b")]));
    assert_eq!(t.move_next(), NextResult::Current);
    assert_eq!(t.get_current(), vec![1]);
    assert_eq!(t.move_next(), NextResult::Current);
    assert_eq!(t.get_current(), vec![0]);
}

#[test]
fn tracker_to_end_and_start() {
    let mut t = SongOpTracker::from(&RSO::PlayOnce(vec![song("a"), song("b"), song("c")]));
    t.to_end();
    assert!(t.has_current());
    assert_eq!(t.get_current(), vec![2]);
    t.to_start();
    assert!(t.has_current());
    assert_eq!(t.get_current(), vec![0]);
}

#[test]
fn to_end_reaches_the_last_song_of_nested_lists() {
    let ops = RSO::PlayOnce(vec![song("a"), song("b"), RSO::PlayOnce(vec![song("c"), song("d")])]);
    let mut t = SongOpTracker::from(&ops);
    t.to_end();
    assert_eq!(t.get_current(), vec![2, 1]);
    assert_eq!(t.next_outcome(), NextResult::Ended);

    let mut looped = SongOpTracker::from(&RSO::LoopNTimes(vec![song("a"), song("b")], 2));
    looped.to_end();
    assert_eq!(looped.get_current(), vec![1]);
    assert_eq!(looped.move_back(), BackResult::Current);
    assert_eq!(looped.get_current(), vec![0]);

    let mut stretched = SongOpTracker::from(&RSO::Stretch(vec![song("a"), RSO::PlayOnce(vec![song("b"), song("c")])], 3));
    stretched.to_end();
    assert_eq!(stretched.get_current(), vec![1, 1]);

    let mut endless = SongOpTracker::from(&RSO::InfiniteLoop(vec![song("a"), song("b")]));
    endless.to_end();
    assert_eq!(endless.get_current(), vec![1]);
}

#[test]
fn to_start_restarts_nested_lists() {
    let mut t = SongOpTracker::PlayOnce {
        current: 1,
        children: vec![
            SongOpTracker::PlayOnce { current: 1, children: vec![SongOpTracker::SinglePlay, SongOpTracker::SinglePlay] },
            SongOpTracker::SinglePlay,
        ],
    };
    assert!(t.can_start());
    t.to_start();
    assert_eq!(t.get_current(), vec![0, 0]);
}

#[test]
fn moving_next_and_back_across_groups_returns_to_the_same_song() {
    let ops = RSO::PlayOnce(vec![
        RSO::PlayOnce(vec![song("a"), song("b")]),
        RSO::PlayOnce(vec![song("c"), song("d")]),
    ]);
    let mut t = SongOpTracker::from(&ops);
    assert_eq!(t.move_next(), NextResult::Current);
    assert_eq!(t.get_current(), vec![0, 1]);
    assert_eq!(t.move_next(), NextResult::Current);
    assert_eq!(t.get_current(), vec![1, 0]);
    assert_eq!(t.move_back(), BackResult::Current);
    assert_eq!(t.get_current(), vec![0, 1]);
    assert_eq!(t.move_back(), BackResult::Current);
    assert_eq!(t.get_current(), vec![0, 0]);
    assert_eq!(t.move_back(), BackResult::Rewound);
}

#[test]
fn set_current_then_get_current_gives_the_path_back() {
    let stretch = RSO::Stretch(vec![song("a"), song("b")], 2);
    let t = SongOpTracker::from_song_op(&stretch, VecDeque::from(vec![1]));
    assert_eq!(t.get_current(), vec![1]);

    let shuffled = RSO::RandomPlay(vec![song("a"), song("b"), song("c")]);
    for i in 0..3 {
        let t = SongOpTracker::from_song_op(&shuffled, VecDeque::from(vec![i]));
        assert_eq!(t.get_current(), vec![i]);
    }

    let looped = RSO::LoopNTimes(vec![song("a"), RSO::PlayOnce(vec![song("b"), song("c")])], 3);
    let t = SongOpTracker::from_song_op(&looped, VecDeque::from(vec![1, 1]));
    assert_eq!(t.get_current(), vec![1, 1]);
}

#[test]
fn tracker_set_current_follows_path() {
    let ops = RSO::PlayOnce(vec![song("a"), RSO::PlayOnce(vec![song("b"), song("c")])]);
    let t = SongOpTracker::from_song_op(&ops, VecDeque::from(vec![1, 1]));
    assert_eq!(t.get_current(), vec![1, 1]);
}

#[test]
fn operation_tracker_trait_moves() {
    fn step<T: OperationTracker>(t: &mut T) -> NextResult {
        t.move_next()
    }
    let mut t = SongOpTracker::from(&RSO::PlayOnce(vec![song("a"), song("b")]));
    assert_eq!(step(&mut t), NextResult::Current);
    assert_eq!(OperationTracker::get_current(&t), vec![1]);
}

#[test]
fn label_round_trip() {
    let all = [
        ActualRecursiveOps::PlayOnce,
        ActualRecursiveOps::LoopNTimes,
        ActualRecursiveOps::Stretch,
        ActualRecursiveOps::InfiniteLoop,
        ActualRecursiveOps::RandomPlay,
        ActualRecursiveOps::SingleRandom,
        ActualRecursiveOps::InfiniteRandom,
    ];
    for op in all {
        assert_eq!(ActualRecursiveOps::from_str(op.as_str()), Some(op));
    }
    assert_eq!(ActualRecursiveOps::LoopNTimes.as_str(), "Loop N Times");
    assert_eq!(ActualRecursiveOps::from_str("Loop forever"), None);
}

fn sample_tree() -> (SongOpConstructor, ItemId, ItemId, ItemId) {
    let a = ItemId::default();
    let b = ItemId::default();
    let inner = SongOpConstructor::new(ActualRecursiveOps::Stretch, vec![ConstructorItem::Song("b".to_string(), b)]);
    let inner_id = inner.id;
    let tree = SongOpConstructor::from(vec![ConstructorItem::Song("a".to_string(), a), ConstructorItem::Operation(inner)]);
    (tree, a, b, inner_id)
}

#[test]
fn constructor_builds_operation() {
    let (mut tree, _, _, _) = sample_tree();
    if let ConstructorItem::Operation(g) = &mut tree.list[1] {
        g.n = 3;
    }
    let op = tree.build();
    match op {
        RSO::PlayOnce(children) => {
            assert_eq!(children.len(), 2);
            assert!(matches!(&children[0], RSO::SinglePlay(k) if k == "a"));
            match &children[1] {
                RSO::Stretch(inner, n) => {
                    assert_eq!(*n, 3);
                    assert!(matches!(&inner[0], RSO::SinglePlay(k) if k == "b"));
                },
                other => panic!("unexpected {:?}", other),
            }
        },
        other => panic!("unexpected {:?}", other),
    }
    assert_eq!(tree.all_song_keys_rec(), vec!["a".to_string(), "b".to_string()]);
}

#[test]
fn constructor_item_lookup() {
    let (tree, _, b, _) = sample_tree();
    assert!(tree.item_at_path(VecDeque::new()).is_none());
    assert!(matches!(tree.item_at_path(VecDeque::from(vec![1, 0])), Some(ConstructorItem::Song(k, id)) if k == "b" && *id == b));
    assert!(tree.item_at_path(VecDeque::from(vec![0, 0])).is_none());
    assert!(tree.item_at_path(VecDeque::from(vec![5])).is_none());
    assert_eq!(song_key_at(&tree, &vec![1, 0]), Some("b".to_string()));
    assert_eq!(song_key_at(&tree, &vec![1]), None);
}

#[test]
fn push_then_pop_gives_the_song_back() {
    let (mut tree, _, _, _) = sample_tree();
    let n = tree.list.len();
    let id = ItemId::default();
    tree.push_to_path(VecDeque::new(), ConstructorItem::Song("c".to_string(), id));
    assert_eq!(tree.list.len(), n + 1);
    let popped = tree.pop_path(VecDeque::from(vec![n]));
    assert!(matches!(popped, Some(ConstructorItem::Song(k, i)) if k == "c" && i == id));
    assert_eq!(tree.list.len(), n);
}

#[test]
fn popping_a_group_takes_out_the_group() {
    let (mut tree, _, b, inner_id) = sample_tree();
    assert!(tree.can_pop_path(VecDeque::from(vec![1])));
    let popped = tree.pop_path(VecDeque::from(vec![1]));
    match popped {
        Some(ConstructorItem::Operation(g)) => {
            assert_eq!(g.id, inner_id);
            assert_eq!(g.path_to_id(&b), Some(vec![0]));
        },
        _ => panic!("expected the group"),
    }
    assert_eq!(tree.list.len(), 1);
    assert_eq!(tree.all_song_keys_rec(), vec!["a".to_string()]);
}

#[test]
fn moving_a_group_moves_the_whole_group() {
    let (mut tree, a, b, inner_id) = sample_tree();
    assert!(tree.move_item(&inner_id, &a));
    assert_eq!(tree.list.len(), 2);
    assert_eq!(tree.path_to_id(&inner_id), Some(vec![0]));
    assert_eq!(tree.path_to_id(&b), Some(vec![0, 0]));
    assert_eq!(tree.all_song_keys_rec(), vec!["b".to_string(), "a".to_string()]);
}

#[test]
fn push_next_to_a_song_inserts_at_its_index() {
    let (mut tree, _, _, _) = sample_tree();
    tree.push_to_path(VecDeque::from(vec![0]), ConstructorItem::Song("z".to_string(), ItemId::default()));
    assert_eq!(tree.all_song_keys_rec(), vec!["z".to_string(), "a".to_string(), "b".to_string()]);
}

#[test]
fn move_song_into_group() {
    let (mut tree, a, _, inner_id) = sample_tree();
    assert!(tree.can_pop_path(path_deque(&tree.path_to_id(&a).unwrap())));
    assert!(tree.move_item(&a, &inner_id));
    assert_eq!(tree.list.len(), 1);
    assert_eq!(tree.all_song_keys_rec(), vec!["b".to_string(), "a".to_string()]);
    assert_eq!(tree.path_to_id(&a), Some(vec![0, 1]));
}

#[test]
fn move_of_unknown_item_changes_nothing() {
    let (mut tree, _, _, inner_id) = sample_tree();
    assert!(!tree.move_item(&ItemId::default(), &inner_id));
    assert_eq!(tree.all_song_keys_rec(), vec!["a".to_string(), "b".to_string()]);
}

#[test]
fn constructor_update_messages() {
    let (mut tree, a, b, _) = sample_tree();
    assert!(matches!(tree.update(SongOpMessage::NewGroup), UpdateResult::NoAction));
    assert_eq!(tree.list.len(), 3);
    assert!(matches!(&tree.list[2], ConstructorItem::Operation(g) if g.list.is_empty() && g.n == 1));
    assert!(matches!(tree.update(SongOpMessage::Remove(2)), UpdateResult::NoAction));
    assert_eq!(tree.list.len(), 2);
    tree.update(SongOpMessage::ChangeN(4));
    assert_eq!(tree.n, 4);
    tree.update(SongOpMessage::Collapse);
    assert!(tree.collapsed);
    tree.update(SongOpMessage::Uncollapse);
    assert!(!tree.collapsed);
    tree.update(SongOpMessage::ChangeOperation(ActualRecursiveOps::InfiniteLoop));
    assert_eq!(tree.operation, ActualRecursiveOps::InfiniteLoop);
    assert!(matches!(tree.update(SongOpMessage::SongClicked(a)), UpdateResult::SongClicked(x) if x == a));
    assert!(matches!(tree.update(SongOpMessage::HandleZones(a, vec![b])), UpdateResult::Move(x, y) if x == a && y == b));
    assert!(matches!(tree.update(SongOpMessage::HandleZones(a, vec![b, a])), UpdateResult::NoAction));
    assert!(matches!(tree.update(SongOpMessage::HandleZones(a, vec![])), UpdateResult::NoAction));
    match tree.update(SongOpMessage::Dropped(a)) {
        UpdateResult::Cm(ConstructorCommand::FindZones { original, route }) => {
            assert_eq!(original, a);
            assert!(route.is_empty());
        },
        other => panic!("unexpected {:?}", other),
    }
    match tree.update(SongOpMessage::ItemMessage(1, CItemMessage::Operation(Box::new(SongOpMessage::Dropped(b))))) {
        UpdateResult::Cm(ConstructorCommand::FindZones { original, route }) => {
            assert_eq!(original, b);
            assert_eq!(route, vec![1]);
        },
        other => panic!("unexpected {:?}", other),
    }
    assert!(matches!(tree.update(SongOpMessage::CloseSelf), UpdateResult::Cm(ConstructorCommand::Nothing)));
    tree.update(SongOpMessage::ItemMessage(1, CItemMessage::Operation(Box::new(SongOpMessage::CloseSelf))));
    assert_eq!(tree.list.len(), 1);
}

#[test]
fn clicked_song_starts_playback_there() {
    let (tree, _, b, _) = sample_tree();
    let state = PlayerState::song_clicked(&tree, &b);
    assert!(state.tracker.has_current());
    let path = state.tracker.get_current();
    assert_eq!(path, vec![1, 0]);
    assert_eq!(song_key_at(&tree, &path), Some("b".to_string()));
}

#[test]
fn player_steps_through_the_queue() {
    let a = ItemId::default();
    let b = ItemId::default();
    let c = ItemId::default();
    let tree = SongOpConstructor::from(vec![
        ConstructorItem::Song("a".to_string(), a),
        ConstructorItem::Song("b".to_string(), b),
        ConstructorItem::Song("c".to_string(), c),
    ]);
    let mut state = PlayerState::song_clicked(&tree, &b);
    assert!(state.tracker.is_well_formed());
    assert_eq!(state.tracker.get_current(), vec![1]);
    assert!(matches!(state.play_next_song(), PlayStep::PlayAt(p) if p == vec![2]));
    assert!(matches!(state.play_next_song(), PlayStep::Pause));
    assert!(matches!(state.play_previous_song(), PlayStep::PlayAt(p) if p == vec![1]));
    assert!(matches!(state.rewind(true), PlayStep::Restart));
    assert_eq!(state.tracker.get_current(), vec![1]);
    assert!(matches!(state.rewind(false), PlayStep::PlayAt(p) if p == vec![0]));
    assert!(matches!(state.play_previous_song(), PlayStep::Restart));
    assert_eq!(state.tracker.get_current(), vec![0]);
}

#[test]
fn well_formedness_is_checked() {
    assert!(SongOpTracker::from(&RSO::PlayOnce(vec![song("a")])).is_well_formed());
    assert!(!SongOpTracker::from(&RSO::PlayOnce(vec![])).is_well_formed());
    assert!(!SongOpTracker::from(&RSO::LoopNTimes(vec![song("a")], 0)).is_well_formed());
    assert!(SongOpTracker::from(&RSO::RandomPlay(vec![song("a"), song("b"), song("c")])).is_well_formed());
    let broken = SongOpTracker::RandomPlay {
        current: 0,
        randomized_indices: vec![0, 0],
        children: vec![SongOpTracker::SinglePlay, SongOpTracker::SinglePlay],
    };
    assert!(!broken.is_well_formed());
}

#[test]
fn tracker_checks_before_moving() {
    let mut t = SongOpTracker::from(&RSO::PlayOnce(vec![song("a"), song("b")]));
    assert!(t.can_start());
    assert_eq!(t.selected(), Some(0));
    assert!(t.can_move_next());
    assert_eq!(t.next_outcome(), NextResult::Current);
    t.move_next();
    assert_eq!(t.next_outcome(), NextResult::Ended);
    t.to_end();
    assert_eq!(t.selected(), Some(1));
    assert!(t.can_move_next());
    assert_eq!(t.next_outcome(), NextResult::Ended);

    let empty_stretch = SongOpTracker::from(&RSO::Stretch(vec![song("a")], 0));
    assert!(!empty_stretch.has_current());
    assert!(!empty_stretch.can_move_next());

    let empty_loop = SongOpTracker::from(&RSO::InfiniteLoop(vec![]));
    assert!(!empty_loop.can_start());
}

#[test]
fn single_random_plays_one_song() {
    let mut t = SongOpTracker::from(&RSO::SingleRandom(vec![song("a"), song("b")]));
    assert!(t.can_move_next());
    assert_eq!(t.move_next(), NextResult::Ended);
}

#[test]
fn loop_ends_only_after_every_round() {
    let mut t = SongOpTracker::from(&RSO::LoopNTimes(vec![song("a"), song("b"), song("c")], 3));
    let mut moves = 0;
    while t.can_move_next() && t.move_next() == NextResult::Current {
        moves += 1;
    }
    assert_eq!(moves, 8);
}

#[test]
fn typed_counts_are_read_as_numbers() {
    assert!(matches!(verify_n("12"), SongOpMessage::ChangeN(12)));
    assert!(matches!(verify_n("+7"), SongOpMessage::ChangeN(7)));
    assert!(matches!(verify_n("007"), SongOpMessage::ChangeN(7)));
    assert!(matches!(verify_n("4294967295"), SongOpMessage::ChangeN(4294967295)));
    for bad in ["", "+", "-3", "4294967296", "99999999999999999999", "1a", " 1", "٣", "1.0"] {
        assert!(matches!(verify_n(bad), SongOpMessage::Null), "{bad:?}");
    }
    for text in ["0", "+0", "42", "123456789", "4294967295", "4294967296", "x", "+-1", "-0", "00000000000000000001"] {
        match (verify_n(text), text.parse::<u32>()) {
            (SongOpMessage::ChangeN(n), Ok(m)) => assert_eq!(n, m),
            (SongOpMessage::Null, Err(_)) => {},
            (other, std) => panic!("{text:?}: {other:?} against {std:?}"),
        }
    }
}

#[test]
fn moving_keeps_every_song() {
    let (mut tree, a, b, inner_id) = sample_tree();
    let mut before = tree.all_song_keys_rec();
    before.sort();
    assert!(tree.move_item(&b, &a));
    let mut after = tree.all_song_keys_rec();
    after.sort();
    assert_eq!(before, after);
    assert!(tree.move_item(&a, &inner_id));
    let mut again = tree.all_song_keys_rec();
    again.sort();
    assert_eq!(before, again);
}

#[test]
fn items_can_be_changed_in_place() {
    let (mut tree, _, b, _) = sample_tree();
    match tree.item_at_path_mut(VecDeque::from(vec![1, 0])) {
        Some(ConstructorItem::Song(k, _)) => *k = "changed".to_string(),
        other => panic!("unexpected {:?}", other),
    }
    assert!(matches!(tree.item_at_path(VecDeque::from(vec![1, 0])), Some(ConstructorItem::Song(k, id)) if k == "changed" && *id == b));
    assert!(tree.item_at_path_mut(VecDeque::from(vec![0, 0])).is_none());
    assert!(tree.item_at_path_mut(VecDeque::new()).is_none());
    assert_eq!(tree.all_song_keys_rec(), vec!["a".to_string(), "changed".to_string()]);

    let mut item = ConstructorItem::Operation(SongOpConstructor::from(vec![ConstructorItem::Song("x".to_string(), ItemId::default())]));
    if let Some(ConstructorItem::Operation(g)) = item.item_at_path_mut(VecDeque::new()) {
        g.n = 9;
    }
    assert!(matches!(&item, ConstructorItem::Operation(g) if g.n == 9));
    assert!(item.item_at_path_mut(VecDeque::from(vec![0])).is_some());
}

#[test]
fn trees_know_their_identifiers() {
    let (mut tree, a, b, inner_id) = sample_tree();
    assert!(tree.item_has_id(&a));
    assert!(tree.item_has_id(&b));
    assert!(tree.item_has_id(&inner_id));
    assert!(tree.item_has_id(&tree.id.clone()));
    assert!(!tree.item_has_id(&ItemId::default()));
    let mut item = ConstructorItem::Song("s".to_string(), a);
    assert!(item.item_has_id(&a));
    assert_eq!(TreeDirected::path_to_id(&item, &a), Some(vec![]));
    assert!(TreeDirected::pop_path(&mut item, VecDeque::from(vec![0])).is_none());
}

#[test]
fn well_formed_trackers_stay_well_formed_while_moving() {
    let ops = RSO::PlayOnce(vec![
        RSO::LoopNTimes(vec![song("a"), song("b")], 2),
        RSO::Stretch(vec![song("c"), RSO::RandomPlay(vec![song("d"), song("e")])], 2),
        RSO::SingleRandom(vec![song("f"), song("g")]),
    ]);
    let mut t = SongOpTracker::from(&ops);
    assert!(t.is_well_formed());
    let mut forward = vec![t.get_current()];
    while t.move_next() == NextResult::Current {
        assert!(t.is_well_formed());
        forward.push(t.get_current());
    }
    assert_eq!(forward.len(), 4 + 2 + 4 + 1);
    let mut t2 = SongOpTracker::from(&RSO::PlayOnce(vec![
        RSO::LoopNTimes(vec![song("a"), song("b")], 2),
        RSO::Stretch(vec![song("c")], 3),
    ]));
    let mut seen = vec![t2.get_current()];
    while t2.move_next() == NextResult::Current {
        seen.push(t2.get_current());
    }
    let mut back = vec![t2.get_current()];
    while t2.move_back() == BackResult::Current {
        assert!(t2.is_well_formed());
        back.push(t2.get_current());
    }
    back.reverse();
    assert_eq!(back, seen);
}

#[test]
fn path_to_id_finds_only_carried_ids() {
    let (tree, a, b, inner_id) = sample_tree();
    assert_eq!(tree.path_to_id(&a), Some(vec![0]));
    assert_eq!(tree.path_to_id(&inner_id), Some(vec![1]));
    assert_eq!(tree.path_to_id(&b), Some(vec![1, 0]));
    assert_eq!(tree.path_to_id(&tree.id), Some(vec![]));
    assert_eq!(tree.path_to_id(&ItemId::default()), None);
}

#[test]
fn random_play_plays_each_song_once_then_ends() {
    for n in 1..6 {
        let ops = RSO::RandomPlay((0..n).map(|i| song(&i.to_string())).collect());
        let mut t = SongOpTracker::from(&ops);
        let mut played = vec![t.get_current()[0]];
        let mut currents = 0;
        while t.move_next() == NextResult::Current {
            currents += 1;
            played.push(t.get_current()[0]);
        }
        assert_eq!(currents, n - 1);
        played.sort();
        assert_eq!(played, (0..n).collect::<Vec<_>>());
    }
}

#[test]
fn moving_next_and_back_through_random_plays_returns_to_the_same_song() {
    let ops = RSO::PlayOnce(vec![
        RSO::RandomPlay(vec![song("a"), song("b"), song("c")]),
        RSO::LoopNTimes(vec![RSO::RandomPlay(vec![song("d"), song("e")]), song("f")], 2),
        RSO::Stretch(vec![song("g"), song("h")], 2),
    ]);
    let mut t = SongOpTracker::from(&ops);
    let mut steps = 0;
    loop {
        let before = t.get_current();
        let mut forward = t_clone_path(&ops, &t);
        if forward.move_next() != NextResult::Current {
            break;
        }
        assert_eq!(forward.move_back(), BackResult::Current);
        assert_eq!(forward.get_current(), before);
        assert_eq!(t.move_next(), NextResult::Current);
        steps += 1;
    }
    assert_eq!(steps, 3 + 6 + 4 - 1);
}

fn t_clone_path(ops: &RSO, t: &SongOpTracker) -> SongOpTracker {
    // a second tracker standing where `t` stands, random orders included
    let mut copy = SongOpTracker::from(ops);
    copy_state(&mut copy, t);
    copy
}

fn copy_state(dst: &mut SongOpTracker, src: &SongOpTracker) {
    match (dst, src) {
        (SongOpTracker::PlayOnce { current, children }, SongOpTracker::PlayOnce { current: c, children: k })
        | (SongOpTracker::InfiniteLoop { current, children }, SongOpTracker::InfiniteLoop { current: c, children: k })
        | (SongOpTracker::SingleRandom { current, children }, SongOpTracker::SingleRandom { current: c, children: k })
        | (
            SongOpTracker::InfiniteRandom { current, children },
            SongOpTracker::InfiniteRandom { current: c, children: k },
        )
        | (
            SongOpTracker::LoopNTimes { current, children, .. },
            SongOpTracker::LoopNTimes { current: c, children: k, .. },
        )
        | (SongOpTracker::Stretch { current, children, .. }, SongOpTracker::Stretch { current: c, children: k, .. }) => {
            *current = *c;
            for (d, s) in children.iter_mut().zip(k.iter()) {
                copy_state(d, s);
            }
        },
        (
            SongOpTracker::RandomPlay { current, randomized_indices, children },
            SongOpTracker::RandomPlay { current: c, randomized_indices: r, children: k },
        ) => {
            *current = *c;
            *randomized_indices = r.clone();
            for (d, s) in children.iter_mut().zip(k.iter()) {
                copy_state(d, s);
            }
        },
        _ => {},
    }
}

#[test]
fn song_states_start_idle() {
    assert_eq!(ytm_rs::song::SongState::default(), ytm_rs::song::SongState::Idle);
}
