use yomiage_mon::subscriptions::SubscribeChannels;

#[test]
fn new_registry_has_no_guild() {
    let r = SubscribeChannels::new();
    assert!(r.get(1).is_none());
    assert_eq!(r.channels_of(1), Vec::<u64>::new());
}

#[test]
fn add_channels_appends_in_order_without_repetition() {
    let mut r = SubscribeChannels::new();
    r.add_channels(10, &vec![3, 1, 3]);
    assert_eq!(r.get(10), Some(vec![3, 1]));
    r.add_channels(10, &vec![2, 1, 4]);
    assert_eq!(r.channels_of(10), vec![3, 1, 2, 4]);
    assert!(r.is_subscribed(10, 4));
    assert!(!r.is_subscribed(10, 5));
}

#[test]
fn add_channels_twice_is_adding_once() {
    let mut once = SubscribeChannels::new();
    once.add_channels(7, &vec![5, 6]);
    let mut twice = SubscribeChannels::new();
    twice.add_channels(7, &vec![5, 6]);
    twice.add_channels(7, &vec![5, 6]);
    assert_eq!(once.channels_of(7), twice.channels_of(7));
}

#[test]
fn adding_nothing_keeps_unknown_guild_absent() {
    let mut r = SubscribeChannels::new();
    r.add_channels(7, &vec![]);
    assert!(r.get(7).is_none());
}

#[test]
fn guilds_are_independent() {
    let mut r = SubscribeChannels::new();
    r.add_channels(1, &vec![11]);
    r.add_channels(2, &vec![22]);
    r.remove_channel(1, 11);
    r.remove_all_channels(3);
    assert_eq!(r.channels_of(2), vec![22]);
    assert!(r.get(1).is_none());
}

#[test]
fn remove_channel_keeps_the_others() {
    let mut r = SubscribeChannels::new();
    r.add_channels(1, &vec![4, 5, 6]);
    r.remove_channel(1, 5);
    assert_eq!(r.channels_of(1), vec![4, 6]);
    r.remove_channel(1, 9);
    assert_eq!(r.channels_of(1), vec![4, 6]);
}

#[test]
fn removing_the_last_channel_forgets_the_guild() {
    let mut r = SubscribeChannels::new();
    r.add_channels(1, &vec![4]);
    r.remove_channel(1, 4);
    assert!(r.get(1).is_none());
}

#[test]
fn remove_undoes_add() {
    let mut r = SubscribeChannels::new();
    r.add_channels(1, &vec![4, 5]);
    r.add_channels(1, &vec![6]);
    r.remove_channel(1, 6);
    assert_eq!(r.channels_of(1), vec![4, 5]);
}

#[test]
fn remove_all_channels_forgets_the_guild() {
    let mut r = SubscribeChannels::new();
    r.add_channels(1, &vec![4, 5]);
    r.remove_all_channels(1);
    assert!(r.get(1).is_none());
    assert!(!r.is_subscribed(1, 4));
}
