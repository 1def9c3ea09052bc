use yomiage_mon::event_handler::{
    get_channel_id, get_members_in_vc, Handler, ReadAloud, SkipReason, VoiceStateEntry,
};
use yomiage_mon::subscriptions::SubscribeChannels;

fn entry(user_id: u64, channel_id: Option<u64>, self_mute: bool, bot: Option<bool>) -> VoiceStateEntry {
    VoiceStateEntry { user_id, channel_id, self_mute, member_is_bot: bot }
}

fn guild_states() -> Vec<VoiceStateEntry> {
    vec![
        entry(1, Some(100), true, Some(false)),
        entry(2, Some(100), false, Some(false)),
        entry(3, Some(200), true, Some(false)),
        entry(4, None, true, Some(false)),
        entry(9, Some(100), false, Some(true)),
    ]
}

#[test]
fn channel_of_member() {
    let s = guild_states();
    assert_eq!(get_channel_id(&s, 1), Some(100));
    assert_eq!(get_channel_id(&s, 3), Some(200));
    assert_eq!(get_channel_id(&s, 4), None);
    assert_eq!(get_channel_id(&s, 42), None);
}

#[test]
fn members_in_vc_are_the_non_bots() {
    let s = guild_states();
    assert_eq!(get_members_in_vc(&s, 100), vec![1, 2]);
    assert_eq!(get_members_in_vc(&s, 200), vec![3]);
    assert_eq!(get_members_in_vc(&s, 300), Vec::<u64>::new());
}

#[test]
fn members_of_other_channels_may_be_unknown() {
    let s = vec![entry(1, Some(100), true, Some(false)), entry(2, Some(200), true, None)];
    assert_eq!(get_members_in_vc(&s, 100), vec![1]);
}

#[test]
fn bot_stays_while_members_listen() {
    let s = guild_states();
    assert!(!Handler.voice_state_update(&s, 9));
}

#[test]
fn bot_leaves_when_only_bots_remain() {
    let s = vec![entry(9, Some(100), false, Some(true)), entry(8, Some(100), false, Some(true)), entry(1, Some(200), true, Some(false))];
    assert!(Handler.voice_state_update(&s, 9));
}

fn subscribed() -> SubscribeChannels {
    let mut r = SubscribeChannels::new();
    r.add_channels(50, &vec![500]);
    r
}

fn skip(r: ReadAloud) -> Option<SkipReason> {
    match r {
        ReadAloud::Skip(reason) => Some(reason),
        ReadAloud::Speak(_) => None,
    }
}

#[test]
fn muted_member_in_subscribed_channel_is_read() {
    let s = guild_states();
    match Handler.message(&subscribed(), 50, &s, 1, false, 500, "こんにちは") {
        ReadAloud::Speak(req) => assert_eq!(req.text, "こんにちは"),
        other => panic!("{:?}", other),
    }
}

#[test]
fn message_skip_reasons() {
    let s = guild_states();
    let r = subscribed();
    assert_eq!(skip(Handler.message(&r, 50, &s, 4, false, 500, "hi")), Some(SkipReason::NotInVoiceChannel));
    assert_eq!(skip(Handler.message(&r, 50, &s, 42, false, 500, "hi")), Some(SkipReason::NotInVoiceChannel));
    assert_eq!(skip(Handler.message(&r, 50, &s, 1, true, 500, "hi")), Some(SkipReason::FromBot));
    assert_eq!(skip(Handler.message(&r, 50, &s, 1, false, 501, "hi")), Some(SkipReason::NotSubscribed));
    assert_eq!(skip(Handler.message(&r, 51, &s, 1, false, 500, "hi")), Some(SkipReason::NotSubscribed));
    assert_eq!(skip(Handler.message(&r, 50, &s, 2, false, 500, "hi")), Some(SkipReason::NotMuted));
    assert_eq!(skip(Handler.message(&r, 50, &s, 1, false, 500, "!play")), Some(SkipReason::CommandPrefix));
}

#[test]
fn members_in_vc_are_not_repeated() {
    let s = vec![entry(1, Some(100), true, Some(false)), entry(2, Some(100), true, Some(false)), entry(3, Some(100), true, Some(true))];
    let members = get_members_in_vc(&s, 100);
    assert_eq!(members, vec![1, 2]);
}
