use yomiage_mon::commands::zunda::{format_channel_listing, leave, list, listen, listen_remove, vc, zunda};
use yomiage_mon::subscriptions::SubscribeChannels;

#[test]
fn zunda_greets() {
    assert_eq!(zunda(123), "<@123>, おはようなのだ!");
    assert_eq!(zunda(0), "<@0>, おはようなのだ!");
    assert_eq!(zunda(u64::MAX), format!("<@{}>, おはようなのだ!", u64::MAX));
}

#[test]
fn listing_one_channel_per_line() {
    assert_eq!(format_channel_listing(&vec![]), "");
    assert_eq!(format_channel_listing(&vec![12]), " <#12> ");
    assert_eq!(format_channel_listing(&vec![12, 345]), " <#12> \n <#345> ");
}

#[test]
fn vc_from_member_in_voice() {
    let mut r = SubscribeChannels::new();
    let out = vc(&mut r, 1, Some(100), 200);
    assert_eq!(out.join, Some(100));
    assert_eq!(out.reply, "VCに入ったのだ! 読み上げ対象は\n  <#100> \n <#200>  \nなのだ!");
    assert_eq!(r.channels_of(1), vec![100, 200]);
}

#[test]
fn vc_in_voice_channel_chat_adds_it_once() {
    let mut r = SubscribeChannels::new();
    let out = vc(&mut r, 1, Some(100), 100);
    assert_eq!(r.channels_of(1), vec![100]);
    assert_eq!(out.reply, "VCに入ったのだ! 読み上げ対象は\n  <#100>  \nなのだ!");
}

#[test]
fn vc_from_member_not_in_voice() {
    let mut r = SubscribeChannels::new();
    let out = vc(&mut r, 1, None, 200);
    assert_eq!(out.join, None);
    assert_eq!(out.reply, "VCに入っていないのだ!");
    assert!(r.get(1).is_none());
}

#[test]
fn leave_forgets_the_guild() {
    let mut r = SubscribeChannels::new();
    vc(&mut r, 1, Some(100), 200);
    vc(&mut r, 2, Some(300), 400);
    let out = leave(&mut r, 1, true);
    assert!(out.disconnect);
    assert_eq!(out.reply, "サヨナラなのだ!また必要になったら`vc`で呼ぶのだ!");
    assert_eq!(list(&r, 1), "読み上げ対象はないのだ!");
    assert_eq!(r.channels_of(2), vec![300, 400]);
}

#[test]
fn leave_without_voice_connection() {
    let mut r = SubscribeChannels::new();
    vc(&mut r, 1, Some(100), 200);
    let out = leave(&mut r, 1, false);
    assert!(!out.disconnect);
    assert_eq!(out.reply, "Not in a voice channel");
    assert_eq!(r.channels_of(1), vec![100, 200]);
}

#[test]
fn listen_list_and_remove() {
    let mut r = SubscribeChannels::new();
    assert_eq!(list(&r, 1), "読み上げ対象はないのだ!");
    assert_eq!(listen(&mut r, 1, 7), "VCの読み上げ対象に追加したのだ!");
    assert_eq!(listen(&mut r, 1, 8), "VCの読み上げ対象に追加したのだ!");
    assert_eq!(list(&r, 1), "読み上げ対象は\n  <#7> \n <#8>  \nなのだ!");
    assert_eq!(listen_remove(&mut r, 1, 7), "VCの読み上げ対象から削除したのだ!");
    assert_eq!(list(&r, 1), "読み上げ対象は\n  <#8>  \nなのだ!");
    listen_remove(&mut r, 1, 8);
    assert_eq!(list(&r, 1), "読み上げ対象はないのだ!");
}

#[test]
fn listen_without_voice_connection_still_subscribes() {
    let mut r = SubscribeChannels::new();
    listen(&mut r, 3, 9);
    assert_eq!(r.channels_of(3), vec![9]);
    assert!(list(&r, 3).contains("<#9>"));
}

#[test]
fn remove_after_leaving_still_unsubscribes() {
    let mut r = SubscribeChannels::new();
    vc(&mut r, 3, Some(100), 9);
    listen_remove(&mut r, 3, 9);
    assert_eq!(r.channels_of(3), vec![100]);
}

#[test]
fn list_mentions_channels_while_subscribed() {
    let mut r = SubscribeChannels::new();
    listen(&mut r, 4, 70);
    listen(&mut r, 4, 71);
    vc(&mut r, 4, Some(72), 73);
    listen_remove(&mut r, 4, 71);
    let reply = list(&r, 4);
    for c in ["<#70>", "<#72>", "<#73>"] {
        assert!(reply.contains(c), "{}", c);
    }
    assert!(!reply.contains("<#71>"));
}
