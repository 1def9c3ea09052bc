//! The replies of the commands and what each of them does to the
//! subscriptions; joining and leaving the voice channel and sending the
//! replies is the caller's part.

use vstd::prelude::*;
use crate::subscriptions::{
    SubscribeChannels, channels_in, spec_add_channels, spec_remove_channel,
    law_add_channels_subscribes,
};
use crate::text::{decimal, push_decimal};

verus! {

/// How a channel is written in a listing: ` <#id> `.
pub open spec fn channel_mention(channel: u64) -> Seq<char> {
    " <#"@ + decimal(channel as nat) + "> "@
}

/// The mentions of `channels`, one per line.
pub open spec fn channel_listing(channels: Seq<u64>) -> Seq<char>
    decreases channels.len(),
{
    if channels.len() == 0 {
        Seq::empty()
    } else if channels.len() == 1 {
        channel_mention(channels[0])
    } else {
        channel_listing(channels.drop_last()) + "\n"@ + channel_mention(channels.last())
    }
}

/// The mentions of `channels`, one per line.
pub fn format_channel_listing(channels: &Vec<u64>) -> (s: String)
    ensures
        s@ == channel_listing(channels@),
{
    let mut s = String::new();
    let mut i: usize = 0;
    while i < channels.len()
        invariant
            i <= channels.len(),
            s@ == channel_listing(channels@.take(i as int)),
        decreases channels.len() - i,
    {
        proof {
            assert(channels@.take(i + 1).drop_last() =~= channels@.take(i as int));
            assert(channels@.take(i + 1).last() == channels@[i as int]);
            if i == 0 {
                assert(channels@.take(0) =~= Seq::<u64>::empty());
            }
        }
        if i > 0 {
            s.append("\n");
        }
        s.append(" <#");
        push_decimal(&mut s, channels[i]);
        s.append("> ");
        proof {
            if i == 0 {
                assert(s@ =~= channel_listing(channels@.take(1)));
            } else {
                assert(s@ =~= channel_listing(channels@.take(i + 1)));
            }
        }
        i = i + 1;
    }
    assert(channels@.take(channels.len() as int) =~= channels@);
    s
}

/// The greeting of the `zunda` command to the member mentioned by `mention`.
pub open spec fn zunda_reply(mention: Seq<char>) -> Seq<char> {
    mention + ", おはようなのだ!"@
}

/// The reply of `vc` once the bot is in the voice channel.
pub open spec fn vc_joined_reply(channels: Seq<u64>) -> Seq<char> {
    "VCに入ったのだ! 読み上げ対象は\n "@ + channel_listing(channels) + " \nなのだ!"@
}

/// The reply of `vc` to a member who is in no voice channel.
pub open spec fn vc_refused_reply() -> Seq<char> {
    "VCに入っていないのだ!"@
}

/// The reply of `leave` after the bot left.
pub open spec fn leave_reply() -> Seq<char> {
    "サヨナラなのだ!また必要になったら`vc`で呼ぶのだ!"@
}

/// The reply of `leave` where the bot is in no voice channel.
pub open spec fn not_in_voice_reply() -> Seq<char> {
    "Not in a voice channel"@
}

/// The reply of `listen` after the channel is added.
pub open spec fn listen_reply() -> Seq<char> {
    "VCの読み上げ対象に追加したのだ!"@
}

/// The reply of `remove` after the channel is taken off.
pub open spec fn listen_remove_reply() -> Seq<char> {
    "VCの読み上げ対象から削除したのだ!"@
}

/// The reply of `list`: the subscribed channels, or that there is none.
pub open spec fn list_reply(subscriptions: Map<u64, Seq<u64>>, guild: u64) -> Seq<char> {
    if subscriptions.contains_key(guild) {
        "読み上げ対象は\n "@ + channel_listing(subscriptions[guild]) + " \nなのだ!"@
    } else {
        "読み上げ対象はないのだ!"@
    }
}

/// What `vc` does: the reply, and the voice channel to join if any.
#[derive(Debug)]
pub struct VcOutcome {
    pub reply: String,
    pub join: Option<u64>,
}

/// What `leave` does: whether to leave the voice channel, and the reply.
#[derive(Debug)]
pub struct LeaveOutcome {
    pub disconnect: bool,
    pub reply: String,
}

/// How a member is mentioned: `<@id>`.
pub open spec fn user_mention(user_id: u64) -> Seq<char> {
    "<@"@ + decimal(user_id as nat) + ">"@
}

/// `serenity::model::mention::Mention::User` written with its `Display`: the
/// contract claims `<@`, the id in decimal, and `>`, as serenity's
/// `fmt` writes `<@{}>` with the id's `u64`.
#[verifier::external_body]
fn mention_of_user(user_id: u64) -> (s: String)
    ensures
        s@ == user_mention(user_id),
{
    serenity::model::mention::Mention::User(serenity::model::id::UserId(user_id)).to_string()
}

/// The greeting of the `zunda` command to its author.
pub fn zunda(author_id: u64) -> (reply: String)
    ensures
        reply@ == zunda_reply(user_mention(author_id)),
{
    let mut reply = mention_of_user(author_id);
    reply.append(", おはようなのだ!");
    reply
}

/// The `vc` command, sent from `text_channel` by a member who is in
/// `author_voice_channel`: the bot joins that voice channel and reads both
/// it and `text_channel`.
pub fn vc(
    subscriptions: &mut SubscribeChannels,
    guild_id: u64,
    author_voice_channel: Option<u64>,
    text_channel: u64,
) -> (r: VcOutcome)
    ensures
        match author_voice_channel {
            Some(voice) => {
                &&& final(subscriptions)@ == spec_add_channels(
                    old(subscriptions)@,
                    guild_id,
                    seq![voice, text_channel],
                )
                &&& r.join == Some(voice)
                &&& r.reply@ == vc_joined_reply(channels_in(final(subscriptions)@, guild_id))
            },
            None => {
                &&& final(subscriptions)@ == old(subscriptions)@
                &&& r.join is None
                &&& r.reply@ == vc_refused_reply()
            },
        },
{
    match author_voice_channel {
        Some(voice) => {
            let mut added: Vec<u64> = Vec::new();
            added.push(voice);
            added.push(text_channel);
            assert(added@ =~= seq![voice, text_channel]);
            subscriptions.add_channels(guild_id, &added);
            let channels = subscriptions.channels_of(guild_id);
            let mut reply = String::from_str("VCに入ったのだ! 読み上げ対象は\n ");
            let listing = format_channel_listing(&channels);
            reply.append(listing.as_str());
            reply.append(" \nなのだ!");
            VcOutcome { reply, join: Some(voice) }
        },
        None => VcOutcome { reply: String::from_str("VCに入っていないのだ!"), join: None },
    }
}

/// The `leave` command: where the bot is in a voice channel of the guild it
/// leaves it and forgets the guild's subscriptions.
pub fn leave(subscriptions: &mut SubscribeChannels, guild_id: u64, has_handler: bool) -> (r:
    LeaveOutcome)
    ensures
        r.disconnect == has_handler,
        has_handler ==> final(subscriptions)@ == old(subscriptions)@.remove(guild_id)
            && r.reply@ == leave_reply(),
        !has_handler ==> final(subscriptions)@ == old(subscriptions)@ && r.reply@
            == not_in_voice_reply(),
{
    if has_handler {
        subscriptions.remove_all_channels(guild_id);
        LeaveOutcome {
            disconnect: true,
            reply: String::from_str("サヨナラなのだ!また必要になったら`vc`で呼ぶのだ!"),
        }
    } else {
        LeaveOutcome { disconnect: false, reply: String::from_str("Not in a voice channel") }
    }
}

/// The `listen` command, sent from `channel`: the channel is read from now on.
pub fn listen(subscriptions: &mut SubscribeChannels, guild_id: u64, channel: u64) -> (reply: String)
    ensures
        final(subscriptions)@ == spec_add_channels(old(subscriptions)@, guild_id, seq![channel]),
        reply@ == listen_reply(),
{
    let mut added: Vec<u64> = Vec::new();
    added.push(channel);
    assert(added@ =~= seq![channel]);
    subscriptions.add_channels(guild_id, &added);
    String::from_str("VCの読み上げ対象に追加したのだ!")
}

/// The `list` command: the channels that are read in the guild.
pub fn list(subscriptions: &SubscribeChannels, guild_id: u64) -> (reply: String)
    ensures
        reply@ == list_reply(subscriptions@, guild_id),
{
    match subscriptions.get(guild_id) {
        Some(channels) => {
            let mut reply = String::from_str("読み上げ対象は\n ");
            let listing = format_channel_listing(&channels);
            reply.append(listing.as_str());
            reply.append(" \nなのだ!");
            reply
        },
        None => String::from_str("読み上げ対象はないのだ!"),
    }
}

/// The `remove` command, sent from `channel`: the channel is no longer read.
pub fn listen_remove(subscriptions: &mut SubscribeChannels, guild_id: u64, channel: u64) -> (reply:
    String)
    ensures
        final(subscriptions)@ == spec_remove_channel(old(subscriptions)@, guild_id, channel),
        reply@ == listen_remove_reply(),
{
    subscriptions.remove_channel(guild_id, channel);
    String::from_str("VCの読み上げ対象から削除したのだ!")
}

/// After `vc` from a member in a voice channel, the guild reads both that
/// voice channel and the text channel the command came from, and `list`
/// answers with the same listing as `vc` did.
pub proof fn law_vc_then_list(m: Map<u64, Seq<u64>>, guild: u64, voice: u64, text_channel: u64)
    ensures
        spec_add_channels(m, guild, seq![voice, text_channel]).contains_key(guild),
        channels_in(spec_add_channels(m, guild, seq![voice, text_channel]), guild).contains(voice),
        channels_in(spec_add_channels(m, guild, seq![voice, text_channel]), guild).contains(
            text_channel,
        ),
        list_reply(spec_add_channels(m, guild, seq![voice, text_channel]), guild)
            == "読み上げ対象は\n "@ + channel_listing(
            channels_in(spec_add_channels(m, guild, seq![voice, text_channel]), guild),
        ) + " \nなのだ!"@,
{
    let added = seq![voice, text_channel];
    law_add_channels_subscribes(m, guild, added);
    assert(added[0] == voice && added[1] == text_channel);
    assert(added.contains(voice));
    assert(added.contains(text_channel));
    assert(channels_in(spec_add_channels(m, guild, added), guild).contains(voice));
}

/// After `leave`, `list` answers that no channel is read.
pub proof fn law_leave_then_list(m: Map<u64, Seq<u64>>, guild: u64)
    ensures
        list_reply(m.remove(guild), guild) == "読み上げ対象はないのだ!"@,
{
}

/// After `listen` the channel is read; after `remove` it is not.
pub proof fn law_listen_and_remove(m: Map<u64, Seq<u64>>, guild: u64, channel: u64)
    ensures
        channels_in(spec_add_channels(m, guild, seq![channel]), guild).contains(channel),
        !channels_in(spec_remove_channel(m, guild, channel), guild).contains(channel),
{
    law_add_channels_subscribes(m, guild, seq![channel]);
    assert(seq![channel][0] == channel);
    assert(seq![channel].contains(channel));
    crate::subscriptions::law_remove_channel_unsubscribes(m, guild, channel);
}

/// `part` stands somewhere in `text`.
pub open spec fn contains_text(text: Seq<char>, part: Seq<char>) -> bool {
    exists|k: int| 0 <= k && k + part.len() <= text.len() && #[trigger] text.subrange(k, k + part.len()) == part
}

proof fn lemma_contains_text_extend(text: Seq<char>, part: Seq<char>, before: Seq<char>, after: Seq<char>)
    requires
        contains_text(text, part),
    ensures
        contains_text(before + text + after, part),
{
    let k = choose|k: int| 0 <= k && k + part.len() <= text.len() && #[trigger] text.subrange(k, k + part.len()) == part;
    let whole = before + text + after;
    let k2 = k + before.len();
    assert(whole.subrange(k2, k2 + part.len()) =~= part);
}

/// The listing of channels mentions each of them.
pub proof fn law_listing_mentions_each_channel(channels: Seq<u64>, i: int)
    requires
        0 <= i < channels.len(),
    ensures
        contains_text(channel_listing(channels), channel_mention(channels[i])),
    decreases channels.len(),
{
    let m = channel_mention(channels[i]);
    if channels.len() == 1 {
        assert(channel_listing(channels) == m);
        let k: int = 0;
        assert(channel_listing(channels).subrange(k, k + m.len()) =~= m);
        assert(contains_text(channel_listing(channels), m));
    } else {
        let front = channels.drop_last();
        let fl = channel_listing(front);
        if i < channels.len() - 1 {
            law_listing_mentions_each_channel(front, i);
            assert(front[i] == channels[i]);
            lemma_contains_text_extend(fl, m, Seq::empty(), "\n"@ + channel_mention(channels.last()));
            assert(Seq::<char>::empty() + fl + ("\n"@ + channel_mention(channels.last())) =~= channel_listing(channels));
            assert(contains_text(channel_listing(channels), m));
        } else {
            let whole = channel_listing(channels);
            let k: int = (fl.len() + "\n"@.len()) as int;
            assert(whole =~= (fl + "\n"@) + m);
            assert(channels.last() == channels[i]);
            assert(whole.len() == k + m.len());
            assert(whole.subrange(k, k + m.len()) =~= m);
            assert(contains_text(whole, m));
        }
    }
}

/// `list` mentions every channel that is read in the guild.
pub proof fn law_list_mentions_every_subscribed_channel(m: Map<u64, Seq<u64>>, guild: u64, channel: u64)
    requires
        channels_in(m, guild).contains(channel),
    ensures
        contains_text(list_reply(m, guild), channel_mention(channel)),
{
    let list = channels_in(m, guild);
    assert(m.contains_key(guild));
    let i = choose|i: int| 0 <= i < list.len() && list[i] == channel;
    law_listing_mentions_each_channel(list, i);
    lemma_contains_text_extend(channel_listing(list), channel_mention(channel), "読み上げ対象は\n "@, " \nなのだ!"@);
}

/// After `listen` in a channel, `list` in that guild mentions the channel.
pub proof fn law_list_after_listen_mentions_channel(m: Map<u64, Seq<u64>>, guild: u64, channel: u64)
    ensures
        contains_text(list_reply(spec_add_channels(m, guild, seq![channel]), guild), channel_mention(channel)),
{
    let after = spec_add_channels(m, guild, seq![channel]);
    law_add_channels_subscribes(m, guild, seq![channel]);
    assert(seq![channel][0] == channel);
    assert(seq![channel].contains(channel));
    assert(channels_in(after, guild).contains(channel));
    law_list_mentions_every_subscribed_channel(after, guild, channel);
}

/// A mention holds no line break, so each line of a listing is one mention.
pub proof fn law_mention_is_one_line(channel: u64)
    ensures
        !channel_mention(channel).contains('\n'),
        channel_mention(channel) == " <#"@ + decimal(channel as nat) + "> "@,
{
    reveal_strlit(" <#");
    reveal_strlit("> ");
    crate::text::law_decimal_is_digits(channel as nat);
    let m = channel_mention(channel);
    let d = decimal(channel as nat);
    assert(" <#"@ =~= seq![' ', '<', '#']);
    assert("> "@ =~= seq!['>', ' ']);
    if m.contains('\n') {
        let k = choose|k: int| 0 <= k < m.len() && m[k] == '\n';
        if 3 <= k < 3 + d.len() {
            assert(m[k] == d[k - 3]);
        }
    }
}

/// The listing of one channel is its mention.
pub proof fn law_listing_of_one_channel(channel: u64)
    ensures
        channel_listing(seq![channel]) == channel_mention(channel),
{
}

/// The listing of two runs of channels is the listing of the first, a line
/// break, and the listing of the second: the listing of `n` channels is
/// their `n` mentions, one per line, each once, in order.
pub proof fn law_listing_of_concatenation(a: Seq<u64>, b: Seq<u64>)
    requires
        a.len() > 0,
        b.len() > 0,
    ensures
        channel_listing(a + b) == channel_listing(a) + "\n"@ + channel_listing(b),
    decreases b.len(),
{
    let ab = a + b;
    assert(ab.drop_last() =~= a + b.drop_last());
    assert(ab.last() == b.last());
    if b.len() == 1 {
        assert(b.drop_last() =~= Seq::<u64>::empty());
        assert(ab.drop_last() =~= a);
        assert(b[0] == b.last());
    } else {
        law_listing_of_concatenation(a, b.drop_last());
        assert(channel_listing(a) + "\n"@ + channel_listing(b.drop_last()) + "\n"@
            + channel_mention(b.last()) =~= channel_listing(a) + "\n"@ + (channel_listing(
            b.drop_last(),
        ) + "\n"@ + channel_mention(b.last())));
    }
}

/// The reply of `vc` is the reply of `list` for the same subscriptions,
/// after the words that the bot joined.
pub proof fn law_vc_reply_is_list_reply(m: Map<u64, Seq<u64>>, guild: u64)
    requires
        m.contains_key(guild),
    ensures
        vc_joined_reply(channels_in(m, guild)) == "VCに入ったのだ! "@ + list_reply(m, guild),
{
    reveal_strlit("VCに入ったのだ! 読み上げ対象は\n ");
    reveal_strlit("VCに入ったのだ! ");
    reveal_strlit("読み上げ対象は\n ");
    assert("VCに入ったのだ! 読み上げ対象は\n "@ =~= "VCに入ったのだ! "@ + "読み上げ対象は\n "@);
    let l = channel_listing(m[guild]);
    assert("VCに入ったのだ! 読み上げ対象は\n "@ + l + " \nなのだ!"@ =~= "VCに入ったのだ! "@ + (
    "読み上げ対象は\n "@ + l + " \nなのだ!"@));
}

/// The reply of `vc` mentions every channel the guild reads after it.
pub proof fn law_vc_reply_mentions_every_channel(m: Map<u64, Seq<u64>>, guild: u64, channel: u64)
    requires
        channels_in(m, guild).contains(channel),
    ensures
        contains_text(vc_joined_reply(channels_in(m, guild)), channel_mention(channel)),
{
    let list = channels_in(m, guild);
    let i = choose|i: int| 0 <= i < list.len() && list[i] == channel;
    law_listing_mentions_each_channel(list, i);
    lemma_contains_text_extend(
        channel_listing(list),
        channel_mention(channel),
        "VCに入ったのだ! 読み上げ対象は\n "@,
        " \nなのだ!"@,
    );
}

} // verus!
