//! What the bot does on a message and on a change of a voice state.

use vstd::prelude::*;
use crate::subscriptions::{SubscribeChannels, channels_in};
use crate::voice::speech::SpeechRequest;

verus! {

/// The characters with which a message to another bot begins; such a
/// message is not read aloud.
pub open spec fn is_head_char(c: char) -> bool {
    c == '-' || c == '!' || c == '/' || c == ';' || c == '%'
}

/// `text` begins with one of the prefixes `-`, `!`, `/`, `;`, `%`.
pub open spec fn spec_is_head_symbol(text: Seq<char>) -> bool {
    text.len() > 0 && is_head_char(text[0])
}

/// Whether `text` begins with a command prefix of one of the usual bots.
pub fn is_head_symbol(text: &str) -> (r: bool)
    ensures
        r == spec_is_head_symbol(text@),
{
    if text.unicode_len() == 0 {
        return false;
    }
    let c = text.get_char(0);
    c == '-' || c == '!' || c == '/' || c == ';' || c == '%'
}

/// The voice state of one member of a guild: the voice channel the member
/// is in, whether the member muted themself, and, where the guild knows the
/// member, whether the member is a bot.
#[derive(Clone, Copy, Debug, PartialEq, Eq)]
pub struct VoiceStateEntry {
    pub user_id: u64,
    pub channel_id: Option<u64>,
    pub self_mute: bool,
    pub member_is_bot: Option<bool>,
}

/// The voice state of `user`: the first entry of `states` that is theirs.
pub open spec fn voice_state_of(states: Seq<VoiceStateEntry>, user: u64) -> Option<
    VoiceStateEntry,
>
    decreases states.len(),
{
    if states.len() == 0 {
        None
    } else if states[0].user_id == user {
        Some(states[0])
    } else {
        voice_state_of(states.drop_first(), user)
    }
}

/// The voice channel `user` is in, if any.
pub open spec fn channel_of(states: Seq<VoiceStateEntry>, user: u64) -> Option<u64> {
    match voice_state_of(states, user) {
        Some(state) => state.channel_id,
        None => None,
    }
}

/// A member who is in `channel` and is known not to be a bot.
pub open spec fn is_listener(state: VoiceStateEntry, channel: u64) -> bool {
    state.channel_id == Some(channel) && state.member_is_bot == Some(false)
}

/// The members of `channel` that are not bots, in the order of `states`.
pub open spec fn listeners(states: Seq<VoiceStateEntry>, channel: u64) -> Seq<u64>
    decreases states.len(),
{
    if states.len() == 0 {
        Seq::empty()
    } else {
        let front = listeners(states.drop_last(), channel);
        if is_listener(states.last(), channel) {
            front.push(states.last().user_id)
        } else {
            front
        }
    }
}

/// Every voice state in `channel` comes with what the guild knows of its member.
pub open spec fn members_known(states: Seq<VoiceStateEntry>, channel: u64) -> bool {
    forall|i: int|
        0 <= i < states.len() && #[trigger] states[i].channel_id == Some(channel)
            ==> states[i].member_is_bot is Some
}

/// The voice channel `user_id` is in, if any.
pub fn get_channel_id(states: &Vec<VoiceStateEntry>, user_id: u64) -> (r: Option<u64>)
    ensures
        r == channel_of(states@, user_id),
{
    match get_voice_state(states, user_id) {
        Some(state) => state.channel_id,
        None => None,
    }
}

/// The voice state of `user_id`, if the guild has one.
fn get_voice_state(states: &Vec<VoiceStateEntry>, user_id: u64) -> (r: Option<VoiceStateEntry>)
    ensures
        r == voice_state_of(states@, user_id),
{
    assert(states@.skip(0) =~= states@);
    let mut i: usize = 0;
    while i < states.len()
        invariant
            i <= states.len(),
            voice_state_of(states@, user_id) == voice_state_of(states@.skip(i as int), user_id),
        decreases states.len() - i,
    {
        assert(states@.skip(i as int).drop_first() =~= states@.skip(i + 1));
        if states[i].user_id == user_id {
            return Some(states[i]);
        }
        i = i + 1;
    }
    None
}

/// The members of `channel_id` that are not bots.
pub fn get_members_in_vc(states: &Vec<VoiceStateEntry>, channel_id: u64) -> (r: Vec<u64>)
    requires
        members_known(states@, channel_id),
    ensures
        r@ == listeners(states@, channel_id),
        distinct_users(states@) ==> r@.no_duplicates(),
{
    proof {
        if distinct_users(states@) {
            law_listeners_not_repeated(states@, channel_id);
        }
    }
    let mut members: Vec<u64> = Vec::new();
    let mut i: usize = 0;
    while i < states.len()
        invariant
            i <= states.len(),
            members_known(states@, channel_id),
            members@ == listeners(states@.take(i as int), channel_id),
        decreases states.len() - i,
    {
        proof {
            assert(states@.take(i + 1).drop_last() =~= states@.take(i as int));
        }
        let state = states[i];
        if state.channel_id == Some(channel_id) {
            assert(states@[i as int].channel_id == Some(channel_id));
            let is_bot = match state.member_is_bot {
                Some(b) => b,
                None => true,
            };
            if !is_bot {
                members.push(state.user_id);
            }
        }
        i = i + 1;
    }
    assert(states@.take(states.len() as int) =~= states@);
    members
}

/// Why a message is not read aloud.
#[derive(Clone, Copy, Debug, PartialEq, Eq)]
pub enum SkipReason {
    /// The author is in no voice channel of the guild.
    NotInVoiceChannel,
    /// The author is a bot.
    FromBot,
    /// The message is in a channel that is not read aloud.
    NotSubscribed,
    /// The author has not muted themself.
    NotMuted,
    /// The message begins with a command prefix.
    CommandPrefix,
}

/// What to do with a message.
#[derive(Debug)]
pub enum ReadAloud {
    Skip(SkipReason),
    Speak(SpeechRequest),
}

/// Why a message is not read aloud, or `None` where it is: the checks are
/// made in this order.
pub open spec fn skip_reason(
    subscriptions: Map<u64, Seq<u64>>,
    guild_id: u64,
    states: Seq<VoiceStateEntry>,
    author_id: u64,
    author_is_bot: bool,
    channel_id: u64,
    content: Seq<char>,
) -> Option<SkipReason> {
    if channel_of(states, author_id) is None {
        Some(SkipReason::NotInVoiceChannel)
    } else if author_is_bot {
        Some(SkipReason::FromBot)
    } else if !channels_in(subscriptions, guild_id).contains(channel_id) {
        Some(SkipReason::NotSubscribed)
    } else if !voice_state_of(states, author_id).unwrap().self_mute {
        Some(SkipReason::NotMuted)
    } else if spec_is_head_symbol(content) {
        Some(SkipReason::CommandPrefix)
    } else {
        None
    }
}

/// The handler of the events of the gateway.
pub struct Handler;

impl Handler {
    /// Whether a message is read aloud: it is when its author, no bot, is in
    /// a voice channel of the guild and muted, it was sent in a subscribed
    /// channel, and it does not begin with a command prefix; what is read is
    /// the message's content.
    pub fn message(
        &self,
        subscriptions: &SubscribeChannels,
        guild_id: u64,
        states: &Vec<VoiceStateEntry>,
        author_id: u64,
        author_is_bot: bool,
        channel_id: u64,
        content: &str,
    ) -> (r: ReadAloud)
        ensures
            match r {
                ReadAloud::Skip(reason) => skip_reason(
                    subscriptions@,
                    guild_id,
                    states@,
                    author_id,
                    author_is_bot,
                    channel_id,
                    content@,
                ) == Some(reason),
                ReadAloud::Speak(request) => skip_reason(
                    subscriptions@,
                    guild_id,
                    states@,
                    author_id,
                    author_is_bot,
                    channel_id,
                    content@,
                ) is None && request.text@ == content@,
            },
    {
        let voice_state = get_voice_state(states, author_id);
        let in_voice = match voice_state {
            Some(state) => state.channel_id.is_some(),
            None => false,
        };
        if !in_voice {
            return ReadAloud::Skip(SkipReason::NotInVoiceChannel);
        }
        if author_is_bot {
            return ReadAloud::Skip(SkipReason::FromBot);
        }
        if !subscriptions.is_subscribed(guild_id, channel_id) {
            return ReadAloud::Skip(SkipReason::NotSubscribed);
        }
        let is_mute = match voice_state {
            Some(state) => state.self_mute,
            None => false,
        };
        if !is_mute {
            return ReadAloud::Skip(SkipReason::NotMuted);
        }
        if is_head_symbol(content) {
            return ReadAloud::Skip(SkipReason::CommandPrefix);
        }
        ReadAloud::Speak(SpeechRequest { text: String::from_str(content) })
    }

    /// Whether the bot leaves its voice channel after a change of a voice
    /// state: it does when no member but bots is left there.
    pub fn voice_state_update(&self, states: &Vec<VoiceStateEntry>, bot_user_id: u64) -> (leave:
        bool)
        requires
            channel_of(states@, bot_user_id) is Some,
            members_known(states@, channel_of(states@, bot_user_id).unwrap()),
        ensures
            leave == (listeners(states@, channel_of(states@, bot_user_id).unwrap()).len() == 0),
    {
        let channel = get_channel_id(states, bot_user_id);
        match channel {
            Some(channel) => {
                let members = get_members_in_vc(states, channel);
                members.len() == 0
            },
            None => true,
        }
    }
}

/// A member is listed in a voice channel exactly when the member has a
/// voice state there and is known not to be a bot.
pub proof fn law_listeners_are_non_bot_members(states: Seq<VoiceStateEntry>, channel: u64)
    ensures
        forall|user: u64|
            #[trigger] listeners(states, channel).contains(user) <==> exists|i: int|
                0 <= i < states.len() && states[i].user_id == user && is_listener(
                    states[i],
                    channel,
                ),
    decreases states.len(),
{
    if states.len() > 0 {
        let front = states.drop_last();
        law_listeners_are_non_bot_members(front, channel);
        let fl = listeners(front, channel);
        assert forall|user: u64|
            #[trigger] listeners(states, channel).contains(user) <==> exists|i: int|
                0 <= i < states.len() && states[i].user_id == user && is_listener(
                    states[i],
                    channel,
                ) by {
            let last = states.last();
            let pushed = fl.push(last.user_id);
            if listeners(states, channel).contains(user) {
                if is_listener(last, channel) {
                    let k = choose|k: int| 0 <= k < pushed.len() && pushed[k] == user;
                    if k < fl.len() {
                        assert(fl[k] == user);
                        assert(fl.contains(user));
                        let j = choose|j: int|
                            0 <= j < front.len() && front[j].user_id == user && is_listener(
                                front[j],
                                channel,
                            );
                        assert(states[j] == front[j]);
                    } else {
                        assert(states[states.len() - 1].user_id == user);
                    }
                } else {
                    let j = choose|j: int|
                        0 <= j < front.len() && front[j].user_id == user && is_listener(
                            front[j],
                            channel,
                        );
                    assert(states[j] == front[j]);
                }
            }
            if exists|i: int|
                0 <= i < states.len() && states[i].user_id == user && is_listener(
                    states[i],
                    channel,
                ) {
                let i = choose|i: int|
                    0 <= i < states.len() && states[i].user_id == user && is_listener(
                        states[i],
                        channel,
                    );
                if i < front.len() {
                    assert(front[i] == states[i]);
                    assert(fl.contains(user));
                    let k = choose|k: int| 0 <= k < fl.len() && fl[k] == user;
                    if is_listener(last, channel) {
                        assert(pushed[k] == user);
                    }
                } else {
                    assert(pushed[fl.len() as int] == user);
                }
            }
        }
    }
}

/// A message is read aloud only where its author is a member, no bot, in a
/// voice channel of the guild and muted, it was sent in a channel that is
/// read, and it does not begin with a command prefix.
pub proof fn law_only_muted_members_are_read(
    subscriptions: Map<u64, Seq<u64>>,
    guild_id: u64,
    states: Seq<VoiceStateEntry>,
    author_id: u64,
    author_is_bot: bool,
    channel_id: u64,
    content: Seq<char>,
)
    ensures
        skip_reason(subscriptions, guild_id, states, author_id, author_is_bot, channel_id, content)
            is None <==> {
            &&& channel_of(states, author_id) is Some
            &&& !author_is_bot
            &&& channels_in(subscriptions, guild_id).contains(channel_id)
            &&& voice_state_of(states, author_id).unwrap().self_mute
            &&& !spec_is_head_symbol(content)
        },
{
}

/// No two voice states of `states` belong to the same member, as in the
/// guild's map from members to voice states.
pub open spec fn distinct_users(states: Seq<VoiceStateEntry>) -> bool {
    forall|i: int, j: int|
        0 <= i < states.len() && 0 <= j < states.len() && i != j ==> #[trigger] states[i].user_id
            != #[trigger] states[j].user_id
}

/// Where every member has one voice state, no member is listed twice in a
/// voice channel.
pub proof fn law_listeners_not_repeated(states: Seq<VoiceStateEntry>, channel: u64)
    requires
        distinct_users(states),
    ensures
        listeners(states, channel).no_duplicates(),
    decreases states.len(),
{
    if states.len() > 0 {
        let front = states.drop_last();
        assert(distinct_users(front)) by {
            assert forall|i: int, j: int|
                0 <= i < front.len() && 0 <= j < front.len() && i != j implies #[trigger] front[i].user_id
                    != #[trigger] front[j].user_id by {
                assert(front[i] == states[i] && front[j] == states[j]);
            }
        }
        law_listeners_not_repeated(front, channel);
        let fl = listeners(front, channel);
        let last = states.last();
        if is_listener(last, channel) {
            law_listeners_are_non_bot_members(front, channel);
            assert(!fl.contains(last.user_id)) by {
                if fl.contains(last.user_id) {
                    let j = choose|j: int|
                        0 <= j < front.len() && front[j].user_id == last.user_id && is_listener(
                            front[j],
                            channel,
                        );
                    assert(states[j] == front[j]);
                    assert(states[j].user_id == states[states.len() - 1].user_id);
                }
            }
            let pushed = fl.push(last.user_id);
            assert forall|i: int, j: int|
                0 <= i < pushed.len() && 0 <= j < pushed.len() && i != j implies pushed[i]
                != pushed[j] by {
                if i == fl.len() as int {
                    assert(fl.contains(fl[j]));
                } else if j == fl.len() as int {
                    assert(fl.contains(fl[i]));
                }
            }
        }
    }
}

proof fn lemma_one_char_prefix(p: Seq<char>, c: char, text: Seq<char>)
    requires
        p == seq![c],
    ensures
        p.is_prefix_of(text) <==> (text.len() > 0 && text[0] == c),
{
    if text.len() > 0 && text[0] == c {
        assert(text.subrange(0, 1) =~= p);
    }
    if p.is_prefix_of(text) {
        assert(text.subrange(0, 1)[0] == p[0]);
    }
}

/// A text is a command prefix exactly when it starts with one of `-`, `!`,
/// `/`, `;`, `%`; a text that starts with anything else (a digit, a letter,
/// a space) or is empty is none.
pub proof fn law_head_symbols_are_the_five_prefixes(text: Seq<char>)
    ensures
        spec_is_head_symbol(text) <==> ("-"@.is_prefix_of(text) || "!"@.is_prefix_of(text)
            || "/"@.is_prefix_of(text) || ";"@.is_prefix_of(text) || "%"@.is_prefix_of(text)),
        text.len() > 0 && text[0] != '-' && text[0] != '!' && text[0] != '/' && text[0] != ';'
            && text[0] != '%' ==> !spec_is_head_symbol(text),
        text.len() == 0 ==> !spec_is_head_symbol(text),
{
    reveal_strlit("-");
    reveal_strlit("!");
    reveal_strlit("/");
    reveal_strlit(";");
    reveal_strlit("%");
    assert("-"@ =~= seq!['-']);
    assert("!"@ =~= seq!['!']);
    assert("/"@ =~= seq!['/']);
    assert(";"@ =~= seq![';']);
    assert("%"@ =~= seq!['%']);
    lemma_one_char_prefix("-"@, '-', text);
    lemma_one_char_prefix("!"@, '!', text);
    lemma_one_char_prefix("/"@, '/', text);
    lemma_one_char_prefix(";"@, ';', text);
    lemma_one_char_prefix("%"@, '%', text);
}

/// The members listed for a single voice state: its member when the state
/// is in the channel and the member is known not to be a bot, and nobody
/// otherwise, whatever the ids.
pub proof fn law_listeners_of_one_state(state: VoiceStateEntry, channel: u64)
    ensures
        state.channel_id == Some(channel) && state.member_is_bot == Some(false) ==> listeners(
            seq![state],
            channel,
        ) == seq![state.user_id],
        !(state.channel_id == Some(channel) && state.member_is_bot == Some(false)) ==> listeners(
            seq![state],
            channel,
        ) == Seq::<u64>::empty(),
{
    assert(seq![state].drop_last() =~= Seq::<VoiceStateEntry>::empty());
    assert(listeners(Seq::<VoiceStateEntry>::empty(), channel) == Seq::<u64>::empty());
    assert(Seq::<u64>::empty().push(state.user_id) =~= seq![state.user_id]);
}

/// Listing the members of two runs of voice states lists those of the first,
/// then those of the second, in order.
pub proof fn law_listeners_of_concatenation(
    a: Seq<VoiceStateEntry>,
    b: Seq<VoiceStateEntry>,
    channel: u64,
)
    ensures
        listeners(a + b, channel) == listeners(a, channel) + listeners(b, channel),
    decreases b.len(),
{
    if b.len() == 0 {
        assert(a + b =~= a);
        assert(listeners(b, channel) == Seq::<u64>::empty());
        assert(listeners(a, channel) + Seq::<u64>::empty() =~= listeners(a, channel));
    } else {
        let front = b.drop_last();
        law_listeners_of_concatenation(a, front, channel);
        assert((a + b).drop_last() =~= a + front);
        assert((a + b).last() == b.last());
        if is_listener(b.last(), channel) {
            assert(listeners(a, channel) + listeners(front, channel).push(b.last().user_id)
                =~= (listeners(a, channel) + listeners(front, channel)).push(b.last().user_id));
        }
    }
}

/// Every member whose voice state is in the channel and who is known not to
/// be a bot is listed, and only such members are, whatever the ids.
pub proof fn law_listeners_are_exactly_the_non_bots(states: Seq<VoiceStateEntry>, channel: u64)
    ensures
        forall|i: int|
            0 <= i < states.len() && states[i].channel_id == Some(channel)
                && states[i].member_is_bot == Some(false) ==> #[trigger] listeners(
                states,
                channel,
            ).contains(states[i].user_id),
        forall|user: u64|
            #[trigger] listeners(states, channel).contains(user) ==> exists|i: int|
                0 <= i < states.len() && states[i].user_id == user && states[i].channel_id == Some(
                    channel,
                ) && states[i].member_is_bot == Some(false),
{
    law_listeners_are_non_bot_members(states, channel);
    assert forall|i: int|
        0 <= i < states.len() && states[i].channel_id == Some(channel)
            && states[i].member_is_bot == Some(false) implies #[trigger] listeners(
            states,
            channel,
        ).contains(states[i].user_id) by {
        assert(is_listener(states[i], channel));
    }
}

/// The bot stays in its channel while a member known not to be a bot is in
/// it, and leaves once only bots (or nobody) are left.
pub proof fn law_bot_stays_while_someone_listens(states: Seq<VoiceStateEntry>, channel: u64)
    ensures
        (exists|i: int|
            0 <= i < states.len() && states[i].channel_id == Some(channel)
                && states[i].member_is_bot == Some(false)) <==> listeners(states, channel).len()
            > 0,
{
    law_listeners_are_exactly_the_non_bots(states, channel);
    if exists|i: int|
        0 <= i < states.len() && states[i].channel_id == Some(channel)
            && states[i].member_is_bot == Some(false) {
        let i = choose|i: int|
            0 <= i < states.len() && states[i].channel_id == Some(channel)
                && states[i].member_is_bot == Some(false);
        assert(listeners(states, channel).contains(states[i].user_id));
    }
    if listeners(states, channel).len() > 0 {
        let l = listeners(states, channel);
        assert(l.contains(l[0]));
    }
}

/// The voice state of a member is that of their first entry, and there is
/// none where no entry is theirs.
pub proof fn law_voice_state_is_first_entry(states: Seq<VoiceStateEntry>, user: u64, i: int)
    ensures
        (forall|j: int| 0 <= j < states.len() ==> states[j].user_id != user) ==> voice_state_of(
            states,
            user,
        ) is None,
        0 <= i < states.len() && states[i].user_id == user && (forall|j: int|
            0 <= j < i ==> states[j].user_id != user) ==> voice_state_of(states, user) == Some(
            states[i],
        ),
    decreases states.len(),
{
    if states.len() > 0 {
        let rest = states.drop_first();
        law_voice_state_is_first_entry(rest, user, i - 1);
        if forall|j: int| 0 <= j < states.len() ==> states[j].user_id != user {
            assert(states[0].user_id != user);
            assert forall|j: int| 0 <= j < rest.len() implies rest[j].user_id != user by {
                assert(rest[j] == states[j + 1]);
            }
        }
        if 0 <= i < states.len() && states[i].user_id == user && (forall|j: int|
            0 <= j < i ==> states[j].user_id != user) {
            if i > 0 {
                assert(states[0].user_id != user);
                assert(rest[i - 1] == states[i]);
                assert forall|j: int| 0 <= j < i - 1 implies rest[j].user_id != user by {
                    assert(rest[j] == states[j + 1]);
                }
            }
        }
    }
}

} // verus!
