//! The text channels whose messages are read aloud, per guild.
//!
//! The registry keeps, for each guild, the list of its subscribed channels in
//! the order in which they were added, without repetition, and keeps no guild
//! whose list is empty.

use vstd::prelude::*;
use dashmap::DashMap;

verus! {

#[verifier::external_type_specification]
#[verifier::external_body]
#[verifier::reject_recursive_types(K)]
#[verifier::reject_recursive_types(V)]
#[verifier::reject_recursive_types(S)]
pub struct ExDashMap<K, V, S>(DashMap<K, V, S>);

/// The entries of a `dashmap::DashMap` from guild ids to channel lists.
pub uninterp spec fn channel_map_contents(m: DashMap<u64, Vec<u64>>) -> Map<u64, Seq<u64>>;

/// `dashmap::DashMap::new`: the contract claims the new map holds nothing.
#[verifier::external_body]
fn channel_map_new() -> (fresh: DashMap<u64, Vec<u64>>)
    ensures
        channel_map_contents(fresh) =~= Map::empty(),
{
    DashMap::new()
}

/// `dashmap::DashMap::get`, with the value cloned out of the guard it returns:
/// the contract claims a copy of the list stored under `key`, or `None`
/// exactly where the map has no entry for `key`.
#[verifier::external_body]
fn channel_map_get(m: &DashMap<u64, Vec<u64>>, key: u64) -> (r: Option<Vec<u64>>)
    ensures
        match r {
            Some(v) => channel_map_contents(*m).contains_key(key) && channel_map_contents(*m)[key]
                == v@,
            None => !channel_map_contents(*m).contains_key(key),
        },
{
    match m.get(&key) {
        Some(entry) => Some(entry.value().clone()),
        None => None,
    }
}

/// `dashmap::DashMap::insert` (its result, the value replaced, is dropped): the
/// contract claims that afterwards `key` maps to `value` and no other entry
/// changed. The map is taken by `&mut` so that no change goes unseen.
#[verifier::external_body]
fn channel_map_insert(m: &mut DashMap<u64, Vec<u64>>, key: u64, value: Vec<u64>)
    ensures
        channel_map_contents(*final(m)) == channel_map_contents(*old(m)).insert(key, value@),
{
    m.insert(key, value);
}

/// `dashmap::DashMap::remove` (its result, the entry removed, is dropped): the
/// contract claims that afterwards `key` has no entry and no other entry
/// changed.
#[verifier::external_body]
fn channel_map_remove(m: &mut DashMap<u64, Vec<u64>>, key: u64)
    ensures
        channel_map_contents(*final(m)) == channel_map_contents(*old(m)).remove(key),
{
    m.remove(&key);
}

/// `list` followed by those of `added` that are not yet in it, each once,
/// in the order of `added`.
pub open spec fn merge_channels(list: Seq<u64>, added: Seq<u64>) -> Seq<u64>
    decreases added.len(),
{
    if added.len() == 0 {
        list
    } else {
        let merged = merge_channels(list, added.drop_last());
        if merged.contains(added.last()) {
            merged
        } else {
            merged.push(added.last())
        }
    }
}

/// `list` without any occurrence of `channel`, the rest in order.
pub open spec fn without_channel(list: Seq<u64>, channel: u64) -> Seq<u64>
    decreases list.len(),
{
    if list.len() == 0 {
        list
    } else {
        let rest = without_channel(list.drop_last(), channel);
        if list.last() == channel {
            rest
        } else {
            rest.push(list.last())
        }
    }
}

/// The channels of `guild` in `m`, the empty list where it has none.
pub open spec fn channels_in(m: Map<u64, Seq<u64>>, guild: u64) -> Seq<u64> {
    if m.contains_key(guild) {
        m[guild]
    } else {
        Seq::empty()
    }
}

/// `m` after `channels` are added to the list of `guild`.
pub open spec fn spec_add_channels(m: Map<u64, Seq<u64>>, guild: u64, channels: Seq<u64>) -> Map<
    u64,
    Seq<u64>,
> {
    let merged = merge_channels(channels_in(m, guild), channels);
    if merged.len() == 0 {
        m
    } else {
        m.insert(guild, merged)
    }
}

/// `m` after `channel` is taken off the list of `guild`; a guild left with
/// no channel is dropped.
pub open spec fn spec_remove_channel(m: Map<u64, Seq<u64>>, guild: u64, channel: u64) -> Map<
    u64,
    Seq<u64>,
> {
    if !m.contains_key(guild) {
        m
    } else {
        let rest = without_channel(m[guild], channel);
        if rest.len() == 0 {
            m.remove(guild)
        } else {
            m.insert(guild, rest)
        }
    }
}

/// Every list is non-empty and holds no channel twice.
pub open spec fn registry_wf(m: Map<u64, Seq<u64>>) -> bool {
    forall|g: u64| #[trigger]
        m.contains_key(g) ==> m[g].len() > 0 && m[g].no_duplicates()
}

/// The subscribed text channels of each guild.
pub struct SubscribeChannels {
    map: DashMap<u64, Vec<u64>>,
}

impl SubscribeChannels {
    /// Every list of the registry is non-empty and holds no channel twice.
    #[verifier::type_invariant]
    closed spec fn inv(self) -> bool {
        registry_wf(channel_map_contents(self.map))
    }
}

impl View for SubscribeChannels {
    type V = Map<u64, Seq<u64>>;

    closed spec fn view(&self) -> Map<u64, Seq<u64>> {
        channel_map_contents(self.map)
    }
}

fn vec_contains(v: &Vec<u64>, x: u64) -> (r: bool)
    ensures
        r == v@.contains(x),
{
    let mut i: usize = 0;
    while i < v.len()
        invariant
            i <= v.len(),
            forall|j: int| 0 <= j < i ==> v@[j] != x,
        decreases v.len() - i,
    {
        if v[i] == x {
            return true;
        }
        i = i + 1;
    }
    false
}

impl SubscribeChannels {
    /// A registry with no subscription.
    pub fn new() -> (r: Self)
        ensures
            r@ == Map::<u64, Seq<u64>>::empty(),
            registry_wf(r@),
    {
        SubscribeChannels { map: channel_map_new() }
    }

    /// The subscribed channels of `guild`, or `None` where it has none.
    pub fn get(&self, guild: u64) -> (r: Option<Vec<u64>>)
        ensures
            match r {
                Some(v) => self@.contains_key(guild) && self@[guild] == v@,
                None => !self@.contains_key(guild),
            },
            registry_wf(self@),
    {
        proof {
            use_type_invariant(self);
        }
        channel_map_get(&self.map, guild)
    }

    /// The subscribed channels of `guild`, the empty list where it has none.
    pub fn channels_of(&self, guild: u64) -> (r: Vec<u64>)
        ensures
            r@ == channels_in(self@, guild),
            r@.no_duplicates(),
    {
        proof {
            use_type_invariant(self);
        }
        match channel_map_get(&self.map, guild) {
            Some(v) => v,
            None => Vec::new(),
        }
    }

    /// Whether `channel` is a subscribed channel of `guild`.
    pub fn is_subscribed(&self, guild: u64, channel: u64) -> (r: bool)
        ensures
            r == channels_in(self@, guild).contains(channel),
    {
        let v = self.channels_of(guild);
        vec_contains(&v, channel)
    }

    /// Adds `channels` to the subscriptions of `guild`: those not yet there
    /// are appended in order, each once.
    pub fn add_channels(&mut self, guild: u64, channels: &Vec<u64>)
        ensures
            final(self)@ == spec_add_channels(old(self)@, guild, channels@),
            registry_wf(final(self)@),
    {
        proof {
            use_type_invariant(&*self);
            law_registry_stays_well_formed(self@, guild, channels@, 0);
        }
        let mut list = self.channels_of(guild);
        let ghost start = list@;
        let mut i: usize = 0;
        while i < channels.len()
            invariant
                i <= channels.len(),
                list@ == merge_channels(start, channels@.take(i as int)),
            decreases channels.len() - i,
        {
            let c = channels[i];
            proof {
                assert(channels@.take(i + 1).drop_last() =~= channels@.take(i as int));
                assert(channels@.take(i + 1).last() == c);
            }
            if !vec_contains(&list, c) {
                list.push(c);
            }
            i = i + 1;
        }
        assert(channels@.take(channels.len() as int) =~= channels@);
        if list.len() > 0 {
            let mut map = channel_map_new();
            std::mem::swap(&mut map, &mut self.map);
            channel_map_insert(&mut map, guild, list);
            std::mem::swap(&mut map, &mut self.map);
        }
    }

    /// Takes `channel` off the subscriptions of `guild`; the guild is
    /// forgotten when no channel is left.
    pub fn remove_channel(&mut self, guild: u64, channel: u64)
        ensures
            final(self)@ == spec_remove_channel(old(self)@, guild, channel),
            registry_wf(final(self)@),
    {
        proof {
            use_type_invariant(&*self);
            law_registry_stays_well_formed(self@, guild, Seq::empty(), channel);
        }
        match channel_map_get(&self.map, guild) {
            None => {},
            Some(list) => {
                let mut rest: Vec<u64> = Vec::new();
                let mut i: usize = 0;
                while i < list.len()
                    invariant
                        i <= list.len(),
                        rest@ == without_channel(list@.take(i as int), channel),
                    decreases list.len() - i,
                {
                    proof {
                        assert(list@.take(i + 1).drop_last() =~= list@.take(i as int));
                    }
                    if list[i] != channel {
                        rest.push(list[i]);
                    }
                    i = i + 1;
                }
                assert(list@.take(list.len() as int) =~= list@);
                let mut map = channel_map_new();
                std::mem::swap(&mut map, &mut self.map);
                if rest.len() == 0 {
                    channel_map_remove(&mut map, guild);
                } else {
                    channel_map_insert(&mut map, guild, rest);
                }
                std::mem::swap(&mut map, &mut self.map);
            },
        }
    }

    /// Forgets every subscription of `guild`.
    pub fn remove_all_channels(&mut self, guild: u64)
        ensures
            final(self)@ == old(self)@.remove(guild),
            registry_wf(final(self)@),
    {
        proof {
            use_type_invariant(&*self);
            law_registry_stays_well_formed(self@, guild, Seq::empty(), 0);
        }
        let mut map = channel_map_new();
        std::mem::swap(&mut map, &mut self.map);
        channel_map_remove(&mut map, guild);
        std::mem::swap(&mut map, &mut self.map);
    }
}


proof fn lemma_merge_prefix(list: Seq<u64>, added: Seq<u64>)
    ensures
        merge_channels(list, added).len() >= list.len(),
        forall|i: int| 0 <= i < list.len() ==> #[trigger] merge_channels(list, added)[i] == list[i],
    decreases added.len(),
{
    if added.len() > 0 {
        lemma_merge_prefix(list, added.drop_last());
    }
}

proof fn lemma_push_contains(s: Seq<u64>, x: u64)
    ensures
        forall|c: u64| #[trigger] s.push(x).contains(c) <==> (s.contains(c) || c == x),
{
    assert forall|c: u64| #[trigger] s.push(x).contains(c) <==> (s.contains(c) || c == x) by {
        let pushed = s.push(x);
        if pushed.contains(c) {
            let k = choose|k: int| 0 <= k < pushed.len() && pushed[k] == c;
            if k < s.len() {
                assert(s[k] == c);
            }
        }
        if s.contains(c) {
            let k = choose|k: int| 0 <= k < s.len() && s[k] == c;
            assert(pushed[k] == c);
        }
        if c == x {
            assert(pushed[s.len() as int] == c);
        }
    }
}

proof fn lemma_merge_members(list: Seq<u64>, added: Seq<u64>)
    ensures
        forall|c: u64|
            #[trigger] merge_channels(list, added).contains(c) <==> (list.contains(c)
                || added.contains(c)),
    decreases added.len(),
{
    if added.len() > 0 {
        let front = added.drop_last();
        let x = added.last();
        lemma_merge_members(list, front);
        let merged = merge_channels(list, front);
        assert(added =~= front.push(x));
        lemma_push_contains(front, x);
        lemma_push_contains(merged, x);
        assert forall|c: u64|
            #[trigger] merge_channels(list, added).contains(c) <==> (list.contains(c)
                || added.contains(c)) by {
            assert(merged.contains(c) <==> (list.contains(c) || front.contains(c)));
            assert(merged.contains(x) <==> (list.contains(x) || front.contains(x)));
            assert(added.contains(c) <==> (front.contains(c) || c == x));
        }
    }
}

proof fn lemma_merge_no_duplicates(list: Seq<u64>, added: Seq<u64>)
    requires
        list.no_duplicates(),
    ensures
        merge_channels(list, added).no_duplicates(),
    decreases added.len(),
{
    if added.len() > 0 {
        lemma_merge_no_duplicates(list, added.drop_last());
        let merged = merge_channels(list, added.drop_last());
        if !merged.contains(added.last()) {
            let pushed = merged.push(added.last());
            assert forall|i: int, j: int|
                0 <= i < pushed.len() && 0 <= j < pushed.len() && i != j implies pushed[i]
                != pushed[j] by {
                if i == merged.len() as int {
                    assert(merged[j] == pushed[j]);
                } else if j == merged.len() as int {
                    assert(merged[i] == pushed[i]);
                }
            }
        }
    }
}

proof fn lemma_merge_absorbed(list: Seq<u64>, added: Seq<u64>)
    requires
        forall|c: u64| added.contains(c) ==> list.contains(c),
    ensures
        merge_channels(list, added) == list,
    decreases added.len(),
{
    if added.len() > 0 {
        let front = added.drop_last();
        assert forall|c: u64| front.contains(c) implies list.contains(c) by {
            let k = choose|k: int| 0 <= k < front.len() && front[k] == c;
            assert(added[k] == c);
        }
        lemma_merge_absorbed(list, front);
        assert(added.contains(added[added.len() - 1]));
    }
}

proof fn lemma_without_members(list: Seq<u64>, channel: u64)
    ensures
        forall|c: u64|
            #[trigger] without_channel(list, channel).contains(c) <==> (list.contains(c) && c
                != channel),
        list.no_duplicates() ==> without_channel(list, channel).no_duplicates(),
        !list.contains(channel) ==> without_channel(list, channel) == list,
    decreases list.len(),
{
    if list.len() > 0 {
        let front = list.drop_last();
        lemma_without_members(front, channel);
        let rest = without_channel(front, channel);
        assert(list =~= front.push(list.last()));
        lemma_push_contains(front, list.last());
        lemma_push_contains(rest, list.last());
        assert forall|c: u64|
            #[trigger] without_channel(list, channel).contains(c) <==> (list.contains(c) && c
                != channel) by {
            assert(rest.contains(c) <==> (front.contains(c) && c != channel));
            assert(list.contains(c) <==> (front.contains(c) || c == list.last()));
        }
        if list.no_duplicates() {
            assert(front.no_duplicates()) by {
                assert forall|i: int, j: int|
                    0 <= i < front.len() && 0 <= j < front.len() && i != j implies front[i]
                    != front[j] by {
                    assert(list[i] == front[i] && list[j] == front[j]);
                }
            }
            if list.last() != channel {
                let pushed = rest.push(list.last());
                assert(!front.contains(list.last())) by {
                    if front.contains(list.last()) {
                        let k = choose|k: int| 0 <= k < front.len() && front[k] == list.last();
                        assert(list[k] == list[list.len() - 1]);
                    }
                }
                assert forall|i: int, j: int|
                    0 <= i < pushed.len() && 0 <= j < pushed.len() && i != j implies pushed[i]
                    != pushed[j] by {
                    if i == rest.len() as int {
                        assert(rest.contains(rest[j]));
                    } else if j == rest.len() as int {
                        assert(rest.contains(rest[i]));
                    }
                }
            }
        }
        if !list.contains(channel) {
            assert(!front.contains(channel)) by {
                if front.contains(channel) {
                    let k = choose|k: int| 0 <= k < front.len() && front[k] == channel;
                    assert(list[k] == channel);
                }
            }
            assert(list.contains(list[list.len() - 1]));
        }
    }
}

/// Adding channels subscribes each of them, keeps the channels the guild
/// already had in front and in their order, adds nothing else, and leaves
/// every other guild as it was.
pub proof fn law_add_channels_subscribes(m: Map<u64, Seq<u64>>, guild: u64, channels: Seq<u64>)
    ensures
        forall|c: u64|
            #[trigger] channels_in(spec_add_channels(m, guild, channels), guild).contains(c) <==> (
            channels_in(m, guild).contains(c) || channels.contains(c)),
        forall|i: int|
            0 <= i < channels_in(m, guild).len() ==> #[trigger] channels_in(
                spec_add_channels(m, guild, channels),
                guild,
            )[i] == channels_in(m, guild)[i],
        forall|g: u64|
            g != guild ==> #[trigger] channels_in(spec_add_channels(m, guild, channels), g)
                == channels_in(m, g),
{
    let merged = merge_channels(channels_in(m, guild), channels);
    lemma_merge_members(channels_in(m, guild), channels);
    lemma_merge_prefix(channels_in(m, guild), channels);
    if merged.len() == 0 {
        assert forall|c: u64|
            #[trigger] channels_in(spec_add_channels(m, guild, channels), guild).contains(c) <==> (
            channels_in(m, guild).contains(c) || channels.contains(c)) by {
            assert(!merged.contains(c));
        }
    }
}

/// Adding the same channels twice leaves the registry as adding them once.
pub proof fn law_add_channels_idempotent(m: Map<u64, Seq<u64>>, guild: u64, channels: Seq<u64>)
    ensures
        spec_add_channels(spec_add_channels(m, guild, channels), guild, channels)
            == spec_add_channels(m, guild, channels),
{
    let once = spec_add_channels(m, guild, channels);
    law_add_channels_subscribes(m, guild, channels);
    assert forall|c: u64| channels.contains(c) implies channels_in(once, guild).contains(c) by {
        assert(channels_in(once, guild).contains(c));
    }
    lemma_merge_absorbed(channels_in(once, guild), channels);
    if channels_in(once, guild).len() > 0 {
        assert(once.contains_key(guild));
        assert(once.insert(guild, channels_in(once, guild)) =~= once);
    }
}

/// Taking a channel off a guild unsubscribes it, keeps every other channel of
/// that guild, and leaves every other guild as it was.
pub proof fn law_remove_channel_unsubscribes(m: Map<u64, Seq<u64>>, guild: u64, channel: u64)
    ensures
        forall|c: u64|
            #[trigger] channels_in(spec_remove_channel(m, guild, channel), guild).contains(c) <==> (
            channels_in(m, guild).contains(c) && c != channel),
        forall|g: u64|
            g != guild ==> #[trigger] channels_in(spec_remove_channel(m, guild, channel), g)
                == channels_in(m, g),
{
    if m.contains_key(guild) {
        lemma_without_members(m[guild], channel);
        let rest = without_channel(m[guild], channel);
        if rest.len() == 0 {
            assert forall|c: u64|
                #[trigger] channels_in(spec_remove_channel(m, guild, channel), guild).contains(c)
                    <==> (channels_in(m, guild).contains(c) && c != channel) by {
                assert(!rest.contains(c));
            }
        }
    }
}

/// Forgetting a guild leaves it no channel and every other guild as it was.
pub proof fn law_remove_all_channels_forgets(m: Map<u64, Seq<u64>>, guild: u64)
    ensures
        channels_in(m.remove(guild), guild) == Seq::<u64>::empty(),
        forall|g: u64| g != guild ==> #[trigger] channels_in(m.remove(guild), g) == channels_in(m, g),
{
}

/// Subscribing a channel a guild did not have, then taking it off again,
/// gives back the registry as it was.
pub proof fn law_remove_undoes_add(m: Map<u64, Seq<u64>>, guild: u64, channel: u64)
    requires
        registry_wf(m),
        !channels_in(m, guild).contains(channel),
    ensures
        spec_remove_channel(spec_add_channels(m, guild, seq![channel]), guild, channel) == m,
{
    let list = channels_in(m, guild);
    let added = seq![channel];
    assert(added.drop_last() =~= Seq::<u64>::empty());
    assert(merge_channels(list, added.drop_last()) == list);
    let merged = merge_channels(list, added);
    assert(merged == list.push(channel));
    let mid = spec_add_channels(m, guild, added);
    assert(mid[guild] == merged);
    assert(merged.drop_last() =~= list);
    assert(merged.last() == channel);
    lemma_without_members(list, channel);
    assert(without_channel(merged, channel) == without_channel(list, channel));
    if m.contains_key(guild) {
        assert(list.len() > 0);
        assert(mid.insert(guild, list) =~= m);
    } else {
        assert(list.len() == 0);
        assert(mid.remove(guild) =~= m);
    }
}

/// Every operation on the registry keeps its lists non-empty and free of
/// repetition; a new registry has both properties.
pub proof fn law_registry_stays_well_formed(
    m: Map<u64, Seq<u64>>,
    guild: u64,
    channels: Seq<u64>,
    channel: u64,
)
    requires
        registry_wf(m),
    ensures
        registry_wf(Map::<u64, Seq<u64>>::empty()),
        registry_wf(spec_add_channels(m, guild, channels)),
        registry_wf(spec_remove_channel(m, guild, channel)),
        registry_wf(m.remove(guild)),
{
    let list = channels_in(m, guild);
    assert(list.no_duplicates());
    lemma_merge_no_duplicates(list, channels);
    if m.contains_key(guild) {
        lemma_without_members(m[guild], channel);
    }
}

/// Adding channels that are new and distinct appends them as they are, in
/// their order.
pub proof fn law_new_channels_are_appended_in_order(list: Seq<u64>, added: Seq<u64>)
    requires
        added.no_duplicates(),
        forall|c: u64| added.contains(c) ==> !list.contains(c),
    ensures
        merge_channels(list, added) == list + added,
    decreases added.len(),
{
    if added.len() == 0 {
        assert(list + added =~= list);
    } else {
        let front = added.drop_last();
        let x = added.last();
        assert(front.no_duplicates()) by {
            assert forall|i: int, j: int|
                0 <= i < front.len() && 0 <= j < front.len() && i != j implies front[i]
                != front[j] by {
                assert(added[i] == front[i] && added[j] == front[j]);
            }
        }
        assert forall|c: u64| front.contains(c) implies !list.contains(c) by {
            let k = choose|k: int| 0 <= k < front.len() && front[k] == c;
            assert(added[k] == c);
            assert(added.contains(c));
        }
        law_new_channels_are_appended_in_order(list, front);
        assert(added.contains(x)) by {
            assert(added[added.len() - 1] == x);
        }
        lemma_push_contains(list, x);
        assert(!front.contains(x)) by {
            if front.contains(x) {
                let k = choose|k: int| 0 <= k < front.len() && front[k] == x;
                assert(added[k] == added[added.len() - 1]);
            }
        }
        lemma_merge_members(list, front);
        assert(!merge_channels(list, front).contains(x));
        assert((list + front).push(x) =~= list + added);
    }
}

proof fn lemma_merge_split(list: Seq<u64>, a: Seq<u64>, b: Seq<u64>)
    ensures
        merge_channels(list, a + b) == merge_channels(merge_channels(list, a), b),
    decreases b.len(),
{
    if b.len() == 0 {
        assert(a + b =~= a);
    } else {
        lemma_merge_split(list, a, b.drop_last());
        assert((a + b).drop_last() =~= a + b.drop_last());
        assert((a + b).last() == b.last());
    }
}

/// Adding channels in two commands gives what adding them in one does.
pub proof fn law_add_channels_in_sequence(
    m: Map<u64, Seq<u64>>,
    guild: u64,
    a: Seq<u64>,
    b: Seq<u64>,
)
    ensures
        spec_add_channels(spec_add_channels(m, guild, a), guild, b) == spec_add_channels(
            m,
            guild,
            a + b,
        ),
{
    let l = channels_in(m, guild);
    let m1 = spec_add_channels(m, guild, a);
    lemma_merge_prefix(l, a);
    assert(channels_in(m1, guild) == merge_channels(l, a));
    lemma_merge_split(l, a, b);
    lemma_merge_prefix(merge_channels(l, a), b);
    let whole = merge_channels(l, a + b);
    if whole.len() == 0 {
        assert(merge_channels(l, a).len() == 0);
    } else {
        assert(m1.insert(guild, whole) =~= m.insert(guild, whole));
    }
}

/// Taking a channel off a list keeps the other channels in their order:
/// the result for two runs is the result for the first, then for the second,
/// and a single entry stays exactly when it is another channel.
pub proof fn law_remove_keeps_order(a: Seq<u64>, b: Seq<u64>, channel: u64, other: u64)
    ensures
        without_channel(a + b, channel) == without_channel(a, channel) + without_channel(
            b,
            channel,
        ),
        without_channel(seq![channel], channel) == Seq::<u64>::empty(),
        other != channel ==> without_channel(seq![other], channel) == seq![other],
    decreases b.len(),
{
    assert(seq![channel].drop_last() =~= Seq::<u64>::empty());
    assert(seq![other].drop_last() =~= Seq::<u64>::empty());
    assert(Seq::<u64>::empty().push(other) =~= seq![other]);
    assert(without_channel(Seq::<u64>::empty(), channel) == Seq::<u64>::empty());
    assert(seq![other].last() == other);
    assert(seq![channel].last() == channel);
    assert(without_channel(seq![channel], channel) == without_channel(
        Seq::<u64>::empty(),
        channel,
    ));
    if b.len() == 0 {
        assert(without_channel(b, channel) == Seq::<u64>::empty());
        assert(a + b =~= a);
        assert(without_channel(a, channel) + Seq::<u64>::empty() =~= without_channel(a, channel));
    } else {
        law_remove_keeps_order(a, b.drop_last(), channel, other);
        assert((a + b).drop_last() =~= a + b.drop_last());
        assert((a + b).last() == b.last());
        if b.last() != channel {
            assert(without_channel(a, channel) + without_channel(b.drop_last(), channel).push(
                b.last(),
            ) =~= (without_channel(a, channel) + without_channel(b.drop_last(), channel)).push(
                b.last(),
            ));
        }
    }
}

} // verus!
