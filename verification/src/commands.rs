//! The command handler: one incoming chat message in, store mutations, a
//! textual reply and a list of monitor actions out.
//!
//! The handler only decides; it does not spawn or stop tasks itself. The
//! caller runs the returned actions against its task scheduler and
//! persists the stores afterwards.
//!
//! Commands: `/start` and `/help` reply with fixed texts; `/add URL`
//! registers a subscription for the invoking channel and asks for its
//! monitor to start; `/del id...` removes subscriptions, but each only
//! when it notifies the invoking channel; `/list` (or `/ls`) shows the
//! invoking channel's subscriptions; `/info id` shows one subscription.
//! A message that is no command, and a command that is not recognized,
//! get no reply.

use vstd::prelude::*;

use crate::models::{opt_view, ChannelId, OwnerId, Subscription};
use crate::numbers::{dec_digits, parse_u64, parse_u64_spec, u64_digits};
use crate::store::{find_by_id, find_state, has_id, RuntimeStateStore, SubscriptionStore};
use crate::text::{after_first_word, chars_string, eq_lit, first_word, first_word_and_rest,
    starts_with, starts_with_lit, str_chars, trimmed, words, words_of};

verus! {

/// A platform message, normalized: where it came from, who sent it, and
/// its text.
#[derive(Debug)]
pub struct IncomingMessage {
    /// The platform's own id for the message; unused by the handler.
    pub message_id: i64,
    /// Where a reply goes, and the channel a new subscription notifies.
    pub channel_id: ChannelId,
    pub sender: OwnerId,
    pub content: String,
}

/// What the caller must do to its monitors after a command.
pub enum MonitorAction {
    /// Spawn a monitor for this subscription, replacing a running one.
    Start(Subscription),
    /// Signal the monitor of this subscription id to shut down.
    Stop(u64),
}

/// What the handler decided: a reply (`Ok(None)` means silence, `Err` an
/// error text) and the monitor actions to run.
pub struct CommandOutcome {
    pub reply: Result<Option<String>, String>,
    pub actions: Vec<MonitorAction>,
}

/// Two subscriptions carrying the same values, compared through views.
pub open spec fn same_subscription(a: Subscription, b: Subscription) -> bool {
    &&& a.id == b.id
    &&& opt_view(a.name) == opt_view(b.name)
    &&& a.channels@ == b.channels@
    &&& a.owner == b.owner
    &&& a.url@ == b.url@
    &&& a.config == b.config
    &&& a.created_at == b.created_at
}

/// The ids named in a `/del` payload: every whitespace-separated word as
/// an unsigned integer, or the first word that is not one.
pub open spec fn spec_parse_ids(toks: Seq<Seq<char>>) -> Result<Seq<u64>, Seq<char>>
    decreases toks.len(),
{
    if toks.len() == 0 {
        Ok(Seq::empty())
    } else {
        match parse_u64_spec(toks[0]) {
            None => Err(toks[0]),
            Some(id) => match spec_parse_ids(toks.skip(1)) {
                Ok(rest) => Ok(seq![id] + rest),
                Err(bad) => Err(bad),
            },
        }
    }
}

/// One `/del` step: the subscription carrying `id` leaves the catalog only
/// when it notifies `channel`; order is otherwise kept.
pub open spec fn spec_del_one(subs: Seq<Subscription>, id: u64, channel: ChannelId) -> (
    Seq<Subscription>,
    bool,
) {
    match find_by_id(subs, id) {
        Some(sub) => if sub.spec_has_channel(channel) {
            (subs.filter(|s: Subscription| s.id != id), true)
        } else {
            (subs, false)
        },
        None => (subs, false),
    }
}

/// The whole `/del` fold: the catalog after every id is tried, the ids
/// that were removed and the ids that were not, each in command order.
pub open spec fn spec_del(subs: Seq<Subscription>, ids: Seq<u64>, channel: ChannelId) -> (
    Seq<Subscription>,
    Seq<u64>,
    Seq<u64>,
)
    decreases ids.len(),
{
    if ids.len() == 0 {
        (subs, Seq::empty(), Seq::empty())
    } else {
        let (after_one, removed) = spec_del_one(subs, ids[0], channel);
        let (after_rest, removed_ids, kept_ids) = spec_del(after_one, ids.skip(1), channel);
        if removed {
            (after_rest, seq![ids[0]] + removed_ids, kept_ids)
        } else {
            (after_rest, removed_ids, seq![ids[0]] + kept_ids)
        }
    }
}

/// Ids joined with ", ".
pub open spec fn spec_id_list(ids: Seq<u64>) -> Seq<char>
    decreases ids.len(),
{
    if ids.len() == 0 {
        Seq::empty()
    } else if ids.len() == 1 {
        dec_digits(ids[0] as nat)
    } else {
        spec_id_list(ids.drop_last()) + ", "@ + dec_digits(ids.last() as nat)
    }
}

/// The `/del` reply: which ids were removed, and which were not.
pub open spec fn spec_del_reply(removed: Seq<u64>, kept: Seq<u64>) -> Seq<char> {
    if kept.len() == 0 {
        "Removed: "@ + spec_id_list(removed)
    } else if removed.len() == 0 {
        "Not removed: "@ + spec_id_list(kept)
    } else {
        "Removed: "@ + spec_id_list(removed) + "\nNot removed: "@ + spec_id_list(kept)
    }
}

/// One `/list` line: id, creation time, and the name when there is one.
pub open spec fn spec_list_line(sub: Subscription) -> Seq<char> {
    match sub.name {
        Some(name) => "ID:\t"@ + dec_digits(sub.id as nat) + "\t("@ + sub.created_at.spec_format()
            + "): "@ + name@ + "\n"@,
        None => "ID:\t"@ + dec_digits(sub.id as nat) + "\t("@ + sub.created_at.spec_format()
            + ")\n"@,
    }
}

/// The `/list` reply body: one line per subscription, in catalog order.
pub open spec fn spec_list_text(subs: Seq<Subscription>) -> Seq<char>
    decreases subs.len(),
{
    if subs.len() == 0 {
        Seq::empty()
    } else {
        spec_list_text(subs.drop_last()) + spec_list_line(subs.last())
    }
}

/// The `/info` rendering of a subscription.
pub open spec fn spec_describe(sub: Subscription) -> Seq<char> {
    "Subscription { id: "@ + dec_digits(sub.id as nat) + ", name: "@ + (match sub.name {
        Some(name) => name@,
        None => "-"@,
    }) + ", url: "@ + sub.url@ + ", channels: "@ + dec_digits(sub.channels@.len()) + ", interval: "@
        + dec_digits(sub.config.interval as nat) + "s, created: "@ + sub.created_at.spec_format()
        + " }"@
}

/// The fixed `/help` reply.
pub open spec fn spec_help_text() -> Seq<char> {
    "Commands:\n/add URL - watch URL and notify this channel of new listings\n/del ID... - delete subscriptions by id\n/list - list this channel's subscriptions\n/info ID - show one subscription\n/help - this text"@
}

/// The fixed `/start` reply.
pub open spec fn spec_greeting() -> Seq<char> {
    "Hello! I watch listings for you. Send /help to see the commands."@
}

/// The `/add` usage hint.
pub open spec fn spec_add_usage() -> Seq<char> {
    "Could not find URL in message. Usage: /add URL"@
}

/// The reply to an id that would not parse.
pub open spec fn spec_bad_id(tok: Seq<char>) -> Seq<char> {
    "Could not parse ID: "@ + tok
}

/// The reply to `/info` on an id that no subscription carries.
pub open spec fn spec_no_such_id(id: u64) -> Seq<char> {
    "Subscription with ID "@ + dec_digits(id as nat) + " does not exist"@
}

/// The `/add` confirmation.
pub open spec fn spec_added(id: u64) -> Seq<char> {
    "New subscription added with ID: "@ + dec_digits(id as nat)
}

/// Everything `handle_message` promises, split by the command named in the
/// first word of the message.
pub open spec fn spec_outcome_valid(
    outcome: CommandOutcome,
    msg_content: Seq<char>,
    channel: ChannelId,
    sender: OwnerId,
    subs_before: Seq<Subscription>,
    next_id_before: u64,
    subs_after: SubscriptionStore,
    states_before: RuntimeStateStore,
    states_after: RuntimeStateStore,
) -> bool {
    let command = first_word(msg_content);
    let payload = trimmed(after_first_word(msg_content));
    let unchanged = subs_after.subs() == subs_before && subs_after.spec_next_id() == next_id_before
        && states_after.states_seq() == states_before.states_seq();
    if !starts_with(command, "/"@) {
        unchanged && outcome.reply == Ok::<Option<String>, String>(None) && outcome.actions@.len() == 0
    } else if command == "/add"@ {
        if payload.len() == 0 {
            unchanged && (match outcome.reply {
                Ok(Some(reply)) => reply@ == spec_add_usage(),
                _ => false,
            }) && outcome.actions@.len() == 0
        } else {
            &&& states_after.states_seq() == states_before.states_seq()
            &&& subs_after.subs().len() == subs_before.len() + 1
            &&& subs_after.subs().take(subs_before.len() as int) == subs_before
            &&& ({
                let sub = subs_after.subs().last();
                &&& sub.id == next_id_before
                &&& opt_view(sub.name) == crate::naming::derive_name(payload)
                &&& sub.channels@ == seq![channel]
                &&& sub.owner == sender
                &&& sub.url@ == payload
            })
            &&& subs_after.spec_next_id() == next_id_before + 1
            &&& (match outcome.reply {
                Ok(Some(reply)) => reply@ == spec_added(next_id_before),
                _ => false,
            })
            &&& outcome.actions@.len() == 1
            &&& (match outcome.actions@[0] {
                MonitorAction::Start(sub) => same_subscription(sub, subs_after.subs().last()),
                MonitorAction::Stop(_) => false,
            })
        }
    } else if command == "/del"@ {
        match spec_parse_ids(words_of(payload)) {
            Err(bad) => unchanged && (match outcome.reply {
                Err(reply) => reply@ == spec_bad_id(bad),
                Ok(_) => false,
            }) && outcome.actions@.len() == 0,
            Ok(ids) => {
                let (subs_final, removed, kept) = spec_del(subs_before, ids, channel);
                &&& subs_after.subs() == subs_final
                &&& subs_after.spec_next_id() == next_id_before
                &&& removed.len() + kept.len() == ids.len()
                &&& forall|u: u64|
                    removed.contains(u) ==> find_state(states_after.states_seq(), u) is None
                &&& forall|u: u64|
                    !removed.contains(u) ==> find_state(states_after.states_seq(), u)
                        == find_state(states_before.states_seq(), u)
                &&& (match outcome.reply {
                    Ok(Some(reply)) => reply@ == spec_del_reply(removed, kept),
                    _ => false,
                })
                &&& outcome.actions@.len() == removed.len()
                &&& forall|k: int|
                    0 <= k < removed.len() ==> outcome.actions@[k] == MonitorAction::Stop(
                        removed[k],
                    )
            },
        }
    } else if command == "/list"@ || command == "/ls"@ {
        let mine = subs_before.filter(|s: Subscription| s.spec_has_channel(channel));
        unchanged && outcome.actions@.len() == 0 && (match outcome.reply {
            Ok(Some(reply)) => reply@ == (if mine.len() == 0 {
                "No subscriptions found"@
            } else {
                spec_list_text(mine)
            }),
            _ => false,
        })
    } else if command == "/info"@ {
        unchanged && outcome.actions@.len() == 0 && (match parse_u64_spec(payload) {
            None => match outcome.reply {
                Err(reply) => reply@ == spec_bad_id(payload),
                Ok(_) => false,
            },
            Some(id) => match outcome.reply {
                Ok(Some(reply)) => reply@ == (match find_by_id(subs_before, id) {
                    Some(sub) => spec_describe(sub),
                    None => spec_no_such_id(id),
                }),
                _ => false,
            },
        })
    } else if command == "/help"@ {
        unchanged && outcome.actions@.len() == 0 && (match outcome.reply {
            Ok(Some(reply)) => reply@ == spec_help_text(),
            _ => false,
        })
    } else if command == "/start"@ {
        unchanged && outcome.actions@.len() == 0 && (match outcome.reply {
            Ok(Some(reply)) => reply@ == spec_greeting(),
            _ => false,
        })
    } else {
        unchanged && outcome.reply == Ok::<Option<String>, String>(None) && outcome.actions@.len() == 0
    }
}

/// Appends `src` to `dst`.
pub(crate) fn append_chars(dst: &mut Vec<char>, src: &Vec<char>)
    ensures
        final(dst)@ == old(dst)@ + src@,
{
    let mut i: usize = 0;
    proof {
        assert(dst@ =~= old(dst)@ + src@.take(0));
    }
    while i < src.len()
        invariant
            i <= src@.len(),
            dst@ == old(dst)@ + src@.take(i as int),
        decreases src@.len() - i,
    {
        dst.push(src[i]);
        i = i + 1;
        proof {
            assert(dst@ =~= old(dst)@ + src@.take(i as int));
        }
    }
    proof {
        assert(src@.take(src@.len() as int) =~= src@);
    }
}

/// Appends a literal to `dst`.
pub(crate) fn append_lit(dst: &mut Vec<char>, lit: &str)
    ensures
        final(dst)@ == old(dst)@ + lit@,
{
    let chars = str_chars(lit);
    append_chars(dst, &chars);
}

/// Renders ids joined with ", ".
fn render_id_list(ids: &Vec<u64>) -> (r: Vec<char>)
    ensures
        r@ == spec_id_list(ids@),
{
    let mut r: Vec<char> = Vec::new();
    let mut i: usize = 0;
    proof {
        assert(ids@.take(0) =~= Seq::<u64>::empty());
    }
    while i < ids.len()
        invariant
            i <= ids@.len(),
            r@ == spec_id_list(ids@.take(i as int)),
        decreases ids@.len() - i,
    {
        if i > 0 {
            append_lit(&mut r, ", ");
        }
        let digits = u64_digits(ids[i]);
        append_chars(&mut r, &digits);
        i = i + 1;
        proof {
            assert(ids@.take(i as int).drop_last() =~= ids@.take(i - 1));
            assert(ids@.take(i as int).last() == ids@[i - 1]);
            assert(r@ =~= spec_id_list(ids@.take(i as int)));
        }
    }
    proof {
        assert(ids@.take(ids@.len() as int) =~= ids@);
    }
    r
}

/// Renders one `/list` line.
fn render_list_line(sub: &Subscription) -> (r: Vec<char>)
    ensures
        r@ == spec_list_line(*sub),
{
    let mut r: Vec<char> = Vec::new();
    append_lit(&mut r, "ID:\t");
    let digits = u64_digits(sub.id);
    append_chars(&mut r, &digits);
    append_lit(&mut r, "\t(");
    let stamp = sub.created_at.format();
    let stamp_chars = str_chars(stamp.as_str());
    append_chars(&mut r, &stamp_chars);
    match &sub.name {
        Some(name) => {
            append_lit(&mut r, "): ");
            let name_chars = str_chars(name.as_str());
            append_chars(&mut r, &name_chars);
            append_lit(&mut r, "\n");
        },
        None => {
            append_lit(&mut r, ")\n");
        },
    }
    proof {
        assert(r@ =~= spec_list_line(*sub));
    }
    r
}

/// Renders the `/info` description.
fn render_describe(sub: &Subscription) -> (r: Vec<char>)
    ensures
        r@ == spec_describe(*sub),
{
    let mut r: Vec<char> = Vec::new();
    append_lit(&mut r, "Subscription { id: ");
    let id_digits = u64_digits(sub.id);
    append_chars(&mut r, &id_digits);
    append_lit(&mut r, ", name: ");
    match &sub.name {
        Some(name) => {
            let name_chars = str_chars(name.as_str());
            append_chars(&mut r, &name_chars);
        },
        None => {
            append_lit(&mut r, "-");
        },
    }
    append_lit(&mut r, ", url: ");
    let url_chars = str_chars(sub.url.as_str());
    append_chars(&mut r, &url_chars);
    append_lit(&mut r, ", channels: ");
    let channel_count = u64_digits(sub.channels.len() as u64);
    append_chars(&mut r, &channel_count);
    append_lit(&mut r, ", interval: ");
    let interval_digits = u64_digits(sub.config.interval);
    append_chars(&mut r, &interval_digits);
    append_lit(&mut r, "s, created: ");
    let stamp = sub.created_at.format();
    let stamp_chars = str_chars(stamp.as_str());
    append_chars(&mut r, &stamp_chars);
    append_lit(&mut r, " }");
    proof {
        assert(r@ =~= spec_describe(*sub));
    }
    r
}

/// Parses every whitespace-separated token of a `/del` payload as an id,
/// or reports the first token that is not one.
fn parse_ids(toks: &Vec<Vec<char>>) -> (r: Result<Vec<u64>, Vec<char>>)
    ensures
        match r {
            Ok(ids) => spec_parse_ids(toks.deep_view()) == Ok::<Seq<u64>, Seq<char>>(ids@),
            Err(bad) => spec_parse_ids(toks.deep_view()) == Err::<Seq<u64>, Seq<char>>(bad@),
        },
{
    let mut ids: Vec<u64> = Vec::new();
    let mut i: usize = 0;
    let ghost toks_view = toks.deep_view();
    proof {
        assert(toks_view.skip(0) =~= toks_view);
    }
    while i < toks.len()
        invariant
            i <= toks@.len(),
            toks_view == toks.deep_view(),
            spec_parse_ids(toks_view) == (match spec_parse_ids(toks_view.skip(i as int)) {
                Ok(rest) => Ok::<Seq<u64>, Seq<char>>(ids@ + rest),
                Err(bad) => Err::<Seq<u64>, Seq<char>>(bad),
            }),
        decreases toks@.len() - i,
    {
        proof {
            assert(toks_view.skip(i as int)[0] == toks_view[i as int]);
            assert(toks_view[i as int] == toks@[i as int]@) by {
                assert(toks@[i as int].deep_view() =~= toks@[i as int]@);
            }
        }
        match parse_u64(&toks[i]) {
            Some(id) => {
                let ghost old_ids = ids@;
                ids.push(id);
                i = i + 1;
                proof {
                    assert(toks_view.skip(i - 1).skip(1) =~= toks_view.skip(i as int));
                    match spec_parse_ids(toks_view.skip(i as int)) {
                        Ok(rest) => {
                            assert(old_ids + (seq![id] + rest) =~= ids@ + rest);
                        },
                        Err(_) => {},
                    }
                }
            },
            None => {
                let mut bad: Vec<char> = Vec::new();
                append_chars(&mut bad, &toks[i]);
                proof {
                    assert(bad@ =~= toks_view[i as int]);
                }
                return Err(bad);
            },
        }
    }
    proof {
        assert(toks_view.skip(toks_view.len() as int).len() == 0);
        assert(ids@ + Seq::<u64>::empty() =~= ids@);
    }
    Ok(ids)
}

/// Handles one message against the stores. The returned actions tell the
/// caller which monitors to start or stop; the caller persists both stores
/// afterwards.
pub fn handle_message(
    msg: &IncomingMessage,
    subs: &mut SubscriptionStore,
    states: &mut RuntimeStateStore,
) -> (outcome: CommandOutcome)
    requires
        old(subs).wf(),
        old(states).wf(),
        old(subs).spec_next_id() < u64::MAX,
    ensures
        final(subs).wf(),
        final(states).wf(),
        final(subs).spec_next_id() >= old(subs).spec_next_id(),
        spec_outcome_valid(
            outcome,
            msg.content@,
            msg.channel_id,
            msg.sender,
            old(subs).subs(),
            old(subs).spec_next_id(),
            *final(subs),
            *old(states),
            *final(states),
        ),
{
    let content = str_chars(msg.content.as_str());
    let (command, payload) = first_word_and_rest(&content);
    if !starts_with_lit(&command, "/") {
        return CommandOutcome { reply: Ok(None), actions: Vec::new() };
    }
    if eq_lit(&command, "/add") {
        if payload.len() == 0 {
            let mut reply: Vec<char> = Vec::new();
            append_lit(&mut reply, "Could not find URL in message. Usage: /add URL");
            proof {
                assert(reply@ =~= spec_add_usage());
            }
            return CommandOutcome {
                reply: Ok(Some(chars_string(&reply))),
                actions: Vec::new(),
            };
        }
        let url = chars_string(&payload);
        let id = subs.add_subscription(url, msg.channel_id, msg.sender);
        let added = match subs.get_subscription(id) {
            Some(sub) => sub.duplicate(),
            None => {
                // The id was just inserted, so the lookup cannot miss.
                proof {
                    crate::store::lemma_find_by_id(subs.subs(), id);
                    assert(subs.subs().last().id == id);
                    assert(has_id(subs.subs(), id));
                    assert(false);
                }
                return CommandOutcome { reply: Ok(None), actions: Vec::new() };
            },
        };
        proof {
            crate::store::lemma_find_by_id(subs.subs(), id);
            let found = find_by_id(subs.subs(), id)->Some_0;
            let k = choose|k: int| 0 <= k < subs.subs().len() && subs.subs()[k] == found;
            assert(subs.subs()[k].id == id);
            if k != subs.subs().len() - 1 {
                assert(subs.subs()[k].id < id);
                assert(false);
            }
            assert(found == subs.subs().last());
        }
        let mut actions: Vec<MonitorAction> = Vec::new();
        actions.push(MonitorAction::Start(added));
        let mut reply: Vec<char> = Vec::new();
        append_lit(&mut reply, "New subscription added with ID: ");
        let digits = u64_digits(id);
        append_chars(&mut reply, &digits);
        proof {
            assert(reply@ =~= spec_added(id));
        }
        return CommandOutcome { reply: Ok(Some(chars_string(&reply))), actions };
    }
    if eq_lit(&command, "/del") {
        let toks = words(&payload);
        let ids = match parse_ids(&toks) {
            Ok(ids) => ids,
            Err(bad) => {
                let mut reply: Vec<char> = Vec::new();
                append_lit(&mut reply, "Could not parse ID: ");
                append_chars(&mut reply, &bad);
                proof {
                    match spec_parse_ids(toks.deep_view()) {
                        Err(b) => {
                            assert(reply@ =~= spec_bad_id(b));
                        },
                        Ok(_) => {},
                    }
                }
                return CommandOutcome { reply: Err(chars_string(&reply)), actions: Vec::new() };
            },
        };
        // Try each id in order; a subscription leaves only when it notifies
        // the invoking channel.
        let mut removed: Vec<u64> = Vec::new();
        let mut kept: Vec<u64> = Vec::new();
        let mut actions: Vec<MonitorAction> = Vec::new();
        let mut j: usize = 0;
        let ghost ids_view = ids@;
        proof {
            assert(ids_view.skip(0) =~= ids_view);
        }
        while j < ids.len()
            invariant
                j <= ids_view.len(),
                ids@ == ids_view,
                subs.wf(),
                states.wf(),
                subs.spec_next_id() == old(subs).spec_next_id(),
                spec_del(old(subs).subs(), ids_view, msg.channel_id) == ({
                    let (subs_final, removed_rest, kept_rest) = spec_del(
                        subs.subs(),
                        ids_view.skip(j as int),
                        msg.channel_id,
                    );
                    (subs_final, removed@ + removed_rest, kept@ + kept_rest)
                }),
                forall|u: u64|
                    removed@.contains(u) ==> find_state(states.states_seq(), u) is None,
                forall|u: u64|
                    !removed@.contains(u) ==> find_state(states.states_seq(), u) == find_state(
                        old(states).states_seq(),
                        u,
                    ),
                removed@.len() + kept@.len() == j,
                actions@.len() == removed@.len(),
                forall|k: int|
                    0 <= k < removed@.len() ==> actions@[k] == MonitorAction::Stop(removed@[k]),
            decreases ids_view.len() - j,
        {
            let id = ids[j];
            proof {
                assert(ids_view.skip(j as int)[0] == ids_view[j as int]);
            }
            let ghost subs_at_entry = subs.subs();
            let ghost removed_before = removed@;
            let ghost kept_before = kept@;
            let did = subs.remove_for_channel(id, msg.channel_id);
            proof {
                crate::store::lemma_find_by_id(subs_at_entry, id);
            }
            if did {
                states.remove(id);
                removed.push(id);
                actions.push(MonitorAction::Stop(id));
            } else {
                kept.push(id);
            }
            j = j + 1;
            proof {
                assert(ids_view.skip(j - 1).skip(1) =~= ids_view.skip(j as int));
                let (f1, r1, k1) = spec_del(subs.subs(), ids_view.skip(j as int), msg.channel_id);
                if did {
                    assert(removed@ =~= removed_before.push(id));
                    assert(removed_before.push(id) + r1 =~= removed_before + (seq![id] + r1));
                    assert(kept@ + k1 =~= kept_before + k1);
                } else {
                    assert(kept@ =~= kept_before.push(id));
                    assert(kept_before.push(id) + k1 =~= kept_before + (seq![id] + k1));
                    assert(removed@ + r1 =~= removed_before + r1);
                }
                assert forall|u: u64|
                    removed@.contains(u) implies find_state(states.states_seq(), u) is None by {
                    if u != id {
                        let k = choose|k: int| 0 <= k < removed@.len() && removed@[k] == u;
                        assert(k < removed_before.len());
                        assert(removed_before[k] == u);
                        assert(removed_before.contains(u));
                    }
                }
                assert forall|u: u64|
                    !removed@.contains(u) implies find_state(states.states_seq(), u) == find_state(
                    old(states).states_seq(),
                    u,
                ) by {
                    if did {
                        assert(removed@[removed@.len() - 1] == id);
                        assert(u != id);
                        assert(!removed_before.contains(u)) by {
                            if removed_before.contains(u) {
                                let k = choose|k: int|
                                    0 <= k < removed_before.len() && removed_before[k] == u;
                                assert(removed@[k] == u);
                            }
                        }
                    } else {
                        assert(!removed_before.contains(u)) by {
                            if removed_before.contains(u) {
                                let k = choose|k: int|
                                    0 <= k < removed_before.len() && removed_before[k] == u;
                                assert(removed@[k] == u);
                            }
                        }
                    }
                }
            }
        }
        proof {
            assert(ids_view.skip(ids_view.len() as int).len() == 0);
            let (f0, r0, k0) = spec_del(
                subs.subs(),
                ids_view.skip(ids_view.len() as int),
                msg.channel_id,
            );
            assert(removed@ + r0 =~= removed@);
            assert(kept@ + k0 =~= kept@);
        }
        let mut reply: Vec<char> = Vec::new();
        if kept.len() == 0 {
            append_lit(&mut reply, "Removed: ");
            let list = render_id_list(&removed);
            append_chars(&mut reply, &list);
        } else if removed.len() == 0 {
            append_lit(&mut reply, "Not removed: ");
            let list = render_id_list(&kept);
            append_chars(&mut reply, &list);
        } else {
            append_lit(&mut reply, "Removed: ");
            let list = render_id_list(&removed);
            append_chars(&mut reply, &list);
            append_lit(&mut reply, "\nNot removed: ");
            let kept_list = render_id_list(&kept);
            append_chars(&mut reply, &kept_list);
        }
        proof {
            assert(reply@ =~= spec_del_reply(removed@, kept@));
        }
        return CommandOutcome { reply: Ok(Some(chars_string(&reply))), actions };
    }
    if eq_lit(&command, "/list") || eq_lit(&command, "/ls") {
        let mine = subs.list_by_channel(msg.channel_id);
        if mine.len() == 0 {
            let mut reply: Vec<char> = Vec::new();
            append_lit(&mut reply, "No subscriptions found");
            proof {
                assert(reply@ =~= "No subscriptions found"@);
            }
            return CommandOutcome {
                reply: Ok(Some(chars_string(&reply))),
                actions: Vec::new(),
            };
        }
        let ghost mine_view = mine@.map_values(|s: &Subscription| *s);
        let mut reply: Vec<char> = Vec::new();
        let mut i: usize = 0;
        proof {
            assert(mine_view.take(0) =~= Seq::<Subscription>::empty());
            assert(reply@ =~= spec_list_text(mine_view.take(0)));
        }
        while i < mine.len()
            invariant
                i <= mine@.len(),
                mine_view == mine@.map_values(|s: &Subscription| *s),
                reply@ == spec_list_text(mine_view.take(i as int)),
            decreases mine@.len() - i,
        {
            let line = render_list_line(mine[i]);
            append_chars(&mut reply, &line);
            i = i + 1;
            proof {
                assert(mine_view.take(i as int).drop_last() =~= mine_view.take(i - 1));
                assert(mine_view.take(i as int).last() == mine_view[i - 1]);
                assert(mine_view[i - 1] == *mine@[i - 1]);
                assert(reply@ =~= spec_list_text(mine_view.take(i as int)));
            }
        }
        proof {
            assert(mine_view.take(mine_view.len() as int) =~= mine_view);
        }
        return CommandOutcome { reply: Ok(Some(chars_string(&reply))), actions: Vec::new() };
    }
    if eq_lit(&command, "/info") {
        match parse_u64(&payload) {
            None => {
                let mut reply: Vec<char> = Vec::new();
                append_lit(&mut reply, "Could not parse ID: ");
                append_chars(&mut reply, &payload);
                proof {
                    assert(reply@ =~= spec_bad_id(payload@));
                }
                return CommandOutcome {
                    reply: Err(chars_string(&reply)),
                    actions: Vec::new(),
                };
            },
            Some(id) => {
                let reply_chars = match subs.get_subscription(id) {
                    Some(sub) => render_describe(sub),
                    None => {
                        let mut reply: Vec<char> = Vec::new();
                        append_lit(&mut reply, "Subscription with ID ");
                        let digits = u64_digits(id);
                        append_chars(&mut reply, &digits);
                        append_lit(&mut reply, " does not exist");
                        proof {
                            assert(reply@ =~= spec_no_such_id(id));
                        }
                        reply
                    },
                };
                return CommandOutcome {
                    reply: Ok(Some(chars_string(&reply_chars))),
                    actions: Vec::new(),
                };
            },
        }
    }
    if eq_lit(&command, "/help") {
        let mut reply: Vec<char> = Vec::new();
        append_lit(
            &mut reply,
            "Commands:\n/add URL - watch URL and notify this channel of new listings\n/del ID... - delete subscriptions by id\n/list - list this channel's subscriptions\n/info ID - show one subscription\n/help - this text",
        );
        proof {
            assert(reply@ =~= spec_help_text());
        }
        return CommandOutcome { reply: Ok(Some(chars_string(&reply))), actions: Vec::new() };
    }
    if eq_lit(&command, "/start") {
        let mut reply: Vec<char> = Vec::new();
        append_lit(
            &mut reply,
            "Hello! I watch listings for you. Send /help to see the commands.",
        );
        proof {
            assert(reply@ =~= spec_greeting());
        }
        return CommandOutcome { reply: Ok(Some(chars_string(&reply))), actions: Vec::new() };
    }
    CommandOutcome { reply: Ok(None), actions: Vec::new() }
}

} // verus!
