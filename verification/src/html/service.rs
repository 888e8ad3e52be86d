//! Desktop's sentence for a service message.
//!
//! Every part is escaped here: a display name is attacker-controlled and an
//! archive opens as a local file. The one value that arrives already
//! escaped is the message link, which the writer builds itself.

use vstd::prelude::*;
use crate::format::value::{bool_of, get, scalar_string, scalar_text, Json};
use crate::html::escape::{esc, esc_text};
use crate::strings::{chars_of, push_all, same_chars, string_of};

verus! {

/// A member as text: a string, or a number as written.
pub open spec fn text_of(m: Json, k: Seq<char>) -> Seq<char> {
    scalar_text(get(m, k))
}

fn text_field(m: &Json, k: &str) -> (s: String)
    ensures
        s@ == text_of(*m, k@),
{
    scalar_string(m.get(k))
}

/// The string items of an array, joined by `, `.
pub open spec fn joined_strings(items: Seq<Json>) -> Seq<char>
    decreases items.len(),
{
    if items.len() == 0 {
        Seq::empty()
    } else {
        let before = joined_strings(items.drop_last());
        match items.last() {
            Json::Str(s) => if strings_in(items.drop_last()) == 0 { s@ } else { before + ", "@ + s@ },
            _ => before,
        }
    }
}

/// How many items are strings.
pub open spec fn strings_in(items: Seq<Json>) -> nat
    decreases items.len(),
{
    if items.len() == 0 {
        0
    } else {
        strings_in(items.drop_last()) + if items.last() is Str { 1nat } else { 0nat }
    }
}

proof fn lemma_no_strings(items: Seq<Json>)
    ensures
        strings_in(items) == 0 ==> joined_strings(items) == Seq::<char>::empty(),
    decreases items.len(),
{
    if items.len() > 0 {
        lemma_no_strings(items.drop_last());
    }
}

/// The members named by a service message.
pub open spec fn members_of(m: Json) -> Seq<char> {
    match get(m, "members"@) {
        Some(Json::Array(items)) => joined_strings(items@),
        _ => Seq::empty(),
    }
}

fn members_text(m: &Json) -> (s: String)
    ensures
        s@ == members_of(*m),
{
    let mut v: Vec<char> = Vec::new();
    match m.get("members") {
        Some(Json::Array(items)) => {
            let mut count: usize = 0;
            let mut i: usize = 0;
            while i < items.len()
                invariant
                    i <= items@.len(),
                    count == strings_in(items@.take(i as int)),
                    count <= i,
                    v@ == joined_strings(items@.take(i as int)),
                decreases items.len() - i,
            {
                assert(items@.take(i + 1).drop_last() == items@.take(i as int));
                proof { lemma_no_strings(items@.take(i as int)); }
                if let Json::Str(s) = &items[i] {
                    if count > 0 {
                        push_all(&mut v, ", ");
                    }
                    push_all(&mut v, s.as_str());
                    count += 1;
                }
                i += 1;
            }
            assert(items@.take(items@.len() as int) == items@);
        },
        _ => {},
    }
    string_of(&v)
}

/// One changed part of a topic, when the message says it changed.
pub open spec fn topic_parts(m: Json) -> Seq<Seq<char>> {
    let a = if get(m, "new_title"@) is Some { seq!["title to &laquo;"@ + esc_text(text_of(m, "new_title"@)) + "&raquo;"@] } else { Seq::empty() };
    let b = if get(m, "new_icon_emoji_id"@) is Some { seq!["icon to &laquo;"@ + esc_text(text_of(m, "new_icon_emoji_id"@)) + "&raquo;"@] } else { Seq::empty() };
    let c = match bool_of(get(m, "closed"@)) { Some(v) => seq![if v { "closed"@ } else { "reopened"@ }], None => Seq::empty() };
    let d = match bool_of(get(m, "hidden"@)) { Some(v) => seq![if v { "hidden"@ } else { "shown"@ }], None => Seq::empty() };
    a + b + c + d
}

/// Parts joined by a bare comma, as Desktop writes them.
pub open spec fn comma_joined(parts: Seq<Seq<char>>) -> Seq<char>
    decreases parts.len(),
{
    if parts.len() == 0 {
        Seq::empty()
    } else if parts.len() == 1 {
        parts[0]
    } else {
        comma_joined(parts.drop_last()) + ","@ + parts.last()
    }
}

/// Desktop lists whichever parts of a topic changed, comma-joined with no
/// space after the comma.
pub open spec fn topic_edit_of(actor: Seq<char>, m: Json) -> Seq<char> {
    let parts = topic_parts(m);
    if parts.len() == 0 { actor + " changed topic"@ } else { actor + " changed topic "@ + comma_joined(parts) }
}

fn topic_edit_text(actor: &str, m: &Json) -> (s: String)
    ensures
        s@ == topic_edit_of(actor@, *m),
{
    let mut parts: Vec<String> = Vec::new();
    if m.get("new_title").is_some() {
        let mut v: Vec<char> = Vec::new();
        push_all(&mut v, "title to &laquo;");
        push_all(&mut v, esc(text_field(m, "new_title").as_str()).as_str());
        push_all(&mut v, "&raquo;");
        parts.push(string_of(&v));
    }
    let ghost pa = parts@.map_values(|p: String| p@);
    if m.get("new_icon_emoji_id").is_some() {
        let mut v: Vec<char> = Vec::new();
        push_all(&mut v, "icon to &laquo;");
        push_all(&mut v, esc(text_field(m, "new_icon_emoji_id").as_str()).as_str());
        push_all(&mut v, "&raquo;");
        parts.push(string_of(&v));
    }
    let closed = match m.get("closed") { Some(v) => v.as_bool(), None => None };
    if let Some(v) = closed {
        parts.push(crate::strings::owned(if v { "closed" } else { "reopened" }));
    }
    let hidden = match m.get("hidden") { Some(v) => v.as_bool(), None => None };
    if let Some(v) = hidden {
        parts.push(crate::strings::owned(if v { "hidden" } else { "shown" }));
    }
    let ghost pv = parts@.map_values(|p: String| p@);
    assert(pv =~= topic_parts(*m));
    let mut out: Vec<char> = Vec::new();
    push_all(&mut out, actor);
    if parts.len() == 0 {
        push_all(&mut out, " changed topic");
        return string_of(&out);
    }
    push_all(&mut out, " changed topic ");
    let ghost head = out@;
    let mut i: usize = 0;
    while i < parts.len()
        invariant
            i <= parts@.len(),
            pv == parts@.map_values(|p: String| p@),
            i > 0 ==> out@ == head + comma_joined(pv.take(i as int)),
            i == 0 ==> out@ == head,
        decreases parts.len() - i,
    {
        assert(pv.take(i + 1).drop_last() == pv.take(i as int));
        if i > 0 {
            push_all(&mut out, ",");
        } else {
            assert(pv.take(1) =~= seq![pv[0]]);
        }
        push_all(&mut out, parts[i].as_str());
        i += 1;
    }
    assert(pv.take(parts@.len() as int) == pv);
    string_of(&out)
}

/// The sentence for one service message, by its `action`. An unknown action
/// names itself rather than vanishing.
pub open spec fn service_sentence(m: Json, link: Option<Seq<char>>) -> Seq<char> {
    let raw = text_of(m, "actor"@);
    let actor = esc_text(if raw.len() == 0 { "Someone"@ } else { raw });
    let title = esc_text(text_of(m, "title"@));
    let members = esc_text(members_of(m));
    let action = text_of(m, "action"@);
    if action == "create_group"@ { actor + " created group &laquo;"@ + title + "&raquo;"@ }
    else if action == "create_channel"@ { actor + " created channel &laquo;"@ + title + "&raquo;"@ }
    else if action == "edit_group_title"@ { actor + " changed group title to &laquo;"@ + title + "&raquo;"@ }
    else if action == "edit_group_photo"@ { actor + " changed group photo"@ }
    else if action == "delete_group_photo"@ { actor + " removed group photo"@ }
    else if action == "invite_members"@ { actor + " invited "@ + members }
    else if action == "remove_members"@ { actor + " removed "@ + members }
    else if action == "join_group_by_link"@ { actor + " joined group by link from "@ + esc_text(text_of(m, "inviter"@)) }
    else if action == "join_group_by_request"@ { actor + " joined group by request"@ }
    else if action == "pin_message"@ { match link { Some(l) => actor + " pinned "@ + l, None => actor + " pinned message"@ } }
    else if action == "clear_history"@ { "History cleared"@ }
    else if action == "phone_call"@ { actor + " made a call"@ }
    else if action == "group_call"@ { actor + " started a voice chat"@ }
    else if action == "invite_to_group_call"@ { actor + " invited "@ + members + " to the voice chat"@ }
    else if action == "topic_created"@ { actor + " created topic &laquo;"@ + title + "&raquo;"@ }
    else if action == "topic_edit"@ { topic_edit_of(actor, m) }
    else if action == "joined_telegram"@ { actor + " joined Telegram"@ }
    else if action == "migrate_to_supergroup"@ { "Group converted to supergroup"@ }
    else if action == "migrate_from_group"@ { actor + " converted a basic group to this supergroup &laquo;"@ + title + "&raquo;"@ }
    else if action == "score_in_game"@ { actor + " scored "@ + esc_text(text_of(m, "score"@)) + " in a game"@ }
    else if action == "send_payment"@ { actor + " sent a payment"@ }
    else if action == "edit_chat_theme"@ { actor + " changed chat theme"@ }
    else if action == "set_messages_ttl"@ { actor + " changed messages auto-delete period"@ }
    else if action == "suggest_profile_photo"@ { actor + " suggested a profile photo"@ }
    else if action == "poll_append_answer"@ { actor + " added &quot;"@ + esc_text(text_of(m, "answer"@)) + "&quot; to the poll."@ }
    else if action == "poll_delete_answer"@ { actor + " removed &quot;"@ + esc_text(text_of(m, "answer"@)) + "&quot; from the poll."@ }
    else { actor + " &mdash; "@ + esc_text(action) }
}

fn cat2(a: &str, b: &str) -> (s: String)
    ensures
        s@ == a@ + b@,
{
    let mut v: Vec<char> = Vec::new();
    push_all(&mut v, a);
    push_all(&mut v, b);
    string_of(&v)
}

fn cat3(a: &str, b: &str, c: &str) -> (s: String)
    ensures
        s@ == a@ + b@ + c@,
{
    let mut v: Vec<char> = Vec::new();
    push_all(&mut v, a);
    push_all(&mut v, b);
    push_all(&mut v, c);
    string_of(&v)
}

fn cat4(a: &str, b: &str, c: &str, d: &str) -> (s: String)
    ensures
        s@ == a@ + b@ + c@ + d@,
{
    let mut v: Vec<char> = Vec::new();
    push_all(&mut v, a);
    push_all(&mut v, b);
    push_all(&mut v, c);
    push_all(&mut v, d);
    string_of(&v)
}

/// The sentence for one service message.
pub fn service_text(m: &Json, message_link: Option<&str>) -> (s: String)
    ensures
        s@ == service_sentence(*m, match message_link { Some(l) => Some(l@), None => None }),
{
    let raw = text_field(m, "actor");
    let actor = esc(if raw.unicode_len() == 0 { "Someone" } else { raw.as_str() });
    let title = esc(text_field(m, "title").as_str());
    let members = esc(members_text(m).as_str());
    let action = text_field(m, "action");
    let k = chars_of(action.as_str());
    let x = actor.as_str();
    let t = title.as_str();
    let ms = members.as_str();
    if same_chars(&k, &chars_of("create_group")) { cat4(x, " created group &laquo;", t, "&raquo;") }
    else if same_chars(&k, &chars_of("create_channel")) { cat4(x, " created channel &laquo;", t, "&raquo;") }
    else if same_chars(&k, &chars_of("edit_group_title")) { cat4(x, " changed group title to &laquo;", t, "&raquo;") }
    else if same_chars(&k, &chars_of("edit_group_photo")) { cat2(x, " changed group photo") }
    else if same_chars(&k, &chars_of("delete_group_photo")) { cat2(x, " removed group photo") }
    else if same_chars(&k, &chars_of("invite_members")) { cat3(x, " invited ", ms) }
    else if same_chars(&k, &chars_of("remove_members")) { cat3(x, " removed ", ms) }
    else if same_chars(&k, &chars_of("join_group_by_link")) { cat3(x, " joined group by link from ", esc(text_field(m, "inviter").as_str()).as_str()) }
    else if same_chars(&k, &chars_of("join_group_by_request")) { cat2(x, " joined group by request") }
    else if same_chars(&k, &chars_of("pin_message")) {
        match message_link {
            Some(l) => cat3(x, " pinned ", l),
            None => cat2(x, " pinned message"),
        }
    }
    else if same_chars(&k, &chars_of("clear_history")) { crate::strings::owned("History cleared") }
    else if same_chars(&k, &chars_of("phone_call")) { cat2(x, " made a call") }
    else if same_chars(&k, &chars_of("group_call")) { cat2(x, " started a voice chat") }
    else if same_chars(&k, &chars_of("invite_to_group_call")) { cat4(x, " invited ", ms, " to the voice chat") }
    else if same_chars(&k, &chars_of("topic_created")) { cat4(x, " created topic &laquo;", t, "&raquo;") }
    else if same_chars(&k, &chars_of("topic_edit")) { topic_edit_text(x, m) }
    else if same_chars(&k, &chars_of("joined_telegram")) { cat2(x, " joined Telegram") }
    else if same_chars(&k, &chars_of("migrate_to_supergroup")) { crate::strings::owned("Group converted to supergroup") }
    else if same_chars(&k, &chars_of("migrate_from_group")) { cat4(x, " converted a basic group to this supergroup &laquo;", t, "&raquo;") }
    else if same_chars(&k, &chars_of("score_in_game")) { cat4(x, " scored ", esc(text_field(m, "score").as_str()).as_str(), " in a game") }
    else if same_chars(&k, &chars_of("send_payment")) { cat2(x, " sent a payment") }
    else if same_chars(&k, &chars_of("edit_chat_theme")) { cat2(x, " changed chat theme") }
    else if same_chars(&k, &chars_of("set_messages_ttl")) { cat2(x, " changed messages auto-delete period") }
    else if same_chars(&k, &chars_of("suggest_profile_photo")) { cat2(x, " suggested a profile photo") }
    else if same_chars(&k, &chars_of("poll_append_answer")) { cat4(x, " added &quot;", esc(text_field(m, "answer").as_str()).as_str(), "&quot; to the poll.") }
    else if same_chars(&k, &chars_of("poll_delete_answer")) { cat4(x, " removed &quot;", esc(text_field(m, "answer").as_str()).as_str(), "&quot; from the poll.") }
    else { cat3(x, " &mdash; ", esc(action.as_str()).as_str()) }
}

/// The actions a creation is told by differ from every action tried before them.
proof fn lemma_creations_are_told_apart(a: Seq<char>)
    ensures
        a == "create_channel"@ ==> a != "create_group"@,
        a == "edit_group_title"@ ==> a != "create_group"@ && a != "create_channel"@,
        a == "topic_created"@ ==> {
            &&& a != "create_group"@ && a != "create_channel"@ && a != "edit_group_title"@
            &&& a != "edit_group_photo"@ && a != "delete_group_photo"@
            &&& a != "invite_members"@ && a != "remove_members"@
            &&& a != "join_group_by_link"@ && a != "join_group_by_request"@
            &&& a != "pin_message"@ && a != "clear_history"@ && a != "phone_call"@
            &&& a != "group_call"@ && a != "invite_to_group_call"@
        },
{
    reveal_strlit("create_group");
    reveal_strlit("create_channel");
    reveal_strlit("edit_group_title");
    reveal_strlit("topic_created");
    reveal_strlit("edit_group_photo");
    reveal_strlit("delete_group_photo");
    reveal_strlit("invite_members");
    reveal_strlit("remove_members");
    reveal_strlit("join_group_by_link");
    reveal_strlit("join_group_by_request");
    reveal_strlit("pin_message");
    reveal_strlit("clear_history");
    reveal_strlit("phone_call");
    reveal_strlit("group_call");
    reveal_strlit("invite_to_group_call");
    assert("create_group"@.len() == 12 && "create_channel"@.len() == 14 && "edit_group_title"@.len() == 16);
    if a == "topic_created"@ {
        assert(a[0] == 't' && a.len() == 13);
    }
}

/// Who a sentence names as having acted: the escaped actor, or `Someone`.
pub open spec fn acting_name(m: Json) -> Seq<char> {
    let raw = text_of(m, "actor"@);
    esc_text(if raw.len() == 0 { "Someone"@ } else { raw })
}

/// The escaped title in guillemets, as a sentence quotes it.
pub open spec fn quoted_title(m: Json) -> Seq<char> {
    " &laquo;"@ + esc_text(text_of(m, "title"@)) + "&raquo;"@
}

/// A creation is worded by what was created: a channel's creation names a
/// channel, a group's a group and a topic's a topic, each followed by the
/// quoted title; whatever the message link is, it plays no part.
pub proof fn law_a_creation_names_what_was_created(m: Json, link: Option<Seq<char>>)
    ensures
        text_of(m, "action"@) == "create_channel"@ ==>
            service_sentence(m, link) == acting_name(m) + " created channel"@ + quoted_title(m),
        text_of(m, "action"@) == "create_group"@ ==>
            service_sentence(m, link) == acting_name(m) + " created group"@ + quoted_title(m),
        text_of(m, "action"@) == "topic_created"@ ==>
            service_sentence(m, link) == acting_name(m) + " created topic"@ + quoted_title(m),
        text_of(m, "action"@) == "edit_group_title"@ ==>
            service_sentence(m, link) == acting_name(m) + " changed group title to"@ + quoted_title(m),
{
    lemma_creations_are_told_apart(text_of(m, "action"@));
    reveal_strlit(" created channel &laquo;");
    reveal_strlit(" created channel");
    reveal_strlit(" created group &laquo;");
    reveal_strlit(" created group");
    reveal_strlit(" created topic &laquo;");
    reveal_strlit(" created topic");
    reveal_strlit(" changed group title to &laquo;");
    reveal_strlit(" changed group title to");
    reveal_strlit(" &laquo;");
    let a = acting_name(m);
    let t = esc_text(text_of(m, "title"@));
    let r = "&raquo;"@;
    assert(a + " created channel &laquo;"@ + t + r =~= a + " created channel"@ + (" &laquo;"@ + t + r));
    assert(a + " created group &laquo;"@ + t + r =~= a + " created group"@ + (" &laquo;"@ + t + r));
    assert(a + " created topic &laquo;"@ + t + r =~= a + " created topic"@ + (" &laquo;"@ + t + r));
    assert(a + " changed group title to &laquo;"@ + t + r =~= a + " changed group title to"@ + (" &laquo;"@ + t + r));
}


/// The actions Desktop words a sentence for.
pub open spec fn known_action(a: Seq<char>) -> bool {
    a == "create_group"@ || a == "create_channel"@ || a == "edit_group_title"@
        || a == "edit_group_photo"@ || a == "delete_group_photo"@ || a == "invite_members"@
        || a == "remove_members"@ || a == "join_group_by_link"@ || a == "join_group_by_request"@
        || a == "pin_message"@ || a == "clear_history"@ || a == "phone_call"@
        || a == "group_call"@ || a == "invite_to_group_call"@ || a == "topic_created"@
        || a == "topic_edit"@ || a == "joined_telegram"@ || a == "migrate_to_supergroup"@
        || a == "migrate_from_group"@ || a == "score_in_game"@ || a == "send_payment"@
        || a == "edit_chat_theme"@ || a == "set_messages_ttl"@ || a == "suggest_profile_photo"@
        || a == "poll_append_answer"@ || a == "poll_delete_answer"@
}

/// Each action is worded by its own phrase: who acted, then what was done,
/// with the members, inviter, score or answer it names, escaped. An action
/// Desktop has no words for is named after a dash rather than dropped.
pub proof fn law_each_action_is_worded_by_its_own_phrase(m: Json, link: Option<Seq<char>>)
    ensures
        text_of(m, "action"@) == "edit_group_photo"@ ==> service_sentence(m, link) == acting_name(m) + " changed group photo"@,
        text_of(m, "action"@) == "delete_group_photo"@ ==> service_sentence(m, link) == acting_name(m) + " removed group photo"@,
        text_of(m, "action"@) == "join_group_by_request"@ ==> service_sentence(m, link) == acting_name(m) + " joined group by request"@,
        text_of(m, "action"@) == "phone_call"@ ==> service_sentence(m, link) == acting_name(m) + " made a call"@,
        text_of(m, "action"@) == "group_call"@ ==> service_sentence(m, link) == acting_name(m) + " started a voice chat"@,
        text_of(m, "action"@) == "joined_telegram"@ ==> service_sentence(m, link) == acting_name(m) + " joined Telegram"@,
        text_of(m, "action"@) == "send_payment"@ ==> service_sentence(m, link) == acting_name(m) + " sent a payment"@,
        text_of(m, "action"@) == "edit_chat_theme"@ ==> service_sentence(m, link) == acting_name(m) + " changed chat theme"@,
        text_of(m, "action"@) == "set_messages_ttl"@ ==> service_sentence(m, link) == acting_name(m) + " changed messages auto-delete period"@,
        text_of(m, "action"@) == "suggest_profile_photo"@ ==> service_sentence(m, link) == acting_name(m) + " suggested a profile photo"@,
        text_of(m, "action"@) == "clear_history"@ ==> service_sentence(m, link) == "History cleared"@,
        text_of(m, "action"@) == "migrate_to_supergroup"@ ==> service_sentence(m, link) == "Group converted to supergroup"@,
        text_of(m, "action"@) == "invite_members"@ ==> service_sentence(m, link) == acting_name(m) + " invited "@ + esc_text(members_of(m)),
        text_of(m, "action"@) == "remove_members"@ ==> service_sentence(m, link) == acting_name(m) + " removed "@ + esc_text(members_of(m)),
        text_of(m, "action"@) == "invite_to_group_call"@ ==> service_sentence(m, link) == acting_name(m) + " invited "@ + esc_text(members_of(m)) + " to the voice chat"@,
        text_of(m, "action"@) == "join_group_by_link"@ ==> service_sentence(m, link) == acting_name(m) + " joined group by link from "@ + esc_text(text_of(m, "inviter"@)),
        text_of(m, "action"@) == "pin_message"@ ==> service_sentence(m, link) == match link { Some(l) => acting_name(m) + " pinned "@ + l, None => acting_name(m) + " pinned message"@ },
        text_of(m, "action"@) == "migrate_from_group"@ ==> service_sentence(m, link) == acting_name(m) + " converted a basic group to this supergroup &laquo;"@ + esc_text(text_of(m, "title"@)) + "&raquo;"@,
        text_of(m, "action"@) == "score_in_game"@ ==> service_sentence(m, link) == acting_name(m) + " scored "@ + esc_text(text_of(m, "score"@)) + " in a game"@,
        text_of(m, "action"@) == "poll_append_answer"@ ==> service_sentence(m, link) == acting_name(m) + " added &quot;"@ + esc_text(text_of(m, "answer"@)) + "&quot; to the poll."@,
        text_of(m, "action"@) == "poll_delete_answer"@ ==> service_sentence(m, link) == acting_name(m) + " removed &quot;"@ + esc_text(text_of(m, "answer"@)) + "&quot; from the poll."@,
        text_of(m, "action"@) == "topic_edit"@ ==> service_sentence(m, link) == topic_edit_of(acting_name(m), m),
        !known_action(text_of(m, "action"@)) ==> service_sentence(m, link) == acting_name(m) + " &mdash; "@ + esc_text(text_of(m, "action"@)),
{
    let a = text_of(m, "action"@);
    reveal_strlit("create_group");
    reveal_strlit("create_channel");
    reveal_strlit("edit_group_title");
    reveal_strlit("edit_group_photo");
    reveal_strlit("delete_group_photo");
    reveal_strlit("invite_members");
    reveal_strlit("remove_members");
    reveal_strlit("join_group_by_link");
    reveal_strlit("join_group_by_request");
    reveal_strlit("pin_message");
    reveal_strlit("clear_history");
    reveal_strlit("phone_call");
    reveal_strlit("group_call");
    reveal_strlit("invite_to_group_call");
    reveal_strlit("topic_created");
    reveal_strlit("topic_edit");
    reveal_strlit("joined_telegram");
    reveal_strlit("migrate_to_supergroup");
    reveal_strlit("migrate_from_group");
    reveal_strlit("score_in_game");
    reveal_strlit("send_payment");
    reveal_strlit("edit_chat_theme");
    reveal_strlit("set_messages_ttl");
    reveal_strlit("suggest_profile_photo");
    reveal_strlit("poll_append_answer");
    reveal_strlit("poll_delete_answer");
    if a == "create_group"@ {
        assert(a.len() == 12 && a[0] == 'c');
    }
    if a == "create_channel"@ {
        assert(a.len() == 14 && a[0] == 'c');
    }
    if a == "edit_group_title"@ {
        assert(a.len() == 16 && a[0] == 'e');
    }
    if a == "edit_group_photo"@ {
        assert(a.len() == 16 && a[0] == 'e' && a[11] == 'p');
    }
    if a == "delete_group_photo"@ {
        assert(a.len() == 18 && a[0] == 'd');
    }
    if a == "invite_members"@ {
        assert(a.len() == 14 && a[0] == 'i');
    }
    if a == "remove_members"@ {
        assert(a.len() == 14 && a[0] == 'r');
    }
    if a == "join_group_by_link"@ {
        assert(a.len() == 18 && a[0] == 'j');
    }
    if a == "join_group_by_request"@ {
        assert(a.len() == 21 && a[0] == 'j');
    }
    if a == "pin_message"@ {
        assert(a.len() == 11 && a[0] == 'p');
    }
    if a == "clear_history"@ {
        assert(a.len() == 13 && a[0] == 'c');
    }
    if a == "phone_call"@ {
        assert(a.len() == 10 && a[0] == 'p');
    }
    if a == "group_call"@ {
        assert(a.len() == 10 && a[0] == 'g');
    }
    if a == "invite_to_group_call"@ {
        assert(a.len() == 20 && a[0] == 'i');
    }
    if a == "topic_created"@ {
        assert(a.len() == 13 && a[0] == 't');
    }
    if a == "topic_edit"@ {
        assert(a.len() == 10 && a[0] == 't');
    }
    if a == "joined_telegram"@ {
        assert(a.len() == 15 && a[0] == 'j');
    }
    if a == "migrate_to_supergroup"@ {
        assert(a.len() == 21 && a[0] == 'm');
    }
    if a == "migrate_from_group"@ {
        assert(a.len() == 18 && a[0] == 'm');
    }
    if a == "score_in_game"@ {
        assert(a.len() == 13 && a[0] == 's');
    }
    if a == "send_payment"@ {
        assert(a.len() == 12 && a[0] == 's');
    }
    if a == "edit_chat_theme"@ {
        assert(a.len() == 15 && a[0] == 'e');
    }
    if a == "set_messages_ttl"@ {
        assert(a.len() == 16 && a[0] == 's');
    }
    if a == "suggest_profile_photo"@ {
        assert(a.len() == 21 && a[0] == 's');
    }
    if a == "poll_append_answer"@ {
        assert(a.len() == 18 && a[0] == 'p');
    }
    if a == "poll_delete_answer"@ {
        assert(a.len() == 18 && a[0] == 'p' && a[5] == 'd');
    }
}

} // verus!
