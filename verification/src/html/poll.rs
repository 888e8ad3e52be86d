//! Polls.
//!
//! The tally is appended only when someone voted for that answer, and the
//! total's class name carries Desktop's stray tab, escaped as `&#x09;`.

use vstd::prelude::*;
use crate::format::value::{bool_of, get, lenient_int, lenient_int_field, str_or_empty, Json};
use crate::html::escape::{esc, esc_text};
use crate::html::page::attr1;
use crate::html::tree::{a, close_step, leaf_step, open_step, pair_views, Tree, TreeState};
use crate::strings::{int_text, push_all, push_int, string_of};

verus! {

/// `1 vote`, `0 votes`, `-2 votes`.
pub open spec fn counted(n: int, word: Seq<char>) -> Seq<char> {
    int_text(n) + seq![' '] + word + if n == 1 { Seq::<char>::empty() } else { seq!['s'] }
}

fn counted_string(n: i64, word: &str) -> (s: String)
    ensures
        s@ == counted(n as int, word@),
{
    let mut v: Vec<char> = Vec::new();
    push_int(&mut v, n);
    v.push(' ');
    push_all(&mut v, word);
    if n != 1 {
        v.push('s');
    }
    assert(v@ == counted(n as int, word@));
    string_of(&v)
}

/// One answer's line: `- text`, and the tally when anyone voted for it.
pub open spec fn answer_line(answer: Json) -> Seq<char> {
    let votes = lenient_int(get(answer, "voters"@));
    let text = str_or_empty(get(answer, "text"@));
    let label = counted(votes, "vote"@) + if bool_of(get(answer, "chosen"@)) == Some(true) {
        ", chosen vote"@
    } else {
        Seq::empty()
    };
    esc_text("- "@ + text) + if votes != 0 {
        " <span class=\"details\">"@ + esc_text(label) + "</span>"@
    } else {
        Seq::empty()
    }
}

/// The answers that are objects, one line each.
pub open spec fn answers_step(t: TreeState, answers: Seq<Json>) -> TreeState
    decreases answers.len(),
{
    if answers.len() == 0 {
        t
    } else {
        let before = answers_step(t, answers.drop_last());
        if answers.last() is Object {
            leaf_step(before, "div"@, answer_line(answers.last()), attr1("class"@, "answer"@))
        } else {
            before
        }
    }
}

/// A poll: the question, `Anonymous poll`, the answers and the total.
pub open spec fn poll_step(t: TreeState, poll: Json) -> TreeState {
    let t1 = open_step(t, "div"@, attr1("class"@, "media_wrap clearfix"@));
    let t2 = open_step(t1, "div"@, attr1("class"@, "media_poll"@));
    let t3 = leaf_step(t2, "div"@, esc_text(str_or_empty(get(poll, "question"@))), attr1("class"@, "question bold"@));
    let t4 = leaf_step(t3, "div"@, "Anonymous poll"@, attr1("class"@, "details"@));
    let t5 = match get(poll, "answers"@) {
        Some(Json::Array(items)) => answers_step(t4, items@),
        _ => t4,
    };
    let t6 = leaf_step(t5, "div"@, esc_text(counted(lenient_int(get(poll, "total_voters"@)), "vote"@)), attr1("class"@, "total details\t"@));
    close_step(close_step(t6, "div"@), "div"@)
}

fn answer_text(answer: &Json) -> (s: String)
    ensures
        s@ == answer_line(*answer),
{
    let votes = lenient_int_field(answer, "voters");
    let text = crate::format::value::str_field(answer, "text");
    let mut line: Vec<char> = Vec::new();
    push_all(&mut line, "- ");
    push_all(&mut line, text.as_str());
    let shown = string_of(&line);
    let mut out: Vec<char> = Vec::new();
    push_all(&mut out, esc(shown.as_str()).as_str());
    if votes != 0 {
        let mut label: Vec<char> = Vec::new();
        push_all(&mut label, counted_string(votes, "vote").as_str());
        let chosen = match answer.get("chosen") {
            Some(c) => c.as_bool(),
            None => None,
        };
        if chosen == Some(true) {
            push_all(&mut label, ", chosen vote");
        }
        let label = string_of(&label);
        push_all(&mut out, " <span class=\"details\">");
        push_all(&mut out, esc(label.as_str()).as_str());
        push_all(&mut out, "</span>");
    }
    string_of(&out)
}

pub fn render(t: &mut Tree, poll: &Json)
    requires
        old(t)@.1 + 4 < usize::MAX,
    ensures
        final(t)@ == poll_step(old(t)@, *poll),
        final(t)@.1 == old(t)@.1,
{
    let at = [a("class", "media_wrap clearfix")];
    assert(pair_views(at@) =~= attr1("class"@, "media_wrap clearfix"@));
    t.open("div", &at);
    let at = [a("class", "media_poll")];
    assert(pair_views(at@) =~= attr1("class"@, "media_poll"@));
    t.open("div", &at);
    let question = crate::format::value::str_field(poll, "question");
    let at = [a("class", "question bold")];
    assert(pair_views(at@) =~= attr1("class"@, "question bold"@));
    t.leaf("div", esc(question.as_str()).as_str(), &at);
    let at = [a("class", "details")];
    assert(pair_views(at@) =~= attr1("class"@, "details"@));
    t.leaf("div", "Anonymous poll", &at);
    let ghost t4 = t@;
    match poll.get("answers") {
        Some(Json::Array(items)) => {
            let mut i: usize = 0;
            while i < items.len()
                invariant
                    i <= items@.len(),
                    t@.1 == t4.1,
                    t4.1 + 2 < usize::MAX,
                    t@ == answers_step(t4, items@.take(i as int)),
                decreases items.len() - i,
            {
                assert(items@.take(i + 1).drop_last() == items@.take(i as int));
                if let Json::Object(_) = &items[i] {
                    let line = answer_text(&items[i]);
                    let at = [a("class", "answer")];
                    assert(pair_views(at@) =~= attr1("class"@, "answer"@));
                    t.leaf("div", line.as_str(), &at);
                }
                i += 1;
            }
            assert(items@.take(items@.len() as int) == items@);
        },
        _ => {},
    }
    let total = lenient_int_field(poll, "total_voters");
    let at = [a("class", "total details\t")];
    assert(pair_views(at@) =~= attr1("class"@, "total details\t"@));
    t.leaf("div", esc(counted_string(total, "vote").as_str()).as_str(), &at);
    t.close("div");
    t.close("div");
}

} // verus!
