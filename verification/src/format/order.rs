//! Desktop's key order, recovered from a reference export.
//!
//! Key order is part of the format: Desktop's JSON is pretty-printed, so a
//! differently ordered map produces a file that diffs against a real export
//! on nearly every line.

use vstd::prelude::*;
use crate::format::value::Json;
use crate::strings::{
    chars_of, compare_chars, lemma_lex_asymmetric, lemma_lex_irreflexive, lemma_lex_total,
    lemma_lex_transitive, lex_lt, same_chars,
};

verus! {

/// Desktop's own sequence.
pub const DESKTOP_ORDER: [&'static str; 61] = [
    "id",
    "type",
    "date",
    "date_unixtime",
    "edited",
    "edited_unixtime",
    "from",
    "from_id",
    "author",
    "forwarded_from",
    "forwarded_from_id",
    "saved_from",
    "via_bot",
    "reply_to_message_id",
    "reply_to_peer_id",
    "actor",
    "actor_id",
    "action",
    "title",
    "new_title",
    "message_id",
    "members",
    "inviter",
    "icon_emoji_id",
    "new_icon_emoji_id",
    "closed",
    "hidden",
    "emoticon",
    "period",
    "score",
    "game_message_id",
    "amount",
    "currency",
    "discard_reason",
    "file",
    "file_name",
    "file_size",
    "thumbnail",
    "thumbnail_file_size",
    "media_type",
    "sticker_emoji",
    "mime_type",
    "performer",
    "photo",
    "photo_file_size",
    "duration_seconds",
    "width",
    "height",
    "contact_information",
    "contact_vcard",
    "location_information",
    "live_location_period_seconds",
    "place_name",
    "address",
    "poll",
    "game_title",
    "game_description",
    "game_link",
    "invoice_information",
    "dice_emoji",
    "dice_value",
];

/// Keys Desktop's exporter never writes, carrying data Telegram did send.
/// They sit after every Desktop key and before the text.
pub const EXTRA_ORDER: [&'static str; 60] = [
    "outgoing",
    "channel_post",
    "pinned",
    "silent",
    "noforwards",
    "invert_media",
    "edit_hide",
    "offline",
    "mentioned",
    "media_unread",
    "from_scheduled",
    "from_rank",
    "from_boosts_applied",
    "paid_message_stars",
    "ttl_period",
    "effect_id",
    "views",
    "forwards",
    "replies_count",
    "restriction_reason",
    "fact_check",
    "grouped_id",
    "inline_buttons",
    "forwarded_date",
    "forwarded_date_unixtime",
    "forwarded_channel_post",
    "forwarded_post_author",
    "forwarded_imported",
    "forwarded_psa_type",
    "reply_to_quote",
    "reply_to_quote_entities",
    "reply_to_quote_offset",
    "message",
    "to",
    "boosts",
    "distance",
    "days",
    "slug",
    "stars",
    "via_giveaway",
    "winners_count",
    "unclaimed_count",
    "answer",
    "tasks",
    "completed",
    "incompleted",
    "gift_flags",
    "spoiler",
    "ttl_seconds",
    "stripped_thumbnail",
    "sticker_set",
    "voice_waveform",
    "has_video_cover",
    "alt_documents_count",
    "link_preview",
    "giveaway_information",
    "story_information",
    "paid_media_information",
    "todo_list",
    "video_stream_information",
];

/// `text` / `text_entities` / `reactions` always trail, in that order.
pub const TAIL_ORDER: [&'static str; 3] = [
    "text",
    "text_entities",
    "reactions",
];

/// Every ranked key, in rank order, as character sequences.
pub open spec fn ranked_keys() -> Seq<Seq<char>> {
    (DESKTOP_ORDER@ + EXTRA_ORDER@ + TAIL_ORDER@).map_values(|k: &str| k@)
}

/// The index of the first occurrence of `k` in `keys`, or `keys.len()` when
/// it is absent.
pub open spec fn first_index_of(keys: Seq<Seq<char>>, k: Seq<char>) -> int
    decreases keys.len(),
{
    if keys.len() == 0 {
        0
    } else if keys[0] == k {
        0
    } else {
        1 + first_index_of(keys.drop_first(), k)
    }
}

/// A key's rank: its position among the ranked keys, with every unlisted key
/// sharing the rank just past the last one.
pub open spec fn rank_of(key: Seq<char>) -> int {
    first_index_of(ranked_keys(), key)
}

proof fn lemma_first_index(keys: Seq<Seq<char>>, k: Seq<char>, i: int)
    requires
        0 <= i <= keys.len(),
        forall|j: int| 0 <= j < i ==> #[trigger] keys[j] != k,
        i == keys.len() || keys[i] == k,
    ensures
        first_index_of(keys, k) == i,
    decreases i,
{
    if i > 0 {
        let t = keys.drop_first();
        assert forall|j: int| 0 <= j < i - 1 implies #[trigger] t[j] != k by {
            assert(t[j] == keys[j + 1]);
        }
        if i < keys.len() {
            assert(t[i - 1] == keys[i]);
        }
        lemma_first_index(t, k, i - 1);
    }
}

/// Look `key` up in `arr`; `arr.len()` when it is not there.
fn scan<const N: usize>(arr: &[&'static str; N], key: &Vec<char>) -> (r: usize)
    ensures
        r <= N,
        forall|j: int| 0 <= j < r ==> #[trigger] arr@[j]@ != key@,
        r < N ==> arr@[r as int]@ == key@,
{
    let mut i: usize = 0;
    while i < N
        invariant
            i <= N,
            arr@.len() == N,
            forall|j: int| 0 <= j < i ==> #[trigger] arr@[j]@ != key@,
        decreases N - i,
    {
        let e = chars_of(arr[i]);
        if same_chars(&e, key) {
            return i;
        }
        i += 1;
    }
    i
}

/// Total number of ranked keys; anything unlisted sorts here.
pub fn tail_rank() -> (n: usize)
    ensures
        n == ranked_keys().len(),
        n == 124,
{
    DESKTOP_ORDER.len() + EXTRA_ORDER.len() + TAIL_ORDER.len()
}

/// Rank of a key, for sorting.
pub fn rank(key: &str) -> (r: usize)
    ensures
        r == rank_of(key@),
        r <= 124,
{
    let k = chars_of(key);
    let ghost all = DESKTOP_ORDER@ + EXTRA_ORDER@ + TAIL_ORDER@;
    let ghost keys = ranked_keys();
    assert(keys.len() == 124);
    assert forall|j: int| 0 <= j < 124 implies #[trigger] keys[j] == all[j]@ by {}
    let d = scan(&DESKTOP_ORDER, &k);
    if d < 61 {
        proof {
            assert forall|j: int| 0 <= j < d implies #[trigger] keys[j] != key@ by {
                assert(keys[j] == DESKTOP_ORDER@[j]@);
            }
            assert(keys[d as int] == DESKTOP_ORDER@[d as int]@);
            lemma_first_index(keys, key@, d as int);
        }
        return d;
    }
    let e = scan(&EXTRA_ORDER, &k);
    if e < 60 {
        proof {
            assert forall|j: int| 0 <= j < 61 + e implies #[trigger] keys[j] != key@ by {
                if j < 61 {
                    assert(keys[j] == DESKTOP_ORDER@[j]@);
                } else {
                    assert(keys[j] == EXTRA_ORDER@[j - 61]@);
                }
            }
            assert(keys[61 + e] == EXTRA_ORDER@[e as int]@);
            lemma_first_index(keys, key@, 61 + e);
        }
        return 61 + e;
    }
    let t = scan(&TAIL_ORDER, &k);
    proof {
        assert forall|j: int| 0 <= j < 121 + t implies #[trigger] keys[j] != key@ by {
            if j < 61 {
                assert(keys[j] == DESKTOP_ORDER@[j]@);
            } else if j < 121 {
                assert(keys[j] == EXTRA_ORDER@[j - 61]@);
            } else {
                assert(keys[j] == TAIL_ORDER@[j - 121]@);
            }
        }
        if t < 3 {
            assert(keys[121 + t] == TAIL_ORDER@[t as int]@);
        }
        lemma_first_index(keys, key@, 121 + t);
    }
    121 + t
}

/// Does key `a` sort before key `b`: a lower rank, or the same rank and
/// alphabetically first.
pub open spec fn key_before(a: Seq<char>, b: Seq<char>) -> bool {
    rank_of(a) < rank_of(b) || (rank_of(a) == rank_of(b) && lex_lt(a, b))
}

proof fn lemma_before_asym(a: Seq<char>, b: Seq<char>)
    ensures
        key_before(a, b) ==> !key_before(b, a),
{
    lemma_lex_asymmetric(a, b);
}

/// Not sorting after is transitive, and strictly before then not after is
/// strictly before.
proof fn lemma_before_trans(a: Seq<char>, b: Seq<char>, c: Seq<char>)
    ensures
        !key_before(b, a) && !key_before(c, b) ==> !key_before(c, a),
        key_before(a, b) && !key_before(c, b) ==> key_before(a, c),
{
    lemma_lex_total(a, b);
    lemma_lex_total(b, c);
    lemma_lex_total(a, c);
    lemma_lex_irreflexive(a);
    lemma_lex_asymmetric(a, c);
    lemma_lex_asymmetric(a, b);
    lemma_lex_asymmetric(b, c);
    if lex_lt(a, b) && lex_lt(b, c) {
        lemma_lex_transitive(a, b, c);
    }
}

/// A permutation of `0..n`, in key order, equal keys in their first order.
pub open spec fn sorted_perm(p: Seq<usize>, keys: Seq<Seq<char>>) -> bool {
    &&& p.len() == keys.len()
    &&& forall|k: int| 0 <= k < p.len() ==> #[trigger] p[k] < keys.len()
    &&& forall|a: int, b: int| 0 <= a < b < p.len() ==> #[trigger] p[a] != #[trigger] p[b]
    &&& forall|a: int, b: int| 0 <= a < b < p.len() ==> !key_before(keys[p[b] as int], keys[p[a] as int])
}

/// The positions of `keys` in key order.
fn key_order(keys: &Vec<Vec<char>>, ranks: &Vec<usize>) -> (p: Vec<usize>)
    requires
        ranks@.len() == keys@.len(),
        forall|k: int| 0 <= k < keys@.len() ==> #[trigger] ranks@[k] == rank_of(keys@[k]@),
    ensures
        sorted_perm(p@, keys@.map_values(|k: Vec<char>| k@)),
{
    let ghost kv = keys@.map_values(|k: Vec<char>| k@);
    let mut out: Vec<usize> = Vec::new();
    let mut i: usize = 0;
    while i < keys.len()
        invariant
            i <= keys@.len(),
            kv == keys@.map_values(|k: Vec<char>| k@),
            ranks@.len() == keys@.len(),
            forall|k: int| 0 <= k < keys@.len() ==> #[trigger] ranks@[k] == rank_of(keys@[k]@),
            out@.len() == i,
            forall|k: int| 0 <= k < out@.len() ==> #[trigger] out@[k] < i,
            forall|a: int, b: int| 0 <= a < b < out@.len() ==> #[trigger] out@[a] != #[trigger] out@[b],
            forall|a: int, b: int| 0 <= a < b < out@.len() ==> !key_before(kv[out@[b] as int], kv[out@[a] as int]),
        decreases keys.len() - i,
    {
        let ghost ki = kv[i as int];
        let mut pos: usize = 0;
        while pos < out.len() && !(ranks[i] < ranks[out[pos]] || (ranks[i] == ranks[out[pos]] && compare_chars(&keys[i], &keys[out[pos]]) == -1))
            invariant
                pos <= out@.len(),
                i < keys@.len(),
                kv == keys@.map_values(|k: Vec<char>| k@),
                ranks@.len() == keys@.len(),
                forall|k: int| 0 <= k < keys@.len() ==> #[trigger] ranks@[k] == rank_of(keys@[k]@),
                forall|k: int| 0 <= k < out@.len() ==> #[trigger] out@[k] < i,
                forall|k: int| 0 <= k < pos ==> !key_before(ki, kv[#[trigger] out@[k] as int]),
                ki == kv[i as int],
            decreases out.len() - pos,
        {
            assert(kv[out@[pos as int] as int] == keys@[out@[pos as int] as int]@);
            pos += 1;
        }
        let ghost old_out = out@;
        if pos < out.len() {
            assert(kv[out@[pos as int] as int] == keys@[out@[pos as int] as int]@);
            assert(key_before(ki, kv[out@[pos as int] as int]));
        }
        out.insert(pos, i);
        proof {
            let o = out@;
            assert(o == old_out.insert(pos as int, i));
            assert forall|a: int, b: int| 0 <= a < b < o.len() implies !key_before(kv[o[b] as int], kv[o[a] as int]) by {
                if b < pos {
                    assert(o[a] == old_out[a] && o[b] == old_out[b]);
                } else if b == pos {
                    assert(o[a] == old_out[a]);
                    assert(o[b] == i);
                } else if a == pos {
                    assert(o[b] == old_out[b - 1]);
                    assert(o[a] == i);
                    let x = kv[old_out[pos as int] as int];
                    let y = kv[old_out[b - 1] as int];
                    if b - 1 > pos {
                        assert(!key_before(y, x));
                    }
                    lemma_before_trans(ki, x, y);
                    lemma_before_asym(ki, y);
                } else if a < pos {
                    assert(o[a] == old_out[a] && o[b] == old_out[b - 1]);
                } else {
                    assert(o[a] == old_out[a - 1] && o[b] == old_out[b - 1]);
                }
            }
            assert forall|a: int, b: int| 0 <= a < b < o.len() implies #[trigger] o[a] != #[trigger] o[b] by {
                if a < pos && b < pos {
                    assert(o[a] == old_out[a] && o[b] == old_out[b]);
                } else if a < pos && b == pos {
                    assert(o[a] == old_out[a]);
                } else if a < pos {
                    assert(o[a] == old_out[a] && o[b] == old_out[b - 1]);
                } else if a == pos {
                    assert(o[b] == old_out[b - 1]);
                } else {
                    assert(o[a] == old_out[a - 1] && o[b] == old_out[b - 1]);
                }
            }
            assert forall|k: int| 0 <= k < o.len() implies #[trigger] o[k] < i + 1 by {
                if k < pos {
                    assert(o[k] == old_out[k]);
                } else if k > pos {
                    assert(o[k] == old_out[k - 1]);
                }
            }
        }
        i += 1;
    }
    out
}

/// The names of a message's members, in order.
pub open spec fn entry_keys(fields: Seq<(String, Json)>) -> Seq<Seq<char>> {
    fields.map_values(|e: (String, Json)| e.0@)
}

/// A message's members re-keyed into Desktop's order: by rank, then
/// alphabetically among the unlisted keys, which land after `reactions`.
/// The entries themselves are moved, never rebuilt.
pub fn ordered(fields: Vec<(String, Json)>) -> (out: Vec<(String, Json)>)
    ensures
        exists|p: Seq<usize>| #[trigger] sorted_perm(p, entry_keys(fields@))
            && out@.len() == fields@.len()
            && forall|k: int| 0 <= k < out@.len() ==> #[trigger] out@[k] == fields@[p[k] as int],
{
    let ghost fv = fields@;
    let mut keys: Vec<Vec<char>> = Vec::new();
    let mut ranks: Vec<usize> = Vec::new();
    let mut i: usize = 0;
    while i < fields.len()
        invariant
            i <= fields@.len(),
            keys@.len() == i,
            ranks@.len() == i,
            forall|k: int| 0 <= k < i ==> #[trigger] keys@[k]@ == fields@[k].0@,
            forall|k: int| 0 <= k < i ==> #[trigger] ranks@[k] == rank_of(keys@[k]@),
        decreases fields.len() - i,
    {
        let k = chars_of(fields[i].0.as_str());
        ranks.push(rank(fields[i].0.as_str()));
        keys.push(k);
        i += 1;
    }
    let p = key_order(&keys, &ranks);
    assert(keys@.map_values(|k: Vec<char>| k@) =~= entry_keys(fields@));
    let mut slots: Vec<Option<(String, Json)>> = Vec::new();
    let mut rest = fields;
    assert(fv.skip(0) =~= fv);
    while rest.len() > 0
        invariant
            slots@.len() + rest@.len() == fv.len(),
            rest@ == fv.skip(slots@.len() as int),
            forall|k: int| 0 <= k < slots@.len() ==> #[trigger] slots@[k] == Some(fv[k]),
        decreases rest.len(),
    {
        let ghost before = rest@;
        let e = rest.remove(0);
        assert(e == fv[slots@.len() as int]);
        slots.push(Some(e));
        assert(rest@ =~= fv.skip(slots@.len() as int));
    }
    assert(slots@.len() == fv.len());
    let mut out: Vec<(String, Json)> = Vec::new();
    let mut k: usize = 0;
    while k < p.len()
        invariant
            k <= p@.len(),
            sorted_perm(p@, entry_keys(fv)),
            slots@.len() == fv.len(),
            out@.len() == k,
            forall|x: int| 0 <= x < k ==> #[trigger] out@[x] == fv[p@[x] as int],
            forall|x: int| k <= x < p@.len() ==> #[trigger] slots@[p@[x] as int] == Some(fv[p@[x] as int]),
        decreases p.len() - k,
    {
        let at = p[k];
        let ghost before = slots@;
        proof {
            assert(before[at as int] == Some(fv[at as int]));
        }
        let taken = slots.remove(at);
        slots.insert(at, None);
        assert(slots@ =~= before.update(at as int, None));
        match taken {
            Some(e) => {
                out.push(e);
            },
            None => {
                assert(false);
            },
        }
        proof {
            assert forall|x: int| k + 1 <= x < p@.len() implies #[trigger] slots@[p@[x] as int] == Some(fv[p@[x] as int]) by {
                assert(p@[x] != p@[k as int]);
            }
        }
        k += 1;
    }
    out
}

} // verus!
