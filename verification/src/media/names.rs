//! Filenames, and the claiming discipline that keeps two files off one path.
//!
//! 1. A name is reserved for every message carrying media, written or not.
//! 2. Each synthesised prefix has its own counter.
//! 3. A file Telegram named leaves every counter alone but is still claimed.
//! 4. The collision suffix is claimed only when the file is written.

use vstd::prelude::*;
use vstd::hash_map::StringHashMap;
use vstd::hash_set::StringHashSet;
use crate::strings::{
    chars_of, dec, find, find_char, lowercase, owned, push_all, push_dec, push_seq, rfind,
    rfind_char, same_chars, string_of, string_of_range, to_lower, to_upper, trim, trim_bounds,
    uppercase,
};

verus! {

/// Characters Windows refuses in a path component.
pub open spec fn is_illegal(c: char) -> bool {
    c == '<' || c == '>' || c == ':' || c == '"' || c == '/' || c == '\\' || c == '|' || c == '?'
        || c == '*' || (c as u32) < 0x20
}

pub fn is_illegal_char(c: char) -> (b: bool)
    ensures
        b == is_illegal(c),
{
    c == '<' || c == '>' || c == ':' || c == '"' || c == '/' || c == '\\' || c == '|' || c == '?'
        || c == '*' || (c as u32) < 0x20
}

/// Every illegal character replaced by `_`.
pub open spec fn replace_illegal(s: Seq<char>) -> Seq<char> {
    s.map_values(|c: char| if is_illegal(c) { '_' } else { c })
}

/// Trailing dots and spaces removed, as `trim_end_matches(['.', ' '])`.
pub open spec fn strip_dots(s: Seq<char>) -> Seq<char>
    decreases s.len(),
{
    if s.len() > 0 && (s.last() == '.' || s.last() == ' ') {
        strip_dots(s.drop_last())
    } else {
        s
    }
}

/// The names Windows reserves, in upper case.
pub const RESERVED_NAMES: [&'static str; 22] = [
    "CON", "PRN", "AUX", "NUL", "COM1", "COM2", "COM3", "COM4", "COM5", "COM6", "COM7", "COM8",
    "COM9", "LPT1", "LPT2", "LPT3", "LPT4", "LPT5", "LPT6", "LPT7", "LPT8", "LPT9",
];

pub open spec fn is_reserved_name(upper: Seq<char>) -> bool {
    exists|i: int| 0 <= i < 22 && #[trigger] RESERVED_NAMES@[i]@ == upper
}

/// Is this (already upper-cased) name one Windows reserves?
pub fn is_reserved_upper(upper: &str) -> (b: bool)
    ensures
        b == is_reserved_name(upper@),
{
    let u = chars_of(upper);
    let mut i: usize = 0;
    while i < 22
        invariant
            i <= 22,
            u@ == upper@,
            forall|k: int| 0 <= k < i ==> #[trigger] RESERVED_NAMES@[k]@ != upper@,
        decreases 22 - i,
    {
        if same_chars(&chars_of(RESERVED_NAMES[i]), &u) {
            return true;
        }
        i += 1;
    }
    false
}

/// The last step of making a path component: escape a reserved name with a
/// leading `_`, cut to `limit` characters, and drop the trailing dots and
/// spaces the cut may have exposed, falling back when nothing is left.
pub open spec fn finished(trimmed: Seq<char>, reserved: bool, limit: nat, fallback: Seq<char>) -> Seq<char> {
    let cand = if reserved { seq!['_'] + trimmed } else { trimmed };
    let cut = if cand.len() > limit { cand.take(limit as int) } else { cand };
    let out = strip_dots(cut);
    if out.len() == 0 { fallback } else { out }
}

proof fn lemma_strip_dots(s: Seq<char>, j: int)
    requires
        0 <= j <= s.len(),
        forall|k: int| j <= k < s.len() ==> (#[trigger] s[k] == '.' || s[k] == ' '),
        j == 0 || !(s[j - 1] == '.' || s[j - 1] == ' '),
    ensures
        strip_dots(s) == s.take(j),
    decreases s.len() - j,
{
    if j == s.len() {
        assert(s.take(j) == s);
    } else {
        let t = s.drop_last();
        assert forall|k: int| j <= k < t.len() implies (#[trigger] t[k] == '.' || t[k] == ' ') by {
            assert(t[k] == s[k]);
        }
        lemma_strip_dots(t, j);
        assert(t.take(j) == s.take(j));
    }
}

/// The length `strip_dots` keeps.
fn strip_dots_len(v: &Vec<char>, n: usize) -> (j: usize)
    requires
        n <= v.len(),
    ensures
        j <= n,
        strip_dots(v@.take(n as int)) == v@.take(j as int),
{
    let mut j: usize = n;
    while j > 0 && (v[j - 1] == '.' || v[j - 1] == ' ')
        invariant
            j <= n <= v.len(),
            forall|k: int| j <= k < n ==> (#[trigger] v@[k] == '.' || v@[k] == ' '),
        decreases j,
    {
        j -= 1;
    }
    proof {
        let t = v@.take(n as int);
        assert forall|k: int| j <= k < t.len() implies (#[trigger] t[k] == '.' || t[k] == ' ') by {
            assert(t[k] == v@[k]);
        }
        if j > 0 {
            assert(t[j - 1] == v@[j - 1]);
        }
        lemma_strip_dots(t, j as int);
        assert(t.take(j as int) == v@.take(j as int));
    }
    j
}

/// Finish a trimmed, non-empty component: see [`finished`].
pub fn finish_component(trimmed: &str, reserved: bool, limit: usize, fallback: &str) -> (s: String)
    ensures
        s@ == finished(trimmed@, reserved, limit as nat, fallback@),
{
    let mut cand: Vec<char> = Vec::new();
    if reserved {
        cand.push('_');
    }
    push_all(&mut cand, trimmed);
    let n = if cand.len() > limit { limit } else { cand.len() };
    assert(cand.len() <= limit ==> cand@.take(n as int) == cand@);
    let j = strip_dots_len(&cand, n);
    if j == 0 {
        return owned(fallback);
    }
    string_of_range(&cand, 0, j)
}

/// `sanitize_filename`, a name safe on Windows: illegal characters become
/// `_`; the result is trimmed of whitespace and trailing dots and spaces,
/// cut to 180 characters and trimmed again; then, when the part of what is
/// left before its first dot is a reserved device name, it is escaped with a
/// leading `_` (and cut and trimmed once more). The reserved test is made on
/// the name as it will be written, so a long name that the cut shortens to
/// `CON` is escaped too. Anything that comes out empty becomes `fallback`.
pub open spec fn safe_filename(name: Seq<char>, fallback: Seq<char>) -> Seq<char> {
    let t = strip_dots(trim(replace_illegal(name)));
    let c = finished(t, false, 180, Seq::empty());
    if c.len() == 0 {
        fallback
    } else {
        let stem = match find(c, '.') {
            Some(i) => c.take(i),
            None => c,
        };
        finished(c, is_reserved_name(uppercase(stem)), 180, fallback)
    }
}

/// `name` with illegal characters replaced, trimmed of whitespace and then of
/// trailing dots and spaces.
fn cleaned_component(name: &str) -> (v: Vec<char>)
    ensures
        v@ == strip_dots(trim(replace_illegal(name@))),
{
    let cs = chars_of(name);
    let mut r: Vec<char> = Vec::new();
    let mut i: usize = 0;
    while i < cs.len()
        invariant
            i <= cs.len(),
            cs@ == name@,
            r@ == replace_illegal(cs@.take(i as int)),
        decreases cs.len() - i,
    {
        let c = cs[i];
        r.push(if is_illegal_char(c) { '_' } else { c });
        assert(replace_illegal(cs@.take(i + 1)) == replace_illegal(cs@.take(i as int)).push(if is_illegal(c) { '_' } else { c }));
        i += 1;
    }
    assert(cs@.take(cs.len() as int) == cs@);
    let (lo, hi) = trim_bounds(&r);
    let t = {
        let s = string_of_range(&r, lo, hi);
        chars_of(s.as_str())
    };
    let j = strip_dots_len(&t, t.len());
    assert(t@.take(t.len() as int) == t@);
    let mut out: Vec<char> = Vec::new();
    let mut k: usize = 0;
    while k < j
        invariant
            k <= j <= t.len(),
            out@ == t@.take(k as int),
        decreases j - k,
    {
        out.push(t[k]);
        assert(t@.take(k + 1) == t@.take(k as int).push(t@[k as int]));
        k += 1;
    }
    out
}

/// Make a Telegram-supplied file name safe on Windows: see [`safe_filename`].
pub fn sanitize_filename(name: &str, fallback: &str) -> (s: String)
    ensures
        s@ == safe_filename(name@, fallback@),
{
    let t0 = cleaned_component(name);
    let c = finish_component(string_of(&t0).as_str(), false, 180, "");
    proof {
        reveal_strlit("");
    }
    let t = chars_of(c.as_str());
    if t.len() == 0 {
        return owned(fallback);
    }
    let stem_end = match find_char(&t, '.') {
        Some(i) => i,
        None => t.len(),
    };
    assert(find(t@, '.') is None ==> t@.take(stem_end as int) == t@);
    let stem = string_of_range(&t, 0, stem_end);
    let upper = to_upper(stem.as_str());
    let reserved = is_reserved_upper(upper.as_str());
    finish_component(c.as_str(), reserved, 180, fallback)
}

/// The part after the last dot (all of it when there is none), with illegal
/// characters removed and cut to 16 characters; `.` in front when anything
/// is left.
pub open spec fn safe_extension(raw: Seq<char>) -> Seq<char> {
    let tail = match rfind(raw, '.') {
        Some(i) => raw.skip(i + 1),
        None => raw,
    };
    let kept = tail.filter(|c: char| !is_illegal(c));
    let cut = if kept.len() > 16 { kept.take(16) } else { kept };
    if cut.len() == 0 { Seq::empty() } else { seq!['.'] + cut }
}

/// Sanitise an extension, so a sender cannot inject separators or
/// characters that make the download fail.
pub fn sanitize_extension(raw: &str) -> (s: String)
    ensures
        s@ == safe_extension(raw@),
{
    let cs = chars_of(raw);
    let start = match rfind_char(&cs, '.') {
        Some(i) => i + 1,
        None => 0,
    };
    let ghost tail = cs@.skip(start as int);
    assert(rfind(raw@, '.') is None ==> tail == raw@);
    let mut kept: Vec<char> = Vec::new();
    let mut i: usize = start;
    while i < cs.len()
        invariant
            start <= i <= cs.len(),
            tail == cs@.skip(start as int),
            kept@ == tail.take(i - start).filter(|c: char| !is_illegal(c)),
        decreases cs.len() - i,
    {
        let c = cs[i];
        proof {
            reveal(Seq::filter);
            let t = tail.take(i - start + 1);
            assert(t.drop_last() == tail.take(i - start));
            assert(t.last() == c);
        }
        if !is_illegal_char(c) {
            kept.push(c);
        }
        i += 1;
    }
    assert(tail.take(cs.len() - start) == tail);
    let n = if kept.len() > 16 { 16 } else { kept.len() };
    if n == 0 {
        return String::new();
    }
    let mut out: Vec<char> = vec!['.'];
    let mut k: usize = 0;
    while k < n
        invariant
            k <= n <= kept.len(),
            out@ == seq!['.'] + kept@.take(k as int),
        decreases n - k,
    {
        out.push(kept[k]);
        assert(kept@.take(k + 1) == kept@.take(k as int).push(kept@[k as int]));
        k += 1;
    }
    assert(kept.len() <= 16 ==> kept@.take(n as int) == kept@);
    string_of(&out)
}

/// Is `s` exactly the literal `lit`?
fn is(s: &Vec<char>, lit: &str) -> (b: bool)
    ensures
        b == (s@ == lit@),
{
    same_chars(s, &chars_of(lit))
}

/// Which folder each kind of media lands in, and its default extension.
pub open spec fn layout_of(kind: Seq<char>) -> (Seq<char>, Seq<char>) {
    if kind == "photos"@ {
        ("photos"@, ".jpg"@)
    } else if kind == "video_files"@ {
        ("video_files"@, ".mp4"@)
    } else if kind == "voice_messages"@ {
        ("voice_messages"@, ".ogg"@)
    } else if kind == "video_messages"@ {
        ("round_video_messages"@, ".mp4"@)
    } else if kind == "stickers"@ {
        ("stickers"@, ".webp"@)
    } else if kind == "animations"@ {
        ("video_files"@, ".mp4"@)
    } else if kind == "thumbnails"@ {
        ("thumbnails"@, ".jpg"@)
    } else {
        ("files"@, ""@)
    }
}

/// The kinds Desktop gives a folder of their own.
pub open spec fn known_kind(kind: Seq<char>) -> bool {
    kind == "photos"@ || kind == "video_files"@ || kind == "voice_messages"@ || kind == "video_messages"@
        || kind == "stickers"@ || kind == "animations"@ || kind == "thumbnails"@
}

/// Each kind of media lands in its own Desktop folder: photos, video files,
/// voice messages, stickers and thumbnails in the folder named after the
/// kind, round videos in `round_video_messages` and animations with the
/// video files. Only a kind Desktop does not know is filed under `files`,
/// and it alone gets no default extension; pictures default to `.jpg`,
/// videos to `.mp4`, voice to `.ogg` and stickers to `.webp`.
pub proof fn law_each_kind_lands_in_its_own_folder(kind: Seq<char>)
    ensures
        kind == "photos"@ || kind == "video_files"@ || kind == "voice_messages"@ || kind == "stickers"@
            || kind == "thumbnails"@ ==> layout_of(kind).0 == kind,
        kind == "video_messages"@ ==> layout_of(kind).0 == "round_video_messages"@,
        kind == "animations"@ ==> layout_of(kind) == layout_of("video_files"@),
        layout_of(kind).0 == "files"@ <==> !known_kind(kind),
        layout_of(kind).1.len() == 0 <==> !known_kind(kind),
        kind == "photos"@ || kind == "thumbnails"@ ==> layout_of(kind).1 == ".jpg"@,
        kind == "video_files"@ || kind == "video_messages"@ || kind == "animations"@ ==> layout_of(kind).1 == ".mp4"@,
        kind == "voice_messages"@ ==> layout_of(kind).1 == ".ogg"@,
        kind == "stickers"@ ==> layout_of(kind).1 == ".webp"@,
{
    reveal_strlit("photos");
    reveal_strlit("video_files");
    reveal_strlit("voice_messages");
    reveal_strlit("video_messages");
    reveal_strlit("round_video_messages");
    reveal_strlit("stickers");
    reveal_strlit("animations");
    reveal_strlit("thumbnails");
    reveal_strlit("files");
    reveal_strlit(".jpg");
    reveal_strlit(".mp4");
    reveal_strlit(".ogg");
    reveal_strlit(".webp");
    reveal_strlit("");
    assert("photos"@.len() == 6 && "video_files"@.len() == 11 && "voice_messages"@.len() == 14);
    assert("video_messages"@.len() == 14 && "round_video_messages"@.len() == 20 && "stickers"@.len() == 8);
    assert("animations"@.len() == 10 && "thumbnails"@.len() == 10 && "files"@.len() == 5);
    assert("voice_messages"@[1] != "video_messages"@[1]);
    assert("animations"@[0] != "thumbnails"@[0]);
    assert(".jpg"@.len() == 4 && ".mp4"@.len() == 4 && ".ogg"@.len() == 4 && ".webp"@.len() == 5);
}

pub fn layout(kind: &str) -> (r: (&'static str, &'static str))
    ensures
        (r.0@, r.1@) == layout_of(kind@),
{
    let k = chars_of(kind);
    if is(&k, "photos") {
        ("photos", ".jpg")
    } else if is(&k, "video_files") {
        ("video_files", ".mp4")
    } else if is(&k, "voice_messages") {
        ("voice_messages", ".ogg")
    } else if is(&k, "video_messages") {
        ("round_video_messages", ".mp4")
    } else if is(&k, "stickers") {
        ("stickers", ".webp")
    } else if is(&k, "animations") {
        ("video_files", ".mp4")
    } else if is(&k, "thumbnails") {
        ("thumbnails", ".jpg")
    } else {
        ("files", "")
    }
}

/// The prefix Desktop synthesises a name from, per folder.
pub open spec fn prefix_of(subdir: Seq<char>) -> Seq<char> {
    if subdir == "photos"@ {
        "photo"@
    } else if subdir == "video_files"@ || subdir == "round_video_messages"@ {
        "video"@
    } else if subdir == "voice_messages"@ {
        "audio"@
    } else if subdir == "thumbnails"@ {
        "thumb"@
    } else {
        "file"@
    }
}

pub fn synth_prefix(subdir: &str) -> (p: &'static str)
    ensures
        p@ == prefix_of(subdir@),
{
    let s = chars_of(subdir);
    if is(&s, "photos") {
        "photo"
    } else if is(&s, "video_files") || is(&s, "round_video_messages") {
        "video"
    } else if is(&s, "voice_messages") {
        "audio"
    } else if is(&s, "thumbnails") {
        "thumb"
    } else {
        "file"
    }
}

/// Which `layout` kind a document belongs to: the folder follows the file's
/// shape, so anything whose mime type is `video/…` is filed with the videos
/// unless it is a round video or voice message.
pub open spec fn kind_of(media_type: Seq<char>, mime_type: Seq<char>) -> Seq<char> {
    let is_video = crate::strings::starts(mime_type, "video/"@);
    if media_type == "video_message"@ {
        "video_messages"@
    } else if media_type == "voice_message"@ {
        "voice_messages"@
    } else if media_type == "video_file"@ || media_type == "animation"@ {
        "video_files"@
    } else if media_type == "sticker"@ && is_video {
        "video_files"@
    } else if media_type == "sticker"@ {
        "stickers"@
    } else if is_video {
        "video_files"@
    } else {
        "files"@
    }
}

pub fn kind_for(media_type: &str, mime_type: &str) -> (k: &'static str)
    ensures
        k@ == kind_of(media_type@, mime_type@),
{
    let m = chars_of(media_type);
    let is_video = crate::strings::has_prefix(&chars_of(mime_type), &chars_of("video/"));
    if is(&m, "video_message") {
        "video_messages"
    } else if is(&m, "voice_message") {
        "voice_messages"
    } else if is(&m, "video_file") || is(&m, "animation") {
        "video_files"
    } else if is(&m, "sticker") && is_video {
        "video_files"
    } else if is(&m, "sticker") {
        "stickers"
    } else if is_video {
        "video_files"
    } else {
        "files"
    }
}

/// The JSON `media_type` for a kind, if it has one.
pub open spec fn media_type_of(kind: Seq<char>) -> Option<Seq<char>> {
    if kind == "video_files"@ {
        Some("video_file"@)
    } else if kind == "voice_messages"@ {
        Some("voice_message"@)
    } else if kind == "video_messages"@ {
        Some("video_message"@)
    } else if kind == "stickers"@ {
        Some("sticker"@)
    } else if kind == "animations"@ {
        Some("animation"@)
    } else {
        None
    }
}

pub fn media_type(kind: &str) -> (r: Option<&'static str>)
    ensures
        match r {
            Some(s) => media_type_of(kind@) == Some(s@),
            None => media_type_of(kind@) is None,
        },
{
    let k = chars_of(kind);
    if is(&k, "video_files") {
        Some("video_file")
    } else if is(&k, "voice_messages") {
        Some("voice_message")
    } else if is(&k, "video_messages") {
        Some("video_message")
    } else if is(&k, "stickers") {
        Some("sticker")
    } else if is(&k, "animations") {
        Some("animation")
    } else {
        None
    }
}

/// The `i`-th candidate name for a claim: the name itself, then
/// `stem (i).ext` (or `stem (i)` when there is no extension).
pub open spec fn candidate(name: Seq<char>, stem: Seq<char>, ext: Option<Seq<char>>, i: nat) -> Seq<char> {
    if i == 0 {
        name
    } else {
        stem + " ("@ + dec(i) + seq![')'] + match ext {
            Some(e) => seq!['.'] + e,
            None => Seq::empty(),
        }
    }
}

/// The characters of an optional extension.
pub open spec fn ext_view(e: Option<Vec<char>>) -> Option<Seq<char>> {
    match e {
        Some(v) => Some(v@),
        None => None,
    }
}

/// `subdir/file`.
pub open spec fn joined_path(subdir: Seq<char>, file: Seq<char>) -> Seq<char> {
    subdir + seq!['/'] + file
}

/// The first candidate index from `i` on whose path, case folded, is not
/// already claimed; the search stops at `bound`.
pub open spec fn free_index(used: Set<Seq<char>>, subdir: Seq<char>, name: Seq<char>, stem: Seq<char>, ext: Option<Seq<char>>, i: nat, bound: nat) -> nat
    decreases bound - i,
{
    if i >= bound || !used.contains(lowercase(joined_path(subdir, candidate(name, stem, ext, i)))) {
        i
    } else {
        free_index(used, subdir, name, stem, ext, i + 1, bound)
    }
}

/// The stem and extension of a name, split at its last dot.
pub open spec fn split_ext(name: Seq<char>) -> (Seq<char>, Option<Seq<char>>) {
    match rfind(name, '.') {
        Some(i) => (name.take(i), Some(name.skip(i + 1))),
        None => (name, None),
    }
}

/// How many candidates a claim tries: one more than there are claimed
/// paths, so that at least one of them is free.
pub open spec fn search_bound(used: Set<Seq<char>>) -> nat {
    if used.len() < usize::MAX { used.len() + 1 } else { usize::MAX as nat }
}

/// The path a claim returns, given what was claimed before.
pub open spec fn claimed_path(used: Set<Seq<char>>, subdir: Seq<char>, name: Seq<char>) -> Seq<char> {
    let (stem, ext) = split_ext(name);
    joined_path(subdir, candidate(name, stem, ext, free_index(used, subdir, name, stem, ext, 0, search_bound(used))))
}

/// The characters of an optional string.
pub open spec fn opt_str(o: Option<&str>) -> Option<Seq<char>> {
    match o {
        Some(s) => Some(s@),
        None => None,
    }
}

/// Does a name reserve take the name Telegram sent? Photos never do, and an
/// empty name counts as none.
pub open spec fn takes_given(kind: Seq<char>, given: Option<Seq<char>>) -> bool {
    kind != "photos"@ && given is Some && given->0.len() > 0
}

/// The counter value a prefix has reached in a map of counters.
pub open spec fn count_in(counters: Map<Seq<char>, u64>, prefix: Seq<char>) -> nat {
    if counters.contains_key(prefix) { counters[prefix] as nat } else { 0 }
}

/// The counters after a reservation: a synthesised name advances its
/// prefix's counter by one, a name Telegram sent leaves them all alone.
pub open spec fn reserved_counters(counters: Map<Seq<char>, u64>, kind: Seq<char>, given: Option<Seq<char>>) -> Map<Seq<char>, u64> {
    if takes_given(kind, given) {
        counters
    } else {
        let prefix = prefix_of(layout_of(kind).0);
        counters.insert(prefix, (count_in(counters, prefix) + 1) as u64)
    }
}

/// The name a reservation returns: Telegram's name made safe, with an
/// extension added when it has no dot; else `prefix_N@stamp.ext`, where `N`
/// is the prefix's next counter value.
pub open spec fn reserved_name(counters: Map<Seq<char>, u64>, kind: Seq<char>, given: Option<Seq<char>>, stamp: Seq<char>, hint: Seq<char>) -> Seq<char> {
    let (subdir, default_ext) = layout_of(kind);
    let ext = if hint.len() == 0 { default_ext } else { hint };
    if takes_given(kind, given) {
        let safe = safe_filename(given->0, "file"@);
        if find(safe, '.') is Some { safe } else { safe + ext }
    } else {
        let prefix = prefix_of(subdir);
        let n = count_in(counters, prefix) + 1;
        prefix + seq!['_'] + dec(n) + seq!['@'] + stamp + if kind == "photos"@ { ".jpg"@ } else { ext }
    }
}

/// A path split at its last `/` into folder and file; no `/` means an
/// empty folder.
pub open spec fn split_dir(path: Seq<char>) -> (Seq<char>, Seq<char>) {
    match rfind(path, '/') {
        Some(i) => (path.take(i), path.skip(i + 1)),
        None => (Seq::empty(), path),
    }
}

/// `_thumb` put before the last dot's extension: `clip.mp4` -> `clip_thumb.mp4`.
pub open spec fn preview_name(file: Seq<char>) -> Seq<char> {
    match rfind(file, '.') {
        Some(i) => file.take(i) + "_thumb"@ + file.skip(i),
        None => file + "_thumb"@,
    }
}

/// The case-folded path of the `i`-th candidate a claim tries.
pub open spec fn folded_candidate(subdir: Seq<char>, name: Seq<char>, i: nat) -> Seq<char> {
    let (stem, ext) = split_ext(name);
    lowercase(joined_path(subdir, candidate(name, stem, ext, i)))
}

/// The candidates a claim may try fold to different paths.
pub open spec fn candidates_distinct(used: Set<Seq<char>>, subdir: Seq<char>, name: Seq<char>) -> bool {
    forall|i: nat, j: nat|
        i < search_bound(used) && j < search_bound(used) && i != j
            ==> #[trigger] folded_candidate(subdir, name, i) != #[trigger] folded_candidate(subdir, name, j)
}

proof fn lemma_free_index(used: Set<Seq<char>>, subdir: Seq<char>, name: Seq<char>, i: nat, bound: nat)
    requires
        i <= bound,
    ensures
        ({
            let (stem, ext) = split_ext(name);
            let r = free_index(used, subdir, name, stem, ext, i, bound);
            &&& i <= r <= bound
            &&& r < bound ==> !used.contains(folded_candidate(subdir, name, r))
            &&& forall|j: nat| i <= j < r ==> used.contains(#[trigger] folded_candidate(subdir, name, j))
        }),
    decreases bound - i,
{
    let (stem, ext) = split_ext(name);
    if i < bound && used.contains(lowercase(joined_path(subdir, candidate(name, stem, ext, i)))) {
        lemma_free_index(used, subdir, name, i + 1, bound);
    }
}

/// A claim never hands out a path that was claimed before, compared
/// case-insensitively: when a name is taken it moves on to `stem (1).ext`,
/// `stem (2).ext`, … and one of the first `len + 1` of these is free, as long
/// as they fold to different paths.
pub proof fn law_claim_is_fresh(used: Set<Seq<char>>, subdir: Seq<char>, name: Seq<char>)
    requires
        used.finite(),
        used.len() < usize::MAX,
        candidates_distinct(used, subdir, name),
    ensures
        !used.contains(lowercase(claimed_path(used, subdir, name))),
{
    let bound = search_bound(used);
    lemma_free_index(used, subdir, name, 0, bound);
    let (stem, ext) = split_ext(name);
    let r = free_index(used, subdir, name, stem, ext, 0, bound);
    if r == bound {
        let f = |i: int| folded_candidate(subdir, name, i as nat);
        let x = vstd::set_lib::set_int_range(0, bound as int);
        vstd::set_lib::lemma_int_range(0, bound as int);
        assert(vstd::relations::injective_on(f, x)) by {
            assert forall|a: int, b: int| x.contains(a) && x.contains(b) && #[trigger] f(a) == #[trigger] f(b) implies a == b by {
                if a != b {
                    assert(folded_candidate(subdir, name, a as nat) != folded_candidate(subdir, name, b as nat));
                }
            }
        }
        vstd::set_lib::lemma_map_size(x, x.map(f), f);
        assert(x.map(f).subset_of(used)) by {
            assert forall|p: Seq<char>| x.map(f).contains(p) implies used.contains(p) by {
                let a = choose|a: int| x.contains(a) && f(a) == p;
                assert(used.contains(folded_candidate(subdir, name, a as nat)));
            }
        }
        vstd::set_lib::lemma_len_subset(x.map(f), used);
    }
}

/// Assigns Desktop-style names within one output folder.
pub struct NameBook {
    /// One counter per synthesised prefix, not one shared `file_N`.
    synth: StringHashMap<u64>,
    /// Every claimed path, case folded.
    used: StringHashSet,
}

impl NameBook {
    /// The counter a prefix has reached.
    pub open spec fn count(&self, prefix: Seq<char>) -> nat {
        count_in(self.counters(), prefix)
    }

    pub closed spec fn counters(&self) -> Map<Seq<char>, u64> {
        self.synth@
    }

    /// Every claimed path, case folded.
    pub closed spec fn claimed(&self) -> Set<Seq<char>> {
        self.used@
    }

    pub fn new() -> (b: Self)
        ensures
            b.counters() == Map::<Seq<char>, u64>::empty(),
            b.claimed() == Set::<Seq<char>>::empty(),
    {
        Self { synth: StringHashMap::new(), used: StringHashSet::new() }
    }

    fn candidate_string(name: &Vec<char>, stem: &Vec<char>, ext: &Option<Vec<char>>, i: usize) -> (s: String)
        ensures
            s@ == candidate(name@, stem@, ext_view(*ext), i as nat),
    {
        if i == 0 {
            return string_of(name);
        }
        let mut v: Vec<char> = Vec::new();
        push_seq(&mut v, stem);
        push_all(&mut v, " (");
        push_dec(&mut v, i as u64);
        v.push(')');
        match ext {
            Some(e) => {
                v.push('.');
                push_seq(&mut v, e);
            },
            None => {},
        }
        string_of(&v)
    }

    fn path_string(subdir: &str, file: &str) -> (s: String)
        ensures
            s@ == joined_path(subdir@, file@),
    {
        let mut v = chars_of(subdir);
        v.push('/');
        push_all(&mut v, file);
        string_of(&v)
    }

    /// Reserve `name` in `subdir`, suffixing `" (1)"`, `" (2)"`, … on a
    /// case-insensitive clash. Returns the path relative to the output root.
    pub fn claim(&mut self, subdir: &str, name: &str) -> (p: String)
        ensures
            p@ == claimed_path(old(self).claimed(), subdir@, name@),
            final(self).claimed() == old(self).claimed().insert(lowercase(p@)),
            final(self).counters() == old(self).counters(),
    {
        let n = chars_of(name);
        let (stem, ext) = match rfind_char(&n, '.') {
            Some(i) => {
                let s = string_of_range(&n, 0, i);
                let e = string_of_range(&n, i + 1, n.len());
                assert(n@.subrange(i + 1, n@.len() as int) == n@.skip(i + 1));
                (chars_of(s.as_str()), Some(chars_of(e.as_str())))
            },
            None => (chars_of(name), None),
        };
        let ghost ev = ext_view(ext);
        assert(split_ext(name@) == (stem@, ev));
        let ghost used0 = self.used@;
        let bound: usize = if self.used.len() < usize::MAX { self.used.len() + 1 } else { usize::MAX };
        let mut i: usize = 0;
        let mut path = Self::path_string(subdir, Self::candidate_string(&n, &stem, &ext, 0).as_str());
        let mut folded = to_lower(path.as_str());
        while i < bound && self.used.contains(folded.as_str())
            invariant
                i <= bound,
                self.used@ == used0,
                n@ == name@,
                ev == ext_view(ext),
                path@ == joined_path(subdir@, candidate(name@, stem@, ev, i as nat)),
                folded@ == lowercase(path@),
                free_index(used0, subdir@, name@, stem@, ev, 0, bound as nat) == free_index(used0, subdir@, name@, stem@, ev, i as nat, bound as nat),
            decreases bound - i,
        {
            i += 1;
            path = Self::path_string(subdir, Self::candidate_string(&n, &stem, &ext, i).as_str());
            folded = to_lower(path.as_str());
        }
        self.used.insert(folded);
        path
    }

    /// Is this path already spoken for? Compared case-insensitively.
    pub fn is_claimed(&self, path: &str) -> (b: bool)
        ensures
            b == self.claimed().contains(lowercase(path@)),
    {
        let folded = to_lower(path);
        self.used.contains(folded.as_str())
    }

    /// Decide the file name, advancing the synthesised counter if needed.
    ///
    /// Called for every message carrying media, including ones that will
    /// never be written, so a photo skipped for size still consumes a
    /// `photo_N`. `given` is the name Telegram sent, if any; a photo never
    /// takes one.
    pub fn reserve_name(&mut self, kind: &str, given: Option<&str>, stamp: &str, ext_hint: &str) -> (name: String)
        requires
            old(self).count(prefix_of(layout_of(kind@).0)) < u64::MAX,
        ensures
            name@ == reserved_name(old(self).counters(), kind@, opt_str(given), stamp@, ext_hint@),
            final(self).counters() == reserved_counters(old(self).counters(), kind@, opt_str(given)),
            final(self).claimed() == old(self).claimed(),
    {
        let (subdir, default_ext) = layout(kind);
        let k = chars_of(kind);
        let is_photo = is(&k, "photos");
        let named = match given {
            Some(g) => !is_photo && g.unicode_len() > 0,
            None => false,
        };
        if named {
            let g = given.unwrap();
            let safe = sanitize_filename(g, "file");
            let mut v = chars_of(safe.as_str());
            if find_char(&v, '.').is_none() {
                if ext_hint.unicode_len() == 0 {
                    push_all(&mut v, default_ext);
                } else {
                    push_all(&mut v, ext_hint);
                }
            }
            return string_of(&v);
        }
        let prefix = synth_prefix(subdir);
        let n: u64 = match self.synth.get(prefix) {
            Some(c) => *c + 1,
            None => 1,
        };
        self.synth.insert(owned(prefix), n);
        let mut v = chars_of(prefix);
        v.push('_');
        push_dec(&mut v, n);
        v.push('@');
        push_all(&mut v, stamp);
        if is_photo {
            push_all(&mut v, ".jpg");
        } else if ext_hint.unicode_len() == 0 {
            push_all(&mut v, default_ext);
        } else {
            push_all(&mut v, ext_hint);
        }
        string_of(&v)
    }

    /// The counter value a prefix has reached.
    pub fn counter(&self, prefix: &str) -> (n: u64)
        ensures
            n == self.count(prefix@),
    {
        match self.synth.get(prefix) {
            Some(c) => *c,
            None => 0,
        }
    }

    /// Telegram's own thumbnail: `clip.mp4` -> `clip.mp4_thumb.jpg`, claimed
    /// beside the file so it cannot land on a document of that name.
    pub fn claim_telegram_thumb(&mut self, path: &str) -> (p: String)
        ensures
            p@ == claimed_path(old(self).claimed(), split_dir(path@).0, split_dir(path@).1 + "_thumb.jpg"@),
            final(self).claimed() == old(self).claimed().insert(lowercase(p@)),
            final(self).counters() == old(self).counters(),
    {
        let cs = chars_of(path);
        let (dir, file) = match rfind_char(&cs, '/') {
            Some(i) => (string_of_range(&cs, 0, i), string_of_range(&cs, i + 1, cs.len())),
            None => (String::new(), owned(path)),
        };
        proof {
            assert(cs@.subrange(0, cs@.len() as int) == cs@);
        }
        let mut v = chars_of(file.as_str());
        push_all(&mut v, "_thumb.jpg");
        let name = string_of(&v);
        self.claim(dir.as_str(), name.as_str())
    }

    /// Desktop's rendered downscale: `clip.mp4` -> `clip_thumb.mp4`, a
    /// different file from Telegram's own thumbnail.
    pub fn claim_rendered_preview(&mut self, path: &str) -> (p: String)
        ensures
            p@ == claimed_path(old(self).claimed(), split_dir(path@).0, preview_name(split_dir(path@).1)),
            final(self).claimed() == old(self).claimed().insert(lowercase(p@)),
            final(self).counters() == old(self).counters(),
    {
        let cs = chars_of(path);
        let (dir, file) = match rfind_char(&cs, '/') {
            Some(i) => (string_of_range(&cs, 0, i), string_of_range(&cs, i + 1, cs.len())),
            None => (String::new(), owned(path)),
        };
        let f = chars_of(file.as_str());
        let mut v: Vec<char> = Vec::new();
        match rfind_char(&f, '.') {
            Some(i) => {
                let stem = string_of_range(&f, 0, i);
                let ext = string_of_range(&f, i, f.len());
                push_all(&mut v, stem.as_str());
                push_all(&mut v, "_thumb");
                push_all(&mut v, ext.as_str());
                proof {
                    assert(f@.subrange(i as int, f@.len() as int) == f@.skip(i as int));
                }
            },
            None => {
                push_all(&mut v, file.as_str());
                push_all(&mut v, "_thumb");
            },
        }
        let name = string_of(&v);
        self.claim(dir.as_str(), name.as_str())
    }
}

impl Default for NameBook {
    fn default() -> (b: Self)
        ensures
            b.counters() == Map::<Seq<char>, u64>::empty(),
            b.claimed() == Set::<Seq<char>>::empty(),
    {
        Self::new()
    }
}


} // verus!
