//! The editable settings, and the rules for reading a number out of a field.
//!
//! Nothing here coerces: a field holding nonsense keeps the stored value
//! rather than becoming zero, and a number outside its range is clamped and
//! written back, so what is on screen is what is stored.

use vstd::prelude::*;
use crate::strings::{
    chars_of, dec, int_text, owned, parse_i64, parse_int, push_dec, push_int,
    same_chars, string_of, string_of_range, trim, trim_bounds,
};

verus! {

/// Messages per `messages*.html` page.
pub const PAGE_RANGE: (i64, i64) = (50, 20000);

/// Parallel media downloads.
pub const DOWNLOAD_RANGE: (i64, i64) = (1, 16);

/// Size limit in MB; `0` is unlimited, so the floor is zero.
pub const SIZE_RANGE: (i64, i64) = (0, 20000);

/// Member roster cap; `0` is no cap.
pub const MEMBER_RANGE: (i64, i64) = (0, 1000000);

/// `n` clamped into `[lo, hi]`.
pub open spec fn clamped(n: int, lo: int, hi: int) -> int {
    if n < lo { lo } else if n > hi { hi } else { n }
}

/// What a field reads as: a whole number, clamped into range; anything else,
/// an empty field included, leaves `current` as it is.
pub open spec fn field_number(raw: Seq<char>, range: (i64, i64), current: i64) -> i64 {
    match parse_int(trim(raw)) {
        Some(n) => clamped(n, range.0 as int, range.1 as int) as i64,
        None => current,
    }
}

/// Nothing coerces: a field that does not hold a number keeps the stored
/// value, and one that does lands inside its range, so a stored value in
/// range stays in range whatever is typed.
pub proof fn law_a_number_field_never_leaves_its_range(raw: Seq<char>, range: (i64, i64), current: i64)
    requires
        range.0 <= range.1,
    ensures
        parse_int(trim(raw)) is None ==> field_number(raw, range, current) == current,
        parse_int(trim(raw)) is Some ==> range.0 <= field_number(raw, range, current) <= range.1,
        range.0 <= current <= range.1 ==> range.0 <= field_number(raw, range, current) <= range.1,
{
}

/// Read a number out of a text field.
pub fn number(raw: &str, range: (i64, i64), current: i64) -> (n: i64)
    requires
        range.0 <= range.1,
    ensures
        n == field_number(raw@, range, current),
{
    let cs = chars_of(raw);
    let (lo, hi) = trim_bounds(&cs);
    match parse_i64(&cs, lo, hi) {
        Some(n) => if n < range.0 {
            range.0
        } else if n > range.1 {
            range.1
        } else {
            n
        },
        None => current,
    }
}

/// The stored settings the form edits.
#[derive(Debug, Clone, PartialEq, Eq)]
pub struct StoredSettings {
    pub output_dir: String,
    pub page_size: usize,
    pub size_limit_mb: i64,
    pub download_concurrency: usize,
    pub member_limit: i64,
}

/// The text fields the settings panel owns.
#[derive(Debug, Default, Clone, PartialEq, Eq)]
pub struct SettingsForm {
    pub output_dir: String,
    pub page_size: String,
    pub size_limit: String,
    pub downloads: String,
    pub member_limit: String,
}

/// The fields showing the stored values.
pub open spec fn shows(form: SettingsForm, s: StoredSettings) -> bool {
    &&& form.output_dir@ == s.output_dir@
    &&& form.page_size@ == dec(s.page_size as nat)
    &&& form.size_limit@ == int_text(s.size_limit_mb as int)
    &&& form.downloads@ == dec(s.download_concurrency as nat)
    &&& form.member_limit@ == int_text(s.member_limit as int)
}

/// Make a field hold `value`, leaving it alone when it already does.
fn set(field: &mut String, value: &str)
    ensures
        final(field)@ == value@,
{
    if !same_chars(&chars_of(field.as_str()), &chars_of(value)) {
        *field = owned(value);
    }
}

fn dec_string(n: u64) -> (s: String)
    ensures
        s@ == dec(n as nat),
{
    let mut v: Vec<char> = Vec::new();
    push_dec(&mut v, n);
    assert(Seq::<char>::empty() + dec(n as nat) == dec(n as nat));
    string_of(&v)
}

fn int_string(n: i64) -> (s: String)
    ensures
        s@ == int_text(n as int),
{
    let mut v: Vec<char> = Vec::new();
    push_int(&mut v, n);
    assert(Seq::<char>::empty() + int_text(n as int) == int_text(n as int));
    string_of(&v)
}

impl SettingsForm {
    /// A form already holding what is stored.
    pub fn new(settings: &StoredSettings) -> (f: Self)
        ensures
            shows(f, *settings),
    {
        let mut form = SettingsForm {
            output_dir: String::new(),
            page_size: String::new(),
            size_limit: String::new(),
            downloads: String::new(),
            member_limit: String::new(),
        };
        form.sync(settings);
        form
    }

    /// Read every field back into `settings`. A blank destination keeps the
    /// stored one; each number is read as [`number`] reads it.
    pub fn collect(&self, settings: &mut StoredSettings)
        ensures
            final(settings).output_dir@ == if trim(self.output_dir@).len() == 0 {
                old(settings).output_dir@
            } else {
                trim(self.output_dir@)
            },
            final(settings).page_size == field_number(self.page_size@, PAGE_RANGE, old(settings).page_size as i64) as usize,
            final(settings).size_limit_mb == field_number(self.size_limit@, SIZE_RANGE, old(settings).size_limit_mb),
            final(settings).download_concurrency == field_number(self.downloads@, DOWNLOAD_RANGE, old(settings).download_concurrency as i64) as usize,
            final(settings).member_limit == field_number(self.member_limit@, MEMBER_RANGE, old(settings).member_limit),
    {
        let cs = chars_of(self.output_dir.as_str());
        let (lo, hi) = trim_bounds(&cs);
        if lo < hi {
            settings.output_dir = string_of_range(&cs, lo, hi);
        }
        settings.page_size = number(self.page_size.as_str(), PAGE_RANGE, settings.page_size as i64) as usize;
        settings.size_limit_mb = number(self.size_limit.as_str(), SIZE_RANGE, settings.size_limit_mb);
        settings.download_concurrency = number(self.downloads.as_str(), DOWNLOAD_RANGE, settings.download_concurrency as i64) as usize;
        settings.member_limit = number(self.member_limit.as_str(), MEMBER_RANGE, settings.member_limit);
    }

    /// Write the stored values back into the fields, so a clamped or
    /// rejected entry is visible.
    pub fn sync(&mut self, settings: &StoredSettings)
        ensures
            shows(*final(self), *settings),
    {
        set(&mut self.output_dir, settings.output_dir.as_str());
        set(&mut self.page_size, dec_string(settings.page_size as u64).as_str());
        set(&mut self.size_limit, int_string(settings.size_limit_mb).as_str());
        set(&mut self.downloads, dec_string(settings.download_concurrency as u64).as_str());
        set(&mut self.member_limit, int_string(settings.member_limit).as_str());
    }
}

/// A path too long for its field, shown from its start: the first
/// `max - 1` characters and an ellipsis.
pub open spec fn elided(path: Seq<char>, max_chars: nat) -> Seq<char> {
    if path.len() <= max_chars {
        path
    } else {
        path.take(if max_chars == 0 { 0 } else { max_chars - 1 }) + seq!['\u{2026}']
    }
}

/// A path shown in a field that is too narrow for it: the start stays.
pub fn elided_start(path: &str, max_chars: usize) -> (s: String)
    ensures
        s@ == elided(path@, max_chars as nat),
{
    let cs = chars_of(path);
    if cs.len() <= max_chars {
        return owned(path);
    }
    let keep = if max_chars == 0 { 0 } else { max_chars - 1 };
    let mut v: Vec<char> = Vec::new();
    let mut i: usize = 0;
    while i < keep
        invariant
            i <= keep < cs@.len(),
            v@ == cs@.take(i as int),
        decreases keep - i,
    {
        v.push(cs[i]);
        assert(cs@.take(i + 1) == cs@.take(i as int).push(cs@[i as int]));
        i += 1;
    }
    v.push('\u{2026}');
    string_of(&v)
}


/// The extra requests an export may make. Each costs traffic, each is
/// switched on its own, and each is on until switched off.
#[derive(Debug, Clone, Copy, PartialEq, Eq, Structural)]
pub struct Extras {
    pub full_reactions: bool,
    pub chat_metadata: bool,
    pub invite_links: bool,
    pub refresh_polls: bool,
    pub scheduled_messages: bool,
    pub member_roster: bool,
}

impl Default for Extras {
    fn default() -> (e: Self)
        ensures
            e == (Extras {
                full_reactions: true,
                chat_metadata: true,
                invite_links: true,
                refresh_polls: true,
                scheduled_messages: true,
                member_roster: true,
            }),
    {
        Extras {
            full_reactions: true,
            chat_metadata: true,
            invite_links: true,
            refresh_polls: true,
            scheduled_messages: true,
            member_roster: true,
        }
    }
}

/// Is this the settings key of one of the extras?
pub open spec fn is_extra_key(key: Seq<char>) -> bool {
    key == "full_reactions"@ || key == "chat_metadata"@ || key == "invite_links"@
        || key == "refresh_polls"@ || key == "scheduled_messages"@ || key == "member_roster"@
}

/// The extra a key names; an unknown key reads as off.
pub open spec fn extra_of(e: Extras, key: Seq<char>) -> bool {
    if key == "full_reactions"@ {
        e.full_reactions
    } else if key == "chat_metadata"@ {
        e.chat_metadata
    } else if key == "invite_links"@ {
        e.invite_links
    } else if key == "refresh_polls"@ {
        e.refresh_polls
    } else if key == "scheduled_messages"@ {
        e.scheduled_messages
    } else if key == "member_roster"@ {
        e.member_roster
    } else {
        false
    }
}

/// The extras with the one a key names switched to `on`; an unknown key
/// changes nothing rather than falling to the first field.
pub open spec fn with_extra(e: Extras, key: Seq<char>, on: bool) -> Extras {
    if key == "full_reactions"@ {
        Extras { full_reactions: on, ..e }
    } else if key == "chat_metadata"@ {
        Extras { chat_metadata: on, ..e }
    } else if key == "invite_links"@ {
        Extras { invite_links: on, ..e }
    } else if key == "refresh_polls"@ {
        Extras { refresh_polls: on, ..e }
    } else if key == "scheduled_messages"@ {
        Extras { scheduled_messages: on, ..e }
    } else if key == "member_roster"@ {
        Extras { member_roster: on, ..e }
    } else {
        e
    }
}

fn is_key(key: &Vec<char>, name: &str) -> (b: bool)
    ensures
        b == (key@ == name@),
{
    same_chars(key, &chars_of(name))
}

/// Is the extra a key names switched on?
pub fn extra(e: &Extras, key: &str) -> (b: bool)
    ensures
        b == extra_of(*e, key@),
{
    let k = chars_of(key);
    if is_key(&k, "full_reactions") {
        e.full_reactions
    } else if is_key(&k, "chat_metadata") {
        e.chat_metadata
    } else if is_key(&k, "invite_links") {
        e.invite_links
    } else if is_key(&k, "refresh_polls") {
        e.refresh_polls
    } else if is_key(&k, "scheduled_messages") {
        e.scheduled_messages
    } else if is_key(&k, "member_roster") {
        e.member_roster
    } else {
        false
    }
}

/// Switch the extra a key names.
pub fn set_extra(e: &mut Extras, key: &str, on: bool)
    ensures
        *final(e) == with_extra(*old(e), key@, on),
{
    let k = chars_of(key);
    if is_key(&k, "full_reactions") {
        e.full_reactions = on;
    } else if is_key(&k, "chat_metadata") {
        e.chat_metadata = on;
    } else if is_key(&k, "invite_links") {
        e.invite_links = on;
    } else if is_key(&k, "refresh_polls") {
        e.refresh_polls = on;
    } else if is_key(&k, "scheduled_messages") {
        e.scheduled_messages = on;
    } else if is_key(&k, "member_roster") {
        e.member_roster = on;
    }
}

/// Each extra reads and writes its own field: switching one reads back as
/// switched, leaves every other key reading as before, and an unknown key
/// changes nothing.
pub proof fn law_each_extra_has_its_own_field(e: Extras, key: Seq<char>, other: Seq<char>, on: bool)
    requires
        other != key,
    ensures
        is_extra_key(key) ==> extra_of(with_extra(e, key, on), key) == on,
        extra_of(with_extra(e, key, on), other) == extra_of(e, other),
        !is_extra_key(key) ==> with_extra(e, key, on) == e,
{
}


/// Where a media kind first stands in the list, if it does.
pub open spec fn kind_at(kinds: Seq<String>, key: Seq<char>) -> Option<int> {
    if exists|i: int| 0 <= i < kinds.len() && #[trigger] kinds[i]@ == key {
        Some(choose|i: int| 0 <= i < kinds.len() && #[trigger] kinds[i]@ == key
            && forall|j: int| 0 <= j < i ==> kinds[j]@ != key)
    } else {
        None
    }
}

/// A media kind's tick box, pressed: a listed kind leaves the list (its
/// first entry), an unlisted one joins it at the end.
pub fn toggle_kind(kinds: &mut Vec<String>, key: &str)
    ensures
        match kind_at(old(kinds)@, key@) {
            Some(i) => final(kinds)@ == old(kinds)@.remove(i),
            None => final(kinds)@.len() == old(kinds)@.len() + 1
                && final(kinds)@.drop_last() == old(kinds)@
                && final(kinds)@.last()@ == key@,
        },
{
    let k = chars_of(key);
    let mut i: usize = 0;
    while i < kinds.len()
        invariant
            i <= kinds@.len(),
            kinds@ == old(kinds)@,
            k@ == key@,
            forall|j: int| 0 <= j < i ==> kinds@[j]@ != key@,
        decreases kinds.len() - i,
    {
        let name: &String = &kinds[i];
        let here = chars_of(name.as_str());
        if same_chars(&here, &k) {
            proof {
                assert(kinds@[i as int]@ == key@);
                let w = choose|w: int| 0 <= w < kinds@.len() && #[trigger] kinds@[w]@ == key@
                    && forall|j: int| 0 <= j < w ==> kinds@[j]@ != key@;
                if w < i {
                } else if w > i {
                    assert(kinds@[i as int]@ != key@);
                }
                assert(w == i);
            }
            kinds.remove(i);
            return;
        }
        i += 1;
    }
    kinds.push(owned(key));
    proof {
        assert(kinds@.drop_last() =~= old(kinds)@);
    }
}

} // verus!
