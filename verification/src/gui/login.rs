//! The sign-in dialog's pages: credentials, then phone, code and two-factor
//! password. The stage is a single value, so "is a dialog open?" and "which
//! one?" cannot disagree.

use vstd::prelude::*;

verus! {

/// Where the sign-in has got to. There is exactly one of these at a time.
#[derive(Debug, Clone, Copy, PartialEq, Eq, Structural)]
pub enum Stage {
    /// No `api_id`/`api_hash` yet: the first page of sign-in.
    Credentials,
    Phone,
    Code,
    Password,
}

/// A page the dialog can open in the system browser.
#[derive(Debug, Clone, Copy, PartialEq, Eq)]
pub struct Link {
    pub label: &'static str,
    pub url: &'static str,
}

#[derive(Debug, Clone, Copy, PartialEq, Eq, Structural)]
pub enum Field {
    ApiId,
    ApiHash,
    Phone,
    Code,
    Password,
}

pub open spec fn title_of(s: Stage) -> Seq<char> {
    match s {
        Stage::Credentials => "API credentials"@,
        Stage::Phone => "Phone number"@,
        Stage::Code => "Login code"@,
        Stage::Password => "Two-factor password"@,
    }
}

pub open spec fn hint_of(s: Stage) -> Seq<char> {
    match s {
        Stage::Credentials => "Telegram requires your own credentials for any non-official client. They are free, they take about a minute, and you only do this once."@,
        Stage::Phone => "With the country code, e.g. +381\u{2026}"@,
        Stage::Code => "Telegram sent a code to your other devices."@,
        Stage::Password => "This account has two-factor authentication."@,
    }
}

/// The numbered instructions a stage shows under its hint.
pub open spec fn steps_of(s: Stage) -> Seq<Seq<char>> {
    match s {
        Stage::Credentials => seq![
            "Open my.telegram.org and sign in with the phone number of the account you want to export."@,
            "The confirmation code arrives in Telegram itself, not by SMS."@,
            "Choose API development tools."@,
            "Fill in any app title and short name. Platform and URL do not matter, and nothing here is shown to anyone."@,
            "Copy api_id and api_hash from the App configuration box."@,
        ],
        Stage::Code => seq![
            "The code is in your Telegram app, under Telegram Service Notifications."@,
            "Never give this code to anyone who asks you for it \u{2014} not by message, not on a call. This app runs on your machine and sends it only to Telegram."@,
        ],
        Stage::Password => seq![
            "This is your Telegram cloud password, the one you set under Settings \u{2192} Privacy and Security \u{2192} Two-Step Verification."@,
            "It is not your login code and not your device PIN."@,
        ],
        Stage::Phone => seq![],
    }
}

pub open spec fn fields_of(s: Stage) -> Seq<Field> {
    match s {
        Stage::Credentials => seq![Field::ApiId, Field::ApiHash],
        Stage::Phone => seq![Field::Phone],
        Stage::Code => seq![Field::Code],
        Stage::Password => seq![Field::Password],
    }
}

pub open spec fn action_of(s: Stage) -> Seq<char> {
    match s {
        Stage::Credentials => "Continue"@,
        Stage::Phone => "Send code"@,
        Stage::Code => "Sign in"@,
        Stage::Password => "Sign in"@,
    }
}

pub const CREDENTIAL_STEPS: [&'static str; 5] = [
    "Open my.telegram.org and sign in with the phone number of the account you want to export.",
    "The confirmation code arrives in Telegram itself, not by SMS.",
    "Choose API development tools.",
    "Fill in any app title and short name. Platform and URL do not matter, and nothing here is shown to anyone.",
    "Copy api_id and api_hash from the App configuration box.",
];

pub const CODE_STEPS: [&'static str; 2] = [
    "The code is in your Telegram app, under Telegram Service Notifications.",
    "Never give this code to anyone who asks you for it \u{2014} not by message, not on a call. This app runs on your machine and sends it only to Telegram.",
];

pub const PASSWORD_STEPS: [&'static str; 2] = [
    "This is your Telegram cloud password, the one you set under Settings \u{2192} Privacy and Security \u{2192} Two-Step Verification.",
    "It is not your login code and not your device PIN.",
];

pub const NO_STEPS: [&'static str; 0] = [];

pub const CREDENTIAL_FIELDS: [Field; 2] = [Field::ApiId, Field::ApiHash];

pub const PHONE_FIELDS: [Field; 1] = [Field::Phone];

pub const CODE_FIELDS: [Field; 1] = [Field::Code];

pub const PASSWORD_FIELDS: [Field; 1] = [Field::Password];

impl Stage {
    pub fn title(self) -> (t: &'static str)
        ensures
            t@ == title_of(self),
    {
        match self {
            Stage::Credentials => "API credentials",
            Stage::Phone => "Phone number",
            Stage::Code => "Login code",
            Stage::Password => "Two-factor password",
        }
    }

    pub fn hint(self) -> (h: &'static str)
        ensures
            h@ == hint_of(self),
    {
        match self {
            Stage::Credentials => "Telegram requires your own credentials for any non-official client. They are free, they take about a minute, and you only do this once.",
            Stage::Phone => "With the country code, e.g. +381\u{2026}",
            Stage::Code => "Telegram sent a code to your other devices.",
            Stage::Password => "This account has two-factor authentication.",
        }
    }

    /// The numbered instructions shown under the hint.
    pub fn steps(self) -> (s: &'static [&'static str])
        ensures
            s@.len() == steps_of(self).len(),
            forall|i: int| 0 <= i < s@.len() ==> #[trigger] s@[i]@ == steps_of(self)[i],
    {
        match self {
            Stage::Credentials => &CREDENTIAL_STEPS,
            Stage::Code => &CODE_STEPS,
            Stage::Password => &PASSWORD_STEPS,
            Stage::Phone => &NO_STEPS,
        }
    }

    /// A page this stage can open in the browser: only the first one has.
    pub fn link(self) -> (l: Option<Link>)
        ensures
            match self {
                Stage::Credentials => l matches Some(k) && k.label@ == "Open my.telegram.org"@
                    && k.url@ == "https://my.telegram.org/apps"@,
                _ => l is None,
            },
    {
        match self {
            Stage::Credentials => Some(Link { label: "Open my.telegram.org", url: "https://my.telegram.org/apps" }),
            _ => None,
        }
    }

    /// Which fields this stage shows.
    pub fn fields(self) -> (f: &'static [Field])
        ensures
            f@ == fields_of(self),
    {
        match self {
            Stage::Credentials => &CREDENTIAL_FIELDS,
            Stage::Phone => &PHONE_FIELDS,
            Stage::Code => &CODE_FIELDS,
            Stage::Password => &PASSWORD_FIELDS,
        }
    }

    pub fn action(self) -> (a: &'static str)
        ensures
            a@ == action_of(self),
    {
        match self {
            Stage::Credentials => "Continue",
            Stage::Phone => "Send code",
            Stage::Code => "Sign in",
            Stage::Password => "Sign in",
        }
    }
}

pub open spec fn field_label(f: Field) -> Seq<char> {
    match f {
        Field::ApiId => "api_id"@,
        Field::ApiHash => "api_hash"@,
        Field::Phone => "Phone"@,
        Field::Code => "Code"@,
        Field::Password => "Password"@,
    }
}

impl Field {
    pub fn label(self) -> (l: &'static str)
        ensures
            l@ == field_label(self),
    {
        match self {
            Field::ApiId => "api_id",
            Field::ApiHash => "api_hash",
            Field::Phone => "Phone",
            Field::Code => "Code",
            Field::Password => "Password",
        }
    }

    /// Is this a secret that should not be shown on screen? The password and
    /// the api_hash are.
    pub fn masked(self) -> (b: bool)
        ensures
            b == (self == Field::Password || self == Field::ApiHash),
    {
        match self {
            Field::Password | Field::ApiHash => true,
            _ => false,
        }
    }
}

/// Every stage asks for at least one field, and has a title and an action.
pub proof fn law_every_stage_asks_for_something(s: Stage)
    ensures
        fields_of(s).len() > 0,
        title_of(s).len() > 0,
        action_of(s).len() > 0,
{
    reveal_strlit("API credentials");
    reveal_strlit("Phone number");
    reveal_strlit("Login code");
    reveal_strlit("Two-factor password");
    reveal_strlit("Continue");
    reveal_strlit("Send code");
    reveal_strlit("Sign in");
}

/// Different stages have different titles.
pub proof fn law_stage_titles_are_distinct(a: Stage, b: Stage)
    requires
        a != b,
    ensures
        title_of(a) != title_of(b),
{
    reveal_strlit("API credentials");
    reveal_strlit("Phone number");
    reveal_strlit("Login code");
    reveal_strlit("Two-factor password");
    assert("API credentials"@[0] != "Phone number"@[0]);
    assert("API credentials"@[0] != "Login code"@[0]);
    assert("API credentials"@[0] != "Two-factor password"@[0]);
    assert("Phone number"@[0] != "Login code"@[0]);
    assert("Phone number"@[0] != "Two-factor password"@[0]);
    assert("Login code"@[0] != "Two-factor password"@[0]);
}

} // verus!
