use tgx::gui::login::{Field, Stage};

const ALL: [Stage; 4] = [Stage::Credentials, Stage::Phone, Stage::Code, Stage::Password];

#[test]
fn every_stage_asks_for_something() {
    for stage in ALL {
        assert!(!stage.fields().is_empty(), "{stage:?} asks for nothing");
        assert!(!stage.title().is_empty());
        assert!(!stage.action().is_empty());
    }
}

#[test]
fn no_stage_names_a_screen_that_does_not_exist() {
    for stage in ALL {
        assert!(
            !stage.hint().contains("Settings"),
            "{stage:?} sends the user hunting: {}",
            stage.hint()
        );
    }
}

#[test]
fn the_credentials_stage_says_where_to_get_them() {
    let link = Stage::Credentials.link().expect("no link to my.telegram.org");
    assert!(link.url.starts_with("https://"), "{}", link.url);
    assert!(link.url.contains("my.telegram.org"), "{}", link.url);
    assert!(
        Stage::Credentials.steps().iter().any(|s| s.contains("API development tools")),
        "the steps never name the page the credentials are on"
    );
    assert!(
        Stage::Credentials.steps().iter().any(|s| s.contains("api_id") && s.contains("api_hash")),
        "the steps never say which two values to copy"
    );
}

#[test]
fn the_credentials_steps_say_which_fields_do_not_matter() {
    let joined = Stage::Credentials.steps().join(" ");
    assert!(joined.contains("Platform") || joined.contains("platform"), "{joined}");
    assert!(joined.contains("do not matter"), "{joined}");
}

#[test]
fn the_code_stage_repeats_telegrams_own_warning() {
    let joined = Stage::Code.steps().join(" ");
    assert!(joined.contains("Never give this code to anyone"), "{joined}");
}

#[test]
fn no_step_is_empty_and_only_the_first_stage_links_out() {
    for stage in ALL {
        for step in stage.steps() {
            assert!(!step.trim().is_empty(), "{stage:?} has a blank step");
        }
        if let Some(link) = stage.link() {
            assert_eq!(stage, Stage::Credentials, "{stage:?} should not link out");
            assert!(!link.label.trim().is_empty());
        }
    }
}

#[test]
fn secrets_are_masked_and_ordinary_fields_are_not() {
    assert!(Field::Password.masked());
    assert!(Field::ApiHash.masked(), "the api_hash is a credential too");
    assert!(!Field::Phone.masked());
    assert!(!Field::Code.masked());
    assert!(!Field::ApiId.masked(), "the api_id is not secret");
}

#[test]
fn each_stage_shows_only_its_own_fields() {
    assert_eq!(Stage::Phone.fields(), &[Field::Phone]);
    assert_eq!(Stage::Code.fields(), &[Field::Code]);
    assert_eq!(Stage::Password.fields(), &[Field::Password]);
    assert_eq!(Stage::Credentials.fields(), &[Field::ApiId, Field::ApiHash]);
}

#[test]
fn the_stages_are_distinct() {
    for (i, a) in ALL.iter().enumerate() {
        for b in &ALL[i + 1..] {
            assert_ne!(a, b);
            assert_ne!(a.title(), b.title());
        }
    }
}

#[test]
fn fields_carry_their_labels() {
    assert_eq!(Field::ApiId.label(), "api_id");
    assert_eq!(Field::ApiHash.label(), "api_hash");
    assert_eq!(Field::Phone.label(), "Phone");
    assert_eq!(Stage::Phone.steps().len(), 0);
    assert_eq!(Stage::Code.action(), "Sign in");
    assert_eq!(Stage::Phone.hint(), "With the country code, e.g. +381\u{2026}");
}
