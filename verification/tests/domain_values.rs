use newsletter_core::domain::content::Content;
use newsletter_core::domain::description::Description;
use newsletter_core::domain::display_name::DisplayName;
use newsletter_core::domain::title::Title;
use newsletter_core::domain::username::Username;

#[test]
fn title_a_70_grapheme_long_name_is_valid() {
    let name = "ё".repeat(70);

    assert!(Title::parse(name).is_ok());
}

#[test]
fn title_a_name_longer_than_70_graphemes_is_rejected() {
    let name = "a".repeat(71);

    assert!(Title::parse(name).is_err());
}

#[test]
fn title_whitespace_only_names_are_rejected() {
    let name = " ".to_string();

    assert!(Title::parse(name).is_err());
}

#[test]
fn title_empty_string_is_rejected() {
    let name = "".to_string();

    assert!(Title::parse(name).is_err());
}

#[test]
fn title_names_containing_an_invalid_character_are_rejected() {
    for name in &['/', '(', ')', '"', '<', '>', '\\', '{', '}'] {
        let name = name.to_string();

        assert!(Title::parse(name).is_err());
    }
}

#[test]
fn title_a_valid_name_is_parsed_successfully() {
    let name = "Ursula Le Guin".to_string();

    assert!(Title::parse(name).is_ok());
}

#[test]
fn a_200_grapheme_long_description_is_valid() {
    let description = "ё".repeat(200);

    assert!(Description::parse(description).is_ok());
}

#[test]
fn a_description_longer_than_200_graphemes_is_rejected() {
    let description = "a".repeat(201);

    assert!(Description::parse(description).is_err());
}

#[test]
fn description_whitespace_only_descriptions_are_rejected() {
    let description = " ".to_string();

    assert!(Description::parse(description).is_err());
}

#[test]
fn description_empty_string_is_rejected() {
    let description = "".to_string();

    assert!(Description::parse(description).is_err());
}

#[test]
fn descriptions_containing_an_invalid_character_are_rejected() {
    for description in &['/', '(', ')', '"', '<', '>', '\\', '{', '}'] {
        let description = description.to_string();

        assert!(Description::parse(description).is_err());
    }
}

#[test]
fn a_valid_description_is_parsed_successfully() {
    let description = "Ursula Le Guin".to_string();

    assert!(Description::parse(description).is_ok());
}

#[test]
fn content_whitespace_only_descriptions_are_rejected() {
    let content = " ".to_string();

    assert!(Content::parse(content).is_err());
}

#[test]
fn content_empty_string_is_rejected() {
    let content = "".to_string();

    assert!(Content::parse(content).is_err());
}

#[test]
fn a_valid_content_is_parsed_successfully() {
    let content = "Ursula Le Guin".to_string();

    assert!(Content::parse(content).is_ok());
}

#[test]
fn display_name_a_70_grapheme_long_name_is_valid() {
    let name = "ё".repeat(70);

    assert!(DisplayName::parse(name).is_ok());
}

#[test]
fn display_name_a_name_longer_than_70_graphemes_is_rejected() {
    let name = "a".repeat(71);

    assert!(DisplayName::parse(name).is_err());
}

#[test]
fn display_name_names_containing_an_invalid_character_are_rejected() {
    for name in &['/', '(', ')', '"', '<', '>', '\\', '{', '}'] {
        let name = name.to_string();

        assert!(DisplayName::parse(name).is_err());
    }
}

#[test]
fn display_name_a_valid_name_is_parsed_successfully() {
    let name = "Ursula Le Guin".to_string();

    assert!(DisplayName::parse(name).is_ok());
}

#[test]
fn username_a_70_grapheme_long_name_is_valid() {
    let name = "ё".repeat(70);

    assert!(Username::parse(name).is_ok());
}

#[test]
fn username_a_name_longer_than_70_graphemes_is_rejected() {
    let name = "a".repeat(71);

    assert!(Username::parse(name).is_err());
}

#[test]
fn username_whitespace_only_names_are_rejected() {
    let name = " ".to_string();

    assert!(Username::parse(name).is_err());
}

#[test]
fn username_empty_string_is_rejected() {
    let name = "".to_string();

    assert!(Username::parse(name).is_err());
}

#[test]
fn username_names_containing_an_invalid_character_are_rejected() {
    let name = "my%dude".to_string();

    assert!(Username::parse(name).is_err());
}

#[test]
fn username_a_valid_name_is_parsed_successfully() {
    let name = "Ursula-Le-Guin".to_string();

    assert!(Username::parse(name).is_ok());
}

#[test]
fn title_error_messages_name_the_failure() {
    assert_eq!(Title::parse("".to_string()).unwrap_err(), "A title is required.");
    assert_eq!(
        Title::parse("a".repeat(71)).unwrap_err(),
        "Title exceeds character limit."
    );
    assert_eq!(
        Title::parse("a{b".to_string()).unwrap_err(),
        "Title includes illegal characters."
    );
}

#[test]
fn username_error_message_carries_the_name() {
    assert_eq!(
        Username::parse("my dude".to_string()).unwrap_err(),
        "my dude is not a valid username."
    );
}
