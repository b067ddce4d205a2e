use lw_rpg::character::{
    character_from_value, character_to_value, decode, decode_one, encode, printed_or_empty_array,
    roster_from_value, roster_to_value, without_marks,
};
use lw_rpg::{Character, CharacterList, DecodeError};

const SEED: &str = r#"[
    {
        "name": "The Archangel",
        "health": 40,
        "subclass": "Celestial",
        "description": "A winged guardian",
        "attack": 9,
        "defense": 7,
        "will": 10,
        "speed": 8,
        "is_flying": true,
        "attacks": ["Smite - 10 - holy strike within 2 paces", "Wing Gust - 3 - pushes back"]
    },
    {
        "name": "The Enemy",
        "health": 30,
        "subclass": "Fiend",
        "description": "",
        "attack": 8,
        "defense": 5,
        "will": 6,
        "speed": 5,
        "is_flying": false,
        "attacks": []
    }
]"#;

fn record(name: &str) -> String {
    format!(
        r#"{{"name":"{}","health":12,"subclass":"Scout","description":"quick","attack":3,"defense":4,"will":5,"speed":6,"is_flying":false,"attacks":["Jab - 2","Kick - 3"]}}"#,
        name
    )
}

fn sample(name: &str) -> Character {
    Character {
        name: name.to_string(),
        health: 12,
        subclass: "Scout".to_string(),
        description: "quick".to_string(),
        attack: 3,
        defense: 4,
        will: 5,
        speed: 6,
        is_flying: false,
        attacks: vec!["Jab - 2".to_string(), "Kick - 3".to_string()],
    }
}

#[test]
fn test_append_and_get_lw_json() {
    let mut char_list = CharacterList::new(SEED);
    let initial_count = char_list.get_character_count();

    let test_character = r#"{
        "name": "Test Warrior",
        "health": 25,
        "subclass": "Test Fighter",
        "description": "A test character for unit testing",
        "attack": 6,
        "defense": 4,
        "will": 8,
        "speed": 7,
        "is_flying": false,
        "attacks": [
            "Sword Strike - 8 - basic melee attack within 1 pace",
            "Shield Bash - 4 - stun enemy for one turn within 1 pace"
        ]
    }"#;

    let result = char_list.append_and_get_lw_json(test_character);

    assert!(result.is_ok(), "append_and_get_lw_json should succeed");

    let json_output = result.unwrap();
    println!("Generated JSON output:");
    println!("{}", json_output);
    assert!(
        json_output.contains("The Archangel"),
        "Should contain first character"
    );
    assert!(
        json_output.contains("The Enemy"),
        "Should contain second character"
    );
    assert!(
        json_output.contains("Test Warrior"),
        "Should contain newly added test character"
    );

    assert_eq!(
        char_list.get_character_count(),
        initial_count + 1,
        "Character count should increase by 1"
    );
    assert!(
        char_list.has_new_characters(),
        "Should mark as having new characters"
    );
}

#[test]
fn test_append_invalid_json() {
    let mut char_list = CharacterList::new(SEED);
    let invalid_json = r#"{"invalid": "json structure"}"#;

    let result = char_list.append_and_get_lw_json(invalid_json);
    assert!(result.is_err(), "Should fail with invalid JSON structure");
}

#[test]
fn construct_append_delete_scenario() {
    let mut roster = CharacterList::new(&format!("[{}]", record("A")));
    assert_eq!(roster.get_character_count(), 1);
    assert!(!roster.has_new_characters());
    assert_eq!(roster.add_character(&record("B")), Ok(()));
    assert_eq!(roster.get_character_count(), 2);
    assert_eq!(roster.get_name_list(), b"A\0B\0");
    roster.delete_character(0);
    assert_eq!(roster.get_character_count(), 1);
    assert_eq!(roster.get_name(0), b"B");
    assert_eq!(roster.get_name_size(0), 1);
    assert_eq!(roster.get_name_list(), b"B\0");
}

#[test]
fn failed_append_changes_nothing() {
    let mut roster = CharacterList::new(SEED);
    let before_json = roster.get_updated_json();
    let before_index = roster.get_name_list().to_vec();
    let result = roster.add_character(r#"{"invalid":"json"}"#);
    assert_eq!(
        result,
        Err(DecodeError::Malformed("missing or mistyped field: name".to_string()))
    );
    assert_eq!(roster.get_character_count(), 2);
    assert_eq!(roster.get_name_list(), &before_index[..]);
    assert_eq!(roster.get_updated_json(), before_json);
    assert!(!roster.has_new_characters());
    assert_eq!(roster.get_health(0), 40);
    assert_eq!(roster.get_name(1), b"The Enemy");
}

#[test]
fn failed_append_on_empty_roster() {
    let mut roster = CharacterList::new("[]");
    assert!(roster.add_character("{not json").is_err());
    assert_eq!(roster.get_character_count(), 0);
    assert_eq!(roster.get_name_list(), b"");
}

#[test]
fn round_trip_of_a_roster() {
    let roster = vec![sample("Ann"), sample("Bob \"the\" Brave\n"), sample("Zoë")];
    let text = encode(&roster);
    assert_eq!(decode(&text), Ok(roster));
}

#[test]
fn round_trip_of_the_empty_roster() {
    let text = encode(&Vec::new());
    assert_eq!(text, "[]");
    assert_eq!(decode(&text), Ok(Vec::new()));
}

#[test]
fn round_trip_of_one_value() {
    let c = sample("Ann");
    assert_eq!(character_from_value(&character_to_value(&c)), Ok(c));
    let list = vec![sample("Ann"), sample("Bob")];
    assert_eq!(roster_from_value(&roster_to_value(&list)), Ok(list));
}

#[test]
fn encode_writes_the_fields_in_record_order() {
    let mut c = sample("Ann");
    c.attacks = vec!["Jab".to_string()];
    c.is_flying = true;
    let expected = r#"[
  {
    "name": "Ann",
    "health": 12,
    "subclass": "Scout",
    "description": "quick",
    "attack": 3,
    "defense": 4,
    "will": 5,
    "speed": 6,
    "is_flying": true,
    "attacks": [
      "Jab"
    ]
  }
]"#;
    assert_eq!(encode(&vec![c]), expected);
}

#[test]
fn decode_one_reads_every_field() {
    assert_eq!(decode_one(&record("Ann")), Ok(sample("Ann")));
}

#[test]
fn decode_passes_over_other_members() {
    let text = r#"{"extra":[1,2],"attacks":[],"is_flying":true,"speed":0,"will":255,"defense":1,"attack":2,"description":"","subclass":"","health":3,"name":"N","companions":null}"#;
    let c = decode_one(text).unwrap();
    assert_eq!(c.name, "N");
    assert_eq!(c.health, 3);
    assert_eq!(c.will, 255);
    assert_eq!(c.speed, 0);
    assert!(c.is_flying);
    assert!(c.attacks.is_empty());
}

#[test]
fn decode_drops_leading_byte_order_marks() {
    let text = format!("\u{feff}[{}]", record("Ann"));
    assert_eq!(decode(&text), Ok(vec![sample("Ann")]));
    let twice = format!("\u{feff}\u{feff}[{}]", record("Ann"));
    assert_eq!(decode(&twice), Ok(vec![sample("Ann")]));
    assert!(decode_one(&format!("\u{feff}{}", record("Ann"))).is_err());
}

#[test]
fn decode_of_an_empty_array() {
    assert_eq!(decode("[]"), Ok(Vec::new()));
    assert_eq!(decode("  [ ]\n"), Ok(Vec::new()));
}

#[test]
fn decode_refuses_what_is_no_array() {
    let expected = Err(DecodeError::Malformed(
        "expected an array of character records".to_string(),
    ));
    assert_eq!(decode(&record("Ann")), expected);
    assert_eq!(decode("3"), expected);
}

#[test]
fn decode_reports_the_parsers_message() {
    let e = decode("[").unwrap_err();
    let expected = serde_json::from_str::<serde_json::Value>("[")
        .unwrap_err()
        .to_string();
    assert_eq!(e.reason(), expected);
    assert_eq!(e, DecodeError::Malformed(expected));
    assert!(decode_one("").is_err());
}

fn reason_of(text: &str) -> String {
    decode_one(text).unwrap_err().reason()
}

#[test]
fn decode_names_the_first_field_at_fault() {
    assert_eq!(reason_of("{}"), "missing or mistyped field: name");
    assert_eq!(reason_of("[]"), "missing or mistyped field: name");
    assert_eq!(reason_of(r#"{"name":7}"#), "missing or mistyped field: name");
    assert_eq!(reason_of(r#"{"name":"A"}"#), "missing or mistyped field: health");
    let with_health = |h: &str| record("A").replace("\"health\":12", &format!("\"health\":{}", h));
    assert_eq!(reason_of(&with_health("256")), "missing or mistyped field: health");
    assert_eq!(reason_of(&with_health("-1")), "missing or mistyped field: health");
    assert_eq!(reason_of(&with_health("1.5")), "missing or mistyped field: health");
    assert_eq!(reason_of(&with_health("\"12\"")), "missing or mistyped field: health");
    assert_eq!(decode_one(&with_health("255")).unwrap().health, 255);
    assert_eq!(decode_one(&with_health("0")).unwrap().health, 0);
    assert_eq!(
        reason_of(&record("A").replace("\"subclass\":\"Scout\"", "\"subclass\":null")),
        "missing or mistyped field: subclass"
    );
    assert_eq!(
        reason_of(&record("A").replace("\"description\":\"quick\",", "")),
        "missing or mistyped field: description"
    );
    assert_eq!(
        reason_of(&record("A").replace("\"attack\":3", "\"attack\":true")),
        "missing or mistyped field: attack"
    );
    assert_eq!(
        reason_of(&record("A").replace("\"defense\":4", "\"defense\":[]")),
        "missing or mistyped field: defense"
    );
    assert_eq!(
        reason_of(&record("A").replace("\"will\":5", "\"will\":300")),
        "missing or mistyped field: will"
    );
    assert_eq!(
        reason_of(&record("A").replace("\"speed\":6", "\"speed\":{}")),
        "missing or mistyped field: speed"
    );
    assert_eq!(
        reason_of(&record("A").replace("\"is_flying\":false", "\"is_flying\":0")),
        "missing or mistyped field: is_flying"
    );
    assert_eq!(
        reason_of(&record("A").replace("[\"Jab - 2\",\"Kick - 3\"]", "[\"Jab - 2\",3]")),
        "missing or mistyped field: attacks"
    );
    assert_eq!(
        reason_of(&record("A").replace("[\"Jab - 2\",\"Kick - 3\"]", "\"Jab\"")),
        "missing or mistyped field: attacks"
    );
}

#[test]
fn decode_stops_at_the_first_bad_record() {
    let text = format!("[{},{{\"name\":\"B\"}},{{}}]", record("A"));
    assert_eq!(
        decode(&text),
        Err(DecodeError::Malformed("missing or mistyped field: health".to_string()))
    );
    assert_eq!(CharacterList::from_json(&text).unwrap_err().reason(), "missing or mistyped field: health");
}

#[test]
fn from_json_builds_the_roster() {
    let roster = CharacterList::from_json(SEED).unwrap();
    assert_eq!(roster.get_character_count(), 2);
    assert_eq!(roster.get_name_list(), b"The Archangel\0The Enemy\0");
    assert!(!roster.has_new_characters());
}

#[test]
fn from_characters_builds_the_name_index() {
    let list = vec![sample("Ann"), sample(""), sample("Zoë")];
    assert_eq!(CharacterList::build_name_list(&list), b"Ann\0\0Zo\xc3\xab\0");
    let roster = CharacterList::from_characters(list);
    assert_eq!(roster.get_name_list(), b"Ann\0\0Zo\xc3\xab\0");
    assert_eq!(roster.get_name(2), "Zoë".as_bytes());
    assert_eq!(roster.get_name_size(2), 4);
    assert_eq!(roster.get_name_size(1), 0);
}

#[test]
fn delete_moves_later_records_down() {
    let mut roster = CharacterList::from_characters(vec![
        sample("A"),
        sample("B"),
        sample("C"),
        sample("D"),
    ]);
    roster.delete_character(1);
    assert_eq!(roster.get_character_count(), 3);
    assert_eq!(roster.get_name(0), b"A");
    assert_eq!(roster.get_name(1), b"C");
    assert_eq!(roster.get_name(2), b"D");
    assert_eq!(roster.get_name_list(), b"A\0C\0D\0");
    roster.delete_character(2);
    assert_eq!(roster.get_name_list(), b"A\0C\0");
}

#[test]
fn delete_past_the_end_changes_nothing() {
    let mut roster = CharacterList::from_characters(vec![sample("A"), sample("B")]);
    roster.delete_character(2);
    assert_eq!(roster.get_character_count(), 2);
    assert_eq!(roster.get_name_list(), b"A\0B\0");
    roster.delete_character(usize::MAX);
    assert_eq!(roster.get_character_count(), 2);
    let mut empty = CharacterList::new("[]");
    empty.delete_character(0);
    assert_eq!(empty.get_character_count(), 0);
}

#[test]
fn pending_flag_is_set_and_cleared() {
    let mut roster = CharacterList::new(SEED);
    assert!(!roster.has_new_characters());
    roster.add_character(&record("New")).unwrap();
    assert!(roster.has_new_characters());
    roster.delete_character(0);
    assert!(roster.has_new_characters());
    roster.mark_submitted();
    assert!(!roster.has_new_characters());
    assert_eq!(roster.get_character_count(), 2);
    assert_eq!(roster.get_name_list(), b"The Enemy\0New\0");
}

#[test]
fn getters_read_each_field() {
    let roster = CharacterList::new(SEED);
    assert_eq!(roster.get_health(0), 40);
    assert_eq!(roster.get_attack(0), 9);
    assert_eq!(roster.get_defense(0), 7);
    assert_eq!(roster.get_will(0), 10);
    assert_eq!(roster.get_speed(0), 8);
    assert!(roster.get_is_flying(0));
    assert!(!roster.get_is_flying(1));
    assert_eq!(roster.get_subclass(0), b"Celestial");
    assert_eq!(roster.get_subclass_size(0), 9);
    assert_eq!(roster.get_description(0), b"A winged guardian");
    assert_eq!(roster.get_description_size(0), 17);
    assert_eq!(roster.get_description(1), b"");
    assert_eq!(roster.get_description_size(1), 0);
    assert_eq!(roster.get_name_size(0), 13);
}

#[test]
fn attacks_are_flattened_with_terminators() {
    let roster = CharacterList::from_characters(vec![sample("A")]);
    assert_eq!(roster.get_attacks(0), b"Jab - 2\0Kick - 3\0");
    assert_eq!(roster.get_attacks_count(0), 2);
    let seeded = CharacterList::new(SEED);
    assert_eq!(seeded.get_attacks(1), b"");
    assert_eq!(seeded.get_attacks_count(1), 0);
}

#[test]
fn updated_json_decodes_to_the_roster() {
    let mut roster = CharacterList::new(SEED);
    roster.add_character(&record("New")).unwrap();
    let text = roster.get_updated_json();
    let list = decode(&text).unwrap();
    assert_eq!(list.len(), 3);
    assert_eq!(list[2], sample("New"));
    assert_eq!(encode(&list), text);
}

#[test]
fn commit_messages() {
    let roster = CharacterList::new("[]");
    assert_eq!(roster.get_commit_message("add"), "Add new character");
    assert_eq!(roster.get_commit_message("modify"), "Update character data");
    assert_eq!(roster.get_commit_message("delete"), "Delete character");
    assert_eq!(roster.get_commit_message("anything"), "Update character data");
    assert_eq!(roster.get_commit_message(""), "Update character data");
}

#[test]
fn printer_outcome_is_settled() {
    assert_eq!(printed_or_empty_array(Ok("[1]".to_string())), "[1]");
    let failure = serde_json::from_str::<serde_json::Value>("{").unwrap_err();
    assert_eq!(printed_or_empty_array(Err(failure)), "[]");
}

#[test]
fn values_are_read_as_the_parser_gives_them() {
    let v = serde_json::from_str::<serde_json::Value>(&record("Ann")).unwrap();
    assert_eq!(character_from_value(&v), Ok(sample("Ann")));
    let items = serde_json::Value::Array(vec![v.clone(), v]);
    assert_eq!(roster_from_value(&items), Ok(vec![sample("Ann"), sample("Ann")]));
    assert_eq!(
        roster_from_value(&serde_json::Value::Null),
        Err(DecodeError::Malformed("expected an array of character records".to_string()))
    );
}

#[test]
fn leading_marks_are_removed_and_nothing_else() {
    assert_eq!(without_marks("\u{feff}[]"), "[]");
    assert_eq!(without_marks("\u{feff}\u{feff}\u{feff}x\u{feff}"), "x\u{feff}");
    assert_eq!(without_marks(" \u{feff}[]"), " \u{feff}[]");
    assert_eq!(without_marks("[]"), "[]");
    assert_eq!(without_marks(""), "");
    assert_eq!(without_marks("\u{feff}"), "");
}

#[test]
fn updated_json_of_a_roster_is_never_the_fallback() {
    let mut roster = CharacterList::new(SEED);
    assert!(roster.get_updated_json().len() > 2);
    roster.delete_character(0);
    roster.delete_character(0);
    assert_eq!(roster.get_updated_json(), "[]");
    roster.add_character(&record("Last")).unwrap();
    let text = roster.get_updated_json();
    assert_eq!(decode(&text), Ok(vec![sample("Last")]));
}
