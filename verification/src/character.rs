//! The character record and its JSON form.

use crate::json::{
    array_value, distinct_keys, error_message, error_text, field, flag_of, flag_value, items_of,
    member_from, members_of, models_of, object_field, object_value, parse_value, parsed_json,
    pretty, pretty_text, strip_bom, text_of, text_value, unsigned_of, unsigned_value,
    value_model, without_bom, JsonModel,
};
use vstd::prelude::*;
use vstd::string::*;

verus! {

/// One game character.
#[derive(Debug, Clone, PartialEq, Eq)]
pub struct Character {
    pub name: String,
    pub health: u8,
    pub subclass: String,
    pub description: String,
    pub attack: u8,
    pub defense: u8,
    pub will: u8,
    pub speed: u8,
    pub is_flying: bool,
    pub attacks: Vec<String>,
}

/// A character as a mathematical value.
pub struct CharacterView {
    pub name: Seq<char>,
    pub health: u8,
    pub subclass: Seq<char>,
    pub description: Seq<char>,
    pub attack: u8,
    pub defense: u8,
    pub will: u8,
    pub speed: u8,
    pub is_flying: bool,
    pub attacks: Seq<Seq<char>>,
}

/// The texts of a sequence of strings, one for one.
pub open spec fn texts_view(words: Seq<String>) -> Seq<Seq<char>> {
    Seq::new(words.len(), |i: int| words[i]@)
}

impl View for Character {
    type V = CharacterView;

    open spec fn view(&self) -> CharacterView {
        CharacterView {
            name: self.name@,
            health: self.health,
            subclass: self.subclass@,
            description: self.description@,
            attack: self.attack,
            defense: self.defense,
            will: self.will,
            speed: self.speed,
            is_flying: self.is_flying,
            attacks: texts_view(self.attacks@),
        }
    }
}

/// The views of a sequence of characters, one for one.
pub open spec fn characters_view(list: Seq<Character>) -> Seq<CharacterView> {
    Seq::new(list.len(), |i: int| list[i]@)
}

/// Why a text was not taken for a character or a roster.
#[derive(Debug, Clone, PartialEq, Eq)]
pub enum DecodeError {
    /// The text is no JSON, or the JSON is not of the record's shape.
    Malformed(String),
}

impl View for DecodeError {
    type V = Seq<char>;

    /// The reason that the error carries.
    open spec fn view(&self) -> Seq<char> {
        match self {
            DecodeError::Malformed(reason) => reason@,
        }
    }
}

impl DecodeError {
    /// The reason, for display.
    pub fn reason(&self) -> (r: String)
        ensures
            r@ == self@,
    {
        match self {
            DecodeError::Malformed(reason) => reason.clone(),
        }
    }
}

/// The reason given for a field that is missing or of the wrong type.
pub open spec fn field_reason(key: Seq<char>) -> Seq<char> {
    "missing or mistyped field: "@ + key
}

/// The reason given for a document that is no array.
pub open spec fn array_reason() -> Seq<char> {
    "expected an array of character records"@
}

/// The text of a string value; empty for any other value.
pub open spec fn text_of_json(j: JsonModel) -> Seq<char> {
    match j {
        JsonModel::Text(s) => s,
        _ => Seq::empty(),
    }
}

/// The text under `key`, if the object has a string there.
pub open spec fn text_field(j: JsonModel, key: Seq<char>) -> Option<Seq<char>> {
    match object_field(j, key) {
        Some(JsonModel::Text(s)) => Some(s),
        _ => None,
    }
}

/// The number under `key`, if the object has an integer from 0 to 255 there.
pub open spec fn byte_field(j: JsonModel, key: Seq<char>) -> Option<u8> {
    match object_field(j, key) {
        Some(JsonModel::Integer(n)) => if 0 <= n <= 255 {
            Some(n as u8)
        } else {
            None
        },
        _ => None,
    }
}

/// The flag under `key`, if the object has a boolean there.
pub open spec fn flag_field(j: JsonModel, key: Seq<char>) -> Option<bool> {
    match object_field(j, key) {
        Some(JsonModel::Bool(b)) => Some(b),
        _ => None,
    }
}

/// Every item is a string.
pub open spec fn all_text(items: Seq<JsonModel>) -> bool {
    forall|i: int| 0 <= i < items.len() ==> #[trigger] items[i] is Text
}

/// The texts of a sequence of string values, one for one.
pub open spec fn texts_of_items(items: Seq<JsonModel>) -> Seq<Seq<char>> {
    Seq::new(items.len(), |i: int| text_of_json(items[i]))
}

/// The texts under `key`, if the object has an array of strings there.
pub open spec fn texts_field(j: JsonModel, key: Seq<char>) -> Option<Seq<Seq<char>>> {
    match object_field(j, key) {
        Some(JsonModel::Array(items)) => if all_text(items) {
            Some(texts_of_items(items))
        } else {
            None
        },
        _ => None,
    }
}

/// The character that a JSON value stands for. The fields are looked for in
/// the record's order, and the first that is missing or of the wrong type
/// gives the reason. Members under other keys are passed over.
///
/// A key that a text repeats is no fault here: the parser keeps one member
/// for each key, with the value that the text gave last, and that member is
/// what is read.
pub open spec fn character_of_json(j: JsonModel) -> Result<CharacterView, Seq<char>> {
    if text_field(j, "name"@) is None {
        Err(field_reason("name"@))
    } else if byte_field(j, "health"@) is None {
        Err(field_reason("health"@))
    } else if text_field(j, "subclass"@) is None {
        Err(field_reason("subclass"@))
    } else if text_field(j, "description"@) is None {
        Err(field_reason("description"@))
    } else if byte_field(j, "attack"@) is None {
        Err(field_reason("attack"@))
    } else if byte_field(j, "defense"@) is None {
        Err(field_reason("defense"@))
    } else if byte_field(j, "will"@) is None {
        Err(field_reason("will"@))
    } else if byte_field(j, "speed"@) is None {
        Err(field_reason("speed"@))
    } else if flag_field(j, "is_flying"@) is None {
        Err(field_reason("is_flying"@))
    } else if texts_field(j, "attacks"@) is None {
        Err(field_reason("attacks"@))
    } else {
        Ok(
            CharacterView {
                name: text_field(j, "name"@).unwrap(),
                health: byte_field(j, "health"@).unwrap(),
                subclass: text_field(j, "subclass"@).unwrap(),
                description: text_field(j, "description"@).unwrap(),
                attack: byte_field(j, "attack"@).unwrap(),
                defense: byte_field(j, "defense"@).unwrap(),
                will: byte_field(j, "will"@).unwrap(),
                speed: byte_field(j, "speed"@).unwrap(),
                is_flying: flag_field(j, "is_flying"@).unwrap(),
                attacks: texts_field(j, "attacks"@).unwrap(),
            },
        )
    }
}

/// The characters that a sequence of JSON values stands for, or the reason
/// of the first value that stands for none.
pub open spec fn characters_of_items(items: Seq<JsonModel>) -> Result<
    Seq<CharacterView>,
    Seq<char>,
>
    decreases items.len(),
{
    if items.len() == 0 {
        Ok(Seq::empty())
    } else {
        match characters_of_items(items.drop_last()) {
            Err(reason) => Err(reason),
            Ok(front) => match character_of_json(items.last()) {
                Err(reason) => Err(reason),
                Ok(c) => Ok(front.push(c)),
            },
        }
    }
}

/// The roster that a JSON value stands for: the value is an array, and each
/// item a character.
pub open spec fn roster_of_json(j: JsonModel) -> Result<Seq<CharacterView>, Seq<char>> {
    match j {
        JsonModel::Array(items) => characters_of_items(items),
        _ => Err(array_reason()),
    }
}

/// What decoding makes of the text of one record.
pub open spec fn decode_one_spec(text: Seq<char>) -> Result<CharacterView, Seq<char>> {
    match parsed_json(text) {
        Ok(j) => character_of_json(j),
        Err(message) => Err(message),
    }
}

/// What decoding makes of the text of a roster: leading byte-order marks
/// are dropped, the rest is parsed and read as an array of records.
pub open spec fn decode_spec(text: Seq<char>) -> Result<Seq<CharacterView>, Seq<char>> {
    match parsed_json(without_bom(text)) {
        Ok(j) => roster_of_json(j),
        Err(message) => Err(message),
    }
}

/// The outcome of decoding one record, as a mathematical value.
pub open spec fn decoded_character(r: Result<Character, DecodeError>) -> Result<
    CharacterView,
    Seq<char>,
> {
    match r {
        Ok(c) => Ok(c@),
        Err(e) => Err(e@),
    }
}

/// The outcome of decoding a roster, as a mathematical value.
pub open spec fn decoded_roster(r: Result<Vec<Character>, DecodeError>) -> Result<
    Seq<CharacterView>,
    Seq<char>,
> {
    match r {
        Ok(list) => Ok(characters_view(list@)),
        Err(e) => Err(e@),
    }
}

/// The JSON array of strings for a sequence of texts.
pub open spec fn json_of_texts(words: Seq<Seq<char>>) -> JsonModel {
    JsonModel::Array(Seq::new(words.len(), |i: int| JsonModel::Text(words[i])))
}

/// The JSON object for a character: one member for each field, in the
/// record's order.
pub open spec fn json_of_character(c: CharacterView) -> JsonModel {
    JsonModel::Object(
        seq![
            ("name"@, JsonModel::Text(c.name)),
            ("health"@, JsonModel::Integer(c.health as int)),
            ("subclass"@, JsonModel::Text(c.subclass)),
            ("description"@, JsonModel::Text(c.description)),
            ("attack"@, JsonModel::Integer(c.attack as int)),
            ("defense"@, JsonModel::Integer(c.defense as int)),
            ("will"@, JsonModel::Integer(c.will as int)),
            ("speed"@, JsonModel::Integer(c.speed as int)),
            ("is_flying"@, JsonModel::Bool(c.is_flying)),
            ("attacks"@, json_of_texts(c.attacks)),
        ],
    )
}

/// The JSON array for a roster.
pub open spec fn json_of_roster(roster: Seq<CharacterView>) -> JsonModel {
    JsonModel::Array(Seq::new(roster.len(), |i: int| json_of_character(roster[i])))
}

/// The text that encoding gives for a roster: what the printer writes for
/// the roster's JSON array, or `[]` where the printer writes nothing.
pub open spec fn encode_spec(roster: Seq<CharacterView>) -> Seq<char> {
    text_or_empty_array(pretty_text(json_of_roster(roster)))
}

/// The error for a field that is missing or of the wrong type.
fn field_error(key: &str) -> (e: DecodeError)
    ensures
        e@ == field_reason(key@),
{
    DecodeError::Malformed(String::from_str("missing or mistyped field: ").concat(key))
}

fn read_text(v: &serde_json::Value, key: &str) -> (r: Result<String, DecodeError>)
    ensures
        match r {
            Ok(s) => text_field(value_model(*v), key@) == Some(s@),
            Err(e) => text_field(value_model(*v), key@) is None && e@ == field_reason(key@),
        },
{
    match field(v, key) {
        Some(f) => match text_of(f) {
            Some(s) => Ok(String::from_str(s)),
            None => Err(field_error(key)),
        },
        None => Err(field_error(key)),
    }
}

fn read_byte(v: &serde_json::Value, key: &str) -> (r: Result<u8, DecodeError>)
    ensures
        match r {
            Ok(n) => byte_field(value_model(*v), key@) == Some(n),
            Err(e) => byte_field(value_model(*v), key@) is None && e@ == field_reason(key@),
        },
{
    match field(v, key) {
        Some(f) => match unsigned_of(f) {
            Some(n) => if n <= 255 {
                Ok(n as u8)
            } else {
                Err(field_error(key))
            },
            None => Err(field_error(key)),
        },
        None => Err(field_error(key)),
    }
}

fn read_flag(v: &serde_json::Value, key: &str) -> (r: Result<bool, DecodeError>)
    ensures
        match r {
            Ok(b) => flag_field(value_model(*v), key@) == Some(b),
            Err(e) => flag_field(value_model(*v), key@) is None && e@ == field_reason(key@),
        },
{
    match field(v, key) {
        Some(f) => match flag_of(f) {
            Some(b) => Ok(b),
            None => Err(field_error(key)),
        },
        None => Err(field_error(key)),
    }
}

fn read_texts(v: &serde_json::Value, key: &str) -> (r: Result<Vec<String>, DecodeError>)
    ensures
        match r {
            Ok(words) => texts_field(value_model(*v), key@) == Some(texts_view(words@)),
            Err(e) => texts_field(value_model(*v), key@) is None && e@ == field_reason(key@),
        },
{
    let items = match field(v, key) {
        Some(f) => match items_of(f) {
            Some(items) => items,
            None => {
                return Err(field_error(key));
            },
        },
        None => {
            return Err(field_error(key));
        },
    };
    let ghost models = models_of(items@);
    let mut words: Vec<String> = Vec::new();
    let mut i: usize = 0;
    while i < items.len()
        invariant
            i <= items.len(),
            models == models_of(items@),
            object_field(value_model(*v), key@) == Some(JsonModel::Array(models)),
            words@.len() == i,
            forall|k: int| 0 <= k < i ==> #[trigger] models[k] is Text,
            forall|k: int| 0 <= k < i ==> #[trigger] words@[k]@ == text_of_json(models[k]),
        decreases items.len() - i,
    {
        match text_of(&items[i]) {
            Some(s) => {
                words.push(String::from_str(s));
            },
            None => {
                assert(!(models[i as int] is Text));
                return Err(field_error(key));
            },
        }
        i += 1;
    }
    assert(texts_view(words@) =~= texts_of_items(models));
    Ok(words)
}

/// Reads one character from a JSON value.
pub fn character_from_value(v: &serde_json::Value) -> (r: Result<Character, DecodeError>)
    ensures
        decoded_character(r) == character_of_json(value_model(*v)),
{
    let name = match read_text(v, "name") {
        Ok(x) => x,
        Err(e) => {
            return Err(e);
        },
    };
    let health = match read_byte(v, "health") {
        Ok(x) => x,
        Err(e) => {
            return Err(e);
        },
    };
    let subclass = match read_text(v, "subclass") {
        Ok(x) => x,
        Err(e) => {
            return Err(e);
        },
    };
    let description = match read_text(v, "description") {
        Ok(x) => x,
        Err(e) => {
            return Err(e);
        },
    };
    let attack = match read_byte(v, "attack") {
        Ok(x) => x,
        Err(e) => {
            return Err(e);
        },
    };
    let defense = match read_byte(v, "defense") {
        Ok(x) => x,
        Err(e) => {
            return Err(e);
        },
    };
    let will = match read_byte(v, "will") {
        Ok(x) => x,
        Err(e) => {
            return Err(e);
        },
    };
    let speed = match read_byte(v, "speed") {
        Ok(x) => x,
        Err(e) => {
            return Err(e);
        },
    };
    let is_flying = match read_flag(v, "is_flying") {
        Ok(x) => x,
        Err(e) => {
            return Err(e);
        },
    };
    let attacks = match read_texts(v, "attacks") {
        Ok(x) => x,
        Err(e) => {
            return Err(e);
        },
    };
    Ok(
        Character {
            name,
            health,
            subclass,
            description,
            attack,
            defense,
            will,
            speed,
            is_flying,
            attacks,
        },
    )
}

/// Reads a roster from a JSON value.
pub fn roster_from_value(v: &serde_json::Value) -> (r: Result<Vec<Character>, DecodeError>)
    ensures
        decoded_roster(r) == roster_of_json(value_model(*v)),
{
    let items = match items_of(v) {
        Some(items) => items,
        None => {
            return Err(
                DecodeError::Malformed(String::from_str("expected an array of character records")),
            );
        },
    };
    let ghost models = models_of(items@);
    let mut list: Vec<Character> = Vec::new();
    let mut i: usize = 0;
    proof {
        assert(models.take(0).len() == 0);
        assert(characters_view(list@) =~= Seq::empty());
    }
    while i < items.len()
        invariant
            i <= items.len(),
            models == models_of(items@),
            value_model(*v) == JsonModel::Array(models),
            characters_of_items(models.take(i as int)) == Ok::<Seq<CharacterView>, Seq<char>>(
                characters_view(list@),
            ),
        decreases items.len() - i,
    {
        proof {
            assert(models.take(i + 1).drop_last() =~= models.take(i as int));
            assert(models.take(i + 1).last() == value_model(items@[i as int]));
        }
        match character_from_value(&items[i]) {
            Ok(c) => {
                let ghost before = characters_view(list@);
                list.push(c);
                assert(characters_view(list@) =~= before.push(c@));
            },
            Err(e) => {
                proof {
                    assert(characters_of_items(models.take(i + 1)) == Err::<
                        Seq<CharacterView>,
                        Seq<char>,
                    >(e@));
                    lemma_first_failure_stays(models, i + 1);
                }
                return Err(e);
            },
        }
        i += 1;
    }
    assert(models.take(i as int) =~= models);
    Ok(list)
}

/// Once a prefix of the items fails to decode, the whole fails with the
/// same reason.
proof fn lemma_first_failure_stays(items: Seq<JsonModel>, n: int)
    requires
        0 <= n <= items.len(),
        characters_of_items(items.take(n)) is Err,
    ensures
        characters_of_items(items) == characters_of_items(items.take(n)),
    decreases items.len() - n,
{
    if n < items.len() {
        assert(items.take(n + 1).drop_last() =~= items.take(n));
        lemma_first_failure_stays(items, n + 1);
    } else {
        assert(items.take(n) =~= items);
    }
}

/// The error for a text that the parser refused.
pub fn parse_error(e: &serde_json::Error) -> (r: DecodeError)
    ensures
        r@ == error_message(*e),
{
    DecodeError::Malformed(error_text(e))
}

/// The text without the byte-order marks that it starts with.
pub fn without_marks(text: &str) -> (r: &str)
    ensures
        r@ == without_bom(text@),
{
    strip_bom(text)
}

/// Decodes the JSON text of one record.
///
/// The text must be a JSON object with a member of the right type for each
/// field of the record; anything else is `Malformed`, with the parser's
/// message or the name of the first field at fault.
pub fn decode_one(json_text: &str) -> (r: Result<Character, DecodeError>)
    ensures
        decoded_character(r) == decode_one_spec(json_text@),
{
    match parse_value(json_text) {
        Ok(v) => character_from_value(&v),
        Err(e) => Err(parse_error(&e)),
    }
}

/// Decodes the JSON text of a roster: an array of records, after any
/// leading byte-order marks. An empty array gives an empty roster.
pub fn decode(json_text: &str) -> (r: Result<Vec<Character>, DecodeError>)
    ensures
        decoded_roster(r) == decode_spec(json_text@),
{
    match parse_value(without_marks(json_text)) {
        Ok(v) => roster_from_value(&v),
        Err(e) => Err(parse_error(&e)),
    }
}

/// The keys of a record's JSON object, in the record's order.
pub open spec fn field_names() -> Seq<Seq<char>> {
    seq![
        "name"@,
        "health"@,
        "subclass"@,
        "description"@,
        "attack"@,
        "defense"@,
        "will"@,
        "speed"@,
        "is_flying"@,
        "attacks"@,
    ]
}

/// No two fields of the record share a key.
pub proof fn lemma_field_names_distinct()
    ensures
        forall|i: int, j: int|
            0 <= i < j < field_names().len() ==> field_names()[i] != field_names()[j],
{
    reveal_strlit("name");
    reveal_strlit("health");
    reveal_strlit("subclass");
    reveal_strlit("description");
    reveal_strlit("attack");
    reveal_strlit("defense");
    reveal_strlit("will");
    reveal_strlit("speed");
    reveal_strlit("is_flying");
    reveal_strlit("attacks");
    let names = field_names();
    assert(names[0].len() == 4 && names[0][0] == 'n');
    assert(names[1].len() == 6 && names[1][0] == 'h');
    assert(names[2].len() == 8);
    assert(names[3].len() == 11);
    assert(names[4].len() == 6 && names[4][0] == 'a');
    assert(names[5].len() == 7 && names[5][0] == 'd');
    assert(names[6].len() == 4 && names[6][0] == 'w');
    assert(names[7].len() == 5);
    assert(names[8].len() == 9);
    assert(names[9].len() == 7 && names[9][0] == 'a');
}

/// The JSON value of a list of texts.
fn texts_to_value(words: &Vec<String>) -> (v: serde_json::Value)
    ensures
        value_model(v) == json_of_texts(texts_view(words@)),
{
    let mut items: Vec<serde_json::Value> = Vec::new();
    let mut i: usize = 0;
    while i < words.len()
        invariant
            i <= words.len(),
            items@.len() == i,
            forall|k: int|
                0 <= k < i ==> #[trigger] value_model(items@[k]) == JsonModel::Text(words@[k]@),
        decreases words.len() - i,
    {
        items.push(text_value(words[i].as_str()));
        i += 1;
    }
    assert(models_of(items@) =~= Seq::new(
        texts_view(words@).len(),
        |k: int| JsonModel::Text(texts_view(words@)[k]),
    ));
    array_value(items)
}

/// Writes one character as a JSON value: an object with one member for
/// each field, in the record's order.
pub fn character_to_value(c: &Character) -> (v: serde_json::Value)
    ensures
        value_model(v) == json_of_character(c@),
{
    let mut keys: Vec<String> = Vec::new();
    let mut values: Vec<serde_json::Value> = Vec::new();
    keys.push(String::from_str("name"));
    values.push(text_value(c.name.as_str()));
    keys.push(String::from_str("health"));
    values.push(unsigned_value(c.health as u64));
    keys.push(String::from_str("subclass"));
    values.push(text_value(c.subclass.as_str()));
    keys.push(String::from_str("description"));
    values.push(text_value(c.description.as_str()));
    keys.push(String::from_str("attack"));
    values.push(unsigned_value(c.attack as u64));
    keys.push(String::from_str("defense"));
    values.push(unsigned_value(c.defense as u64));
    keys.push(String::from_str("will"));
    values.push(unsigned_value(c.will as u64));
    keys.push(String::from_str("speed"));
    values.push(unsigned_value(c.speed as u64));
    keys.push(String::from_str("is_flying"));
    values.push(flag_value(c.is_flying));
    keys.push(String::from_str("attacks"));
    values.push(texts_to_value(&c.attacks));
    proof {
        lemma_field_names_distinct();
        assert(keys@.len() == 10 && values@.len() == 10);
        assert forall|i: int| 0 <= i < 10 implies #[trigger] keys@[i]@ == field_names()[i] by {}
        assert(distinct_keys(keys@));
        assert(JsonModel::Object(members_of(keys@, values@)) == json_of_character(c@)) by {
            let expected = json_of_character(c@)->Object_0;
            assert(members_of(keys@, values@) =~= expected);
        }
    }
    object_value(keys, values)
}

/// Writes a roster as a JSON value: the array of its characters.
pub fn roster_to_value(list: &Vec<Character>) -> (v: serde_json::Value)
    ensures
        value_model(v) == json_of_roster(characters_view(list@)),
{
    let mut items: Vec<serde_json::Value> = Vec::new();
    let mut i: usize = 0;
    while i < list.len()
        invariant
            i <= list.len(),
            items@.len() == i,
            forall|k: int|
                0 <= k < i ==> #[trigger] value_model(items@[k]) == json_of_character(list@[k]@),
        decreases list.len() - i,
    {
        items.push(character_to_value(&list[i]));
        i += 1;
    }
    assert(models_of(items@) =~= Seq::new(
        characters_view(list@).len(),
        |k: int| json_of_character(characters_view(list@)[k]),
    ));
    array_value(items)
}

/// What is handed out for the printer's outcome: the text that it wrote,
/// or the empty array where it wrote none.
pub open spec fn text_or_empty_array(printed: Option<Seq<char>>) -> Seq<char> {
    match printed {
        Some(text) => text,
        None => "[]"@,
    }
}

/// The printer's outcome, as a mathematical value.
pub open spec fn printed_view(printed: Result<String, serde_json::Error>) -> Option<Seq<char>> {
    match printed {
        Ok(text) => Some(text@),
        Err(_) => None,
    }
}

/// Settles the printer's outcome: its text, or `[]` in place of an error.
pub fn printed_or_empty_array(printed: Result<String, serde_json::Error>) -> (r: String)
    ensures
        r@ == text_or_empty_array(printed_view(printed)),
{
    match printed {
        Ok(text) => text,
        Err(_) => String::from_str("[]"),
    }
}

/// Encodes a roster as pretty-printed JSON text: an array with one object
/// for each character, the fields in the record's order. The text is `[]`
/// only where the printer reports an error for that array.
pub fn encode(list: &Vec<Character>) -> (r: String)
    ensures
        r@ == encode_spec(characters_view(list@)),
{
    let v = roster_to_value(list);
    printed_or_empty_array(pretty(&v))
}

/// Strictness: a JSON value that lacks a member under one of the record's
/// keys stands for no character.
pub proof fn lemma_missing_field_rejected(j: JsonModel, i: int)
    requires
        0 <= i < field_names().len(),
        object_field(j, field_names()[i]) is None,
    ensures
        character_of_json(j) is Err,
{
}

/// A text is refused as a record where the parser refuses it, and where it
/// parses to a value that lacks a member under one of the record's keys.
pub proof fn lemma_decode_one_rejects(text: Seq<char>, i: int)
    requires
        0 <= i < field_names().len(),
        match parsed_json(text) {
            Ok(j) => object_field(j, field_names()[i]) is None,
            Err(_) => true,
        },
    ensures
        decode_one_spec(text) is Err,
{
}

/// A JSON value that is no object stands for no character, and the reason
/// names the first field.
pub proof fn lemma_only_objects_are_records(j: JsonModel)
    requires
        !(j is Object),
    ensures
        character_of_json(j) == Err::<CharacterView, Seq<char>>(field_reason("name"@)),
{
}

/// Reading back the JSON object of a character gives the character.
pub proof fn lemma_character_round_trip(c: CharacterView)
    ensures
        character_of_json(json_of_character(c)) == Ok::<CharacterView, Seq<char>>(c),
{
    lemma_field_names_distinct();
    reveal_with_fuel(member_from, 11);
    let j = json_of_character(c);
    let members = j->Object_0;
    assert forall|i: int| 0 <= i < 10 implies #[trigger] members[i].0 == field_names()[i] by {}
    assert(object_field(j, "name"@) == Some(JsonModel::Text(c.name)));
    assert(object_field(j, "health"@) == Some(JsonModel::Integer(c.health as int)));
    assert(object_field(j, "subclass"@) == Some(JsonModel::Text(c.subclass)));
    assert(object_field(j, "description"@) == Some(JsonModel::Text(c.description)));
    assert(object_field(j, "attack"@) == Some(JsonModel::Integer(c.attack as int)));
    assert(object_field(j, "defense"@) == Some(JsonModel::Integer(c.defense as int)));
    assert(object_field(j, "will"@) == Some(JsonModel::Integer(c.will as int)));
    assert(object_field(j, "speed"@) == Some(JsonModel::Integer(c.speed as int)));
    assert(object_field(j, "is_flying"@) == Some(JsonModel::Bool(c.is_flying)));
    assert(object_field(j, "attacks"@) == Some(json_of_texts(c.attacks)));
    let items = json_of_texts(c.attacks)->Array_0;
    assert(all_text(items));
    assert(texts_of_items(items) =~= c.attacks);
}

/// Reading back the JSON array of a roster gives the roster, record for
/// record and in the same order.
pub proof fn lemma_roster_round_trip(roster: Seq<CharacterView>)
    ensures
        roster_of_json(json_of_roster(roster)) == Ok::<Seq<CharacterView>, Seq<char>>(roster),
    decreases roster.len(),
{
    let items = json_of_roster(roster)->Array_0;
    if roster.len() == 0 {
        assert(roster =~= Seq::empty());
    } else {
        let front = roster.drop_last();
        lemma_roster_round_trip(front);
        assert(json_of_roster(front)->Array_0 =~= items.drop_last());
        lemma_character_round_trip(roster.last());
        assert(front.push(roster.last()) =~= roster);
    }
}

/// Round trip: where the parser reads the printer's text for a roster back
/// as the value that was printed, decoding the encoded roster gives the
/// roster, field for field and in the same order.
pub proof fn lemma_decode_encode(roster: Seq<CharacterView>)
    requires
        parsed_json(without_bom(encode_spec(roster))) == Ok::<JsonModel, Seq<char>>(
            json_of_roster(roster),
        ),
    ensures
        decode_spec(encode_spec(roster)) == Ok::<Seq<CharacterView>, Seq<char>>(roster),
{
    lemma_roster_round_trip(roster);
}

} // verus!
