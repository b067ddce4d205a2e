//! The roster of characters and its derived name index.

use crate::character::{
    characters_view, decode, decode_one, decode_one_spec, decode_spec, encode, encode_spec,
    texts_view, Character, CharacterView, DecodeError,
};
use vstd::prelude::*;
use vstd::string::*;
use vstd::utf8::encode_utf8;

verus! {

/// The flattened form of a sequence of texts: the UTF-8 bytes of each text
/// followed by one zero byte, in order.
pub open spec fn terminated(words: Seq<Seq<char>>) -> Seq<u8>
    decreases words.len(),
{
    if words.len() == 0 {
        Seq::empty()
    } else {
        terminated(words.drop_last()) + encode_utf8(words.last()).push(0u8)
    }
}

/// The names of a roster, in roster order.
pub open spec fn names_of(roster: Seq<CharacterView>) -> Seq<Seq<char>> {
    Seq::new(roster.len(), |i: int| roster[i].name)
}

/// The name index of a roster: one zero-terminated name for each record.
pub open spec fn name_index(roster: Seq<CharacterView>) -> Seq<u8> {
    terminated(names_of(roster))
}

/// The message that goes with an action on the roster.
pub open spec fn commit_message(action: Seq<char>) -> Seq<char> {
    if action == "add"@ {
        "Add new character"@
    } else if action == "delete"@ {
        "Delete character"@
    } else {
        "Update character data"@
    }
}

/// Appends the bytes of `word` and a zero byte to `out`.
fn push_terminated(out: &mut Vec<u8>, word: &str)
    ensures
        final(out)@ == old(out)@ + encode_utf8(word@).push(0u8),
{
    let ghost before = out@;
    let bytes = word.as_bytes();
    let mut i: usize = 0;
    while i < bytes.len()
        invariant
            i <= bytes.len(),
            bytes@ == encode_utf8(word@),
            out@ == before + bytes@.take(i as int),
        decreases bytes.len() - i,
    {
        out.push(bytes[i]);
        assert(bytes@.take(i + 1) =~= bytes@.take(i as int).push(bytes@[i as int]));
        i += 1;
    }
    out.push(0u8);
    assert(bytes@.take(i as int) =~= bytes@);
    assert(out@ =~= before + encode_utf8(word@).push(0u8));
}

/// The flattened form of a list of texts.
fn flatten(words: &Vec<String>) -> (r: Vec<u8>)
    ensures
        r@ == terminated(texts_view(words@)),
{
    let ghost texts = texts_view(words@);
    let mut result: Vec<u8> = Vec::new();
    let mut i: usize = 0;
    assert(texts.take(0) =~= Seq::empty());
    while i < words.len()
        invariant
            i <= words.len(),
            texts == texts_view(words@),
            result@ == terminated(texts.take(i as int)),
        decreases words.len() - i,
    {
        push_terminated(&mut result, words[i].as_str());
        proof {
            assert(texts.take(i + 1).drop_last() =~= texts.take(i as int));
            assert(texts.take(i + 1).last() == words@[i as int]@);
        }
        i += 1;
    }
    assert(texts.take(i as int) =~= texts);
    result
}

/// Appending a record to a roster appends its zero-terminated name to the
/// name index and leaves the rest of the index as it was.
pub proof fn lemma_name_index_push(roster: Seq<CharacterView>, c: CharacterView)
    ensures
        name_index(roster.push(c)) == name_index(roster) + encode_utf8(c.name).push(0u8),
{
    assert(names_of(roster.push(c)).drop_last() =~= names_of(roster));
    assert(names_of(roster.push(c)).last() == c.name);
}

/// The number of bytes that the texts take in UTF-8, all together.
pub open spec fn total_bytes(words: Seq<Seq<char>>) -> nat
    decreases words.len(),
{
    if words.len() == 0 {
        0
    } else {
        total_bytes(words.drop_last()) + encode_utf8(words.last()).len()
    }
}

/// The flattened form holds the bytes of the texts and one terminator for
/// each text, nothing more.
pub proof fn lemma_terminated_len(words: Seq<Seq<char>>)
    ensures
        terminated(words).len() == total_bytes(words) + words.len(),
    decreases words.len(),
{
    if words.len() > 0 {
        lemma_terminated_len(words.drop_last());
    }
}

/// Flattening goes text by text: the flattened form of two sequences in a
/// row is the one of the first followed by the one of the second.
pub proof fn lemma_terminated_concat(front: Seq<Seq<char>>, back: Seq<Seq<char>>)
    ensures
        terminated(front + back) == terminated(front) + terminated(back),
    decreases back.len(),
{
    if back.len() == 0 {
        assert(front + back =~= front);
        assert(terminated(front) + terminated(back) =~= terminated(front));
    } else {
        lemma_terminated_concat(front, back.drop_last());
        assert((front + back).drop_last() =~= front + back.drop_last());
        assert((front + back).last() == back.last());
        assert(terminated(front + back) =~= terminated(front) + terminated(back));
    }
}

/// The name index of two rosters in a row is the index of the first
/// followed by the index of the second.
pub proof fn lemma_name_index_concat(front: Seq<CharacterView>, back: Seq<CharacterView>)
    ensures
        name_index(front + back) == name_index(front) + name_index(back),
{
    assert(names_of(front + back) =~= names_of(front) + names_of(back));
    lemma_terminated_concat(names_of(front), names_of(back));
}

/// The name index holds one segment for each record of the roster, no more
/// and no fewer: the bytes of the names and as many terminators as there are
/// records.
pub proof fn lemma_name_index_segments(roster: Seq<CharacterView>)
    ensures
        names_of(roster).len() == roster.len(),
        name_index(roster).len() == total_bytes(names_of(roster)) + roster.len(),
{
    lemma_terminated_len(names_of(roster));
}

/// Deleting a record from a roster leaves the name index of the records
/// that stay, in their order.
pub proof fn lemma_name_index_remove(roster: Seq<CharacterView>, index: int)
    requires
        0 <= index < roster.len(),
    ensures
        names_of(roster.remove(index)) == names_of(roster).remove(index),
        name_index(roster.remove(index)) == terminated(names_of(roster).remove(index)),
{
    assert(names_of(roster.remove(index)) =~= names_of(roster).remove(index));
}

/// The ordered collection of characters, with the name index derived from it
/// and a flag for changes that were not yet handed in.
#[derive(Debug)]
pub struct CharacterList {
    list: Vec<Character>,
    serialized_name_list: Vec<u8>,
    has_new: bool,
}

impl View for CharacterList {
    type V = Seq<CharacterView>;

    /// The records, in roster order.
    closed spec fn view(&self) -> Seq<CharacterView> {
        characters_view(self.list@)
    }
}

impl CharacterList {
    /// Whether the roster holds changes that were not yet handed in.
    pub closed spec fn pending(&self) -> bool {
        self.has_new
    }

    /// The name index that the roster holds is the one derived from its
    /// records: every change of the records brings the index along.
    #[verifier::type_invariant]
    spec fn name_index_in_step(&self) -> bool {
        self.serialized_name_list@ == name_index(characters_view(self.list@))
    }

    /// Builds the name index of a list of characters from scratch.
    pub fn build_name_list(char_list: &Vec<Character>) -> (r: Vec<u8>)
        ensures
            r@ == name_index(characters_view(char_list@)),
    {
        let ghost names = names_of(characters_view(char_list@));
        let mut result: Vec<u8> = Vec::new();
        let mut i: usize = 0;
        assert(names.take(0) =~= Seq::empty());
        while i < char_list.len()
            invariant
                i <= char_list.len(),
                names == names_of(characters_view(char_list@)),
                result@ == terminated(names.take(i as int)),
            decreases char_list.len() - i,
        {
            push_terminated(&mut result, char_list[i].name.as_str());
            proof {
                assert(names.take(i + 1).drop_last() =~= names.take(i as int));
                assert(names.take(i + 1).last() == char_list@[i as int]@.name);
            }
            i += 1;
        }
        assert(names.take(i as int) =~= names);
        result
    }

    /// The roster of the given characters, with nothing pending.
    pub fn from_characters(char_list: Vec<Character>) -> (r: Self)
        ensures
            r@ == characters_view(char_list@),
            !r.pending(),
    {
        let name_list = Self::build_name_list(&char_list);
        CharacterList { list: char_list, serialized_name_list: name_list, has_new: false }
    }

    /// The roster that a JSON document describes, with nothing pending.
    ///
    /// The document must decode: there is no roster to go on with otherwise.
    /// `from_json` is for a document of which that is not known.
    pub fn new(json_text: &str) -> (r: Self)
        requires
            decode_spec(json_text@) is Ok,
        ensures
            decode_spec(json_text@) == Ok::<Seq<CharacterView>, Seq<char>>(r@),
            !r.pending(),
    {
        match decode(json_text) {
            Ok(char_list) => Self::from_characters(char_list),
            Err(_) => vstd::pervasive::unreached(),
        }
    }

    /// The roster that a JSON document describes, or the reason why the
    /// document describes none.
    pub fn from_json(json_text: &str) -> (r: Result<Self, DecodeError>)
        ensures
            match r {
                Ok(roster) => !roster.pending() && decode_spec(json_text@)
                    == Ok::<Seq<CharacterView>, Seq<char>>(roster@),
                Err(e) => decode_spec(json_text@) == Err::<Seq<CharacterView>, Seq<char>>(e@),
            },
    {
        match decode(json_text) {
            Ok(_) => Ok(Self::new(json_text)),
            Err(e) => Err(e),
        }
    }

    /// Decodes one record and appends it to the roster.
    ///
    /// The record goes to the end, its zero-terminated name to the end of
    /// the name index, and the roster has changes pending. A text that does
    /// not decode leaves the roster as it was.
    pub fn add_character(&mut self, json_string: &str) -> (r: Result<(), DecodeError>)
        ensures
            match decode_one_spec(json_string@) {
                Ok(c) => {
                    &&& r is Ok
                    &&& final(self)@ == old(self)@.push(c)
                    &&& final(self).pending()
                    &&& name_index(final(self)@) == name_index(old(self)@) + encode_utf8(
                        c.name,
                    ).push(0u8)
                },
                Err(reason) => {
                    &&& r is Err
                    &&& r->Err_0@ == reason
                    &&& final(self)@ == old(self)@
                    &&& final(self).pending() == old(self).pending()
                    &&& name_index(final(self)@) == name_index(old(self)@)
                },
            },
    {
        match decode_one(json_string) {
            Ok(new_character) => {
                proof {
                    use_type_invariant(&*self);
                    lemma_name_index_push(self@, new_character@);
                }
                let mut taken = Self::from_characters(Vec::new());
                core::mem::swap(self, &mut taken);
                let CharacterList { list, serialized_name_list, has_new: _ } = taken;
                let mut list = list;
                let mut name_list = serialized_name_list;
                let ghost before = characters_view(list@);
                push_terminated(&mut name_list, new_character.name.as_str());
                list.push(new_character);
                assert(characters_view(list@) =~= before.push(new_character@));
                *self = CharacterList { list, serialized_name_list: name_list, has_new: true };
                Ok(())
            },
            Err(e) => Err(e),
        }
    }

    /// Deletes the record at `index`, if there is one, and rebuilds the name
    /// index. The records behind it move down by one; those before it stay.
    /// An index past the end changes nothing.
    pub fn delete_character(&mut self, index: usize)
        ensures
            final(self).pending() == old(self).pending(),
            index < old(self)@.len() ==> final(self)@ == old(self)@.remove(index as int),
            index < old(self)@.len() ==> final(self)@.len() == old(self)@.len() - 1,
            forall|j: int|
                0 <= j < index && j < final(self)@.len() ==> final(self)@[j] == old(self)@[j],
            forall|j: int|
                index < j < old(self)@.len() ==> #[trigger] old(self)@[j] == final(self)@[j - 1],
            index >= old(self)@.len() ==> final(self)@ == old(self)@,
    {
        if index < self.list.len() {
            let mut taken = Self::from_characters(Vec::new());
            core::mem::swap(self, &mut taken);
            let CharacterList { list, serialized_name_list: _, has_new } = taken;
            let mut list = list;
            let ghost before = characters_view(list@);
            list.remove(index);
            assert(characters_view(list@) =~= before.remove(index as int));
            let name_list = Self::build_name_list(&list);
            *self = CharacterList { list, serialized_name_list: name_list, has_new };
        }
    }

    /// The whole roster as pretty-printed JSON text, for the caller to keep.
    /// The text is `[]` only where the printer reports an error.
    pub fn get_updated_json(&self) -> (r: String)
        ensures
            r@ == encode_spec(self@),
    {
        encode(&self.list)
    }

    /// Appends one record and hands out the roster's JSON text after it.
    pub fn append_and_get_lw_json(&mut self, json_string: &str) -> (r: Result<String, DecodeError>)
        ensures
            match decode_one_spec(json_string@) {
                Ok(c) => {
                    &&& final(self)@ == old(self)@.push(c)
                    &&& final(self).pending()
                    &&& r is Ok
                    &&& r->Ok_0@ == encode_spec(final(self)@)
                },
                Err(reason) => {
                    &&& r is Err
                    &&& r->Err_0@ == reason
                    &&& final(self)@ == old(self)@
                    &&& final(self).pending() == old(self).pending()
                },
            },
    {
        match self.add_character(json_string) {
            Ok(_) => Ok(self.get_updated_json()),
            Err(e) => Err(e),
        }
    }

    /// Whether records were appended since the roster was made or last
    /// handed in.
    pub fn has_new_characters(&self) -> (r: bool)
        ensures
            r == self.pending(),
    {
        self.has_new
    }

    /// Records that the pending changes were handed in.
    pub fn mark_submitted(&mut self)
        ensures
            !final(self).pending(),
            final(self)@ == old(self)@,
    {
        proof {
            use_type_invariant(&*self);
        }
        self.has_new = false;
    }

    /// The message that goes with an action on the roster.
    pub fn get_commit_message(&self, action: &str) -> (r: String)
        ensures
            r@ == commit_message(action@),
    {
        let given = String::from_str(action);
        if given == String::from_str("add") {
            String::from_str("Add new character")
        } else if given == String::from_str("delete") {
            String::from_str("Delete character")
        } else {
            String::from_str("Update character data")
        }
    }

    /// The health of the record.
    pub fn get_health(&self, index: usize) -> (r: u8)
        requires
            index < self@.len(),
        ensures
            r == self@[index as int].health,
    {
        self.list[index].health
    }

    /// The UTF-8 bytes of the name.
    pub fn get_name(&self, index: usize) -> (r: &[u8])
        requires
            index < self@.len(),
        ensures
            r@ == encode_utf8(self@[index as int].name),
    {
        self.list[index].name.as_str().as_bytes()
    }

    /// The number of bytes of the name.
    pub fn get_name_size(&self, index: usize) -> (r: usize)
        requires
            index < self@.len(),
        ensures
            r == encode_utf8(self@[index as int].name).len(),
    {
        self.list[index].name.as_str().as_bytes().len()
    }

    /// The UTF-8 bytes of the subclass.
    pub fn get_subclass(&self, index: usize) -> (r: &[u8])
        requires
            index < self@.len(),
        ensures
            r@ == encode_utf8(self@[index as int].subclass),
    {
        self.list[index].subclass.as_str().as_bytes()
    }

    /// The number of bytes of the subclass.
    pub fn get_subclass_size(&self, index: usize) -> (r: usize)
        requires
            index < self@.len(),
        ensures
            r == encode_utf8(self@[index as int].subclass).len(),
    {
        self.list[index].subclass.as_str().as_bytes().len()
    }

    /// The UTF-8 bytes of the description.
    pub fn get_description(&self, index: usize) -> (r: &[u8])
        requires
            index < self@.len(),
        ensures
            r@ == encode_utf8(self@[index as int].description),
    {
        self.list[index].description.as_str().as_bytes()
    }

    /// The number of bytes of the description.
    pub fn get_description_size(&self, index: usize) -> (r: usize)
        requires
            index < self@.len(),
        ensures
            r == encode_utf8(self@[index as int].description).len(),
    {
        self.list[index].description.as_str().as_bytes().len()
    }

    /// The attack of the record.
    pub fn get_attack(&self, index: usize) -> (r: u8)
        requires
            index < self@.len(),
        ensures
            r == self@[index as int].attack,
    {
        self.list[index].attack
    }

    /// The defense of the record.
    pub fn get_defense(&self, index: usize) -> (r: u8)
        requires
            index < self@.len(),
        ensures
            r == self@[index as int].defense,
    {
        self.list[index].defense
    }

    /// The will of the record.
    pub fn get_will(&self, index: usize) -> (r: u8)
        requires
            index < self@.len(),
        ensures
            r == self@[index as int].will,
    {
        self.list[index].will
    }

    /// The speed of the record.
    pub fn get_speed(&self, index: usize) -> (r: u8)
        requires
            index < self@.len(),
        ensures
            r == self@[index as int].speed,
    {
        self.list[index].speed
    }

    /// Whether the record flies.
    pub fn get_is_flying(&self, index: usize) -> (r: bool)
        requires
            index < self@.len(),
        ensures
            r == self@[index as int].is_flying,
    {
        self.list[index].is_flying
    }

    /// The attacks of a record, flattened: each attack's bytes followed by
    /// a zero byte. Computed afresh on every call.
    pub fn get_attacks(&self, index: usize) -> (r: Vec<u8>)
        requires
            index < self@.len(),
        ensures
            r@ == terminated(self@[index as int].attacks),
    {
        flatten(&self.list[index].attacks)
    }

    /// The number of attacks of the record.
    pub fn get_attacks_count(&self, index: usize) -> (r: usize)
        requires
            index < self@.len(),
        ensures
            r == self@[index as int].attacks.len(),
    {
        self.list[index].attacks.len()
    }

    /// The name index: the zero-terminated names of all records, in roster
    /// order.
    pub fn get_name_list(&self) -> (r: &[u8])
        ensures
            r@ == name_index(self@),
    {
        proof {
            use_type_invariant(self);
        }
        self.serialized_name_list.as_slice()
    }

    /// The number of records in the roster.
    pub fn get_character_count(&self) -> (r: usize)
        ensures
            r == self@.len(),
    {
        self.list.len()
    }
}

} // verus!
