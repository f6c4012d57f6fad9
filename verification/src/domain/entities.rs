//! Validated value objects of a catalog entry.
//!
//! Each value object wraps one primitive field. Its fallible constructor is
//! the only place where an invalid value can be turned away, and the
//! conversion back to the primitive loses nothing.

use vstd::prelude::*;
use vstd::std_specs::cmp::PartialEqSpecImpl;

verus! {

/// Smallest number an entry may carry.
pub const MIN_NUMBER: u16 = 1;

/// Largest number an entry may carry.
pub const MAX_NUMBER: u16 = 898;

/// Largest count of type tags an entry may carry.
pub const MAX_TYPES: usize = 2;

/// Whether `n` lies in the range of entry numbers.
pub open spec fn number_is_valid(n: u16) -> bool {
    MIN_NUMBER <= n <= MAX_NUMBER
}

/// Whether `name` may name an entry: every name but the empty one may.
pub open spec fn name_is_valid(name: Seq<char>) -> bool {
    name.len() > 0
}

/// Whether `tag` is one of the recognized type tags.
pub open spec fn is_type_tag(tag: Seq<char>) -> bool {
    tag == "Electric"@ || tag == "Fire"@
}

/// Whether `tags` may be the type tags of an entry: at least one tag, at
/// most `MAX_TYPES`, each of them recognized.
pub open spec fn types_are_valid(tags: Seq<Seq<char>>) -> bool {
    &&& 0 < tags.len() <= MAX_TYPES
    &&& forall|i: int| 0 <= i < tags.len() ==> is_type_tag(#[trigger] tags[i])
}

/// The texts of a sequence of strings, in order.
pub open spec fn texts(strings: Seq<String>) -> Seq<Seq<char>> {
    Seq::new(strings.len(), |i: int| strings[i]@)
}

/// The unique number of an entry, always within `MIN_NUMBER..=MAX_NUMBER`.
#[derive(Clone, Copy, Debug)]
pub struct PokemonNumber(u16);

impl View for PokemonNumber {
    type V = u16;

    closed spec fn view(&self) -> u16 {
        self.0
    }
}

impl PokemonNumber {
    #[verifier::type_invariant]
    spec fn in_range(self) -> bool {
        number_is_valid(self.0)
    }

    /// The number as a primitive; it is always in range.
    pub fn value(&self) -> (n: u16)
        ensures
            n == self@,
            number_is_valid(n),
    {
        proof {
            use_type_invariant(self);
        }
        self.0
    }
}

impl TryFrom<u16> for PokemonNumber {
    type Error = ();

    /// Accepts exactly the numbers in range.
    fn try_from(n: u16) -> (res: Result<Self, ()>)
        ensures
            res is Ok <==> number_is_valid(n),
            res matches Ok(number) ==> number@ == n,
    {
        if n >= MIN_NUMBER && n <= MAX_NUMBER {
            Ok(PokemonNumber(n))
        } else {
            Err(())
        }
    }
}

impl vstd::std_specs::convert::TryFromSpecImpl<u16> for PokemonNumber {
    open spec fn obeys_try_from_spec() -> bool {
        true
    }

    closed spec fn try_from_spec(n: u16) -> Result<Self, ()> {
        if number_is_valid(n) {
            Ok(PokemonNumber(n))
        } else {
            Err(())
        }
    }
}

impl From<PokemonNumber> for u16 {
    /// Gives back the number that the value object was made from.
    fn from(number: PokemonNumber) -> (n: u16)
        ensures
            n == number@,
            number_is_valid(n),
    {
        number.value()
    }
}

impl vstd::std_specs::convert::FromSpecImpl<PokemonNumber> for u16 {
    open spec fn obeys_from_spec() -> bool {
        true
    }

    open spec fn from_spec(number: PokemonNumber) -> u16 {
        number@
    }
}

impl PartialEq for PokemonNumber {
    fn eq(&self, other: &Self) -> (equal: bool) {
        self.0 == other.0
    }
}

impl PartialEqSpecImpl for PokemonNumber {
    open spec fn obeys_eq_spec() -> bool {
        true
    }

    open spec fn eq_spec(&self, other: &Self) -> bool {
        self@ == other@
    }
}

/// The name of an entry, never empty.
#[derive(Debug)]
pub struct PokemonName(String);

impl View for PokemonName {
    type V = Seq<char>;

    closed spec fn view(&self) -> Seq<char> {
        self.0@
    }
}

impl PokemonName {
    #[verifier::type_invariant]
    spec fn not_empty(self) -> bool {
        name_is_valid(self.0@)
    }

    /// The name as text; it is never empty.
    pub fn as_str(&self) -> (s: &str)
        ensures
            s@ == self@,
            name_is_valid(s@),
    {
        proof {
            use_type_invariant(self);
        }
        self.0.as_str()
    }
}

impl Clone for PokemonName {
    fn clone(&self) -> (copy: Self)
        ensures
            copy@ == self@,
    {
        proof {
            use_type_invariant(self);
        }
        PokemonName(self.0.clone())
    }
}

impl TryFrom<String> for PokemonName {
    type Error = ();

    /// Accepts every name but the empty one.
    fn try_from(name: String) -> (res: Result<Self, ()>)
        ensures
            res is Ok <==> name_is_valid(name@),
            res matches Ok(accepted) ==> accepted@ == name@,
    {
        if name.as_str().is_empty() {
            Err(())
        } else {
            Ok(PokemonName(name))
        }
    }
}

impl vstd::std_specs::convert::TryFromSpecImpl<String> for PokemonName {
    open spec fn obeys_try_from_spec() -> bool {
        true
    }

    closed spec fn try_from_spec(name: String) -> Result<Self, ()> {
        if name_is_valid(name@) {
            Ok(PokemonName(name))
        } else {
            Err(())
        }
    }
}

impl From<PokemonName> for String {
    /// Gives back the text that the value object was made from.
    fn from(name: PokemonName) -> (s: String)
        ensures
            s@ == name@,
            name_is_valid(s@),
    {
        proof {
            use_type_invariant(&name);
        }
        name.0
    }
}

impl vstd::std_specs::convert::FromSpecImpl<PokemonName> for String {
    open spec fn obeys_from_spec() -> bool {
        true
    }

    closed spec fn from_spec(name: PokemonName) -> String {
        name.0
    }
}

impl PartialEq for PokemonName {
    fn eq(&self, other: &Self) -> (equal: bool) {
        self.0 == other.0
    }
}

impl PartialEqSpecImpl for PokemonName {
    open spec fn obeys_eq_spec() -> bool {
        true
    }

    open spec fn eq_spec(&self, other: &Self) -> bool {
        self@ == other@
    }
}

/// One recognized type tag.
#[derive(Clone, Copy, Debug, PartialEq, Eq, Structural)]
enum PokemonType {
    Electric,
    Fire,
}

impl PokemonType {
    /// The text that a tag is written as.
    spec fn text(self) -> Seq<char> {
        match self {
            PokemonType::Electric => "Electric"@,
            PokemonType::Fire => "Fire"@,
        }
    }

    /// The two tags are written differently.
    proof fn lemma_texts_differ()
        ensures
            "Electric"@ != "Fire"@,
            "Electric"@.len() == 8,
            "Fire"@.len() == 4,
    {
        reveal_strlit("Electric");
        reveal_strlit("Fire");
        assert("Electric"@.len() == 8);
        assert("Fire"@.len() == 4);
    }

    /// Reads a tag; only the recognized texts are tags.
    fn parse(text: &String) -> (res: Option<PokemonType>)
        ensures
            res is Some <==> is_type_tag(text@),
            res matches Some(tag) ==> tag.text() == text@,
    {
        if *text == "Electric".to_owned() {
            Some(PokemonType::Electric)
        } else if *text == "Fire".to_owned() {
            Some(PokemonType::Fire)
        } else {
            None
        }
    }

    /// Writes a tag out.
    fn to_text(self) -> (text: String)
        ensures
            text@ == self.text(),
            is_type_tag(text@),
    {
        match self {
            PokemonType::Electric => "Electric".to_owned(),
            PokemonType::Fire => "Fire".to_owned(),
        }
    }
}

/// The recognized type tags, each once.
pub fn type_tags() -> (tags: Vec<String>)
    ensures
        texts(tags@) == seq!["Electric"@, "Fire"@],
        forall|tag: Seq<char>| is_type_tag(tag) <==> texts(tags@).contains(tag),
{
    let mut tags: Vec<String> = Vec::new();
    tags.push(PokemonType::Electric.to_text());
    tags.push(PokemonType::Fire.to_text());
    assert(texts(tags@) =~= seq!["Electric"@, "Fire"@]);
    assert(texts(tags@)[0] == "Electric"@);
    assert(texts(tags@)[1] == "Fire"@);
    tags
}

/// The texts of a sequence of tags, in order.
spec fn tag_texts(tags: Seq<PokemonType>) -> Seq<Seq<char>> {
    Seq::new(tags.len(), |i: int| tags[i].text())
}

/// The type tags of an entry, in the order in which they were given: at
/// least one, at most `MAX_TYPES`, each of them recognized.
#[derive(Debug)]
pub struct PokemonTypes(Vec<PokemonType>);

impl View for PokemonTypes {
    type V = Seq<Seq<char>>;

    closed spec fn view(&self) -> Seq<Seq<char>> {
        tag_texts(self.0@)
    }
}

impl PokemonTypes {
    #[verifier::type_invariant]
    spec fn count_in_range(self) -> bool {
        0 < self.0@.len() <= MAX_TYPES
    }

    /// Every tag sequence that a value object holds is valid.
    proof fn lemma_tags_valid(tags: Seq<PokemonType>)
        requires
            0 < tags.len() <= MAX_TYPES,
        ensures
            types_are_valid(tag_texts(tags)),
    {
    }

    /// How many tags there are: at least one, at most `MAX_TYPES`.
    pub fn len(&self) -> (n: usize)
        ensures
            n == self@.len(),
            types_are_valid(self@),
    {
        proof {
            use_type_invariant(self);
            Self::lemma_tags_valid(self.0@);
        }
        self.0.len()
    }

    /// The tags as texts, in the order in which they were given.
    pub fn to_strings(&self) -> (tags: Vec<String>)
        ensures
            texts(tags@) == self@,
            types_are_valid(self@),
    {
        proof {
            use_type_invariant(self);
            Self::lemma_tags_valid(self.0@);
        }
        let mut tags: Vec<String> = Vec::new();
        let mut i: usize = 0;
        while i < self.0.len()
            invariant
                i <= self.0@.len(),
                tags@.len() == i,
                forall|k: int| 0 <= k < i ==> (#[trigger] tags@[k])@ == self.0@[k].text(),
            decreases self.0@.len() - i,
        {
            tags.push(self.0[i].to_text());
            i += 1;
        }
        assert(texts(tags@) =~= self@);
        tags
    }
}

impl Clone for PokemonTypes {
    fn clone(&self) -> (copy: Self)
        ensures
            copy@ == self@,
    {
        proof {
            use_type_invariant(self);
        }
        let mut tags: Vec<PokemonType> = Vec::new();
        let mut i: usize = 0;
        while i < self.0.len()
            invariant
                i <= self.0@.len(),
                tags@ == self.0@.take(i as int),
            decreases self.0@.len() - i,
        {
            tags.push(self.0[i]);
            assert(self.0@.take(i as int).push(self.0@[i as int]) =~= self.0@.take(i + 1));
            i += 1;
        }
        assert(tags@ =~= self.0@);
        PokemonTypes(tags)
    }
}

impl TryFrom<Vec<String>> for PokemonTypes {
    type Error = ();

    /// Accepts exactly the valid tag lists, and keeps their order.
    fn try_from(tags: Vec<String>) -> (res: Result<Self, ()>)
        ensures
            res is Ok <==> types_are_valid(texts(tags@)),
            res matches Ok(accepted) ==> accepted@ == texts(tags@),
    {
        if tags.len() == 0 || tags.len() > MAX_TYPES {
            return Err(());
        }
        let mut parsed: Vec<PokemonType> = Vec::new();
        let mut i: usize = 0;
        while i < tags.len()
            invariant
                i <= tags@.len(),
                parsed@.len() == i,
                forall|k: int| 0 <= k < i ==> is_type_tag(#[trigger] texts(tags@)[k]),
                forall|k: int| 0 <= k < i ==> (#[trigger] parsed@[k]).text() == tags@[k]@,
            decreases tags@.len() - i,
        {
            match PokemonType::parse(&tags[i]) {
                Some(tag) => parsed.push(tag),
                None => {
                    assert(!is_type_tag(texts(tags@)[i as int]));
                    return Err(());
                },
            }
            i += 1;
        }
        assert(tag_texts(parsed@) =~= texts(tags@));
        Ok(PokemonTypes(parsed))
    }
}

/// What `try_from` answers is said in its contract, over the texts of the
/// tags: a specification has no name for the value object itself.
impl vstd::std_specs::convert::TryFromSpecImpl<Vec<String>> for PokemonTypes {
    open spec fn obeys_try_from_spec() -> bool {
        false
    }

    open spec fn try_from_spec(tags: Vec<String>) -> Result<Self, ()> {
        arbitrary()
    }
}

impl From<PokemonTypes> for Vec<String> {
    /// Gives back the texts that the value object was made from.
    fn from(types: PokemonTypes) -> (tags: Vec<String>)
        ensures
            texts(tags@) == types@,
            types_are_valid(types@),
    {
        types.to_strings()
    }
}

/// What `from` answers is said in its contract, over the texts of the
/// tags: a specification has no name for the vector itself.
impl vstd::std_specs::convert::FromSpecImpl<PokemonTypes> for Vec<String> {
    open spec fn obeys_from_spec() -> bool {
        false
    }

    open spec fn from_spec(types: PokemonTypes) -> Vec<String> {
        arbitrary()
    }
}

impl PokemonTypes {
    /// How often `tag` occurs among the tags.
    fn count(&self, tag: PokemonType) -> (n: usize)
        ensures
            n == self@.to_multiset().count(tag.text()),
    {
        let mut n: usize = 0;
        let mut i: usize = 0;
        proof {
            let none = tag_texts(self.0@.take(0));
            none.to_multiset_ensures();
            assert(!none.contains(tag.text()));
        }
        while i < self.0.len()
            invariant
                i <= self.0@.len(),
                n <= i,
                n == tag_texts(self.0@.take(i as int)).to_multiset().count(tag.text()),
            decreases self.0@.len() - i,
        {
            proof {
                let before = tag_texts(self.0@.take(i as int));
                let item = self.0@[i as int].text();
                assert(tag_texts(self.0@.take(i + 1)) =~= before.push(item));
                vstd::seq_lib::to_multiset_build(before, item);
                PokemonType::lemma_texts_differ();
            }
            if self.0[i] == tag {
                n += 1;
            }
            i += 1;
        }
        assert(self.0@.take(i as int) =~= self.0@);
        n
    }

    /// Two valid tag sequences hold the same tags, each as often, exactly
    /// when each recognized tag occurs as often in both.
    proof fn lemma_same_counts(a: Seq<Seq<char>>, b: Seq<Seq<char>>)
        requires
            types_are_valid(a),
            types_are_valid(b),
            a.to_multiset().count("Electric"@) == b.to_multiset().count("Electric"@),
            a.to_multiset().count("Fire"@) == b.to_multiset().count("Fire"@),
        ensures
            a.to_multiset() == b.to_multiset(),
    {
        a.to_multiset_ensures();
        b.to_multiset_ensures();
        assert forall|tag: Seq<char>| a.to_multiset().count(tag) == b.to_multiset().count(tag) by {
            if !is_type_tag(tag) {
                assert(!a.contains(tag));
                assert(!b.contains(tag));
            }
        }
        assert(a.to_multiset() =~= b.to_multiset());
    }
}

impl PartialEq for PokemonTypes {
    /// Two tag lists are equal when they hold the same tags, each as often,
    /// in whatever order.
    fn eq(&self, other: &Self) -> (equal: bool) {
        proof {
            use_type_invariant(self);
            use_type_invariant(other);
            Self::lemma_tags_valid(self.0@);
            Self::lemma_tags_valid(other.0@);
        }
        let equal = self.count(PokemonType::Electric) == other.count(PokemonType::Electric)
            && self.count(PokemonType::Fire) == other.count(PokemonType::Fire);
        proof {
            if equal {
                Self::lemma_same_counts(self@, other@);
            }
        }
        equal
    }
}

impl PartialEqSpecImpl for PokemonTypes {
    open spec fn obeys_eq_spec() -> bool {
        true
    }

    open spec fn eq_spec(&self, other: &Self) -> bool {
        self@.to_multiset() == other@.to_multiset()
    }
}

/// What an entry holds, as plain values.
pub struct PokemonView {
    pub number: u16,
    pub name: Seq<char>,
    pub types: Seq<Seq<char>>,
}

/// The entry of three plain fields.
pub open spec fn fields(number: u16, name: Seq<char>, types: Seq<Seq<char>>) -> PokemonView {
    PokemonView { number, name, types }
}

/// Whether each field of `entry` is valid.
pub open spec fn entry_is_valid(entry: PokemonView) -> bool {
    &&& number_is_valid(entry.number)
    &&& name_is_valid(entry.name)
    &&& types_are_valid(entry.types)
}

/// One catalog entry.
#[derive(Debug)]
pub struct Pokemon {
    pub number: PokemonNumber,
    pub name: PokemonName,
    pub types: PokemonTypes,
}

impl View for Pokemon {
    type V = PokemonView;

    open spec fn view(&self) -> PokemonView {
        PokemonView { number: self.number@, name: self.name@, types: self.types@ }
    }
}

impl Pokemon {
    /// The entry of the three value objects.
    pub fn new(number: PokemonNumber, name: PokemonName, types: PokemonTypes) -> (pokemon: Self)
        ensures
            pokemon.number == number,
            pokemon.name == name,
            pokemon.types == types,
    {
        Pokemon { number, name, types }
    }

    /// Builds an entry from primitive fields, if each of them is valid.
    pub fn from_fields(number: u16, name: String, types: Vec<String>) -> (res: Result<Self, ()>)
        ensures
            res is Ok <==> entry_is_valid(fields(number, name@, texts(types@))),
            res matches Ok(pokemon) ==> pokemon@ == fields(number, name@, texts(types@)),
    {
        match (
            PokemonNumber::try_from(number),
            PokemonName::try_from(name),
            PokemonTypes::try_from(types),
        ) {
            (Ok(number), Ok(name), Ok(types)) => Ok(Pokemon::new(number, name, types)),
            _ => Err(()),
        }
    }

    /// The primitive fields of an entry: number, name and tags.
    pub fn into_fields(self) -> (res: (u16, String, Vec<String>))
        ensures
            fields(res.0, res.1@, texts(res.2@)) == self@,
            entry_is_valid(self@),
    {
        (u16::from(self.number), String::from(self.name), Vec::<String>::from(self.types))
    }
}

impl Clone for Pokemon {
    fn clone(&self) -> (copy: Self)
        ensures
            copy@ == self@,
    {
        Pokemon { number: self.number, name: self.name.clone(), types: self.types.clone() }
    }
}

impl PartialEq for Pokemon {
    /// Two entries are equal when number and name are, and the tags are the
    /// same in whatever order.
    fn eq(&self, other: &Self) -> (equal: bool) {
        self.number == other.number && self.name == other.name && self.types == other.types
    }
}

impl PartialEqSpecImpl for Pokemon {
    open spec fn obeys_eq_spec() -> bool {
        true
    }

    open spec fn eq_spec(&self, other: &Self) -> bool {
        &&& self@.number == other@.number
        &&& self@.name == other@.name
        &&& self@.types.to_multiset() == other@.types.to_multiset()
    }
}

} // verus!
