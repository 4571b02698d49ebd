use vstd::prelude::*;

use crate::text::same_text;
use crate::text::text_view;

verus! {

/// Why an airport could not be declared or found.
#[derive(Clone, Copy, Debug, PartialEq, Eq)]
pub enum AirportError {
    /// The IATA code of a new airport is that of a known one.
    DuplicateIata,
    /// The ICAO code of a new airport is that of a known one.
    DuplicateIcao,
    /// The name of a new airport is that of a known one.
    DuplicateName,
    /// No known airport has this IATA code.
    UnknownIata,
    /// No known airport has this ICAO code.
    UnknownIcao,
    /// No known airport has this name.
    UnknownName,
    /// Neither a code nor a name was given.
    Unnamed,
    /// Two of the three were given: an airport is declared with all three and referred to
    /// with one.
    BadlyDefined { iata: bool, icao: bool, name: bool },
}

/// The IATA code that stands for "none assigned": any number of airports may have it.
pub open spec fn unknown_iata() -> Seq<char> {
    seq!['?', '?', '?']
}

/// The ICAO code that stands for "none assigned": any number of airports may have it.
pub open spec fn unknown_icao() -> Seq<char> {
    seq!['?', '?', '?', '?']
}

/// An airport as its two codes and its name.
pub struct AirportView {
    pub iata: Seq<char>,
    pub icao: Seq<char>,
    pub name: Seq<char>,
}

/// An airport: its IATA code, its ICAO code and its name.
#[derive(Debug)]
pub struct Airport {
    iata: String,
    icao: String,
    name: String,
}

impl View for Airport {
    type V = AirportView;

    closed spec fn view(&self) -> AirportView {
        AirportView { iata: self.iata@, icao: self.icao@, name: self.name@ }
    }
}

impl Airport {
    pub fn new(iata: &str, icao: &str, name: &str) -> (airport: Airport)
        ensures
            airport@ == (AirportView { iata: iata@, icao: icao@, name: name@ }),
    {
        Airport { iata: iata.to_owned(), icao: icao.to_owned(), name: name.to_owned() }
    }

    /// One of the three identities of the airport.
    pub fn identity(&self, which: Identity) -> (text: &str)
        ensures
            text@ == self@.identity(which),
    {
        match which {
            Identity::Iata => self.iata.as_str(),
            Identity::Icao => self.icao.as_str(),
            Identity::Name => self.name.as_str(),
        }
    }

    /// How the airport is best called: by its IATA code if one is assigned, else by its
    /// ICAO code if one is assigned, else by its name.
    pub fn best_name(&self) -> (best: String)
        ensures
            best@ == self@.best_name(),
    {
        best_name(self.iata.as_str(), self.icao.as_str(), self.name.as_str())
    }
}

/// Whether one of the airports has this IATA code.
pub open spec fn has_iata(airports: Seq<AirportView>, iata: Seq<char>) -> bool {
    exists|i: int| 0 <= i < airports.len() && (#[trigger] airports[i]).iata == iata
}

/// Whether one of the airports has this ICAO code.
pub open spec fn has_icao(airports: Seq<AirportView>, icao: Seq<char>) -> bool {
    exists|i: int| 0 <= i < airports.len() && (#[trigger] airports[i]).icao == icao
}

/// Whether one of the airports has this name.
pub open spec fn has_name(airports: Seq<AirportView>, name: Seq<char>) -> bool {
    exists|i: int| 0 <= i < airports.len() && (#[trigger] airports[i]).name == name
}

/// The three identities by which an airport is referred to.
#[derive(Clone, Copy, Debug, PartialEq, Eq)]
pub enum Identity {
    Iata,
    Icao,
    Name,
}

impl AirportView {
    /// One of the three identities of the airport.
    pub open spec fn identity(self, which: Identity) -> Seq<char> {
        match which {
            Identity::Iata => self.iata,
            Identity::Icao => self.icao,
            Identity::Name => self.name,
        }
    }

    /// How the airport is best called.
    pub open spec fn best_name(self) -> Seq<char> {
        best_name_of(self.iata, self.icao, self.name)
    }
}

/// The first of the airports, in the order in which they were declared, that has this
/// identity.
pub open spec fn first_with(airports: Seq<AirportView>, which: Identity, text: Seq<char>) -> Option<
    AirportView,
>
    decreases airports.len(),
{
    if airports.len() == 0 {
        None
    } else if airports[0].identity(which) == text {
        Some(airports[0])
    } else {
        first_with(airports.drop_first(), which, text)
    }
}

/// An airport that has an identity, where none before it has, is the first with it.
pub proof fn lemma_first_with_is_at(
    airports: Seq<AirportView>,
    which: Identity,
    text: Seq<char>,
    place: int,
)
    requires
        0 <= place < airports.len(),
        airports[place].identity(which) == text,
        forall|earlier: int|
            0 <= earlier < place ==> (#[trigger] airports[earlier]).identity(which) != text,
    ensures
        first_with(airports, which, text) == Some(airports[place]),
    decreases place,
{
    if place > 0 {
        assert(airports[0].identity(which) != text);
        let rest = airports.drop_first();
        assert(rest[place - 1] == airports[place]);
        assert forall|earlier: int| 0 <= earlier < place - 1 implies (#[trigger] rest[earlier]).identity(
            which,
        ) != text by {
            assert(rest[earlier] == airports[earlier + 1]);
        }
        lemma_first_with_is_at(rest, which, text, place - 1);
    }
}

/// The first airport with an identity is one of the airports and has the identity; there
/// is none exactly where no airport has it.
pub proof fn lemma_first_with_is_known(airports: Seq<AirportView>, which: Identity, text: Seq<char>)
    ensures
        first_with(airports, which, text) matches Some(found) ==> found.identity(which) == text
            && airports.contains(found),
        first_with(airports, which, text) is None ==> forall|i: int|
            0 <= i < airports.len() ==> (#[trigger] airports[i]).identity(which) != text,
    decreases airports.len(),
{
    if airports.len() > 0 {
        if airports[0].identity(which) == text {
            assert(airports[0] == airports[0]);
        } else {
            let rest = airports.drop_first();
            lemma_first_with_is_known(rest, which, text);
            if first_with(rest, which, text) is Some {
                let found = first_with(rest, which, text)->0;
                let at = choose|i: int| 0 <= i < rest.len() && rest[i] == found;
                assert(airports[at + 1] == found);
            } else {
                assert forall|i: int| 0 <= i < airports.len() implies (#[trigger] airports[i]).identity(
                    which,
                ) != text by {
                    if i > 0 {
                        assert(rest[i - 1] == airports[i]);
                    }
                }
            }
        }
    }
}

/// How an airport is best called: by its IATA code if one is assigned, else by its ICAO
/// code if one is assigned, else by its name.
pub open spec fn best_name_of(iata: Seq<char>, icao: Seq<char>, name: Seq<char>) -> Seq<char> {
    if iata != unknown_iata() {
        iata
    } else if icao != unknown_icao() {
        icao
    } else {
        name
    }
}

/// What declaring or finding an airport answers. All three given: a declaration, refused
/// for an assigned code or a name that a known airport has; it answers how the new airport
/// is best called. One given: a reference, refused unless a known airport has it; it
/// answers how the first airport that has it is best called. Anything else is no airport.
pub open spec fn airport_outcome(
    airports: Seq<AirportView>,
    iata: Option<Seq<char>>,
    icao: Option<Seq<char>>,
    name: Option<Seq<char>>,
) -> Result<Seq<char>, AirportError> {
    match (iata, icao, name) {
        (Some(iata), Some(icao), Some(name)) => {
            if has_iata(airports, iata) && iata != unknown_iata() {
                Err(AirportError::DuplicateIata)
            } else if has_icao(airports, icao) && icao != unknown_icao() {
                Err(AirportError::DuplicateIcao)
            } else if has_name(airports, name) {
                Err(AirportError::DuplicateName)
            } else {
                Ok(best_name_of(iata, icao, name))
            }
        },
        (Some(iata), None, None) => match first_with(airports, Identity::Iata, iata) {
            Some(found) => Ok(found.best_name()),
            None => Err(AirportError::UnknownIata),
        },
        (None, Some(icao), None) => match first_with(airports, Identity::Icao, icao) {
            Some(found) => Ok(found.best_name()),
            None => Err(AirportError::UnknownIcao),
        },
        (None, None, Some(name)) => match first_with(airports, Identity::Name, name) {
            Some(found) => Ok(found.best_name()),
            None => Err(AirportError::UnknownName),
        },
        (None, None, None) => Err(AirportError::Unnamed),
        _ => Err(
            AirportError::BadlyDefined { iata: iata is Some, icao: icao is Some, name: name is Some },
        ),
    }
}

/// The airports that are known afterwards: one more after a declaration that was accepted,
/// the same in every other case.
pub open spec fn airports_after(
    airports: Seq<AirportView>,
    iata: Option<Seq<char>>,
    icao: Option<Seq<char>>,
    name: Option<Seq<char>>,
) -> Seq<AirportView> {
    match (iata, icao, name) {
        (Some(iata), Some(icao), Some(name)) => {
            if airport_outcome(airports, Some(iata), Some(icao), Some(name)) is Ok {
                airports.push(AirportView { iata, icao, name })
            } else {
                airports
            }
        },
        _ => airports,
    }
}

/// The airports that the flights of a log have named so far.
#[derive(Debug)]
pub struct AirportList {
    content: Vec<Airport>,
}

impl View for AirportList {
    type V = Seq<AirportView>;

    closed spec fn view(&self) -> Seq<AirportView> {
        Seq::new(self.content@.len(), |i: int| self.content@[i]@)
    }
}

impl AirportList {
    /// No airport known.
    pub fn new() -> (list: AirportList)
        ensures
            list@ == Seq::<AirportView>::empty(),
    {
        let list = AirportList { content: Vec::new() };
        assert(list@ =~= Seq::<AirportView>::empty());
        list
    }

    /// Declares a new airport, or finds a known one, and answers how it is best called.
    pub fn add(&mut self, iata: Option<&str>, icao: Option<&str>, name: Option<&str>) -> (best: Result<
        String,
        AirportError,
    >)
        ensures
            best matches Ok(called) ==> airport_outcome(
                old(self)@,
                text_view(iata),
                text_view(icao),
                text_view(name),
            ) == Ok::<Seq<char>, AirportError>(called@),
            best matches Err(error) ==> airport_outcome(
                old(self)@,
                text_view(iata),
                text_view(icao),
                text_view(name),
            ) == Err::<Seq<char>, AirportError>(error),
            final(self)@ == airports_after(
                old(self)@,
                text_view(iata),
                text_view(icao),
                text_view(name),
            ),
    {
        proof {
            reveal_strlit("???");
            reveal_strlit("????");
            assert("???"@ =~= unknown_iata());
            assert("????"@ =~= unknown_icao());
        }
        match (iata, icao, name) {
            (Some(iata), Some(icao), Some(name)) => {
                if self.has_iata(iata) && !same_text(iata, "???") {
                    Err(AirportError::DuplicateIata)
                } else if self.has_icao(icao) && !same_text(icao, "????") {
                    Err(AirportError::DuplicateIcao)
                } else if self.has_name(name) {
                    Err(AirportError::DuplicateName)
                } else {
                    self.content.push(Airport::new(iata, icao, name));
                    assert(self@ =~= old(self)@.push(
                        AirportView { iata: iata@, icao: icao@, name: name@ },
                    ));
                    Ok(best_name(iata, icao, name))
                }
            },
            (Some(iata), None, None) => match self.find(Identity::Iata, iata) {
                Some(found) => Ok(found.best_name()),
                None => Err(AirportError::UnknownIata),
            },
            (None, Some(icao), None) => match self.find(Identity::Icao, icao) {
                Some(found) => Ok(found.best_name()),
                None => Err(AirportError::UnknownIcao),
            },
            (None, None, Some(name)) => match self.find(Identity::Name, name) {
                Some(found) => Ok(found.best_name()),
                None => Err(AirportError::UnknownName),
            },
            (None, None, None) => Err(AirportError::Unnamed),
            _ => Err(
                AirportError::BadlyDefined {
                    iata: iata.is_some(),
                    icao: icao.is_some(),
                    name: name.is_some(),
                },
            ),
        }
    }

    /// The first airport, in the order in which they were declared, that has this
    /// identity.
    pub fn find(&self, which: Identity, text: &str) -> (found: Option<&Airport>)
        ensures
            found matches Some(airport) ==> first_with(self@, which, text@) == Some(airport@),
            found is None ==> first_with(self@, which, text@) is None,
    {
        let mut i: usize = 0;
        while i < self.content.len()
            invariant
                i <= self.content.len(),
                forall|j: int| 0 <= j < i ==> (#[trigger] self@[j]).identity(which) != text@,
            decreases self.content.len() - i,
        {
            if same_text(text, self.content[i].identity(which)) {
                proof {
                    assert(self@[i as int] == self.content@[i as int]@);
                    lemma_first_with_is_at(self@, which, text@, i as int);
                }
                return Some(&self.content[i]);
            }
            assert(self@[i as int] == self.content@[i as int]@);
            i += 1;
        }
        proof {
            lemma_first_with_is_known(self@, which, text@);
            if first_with(self@, which, text@) is Some {
                let found = first_with(self@, which, text@)->0;
                let at = choose|j: int| 0 <= j < self@.len() && self@[j] == found;
                assert(self@[at].identity(which) != text@);
            }
        }
        None
    }

    /// Whether a known airport has this IATA code.
    pub fn has_iata(&self, iata: &str) -> (found: bool)
        ensures
            found == has_iata(self@, iata@),
    {
        let mut i: usize = 0;
        while i < self.content.len()
            invariant
                i <= self.content.len(),
                forall|j: int| 0 <= j < i ==> (#[trigger] self@[j]).iata != iata@,
            decreases self.content.len() - i,
        {
            if same_text(iata, self.content[i].iata.as_str()) {
                assert(self@[i as int].iata == iata@);
                return true;
            }
            i += 1;
        }
        false
    }

    /// Whether a known airport has this ICAO code.
    pub fn has_icao(&self, icao: &str) -> (found: bool)
        ensures
            found == has_icao(self@, icao@),
    {
        let mut i: usize = 0;
        while i < self.content.len()
            invariant
                i <= self.content.len(),
                forall|j: int| 0 <= j < i ==> (#[trigger] self@[j]).icao != icao@,
            decreases self.content.len() - i,
        {
            if same_text(icao, self.content[i].icao.as_str()) {
                assert(self@[i as int].icao == icao@);
                return true;
            }
            i += 1;
        }
        false
    }

    /// Whether a known airport has this name.
    pub fn has_name(&self, name: &str) -> (found: bool)
        ensures
            found == has_name(self@, name@),
    {
        let mut i: usize = 0;
        while i < self.content.len()
            invariant
                i <= self.content.len(),
                forall|j: int| 0 <= j < i ==> (#[trigger] self@[j]).name != name@,
            decreases self.content.len() - i,
        {
            if same_text(name, self.content[i].name.as_str()) {
                assert(self@[i as int].name == name@);
                return true;
            }
            i += 1;
        }
        false
    }
}

/// How an airport is best called: by its IATA code if one is assigned, else by its ICAO
/// code if one is assigned, else by its name.
pub fn best_name(iata: &str, icao: &str, name: &str) -> (best: String)
    ensures
        best@ == best_name_of(iata@, icao@, name@),
{
    proof {
        reveal_strlit("???");
        reveal_strlit("????");
        assert("???"@ =~= unknown_iata());
        assert("????"@ =~= unknown_icao());
    }
    if !same_text(iata, "???") {
        iata.to_owned()
    } else if !same_text(icao, "????") {
        icao.to_owned()
    } else {
        name.to_owned()
    }
}

/// An airport that was declared can be referred to by each of its three identities. A
/// reference by its name, or by a code that is assigned, answers how the airport is best
/// called.
pub proof fn lemma_declared_airport_is_found(
    airports: Seq<AirportView>,
    iata: Seq<char>,
    icao: Seq<char>,
    name: Seq<char>,
)
    requires
        airport_outcome(airports, Some(iata), Some(icao), Some(name)) is Ok,
    ensures
        ({
            let after = airports_after(airports, Some(iata), Some(icao), Some(name));
            let best = Ok::<Seq<char>, AirportError>(best_name_of(iata, icao, name));
            &&& airport_outcome(after, Some(iata), None, None) is Ok
            &&& airport_outcome(after, None, Some(icao), None) is Ok
            &&& iata != unknown_iata() ==> airport_outcome(after, Some(iata), None, None) == best
            &&& icao != unknown_icao() ==> airport_outcome(after, None, Some(icao), None) == best
            &&& airport_outcome(after, None, None, Some(name)) == best
        }),
{
    let after = airports_after(airports, Some(iata), Some(icao), Some(name));
    let last = after.len() - 1;
    assert(after[last] == AirportView { iata, icao, name });
    lemma_first_with_is_known(after, Identity::Iata, iata);
    lemma_first_with_is_known(after, Identity::Icao, icao);
    assert forall|earlier: int| 0 <= earlier < last implies (#[trigger] after[earlier]).identity(
        Identity::Name,
    ) != name by {
        assert(after[earlier] == airports[earlier]);
    }
    lemma_first_with_is_at(after, Identity::Name, name, last);
    if iata != unknown_iata() {
        assert forall|earlier: int| 0 <= earlier < last implies (#[trigger] after[earlier]).identity(
            Identity::Iata,
        ) != iata by {
            assert(after[earlier] == airports[earlier]);
        }
        lemma_first_with_is_at(after, Identity::Iata, iata, last);
    }
    if icao != unknown_icao() {
        assert forall|earlier: int| 0 <= earlier < last implies (#[trigger] after[earlier]).identity(
            Identity::Icao,
        ) != icao by {
            assert(after[earlier] == airports[earlier]);
        }
        lemma_first_with_is_at(after, Identity::Icao, icao, last);
    }
}

/// A reference that is accepted answers how a known airport with the identity that was
/// given is best called: by its IATA code unless none is assigned, else by its ICAO code
/// unless none is assigned, else by its name.
pub proof fn lemma_reference_answers_best_name(
    airports: Seq<AirportView>,
    which: Identity,
    text: Seq<char>,
)
    ensures
        ({
            let answer = match which {
                Identity::Iata => airport_outcome(airports, Some(text), None, None),
                Identity::Icao => airport_outcome(airports, None, Some(text), None),
                Identity::Name => airport_outcome(airports, None, None, Some(text)),
            };
            &&& answer matches Ok(called) ==> exists|i: int|
                0 <= i < airports.len() && (#[trigger] airports[i]).identity(which) == text
                    && called == airports[i].best_name()
            &&& answer is Err ==> forall|i: int|
                0 <= i < airports.len() ==> (#[trigger] airports[i]).identity(which) != text
            &&& airports_after(
                airports,
                if which == Identity::Iata { Some(text) } else { None },
                if which == Identity::Icao { Some(text) } else { None },
                if which == Identity::Name { Some(text) } else { None },
            ) == airports
        }),
{
    lemma_first_with_is_known(airports, which, text);
    if first_with(airports, which, text) is Some {
        let found = first_with(airports, which, text)->0;
        let at = choose|i: int| 0 <= i < airports.len() && airports[i] == found;
        assert(airports[at].identity(which) == text);
    }
}

/// Once an airport is declared, no other can be declared with its assigned IATA code,
/// whatever else the second declaration holds.
pub proof fn lemma_declared_iata_is_taken(
    airports: Seq<AirportView>,
    iata: Seq<char>,
    icao: Seq<char>,
    name: Seq<char>,
    other_icao: Seq<char>,
    other_name: Seq<char>,
)
    requires
        airport_outcome(airports, Some(iata), Some(icao), Some(name)) is Ok,
        iata != unknown_iata(),
    ensures
        airport_outcome(
            airports_after(airports, Some(iata), Some(icao), Some(name)),
            Some(iata),
            Some(other_icao),
            Some(other_name),
        ) == Err::<Seq<char>, AirportError>(AirportError::DuplicateIata),
{
    let after = airports_after(airports, Some(iata), Some(icao), Some(name));
    let last = after.len() - 1;
    assert(after[last] == AirportView { iata, icao, name });
}

/// A reference by an identity that no declared airport has is refused.
pub proof fn lemma_undeclared_airport_is_refused(airports: Seq<AirportView>, identity: Seq<char>)
    ensures
        !has_iata(airports, identity) ==> airport_outcome(airports, Some(identity), None, None)
            == Err::<Seq<char>, AirportError>(AirportError::UnknownIata),
        !has_icao(airports, identity) ==> airport_outcome(airports, None, Some(identity), None)
            == Err::<Seq<char>, AirportError>(AirportError::UnknownIcao),
        !has_name(airports, identity) ==> airport_outcome(airports, None, None, Some(identity))
            == Err::<Seq<char>, AirportError>(AirportError::UnknownName),
{
    lemma_first_with_is_known(airports, Identity::Iata, identity);
    lemma_first_with_is_known(airports, Identity::Icao, identity);
    lemma_first_with_is_known(airports, Identity::Name, identity);
    if first_with(airports, Identity::Iata, identity) is Some {
        let found = first_with(airports, Identity::Iata, identity)->0;
        let at = choose|i: int| 0 <= i < airports.len() && airports[i] == found;
        assert(airports[at].iata == identity);
    }
    if first_with(airports, Identity::Icao, identity) is Some {
        let found = first_with(airports, Identity::Icao, identity)->0;
        let at = choose|i: int| 0 <= i < airports.len() && airports[i] == found;
        assert(airports[at].icao == identity);
    }
    if first_with(airports, Identity::Name, identity) is Some {
        let found = first_with(airports, Identity::Name, identity)->0;
        let at = choose|i: int| 0 <= i < airports.len() && airports[i] == found;
        assert(airports[at].name == identity);
    }
}

/// Whether no two airports share an assigned IATA code, an assigned ICAO code or a name.
pub open spec fn is_unambiguous(airports: Seq<AirportView>) -> bool {
    forall|i: int, j: int|
        #![trigger airports[i], airports[j]]
        0 <= i < j < airports.len() ==> {
            &&& airports[i].iata == airports[j].iata ==> airports[i].iata == unknown_iata()
            &&& airports[i].icao == airports[j].icao ==> airports[i].icao == unknown_icao()
            &&& airports[i].name != airports[j].name
        }
}

/// Airports that are unambiguous stay so, whatever is declared or referred to.
pub proof fn lemma_airports_stay_unambiguous(
    airports: Seq<AirportView>,
    iata: Option<Seq<char>>,
    icao: Option<Seq<char>>,
    name: Option<Seq<char>>,
)
    requires
        is_unambiguous(airports),
    ensures
        is_unambiguous(airports_after(airports, iata, icao, name)),
{
    let after = airports_after(airports, iata, icao, name);
    assert forall|i: int, j: int|
        #![trigger after[i], after[j]]
        0 <= i < j < after.len() implies {
        &&& after[i].iata == after[j].iata ==> after[i].iata == unknown_iata()
        &&& after[i].icao == after[j].icao ==> after[i].icao == unknown_icao()
        &&& after[i].name != after[j].name
    } by {
        if j < airports.len() {
            assert(after[i] == airports[i] && after[j] == airports[j]);
        } else {
            assert(after[i] == airports[i]);
        }
    }
}

/// Declarations and references never make a known airport unknown.
pub proof fn lemma_airports_only_grow(
    airports: Seq<AirportView>,
    iata: Option<Seq<char>>,
    icao: Option<Seq<char>>,
    name: Option<Seq<char>>,
)
    ensures
        airports.is_prefix_of(airports_after(airports, iata, icao, name)),
{
}

} // verus!
