//! The remote backend: a hosted table of records, reached over HTTP. Each
//! record has the fields `number`, `name` and `types`, and an identifier
//! that the service gave it.
//!
//! This module decides; it does not touch the network. Each operation is a
//! run, whose requests the repository sends in order through its client, a
//! `Service` for `HttpRequest` and `HttpReply`.
//!
//! An insertion first reads the records with the number of the new entry
//! and creates the record only if there is none. These are two requests,
//! and the service may serve another caller between them: two insertions
//! of one number that run at the same time can both create a record. The
//! backend does not hide that; uniqueness holds among callers that take
//! turns.

use crate::domain::entities::{
    entry_is_valid, fields, texts, Pokemon, PokemonName, PokemonNumber, PokemonTypes, PokemonView,
};
use crate::repositories::pokemon::run::{
    commands_of as requests_sent, drive, driven, replies_of, trace, Protocol, Run, Service, Step,
};
use crate::repositories::pokemon::{
    restored, result_view, views, DeleteError, FetchAllError, FetchOneError, InsertError,
    Repository,
};
use vstd::prelude::*;

verus! {

/// The decimal digit of `d`, which is below ten.
pub open spec fn digit(d: nat) -> char {
    if d == 0 {
        '0'
    } else if d == 1 {
        '1'
    } else if d == 2 {
        '2'
    } else if d == 3 {
        '3'
    } else if d == 4 {
        '4'
    } else if d == 5 {
        '5'
    } else if d == 6 {
        '6'
    } else if d == 7 {
        '7'
    } else if d == 8 {
        '8'
    } else {
        '9'
    }
}

/// The decimal numeral of `n`, without leading zeros.
pub open spec fn decimal(n: nat) -> Seq<char>
    decreases n,
{
    if n < 10 {
        seq![digit(n)]
    } else {
        decimal(n / 10).push(digit(n % 10))
    }
}

/// The decimal digit of `d` as text.
fn digit_text(d: u16) -> (text: &'static str)
    requires
        d < 10,
    ensures
        text@ == seq![digit(d as nat)],
{
    proof {
        reveal_strlit("0");
        reveal_strlit("1");
        reveal_strlit("2");
        reveal_strlit("3");
        reveal_strlit("4");
        reveal_strlit("5");
        reveal_strlit("6");
        reveal_strlit("7");
        reveal_strlit("8");
        reveal_strlit("9");
    }
    let text = if d == 0 {
        "0"
    } else if d == 1 {
        "1"
    } else if d == 2 {
        "2"
    } else if d == 3 {
        "3"
    } else if d == 4 {
        "4"
    } else if d == 5 {
        "5"
    } else if d == 6 {
        "6"
    } else if d == 7 {
        "7"
    } else if d == 8 {
        "8"
    } else {
        "9"
    };
    assert(text@ =~= seq![digit(d as nat)]);
    text
}

/// Appends the decimal numeral of `n` to `text`.
fn push_decimal(text: &mut String, n: u16)
    ensures
        final(text)@ == old(text)@ + decimal(n as nat),
    decreases n,
{
    if n >= 10 {
        push_decimal(text, n / 10);
    }
    text.append(digit_text(n % 10));
    assert(text@ =~= old(text)@ + decimal(n as nat));
}

/// The address of the table.
pub open spec fn endpoint() -> Seq<char> {
    "https://api.airtable.com/v0/app4rbiOzPiOCE20j/pokemons"@
}

/// The value of the `Authorization` header for a key.
pub open spec fn bearer(api_key: Seq<char>) -> Seq<char> {
    "Bearer "@ + api_key
}

/// The address that reads the records with that number.
pub open spec fn filter_url(url: Seq<char>, number: u16) -> Seq<char> {
    url + "?filterByFormula=number%3D"@ + decimal(number as nat)
}

/// The address that reads all records, by ascending number.
pub open spec fn sorted_url(url: Seq<char>) -> Seq<char> {
    url + "?sort%5B0%5D%5Bfield%5D=number"@
}

/// The address of the record with that identifier.
pub open spec fn record_url(url: Seq<char>, id: Seq<char>) -> Seq<char> {
    url + "/"@ + id
}

/// One request for the service. Each carries its address and the value of
/// its `Authorization` header.
#[derive(Debug)]
pub enum HttpRequest {
    /// A `GET` whose answer matters only in that it came.
    Probe { url: String, authorization: String },
    /// A `GET` that reads records.
    Read { url: String, authorization: String },
    /// A `POST` that creates one record of these three fields.
    Create { url: String, authorization: String, number: u16, name: String, types: Vec<String> },
    /// A `DELETE` of the record that the address names.
    Remove { url: String, authorization: String },
}

/// A request as plain values.
pub enum HttpRequestView {
    Probe { url: Seq<char>, authorization: Seq<char> },
    Read { url: Seq<char>, authorization: Seq<char> },
    Create { url: Seq<char>, authorization: Seq<char>, entry: PokemonView },
    Remove { url: Seq<char>, authorization: Seq<char> },
}

impl View for HttpRequest {
    type V = HttpRequestView;

    open spec fn view(&self) -> HttpRequestView {
        match *self {
            HttpRequest::Probe { url, authorization } => HttpRequestView::Probe {
                url: url@,
                authorization: authorization@,
            },
            HttpRequest::Read { url, authorization } => HttpRequestView::Read {
                url: url@,
                authorization: authorization@,
            },
            HttpRequest::Create { url, authorization, number, name, types } => {
                HttpRequestView::Create {
                    url: url@,
                    authorization: authorization@,
                    entry: fields(number, name@, texts(types@)),
                }
            },
            HttpRequest::Remove { url, authorization } => HttpRequestView::Remove {
                url: url@,
                authorization: authorization@,
            },
        }
    }
}

/// One record of the table: the identifier that the service gave it, and
/// its three fields.
#[derive(Debug)]
pub struct AirtableRecord {
    pub id: String,
    pub number: u16,
    pub name: String,
    pub types: Vec<String>,
}

/// A record as plain values.
pub struct RecordView {
    pub id: Seq<char>,
    pub entry: PokemonView,
}

impl View for AirtableRecord {
    type V = RecordView;

    open spec fn view(&self) -> RecordView {
        RecordView { id: self.id@, entry: fields(self.number, self.name@, texts(self.types@)) }
    }
}

/// The records as plain values, in order.
pub open spec fn record_views(records: Seq<AirtableRecord>) -> Seq<RecordView> {
    Seq::new(records.len(), |i: int| records[i]@)
}

/// What the service answered to one request.
#[derive(Debug)]
pub enum HttpReply {
    /// The records that a `Read` found.
    Records(Vec<AirtableRecord>),
    /// The service accepted a request that reads no records.
    Done,
    /// The request failed: it did not reach the service, the service
    /// refused it, or its answer could not be read.
    Failed,
}

/// A reply as plain values.
pub enum HttpReplyView {
    Records(Seq<RecordView>),
    Done,
    Failed,
}

impl View for HttpReply {
    type V = HttpReplyView;

    open spec fn view(&self) -> HttpReplyView {
        match *self {
            HttpReply::Records(records) => HttpReplyView::Records(record_views(records@)),
            HttpReply::Done => HttpReplyView::Done,
            HttpReply::Failed => HttpReplyView::Failed,
        }
    }
}

/// The access to one table of the service: its address and the value of
/// the `Authorization` header that every request carries.
#[derive(Debug)]
pub struct Access {
    url: String,
    auth_header: String,
}

/// An access as plain values.
pub struct AccessView {
    pub url: Seq<char>,
    pub authorization: Seq<char>,
}

impl View for Access {
    type V = AccessView;

    closed spec fn view(&self) -> AccessView {
        AccessView { url: self.url@, authorization: self.auth_header@ }
    }
}

impl Clone for Access {
    fn clone(&self) -> (copy: Self)
        ensures
            copy@ == self@,
    {
        Access { url: self.url.clone(), auth_header: self.auth_header.clone() }
    }
}

impl Access {
    /// The access that a key gives. The table is the same for every key.
    pub fn new(api_key: &str) -> (access: Self)
        ensures
            access@ == (AccessView { url: endpoint(), authorization: bearer(api_key@) }),
    {
        let url = "https://api.airtable.com/v0/app4rbiOzPiOCE20j/pokemons".to_owned();
        let mut auth_header = "Bearer ".to_owned();
        auth_header.append(api_key);
        Access { url, auth_header }
    }

    /// The request that probes the service: it reads the table, and only
    /// whether the service accepts it matters.
    pub fn probe(&self) -> (request: HttpRequest)
        ensures
            request@ == (HttpRequestView::Probe {
                url: self@.url,
                authorization: self@.authorization,
            }),
    {
        HttpRequest::Probe { url: self.url.clone(), authorization: self.auth_header.clone() }
    }

    /// The request that reads the records with that number, or all records
    /// by ascending number where no number is given.
    pub fn fetch_pokemon_rows(&self, number: Option<u16>) -> (request: HttpRequest)
        ensures
            request@ == (HttpRequestView::Read {
                url: match number {
                    Some(number) => filter_url(self@.url, number),
                    None => sorted_url(self@.url),
                },
                authorization: self@.authorization,
            }),
    {
        let mut url = self.url.clone();
        match number {
            Some(number) => {
                url.append("?filterByFormula=number%3D");
                push_decimal(&mut url, number);
            },
            None => {
                url.append("?sort%5B0%5D%5Bfield%5D=number");
            },
        }
        HttpRequest::Read { url, authorization: self.auth_header.clone() }
    }
}

/// The move of the run that probes the service: the service is there when
/// it accepted the probe.
pub open spec fn probe_step(reply: HttpReplyView) -> Step<(), HttpRequestView, Result<(), ()>> {
    match reply {
        HttpReplyView::Done => Step::Finish(Ok(())),
        _ => Step::Finish(Err(())),
    }
}

/// The run that probes the service.
#[derive(Debug)]
pub struct ProbeRun {}

impl ProbeRun {
    /// Starts the run: its one request is the probe.
    pub fn start(access: &Access) -> (run: (Self, HttpRequest))
        ensures
            run.1@ == (HttpRequestView::Probe {
                url: access@.url,
                authorization: access@.authorization,
            }),
    {
        (ProbeRun {  }, access.probe())
    }
}

impl Protocol<HttpRequest, HttpReply> for ProbeRun {
    type State = ();

    type AnswerView = Result<(), ()>;

    open spec fn step(state: (), reply: HttpReplyView) -> Step<(), HttpRequestView, Result<(), ()>> {
        probe_step(reply)
    }

    open spec fn rank(state: ()) -> (nat, nat) {
        (0, 0)
    }

    proof fn lemma_rank_falls(state: (), reply: HttpReplyView) {
    }
}

impl Run<HttpRequest, HttpReply> for ProbeRun {
    type Answer = Result<(), ()>;

    open spec fn state(&self) -> () {
        ()
    }

    open spec fn answer_view(answer: Result<(), ()>) -> Result<(), ()> {
        answer
    }

    /// Takes the reply to the one request of the run and answers.
    fn advance(self, reply: HttpReply) -> (step: Step<Self, HttpRequest, Result<(), ()>>)
        ensures
            step matches Step::Finish(answer) && probe_step(reply@) == Step::<(), HttpRequestView, Result<(), ()>>::Finish(
                answer,
            ),
    {
        match reply {
            HttpReply::Done => Step::Finish(Ok(())),
            _ => Step::Finish(Err(())),
        }
    }
}

/// An insertion under way, as plain values: the access, the entry, and
/// whether the record is being created.
pub struct InsertView {
    pub access: AccessView,
    pub entry: PokemonView,
    pub created: bool,
}

/// A move of an insertion, as plain values.
pub type InsertStep = Step<InsertView, HttpRequestView, Result<PokemonView, InsertError>>;

/// The move of an insertion in `state` on `reply`.
///
/// Where the service holds a record with the number of the entry, the
/// insertion answers `Conflict` and creates nothing. Where it holds none,
/// the record is created, and the insertion answers the entry once the
/// service has accepted it. A reply of another kind than the one awaited
/// answers `Unknown`.
pub open spec fn insert_step(state: InsertView, reply: HttpReplyView) -> InsertStep {
    if !state.created {
        match reply {
            HttpReplyView::Records(records) => if records.len() > 0 {
                Step::Finish(Err(InsertError::Conflict))
            } else {
                Step::Perform(
                    InsertView { access: state.access, entry: state.entry, created: true },
                    HttpRequestView::Create {
                        url: state.access.url,
                        authorization: state.access.authorization,
                        entry: state.entry,
                    },
                )
            },
            _ => Step::Finish(Err(InsertError::Unknown)),
        }
    } else {
        match reply {
            HttpReplyView::Done => Step::Finish(Ok(state.entry)),
            _ => Step::Finish(Err(InsertError::Unknown)),
        }
    }
}

/// An insertion under way.
#[derive(Debug)]
pub struct InsertRun {
    access: Access,
    pokemon: Pokemon,
    created: bool,
}

impl View for InsertRun {
    type V = InsertView;

    closed spec fn view(&self) -> InsertView {
        InsertView { access: self.access@, entry: self.pokemon@, created: self.created }
    }
}

impl InsertRun {
    /// Starts the insertion of an entry: the first request reads the
    /// records with its number.
    pub fn start(access: &Access, number: PokemonNumber, name: PokemonName, types: PokemonTypes) -> (run:
        (InsertRun, HttpRequest))
        ensures
            run.0@ == (InsertView {
                access: access@,
                entry: fields(number@, name@, types@),
                created: false,
            }),
            run.1@ == (HttpRequestView::Read {
                url: filter_url(access@.url, number@),
                authorization: access@.authorization,
            }),
    {
        let request = access.fetch_pokemon_rows(Some(number.value()));
        let pokemon = Pokemon::new(number, name, types);
        (InsertRun { access: access.clone(), pokemon, created: false }, request)
    }
}

impl Protocol<HttpRequest, HttpReply> for InsertRun {
    type State = InsertView;

    type AnswerView = Result<PokemonView, InsertError>;

    open spec fn step(state: InsertView, reply: HttpReplyView) -> InsertStep {
        insert_step(state, reply)
    }

    open spec fn rank(state: InsertView) -> (nat, nat) {
        (
            0,
            if state.created {
                0
            } else {
                1
            },
        )
    }

    proof fn lemma_rank_falls(state: InsertView, reply: HttpReplyView) {
    }
}

impl Run<HttpRequest, HttpReply> for InsertRun {
    type Answer = Result<Pokemon, InsertError>;

    open spec fn state(&self) -> InsertView {
        self@
    }

    open spec fn answer_view(answer: Result<Pokemon, InsertError>) -> Result<
        PokemonView,
        InsertError,
    > {
        result_view(answer)
    }

    /// Takes the reply to the request that was performed last and makes
    /// the next move.
    fn advance(self, reply: HttpReply) -> (step: Step<Self, HttpRequest, Result<Pokemon, InsertError>>)
        ensures
            match step {
                Step::Perform(next, request) => insert_step(self@, reply@) == Step::<
                    InsertView,
                    HttpRequestView,
                    Result<PokemonView, InsertError>,
                >::Perform(next@, request@),
                Step::Finish(answer) => insert_step(self@, reply@) == Step::<
                    InsertView,
                    HttpRequestView,
                    Result<PokemonView, InsertError>,
                >::Finish(result_view(answer)),
            },
    {
        let InsertRun { access, pokemon, created } = self;
        if !created {
            match reply {
                HttpReply::Records(records) => {
                    if !records.is_empty() {
                        Step::Finish(Err(InsertError::Conflict))
                    } else {
                        let request = HttpRequest::Create {
                            url: access.url.clone(),
                            authorization: access.auth_header.clone(),
                            number: pokemon.number.value(),
                            name: pokemon.name.as_str().to_owned(),
                            types: pokemon.types.to_strings(),
                        };
                        Step::Perform(InsertRun { access, pokemon, created: true }, request)
                    }
                },
                _ => Step::Finish(Err(InsertError::Unknown)),
            }
        } else {
            match reply {
                HttpReply::Done => Step::Finish(Ok(pokemon)),
                _ => Step::Finish(Err(InsertError::Unknown)),
            }
        }
    }
}

/// The entries of `records`, in order, if every field of every record is
/// valid; `Unknown` if one is not.
pub open spec fn all_restored(records: Seq<RecordView>) -> Result<Seq<PokemonView>, FetchAllError> {
    if forall|i: int| 0 <= i < records.len() ==> entry_is_valid(#[trigger] records[i].entry) {
        Ok(Seq::new(records.len(), |i: int| records[i].entry))
    } else {
        Err(FetchAllError::Unknown)
    }
}

/// What a listing answers on `reply`: the entries of the records in their
/// order, and `Unknown` for an invalid field or a reply without records.
pub open spec fn fetch_all_answer(reply: HttpReplyView) -> Result<Seq<PokemonView>, FetchAllError> {
    match reply {
        HttpReplyView::Records(records) => all_restored(records),
        _ => Err(FetchAllError::Unknown),
    }
}

/// The entries or an error, the entries as plain values.
pub open spec fn listing_view(result: Result<Vec<Pokemon>, FetchAllError>) -> Result<
    Seq<PokemonView>,
    FetchAllError,
> {
    match result {
        Ok(pokemons) => Ok(views(pokemons@)),
        Err(error) => Err(error),
    }
}

/// A listing that awaits the records.
#[derive(Debug)]
pub struct FetchAllRun {}

impl FetchAllRun {
    /// Starts a listing: its one request reads all records by ascending
    /// number.
    pub fn start(access: &Access) -> (run: (FetchAllRun, HttpRequest))
        ensures
            run.1@ == (HttpRequestView::Read {
                url: sorted_url(access@.url),
                authorization: access@.authorization,
            }),
    {
        (FetchAllRun {  }, access.fetch_pokemon_rows(None))
    }

    /// The entries of the records, or `Unknown` if a field of one of them
    /// is invalid.
    fn restore(records: Vec<AirtableRecord>) -> (res: Result<Vec<Pokemon>, FetchAllError>)
        ensures
            listing_view(res) == all_restored(record_views(records@)),
    {
        let ghost all = record_views(records@);
        let mut rest = records;
        let mut found: Vec<Pokemon> = Vec::new();
        // The records are taken from the back, so the entries are turned
        // round at the end.
        while rest.len() > 0
            invariant
                all == record_views(records@),
                rest@.len() + found@.len() == all.len(),
                record_views(rest@) == all.take(rest@.len() as int),
                forall|k: int|
                    0 <= k < found@.len() ==> (#[trigger] found@[k])@ == all[all.len() - 1
                        - k].entry,
                forall|k: int|
                    rest@.len() <= k < all.len() ==> entry_is_valid(#[trigger] all[k].entry),
            decreases rest@.len(),
        {
            let ghost before = record_views(rest@);
            let record = rest.pop().unwrap();
            assert(record@ == before[before.len() - 1]);
            assert(record_views(rest@) =~= all.take(rest@.len() as int));
            match Pokemon::from_fields(record.number, record.name, record.types) {
                Ok(pokemon) => found.push(pokemon),
                Err(_) => {
                    assert(!entry_is_valid(all[rest@.len() as int].entry));
                    return Err(FetchAllError::Unknown);
                },
            }
        }
        let mut ordered: Vec<Pokemon> = Vec::new();
        while found.len() > 0
            invariant
                ordered@.len() + found@.len() == all.len(),
                forall|k: int|
                    0 <= k < found@.len() ==> (#[trigger] found@[k])@ == all[all.len() - 1
                        - k].entry,
                forall|k: int| 0 <= k < ordered@.len() ==> (#[trigger] ordered@[k])@ == all[k].entry,
            decreases found@.len(),
        {
            let pokemon = found.pop().unwrap();
            ordered.push(pokemon);
        }
        assert(views(ordered@) =~= Seq::new(all.len(), |i: int| all[i].entry));
        Ok(ordered)
    }
}

impl Protocol<HttpRequest, HttpReply> for FetchAllRun {
    type State = ();

    type AnswerView = Result<Seq<PokemonView>, FetchAllError>;

    open spec fn step(state: (), reply: HttpReplyView) -> Step<
        (),
        HttpRequestView,
        Result<Seq<PokemonView>, FetchAllError>,
    > {
        Step::Finish(fetch_all_answer(reply))
    }

    open spec fn rank(state: ()) -> (nat, nat) {
        (0, 0)
    }

    proof fn lemma_rank_falls(state: (), reply: HttpReplyView) {
    }
}

impl Run<HttpRequest, HttpReply> for FetchAllRun {
    type Answer = Result<Vec<Pokemon>, FetchAllError>;

    open spec fn state(&self) -> () {
        ()
    }

    open spec fn answer_view(answer: Result<Vec<Pokemon>, FetchAllError>) -> Result<
        Seq<PokemonView>,
        FetchAllError,
    > {
        listing_view(answer)
    }

    /// Takes the reply to the one request of the run and answers.
    fn advance(self, reply: HttpReply) -> (step: Step<
        Self,
        HttpRequest,
        Result<Vec<Pokemon>, FetchAllError>,
    >)
        ensures
            step matches Step::Finish(answer) && listing_view(answer) == fetch_all_answer(reply@),
    {
        match reply {
            HttpReply::Records(records) => Step::Finish(Self::restore(records)),
            _ => Step::Finish(Err(FetchAllError::Unknown)),
        }
    }
}

/// What a fetch of one entry answers on `reply`: `NotFound` where no
/// record was found, else the entry of the first record, and `Unknown` for
/// an invalid field or a reply without records.
pub open spec fn fetch_one_answer(reply: HttpReplyView) -> Result<PokemonView, FetchOneError> {
    match reply {
        HttpReplyView::Records(records) => if records.len() == 0 {
            Err(FetchOneError::NotFound)
        } else {
            restored(records[0].entry, FetchOneError::Unknown)
        },
        _ => Err(FetchOneError::Unknown),
    }
}

/// A fetch of one entry that awaits the records.
#[derive(Debug)]
pub struct FetchOneRun {}

impl FetchOneRun {
    /// Starts the fetch of the entry with that number: its one request
    /// reads the records with that number.
    pub fn start(access: &Access, number: PokemonNumber) -> (run: (FetchOneRun, HttpRequest))
        ensures
            run.1@ == (HttpRequestView::Read {
                url: filter_url(access@.url, number@),
                authorization: access@.authorization,
            }),
    {
        (FetchOneRun {  }, access.fetch_pokemon_rows(Some(number.value())))
    }
}

impl Protocol<HttpRequest, HttpReply> for FetchOneRun {
    type State = ();

    type AnswerView = Result<PokemonView, FetchOneError>;

    open spec fn step(state: (), reply: HttpReplyView) -> Step<
        (),
        HttpRequestView,
        Result<PokemonView, FetchOneError>,
    > {
        Step::Finish(fetch_one_answer(reply))
    }

    open spec fn rank(state: ()) -> (nat, nat) {
        (0, 0)
    }

    proof fn lemma_rank_falls(state: (), reply: HttpReplyView) {
    }
}

impl Run<HttpRequest, HttpReply> for FetchOneRun {
    type Answer = Result<Pokemon, FetchOneError>;

    open spec fn state(&self) -> () {
        ()
    }

    open spec fn answer_view(answer: Result<Pokemon, FetchOneError>) -> Result<
        PokemonView,
        FetchOneError,
    > {
        result_view(answer)
    }

    /// Takes the reply to the one request of the run and answers.
    fn advance(self, reply: HttpReply) -> (step: Step<Self, HttpRequest, Result<Pokemon, FetchOneError>>)
        ensures
            step matches Step::Finish(answer) && result_view(answer) == fetch_one_answer(reply@),
    {
        match reply {
            HttpReply::Records(mut records) => {
                if records.is_empty() {
                    Step::Finish(Err(FetchOneError::NotFound))
                } else {
                    let record = records.remove(0);
                    match Pokemon::from_fields(record.number, record.name, record.types) {
                        Ok(pokemon) => Step::Finish(Ok(pokemon)),
                        Err(_) => Step::Finish(Err(FetchOneError::Unknown)),
                    }
                }
            },
            _ => Step::Finish(Err(FetchOneError::Unknown)),
        }
    }
}

/// A deletion under way, as plain values: the access, and whether the
/// record is being removed.
pub struct DeleteView {
    pub access: AccessView,
    pub removing: bool,
}

/// A move of a deletion, as plain values.
pub type DeleteStep = Step<DeleteView, HttpRequestView, Result<(), DeleteError>>;

/// The move of a deletion in `state` on `reply`.
///
/// Where the service holds no record with the number, the deletion answers
/// `NotFound`. Where it holds one, the first of them is removed by its
/// identifier, and the deletion answers once the service has accepted
/// that. A reply of another kind than the one awaited answers `Unknown`.
pub open spec fn delete_step(state: DeleteView, reply: HttpReplyView) -> DeleteStep {
    if !state.removing {
        match reply {
            HttpReplyView::Records(records) => if records.len() == 0 {
                Step::Finish(Err(DeleteError::NotFound))
            } else {
                Step::Perform(
                    DeleteView { access: state.access, removing: true },
                    HttpRequestView::Remove {
                        url: record_url(state.access.url, records[0].id),
                        authorization: state.access.authorization,
                    },
                )
            },
            _ => Step::Finish(Err(DeleteError::Unknown)),
        }
    } else {
        match reply {
            HttpReplyView::Done => Step::Finish(Ok(())),
            _ => Step::Finish(Err(DeleteError::Unknown)),
        }
    }
}

/// A deletion under way.
#[derive(Debug)]
pub struct DeleteRun {
    access: Access,
    removing: bool,
}

impl View for DeleteRun {
    type V = DeleteView;

    closed spec fn view(&self) -> DeleteView {
        DeleteView { access: self.access@, removing: self.removing }
    }
}

impl DeleteRun {
    /// Starts the deletion of the entry with that number: the first request
    /// reads the records with that number.
    pub fn start(access: &Access, number: PokemonNumber) -> (run: (DeleteRun, HttpRequest))
        ensures
            run.0@ == (DeleteView { access: access@, removing: false }),
            run.1@ == (HttpRequestView::Read {
                url: filter_url(access@.url, number@),
                authorization: access@.authorization,
            }),
    {
        let request = access.fetch_pokemon_rows(Some(number.value()));
        (DeleteRun { access: access.clone(), removing: false }, request)
    }
}

impl Protocol<HttpRequest, HttpReply> for DeleteRun {
    type State = DeleteView;

    type AnswerView = Result<(), DeleteError>;

    open spec fn step(state: DeleteView, reply: HttpReplyView) -> DeleteStep {
        delete_step(state, reply)
    }

    open spec fn rank(state: DeleteView) -> (nat, nat) {
        (
            0,
            if state.removing {
                0
            } else {
                1
            },
        )
    }

    proof fn lemma_rank_falls(state: DeleteView, reply: HttpReplyView) {
    }
}

impl Run<HttpRequest, HttpReply> for DeleteRun {
    type Answer = Result<(), DeleteError>;

    open spec fn state(&self) -> DeleteView {
        self@
    }

    open spec fn answer_view(answer: Result<(), DeleteError>) -> Result<(), DeleteError> {
        answer
    }

    /// Takes the reply to the request that was performed last and makes
    /// the next move.
    fn advance(self, reply: HttpReply) -> (step: Step<Self, HttpRequest, Result<(), DeleteError>>)
        ensures
            match step {
                Step::Perform(next, request) => delete_step(self@, reply@) == Step::<
                    DeleteView,
                    HttpRequestView,
                    Result<(), DeleteError>,
                >::Perform(next@, request@),
                Step::Finish(answer) => delete_step(self@, reply@) == Step::<
                    DeleteView,
                    HttpRequestView,
                    Result<(), DeleteError>,
                >::Finish(answer),
            },
    {
        let DeleteRun { access, removing } = self;
        if !removing {
            match reply {
                HttpReply::Records(mut records) => {
                    if records.is_empty() {
                        Step::Finish(Err(DeleteError::NotFound))
                    } else {
                        let record = records.remove(0);
                        let mut url = access.url.clone();
                        url.append("/");
                        url.append(record.id.as_str());
                        let request = HttpRequest::Remove {
                            url,
                            authorization: access.auth_header.clone(),
                        };
                        Step::Perform(DeleteRun { access, removing: true }, request)
                    }
                },
                _ => Step::Finish(Err(DeleteError::Unknown)),
            }
        } else {
            match reply {
                HttpReply::Done => Step::Finish(Ok(())),
                _ => Step::Finish(Err(DeleteError::Unknown)),
            }
        }
    }
}

/// What driving an insertion through a client amounts to. The records with
/// the number of the entry are read first. Where there is one, the
/// insertion answers `Conflict`, and that was the only request. The record
/// of the entry is created only where the service answered that there is
/// none, and the insertion answers the entry only where the service accepted
/// the creation. Never are more than these two requests sent.
pub proof fn lemma_driven_insert_looks_up_first<H: Service<HttpRequest, HttpReply>>(
    client: H,
    access: AccessView,
    entry: PokemonView,
    exchanges: Seq<(HttpRequest, HttpReply)>,
    answer: Result<PokemonView, InsertError>,
)
    requires
        driven::<HttpRequest, HttpReply, H, InsertRun>(
            client,
            InsertView { access, entry, created: false },
            HttpRequestView::Read {
                url: filter_url(access.url, entry.number),
                authorization: access.authorization,
            },
            exchanges,
            answer,
        ),
    ensures
        exchanges.len() <= 2,
        answer == Err::<PokemonView, InsertError>(InsertError::Conflict) <==> (replies_of(
            exchanges,
        )[0] matches HttpReplyView::Records(records) && records.len() > 0),
        answer == Err::<PokemonView, InsertError>(InsertError::Conflict) ==> exchanges.len() == 1,
        exchanges.len() == 2 ==> {
            &&& replies_of(exchanges)[0] == HttpReplyView::Records(Seq::empty())
            &&& requests_sent(exchanges)[1] == (HttpRequestView::Create {
                url: access.url,
                authorization: access.authorization,
                entry,
            })
        },
        answer is Ok <==> exchanges.len() == 2 && replies_of(exchanges)[1] is Done,
        answer matches Ok(stored) ==> stored == entry,
{
    let start = InsertView { access, entry, created: false };
    let replies = replies_of(exchanges);
    let requests = requests_sent(exchanges);
    let whole = trace::<HttpRequest, HttpReply, InsertRun>(start, replies);
    assert(whole == (requests.drop_first(), Some(answer)));
    assert(requests.drop_first().len() == exchanges.len() - 1);
    match insert_step(start, replies[0]) {
        Step::Finish(early) => {
            assert(whole == (Seq::<HttpRequestView>::empty(), Some(early)));
        },
        Step::Perform(next, request) => {
            let rest = replies.drop_first();
            let after = trace::<HttpRequest, HttpReply, InsertRun>(next, rest);
            assert(whole == (seq![request] + after.0, after.1));
            assert(rest.len() > 0);
            assert(rest[0] == replies[1]);
            assert(insert_step(next, rest[0]) is Finish);
            assert(after.0 =~= Seq::<HttpRequestView>::empty());
            assert((seq![request] + after.0).len() == 1);
            assert(requests.drop_first()[0] == requests[1]);
            if let HttpReplyView::Records(records) = replies[0] {
                assert(records =~= Seq::empty());
            }
        },
    }
}

/// What driving a deletion through a client amounts to. The records with
/// the number are read first. Where there is none, the deletion answers
/// `NotFound`, and that was the only request. Else the first of them is
/// removed by its identifier, and the deletion answers that the entry is
/// gone only where the service accepted the removal. Never are more than
/// these two requests sent.
pub proof fn lemma_driven_delete_looks_up_first<H: Service<HttpRequest, HttpReply>>(
    client: H,
    access: AccessView,
    number: u16,
    exchanges: Seq<(HttpRequest, HttpReply)>,
    answer: Result<(), DeleteError>,
)
    requires
        driven::<HttpRequest, HttpReply, H, DeleteRun>(
            client,
            DeleteView { access, removing: false },
            HttpRequestView::Read {
                url: filter_url(access.url, number),
                authorization: access.authorization,
            },
            exchanges,
            answer,
        ),
    ensures
        exchanges.len() <= 2,
        answer == Err::<(), DeleteError>(DeleteError::NotFound) <==> replies_of(exchanges)[0]
            == HttpReplyView::Records(Seq::empty()),
        answer == Err::<(), DeleteError>(DeleteError::NotFound) ==> exchanges.len() == 1,
        exchanges.len() == 2 ==> {
            &&& replies_of(exchanges)[0] matches HttpReplyView::Records(records)
            &&& records.len() > 0
            &&& requests_sent(exchanges)[1] == (HttpRequestView::Remove {
                url: record_url(access.url, records[0].id),
                authorization: access.authorization,
            })
        },
        answer is Ok <==> exchanges.len() == 2 && replies_of(exchanges)[1] is Done,
{
    let start = DeleteView { access, removing: false };
    let replies = replies_of(exchanges);
    let requests = requests_sent(exchanges);
    let whole = trace::<HttpRequest, HttpReply, DeleteRun>(start, replies);
    assert(whole == (requests.drop_first(), Some(answer)));
    assert(requests.drop_first().len() == exchanges.len() - 1);
    match delete_step(start, replies[0]) {
        Step::Finish(early) => {
            assert(whole == (Seq::<HttpRequestView>::empty(), Some(early)));
            if let HttpReplyView::Records(records) = replies[0] {
                if records.len() == 0 {
                    assert(records =~= Seq::empty());
                }
            }
        },
        Step::Perform(next, request) => {
            let rest = replies.drop_first();
            let after = trace::<HttpRequest, HttpReply, DeleteRun>(next, rest);
            assert(whole == (seq![request] + after.0, after.1));
            assert(rest.len() > 0);
            assert(rest[0] == replies[1]);
            assert(delete_step(next, rest[0]) is Finish);
            assert(after.0 =~= Seq::<HttpRequestView>::empty());
            assert((seq![request] + after.0).len() == 1);
            assert(requests.drop_first()[0] == requests[1]);
        },
    }
}

/// The remote backend through one client. Each operation is a run of this
/// module, driven through the client.
#[derive(Debug)]
pub struct AirtableRepository<H: Service<HttpRequest, HttpReply>> {
    access: Access,
    client: H,
}

impl<H: Service<HttpRequest, HttpReply>> AirtableRepository<H> {
    /// The access that the requests of the repository carry.
    pub closed spec fn access(&self) -> AccessView {
        self.access@
    }

    /// The client that the repository sends through.
    pub closed spec fn client(&self) -> H {
        self.client
    }

    /// The repository that a key gives, once the service has accepted a
    /// probe with that key: a `ProbeRun` is driven through the client, so
    /// a service that is not there, or that refuses the key, is found out
    /// before the first operation. The table is the same for every
    /// workspace.
    pub fn try_new(api_key: &str, workspace_id: &str, client: H) -> (res: Result<Self, ()>)
        ensures
            res matches Ok(repo) ==> repo.client() == client && repo.access() == (AccessView {
                url: endpoint(),
                authorization: bearer(api_key@),
            }),
            exists|exchanges: Seq<(HttpRequest, HttpReply)>, answer: Result<(), ()>|
                {
                    &&& #[trigger] driven::<HttpRequest, HttpReply, H, ProbeRun>(
                        client,
                        (),
                        HttpRequestView::Probe {
                            url: endpoint(),
                            authorization: bearer(api_key@),
                        },
                        exchanges,
                        answer,
                    )
                    &&& res is Ok <==> answer is Ok
                },
    {
        let access = Access::new(api_key);
        let (run, request) = ProbeRun::start(&access);
        match drive(&client, run, request) {
            Ok(()) => Ok(AirtableRepository { access, client }),
            Err(()) => Err(()),
        }
    }
}

impl<H: Service<HttpRequest, HttpReply>> Repository for AirtableRepository<H> {
    /// Drives an `InsertRun` through the client and answers what the run
    /// answers.
    fn insert(&mut self, number: PokemonNumber, name: PokemonName, types: PokemonTypes) -> (res:
        Result<Pokemon, InsertError>)
        ensures
            final(self).access() == old(self).access(),
            final(self).client() == old(self).client(),
            exists|exchanges: Seq<(HttpRequest, HttpReply)>| #[trigger]
                driven::<HttpRequest, HttpReply, H, InsertRun>(
                    old(self).client(),
                    InsertView {
                        access: old(self).access(),
                        entry: fields(number@, name@, types@),
                        created: false,
                    },
                    HttpRequestView::Read {
                        url: filter_url(old(self).access().url, number@),
                        authorization: old(self).access().authorization,
                    },
                    exchanges,
                    result_view(res),
                ),
    {
        let (run, request) = InsertRun::start(&self.access, number, name, types);
        let res = drive(&self.client, run, request);
        assert(old(self).client() == self.client);
        res
    }

    /// Drives a `FetchAllRun` through the client and answers what the run
    /// answers.
    fn fetch_all(&self) -> (res: Result<Vec<Pokemon>, FetchAllError>)
        ensures
            exists|exchanges: Seq<(HttpRequest, HttpReply)>| #[trigger]
                driven::<HttpRequest, HttpReply, H, FetchAllRun>(
                    self.client(),
                    (),
                    HttpRequestView::Read {
                        url: sorted_url(self.access().url),
                        authorization: self.access().authorization,
                    },
                    exchanges,
                    listing_view(res),
                ),
    {
        let (run, request) = FetchAllRun::start(&self.access);
        let res = drive(&self.client, run, request);
        assert(self.client() == self.client);
        assert(self.access() == self.access@);
        res
    }

    /// Drives a `FetchOneRun` through the client and answers what the run
    /// answers.
    fn fetch_one(&self, number: PokemonNumber) -> (res: Result<Pokemon, FetchOneError>)
        ensures
            exists|exchanges: Seq<(HttpRequest, HttpReply)>| #[trigger]
                driven::<HttpRequest, HttpReply, H, FetchOneRun>(
                    self.client(),
                    (),
                    HttpRequestView::Read {
                        url: filter_url(self.access().url, number@),
                        authorization: self.access().authorization,
                    },
                    exchanges,
                    result_view(res),
                ),
    {
        let (run, request) = FetchOneRun::start(&self.access, number);
        let res = drive(&self.client, run, request);
        assert(self.client() == self.client);
        assert(self.access() == self.access@);
        res
    }

    /// Drives a `DeleteRun` through the client and answers what the run
    /// answers.
    fn delete(&mut self, number: PokemonNumber) -> (res: Result<(), DeleteError>)
        ensures
            final(self).access() == old(self).access(),
            final(self).client() == old(self).client(),
            exists|exchanges: Seq<(HttpRequest, HttpReply)>| #[trigger]
                driven::<HttpRequest, HttpReply, H, DeleteRun>(
                    old(self).client(),
                    DeleteView { access: old(self).access(), removing: false },
                    HttpRequestView::Read {
                        url: filter_url(old(self).access().url, number@),
                        authorization: old(self).access().authorization,
                    },
                    exchanges,
                    res,
                ),
    {
        let (run, request) = DeleteRun::start(&self.access, number);
        let res = drive(&self.client, run, request);
        assert(old(self).client() == self.client);
        res
    }
}

} // verus!
