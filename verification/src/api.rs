//! The records that participants, sessions and the space exchange.
//!
//! Every record can be copied, and a copy equals the record it was made of:
//! the contracts of the services speak of stored and delivered records by
//! plain equality.

use vstd::prelude::*;

verus! {

/// A point in time: seconds since the Unix epoch and nanoseconds within the second.
#[derive(Clone, Copy, Debug, PartialEq, Eq)]
pub struct Timestamp {
    pub seconds: i64,
    pub nanos: i32,
}

/// A participant of the space. The id is its address; the nick only describes it.
#[derive(Debug, PartialEq, Eq)]
pub struct Timite {
    pub id: u64,
    pub nick: String,
}

impl Clone for Timite {
    fn clone(&self) -> (r: Self)
        ensures
            r == *self,
    {
        Timite { id: self.id, nick: self.nick.clone() }
    }
}

/// What a client says about itself when it opens a session.
#[derive(Debug, PartialEq, Eq)]
pub struct ClientInfo {
    pub platform: String,
}

impl Clone for ClientInfo {
    fn clone(&self) -> (r: Self)
        ensures
            r == *self,
    {
        ClientInfo { platform: self.platform.clone() }
    }
}

/// A credential bound to one participant. The key is the only secret.
#[derive(Debug, PartialEq, Eq)]
pub struct Session {
    pub key: String,
    pub timite_id: u64,
    pub created_at: Timestamp,
    pub client_info: ClientInfo,
}

impl Clone for Session {
    fn clone(&self) -> (r: Self)
        ensures
            r == *self,
    {
        Session {
            key: self.key.clone(),
            timite_id: self.timite_id,
            created_at: self.created_at,
            client_info: self.client_info.clone(),
        }
    }
}

/// A chat message as it is stored and published.
#[derive(Debug, PartialEq, Eq)]
pub struct Message {
    pub id: u64,
    pub sender_id: u64,
    pub content: String,
}

impl Clone for Message {
    fn clone(&self) -> (r: Self)
        ensures
            r == *self,
    {
        Message { id: self.id, sender_id: self.sender_id, content: self.content.clone() }
    }
}

/// The invocation of an ability: `sender_id` calls `name` on `timite_id`.
#[derive(Debug, PartialEq, Eq)]
pub struct CallAbility {
    pub call_ability_id: u64,
    pub sender_id: u64,
    pub timite_id: u64,
    pub name: String,
    pub payload: String,
}

impl Clone for CallAbility {
    fn clone(&self) -> (r: Self)
        ensures
            r == *self,
    {
        CallAbility {
            call_ability_id: self.call_ability_id,
            sender_id: self.sender_id,
            timite_id: self.timite_id,
            name: self.name.clone(),
            payload: self.payload.clone(),
        }
    }
}

/// The answer to an invocation: a payload on success, an error otherwise.
#[derive(Debug, PartialEq, Eq)]
pub struct CallAbilityOutcome {
    pub call_ability_id: u64,
    pub payload: Option<String>,
    pub error: Option<String>,
}

impl Clone for CallAbilityOutcome {
    fn clone(&self) -> (r: Self)
        ensures
            r == *self,
    {
        let payload = match &self.payload {
            Some(text) => Some(text.clone()),
            None => None,
        };
        let error = match &self.error {
            Some(text) => Some(text.clone()),
            None => None,
        };
        CallAbilityOutcome { call_ability_id: self.call_ability_id, payload, error }
    }
}

/// What the space stamps on every event: its place in the timeline and its time.
#[derive(Clone, Copy, Debug, PartialEq, Eq)]
pub struct EventMetadata {
    pub id: u64,
    pub emitted_at: Timestamp,
}

/// The five things that can happen in the space.
#[derive(Debug, PartialEq, Eq)]
pub enum EventData {
    NewMessage(Message),
    CallAbility(CallAbility),
    CallAbilityOutcome(CallAbilityOutcome),
    TimiteConnected(Timite),
    TimiteDisconnected(Timite),
}

impl Clone for EventData {
    fn clone(&self) -> (r: Self)
        ensures
            r == *self,
    {
        match self {
            EventData::NewMessage(message) => EventData::NewMessage(message.clone()),
            EventData::CallAbility(call) => EventData::CallAbility(call.clone()),
            EventData::CallAbilityOutcome(outcome) => EventData::CallAbilityOutcome(
                outcome.clone(),
            ),
            EventData::TimiteConnected(timite) => EventData::TimiteConnected(timite.clone()),
            EventData::TimiteDisconnected(timite) => EventData::TimiteDisconnected(
                timite.clone(),
            ),
        }
    }
}

/// One entry of the timeline.
#[derive(Debug, PartialEq, Eq)]
pub struct SpaceEvent {
    pub metadata: EventMetadata,
    pub data: EventData,
}

impl Clone for SpaceEvent {
    fn clone(&self) -> (r: Self)
        ensures
            r == *self,
    {
        SpaceEvent { metadata: self.metadata, data: self.data.clone() }
    }
}

impl SpaceEvent {
    /// The event's place in the timeline.
    pub open spec fn id(self) -> u64 {
        self.metadata.id
    }
}

/// One parameter of an ability.
#[derive(Debug, PartialEq, Eq)]
pub struct AbilityParameter {
    pub name: String,
    pub description: String,
}

impl Clone for AbilityParameter {
    fn clone(&self) -> (r: Self)
        ensures
            r == *self,
    {
        AbilityParameter { name: self.name.clone(), description: self.description.clone() }
    }
}

/// An operation that a participant says it can perform. The name is scoped
/// by the participant that declares it.
#[derive(Debug, PartialEq, Eq)]
pub struct Ability {
    pub name: String,
    pub description: String,
    pub params: Vec<AbilityParameter>,
}

/// What an ability says: its name, its description and its parameters in order.
pub struct AbilityView {
    pub name: String,
    pub description: String,
    pub params: Seq<AbilityParameter>,
}

impl View for Ability {
    type V = AbilityView;

    open spec fn view(&self) -> AbilityView {
        AbilityView { name: self.name, description: self.description, params: self.params@ }
    }
}

impl Clone for Ability {
    fn clone(&self) -> (r: Self)
        ensures
            r@ == self@,
    {
        let params = self.params.clone();
        assert(params@ =~= self.params@);
        Ability { name: self.name.clone(), description: self.description.clone(), params }
    }
}

/// What a list of abilities says, ability by ability.
pub open spec fn ability_views(abilities: Seq<Ability>) -> Seq<AbilityView> {
    abilities.map_values(|a: Ability| a@)
}

/// Copies a list of abilities.
pub fn clone_abilities(abilities: &Vec<Ability>) -> (r: Vec<Ability>)
    ensures
        ability_views(r@) == ability_views(abilities@),
{
    let mut out: Vec<Ability> = Vec::new();
    let mut i: usize = 0;
    while i < abilities.len()
        invariant
            i <= abilities.len(),
            out@.len() == i,
            forall|j: int| 0 <= j < i ==> out@[j]@ == abilities@[j]@,
        decreases abilities.len() - i,
    {
        out.push(abilities[i].clone());
        i += 1;
    }
    assert(ability_views(out@) =~= ability_views(abilities@));
    out
}

/// The ability set of one participant as it is stored: the latest declaration.
#[derive(Debug, PartialEq, Eq)]
pub struct StoredTimiteAbilities {
    pub timite_id: u64,
    pub abilities: Vec<Ability>,
}

/// A participant and the abilities it has declared.
#[derive(Debug, PartialEq, Eq)]
pub struct TimiteAbilities {
    pub timite: Timite,
    pub abilities: Vec<Ability>,
}

impl Clone for TimiteAbilities {
    fn clone(&self) -> (r: Self)
        ensures
            r.timite == self.timite,
            ability_views(r.abilities@) == ability_views(self.abilities@),
    {
        TimiteAbilities { timite: self.timite.clone(), abilities: clone_abilities(&self.abilities) }
    }
}

/// Why a request was answered without what it asked for.
#[derive(Clone, Copy, Debug, PartialEq, Eq, Structural)]
pub enum ErrorCode {
    Unspecified,
    TimiteNotFound,
}

/// Asks for a new participant and a session for it.
#[derive(Debug, PartialEq, Eq)]
pub struct TrustedRegisterReq {
    pub nick: String,
    pub client_info: Option<ClientInfo>,
}

#[derive(Debug, PartialEq, Eq)]
pub struct TrustedRegisterRes {
    pub session: Option<Session>,
}

/// Asks for a new session for a participant that exists.
#[derive(Debug, PartialEq, Eq)]
pub struct TrustedConnectReq {
    pub timite: Option<Timite>,
    pub client_info: Option<ClientInfo>,
}

#[derive(Debug, PartialEq, Eq)]
pub struct TrustedConnectRes {
    pub session: Option<Session>,
    pub error: ErrorCode,
}

/// Replaces the ability set of the session's participant.
#[derive(Debug, PartialEq, Eq)]
pub struct DeclareAbilitiesReq {
    pub abilities: Vec<Ability>,
}

#[derive(Debug, PartialEq, Eq)]
pub struct DeclareAbilitiesRes {}

#[derive(Debug, PartialEq, Eq)]
pub struct ListAbilitiesRes {
    pub abilities: Vec<TimiteAbilities>,
}

/// Sends a message in the name of the session's participant.
#[derive(Debug, PartialEq, Eq)]
pub struct SendMessageReq {
    pub content: String,
}

#[derive(Debug, PartialEq, Eq)]
pub struct SendMessageRes {
    pub error: Option<String>,
}

/// Opens a subscription of the session's participant.
#[derive(Clone, Copy, Debug, PartialEq, Eq)]
pub struct SubscribeToSpaceReq {
    pub receive_own_messages: bool,
}

/// Asks for a page of the timeline.
#[derive(Clone, Copy, Debug, PartialEq, Eq)]
pub struct GetTimelineReq {
    pub offset: u64,
    pub size: u32,
}

/// A page of the timeline and the participants that its events name.
#[derive(Debug, PartialEq, Eq)]
pub struct GetTimelineRes {
    pub offset: u64,
    pub size: u32,
    pub events: Vec<SpaceEvent>,
    pub timites: Vec<Timite>,
}

/// Calls an ability in the name of the session's participant.
#[derive(Debug, PartialEq, Eq)]
pub struct SendCallAbilityReq {
    pub call_ability: Option<CallAbility>,
}

#[derive(Clone, Copy, Debug, PartialEq, Eq)]
pub struct SendCallAbilityRes {
    pub call_ability_id: u64,
}

/// Answers an ability call in the name of the session's participant.
#[derive(Debug, PartialEq, Eq)]
pub struct SendCallAbilityOutcomeReq {
    pub outcome: Option<CallAbilityOutcome>,
}

#[derive(Debug, PartialEq, Eq)]
pub struct SendCallAbilityOutcomeRes {}

} // verus!
