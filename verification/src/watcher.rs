//! Watcher identities and the watcher registry.
//!
//! A watcher is any connected participant: the host, a player, or a freshly
//! joined, still unassigned visitor. Each watcher carries an opaque 128-bit
//! identifier. The registry keeps a primary mapping from identifier to role
//! together with a reverse index bucketed by role kind, so that broadcasts to
//! one kind need not scan everyone. The buckets and the primary mapping agree
//! at all times: that correspondence is the registry's well-formedness
//! predicate, established by the constructor and preserved by every mutator.

use vstd::prelude::*;

use crate::store::{IdMap, IdSet};

verus! {

/// How many watchers one game will hold at most.
pub const MAX_PLAYERS: usize = 1000;

/// Opaque 128-bit identifier for watchers, teams and internal keys.
#[derive(Debug, Clone, Copy, PartialEq, Eq, Hash, Structural)]
pub struct Id {
    bits: u128,
}

impl Id {
    /// The raw identifier bits.
    pub closed spec fn spec_bits(self) -> u128 {
        self.bits
    }

    /// The identifier with the given raw bits.
    pub closed spec fn spec_from_bits(bits: u128) -> Id {
        Id { bits }
    }

    /// Raw bits round-trip through an identifier.
    pub proof fn lemma_from_bits_injective(a: u128, b: u128)
        ensures
            Id::spec_from_bits(a).spec_bits() == a,
            Id::spec_from_bits(a) == Id::spec_from_bits(b) ==> a == b,
    {
    }

    /// Build an identifier from raw bits (used by the transport layer, which
    /// parses identifiers from text, and by tests).
    pub fn from_bits(bits: u128) -> (r: Id)
        ensures
            r.spec_bits() == bits,
            r == Id::spec_from_bits(bits),
    {
        Id { bits }
    }

    /// The raw bits, for ordering and textual rendering.
    pub fn bits(&self) -> (r: u128)
        ensures
            r == self.spec_bits(),
    {
        self.bits
    }

    /// Draw a fresh random identifier.
    ///
    /// Relies on `uuid::Uuid::new_v4`, which returns a random version-4 UUID;
    /// nothing is promised of the value.
    #[verifier::external_body]
    pub fn new() -> Id {
        Id { bits: uuid::Uuid::new_v4().as_u128() }
    }

    /// Whether `self` sorts at or before `other` in raw-bit order.
    pub fn le(&self, other: &Id) -> (r: bool)
        ensures
            r == (self.spec_bits() <= other.spec_bits()),
    {
        self.bits <= other.bits
    }
}

/// The role kind of a watcher, used for bucketing and broadcast filters.
#[derive(Debug, Clone, Copy, PartialEq, Eq, Hash, Structural)]
pub enum ValueKind {
    Unassigned,
    Host,
    Player,
}

/// What a player is known as: an individual, or a member of a team.
#[derive(Debug, PartialEq, Eq)]
pub enum PlayerValue {
    Individual { name: String },
    Team {
        team_name: String,
        individual_name: String,
        team_id: Id,
        player_index_in_team: usize,
    },
}

impl PlayerValue {
    /// The name this player goes by individually.
    pub open spec fn spec_name(self) -> Seq<char> {
        match self {
            PlayerValue::Individual { name } => name@,
            PlayerValue::Team { individual_name, .. } => individual_name@,
        }
    }

    /// The name this player goes by individually.
    pub fn name(&self) -> (r: &str)
        ensures
            r@ == self.spec_name(),
    {
        match self {
            PlayerValue::Individual { name } => name.as_str(),
            PlayerValue::Team { individual_name, .. } => individual_name.as_str(),
        }
    }

    /// An equal copy.
    pub fn clone_value(&self) -> (r: PlayerValue)
        ensures
            r == *self,
    {
        match self {
            PlayerValue::Individual { name } => PlayerValue::Individual { name: name.clone() },
            PlayerValue::Team { team_name, individual_name, team_id, player_index_in_team } => {
                PlayerValue::Team {
                    team_name: team_name.clone(),
                    individual_name: individual_name.clone(),
                    team_id: *team_id,
                    player_index_in_team: *player_index_in_team,
                }
            },
        }
    }
}

/// The role of a watcher.
#[derive(Debug, PartialEq, Eq)]
pub enum Value {
    Unassigned,
    Host,
    Player(PlayerValue),
}

impl Value {
    /// The kind of this role.
    pub open spec fn spec_kind(self) -> ValueKind {
        match self {
            Value::Unassigned => ValueKind::Unassigned,
            Value::Host => ValueKind::Host,
            Value::Player(_) => ValueKind::Player,
        }
    }

    /// The kind of this role.
    pub fn kind(&self) -> (r: ValueKind)
        ensures
            r == self.spec_kind(),
    {
        match self {
            Value::Unassigned => ValueKind::Unassigned,
            Value::Host => ValueKind::Host,
            Value::Player(_) => ValueKind::Player,
        }
    }

    /// An equal copy.
    pub fn clone_value(&self) -> (r: Value)
        ensures
            r == *self,
    {
        match self {
            Value::Unassigned => Value::Unassigned,
            Value::Host => Value::Host,
            Value::Player(p) => Value::Player(p.clone_value()),
        }
    }
}

/// Errors the registry reports to a joining watcher.
#[derive(Debug, Clone, Copy, PartialEq, Eq, Structural)]
pub enum Error {
    /// The registry already holds the configured maximum.
    MaximumPlayers,
}

/// The watcher registry: a primary mapping from identifier to role, and one
/// identifier bucket per role kind.
#[derive(Debug)]
pub struct Watchers {
    mapping: IdMap<Value>,
    unassigned: IdSet,
    hosts: IdSet,
    players: IdSet,
}

impl Watchers {
    /// The primary mapping.
    pub closed spec fn value_map(self) -> Map<Id, Value> {
        self.mapping@
    }

    /// The identifiers of one kind-bucket, in insertion order.
    pub closed spec fn kind_bucket(self, kind: ValueKind) -> Seq<Id> {
        match kind {
            ValueKind::Unassigned => self.unassigned.item_seq(),
            ValueKind::Host => self.hosts.item_seq(),
            ValueKind::Player => self.players.item_seq(),
        }
    }

    /// How many identifiers the primary mapping binds.
    pub closed spec fn spec_len(self) -> nat {
        self.mapping.entry_seq().len()
    }

    /// All watcher identifiers in broadcast order: unassigned, then hosts,
    /// then players, each bucket in insertion order.
    pub open spec fn ordered_ids(self) -> Seq<Id> {
        self.kind_bucket(ValueKind::Unassigned) + self.kind_bucket(ValueKind::Host)
            + self.kind_bucket(ValueKind::Player)
    }

    /// The members of one kind-bucket.
    pub closed spec fn bucket_set(self, kind: ValueKind) -> Set<Id> {
        match kind {
            ValueKind::Unassigned => self.unassigned@,
            ValueKind::Host => self.hosts@,
            ValueKind::Player => self.players@,
        }
    }

    /// The buckets and the primary mapping agree: an identifier sits in the
    /// bucket of a kind exactly when the mapping binds it to a role of that
    /// kind.
    pub closed spec fn wf(self) -> bool {
        &&& self.mapping.wf()
        &&& self.unassigned.wf()
        &&& self.hosts.wf()
        &&& self.players.wf()
        &&& forall|id: Id, kind: ValueKind|
            #[trigger] self.bucket_set(kind).contains(id) <==> (self.value_map().contains_key(id)
                && self.value_map()[id].spec_kind() == kind)
    }

    /// Bucket members are pairwise distinct.
    pub proof fn lemma_bucket_distinct(self, kind: ValueKind)
        requires
            self.wf(),
        ensures
            forall|i: int, j: int|
                #![trigger self.kind_bucket(kind)[i], self.kind_bucket(kind)[j]]
                0 <= i < j < self.kind_bucket(kind).len() ==> self.kind_bucket(kind)[i]
                    != self.kind_bucket(kind)[j],
    {
        self.unassigned.lemma_items_distinct();
        self.hosts.lemma_items_distinct();
        self.players.lemma_items_distinct();
    }

    /// Every identifier in a kind-bucket is bound by the primary mapping to a
    /// role of that kind, and conversely.
    pub proof fn lemma_buckets_match_mapping(self, id: Id, kind: ValueKind)
        requires
            self.wf(),
        ensures
            self.kind_bucket(kind).contains(id) <==> (self.value_map().contains_key(id)
                && self.value_map()[id].spec_kind() == kind),
    {
        self.unassigned.lemma_view();
        self.hosts.lemma_view();
        self.players.lemma_view();
        assert(self.bucket_set(kind).contains(id) <==> (self.value_map().contains_key(id)
            && self.value_map()[id].spec_kind() == kind));
        match kind {
            ValueKind::Unassigned => {},
            ValueKind::Host => {},
            ValueKind::Player => {},
        }
    }

    /// A registry holding only the game's host.
    pub fn with_host_id(host_id: Id) -> (r: Watchers)
        ensures
            r.wf(),
            r.value_map() == Map::<Id, Value>::empty().insert(host_id, Value::Host),
            r.kind_bucket(ValueKind::Host) == seq![host_id],
            r.kind_bucket(ValueKind::Unassigned) == Seq::<Id>::empty(),
            r.kind_bucket(ValueKind::Player) == Seq::<Id>::empty(),
    {
        let mut mapping: IdMap<Value> = IdMap::new();
        mapping.insert(host_id, Value::Host);
        let mut hosts = IdSet::new();
        hosts.insert(host_id);
        let r = Watchers { mapping, unassigned: IdSet::new(), hosts, players: IdSet::new() };
        proof {
            assert(r.kind_bucket(ValueKind::Host) =~= seq![host_id]);
            assert forall|id: Id, kind: ValueKind| #[trigger]
                r.kind_bucket(kind).contains(id) <==> (r.value_map().contains_key(id)
                    && r.value_map()[id].spec_kind() == kind) by {
                r.hosts.lemma_view();
                r.unassigned.lemma_view();
                r.players.lemma_view();
            }
        }
        r
    }

    /// Whether this identifier is registered.
    pub fn has_watcher(&self, watcher_id: Id) -> (r: bool)
        ensures
            r == self.value_map().contains_key(watcher_id),
    {
        self.mapping.contains_key(watcher_id)
    }

    /// The role bound to this identifier, if any.
    pub fn get_watcher_value(&self, watcher_id: Id) -> (r: Option<Value>)
        requires
            self.wf(),
        ensures
            match r {
                Some(v) => self.value_map().contains_key(watcher_id) && v
                    == self.value_map()[watcher_id],
                None => !self.value_map().contains_key(watcher_id),
            },
    {
        match self.mapping.get(watcher_id) {
            Some(v) => Some(v.clone_value()),
            None => None,
        }
    }

    /// How many watchers of this kind are registered.
    pub fn specific_count(&self, filter: ValueKind) -> (r: usize)
        ensures
            r == self.kind_bucket(filter).len(),
    {
        match filter {
            ValueKind::Unassigned => self.unassigned.len(),
            ValueKind::Host => self.hosts.len(),
            ValueKind::Player => self.players.len(),
        }
    }

    /// Register a new watcher, refusing once the configured cap is reached.
    pub fn add_watcher(&mut self, watcher_id: Id, watcher_value: Value) -> (r: Result<(), Error>)
        requires
            old(self).wf(),
        ensures
            final(self).wf(),
            match r {
                Ok(()) => {
                    &&& old(self).spec_len() < MAX_PLAYERS
                    &&& final(self).value_map() == old(self).value_map().insert(
                        watcher_id,
                        watcher_value,
                    )
                },
                Err(Error::MaximumPlayers) => {
                    &&& old(self).spec_len() >= MAX_PLAYERS
                    &&& *final(self) == *old(self)
                },
            },
            (r is Ok && !old(self).value_map().contains_key(watcher_id)) ==> {
                &&& final(self).kind_bucket(watcher_value.spec_kind())
                    == old(self).kind_bucket(watcher_value.spec_kind()).push(watcher_id)
                &&& forall|k: ValueKind|
                    k != watcher_value.spec_kind() ==> final(self).kind_bucket(k)
                        == old(self).kind_bucket(k)
            },
    {
        if self.mapping.len() >= MAX_PLAYERS {
            return Err(Error::MaximumPlayers);
        }
        self.set_value(watcher_id, watcher_value);
        Ok(())
    }

    /// Rebind a registered watcher's role, rewiring its kind-bucket.
    ///
    /// An unregistered identifier is left unregistered.
    pub fn update_watcher_value(&mut self, watcher_id: Id, watcher_value: Value)
        requires
            old(self).wf(),
        ensures
            final(self).wf(),
            old(self).value_map().contains_key(watcher_id) ==> final(self).value_map()
                == old(self).value_map().insert(watcher_id, watcher_value),
            !old(self).value_map().contains_key(watcher_id) ==> *final(self) == *old(self),
    {
        if self.mapping.contains_key(watcher_id) {
            self.set_value(watcher_id, watcher_value);
        }
    }

    /// Bind a role, keeping buckets and mapping in step.
    fn set_value(&mut self, watcher_id: Id, watcher_value: Value)
        requires
            old(self).wf(),
        ensures
            final(self).wf(),
            final(self).value_map() == old(self).value_map().insert(watcher_id, watcher_value),
            !old(self).value_map().contains_key(watcher_id) ==> {
                &&& final(self).kind_bucket(watcher_value.spec_kind())
                    == old(self).kind_bucket(watcher_value.spec_kind()).push(watcher_id)
                &&& forall|k: ValueKind|
                    k != watcher_value.spec_kind() ==> final(self).kind_bucket(k)
                        == old(self).kind_bucket(k)
            },
    {
        proof {
            self.unassigned.lemma_view();
            self.hosts.lemma_view();
            self.players.lemma_view();
        }
        let kind = watcher_value.kind();
        // Drop the identifier from whichever bucket held it.
        match self.mapping.get(watcher_id) {
            Some(v) => {
                let old_kind = v.kind();
                match old_kind {
                    ValueKind::Unassigned => self.unassigned.remove(watcher_id),
                    ValueKind::Host => self.hosts.remove(watcher_id),
                    ValueKind::Player => self.players.remove(watcher_id),
                }
            },
            None => {},
        }
        match kind {
            ValueKind::Unassigned => self.unassigned.insert(watcher_id),
            ValueKind::Host => self.hosts.insert(watcher_id),
            ValueKind::Player => self.players.insert(watcher_id),
        }
        self.mapping.insert(watcher_id, watcher_value);
        proof {
            assert forall|id: Id, kind2: ValueKind| #[trigger]
                self.bucket_set(kind2).contains(id) <==> (self.value_map().contains_key(id)
                    && self.value_map()[id].spec_kind() == kind2) by {
                assert(old(self).bucket_set(kind2).contains(id) <==> (old(
                    self,
                ).value_map().contains_key(id) && old(self).value_map()[id].spec_kind() == kind2));
                match kind2 {
                    ValueKind::Unassigned => {},
                    ValueKind::Host => {},
                    ValueKind::Player => {},
                }
                if id != watcher_id {
                    assert(self.bucket_set(kind2).contains(id) == old(self).bucket_set(
                        kind2,
                    ).contains(id));
                }
            }
            if !old(self).value_map().contains_key(watcher_id) {
                old(self).unassigned.lemma_view();
                old(self).hosts.lemma_view();
                old(self).players.lemma_view();
                assert(!old(self).bucket_set(watcher_value.spec_kind()).contains(watcher_id));
            }
        }
    }

    /// All watcher identifiers, in broadcast order.
    pub fn ordered_ids_vec(&self) -> (r: Vec<Id>)
        ensures
            r@ == self.ordered_ids(),
    {
        let mut r: Vec<Id> = Vec::new();
        let mut i: usize = 0;
        while i < self.unassigned.len()
            invariant
                0 <= i <= self.unassigned.item_seq().len(),
                r@ == self.unassigned.item_seq().take(i as int),
            decreases self.unassigned.item_seq().len() - i,
        {
            r.push(self.unassigned.item_at(i));
            i += 1;
        }
        let mut i: usize = 0;
        while i < self.hosts.len()
            invariant
                0 <= i <= self.hosts.item_seq().len(),
                r@ == self.unassigned.item_seq() + self.hosts.item_seq().take(i as int),
            decreases self.hosts.item_seq().len() - i,
        {
            r.push(self.hosts.item_at(i));
            proof {
                assert(r@ =~= self.unassigned.item_seq() + self.hosts.item_seq().take(
                    i as int + 1,
                ));
            }
            i += 1;
        }
        let mut i: usize = 0;
        while i < self.players.len()
            invariant
                0 <= i <= self.players.item_seq().len(),
                r@ == self.unassigned.item_seq() + self.hosts.item_seq()
                    + self.players.item_seq().take(i as int),
            decreases self.players.item_seq().len() - i,
        {
            r.push(self.players.item_at(i));
            proof {
                assert(r@ =~= self.unassigned.item_seq() + self.hosts.item_seq()
                    + self.players.item_seq().take(i as int + 1));
            }
            i += 1;
        }
        proof {
            assert(r@ =~= self.ordered_ids());
        }
        r
    }

    /// The identifiers of one kind, in bucket order.
    pub fn specific_ids_vec(&self, filter: ValueKind) -> (r: Vec<Id>)
        ensures
            r@ == self.kind_bucket(filter),
    {
        let bucket = match filter {
            ValueKind::Unassigned => &self.unassigned,
            ValueKind::Host => &self.hosts,
            ValueKind::Player => &self.players,
        };
        let mut r: Vec<Id> = Vec::new();
        let mut i: usize = 0;
        while i < bucket.len()
            invariant
                0 <= i <= bucket.item_seq().len(),
                r@ == bucket.item_seq().take(i as int),
            decreases bucket.item_seq().len() - i,
        {
            r.push(bucket.item_at(i));
            i += 1;
        }
        proof {
            assert(r@ =~= bucket.item_seq());
        }
        r
    }

    /// The registered players that have a live tunnel, in bucket order.
    pub open spec fn spec_alive_players(self, connected: Set<Id>) -> Seq<Id> {
        self.kind_bucket(ValueKind::Player).filter(|id: Id| connected.contains(id))
    }

    /// All watchers with a live tunnel, in broadcast order.
    #[verifier::loop_isolation(false)]
    pub fn live_ids_vec(&self, connected: &IdSet) -> (r: Vec<Id>)
        ensures
            r@ == self.ordered_ids().filter(|id: Id| connected@.contains(id)),
    {
        broadcast use Seq::lemma_filter_push;

        let ordered = self.ordered_ids_vec();
        let mut r: Vec<Id> = Vec::new();
        let mut i: usize = 0;
        while i < ordered.len()
            invariant
                0 <= i <= ordered@.len(),
                ordered@ == self.ordered_ids(),
                r@ == self.ordered_ids().take(i as int).filter(
                    |id: Id| connected@.contains(id),
                ),
            decreases ordered@.len() - i,
        {
            let id = ordered[i];
            proof {
                assert(self.ordered_ids().take(i + 1).drop_last() =~= self.ordered_ids().take(
                    i as int,
                ));
                assert(self.ordered_ids().take(i as int).push(id) =~= self.ordered_ids().take(
                    i + 1,
                ));
            }
            if connected.contains(id) {
                r.push(id);
            }
            i += 1;
        }
        proof {
            assert(self.ordered_ids().take(self.ordered_ids().len() as int) =~= self.ordered_ids());
        }
        r
    }

    /// The registered players that have a live tunnel, in bucket order.
    #[verifier::loop_isolation(false)]
    pub fn alive_players_vec(&self, connected: &IdSet) -> (r: Vec<Id>)
        ensures
            r@ == self.spec_alive_players(connected@),
    {
        broadcast use Seq::lemma_filter_push;

        let bucket = self.specific_ids_vec(ValueKind::Player);
        let mut r: Vec<Id> = Vec::new();
        let mut i: usize = 0;
        while i < bucket.len()
            invariant
                0 <= i <= bucket@.len(),
                bucket@ == self.kind_bucket(ValueKind::Player),
                r@ == self.kind_bucket(ValueKind::Player).take(i as int).filter(
                    |id: Id| connected@.contains(id),
                ),
            decreases bucket@.len() - i,
        {
            let id = bucket[i];
            proof {
                let b = self.kind_bucket(ValueKind::Player);
                assert(b.take(i + 1).drop_last() =~= b.take(i as int));
                assert(b.take(i as int).push(id) =~= b.take(i + 1));
            }
            if connected.contains(id) {
                r.push(id);
            }
            i += 1;
        }
        proof {
            let b = self.kind_bucket(ValueKind::Player);
            assert(b.take(b.len() as int) =~= b);
        }
        r
    }

    /// Whether a watcher currently has a live tunnel.
    pub fn is_alive(&self, watcher_id: Id, connected: &IdSet) -> (r: bool)
        ensures
            r == connected@.contains(watcher_id),
    {
        connected.contains(watcher_id)
    }

    /// The player name a watcher goes by, if it is a player.
    pub fn get_name(&self, watcher_id: Id) -> (r: Option<String>)
        requires
            self.wf(),
        ensures
            match r {
                Some(name) => self.value_map().contains_key(watcher_id)
                    && (self.value_map()[watcher_id] matches Value::Player(p)
                        && name@ == p.spec_name()),
                None => !(self.value_map().contains_key(watcher_id)
                    && self.value_map()[watcher_id] is Player),
            },
    {
        match self.mapping.get(watcher_id) {
            Some(Value::Player(p)) => Some(p.name().to_string()),
            _ => None,
        }
    }
}

} // verus!
