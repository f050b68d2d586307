//! Directory of the consortium's operator nodes: which network each node
//! serves, where it listens, and which nodes validate. Peer identities and
//! listening addresses are kept in their text forms.
use vstd::prelude::*;
use crate::clock::now_seconds;
use crate::collections::VecMap;
use crate::encoding::{decimal_text, push_decimal_text};
use crate::entropy::random_u64;
use crate::primitives::error::{BlockchainError, Result};
use crate::primitives::primitives::{NetworkId, NetworkIdView};

verus! {

/// An operator node of the consortium.
pub struct SPOperatorInfo {
    pub peer_id: String,
    pub network_id: NetworkId,
    pub operator_name: String,
    pub country_code: String,
    pub endpoints: Vec<String>,
    pub validator_stake: u64,
    pub supported_currencies: Vec<String>,
    pub is_validator: bool,
    pub last_seen: u64,
}

/// Plain model of an operator node.
pub struct OperatorView {
    pub peer_id: Seq<char>,
    pub network_id: NetworkIdView,
    pub operator_name: Seq<char>,
    pub country_code: Seq<char>,
    pub endpoints: Seq<String>,
    pub validator_stake: u64,
    pub supported_currencies: Seq<String>,
    pub is_validator: bool,
    pub last_seen: u64,
}

impl View for SPOperatorInfo {
    type V = OperatorView;

    open spec fn view(&self) -> OperatorView {
        OperatorView {
            peer_id: self.peer_id@,
            network_id: self.network_id@,
            operator_name: self.operator_name@,
            country_code: self.country_code@,
            endpoints: self.endpoints@,
            validator_stake: self.validator_stake,
            supported_currencies: self.supported_currencies@,
            is_validator: self.is_validator,
            last_seen: self.last_seen,
        }
    }
}

fn copy_texts(v: &Vec<String>) -> (c: Vec<String>)
    ensures
        c@ == v@,
{
    let mut c: Vec<String> = Vec::new();
    let mut i: usize = 0;
    while i < v.len()
        invariant
            0 <= i <= v@.len(),
            c@ == v@.take(i as int),
        decreases v@.len() - i,
    {
        c.push(v[i].clone());
        i = i + 1;
        assert(c@ =~= v@.take(i as int));
    }
    assert(v@.take(v@.len() as int) =~= v@);
    c
}

impl SPOperatorInfo {
    /// A copy with the same model.
    pub fn copy_info(&self) -> (c: Self)
        ensures
            c@ == self@,
    {
        SPOperatorInfo {
            peer_id: self.peer_id.clone(),
            network_id: self.network_id.copy_id(),
            operator_name: self.operator_name.clone(),
            country_code: self.country_code.clone(),
            endpoints: copy_texts(&self.endpoints),
            validator_stake: self.validator_stake,
            supported_currencies: copy_texts(&self.supported_currencies),
            is_validator: self.is_validator,
            last_seen: self.last_seen,
        }
    }
}

/// Models of a sequence of operator nodes.
pub open spec fn views(s: Seq<SPOperatorInfo>) -> Seq<OperatorView> {
    s.map_values(|o: SPOperatorInfo| o@)
}

/// Whether a node was seen within the hour before `now`; a node seen after
/// `now` does not count.
pub open spec fn recently_active(o: OperatorView, now: u64) -> bool {
    o.last_seen <= now && now - o.last_seen < 3600
}

/// Whether a node can settle with `network`: it serves another network and
/// was seen recently. (Every pair of networks is taken to share a currency.)
pub open spec fn settlement_partner(o: OperatorView, network: NetworkIdView, now: u64) -> bool {
    o.network_id != network && recently_active(o, now)
}

/// The nodes among `s` that can settle with `network` at `now`.
pub open spec fn partners_at(s: Seq<OperatorView>, network: NetworkIdView, now: u64) -> Seq<OperatorView> {
    s.filter(|o: OperatorView| settlement_partner(o, network, now))
}

/// Total stake of the validators among `s`.
pub open spec fn validator_stake_total(s: Seq<OperatorView>) -> nat
    decreases s.len(),
{
    if s.len() == 0 {
        0
    } else {
        validator_stake_total(s.drop_last()) + if s.last().is_validator {
            s.last().validator_stake as nat
        } else {
            0nat
        }
    }
}

/// The nodes of the consortium known to this node, and the addresses to
/// start from.
pub struct PeerDiscovery {
    operators: VecMap<String, SPOperatorInfo>,
    network_to_peer: VecMap<NetworkId, String>,
    bootstrap_nodes: Vec<String>,
}

impl PeerDiscovery {
    /// Known nodes by peer identity.
    pub closed spec fn operators(&self) -> Map<Seq<char>, SPOperatorInfo> {
        self.operators@
    }

    /// Models of the known nodes, in the order they were first registered.
    pub closed spec fn listed(&self) -> Seq<OperatorView> {
        self.operators.entry_seq().map_values(|e: (String, SPOperatorInfo)| e.1@)
    }

    /// Peer identity of the node serving each network.
    pub closed spec fn network_peers(&self) -> Map<NetworkIdView, String> {
        self.network_to_peer@
    }

    /// Addresses to start from.
    pub closed spec fn bootstrap(&self) -> Seq<String> {
        self.bootstrap_nodes@
    }

    /// A directory that knows no node yet.
    pub fn new(bootstrap_nodes: Vec<String>) -> (d: Self)
        ensures
            d.operators() == Map::<Seq<char>, SPOperatorInfo>::empty(),
            d.listed().len() == 0,
            d.network_peers() == Map::<NetworkIdView, String>::empty(),
            d.bootstrap() == bootstrap_nodes@,
    {
        let d = PeerDiscovery { operators: VecMap::new(), network_to_peer: VecMap::new(), bootstrap_nodes };
        assert(d.listed() =~= Seq::<OperatorView>::empty());
        d
    }
}

proof fn lemma_filter_keeps_all(s: Seq<OperatorView>, pred: spec_fn(OperatorView) -> bool)
    requires
        forall|o: OperatorView| #[trigger] pred(o),
    ensures
        s.filter(pred) == s,
    decreases s.len(),
{
    reveal(Seq::filter);
    if s.len() > 0 {
        lemma_filter_keeps_all(s.drop_last(), pred);
        assert(s.drop_last().push(s.last()) =~= s);
    }
}

/// The node a directory gives for a network: the one registered under the
/// peer identity the network is indexed to, if both are known.
pub open spec fn found_by_network(
    operators: Map<Seq<char>, SPOperatorInfo>,
    peers: Map<NetworkIdView, String>,
    network: NetworkIdView,
) -> Option<OperatorView> {
    if peers.contains_key(network) && operators.contains_key(peers[network]@) {
        Some(operators[peers[network]@]@)
    } else {
        None
    }
}

/// A node just registered is what a lookup of its network gives.
pub proof fn law_registered_operator_is_found(
    operators: Map<Seq<char>, SPOperatorInfo>,
    peers: Map<NetworkIdView, String>,
    o: SPOperatorInfo,
)
    ensures
        found_by_network(operators.insert(o.peer_id@, o), peers.insert(o.network_id@, o.peer_id), o.network_id@)
            == Some(o@),
{
}

/// A lookup of the network of a node just removed gives nothing.
pub proof fn law_removed_operator_is_not_found(
    operators: Map<Seq<char>, SPOperatorInfo>,
    peers: Map<NetworkIdView, String>,
    peer: Seq<char>,
)
    requires
        operators.contains_key(peer),
    ensures
        found_by_network(operators.remove(peer), peers.remove(operators[peer].network_id@), operators[peer].network_id@)
            is None,
{
}

/// Which of the known nodes a listing keeps.
pub enum Selection<'a> {
    All,
    Validators,
    Country(&'a str),
    Partners(&'a NetworkId, u64),
}

/// Whether a listing keeps a node.
pub open spec fn selected(s: Selection, o: OperatorView) -> bool {
    match s {
        Selection::All => true,
        Selection::Validators => o.is_validator,
        Selection::Country(c) => o.country_code == c@,
        Selection::Partners(n, now) => settlement_partner(o, n@, now),
    }
}

impl PeerDiscovery {
    /// Registers a node under its peer identity, as the node serving its
    /// network; a node registered again replaces the earlier entry in its
    /// place.
    pub fn register_operator(&mut self, operator: SPOperatorInfo) -> (r: Result<()>)
        ensures
            r is Ok,
            final(self).operators() == old(self).operators().insert(operator.peer_id@, operator),
            final(self).network_peers() == old(self).network_peers().insert(operator.network_id@, operator.peer_id),
            final(self).bootstrap() == old(self).bootstrap(),
            !old(self).operators().contains_key(operator.peer_id@) ==> final(self).listed() == old(self).listed().push(
                operator@,
            ),
            old(self).operators().contains_key(operator.peer_id@) ==> exists|i: int|
                0 <= i < old(self).listed().len() && final(self).listed() == old(self).listed().update(i, operator@),
    {
        let peer_id = operator.peer_id.clone();
        let network_id = operator.network_id.copy_id();
        let ghost old_entries = self.operators.entry_seq();
        self.operators.insert(operator.peer_id.clone(), operator);
        self.network_to_peer.insert(network_id, peer_id);
        proof {
            let new_entries = self.operators.entry_seq();
            if old(self).operators().contains_key(operator.peer_id@) {
                let i = choose|i: int|
                    0 <= i < old_entries.len() && old_entries[i].0@ == operator.peer_id@ && new_entries
                        == old_entries.update(i, (operator.peer_id, operator));
                assert(self.listed() =~= old(self).listed().update(i, operator@));
            } else {
                assert(self.listed() =~= old(self).listed().push(operator@));
            }
        }
        Ok(())
    }

    /// The node serving a network, if it is known.
    pub fn find_by_network(&self, network_id: &NetworkId) -> (r: Option<SPOperatorInfo>)
        ensures
            match r {
                Some(o) => found_by_network(self.operators(), self.network_peers(), network_id@) == Some(o@),
                None => found_by_network(self.operators(), self.network_peers(), network_id@) is None,
            },
    {
        match self.network_to_peer.get(network_id) {
            Some(peer_id) => self.find_by_peer(peer_id),
            None => None,
        }
    }

    /// The node with a peer identity, if it is known.
    pub fn find_by_peer(&self, peer_id: &String) -> (r: Option<SPOperatorInfo>)
        ensures
            match r {
                Some(o) => self.operators().contains_key(peer_id@) && o@ == self.operators()[peer_id@]@,
                None => !self.operators().contains_key(peer_id@),
            },
    {
        match self.operators.get(peer_id) {
            Some(o) => Some(o.copy_info()),
            None => None,
        }
    }

    /// Copies of the known nodes that a selection keeps, in registration
    /// order.
    fn select(&self, selection: Selection) -> (r: Vec<SPOperatorInfo>)
        ensures
            views(r@) == self.listed().filter(|o: OperatorView| selected(selection, o)),
    {
        let entries = self.operators.entries();
        let ghost listed = self.listed();
        let ghost pred = |o: OperatorView| selected(selection, o);
        let mut out: Vec<SPOperatorInfo> = Vec::new();
        let mut i: usize = 0;
        assert(listed.take(0) =~= Seq::<OperatorView>::empty());
        proof {
            reveal(Seq::filter);
        }
        assert(views(out@) =~= listed.take(0).filter(pred));
        while i < entries.len()
            invariant
                0 <= i <= entries@.len(),
                entries@ == self.operators.entry_seq(),
                listed == self.listed(),
                listed.len() == entries@.len(),
                pred == (|o: OperatorView| selected(selection, o)),
                views(out@) == listed.take(i as int).filter(pred),
            decreases entries@.len() - i,
        {
            let o = &entries[i].1;
            let keep = match selection {
                Selection::All => true,
                Selection::Validators => o.is_validator,
                Selection::Country(c) => crate::encoding::str_eq(o.country_code.as_str(), c),
                Selection::Partners(n, now) => !crate::primitives::primitives::network_id_eq(&o.network_id, n)
                    && o.last_seen <= now && now - o.last_seen < 3600,
            };
            assert(listed[i as int] == o@);
            assert(keep == pred(o@));
            proof {
                reveal(Seq::filter);
                assert(listed.take(i + 1).drop_last() =~= listed.take(i as int));
                assert(listed.take(i + 1).last() == o@);
            }
            if keep {
                out.push(o.copy_info());
                assert(views(out@) =~= listed.take(i + 1).filter(pred));
            } else {
                assert(views(out@) =~= listed.take(i + 1).filter(pred));
            }
            i = i + 1;
        }
        assert(listed.take(entries@.len() as int) =~= listed);
        out
    }

    /// The known validators.
    pub fn get_validators(&self) -> (r: Vec<SPOperatorInfo>)
        ensures
            views(r@) == self.listed().filter(|o: OperatorView| o.is_validator),
    {
        let r = self.select(Selection::Validators);
        assert((|o: OperatorView| selected(Selection::Validators, o)) =~= (|o: OperatorView| o.is_validator));
        r
    }

    /// The known nodes in a country.
    pub fn get_operators_by_country(&self, country_code: &str) -> (r: Vec<SPOperatorInfo>)
        ensures
            views(r@) == self.listed().filter(|o: OperatorView| o.country_code == country_code@),
    {
        let r = self.select(Selection::Country(country_code));
        assert((|o: OperatorView| selected(Selection::Country(country_code), o)) =~= (|o: OperatorView|
            o.country_code == country_code@));
        r
    }

    /// The nodes a network can settle with at `now`: those serving another
    /// network and seen within the hour.
    pub fn get_settlement_partners_at(&self, network_id: &NetworkId, now: u64) -> (r: Vec<SPOperatorInfo>)
        ensures
            views(r@) == partners_at(self.listed(), network_id@, now),
    {
        let r = self.select(Selection::Partners(network_id, now));
        assert((|o: OperatorView| selected(Selection::Partners(network_id, now), o)) =~= (|o: OperatorView|
            settlement_partner(o, network_id@, now)));
        r
    }

    /// `get_settlement_partners_at` at the present time of the system clock.
    pub fn get_settlement_partners(&self, network_id: &NetworkId) -> (r: Vec<SPOperatorInfo>)
        ensures
            exists|now: u64| views(r@) == #[trigger] partners_at(self.listed(), network_id@, now),
    {
        let now = now_seconds();
        self.get_settlement_partners_at(network_id, now)
    }

    /// All known nodes.
    pub fn all_operators(&self) -> (r: Vec<SPOperatorInfo>)
        ensures
            views(r@) == self.listed(),
    {
        let r = self.select(Selection::All);
        proof {
            lemma_filter_keeps_all(self.listed(), |o: OperatorView| selected(Selection::All, o));
        }
        r
    }

    /// Addresses to start from.
    pub fn bootstrap_nodes(&self) -> (r: &[String])
        ensures
            r@ == self.bootstrap(),
    {
        self.bootstrap_nodes.as_slice()
    }
}

impl PeerDiscovery {
    /// Forgets a node: its entry goes, and so does the entry of the network
    /// it serves. Unknown peers change nothing.
    pub fn remove_operator(&mut self, peer_id: &String) -> (r: Result<()>)
        ensures
            r is Ok,
            final(self).operators() == old(self).operators().remove(peer_id@),
            final(self).bootstrap() == old(self).bootstrap(),
            old(self).operators().contains_key(peer_id@) ==> final(self).network_peers() == old(
                self,
            ).network_peers().remove(old(self).operators()[peer_id@].network_id@),
            old(self).operators().contains_key(peer_id@) ==> exists|i: int|
                0 <= i < old(self).listed().len() && old(self).listed()[i] == old(self).operators()[peer_id@]@
                    && final(self).listed() == old(self).listed().remove(i),
            !old(self).operators().contains_key(peer_id@) ==> final(self).network_peers() == old(self).network_peers()
                && final(self).listed() == old(self).listed(),
    {
        let ghost old_entries = self.operators.entry_seq();
        match self.operators.remove(peer_id) {
            Some(operator) => {
                self.network_to_peer.remove(&operator.network_id);
                proof {
                    let i = choose|i: int|
                        0 <= i < old_entries.len() && old_entries[i].0@ == peer_id@ && old_entries[i].1 == old(
                            self,
                        ).operators()[peer_id@] && self.operators.entry_seq() == old_entries.remove(i);
                    assert(self.listed() =~= old(self).listed().remove(i));
                }
            },
            None => {
                assert(self.listed() =~= old(self).listed());
            },
        }
        Ok(())
    }
}

/// An entry as updated, last seen at `now`.
pub open spec fn seen_at(o: SPOperatorInfo, now: u64) -> SPOperatorInfo {
    SPOperatorInfo { last_seen: now, ..o }
}

impl PeerDiscovery {
    /// Applies `update_fn` to a copy of a known node's entry and keeps the
    /// result, seen at `now`, in its place. The network index is left as it
    /// was. Unknown peers change nothing.
    pub fn update_operator_at<F: FnOnce(SPOperatorInfo) -> SPOperatorInfo>(
        &mut self,
        peer_id: &String,
        update_fn: F,
        now: u64,
    ) -> (r: Result<()>)
        requires
            forall|o: SPOperatorInfo| #[trigger] call_requires(update_fn, (o,)),
        ensures
            r is Ok,
            final(self).network_peers() == old(self).network_peers(),
            final(self).bootstrap() == old(self).bootstrap(),
            old(self).operators().contains_key(peer_id@) ==> exists|c: SPOperatorInfo, u: SPOperatorInfo|
                #[trigger] call_ensures(update_fn, (c,), u) && c@ == old(self).operators()[peer_id@]@
                    && final(self).operators() == old(self).operators().insert(peer_id@, seen_at(u, now)),
            !old(self).operators().contains_key(peer_id@) ==> final(self).operators() == old(self).operators()
                && final(self).listed() == old(self).listed(),
    {
        let current = match self.operators.get(peer_id) {
            Some(o) => o.copy_info(),
            None => {
                return Ok(());
            },
        };
        let ghost c = current;
        let mut updated = update_fn(current);
        let ghost u = updated;
        updated.last_seen = now;
        self.operators.insert(peer_id.clone(), updated);
        assert(call_ensures(update_fn, (c,), u));
        assert(updated == seen_at(u, now));
        Ok(())
    }

    /// `update_operator_at` at the present time of the system clock.
    pub fn update_operator<F: FnOnce(SPOperatorInfo) -> SPOperatorInfo>(&mut self, peer_id: &String, update_fn: F) -> (r:
        Result<()>)
        requires
            forall|o: SPOperatorInfo| #[trigger] call_requires(update_fn, (o,)),
        ensures
            r is Ok,
            final(self).network_peers() == old(self).network_peers(),
            final(self).bootstrap() == old(self).bootstrap(),
            old(self).operators().contains_key(peer_id@) ==> exists|c: SPOperatorInfo, u: SPOperatorInfo, now: u64|
                #![trigger call_ensures(update_fn, (c,), u), seen_at(u, now)]
                call_ensures(update_fn, (c,), u) && c@ == old(self).operators()[peer_id@]@
                    && final(self).operators() == old(self).operators().insert(peer_id@, seen_at(u, now)),
            !old(self).operators().contains_key(peer_id@) ==> final(self).operators() == old(self).operators()
                && final(self).listed() == old(self).listed(),
    {
        let now = now_seconds();
        self.update_operator_at(peer_id, update_fn, now)
    }
}

/// Whether `o` is the entry of a known consortium member: serving the
/// network of `name` in `country`, listening on one local port, validating
/// with `stake`, settling in `currencies`, seen at `now`.
pub open spec fn known_member(
    o: OperatorView,
    peer: Seq<char>,
    name: Seq<char>,
    full_name: Seq<char>,
    country: Seq<char>,
    port: Seq<char>,
    stake: u64,
    currencies: Seq<Seq<char>>,
    now: u64,
) -> bool {
    &&& o.peer_id == peer
    &&& o.network_id == (NetworkIdView::Operator { name, country })
    &&& o.operator_name == full_name
    &&& o.country_code == country
    &&& o.endpoints.len() == 1
    &&& o.endpoints[0]@ == "/ip4/127.0.0.1/tcp/"@ + port
    &&& o.validator_stake == stake
    &&& o.supported_currencies.map_values(|c: String| c@) == currencies
    &&& o.is_validator
    &&& o.last_seen == now
}

/// Whether `s` lists the three known consortium members with the given
/// peer identities, seen at `now`: T-Mobile Germany, Vodafone UK and Orange
/// France.
pub open spec fn known_members(s: Seq<OperatorView>, t: Seq<char>, v: Seq<char>, o: Seq<char>, now: u64) -> bool {
    &&& s.len() == 3
    &&& known_member(s[0], t, "T-Mobile"@, "T-Mobile Deutschland"@, "DE"@, "8000"@, 1_000_000, seq!["EUR"@], now)
    &&& known_member(s[1], v, "Vodafone"@, "Vodafone UK"@, "UK"@, "8001"@, 800_000, seq!["GBP"@, "EUR"@], now)
    &&& known_member(s[2], o, "Orange"@, "Orange France"@, "FR"@, "8002"@, 900_000, seq!["EUR"@], now)
}

fn member(
    peer_id: String,
    name: &str,
    full_name: &str,
    country: &str,
    endpoint: &str,
    stake: u64,
    currencies: Vec<String>,
    now: u64,
) -> (m: SPOperatorInfo)
    ensures
        m.peer_id == peer_id,
        m.network_id@ == (NetworkIdView::Operator { name: name@, country: country@ }),
        m.operator_name@ == full_name@,
        m.country_code@ == country@,
        m.endpoints@.len() == 1,
        m.endpoints@[0]@ == endpoint@,
        m.validator_stake == stake,
        m.supported_currencies == currencies,
        m.is_validator,
        m.last_seen == now,
{
    let mut endpoints: Vec<String> = Vec::new();
    endpoints.push(endpoint.to_string());
    SPOperatorInfo {
        peer_id,
        network_id: NetworkId::new(name, country),
        operator_name: full_name.to_string(),
        country_code: country.to_string(),
        endpoints,
        validator_stake: stake,
        supported_currencies: currencies,
        is_validator: true,
        last_seen: now,
    }
}

/// Whether `d` is the consortium's directory: three local bootstrap
/// addresses, and T-Mobile Germany, Vodafone UK and Orange France under the
/// given peer identities, known as members seen at `now` when the identities
/// differ.
pub open spec fn consortium_directory(d: PeerDiscovery, tmobile_peer: String, vodafone_peer: String, orange_peer: String, now: u64) -> bool {
    &&& d.bootstrap().len() == 3
    &&& d.bootstrap()[0]@ == "/ip4/127.0.0.1/tcp/8000"@
    &&& d.bootstrap()[1]@ == "/ip4/127.0.0.1/tcp/8001"@
    &&& d.bootstrap()[2]@ == "/ip4/127.0.0.1/tcp/8002"@
    &&& d.network_peers() == Map::<NetworkIdView, String>::empty().insert(
        NetworkIdView::Operator { name: "T-Mobile"@, country: "DE"@ },
        tmobile_peer,
    ).insert(NetworkIdView::Operator { name: "Vodafone"@, country: "UK"@ }, vodafone_peer).insert(
        NetworkIdView::Operator { name: "Orange"@, country: "FR"@ },
        orange_peer,
    )
    &&& (tmobile_peer@ != vodafone_peer@ && vodafone_peer@ != orange_peer@ && tmobile_peer@ != orange_peer@)
        ==> known_members(d.listed(), tmobile_peer@, vodafone_peer@, orange_peer@, now)
}

impl PeerDiscovery {
    /// A directory of the consortium: three local bootstrap addresses, and
    /// the three major operators (T-Mobile Germany, Vodafone UK, Orange
    /// France) under the given peer identities, seen at `now`.
    pub fn with_sp_consortium_at(tmobile_peer: String, vodafone_peer: String, orange_peer: String, now: u64) -> (r:
        Result<Self>)
        ensures
            r matches Ok(d) && consortium_directory(d, tmobile_peer, vodafone_peer, orange_peer, now),
    {
        let mut bootstrap_nodes: Vec<String> = Vec::new();
        bootstrap_nodes.push("/ip4/127.0.0.1/tcp/8000".to_string());
        bootstrap_nodes.push("/ip4/127.0.0.1/tcp/8001".to_string());
        bootstrap_nodes.push("/ip4/127.0.0.1/tcp/8002".to_string());
        let mut d = Self::new(bootstrap_nodes);
        d.add_known_operators(tmobile_peer, vodafone_peer, orange_peer, now);
        Ok(d)
    }

    /// Registers the three major operators under the given peer identities.
    fn add_known_operators(&mut self, tmobile_peer: String, vodafone_peer: String, orange_peer: String, now: u64)
        requires
            old(self).operators() == Map::<Seq<char>, SPOperatorInfo>::empty(),
            old(self).listed().len() == 0,
            old(self).network_peers() == Map::<NetworkIdView, String>::empty(),
        ensures
            final(self).bootstrap() == old(self).bootstrap(),
            final(self).network_peers() == Map::<NetworkIdView, String>::empty().insert(
                NetworkIdView::Operator { name: "T-Mobile"@, country: "DE"@ },
                tmobile_peer,
            ).insert(NetworkIdView::Operator { name: "Vodafone"@, country: "UK"@ }, vodafone_peer).insert(
                NetworkIdView::Operator { name: "Orange"@, country: "FR"@ },
                orange_peer,
            ),
            (tmobile_peer@ != vodafone_peer@ && vodafone_peer@ != orange_peer@ && tmobile_peer@ != orange_peer@)
                ==> known_members(final(self).listed(), tmobile_peer@, vodafone_peer@, orange_peer@, now),
    {
        let mut eur: Vec<String> = Vec::new();
        eur.push("EUR".to_string());
        let mut gbp_eur: Vec<String> = Vec::new();
        gbp_eur.push("GBP".to_string());
        gbp_eur.push("EUR".to_string());
        let mut eur2: Vec<String> = Vec::new();
        eur2.push("EUR".to_string());
        proof {
            reveal_strlit("/ip4/127.0.0.1/tcp/");
            reveal_strlit("/ip4/127.0.0.1/tcp/8000");
            reveal_strlit("/ip4/127.0.0.1/tcp/8001");
            reveal_strlit("/ip4/127.0.0.1/tcp/8002");
            reveal_strlit("8000");
            reveal_strlit("8001");
            reveal_strlit("8002");
        }
        assert(eur@.map_values(|c: String| c@) =~= seq!["EUR"@]);
        assert(eur2@.map_values(|c: String| c@) =~= seq!["EUR"@]);
        assert(gbp_eur@.map_values(|c: String| c@) =~= seq!["GBP"@, "EUR"@]);
        let t = member(tmobile_peer, "T-Mobile", "T-Mobile Deutschland", "DE", "/ip4/127.0.0.1/tcp/8000", 1_000_000, eur, now);
        let v = member(vodafone_peer, "Vodafone", "Vodafone UK", "UK", "/ip4/127.0.0.1/tcp/8001", 800_000, gbp_eur, now);
        let o = member(orange_peer, "Orange", "Orange France", "FR", "/ip4/127.0.0.1/tcp/8002", 900_000, eur2, now);
        assert("/ip4/127.0.0.1/tcp/8000"@ =~= "/ip4/127.0.0.1/tcp/"@ + "8000"@);
        assert("/ip4/127.0.0.1/tcp/8001"@ =~= "/ip4/127.0.0.1/tcp/"@ + "8001"@);
        assert("/ip4/127.0.0.1/tcp/8002"@ =~= "/ip4/127.0.0.1/tcp/"@ + "8002"@);
        let ghost (tv, vv, ov) = (t@, v@, o@);
        let _ = self.register_operator(t);
        let _ = self.register_operator(v);
        let _ = self.register_operator(o);
        assert(self.network_peers() =~= Map::<NetworkIdView, String>::empty().insert(
            NetworkIdView::Operator { name: "T-Mobile"@, country: "DE"@ },
            tmobile_peer,
        ).insert(NetworkIdView::Operator { name: "Vodafone"@, country: "UK"@ }, vodafone_peer).insert(
            NetworkIdView::Operator { name: "Orange"@, country: "FR"@ },
            orange_peer,
        ));
        proof {
            if tmobile_peer@ != vodafone_peer@ && vodafone_peer@ != orange_peer@ && tmobile_peer@ != orange_peer@ {
                assert(self.listed() =~= seq![tv, vv, ov]);
            }
        }
    }

    /// A directory of the consortium (see `with_sp_consortium_at`) whose
    /// members have freshly drawn peer identities, seen now; refused when the
    /// random source fails.
    pub fn with_sp_consortium() -> (r: Result<Self>)
        ensures
            r matches Ok(d) ==> d.bootstrap().len() == 3 && d.network_peers().dom().len() == 3,
            r matches Ok(d) ==> exists|t: String, v: String, o: String, now: u64|
                #[trigger] consortium_directory(d, t, v, o, now),
            r is Err ==> (r matches Err(BlockchainError::Crypto(m)) && m@ == "Random source failed"@),
    {
        let now = now_seconds();
        let (t, v, o) = match (random_peer_id(), random_peer_id(), random_peer_id()) {
            (Some(t), Some(v), Some(o)) => (t, v, o),
            _ => {
                return Err(BlockchainError::Crypto("Random source failed".to_string()));
            },
        };
        let r = Self::with_sp_consortium_at(t, v, o, now);
        proof {
            reveal_strlit("T-Mobile");
            reveal_strlit("Vodafone");
            reveal_strlit("Orange");
            let a = NetworkIdView::Operator { name: "T-Mobile"@, country: "DE"@ };
            let b = NetworkIdView::Operator { name: "Vodafone"@, country: "UK"@ };
            let c = NetworkIdView::Operator { name: "Orange"@, country: "FR"@ };
            assert("T-Mobile"@[0] != "Vodafone"@[0] && "T-Mobile"@[0] != "Orange"@[0] && "Vodafone"@[0] != "Orange"@[0]);
            assert(a != b && a != c && b != c);
            assert(set![a, b, c].len() == 3);
            if r is Ok {
                let d = r->Ok_0;
                assert(consortium_directory(d, t, v, o, now));
                assert(d.network_peers().dom() =~= set![
                    NetworkIdView::Operator { name: "T-Mobile"@, country: "DE"@ },
                    NetworkIdView::Operator { name: "Vodafone"@, country: "UK"@ },
                    NetworkIdView::Operator { name: "Orange"@, country: "FR"@ },
                ]);
            }
        }
        r
    }
}

/// A freshly drawn peer identity: the decimal text of a random word; `None`
/// when the random source fails.
fn random_peer_id() -> (r: Option<String>)
    ensures
        r matches Some(s) ==> exists|w: u64| s@ == #[trigger] decimal_text(w as nat),
{
    let w = match random_u64() {
        Some(w) => w,
        None => {
            return None;
        },
    };
    let mut s = String::new();
    push_decimal_text(&mut s, w);
    assert(s@ =~= decimal_text(w as nat));
    Some(s)
}

/// The nodes among `s` in a country.
pub open spec fn in_country(s: Seq<OperatorView>, c: Seq<char>) -> Seq<OperatorView> {
    s.filter(|o: OperatorView| o.country_code == c)
}

/// The validators among `s`.
pub open spec fn validators_in(s: Seq<OperatorView>) -> Seq<OperatorView> {
    s.filter(|o: OperatorView| o.is_validator)
}

proof fn lemma_stake_prefix(s: Seq<OperatorView>, i: int)
    requires
        0 <= i <= s.len(),
    ensures
        validator_stake_total(s.take(i)) <= validator_stake_total(s),
    decreases s.len() - i,
{
    if i < s.len() {
        lemma_stake_prefix(s, i + 1);
        assert(s.take(i + 1).drop_last() =~= s.take(i));
    } else {
        assert(s.take(i) =~= s);
    }
}

/// How the known nodes are spread: how many there are, how many validate
/// and with what stake, and the nodes of each country.
pub struct NetworkTopology {
    pub total_operators: usize,
    pub validators: usize,
    pub total_stake: u64,
    pub countries: VecMap<String, Vec<SPOperatorInfo>>,
    pub last_updated: u64,
}

impl PeerDiscovery {
    /// The spread of the known nodes at `now`; each country lists its nodes
    /// in registration order.
    pub fn get_network_topology_at(&self, now: u64) -> (t: NetworkTopology)
        requires
            validator_stake_total(self.listed()) <= u64::MAX,
        ensures
            t.total_operators == self.listed().len(),
            t.validators == validators_in(self.listed()).len(),
            t.total_stake == validator_stake_total(self.listed()),
            t.last_updated == now,
            forall|c: Seq<char>| #[trigger] t.countries@.contains_key(c) <==> in_country(self.listed(), c).len() > 0,
            forall|c: Seq<char>| #[trigger] t.countries@.contains_key(c) ==> views(t.countries@[c]@) == in_country(self.listed(), c),
    {
        let entries = self.operators.entries();
        let ghost listed = self.listed();
        let mut countries: VecMap<String, Vec<SPOperatorInfo>> = VecMap::new();
        let mut validator_count: usize = 0;
        let mut total_stake: u64 = 0;
        let mut i: usize = 0;
        proof {
            reveal(Seq::filter);
            assert(listed.take(0) =~= Seq::<OperatorView>::empty());
        }
        while i < entries.len()
            invariant
                0 <= i <= entries@.len(),
                entries@ == self.operators.entry_seq(),
                listed == self.listed(),
                listed.len() == entries@.len(),
                validator_stake_total(listed) <= u64::MAX,
                validator_count == validators_in(listed.take(i as int)).len(),
                validator_count <= i,
                total_stake == validator_stake_total(listed.take(i as int)),
                forall|c: Seq<char>| #[trigger] countries@.contains_key(c) <==> in_country(listed.take(i as int), c).len() > 0,
                forall|c: Seq<char>| #[trigger] countries@.contains_key(c) ==> views(countries@[c]@) == in_country(listed.take(i as int), c),
            decreases entries@.len() - i,
        {
            let o = &entries[i].1;
            assert(listed[i as int] == o@);
            proof {
                reveal(Seq::filter);
                assert(listed.take(i + 1).drop_last() =~= listed.take(i as int));
                assert(listed.take(i + 1).last() == o@);
                lemma_stake_prefix(listed, i + 1);
                assert(validators_in(listed.take(i + 1)).len() <= validators_in(listed.take(i as int)).len() + 1);
            }
            let ghost before = countries@;
            let code = o.country_code.clone();
            let mut members = match countries.remove(&code) {
                Some(v) => v,
                None => Vec::new(),
            };
            members.push(o.copy_info());
            countries.insert(code, members);
            proof {
                assert forall|c: Seq<char>| #[trigger] countries@.contains_key(c) <==> in_country(listed.take(i + 1), c).len() > 0 by {
                    if c != o.country_code@ {
                        assert(in_country(listed.take(i + 1), c) == in_country(listed.take(i as int), c));
                    }
                }
                assert forall|c: Seq<char>| #[trigger] countries@.contains_key(c) implies views(countries@[c]@) == in_country(listed.take(i + 1), c) by {
                    if c == o.country_code@ {
                        assert(in_country(listed.take(i + 1), c) == in_country(listed.take(i as int), c).push(o@));
                        if before.contains_key(c) {
                            assert(views(countries@[c]@) =~= views(before[c]@).push(o@));
                        } else {
                            assert(in_country(listed.take(i as int), c).len() == 0);
                            assert(views(countries@[c]@) =~= in_country(listed.take(i as int), c).push(o@));
                        }
                    } else {
                        assert(in_country(listed.take(i + 1), c) == in_country(listed.take(i as int), c));
                        assert(countries@[c] == before[c]);
                    }
                }
            }
            if o.is_validator {
                validator_count = validator_count + 1;
                total_stake = total_stake + o.validator_stake;
            }
            i = i + 1;
        }
        proof {
            assert(listed.take(entries@.len() as int) =~= listed);
        }
        NetworkTopology {
            total_operators: entries.len(),
            validators: validator_count,
            total_stake,
            countries,
            last_updated: now,
        }
    }

    /// `get_network_topology_at` at the present time of the system clock.
    pub fn get_network_topology(&self) -> (t: NetworkTopology)
        requires
            validator_stake_total(self.listed()) <= u64::MAX,
        ensures
            t.total_operators == self.listed().len(),
            t.validators == validators_in(self.listed()).len(),
            t.total_stake == validator_stake_total(self.listed()),
            forall|c: Seq<char>| #[trigger] t.countries@.contains_key(c) <==> in_country(self.listed(), c).len() > 0,
            forall|c: Seq<char>| #[trigger] t.countries@.contains_key(c) ==> views(t.countries@[c]@) == in_country(self.listed(), c),
    {
        let now = now_seconds();
        self.get_network_topology_at(now)
    }
}

impl NetworkTopology {
    /// Whether there are enough validators to tolerate a faulty one: at
    /// least three.
    pub fn has_sufficient_validators(&self) -> (r: bool)
        ensures
            r == (self.validators >= 3),
    {
        self.validators >= 3
    }

    /// Number of known nodes in each country.
    pub fn geographical_distribution(&self) -> (r: VecMap<String, usize>)
        ensures
            forall|c: Seq<char>| #[trigger] r@.contains_key(c) <==> self.countries@.contains_key(c),
            forall|c: Seq<char>| #[trigger] r@.contains_key(c) ==> r@[c] == self.countries@[c]@.len(),
    {
        let entries = self.countries.entries();
        let mut r: VecMap<String, usize> = VecMap::new();
        let mut i: usize = 0;
        while i < entries.len()
            invariant
                0 <= i <= entries@.len(),
                entries@ == self.countries.entry_seq(),
                forall|j: int|
                    0 <= j < entries@.len() ==> #[trigger] self.countries@.contains_key(entries@[j].0@)
                        && self.countries@[entries@[j].0@] == entries@[j].1,
                forall|c: Seq<char>| #[trigger] r@.contains_key(c) <==> exists|j: int| 0 <= j < i && entries@[j].0@ == c,
                forall|c: Seq<char>| #[trigger] r@.contains_key(c) ==> r@[c] == self.countries@[c]@.len(),
            decreases entries@.len() - i,
        {
            let (code, members) = &entries[i];
            assert(self.countries@.contains_key(entries@[i as int].0@));
            r.insert(code.clone(), members.len());
            proof {
                assert forall|c: Seq<char>| #[trigger] r@.contains_key(c) <==> exists|j: int| 0 <= j < i + 1 && entries@[j].0@ == c by {
                    if c == code@ {
                        assert(entries@[i as int].0@ == c);
                    }
                }
            }
            i = i + 1;
        }
        proof {
            assert forall|c: Seq<char>| #[trigger] r@.contains_key(c) <==> self.countries@.contains_key(c) by {
                if self.countries@.contains_key(c) {
                    let j = choose|j: int| 0 <= j < entries@.len() && #[trigger] entries@[j].0@ == c;
                    assert(r@.contains_key(entries@[j].0@));
                }
                if r@.contains_key(c) {
                    let j = choose|j: int| 0 <= j < entries@.len() && entries@[j].0@ == c;
                    assert(self.countries@.contains_key(entries@[j].0@));
                }
            }
        }
        r
    }

    /// Stake of the validators in a country; none for a country without
    /// known nodes.
    pub fn country_stake(&self, country_code: &str) -> (r: u64)
        requires
            self.countries@.contains_key(country_code@) ==> validator_stake_total(
                views(self.countries@[country_code@]@),
            ) <= u64::MAX,
        ensures
            self.countries@.contains_key(country_code@) ==> r == validator_stake_total(
                views(self.countries@[country_code@]@),
            ),
            !self.countries@.contains_key(country_code@) ==> r == 0,
    {
        let key = country_code.to_string();
        match self.countries.get(&key) {
            None => 0,
            Some(members) => {
                let ghost s = views(members@);
                let mut total: u64 = 0;
                let mut i: usize = 0;
                assert(s.take(0) =~= Seq::<OperatorView>::empty());
                while i < members.len()
                    invariant
                        0 <= i <= members@.len(),
                        s == views(members@),
                        validator_stake_total(s) <= u64::MAX,
                        total == validator_stake_total(s.take(i as int)),
                    decreases members@.len() - i,
                {
                    proof {
                        assert(s.take(i + 1).drop_last() =~= s.take(i as int));
                        lemma_stake_prefix(s, i + 1);
                    }
                    if members[i].is_validator {
                        total = total + members[i].validator_stake;
                    }
                    i = i + 1;
                }
                assert(s.take(members@.len() as int) =~= s);
                total
            },
        }
    }
}

/// Who can settle with a network at `now`: only a node of another network,
/// and only one seen within the last hour (seen at or before `now`, less
/// than 3600 seconds earlier). A node of the same network, one not seen for
/// an hour or more, or one whose last sighting lies after `now` never is;
/// every partner listed qualifies, and every node of the list that
/// qualifies is listed.
pub proof fn law_settlement_partners(o: OperatorView, network: NetworkIdView, now: u64, s: Seq<OperatorView>)
    ensures
        settlement_partner(o, network, now) ==> o.network_id != network,
        settlement_partner(o, network, now) ==> o.last_seen <= now && now < o.last_seen + 3600,
        o.network_id != network && o.last_seen <= now && now < o.last_seen + 3600 ==> settlement_partner(o, network, now),
        o.last_seen + 3600 <= now ==> !settlement_partner(o, network, now),
        forall|i: int| 0 <= i < partners_at(s, network, now).len() ==> settlement_partner(#[trigger] partners_at(s, network, now)[i], network, now),
        forall|o2: OperatorView| s.contains(o2) && settlement_partner(o2, network, now) ==> #[trigger] partners_at(s, network, now).contains(o2),
{
    let f = |x: OperatorView| settlement_partner(x, network, now);
    assert forall|i: int| 0 <= i < partners_at(s, network, now).len() implies settlement_partner(
        #[trigger] partners_at(s, network, now)[i],
        network,
        now,
    ) by {
        s.filter_lemma(f);
    }
    assert forall|o2: OperatorView| s.contains(o2) && settlement_partner(o2, network, now) implies #[trigger] partners_at(
        s,
        network,
        now,
    ).contains(o2) by {
        s.filter_lemma(f);
        let j = choose|j: int| 0 <= j < s.len() && s[j] == o2;
        assert(f(s[j]));
    }
}

} // verus!
