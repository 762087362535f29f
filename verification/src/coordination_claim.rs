//! Claim transport between paired instances: who is a peer, where it is dialed,
//! when the listener is up, and which inbound frames are let through.

use base64::Engine;
use vstd::prelude::*;

use crate::clock;
use crate::clock::{elapsed_since, Nanos};
use crate::seqs;
use crate::text;
use crate::text::same_text;

verus! {

/// Inbound connections that may be authenticating at a time.
pub const MAX_PREAUTH_CONNECTIONS: usize = 4;

/// Inbound connections of one address that are accepted within a minute.
pub const MAX_CONNECTIONS_PER_IP_MINUTE: usize = 10;

/// One minute in nanoseconds.
pub const RATE_WINDOW: u128 = 60_000_000_000;

/// How long an inbound frame may take: one second.
pub const READ_TIMEOUT: u128 = 1_000_000_000;

/// How long a connection attempt may take: half a second.
pub const CONNECT_TIMEOUT: u128 = 500_000_000;

// ── addresses ────────────────────────────────────────────────────────────

/// An IP address.
#[derive(Clone, Copy, PartialEq, Eq, Debug, Structural)]
pub enum Ip {
    V4(u32),
    V6(u128),
}

/// A socket address. `flowinfo` and `scope_id` are zero for IPv4.
#[derive(Clone, Copy, PartialEq, Eq, Debug, Structural)]
pub struct SockAddr {
    pub ip: Ip,
    pub port: u16,
    pub flowinfo: u32,
    pub scope_id: u32,
}

/// The plain socket address of an IP address and a port.
pub open spec fn sock_addr(ip: Ip, port: u16) -> SockAddr {
    SockAddr { ip, port, flowinfo: 0, scope_id: 0 }
}

impl SockAddr {
    /// The plain socket address of an IP address and a port.
    pub fn new(ip: Ip, port: u16) -> (res: Self)
        ensures
            res == sock_addr(ip, port),
    {
        SockAddr { ip, port, flowinfo: 0, scope_id: 0 }
    }
}

// ── peers ────────────────────────────────────────────────────────────────

/// A paired peer as the transport uses it.
pub struct ClaimPeer {
    /// Stable identity, derived from the peer's key.
    pub instance_id: String,
    /// The Ed25519 key ratified by pairing.
    pub verifying_key: Vec<u8>,
    /// Last verified address; only its IP is dialed.
    pub last_addr: Option<SockAddr>,
    /// Advisory address of an unsigned announcement; never persisted.
    pub dns_addr: Option<SockAddr>,
    /// Verified claim port.
    pub claim_port: Option<u16>,
    /// Advisory claim port; never persisted.
    pub dns_port: Option<u16>,
    /// Advisory boot epoch; never persisted.
    pub dns_epoch: Option<String>,
}

/// The mathematical content of a [`ClaimPeer`].
#[verifier::ext_equal]
pub struct PeerModel {
    pub instance_id: Seq<char>,
    pub verifying_key: Seq<u8>,
    pub last_addr: Option<SockAddr>,
    pub dns_addr: Option<SockAddr>,
    pub claim_port: Option<u16>,
    pub dns_port: Option<u16>,
    pub dns_epoch: Option<Seq<char>>,
}

impl View for ClaimPeer {
    type V = PeerModel;

    open spec fn view(&self) -> PeerModel {
        PeerModel {
            instance_id: self.instance_id@,
            verifying_key: self.verifying_key@,
            last_addr: self.last_addr,
            dns_addr: self.dns_addr,
            claim_port: self.claim_port,
            dns_port: self.dns_port,
            dns_epoch: text::opt_text(self.dns_epoch),
        }
    }
}

/// A peer as it is persisted.
pub struct PeerRecord {
    pub instance_id: String,
    /// The key in base64.
    pub ed25519_pub: String,
    pub display_name: String,
    pub paired_at: String,
    pub last_addr: Option<SockAddr>,
    pub claim_port: Option<u16>,
}

/// The mathematical content of a [`PeerRecord`].
#[verifier::ext_equal]
pub struct RecordModel {
    pub instance_id: Seq<char>,
    pub ed25519_pub: Seq<char>,
    pub display_name: Seq<char>,
    pub paired_at: Seq<char>,
    pub last_addr: Option<SockAddr>,
    pub claim_port: Option<u16>,
}

impl View for PeerRecord {
    type V = RecordModel;

    open spec fn view(&self) -> RecordModel {
        RecordModel {
            instance_id: self.instance_id@,
            ed25519_pub: self.ed25519_pub@,
            display_name: self.display_name@,
            paired_at: self.paired_at@,
            last_addr: self.last_addr,
            claim_port: self.claim_port,
        }
    }
}

/// The contents of a list of peers.
pub open spec fn peer_models(v: Seq<ClaimPeer>) -> Seq<PeerModel> {
    v.map_values(|p: ClaimPeer| p@)
}

/// The contents of a list of records.
pub open spec fn record_models(v: Seq<PeerRecord>) -> Seq<RecordModel> {
    v.map_values(|r: PeerRecord| r@)
}

/// Why the peer store is refused.
#[derive(Clone, Copy, PartialEq, Eq, Debug, Structural)]
pub enum PeerStoreError {
    KeyNotBase64,
    KeyLength,
    KeyInvalid,
    UnknownPeer,
}

impl PeerStoreError {
    /// The reason in words.
    pub fn detail(&self) -> (res: &'static str)
        ensures
            res@ == (match *self {
                PeerStoreError::KeyNotBase64 => "paired peer public key is not valid base64"@,
                PeerStoreError::KeyLength => "paired peer public key must be 32 bytes"@,
                PeerStoreError::KeyInvalid => "paired peer public key is invalid"@,
                PeerStoreError::UnknownPeer => "cannot refresh endpoint for an unknown peer"@,
            }),
    {
        match *self {
            PeerStoreError::KeyNotBase64 => "paired peer public key is not valid base64",
            PeerStoreError::KeyLength => "paired peer public key must be 32 bytes",
            PeerStoreError::KeyInvalid => "paired peer public key is invalid",
            PeerStoreError::UnknownPeer => "cannot refresh endpoint for an unknown peer",
        }
    }
}

// ── keys ─────────────────────────────────────────────────────────────────

/// The bytes that a text in standard padded base64 denotes.
pub uninterp spec fn base64_decoded(text: Seq<char>) -> Option<Seq<u8>>;

/// The standard padded base64 notation of some bytes.
pub uninterp spec fn base64_encoded(bytes: Seq<u8>) -> Seq<char>;

/// Whether 32 bytes are the encoding of a point of the Ed25519 curve.
pub uninterp spec fn valid_key(bytes: Seq<u8>) -> bool;

/// `base64`'s `STANDARD.decode`: the bytes that the text denotes, nothing where it
/// is not base64 of that alphabet and padding.
#[verifier::external_body]
fn decode_base64(text: &str) -> (res: Option<Vec<u8>>)
    ensures
        match res {
            Some(bytes) => base64_decoded(text@) == Some(bytes@),
            None => base64_decoded(text@) is None,
        },
{
    base64::engine::general_purpose::STANDARD.decode(text).ok()
}

/// `base64`'s `STANDARD.encode` of a key: the base64 notation of its bytes, which
/// `STANDARD.decode` reads back as the same bytes.
#[verifier::external_body]
fn encode_base64(bytes: &Vec<u8>) -> (res: String)
    requires
        bytes@.len() == 32,
    ensures
        res@ == base64_encoded(bytes@),
        base64_decoded(res@) == Some(bytes@),
{
    base64::engine::general_purpose::STANDARD.encode(bytes)
}

/// `ed25519_dalek::VerifyingKey::from_bytes`: whether it accepts 32 bytes as a
/// key, which depends on the bytes alone.
#[verifier::external_body]
fn check_key(bytes: &Vec<u8>) -> (res: bool)
    requires
        bytes@.len() == 32,
    ensures
        res == valid_key(bytes@),
{
    let mut raw = [0u8; 32];
    raw.copy_from_slice(bytes);
    ed25519_dalek::VerifyingKey::from_bytes(&raw).is_ok()
}

/// Whether a peer holds a usable key.
pub open spec fn key_ok(p: PeerModel) -> bool {
    p.verifying_key.len() == 32 && valid_key(p.verifying_key)
}

/// The key of a record.
pub open spec fn record_key(r: RecordModel) -> Result<Seq<u8>, PeerStoreError> {
    match base64_decoded(r.ed25519_pub) {
        Some(key) => if key.len() != 32 {
            Err(PeerStoreError::KeyLength)
        } else if !valid_key(key) {
            Err(PeerStoreError::KeyInvalid)
        } else {
            Ok(key)
        },
        None => Err(PeerStoreError::KeyNotBase64),
    }
}

/// The peer of a record: it knows no advisory endpoint.
pub open spec fn peer_of(r: RecordModel, key: Seq<u8>) -> PeerModel {
    PeerModel {
        instance_id: r.instance_id,
        verifying_key: key,
        last_addr: r.last_addr,
        dns_addr: None,
        claim_port: r.claim_port,
        dns_port: None,
        dns_epoch: None,
    }
}

/// The peers of a list of records; the first bad key fails it.
pub open spec fn peers_of(records: Seq<RecordModel>) -> Result<Seq<PeerModel>, PeerStoreError>
    decreases records.len(),
{
    if records.len() == 0 {
        Ok(Seq::empty())
    } else {
        match peers_of(records.drop_last()) {
            Ok(front) => match record_key(records.last()) {
                Ok(key) => Ok(front.push(peer_of(records.last(), key))),
                Err(e) => Err(e),
            },
            Err(e) => Err(e),
        }
    }
}

proof fn lemma_peers_of_error_stays(records: Seq<RecordModel>, k: int)
    requires
        0 <= k <= records.len(),
        peers_of(records.take(k)) is Err,
    ensures
        peers_of(records) == peers_of(records.take(k)),
    decreases records.len() - k,
{
    if k == records.len() {
        assert(records.take(k) =~= records);
    } else {
        assert(records.take(k + 1).drop_last() =~= records.take(k));
        lemma_peers_of_error_stays(records, k + 1);
    }
}

/// Read the key of a record.
fn read_key(record: &PeerRecord) -> (res: Result<Vec<u8>, PeerStoreError>)
    ensures
        match res {
            Ok(key) => record_key(record@) == Ok::<Seq<u8>, PeerStoreError>(key@),
            Err(e) => record_key(record@) == Err::<Seq<u8>, PeerStoreError>(e),
        },
{
    match decode_base64(record.ed25519_pub.as_str()) {
        Some(key) => {
            if key.len() != 32 {
                return Err(PeerStoreError::KeyLength);
            }
            if !check_key(&key) {
                return Err(PeerStoreError::KeyInvalid);
            }
            Ok(key)
        },
        None => Err(PeerStoreError::KeyNotBase64),
    }
}

/// The peers of the persisted records.
pub fn claim_peers(records: &Vec<PeerRecord>) -> (res: Result<Vec<ClaimPeer>, PeerStoreError>)
    ensures
        match res {
            Ok(peers) => peers_of(record_models(records@)) == Ok::<Seq<PeerModel>, PeerStoreError>(
                peer_models(peers@),
            ),
            Err(e) => peers_of(record_models(records@)) == Err::<Seq<PeerModel>, PeerStoreError>(e),
        },
{
    let ghost models = record_models(records@);
    let mut peers: Vec<ClaimPeer> = Vec::new();
    let mut i: usize = 0;
    assert(models.take(0) =~= Seq::<RecordModel>::empty());
    assert(peer_models(peers@) =~= Seq::<PeerModel>::empty());
    while i < records.len()
        invariant
            i <= records@.len(),
            models == record_models(records@),
            peers_of(models.take(i as int)) == Ok::<Seq<PeerModel>, PeerStoreError>(
                peer_models(peers@),
            ),
        decreases records@.len() - i,
    {
        let record = &records[i];
        let ghost longer = models.take(i + 1);
        assert(longer.drop_last() =~= models.take(i as int));
        assert(longer.last() == record@);
        match read_key(record) {
            Ok(key) => {
                let ghost before = peers@;
                peers.push(
                    ClaimPeer {
                        instance_id: record.instance_id.clone(),
                        verifying_key: key,
                        last_addr: record.last_addr,
                        dns_addr: None,
                        claim_port: record.claim_port,
                        dns_port: None,
                        dns_epoch: None,
                    },
                );
                assert(peer_models(peers@) =~= peer_models(before).push(
                    peer_of(record@, peers@.last().verifying_key@),
                ));
            },
            Err(e) => {
                proof {
                    lemma_peers_of_error_stays(models, i + 1);
                }
                return Err(e);
            },
        }
        i = i + 1;
    }
    assert(models.take(i as int) =~= models);
    Ok(peers)
}

/// The record under which a peer's frames are verified: nothing of it is
/// advisory.
pub open spec fn record_of(p: PeerModel) -> RecordModel {
    RecordModel {
        instance_id: p.instance_id,
        ed25519_pub: base64_encoded(p.verifying_key),
        display_name: Seq::empty(),
        paired_at: Seq::empty(),
        last_addr: p.last_addr,
        claim_port: p.claim_port,
    }
}

/// The record under which a peer's frames are verified.
pub fn peer_record(peer: &ClaimPeer) -> (record: PeerRecord)
    requires
        peer.verifying_key@.len() == 32,
    ensures
        record@ == record_of(peer@),
        key_ok(peer@) ==> record_key(record@) == Ok::<Seq<u8>, PeerStoreError>(
            peer.verifying_key@,
        ),
{
    PeerRecord {
        instance_id: peer.instance_id.clone(),
        ed25519_pub: encode_base64(&peer.verifying_key),
        display_name: String::new(),
        paired_at: String::new(),
        last_addr: peer.last_addr,
        claim_port: peer.claim_port,
    }
}

// ── the peer store ───────────────────────────────────────────────────────

/// The persisted records and the live peers made from them.
pub struct PeerStoreFeed {
    pub records: Vec<PeerRecord>,
    pub peers: Vec<ClaimPeer>,
}

/// What a verified address means to the store.
pub enum AddressRefresh {
    /// No such peer is paired.
    Unknown,
    /// The address is known already.
    Unchanged,
    /// The record at this index has the new address; persist it, then publish.
    Persist(usize),
}

/// The advisory endpoint of a peer.
pub struct DnsModel {
    pub addr: SockAddr,
    pub port: Option<u16>,
    pub epoch: Option<Seq<char>>,
}

/// The advisory endpoint that the newest listed peer of this identity knows.
pub open spec fn dns_known(peers: Seq<PeerModel>, id: Seq<char>) -> Option<DnsModel>
    decreases peers.len(),
{
    if peers.len() == 0 {
        None
    } else {
        let p = peers.last();
        if p.instance_id == id && p.dns_addr is Some {
            Some(DnsModel { addr: p.dns_addr->0, port: p.dns_port, epoch: p.dns_epoch })
        } else {
            dns_known(peers.drop_last(), id)
        }
    }
}

/// A peer with the advisory endpoint that was known before.
pub open spec fn with_dns(before: Seq<PeerModel>) -> spec_fn(PeerModel) -> PeerModel {
    |p: PeerModel|
        match dns_known(before, p.instance_id) {
            Some(d) => PeerModel {
                dns_addr: Some(d.addr),
                dns_port: d.port,
                dns_epoch: d.epoch,
                ..p
            },
            None => p,
        }
}

/// The live peers after the records were published over the live peers `before`.
pub open spec fn published(records: Seq<RecordModel>, before: Seq<PeerModel>) -> Seq<PeerModel> {
    match peers_of(records) {
        Ok(peers) => peers.map_values(with_dns(before)),
        Err(_) => before,
    }
}

/// The index of the first record of an identity.
pub open spec fn is_first_record(records: Seq<RecordModel>, id: Seq<char>, i: int) -> bool {
    &&& 0 <= i < records.len()
    &&& records[i].instance_id == id
    &&& forall|j: int| 0 <= j < i ==> (#[trigger] records[j]).instance_id != id
}

/// Whether an identity has a record.
pub open spec fn has_record(records: Seq<RecordModel>, id: Seq<char>) -> bool {
    exists|i: int| 0 <= i < records.len() && (#[trigger] records[i]).instance_id == id
}

/// Whether `after` is `before` with `r` in place of the first record of its
/// identity, or at the end where there is none.
pub open spec fn upserted(before: Seq<RecordModel>, r: RecordModel, after: Seq<RecordModel>) -> bool {
    if has_record(before, r.instance_id) {
        exists|i: int| #[trigger]
            is_first_record(before, r.instance_id, i) && after == before.update(i, r)
    } else {
        after == before.push(r)
    }
}

fn copy_opt(s: &Option<String>) -> (res: Option<String>)
    ensures
        text::opt_text(res) == text::opt_text(*s),
{
    match s {
        Some(t) => Some(t.clone()),
        None => None,
    }
}

impl PeerStoreFeed {
    /// The contents of the records.
    pub open spec fn records_view(&self) -> Seq<RecordModel> {
        record_models(self.records@)
    }

    /// The contents of the live peers.
    pub open spec fn peers_view(&self) -> Seq<PeerModel> {
        peer_models(self.peers@)
    }

    /// The store of the persisted records, or the first bad key among them.
    pub fn load(records: Vec<PeerRecord>) -> (res: Result<PeerStoreFeed, PeerStoreError>)
        ensures
            match res {
                Ok(feed) => feed.records == records && peers_of(record_models(records@)) == Ok::<
                    Seq<PeerModel>,
                    PeerStoreError,
                >(feed.peers_view()),
                Err(e) => peers_of(record_models(records@)) == Err::<
                    Seq<PeerModel>,
                    PeerStoreError,
                >(e),
            },
    {
        match claim_peers(&records) {
            Ok(peers) => Ok(PeerStoreFeed { records, peers }),
            Err(e) => Err(e),
        }
    }

    /// The index of the first record of an identity.
    fn find_record(&self, instance_id: &str) -> (res: Option<usize>)
        ensures
            match res {
                Some(i) => is_first_record(self.records_view(), instance_id@, i as int),
                None => !has_record(self.records_view(), instance_id@),
            },
    {
        let mut i: usize = 0;
        let ghost models = self.records_view();
        while i < self.records.len()
            invariant
                i <= self.records@.len(),
                models == self.records_view(),
                forall|j: int| 0 <= j < i ==> (#[trigger] models[j]).instance_id != instance_id@,
            decreases self.records@.len() - i,
        {
            assert(models[i as int] == self.records@[i as int]@);
            if same_text(self.records[i].instance_id.as_str(), instance_id) {
                return Some(i);
            }
            i = i + 1;
        }
        None
    }

    /// Take up a record that has been persisted, and publish. A bad key leaves
    /// the live peers as they are.
    pub fn upsert(&mut self, record: PeerRecord) -> (res: Result<(), PeerStoreError>)
        ensures
            upserted(old(self).records_view(), record@, final(self).records_view()),
            final(self).peers_view() == published(
                final(self).records_view(),
                old(self).peers_view(),
            ),
            match res {
                Ok(_) => peers_of(final(self).records_view()) is Ok,
                Err(e) => peers_of(final(self).records_view()) == Err::<
                    Seq<PeerModel>,
                    PeerStoreError,
                >(e),
            },
    {
        let ghost before = self.records_view();
        let ghost r = record@;
        match self.find_record(record.instance_id.as_str()) {
            Some(i) => {
                self.records.set(i, record);
                assert(self.records_view() =~= before.update(i as int, r));
                assert(is_first_record(before, r.instance_id, i as int));
                assert(before[i as int].instance_id == r.instance_id);
            },
            None => {
                self.records.push(record);
                assert(self.records_view() =~= before.push(r));
            },
        }
        self.publish()
    }

    /// Take up a signature-verified address of a peer.
    pub fn refresh_verified_address(&mut self, instance_id: &str, address: SockAddr) -> (res:
        AddressRefresh)
        ensures
            final(self).peers == old(self).peers,
            match res {
                AddressRefresh::Unknown => !has_record(old(self).records_view(), instance_id@)
                    && final(self).records == old(self).records,
                AddressRefresh::Unchanged => final(self).records == old(self).records && exists|
                    i: int,
                | #[trigger]
                    is_first_record(old(self).records_view(), instance_id@, i) && old(
                        self,
                    ).records_view()[i].last_addr == Some(address),
                AddressRefresh::Persist(i) => {
                    &&& is_first_record(old(self).records_view(), instance_id@, i as int)
                    &&& old(self).records_view()[i as int].last_addr != Some(address)
                    &&& final(self).records_view() == old(self).records_view().update(
                        i as int,
                        RecordModel {
                            last_addr: Some(address),
                            ..old(self).records_view()[i as int]
                        },
                    )
                },
            },
    {
        let ghost before = self.records_view();
        match self.find_record(instance_id) {
            Some(i) => {
                assert(before[i as int] == self.records@[i as int]@);
                let known = match self.records[i].last_addr {
                    Some(a) => a == address,
                    None => false,
                };
                if known {
                    assert(is_first_record(before, instance_id@, i as int));
                    return AddressRefresh::Unchanged;
                }
                let r = &self.records[i];
                let updated = PeerRecord {
                    instance_id: r.instance_id.clone(),
                    ed25519_pub: r.ed25519_pub.clone(),
                    display_name: r.display_name.clone(),
                    paired_at: r.paired_at.clone(),
                    last_addr: Some(address),
                    claim_port: r.claim_port,
                };
                let ghost u = updated@;
                self.records.set(i, updated);
                assert(self.records_view() =~= before.update(i as int, u));
                AddressRefresh::Persist(i)
            },
            None => AddressRefresh::Unknown,
        }
    }

    /// Take up an advisory endpoint. It touches the first live peer of that
    /// identity and no record.
    pub fn refresh_dns_address(
        &mut self,
        instance_id: &str,
        address: SockAddr,
        epoch: Option<String>,
    )
        ensures
            final(self).records == old(self).records,
            final(self).peers_view().len() == old(self).peers_view().len(),
            forall|i: int|
                0 <= i < old(self).peers_view().len() ==> #[trigger] final(self).peers_view()[i]
                    == (if is_first_peer(old(self).peers_view(), instance_id@, i) {
                    PeerModel {
                        dns_addr: Some(address),
                        dns_port: Some(address.port),
                        dns_epoch: text::opt_text(epoch),
                        ..old(self).peers_view()[i]
                    }
                } else {
                    old(self).peers_view()[i]
                }),
    {
        let ghost before = self.peers_view();
        match find_peer(&self.peers, instance_id) {
            Some(i) => {
                let p = &self.peers[i];
                let updated = ClaimPeer {
                    instance_id: p.instance_id.clone(),
                    verifying_key: p.verifying_key.clone(),
                    last_addr: p.last_addr,
                    dns_addr: Some(address),
                    claim_port: p.claim_port,
                    dns_port: Some(address.port),
                    dns_epoch: epoch,
                };
                let ghost u = updated@;
                assert(u.verifying_key =~= p.verifying_key@);
                self.peers.set(i, updated);
                assert(self.peers_view() =~= before.update(i as int, u));
                assert(before[i as int] == p@);
            },
            None => {},
        }
    }

    /// Make the live peers anew from the records, keeping the advisory endpoints
    /// that were known. A bad key leaves the live peers as they are.
    pub fn publish(&mut self) -> (res: Result<(), PeerStoreError>)
        ensures
            final(self).records == old(self).records,
            final(self).peers_view() == published(old(self).records_view(), old(self).peers_view()),
            match res {
                Ok(_) => peers_of(old(self).records_view()) is Ok,
                Err(e) => peers_of(old(self).records_view()) == Err::<
                    Seq<PeerModel>,
                    PeerStoreError,
                >(e),
            },
    {
        let fresh = match claim_peers(&self.records) {
            Ok(peers) => peers,
            Err(e) => {
                return Err(e);
            },
        };
        let ghost before = self.peers_view();
        let ghost fresh_models = peer_models(fresh@);
        let mut out: Vec<ClaimPeer> = Vec::new();
        let mut i: usize = 0;
        while i < fresh.len()
            invariant
                i <= fresh@.len(),
                before == self.peers_view(),
                fresh_models == peer_models(fresh@),
                peer_models(out@) == fresh_models.take(i as int).map_values(with_dns(before)),
            decreases fresh@.len() - i,
        {
            let p = &fresh[i];
            let ghost out0 = out@;
            let carried = match last_dns(&self.peers, p.instance_id.as_str()) {
                Some(k) => ClaimPeer {
                    instance_id: p.instance_id.clone(),
                    verifying_key: p.verifying_key.clone(),
                    last_addr: p.last_addr,
                    dns_addr: self.peers[k].dns_addr,
                    claim_port: p.claim_port,
                    dns_port: self.peers[k].dns_port,
                    dns_epoch: copy_opt(&self.peers[k].dns_epoch),
                },
                None => ClaimPeer {
                    instance_id: p.instance_id.clone(),
                    verifying_key: p.verifying_key.clone(),
                    last_addr: p.last_addr,
                    dns_addr: p.dns_addr,
                    claim_port: p.claim_port,
                    dns_port: p.dns_port,
                    dns_epoch: copy_opt(&p.dns_epoch),
                },
            };
            proof {
                assert(carried.verifying_key@ =~= p.verifying_key@);
                assert(fresh_models[i as int] == p@);
                assert(carried@ =~= with_dns(before)(p@));
                seqs::lemma_map_step(fresh_models, i as int, with_dns(before));
            }
            let ghost c = carried@;
            out.push(carried);
            assert(peer_models(out@) =~= peer_models(out0).push(c));
            i = i + 1;
        }
        proof {
            seqs::lemma_take_all(fresh_models);
        }
        self.peers = out;
        Ok(())
    }
}

/// Whether the peer at `i` is the first of its identity.
pub open spec fn is_first_peer(peers: Seq<PeerModel>, id: Seq<char>, i: int) -> bool {
    &&& 0 <= i < peers.len()
    &&& peers[i].instance_id == id
    &&& forall|j: int| 0 <= j < i ==> (#[trigger] peers[j]).instance_id != id
}

/// Whether an identity is a peer.
pub open spec fn has_peer(peers: Seq<PeerModel>, id: Seq<char>) -> bool {
    exists|i: int| 0 <= i < peers.len() && (#[trigger] peers[i]).instance_id == id
}

/// The index of the first peer of an identity.
pub fn find_peer(peers: &Vec<ClaimPeer>, instance_id: &str) -> (res: Option<usize>)
    ensures
        match res {
            Some(i) => is_first_peer(peer_models(peers@), instance_id@, i as int),
            None => !has_peer(peer_models(peers@), instance_id@),
        },
{
    let mut i: usize = 0;
    let ghost models = peer_models(peers@);
    while i < peers.len()
        invariant
            i <= peers@.len(),
            models == peer_models(peers@),
            forall|j: int| 0 <= j < i ==> (#[trigger] models[j]).instance_id != instance_id@,
        decreases peers@.len() - i,
    {
        assert(models[i as int] == peers@[i as int]@);
        if same_text(peers[i].instance_id.as_str(), instance_id) {
            return Some(i);
        }
        i = i + 1;
    }
    None
}

/// The index of the newest listed peer of an identity that knows an advisory
/// endpoint.
fn last_dns(peers: &Vec<ClaimPeer>, instance_id: &str) -> (res: Option<usize>)
    ensures
        match res {
            Some(k) => {
                &&& k < peers@.len()
                &&& peers@[k as int].dns_addr is Some
                &&& dns_known(peer_models(peers@), instance_id@) == Some(
                    DnsModel {
                        addr: peers@[k as int].dns_addr->0,
                        port: peers@[k as int].dns_port,
                        epoch: text::opt_text(peers@[k as int].dns_epoch),
                    },
                )
            },
            None => dns_known(peer_models(peers@), instance_id@) is None,
        },
{
    let mut found: Option<usize> = None;
    let mut i: usize = 0;
    let ghost models = peer_models(peers@);
    assert(models.take(0) =~= Seq::<PeerModel>::empty());
    while i < peers.len()
        invariant
            i <= peers@.len(),
            models == peer_models(peers@),
            match found {
                Some(k) => {
                    &&& k < i
                    &&& peers@[k as int].dns_addr is Some
                    &&& dns_known(models.take(i as int), instance_id@) == Some(
                        DnsModel {
                            addr: peers@[k as int].dns_addr->0,
                            port: peers@[k as int].dns_port,
                            epoch: text::opt_text(peers@[k as int].dns_epoch),
                        },
                    )
                },
                None => dns_known(models.take(i as int), instance_id@) is None,
            },
        decreases peers@.len() - i,
    {
        let ghost longer = models.take(i + 1);
        assert(longer.drop_last() =~= models.take(i as int));
        assert(longer.last() == peers@[i as int]@);
        if peers[i].dns_addr.is_some() && same_text(peers[i].instance_id.as_str(), instance_id) {
            found = Some(i);
        }
        i = i + 1;
    }
    assert(models.take(i as int) =~= models);
    found
}

// ── endpoints ────────────────────────────────────────────────────────────

/// Where an endpoint is known from.
#[derive(Clone, Copy, PartialEq, Eq, Debug, Structural)]
pub enum EndpointKind {
    Verified,
    Dns,
}

impl EndpointKind {
    /// The name that is logged.
    pub fn as_str(self) -> (res: &'static str)
        ensures
            res@ == (match self {
                EndpointKind::Verified => "verified"@,
                EndpointKind::Dns => "dns"@,
            }),
    {
        match self {
            EndpointKind::Verified => "verified",
            EndpointKind::Dns => "dns",
        }
    }
}

/// The verified endpoint of a peer: a verified address and a verified port.
pub open spec fn verified_endpoint(p: PeerModel) -> Option<SockAddr> {
    match (p.claim_port, p.last_addr) {
        (Some(port), Some(addr)) => Some(sock_addr(addr.ip, port)),
        _ => None,
    }
}

/// The advisory endpoint of a peer: the verified port takes precedence.
pub open spec fn dns_endpoint(p: PeerModel) -> Option<SockAddr> {
    let port = match p.claim_port {
        Some(port) => Some(port),
        None => p.dns_port,
    };
    match (port, p.dns_addr) {
        (Some(port), Some(addr)) => Some(sock_addr(addr.ip, port)),
        _ => None,
    }
}

/// The endpoints of a peer in dialing order.
pub open spec fn endpoints(p: PeerModel) -> Seq<(EndpointKind, SockAddr)> {
    let verified = match verified_endpoint(p) {
        Some(a) => seq![(EndpointKind::Verified, a)],
        None => Seq::empty(),
    };
    match dns_endpoint(p) {
        Some(a) => verified.push((EndpointKind::Dns, a)),
        None => verified,
    }
}

/// The endpoints of a peer in dialing order: verified before advisory.
pub fn peer_endpoints(peer: &ClaimPeer) -> (out: Vec<(EndpointKind, SockAddr)>)
    ensures
        out@ == endpoints(peer@),
{
    let mut out: Vec<(EndpointKind, SockAddr)> = Vec::new();
    if let Some(port) = peer.claim_port {
        if let Some(address) = peer.last_addr {
            out.push((EndpointKind::Verified, SockAddr::new(address.ip, port)));
        }
    }
    let dns_port = match peer.claim_port {
        Some(port) => Some(port),
        None => peer.dns_port,
    };
    if let Some(port) = dns_port {
        if let Some(address) = peer.dns_addr {
            out.push((EndpointKind::Dns, SockAddr::new(address.ip, port)));
        }
    }
    assert(out@ =~= endpoints(peer@));
    out
}

/// What a delivery to one peer does next.
#[derive(Clone, Copy, PartialEq, Eq, Debug, Structural)]
pub enum DialStep {
    Dial(EndpointKind, SockAddr),
    /// The frame went out.
    Delivered,
    /// Every endpoint failed; the last error stands.
    Failed,
    /// There was nothing to dial.
    NoEndpoint,
}

/// Deliver to a peer: endpoint by endpoint until one takes the frame. `tried` is
/// the number of endpoints dialed so far and `delivered` what became of the last.
pub fn send_to_peer(peer: &ClaimPeer, tried: usize, delivered: bool) -> (step: DialStep)
    ensures
        step == (if tried > 0 && delivered {
            DialStep::Delivered
        } else if tried < endpoints(peer@).len() {
            DialStep::Dial(endpoints(peer@)[tried as int].0, endpoints(peer@)[tried as int].1)
        } else if endpoints(peer@).len() == 0 {
            DialStep::NoEndpoint
        } else {
            DialStep::Failed
        }),
{
    if tried > 0 && delivered {
        return DialStep::Delivered;
    }
    let eps = peer_endpoints(peer);
    if tried < eps.len() {
        DialStep::Dial(eps[tried].0, eps[tried].1)
    } else if eps.len() == 0 {
        DialStep::NoEndpoint
    } else {
        DialStep::Failed
    }
}

// ── fanout ───────────────────────────────────────────────────────────────

/// What became of one peer in a fanout.
#[derive(Clone, Copy, PartialEq, Eq, Debug, Structural)]
pub enum PeerSend {
    NoEndpoint,
    NoEpoch,
    SignFailed,
    DialFailed,
    Contacted,
}

/// Outcome of one claim fanout.
#[derive(Clone, Copy, PartialEq, Eq, Debug, Structural)]
pub struct FanoutResult {
    /// Peers that took the frame.
    pub contacted: usize,
    /// Peers without a usable endpoint.
    pub skipped_no_endpoint: usize,
    /// Peers with an endpoint whose epoch is unknown.
    pub skipped_no_epoch: usize,
    /// Frames that could not be signed.
    pub sign_failed: usize,
    /// Signed frames that could not be delivered.
    pub dial_failed: usize,
}

impl Default for FanoutResult {
    fn default() -> (res: Self)
        ensures
            res == (FanoutResult {
                contacted: 0,
                skipped_no_endpoint: 0,
                skipped_no_epoch: 0,
                sign_failed: 0,
                dial_failed: 0,
            }),
    {
        FanoutResult {
            contacted: 0,
            skipped_no_endpoint: 0,
            skipped_no_epoch: 0,
            sign_failed: 0,
            dial_failed: 0,
        }
    }
}

/// Whether a peer can be sent an addressed frame.
pub open spec fn addressable(p: PeerModel) -> bool {
    p.dns_epoch is Some && endpoints(p).len() > 0
}

/// Why a peer is left out of a fanout; nothing for a peer to sign a frame for.
pub open spec fn left_out(p: PeerModel) -> Option<PeerSend> {
    if endpoints(p).len() == 0 {
        Some(PeerSend::NoEndpoint)
    } else if p.dns_epoch is None {
        Some(PeerSend::NoEpoch)
    } else {
        None
    }
}

/// Why a peer is left out of a fanout; nothing for a peer to sign a frame for.
pub fn fanout_skip(peer: &ClaimPeer) -> (res: Option<PeerSend>)
    ensures
        res == left_out(peer@),
        res is None <==> addressable(peer@),
{
    if peer_endpoints(peer).len() == 0 {
        return Some(PeerSend::NoEndpoint);
    }
    match peer.dns_epoch {
        Some(_) => None,
        None => Some(PeerSend::NoEpoch),
    }
}

/// What a fanout does about one peer.
#[derive(PartialEq, Eq, Debug)]
#[verifier::ext_equal]
pub enum FanoutStep<T> {
    Skip(PeerSend),
    /// Sign a frame that is addressed to this recipient in this epoch, and dial.
    Address { recipient: T, epoch: T },
}

impl View for FanoutStep<String> {
    type V = FanoutStep<Seq<char>>;

    open spec fn view(&self) -> FanoutStep<Seq<char>> {
        match *self {
            FanoutStep::Skip(why) => FanoutStep::Skip(why),
            FanoutStep::Address { recipient, epoch } => FanoutStep::Address {
                recipient: recipient@,
                epoch: epoch@,
            },
        }
    }
}

/// What a fanout does about a peer: its frame is addressed to the peer itself, in
/// the peer's own epoch.
pub open spec fn fanout_step(p: PeerModel) -> FanoutStep<Seq<char>> {
    match left_out(p) {
        Some(why) => FanoutStep::Skip(why),
        None => FanoutStep::Address { recipient: p.instance_id, epoch: p.dns_epoch->0 },
    }
}

/// Plan a fanout: one step for each peer, in order.
pub fn fanout_plan(peers: &Vec<ClaimPeer>) -> (steps: Vec<FanoutStep<String>>)
    ensures
        steps@.len() == peers@.len(),
        forall|i: int| 0 <= i < peers@.len() ==> (#[trigger] steps@[i])@ == fanout_step(peers@[i]@),
{
    let mut steps: Vec<FanoutStep<String>> = Vec::new();
    let mut i: usize = 0;
    while i < peers.len()
        invariant
            i <= peers@.len(),
            steps@.len() == i,
            forall|j: int| 0 <= j < i ==> (#[trigger] steps@[j])@ == fanout_step(peers@[j]@),
        decreases peers@.len() - i,
    {
        let step = match (fanout_skip(&peers[i]), &peers[i].dns_epoch) {
            (Some(why), _) => FanoutStep::Skip(why),
            (None, Some(epoch)) => FanoutStep::Address {
                recipient: peers[i].instance_id.clone(),
                epoch: epoch.clone(),
            },
            (None, None) => FanoutStep::Skip(PeerSend::NoEpoch),
        };
        steps.push(step);
        i = i + 1;
    }
    steps
}

/// What became of a frame.
#[derive(Clone, Copy, PartialEq, Eq, Debug, Structural)]
pub enum SendReport {
    SignFailed,
    DialFailed,
    Delivered,
}

/// What became of a peer in a fanout. A frame of which nothing is reported was
/// not delivered.
pub open spec fn peer_outcome(p: PeerModel, report: Option<SendReport>) -> PeerSend {
    match left_out(p) {
        Some(why) => why,
        None => match report {
            Some(SendReport::SignFailed) => PeerSend::SignFailed,
            Some(SendReport::Delivered) => PeerSend::Contacted,
            _ => PeerSend::DialFailed,
        },
    }
}

/// The report about the peer at `i`, if there is one.
pub open spec fn report_at(reports: Seq<SendReport>, i: int) -> Option<SendReport> {
    if 0 <= i < reports.len() {
        Some(reports[i])
    } else {
        None
    }
}

/// What became of each peer in a fanout.
pub open spec fn fanout_outcomes(peers: Seq<PeerModel>, reports: Seq<SendReport>) -> Seq<PeerSend> {
    Seq::new(peers.len(), |i: int| peer_outcome(peers[i], report_at(reports, i)))
}

/// Whether an outcome is `what`.
pub open spec fn is_outcome(what: PeerSend) -> spec_fn(PeerSend) -> bool {
    |s: PeerSend| s == what
}

/// How often an outcome occurs.
pub open spec fn tally(sends: Seq<PeerSend>, what: PeerSend) -> nat {
    sends.filter(is_outcome(what)).len()
}

/// The outcome of a fanout over `peers`. `reports` holds, at a peer's place, what
/// became of the frame that was addressed to it; there is one outcome per peer,
/// and one that was left out counts as such whatever is reported of it.
pub fn fanout_request(peers: &Vec<ClaimPeer>, reports: &Vec<SendReport>) -> (res: FanoutResult)
    ensures
        ({
            let sends = fanout_outcomes(peer_models(peers@), reports@);
            &&& res.contacted == tally(sends, PeerSend::Contacted)
            &&& res.skipped_no_endpoint == tally(sends, PeerSend::NoEndpoint)
            &&& res.skipped_no_epoch == tally(sends, PeerSend::NoEpoch)
            &&& res.sign_failed == tally(sends, PeerSend::SignFailed)
            &&& res.dial_failed == tally(sends, PeerSend::DialFailed)
        }),
        res.contacted + res.skipped_no_endpoint + res.skipped_no_epoch + res.sign_failed
            + res.dial_failed == peers@.len(),
{
    let ghost models = peer_models(peers@);
    let ghost wanted = fanout_outcomes(models, reports@);
    let mut sends: Vec<PeerSend> = Vec::new();
    let mut i: usize = 0;
    while i < peers.len()
        invariant
            i <= peers@.len(),
            models == peer_models(peers@),
            wanted == fanout_outcomes(models, reports@),
            sends@.len() == i,
            forall|j: int| 0 <= j < i ==> #[trigger] sends@[j] == wanted[j],
        decreases peers@.len() - i,
    {
        assert(models[i as int] == peers@[i as int]@);
        let outcome = match fanout_skip(&peers[i]) {
            Some(why) => why,
            None => if i < reports.len() {
                match reports[i] {
                    SendReport::SignFailed => PeerSend::SignFailed,
                    SendReport::DialFailed => PeerSend::DialFailed,
                    SendReport::Delivered => PeerSend::Contacted,
                }
            } else {
                PeerSend::DialFailed
            },
        };
        sends.push(outcome);
        i = i + 1;
    }
    assert(sends@ =~= wanted);
    count_outcomes(&sends)
}

/// Count some outcomes.
fn count_outcomes(sends: &Vec<PeerSend>) -> (res: FanoutResult)
    ensures
        res.contacted == tally(sends@, PeerSend::Contacted),
        res.skipped_no_endpoint == tally(sends@, PeerSend::NoEndpoint),
        res.skipped_no_epoch == tally(sends@, PeerSend::NoEpoch),
        res.sign_failed == tally(sends@, PeerSend::SignFailed),
        res.dial_failed == tally(sends@, PeerSend::DialFailed),
        res.contacted + res.skipped_no_endpoint + res.skipped_no_epoch + res.sign_failed
            + res.dial_failed == sends@.len(),
{
    let mut res = FanoutResult::default();
    let mut i: usize = 0;
    proof {
        reveal(Seq::filter);
        assert(sends@.take(0) =~= Seq::<PeerSend>::empty());
    }
    while i < sends.len()
        invariant
            i <= sends@.len(),
            res.contacted == tally(sends@.take(i as int), PeerSend::Contacted),
            res.skipped_no_endpoint == tally(sends@.take(i as int), PeerSend::NoEndpoint),
            res.skipped_no_epoch == tally(sends@.take(i as int), PeerSend::NoEpoch),
            res.sign_failed == tally(sends@.take(i as int), PeerSend::SignFailed),
            res.dial_failed == tally(sends@.take(i as int), PeerSend::DialFailed),
            res.contacted + res.skipped_no_endpoint + res.skipped_no_epoch + res.sign_failed
                + res.dial_failed == i,
        decreases sends@.len() - i,
    {
        proof {
            let k = i as int;
            seqs::lemma_filter_step(sends@, k, is_outcome(PeerSend::Contacted));
            seqs::lemma_filter_step(sends@, k, is_outcome(PeerSend::NoEndpoint));
            seqs::lemma_filter_step(sends@, k, is_outcome(PeerSend::NoEpoch));
            seqs::lemma_filter_step(sends@, k, is_outcome(PeerSend::SignFailed));
            seqs::lemma_filter_step(sends@, k, is_outcome(PeerSend::DialFailed));
        }
        match sends[i] {
            PeerSend::Contacted => {
                res.contacted = res.contacted + 1;
            },
            PeerSend::NoEndpoint => {
                res.skipped_no_endpoint = res.skipped_no_endpoint + 1;
            },
            PeerSend::NoEpoch => {
                res.skipped_no_epoch = res.skipped_no_epoch + 1;
            },
            PeerSend::SignFailed => {
                res.sign_failed = res.sign_failed + 1;
            },
            PeerSend::DialFailed => {
                res.dial_failed = res.dial_failed + 1;
            },
        }
        i = i + 1;
    }
    proof {
        seqs::lemma_take_all(sends@);
    }
    res
}

/// The number of peers that can be sent an addressed frame.
pub fn addressable_peer_count(peers: &Vec<ClaimPeer>) -> (n: usize)
    ensures
        n == peer_models(peers@).filter(|p: PeerModel| addressable(p)).len(),
{
    let mut n: usize = 0;
    let mut i: usize = 0;
    let ghost models = peer_models(peers@);
    let ghost f = |p: PeerModel| addressable(p);
    proof {
        seqs::lemma_take_none(models, f);
    }
    while i < peers.len()
        invariant
            i <= peers@.len(),
            n <= i,
            models == peer_models(peers@),
            f == (|p: PeerModel| addressable(p)),
            n == models.take(i as int).filter(f).len(),
        decreases peers@.len() - i,
    {
        proof {
            seqs::lemma_filter_step(models, i as int, f);
            assert(models[i as int] == peers@[i as int]@);
        }
        if fanout_skip(&peers[i]).is_none() {
            n = n + 1;
        }
        i = i + 1;
    }
    proof {
        seqs::lemma_take_all(models);
    }
    n
}

// ── connection rate ──────────────────────────────────────────────────────

/// The recent connections of one address, oldest first.
pub struct RateEntry {
    pub ip: Ip,
    pub seen: Vec<Nanos>,
}

/// The recent connections of every address.
pub struct ConnectionRates {
    entries: Vec<RateEntry>,
}

/// The connections that are still within the window: the expired ones at the
/// front are gone.
pub open spec fn unexpired(seen: Seq<Nanos>, now: Nanos) -> Seq<Nanos>
    decreases seen.len(),
{
    if seen.len() > 0 && clock::elapsed(seen[0], now) >= RATE_WINDOW {
        unexpired(seen.skip(1), now)
    } else {
        seen
    }
}

/// The connections of every address that are still within the window; an address
/// with none is not listed.
pub open spec fn pruned(rates: Map<Ip, Seq<Nanos>>, now: Nanos) -> Map<Ip, Seq<Nanos>> {
    Map::new(
        |ip: Ip| rates.contains_key(ip) && unexpired(rates[ip], now).len() > 0,
        |ip: Ip| unexpired(rates[ip], now),
    )
}

/// The recent connections of an address.
pub open spec fn seen_from(rates: Map<Ip, Seq<Nanos>>, ip: Ip) -> Seq<Nanos> {
    if rates.contains_key(ip) {
        rates[ip]
    } else {
        Seq::empty()
    }
}

/// Whether an address may connect at `now`.
pub open spec fn may_connect(rates: Map<Ip, Seq<Nanos>>, ip: Ip, now: Nanos) -> bool {
    seen_from(pruned(rates, now), ip).len() < MAX_CONNECTIONS_PER_IP_MINUTE
}

/// The recent connections after an attempt of `ip` at `now`.
pub open spec fn rates_after(rates: Map<Ip, Seq<Nanos>>, ip: Ip, now: Nanos) -> Map<Ip, Seq<Nanos>> {
    let p = pruned(rates, now);
    if may_connect(rates, ip, now) {
        p.insert(ip, seen_from(p, ip).push(now))
    } else {
        p
    }
}

spec fn rate_pairs(entries: Seq<RateEntry>) -> Seq<(Ip, Seq<Nanos>)> {
    entries.map_values(|e: RateEntry| (e.ip, e.seen@))
}

fn drop_expired(seen: &Vec<Nanos>, now: Nanos) -> (out: Vec<Nanos>)
    ensures
        out@ == unexpired(seen@, now),
{
    let mut start: usize = 0;
    assert(seen@.skip(0) =~= seen@);
    while start < seen.len() && elapsed_since(seen[start], now) >= RATE_WINDOW
        invariant
            start <= seen@.len(),
            unexpired(seen@, now) == unexpired(seen@.skip(start as int), now),
        decreases seen@.len() - start,
    {
        assert(seen@.skip(start as int).skip(1) =~= seen@.skip(start + 1));
        start = start + 1;
    }
    let ghost rest = seen@.skip(start as int);
    assert(unexpired(rest, now) == rest);
    let mut out: Vec<Nanos> = Vec::new();
    let mut i: usize = start;
    while i < seen.len()
        invariant
            start <= i <= seen@.len(),
            out@ == seen@.subrange(start as int, i as int),
        decreases seen@.len() - i,
    {
        out.push(seen[i]);
        assert(out@ =~= seen@.subrange(start as int, i + 1));
        i = i + 1;
    }
    assert(out@ =~= rest);
    out
}

impl View for ConnectionRates {
    type V = Map<Ip, Seq<Nanos>>;

    closed spec fn view(&self) -> Map<Ip, Seq<Nanos>> {
        seqs::assoc(rate_pairs(self.entries@))
    }
}

impl ConnectionRates {
    /// No address is listed twice.
    pub closed spec fn well_formed(&self) -> bool {
        seqs::keys_distinct(rate_pairs(self.entries@))
    }

    /// Nobody has connected yet.
    pub fn new() -> (res: Self)
        ensures
            res.well_formed(),
            res@ == Map::<Ip, Seq<Nanos>>::empty(),
    {
        ConnectionRates { entries: Vec::new() }
    }

    /// The number of addresses that are listed.
    pub fn address_count(&self) -> (n: usize)
        requires
            self.well_formed(),
        ensures
            n == self@.dom().len(),
    {
        proof {
            lemma_assoc_len(rate_pairs(self.entries@));
        }
        self.entries.len()
    }

    /// Whether an address may connect now; if so the connection is noted.
    pub fn allow_ip(&mut self, ip: Ip, now: Nanos) -> (res: bool)
        requires
            old(self).well_formed(),
        ensures
            final(self).well_formed(),
            res == may_connect(old(self)@, ip, now),
            final(self)@ == rates_after(old(self)@, ip, now),
    {
        let ghost all = rate_pairs(self.entries@);
        let ghost goal = pruned(seqs::assoc(all), now);
        let mut kept: Vec<RateEntry> = Vec::new();
        let mut at: Option<usize> = None;
        let mut i: usize = 0;
        proof {
            assert(all.take(0) =~= Seq::<(Ip, Seq<Nanos>)>::empty());
            assert(rate_pairs(kept@) =~= Seq::<(Ip, Seq<Nanos>)>::empty());
            assert(pruned(Map::<Ip, Seq<Nanos>>::empty(), now) =~= Map::<Ip, Seq<Nanos>>::empty());
        }
        while i < self.entries.len()
            invariant
                i <= self.entries@.len(),
                all == rate_pairs(self.entries@),
                seqs::keys_distinct(all),
                seqs::keys_distinct(rate_pairs(kept@)),
                seqs::assoc(rate_pairs(kept@)) == pruned(seqs::assoc(all.take(i as int)), now),
                forall|k: int|
                    0 <= k < kept@.len() ==> exists|j: int|
                        0 <= j < i && (#[trigger] kept@[k]).ip == (#[trigger] all[j]).0,
                match at {
                    Some(a) => a < kept@.len() && kept@[a as int].ip == ip,
                    None => forall|k: int| 0 <= k < kept@.len() ==> (#[trigger] kept@[k]).ip != ip,
                },
            decreases self.entries@.len() - i,
        {
            let e = &self.entries[i];
            let ghost pairs0 = rate_pairs(kept@);
            let ghost kept0 = kept@;
            let ghost shorter = seqs::assoc(all.take(i as int));
            let ghost longer = seqs::assoc(all.take(i + 1));
            let seen = drop_expired(&e.seen, now);
            proof {
                assert(all[i as int] == (e.ip, e.seen@));
                assert(all.take(i + 1).drop_last() =~= all.take(i as int));
                assert(longer == shorter.insert(e.ip, e.seen@));
                assert forall|k: int| 0 <= k < pairs0.len() implies (#[trigger] pairs0[k]).0
                    != e.ip by {
                    assert(pairs0[k].0 == kept0[k].ip);
                    let j = choose|j: int| 0 <= j < i && kept0[k].ip == (#[trigger] all[j]).0;
                    assert(all[j].0 != all[i as int].0);
                }
                seqs::lemma_assoc_push(pairs0, e.ip, seen@);
            }
            let ghost pushed = seen@;
            if seen.len() > 0 {
                if e.ip == ip {
                    at = Some(kept.len());
                }
                kept.push(RateEntry { ip: e.ip, seen });
                assert(rate_pairs(kept@) =~= pairs0.push((e.ip, pushed)));
                assert(pruned(longer, now) =~= pruned(shorter, now).insert(e.ip, pushed));
            } else {
                assert(!pruned(shorter, now).contains_key(e.ip));
                assert(pruned(longer, now) =~= pruned(shorter, now));
            }
            proof {
                assert forall|k: int| 0 <= k < kept@.len() implies exists|j: int|
                    0 <= j < i + 1 && (#[trigger] kept@[k]).ip == (#[trigger] all[j]).0 by {
                    if k < kept0.len() {
                        let j = choose|j: int| 0 <= j < i && kept0[k].ip == (#[trigger] all[j]).0;
                        assert(kept@[k].ip == all[j].0);
                    } else {
                        assert(kept@[k].ip == all[i as int].0);
                    }
                }
            }
            i = i + 1;
        }
        let ghost pairs = rate_pairs(kept@);
        proof {
            seqs::lemma_take_all(all);
            seqs::lemma_assoc(pairs);
        }
        match at {
            Some(a) => {
                assert(pairs[a as int].0 == ip);
                if kept[a].seen.len() >= MAX_CONNECTIONS_PER_IP_MINUTE {
                    self.entries = kept;
                    return false;
                }
                let mut seen = drop_expired(&kept[a].seen, now);
                proof {
                    lemma_unexpired_twice(all, pairs, ip, now);
                }
                seen.push(now);
                let ghost v = seen@;
                kept.set(a, RateEntry { ip, seen });
                proof {
                    assert(rate_pairs(kept@) =~= pairs.update(a as int, (pairs[a as int].0, v)));
                    seqs::lemma_assoc_update(pairs, a as int, v);
                }
            },
            None => {
                let mut seen: Vec<Nanos> = Vec::new();
                seen.push(now);
                let ghost v = seen@;
                proof {
                    assert forall|k: int| 0 <= k < pairs.len() implies (#[trigger] pairs[k]).0
                        != ip by {
                        assert(pairs[k].0 == kept@[k].ip);
                    }
                    seqs::lemma_assoc_push(pairs, ip, v);
                    assert(v =~= Seq::<Nanos>::empty().push(now));
                }
                kept.push(RateEntry { ip, seen });
                assert(rate_pairs(kept@) =~= pairs.push((ip, v)));
            },
        }
        self.entries = kept;
        true
    }

    /// Whether a connection is let in to prove itself: its address is within its
    /// rate, and fewer connections than the limit are being proved. The rate
    /// counts a connection that finds no room.
    pub fn accept_connection(&mut self, ip: Ip, now: Nanos, proving: usize) -> (res: bool)
        requires
            old(self).well_formed(),
        ensures
            final(self).well_formed(),
            res == (may_connect(old(self)@, ip, now) && proving < MAX_PREAUTH_CONNECTIONS),
            final(self)@ == rates_after(old(self)@, ip, now),
    {
        let allowed = self.allow_ip(ip, now);
        allowed && proving < MAX_PREAUTH_CONNECTIONS
    }
}

proof fn lemma_unexpired_idempotent(seen: Seq<Nanos>, now: Nanos)
    ensures
        unexpired(unexpired(seen, now), now) == unexpired(seen, now),
    decreases seen.len(),
{
    if seen.len() > 0 && clock::elapsed(seen[0], now) >= RATE_WINDOW {
        lemma_unexpired_idempotent(seen.skip(1), now);
    }
}

proof fn lemma_unexpired_twice(
    all: Seq<(Ip, Seq<Nanos>)>,
    pairs: Seq<(Ip, Seq<Nanos>)>,
    ip: Ip,
    now: Nanos,
)
    requires
        seqs::assoc(pairs) == pruned(seqs::assoc(all), now),
        seqs::assoc(pairs).contains_key(ip),
    ensures
        unexpired(seqs::assoc(pairs)[ip], now) == seqs::assoc(pairs)[ip],
{
    lemma_unexpired_idempotent(seqs::assoc(all)[ip], now);
}

proof fn lemma_assoc_len<K, V>(s: Seq<(K, V)>)
    requires
        seqs::keys_distinct(s),
    ensures
        seqs::assoc(s).dom().finite(),
        seqs::assoc(s).dom().len() == s.len(),
    decreases s.len(),
{
    if s.len() > 0 {
        let front = s.drop_last();
        assert forall|i: int, j: int| 0 <= i < j < front.len() implies (#[trigger] front[i]).0 != (
        #[trigger] front[j]).0 by {
            assert(front[i] == s[i] && front[j] == s[j]);
        }
        lemma_assoc_len(front);
        seqs::lemma_assoc(front);
        if seqs::assoc(front).contains_key(s.last().0) {
            let i = choose|i: int| 0 <= i < front.len() && (#[trigger] front[i]).0 == s.last().0;
            assert(s[i].0 == s[s.len() - 1].0);
        }
        assert(seqs::assoc(s).dom() =~= seqs::assoc(front).dom().insert(s.last().0));
    } else {
        assert(seqs::assoc(s).dom() =~= Set::<K>::empty());
    }
}

// ── the listener ─────────────────────────────────────────────────────────

/// The port to bind to; zero stands for any.
pub fn normalize_port(port: Option<u16>) -> (res: Option<u16>)
    ensures
        res == (if port == Some(0u16) {
            None
        } else {
            port
        }),
{
    match port {
        Some(p) => if p == 0 {
            None
        } else {
            Some(p)
        },
        None => None,
    }
}

/// The listener's supervisor.
#[derive(Clone, Copy, PartialEq, Eq, Debug, Structural)]
pub struct Supervisor {
    pub bind_address: Ip,
    pub fixed_port: Option<u16>,
    pub enabled: bool,
    pub provisional_hold: bool,
    /// The port listened on, while the listener is up.
    pub listening: Option<u16>,
}

/// A request to the supervisor.
#[derive(Clone, Copy, PartialEq, Eq, Debug, Structural)]
pub enum Command {
    /// Bring the listener up and hold it.
    Ensure,
    /// Give up the hold.
    Release,
    /// Apply a new configuration.
    Update { enabled: bool, address: Ip, port: Option<u16> },
    /// Stop for good.
    Shutdown,
}

/// What a bind is for.
#[derive(Clone, Copy, PartialEq, Eq, Debug, Structural)]
pub enum BindGoal {
    /// Answer a request to bring the listener up.
    Ensure,
    /// Bring the listener up as the state calls for; nobody waits.
    Reconcile,
    /// Bring the listener up as a new configuration calls for.
    Apply,
    /// Replace the running listener under a new configuration.
    Replace { address: Ip, port: Option<u16> },
}

/// What the supervisor does next.
#[derive(Clone, Copy, PartialEq, Eq, Debug, Structural)]
pub enum SupervisorAction {
    /// Nothing to answer.
    Done,
    /// Bind to this address and port and report the result for `goal`.
    Bind { address: Ip, port: Option<u16>, goal: BindGoal },
    /// Answer with the listening port.
    AnswerPort(u16),
    /// Answer that all is well.
    AnswerOk,
    /// Answer that coordination is disabled.
    AnswerDisabled,
    /// Answer with the error of the bind.
    AnswerBindFailed,
    /// Answer and stop.
    Stop,
}

/// Whether the listener is to be up.
pub open spec fn wants_listener(s: Supervisor, has_peers: bool) -> bool {
    s.enabled && (has_peers || s.provisional_hold)
}

/// The state and action of bringing the listener in line with the state.
pub open spec fn reconciled(
    s: Supervisor,
    has_peers: bool,
    goal: BindGoal,
    done: SupervisorAction,
) -> (Supervisor, SupervisorAction) {
    if wants_listener(s, has_peers) {
        if s.listening is Some {
            (s, done)
        } else {
            (s, SupervisorAction::Bind { address: s.bind_address, port: s.fixed_port, goal })
        }
    } else {
        (Supervisor { listening: None, ..s }, done)
    }
}

/// The state and action after a command.
pub open spec fn commanded(s: Supervisor, command: Command, has_peers: bool) -> (
    Supervisor,
    SupervisorAction,
) {
    match command {
        Command::Ensure => if !s.enabled {
            (s, SupervisorAction::AnswerDisabled)
        } else {
            let held = Supervisor { provisional_hold: true, ..s };
            match s.listening {
                Some(port) => (held, SupervisorAction::AnswerPort(port)),
                None => (
                    held,
                    SupervisorAction::Bind {
                        address: s.bind_address,
                        port: s.fixed_port,
                        goal: BindGoal::Ensure,
                    },
                ),
            }
        },
        Command::Release => reconciled(
            Supervisor { provisional_hold: false, ..s },
            has_peers,
            BindGoal::Reconcile,
            SupervisorAction::Done,
        ),
        Command::Update { enabled, address, port } => if s.enabled == enabled && s.bind_address
            == address && s.fixed_port == port {
            (s, SupervisorAction::AnswerOk)
        } else if enabled && s.listening is Some {
            (
                s,
                SupervisorAction::Bind {
                    address,
                    port,
                    goal: BindGoal::Replace { address, port },
                },
            )
        } else {
            reconciled(
                Supervisor { enabled, bind_address: address, fixed_port: port, ..s },
                has_peers,
                BindGoal::Apply,
                SupervisorAction::AnswerOk,
            )
        },
        Command::Shutdown => (Supervisor { listening: None, ..s }, SupervisorAction::Stop),
    }
}

/// The state and action after a bind.
pub open spec fn bound_to(s: Supervisor, goal: BindGoal, result: Option<u16>, has_peers: bool) -> (
    Supervisor,
    SupervisorAction,
) {
    match result {
        Some(port) => {
            let up = Supervisor { listening: Some(port), ..s };
            match goal {
                BindGoal::Ensure => (up, SupervisorAction::AnswerPort(port)),
                BindGoal::Reconcile => (up, SupervisorAction::Done),
                BindGoal::Apply => (up, SupervisorAction::AnswerOk),
                BindGoal::Replace { address, port } => reconciled(
                    Supervisor {
                        enabled: true,
                        bind_address: address,
                        fixed_port: port,
                        ..up
                    },
                    has_peers,
                    BindGoal::Apply,
                    SupervisorAction::AnswerOk,
                ),
            }
        },
        None => match goal {
            BindGoal::Reconcile => (s, SupervisorAction::Done),
            _ => (s, SupervisorAction::AnswerBindFailed),
        },
    }
}

impl Supervisor {
    /// A supervisor whose listener is down.
    pub fn new(bind_address: Ip, fixed_port: Option<u16>, enabled: bool) -> (res: Self)
        ensures
            res.bind_address == bind_address,
            res.fixed_port == (if fixed_port == Some(0u16) {
                None
            } else {
                fixed_port
            }),
            res.enabled == enabled,
            !res.provisional_hold,
            res.listening is None,
    {
        Supervisor {
            bind_address,
            fixed_port: normalize_port(fixed_port),
            enabled,
            provisional_hold: false,
            listening: None,
        }
    }

    /// Close the listener.
    pub fn stop_listener(&mut self)
        ensures
            *final(self) == (Supervisor { listening: None, ..*old(self) }),
    {
        self.listening = None;
    }

    /// Bring the listener in line with the state: up while coordination is
    /// enabled and there are peers or a hold, down otherwise.
    pub fn reconcile_listener(&mut self, has_peers: bool, goal: BindGoal, done: SupervisorAction) -> (
        action: SupervisorAction)
        ensures
            (*final(self), action) == reconciled(*old(self), has_peers, goal, done),
    {
        if self.enabled && (has_peers || self.provisional_hold) {
            self.ensure_bound(goal, done)
        } else {
            self.stop_listener();
            done
        }
    }

    /// Bind unless the listener is up.
    fn ensure_bound(&self, goal: BindGoal, done: SupervisorAction) -> (action: SupervisorAction)
        ensures
            action == (if self.listening is Some {
                done
            } else {
                SupervisorAction::Bind { address: self.bind_address, port: self.fixed_port, goal }
            }),
    {
        match self.listening {
            Some(_) => done,
            None => SupervisorAction::Bind {
                address: self.bind_address,
                port: self.fixed_port,
                goal,
            },
        }
    }

    /// Take up a request.
    pub fn handle_command(&mut self, command: Command, has_peers: bool) -> (action:
        SupervisorAction)
        ensures
            (*final(self), action) == commanded(*old(self), command, has_peers),
    {
        match command {
            Command::Ensure => {
                if !self.enabled {
                    return SupervisorAction::AnswerDisabled;
                }
                self.provisional_hold = true;
                match self.listening {
                    Some(port) => SupervisorAction::AnswerPort(port),
                    None => self.ensure_bound(BindGoal::Ensure, SupervisorAction::Done),
                }
            },
            Command::Release => {
                self.provisional_hold = false;
                self.reconcile_listener(has_peers, BindGoal::Reconcile, SupervisorAction::Done)
            },
            Command::Update { enabled, address, port } => {
                self.update_config(enabled, address, port, has_peers)
            },
            Command::Shutdown => {
                self.stop_listener();
                SupervisorAction::Stop
            },
        }
    }

    /// Apply a new configuration. A running listener is replaced only once its
    /// successor is bound.
    pub fn update_config(
        &mut self,
        enabled: bool,
        address: Ip,
        port: Option<u16>,
        has_peers: bool,
    ) -> (action: SupervisorAction)
        ensures
            (*final(self), action) == commanded(
                *old(self),
                Command::Update { enabled, address, port },
                has_peers,
            ),
    {
        let same_port = match (self.fixed_port, port) {
            (Some(a), Some(b)) => a == b,
            (None, None) => true,
            _ => false,
        };
        if self.enabled == enabled && self.bind_address == address && same_port {
            return SupervisorAction::AnswerOk;
        }
        if enabled && self.listening.is_some() {
            return SupervisorAction::Bind {
                address,
                port,
                goal: BindGoal::Replace { address, port },
            };
        }
        self.bind_address = address;
        self.fixed_port = port;
        self.enabled = enabled;
        self.reconcile_listener(has_peers, BindGoal::Apply, SupervisorAction::AnswerOk)
    }

    /// Take up the result of a bind: the port, or nothing where it failed.
    pub fn bound(&mut self, goal: BindGoal, result: Option<u16>, has_peers: bool) -> (action:
        SupervisorAction)
        ensures
            (*final(self), action) == bound_to(*old(self), goal, result, has_peers),
    {
        match result {
            Some(port) => {
                self.listening = Some(port);
                match goal {
                    BindGoal::Ensure => SupervisorAction::AnswerPort(port),
                    BindGoal::Reconcile => SupervisorAction::Done,
                    BindGoal::Apply => SupervisorAction::AnswerOk,
                    BindGoal::Replace { address, port } => {
                        self.bind_address = address;
                        self.fixed_port = port;
                        self.enabled = true;
                        self.reconcile_listener(
                            has_peers,
                            BindGoal::Apply,
                            SupervisorAction::AnswerOk,
                        )
                    },
                }
            },
            None => match goal {
                BindGoal::Reconcile => SupervisorAction::Done,
                _ => SupervisorAction::AnswerBindFailed,
            },
        }
    }
}

// ── inbound frames ───────────────────────────────────────────────────────

/// What was read off an inbound connection.
pub enum FrameRead {
    /// A frame that claims this sender.
    Frame { sender_instance_id: String },
    /// Bytes that are no frame.
    Invalid,
    /// Nothing in time.
    Timeout,
}

/// Why an inbound frame is turned away.
#[derive(Clone, Copy, PartialEq, Eq, Debug, Structural)]
pub enum Rejection {
    InvalidFrame,
    ReadTimeout,
    UnknownPeer,
    /// The signature or the addressing does not hold.
    NotVerified,
    StaleCounterOrNonce,
}

/// The reason that is logged; the verifier words its own.
pub open spec fn rejection_text(r: Rejection) -> Option<Seq<char>> {
    match r {
        Rejection::InvalidFrame => Some("invalid_frame"@),
        Rejection::ReadTimeout => Some("read_timeout"@),
        Rejection::UnknownPeer => Some("unknown_peer"@),
        Rejection::NotVerified => None,
        Rejection::StaleCounterOrNonce => Some("stale_counter_or_nonce"@),
    }
}

/// The reason that is logged; the verifier words its own.
pub fn reject(r: Rejection) -> (res: Option<&'static str>)
    ensures
        match res {
            Some(s) => rejection_text(r) == Some(s@),
            None => rejection_text(r) is None,
        },
{
    match r {
        Rejection::InvalidFrame => Some("invalid_frame"),
        Rejection::ReadTimeout => Some("read_timeout"),
        Rejection::UnknownPeer => Some("unknown_peer"),
        Rejection::NotVerified => None,
        Rejection::StaleCounterOrNonce => Some("stale_counter_or_nonce"),
    }
}

/// The first peer of an identity.
pub open spec fn peer_named(peers: Seq<PeerModel>, id: Seq<char>) -> Option<PeerModel> {
    if has_peer(peers, id) {
        Some(peers[choose|i: int| is_first_peer(peers, id, i)])
    } else {
        None
    }
}

/// A frame that is to be verified under a peer's record.
pub struct Authenticating {
    pub sender_instance_id: String,
    pub record: PeerRecord,
}

/// The record under which an inbound frame is to be verified, or why the frame is
/// turned away before.
pub open spec fn record_for(read: FrameRead, peers: Seq<PeerModel>) -> Result<
    RecordModel,
    Rejection,
> {
    match read {
        FrameRead::Invalid => Err(Rejection::InvalidFrame),
        FrameRead::Timeout => Err(Rejection::ReadTimeout),
        FrameRead::Frame { sender_instance_id } => match peer_named(peers, sender_instance_id@) {
            None => Err(Rejection::UnknownPeer),
            Some(p) => if p.verifying_key.len() != 32 {
                Err(Rejection::NotVerified)
            } else {
                Ok(record_of(p))
            },
        },
    }
}

/// Take up what was read off a connection. A frame is to be verified under the
/// record of the peer that it claims to come from.
pub fn authenticate_connection(read: FrameRead, peers: &Vec<ClaimPeer>) -> (res: Result<
    Authenticating,
    Rejection,
>)
    ensures
        match res {
            Ok(next) => {
                &&& record_for(read, peer_models(peers@)) == Ok::<RecordModel, Rejection>(
                    next.record@,
                )
                &&& read == (FrameRead::Frame { sender_instance_id: next.sender_instance_id })
                &&& next.record@.instance_id == next.sender_instance_id@
            },
            Err(r) => record_for(read, peer_models(peers@)) == Err::<RecordModel, Rejection>(r),
        },
{
    let ghost models = peer_models(peers@);
    match read {
        FrameRead::Invalid => Err(Rejection::InvalidFrame),
        FrameRead::Timeout => Err(Rejection::ReadTimeout),
        FrameRead::Frame { sender_instance_id } => match find_peer(
            peers,
            sender_instance_id.as_str(),
        ) {
            Some(i) => {
                proof {
                    let id = sender_instance_id@;
                    assert(models[i as int] == peers@[i as int]@);
                    assert(has_peer(models, id));
                    let k = choose|k: int| is_first_peer(models, id, k);
                    assert(is_first_peer(models, id, k));
                    assert(models[k].instance_id == id);
                    assert(k == i);
                }
                if peers[i].verifying_key.len() != 32 {
                    return Err(Rejection::NotVerified);
                }
                let record = peer_record(&peers[i]);
                Ok(Authenticating { sender_instance_id, record })
            },
            None => Err(Rejection::UnknownPeer),
        },
    }
}

impl Authenticating {
    /// The frame was verified under the record, or not, and its counter and nonce
    /// are new, or not. What is let through is let through as its sender's.
    pub fn verified(self, verified: bool, fresh: bool) -> (res: Result<String, Rejection>)
        ensures
            match admission(verified, fresh) {
                Ok(_) => res == Ok::<String, Rejection>(self.sender_instance_id),
                Err(r) => res == Err::<String, Rejection>(r),
            },
    {
        match admit_frame(verified, fresh) {
            Ok(()) => Ok(self.sender_instance_id),
            Err(r) => Err(r),
        }
    }
}

/// Whether a frame whose sender is a peer is let through.
pub open spec fn admission(verified: bool, fresh: bool) -> Result<(), Rejection> {
    if !verified {
        Err(Rejection::NotVerified)
    } else if !fresh {
        Err(Rejection::StaleCounterOrNonce)
    } else {
        Ok(())
    }
}

/// Whether a connection's frame is let through as that of `sender`, where
/// `verifies` says under which records the frame verifies.
pub open spec fn admitted(
    read: FrameRead,
    peers: Seq<PeerModel>,
    verifies: spec_fn(RecordModel) -> bool,
    fresh: bool,
    sender: Seq<char>,
) -> bool {
    &&& read matches FrameRead::Frame { sender_instance_id } && sender_instance_id@ == sender
    &&& record_for(read, peers) matches Ok(record) && admission(verifies(record), fresh) is Ok
}

/// Whether a frame whose sender is a peer is let through. The replay window is
/// asked only about frames that were verified.
pub fn admit_frame(verified: bool, fresh: bool) -> (res: Result<(), Rejection>)
    ensures
        res == admission(verified, fresh),
{
    if !verified {
        Err(Rejection::NotVerified)
    } else if !fresh {
        Err(Rejection::StaleCounterOrNonce)
    } else {
        Ok(())
    }
}

// ── laws ─────────────────────────────────────────────────────────────────

/// An endpoint is called verified only where both its address and its port are,
/// and then it is dialed first.
pub proof fn law_verified_endpoint_is_verified(p: PeerModel, i: int)
    requires
        0 <= i < endpoints(p).len(),
        endpoints(p)[i].0 == EndpointKind::Verified,
    ensures
        i == 0,
        p.claim_port is Some,
        p.last_addr is Some,
        endpoints(p)[i].1 == sock_addr(p.last_addr->0.ip, p.claim_port->0),
{
}

/// No advisory data reaches the verified endpoint or the record under which
/// frames are verified.
pub proof fn law_advisory_data_stays_advisory(
    p: PeerModel,
    addr: Option<SockAddr>,
    port: Option<u16>,
    epoch: Option<Seq<char>>,
)
    ensures
        ({
            let q = PeerModel { dns_addr: addr, dns_port: port, dns_epoch: epoch, ..p };
            &&& verified_endpoint(q) == verified_endpoint(p)
            &&& record_of(q) == record_of(p)
            &&& key_ok(q) == key_ok(p)
        }),
{
}

/// A frame is let through exactly where its sender is a known peer with a usable
/// key, the frame verifies under that very peer's record, and it is fresh.
pub proof fn law_admitted_frame_is_its_senders(
    read: FrameRead,
    peers: Seq<PeerModel>,
    verifies: spec_fn(RecordModel) -> bool,
    fresh: bool,
    sender: Seq<char>,
)
    ensures
        admitted(read, peers, verifies, fresh, sender) <==> {
            &&& read matches FrameRead::Frame { sender_instance_id } && sender_instance_id@
                == sender
            &&& peer_named(peers, sender) matches Some(p) && p.verifying_key.len() == 32
                && verifies(record_of(p))
            &&& fresh
        },
        peer_named(peers, sender) matches Some(p) ==> p.instance_id == sender && record_of(
            p,
        ).ed25519_pub == base64_encoded(p.verifying_key),
{
    if has_peer(peers, sender) {
        lemma_first_peer(peers, sender);
        let k = choose|k: int| is_first_peer(peers, sender, k);
        assert(is_first_peer(peers, sender, k));
    }
}

/// A known identity has a first peer.
proof fn lemma_first_peer(peers: Seq<PeerModel>, id: Seq<char>)
    requires
        has_peer(peers, id),
    ensures
        exists|i: int| is_first_peer(peers, id, i),
    decreases peers.len(),
{
    let front = peers.drop_last();
    if has_peer(front, id) {
        lemma_first_peer(front, id);
        let i = choose|i: int| is_first_peer(front, id, i);
        assert forall|j: int| 0 <= j < i implies (#[trigger] peers[j]).instance_id != id by {
            assert(front[j] == peers[j]);
        }
        assert(is_first_peer(peers, id, i));
    } else {
        let last = peers.len() - 1;
        let i = choose|i: int| 0 <= i < peers.len() && (#[trigger] peers[i]).instance_id == id;
        if i < last {
            assert(front[i].instance_id == id);
        }
        assert forall|j: int| 0 <= j < last implies (#[trigger] peers[j]).instance_id != id by {
            assert(front[j] == peers[j]);
        }
        assert(is_first_peer(peers, id, last));
    }
}

/// Every frame of a fanout is addressed to one peer, in that peer's own epoch,
/// and only a peer that is reachable and whose epoch is known is sent one.
pub proof fn law_fanout_frames_are_addressed(p: PeerModel, recipient: Seq<char>, epoch: Seq<char>)
    requires
        fanout_step(p) == (FanoutStep::Address { recipient, epoch }),
    ensures
        recipient == p.instance_id,
        p.dns_epoch == Some(epoch),
        addressable(p),
{
}

/// Every peer made from the records holds a usable key.
pub proof fn law_peers_hold_usable_keys(records: Seq<RecordModel>, i: int)
    requires
        peers_of(records) is Ok,
        0 <= i < records.len(),
    ensures
        (peers_of(records)->Ok_0).len() == records.len(),
        key_ok((peers_of(records)->Ok_0)[i]),
        (peers_of(records)->Ok_0)[i].instance_id == records[i].instance_id,
    decreases records.len(),
{
    if records.len() > 0 {
        let front = records.drop_last();
        if front.len() > 0 {
            if i < front.len() {
                law_peers_hold_usable_keys(front, i);
                assert(front[i] == records[i]);
            } else {
                law_peers_hold_usable_keys(front, 0);
            }
        }
    }
}

/// Publishing keeps every record's identity, key and verified endpoint, whatever
/// advisory endpoints were known.
pub proof fn law_publish_keeps_verified_state(
    records: Seq<RecordModel>,
    before: Seq<PeerModel>,
    i: int,
)
    requires
        peers_of(records) is Ok,
        0 <= i < (peers_of(records)->Ok_0).len(),
    ensures
        published(records, before).len() == (peers_of(records)->Ok_0).len(),
        ({
            let made = (peers_of(records)->Ok_0)[i];
            let live = published(records, before)[i];
            &&& live.instance_id == made.instance_id
            &&& live.verifying_key == made.verifying_key
            &&& live.last_addr == made.last_addr
            &&& live.claim_port == made.claim_port
            &&& verified_endpoint(live) == verified_endpoint(made)
        }),
{
}

/// No address is ever listed with more than the permitted connections.
pub proof fn law_rate_is_bounded(rates: Map<Ip, Seq<Nanos>>, ip: Ip, now: Nanos)
    requires
        forall|k: Ip| #[trigger]
            rates.contains_key(k) ==> rates[k].len() <= MAX_CONNECTIONS_PER_IP_MINUTE,
    ensures
        forall|k: Ip| #[trigger]
            rates_after(rates, ip, now).contains_key(k) ==> rates_after(rates, ip, now)[k].len()
                <= MAX_CONNECTIONS_PER_IP_MINUTE,
{
    assert forall|k: Ip| #[trigger] rates_after(rates, ip, now).contains_key(k) implies rates_after(
        rates,
        ip,
        now,
    )[k].len() <= MAX_CONNECTIONS_PER_IP_MINUTE by {
        if rates.contains_key(k) {
            lemma_unexpired_len(rates[k], now);
        }
    }
}

proof fn lemma_unexpired_len(seen: Seq<Nanos>, now: Nanos)
    ensures
        unexpired(seen, now).len() <= seen.len(),
    decreases seen.len(),
{
    if seen.len() > 0 && clock::elapsed(seen[0], now) >= RATE_WINDOW {
        lemma_unexpired_len(seen.skip(1), now);
    }
}

/// The connections of one address have no bearing on another's.
pub proof fn law_rates_are_per_address(
    rates: Map<Ip, Seq<Nanos>>,
    ip: Ip,
    other: Ip,
    now: Nanos,
)
    requires
        ip != other,
    ensures
        may_connect(rates_after(rates, other, now), ip, now) == may_connect(rates, ip, now),
{
    let p = pruned(rates, now);
    let after = rates_after(rates, other, now);
    if rates.contains_key(ip) {
        lemma_unexpired_idempotent(rates[ip], now);
    }
    assert(after.contains_key(ip) == p.contains_key(ip));
    assert(p.contains_key(ip) ==> after[ip] == p[ip]);
    assert(seen_from(pruned(after, now), ip) =~= seen_from(p, ip));
}

/// An expired address is forgotten.
pub proof fn law_expired_addresses_are_forgotten(
    rates: Map<Ip, Seq<Nanos>>,
    ip: Ip,
    old: Ip,
    now: Nanos,
)
    requires
        ip != old,
        rates.contains_key(old),
        forall|i: int|
            0 <= i < rates[old].len() ==> clock::elapsed(#[trigger] rates[old][i], now)
                >= RATE_WINDOW,
    ensures
        !rates_after(rates, ip, now).contains_key(old),
{
    lemma_all_expired(rates[old], now);
}

proof fn lemma_all_expired(seen: Seq<Nanos>, now: Nanos)
    requires
        forall|i: int|
            0 <= i < seen.len() ==> clock::elapsed(#[trigger] seen[i], now) >= RATE_WINDOW,
    ensures
        unexpired(seen, now).len() == 0,
    decreases seen.len(),
{
    if seen.len() > 0 {
        let rest = seen.skip(1);
        assert forall|i: int| 0 <= i < rest.len() implies clock::elapsed(#[trigger] rest[i], now)
            >= RATE_WINDOW by {
            assert(rest[i] == seen[i + 1]);
        }
        lemma_all_expired(rest, now);
    }
}

/// A failed rebind leaves the running listener and its configuration alone.
pub proof fn law_failed_rebind_changes_nothing(
    s: Supervisor,
    address: Ip,
    port: Option<u16>,
    has_peers: bool,
)
    requires
        s.listening is Some,
        (commanded(s, Command::Update { enabled: true, address, port }, has_peers)).1 is Bind,
    ensures
        (commanded(s, Command::Update { enabled: true, address, port }, has_peers)).0 == s,
        bound_to(s, BindGoal::Replace { address, port }, None, has_peers) == (
            s,
            SupervisorAction::AnswerBindFailed,
        ),
{
}

/// While coordination is disabled the listener is down, and stays so through
/// every command.
pub proof fn law_disabled_means_down(s: Supervisor, command: Command, has_peers: bool)
    requires
        !s.enabled ==> s.listening is None,
    ensures
        ({
            let next = commanded(s, command, has_peers).0;
            !next.enabled ==> next.listening is None
        }),
{
}

/// Once a request is dealt with, the listener is up only where it is wanted.
pub proof fn law_listener_is_wanted(s: Supervisor, command: Command, has_peers: bool)
    requires
        s.listening is Some ==> wants_listener(s, has_peers),
    ensures
        ({
            let next = commanded(s, command, has_peers).0;
            next.listening is Some ==> wants_listener(next, has_peers)
        }),
{
}

/// A key stands in base64 in a record, 32 bytes long and a point of the curve.
pub open spec fn keyed(r: RecordModel) -> bool {
    base64_decoded(r.ed25519_pub) matches Some(key) && key.len() == 32 && valid_key(key)
}

/// Records make peers exactly if each of them has a usable key, each the peer that
/// the record says: with its name, key, address and port, and nothing that came
/// from DNS. Else the first record without one says why.
pub proof fn law_records_make_the_peers_they_name(records: Seq<RecordModel>)
    ensures
        peers_of(records) is Ok <==> forall|i: int|
            0 <= i < records.len() ==> keyed(#[trigger] records[i]),
        peers_of(records) matches Ok(peers) ==> {
            &&& peers.len() == records.len()
            &&& forall|i: int|
                0 <= i < records.len() ==> #[trigger] peers[i] == (PeerModel {
                    instance_id: records[i].instance_id,
                    verifying_key: base64_decoded(records[i].ed25519_pub)->0,
                    last_addr: records[i].last_addr,
                    dns_addr: None,
                    claim_port: records[i].claim_port,
                    dns_port: None,
                    dns_epoch: None,
                })
        },
        forall|i: int|
            0 <= i < records.len() && !keyed(#[trigger] records[i]) && (forall|j: int|
                0 <= j < i ==> keyed(#[trigger] records[j])) ==> peers_of(records) == Err::<
                Seq<PeerModel>,
                PeerStoreError,
            >(
                match base64_decoded(records[i].ed25519_pub) {
                    None => PeerStoreError::KeyNotBase64,
                    Some(key) => if key.len() != 32 {
                        PeerStoreError::KeyLength
                    } else {
                        PeerStoreError::KeyInvalid
                    },
                },
            ),
    decreases records.len(),
{
    if records.len() > 0 {
        let front = records.drop_last();
        let n = records.len() - 1;
        law_records_make_the_peers_they_name(front);
        assert(forall|i: int| 0 <= i < n ==> #[trigger] front[i] == records[i]);
        assert(keyed(records[n]) <==> record_key(records[n]) is Ok);
        if forall|i: int| 0 <= i < records.len() ==> keyed(#[trigger] records[i]) {
            assert forall|i: int| 0 <= i < front.len() implies keyed(#[trigger] front[i]) by {
                assert(keyed(records[i]));
            }
            assert(keyed(records[n]));
        }
        if peers_of(records) is Ok {
            assert forall|i: int| 0 <= i < records.len() implies keyed(#[trigger] records[i]) by {
                if i < n {
                    assert(keyed(front[i]));
                }
            }
        }
        assert forall|i: int|
            0 <= i < records.len() && !keyed(#[trigger] records[i]) && (forall|j: int|
                0 <= j < i ==> keyed(#[trigger] records[j])) implies peers_of(records) == Err::<
            Seq<PeerModel>,
            PeerStoreError,
        >(
            match base64_decoded(records[i].ed25519_pub) {
                None => PeerStoreError::KeyNotBase64,
                Some(key) => if key.len() != 32 {
                    PeerStoreError::KeyLength
                } else {
                    PeerStoreError::KeyInvalid
                },
            },
        ) by {
            if i < n {
                assert(!keyed(front[i]));
                assert forall|j: int| 0 <= j < i implies keyed(#[trigger] front[j]) by {
                    assert(keyed(records[j]));
                }
            } else {
                assert forall|j: int| 0 <= j < front.len() implies keyed(#[trigger] front[j]) by {
                    assert(keyed(records[j]));
                }
            }
        }
    }
}

/// What DNS said last of a peer survives a publish, whole; a peer of whom DNS said
/// nothing gets nothing; and records that make no peers change nobody.
pub proof fn law_publish_carries_over_what_dns_said(
    records: Seq<RecordModel>,
    before: Seq<PeerModel>,
    i: int,
)
    requires
        peers_of(records) is Ok,
        0 <= i < records.len(),
    ensures
        published(records, before).len() == records.len(),
        ({
            let live = published(records, before)[i];
            &&& live.instance_id == records[i].instance_id
            &&& Some(live.verifying_key) == base64_decoded(records[i].ed25519_pub)
            &&& live.last_addr == records[i].last_addr
            &&& live.claim_port == records[i].claim_port
            &&& forall|k: int|
                0 <= k < before.len() && (#[trigger] before[k]).instance_id
                    == records[i].instance_id && before[k].dns_addr is Some && (forall|m: int|
                    k < m < before.len() && (#[trigger] before[m]).instance_id
                        == records[i].instance_id ==> before[m].dns_addr is None)
                    ==> live.dns_addr == before[k].dns_addr && live.dns_port
                    == before[k].dns_port && live.dns_epoch == before[k].dns_epoch
            &&& (forall|k: int|
                0 <= k < before.len() && (#[trigger] before[k]).instance_id
                    == records[i].instance_id ==> before[k].dns_addr is None)
                ==> live.dns_addr is None && live.dns_port is None && live.dns_epoch is None
        }),
{
    law_records_make_the_peers_they_name(records);
    lemma_last_dns(before, records[i].instance_id);
    let peers = peers_of(records)->Ok_0;
    assert(published(records, before)[i] == with_dns(before)(peers[i]));
}

/// Where records make no peers, a publish changes nobody.
pub proof fn law_bad_records_publish_nothing(records: Seq<RecordModel>, before: Seq<PeerModel>)
    requires
        exists|i: int| 0 <= i < records.len() && !keyed(#[trigger] records[i]),
    ensures
        published(records, before) == before,
{
    law_records_make_the_peers_they_name(records);
}

proof fn lemma_last_dns(peers: Seq<PeerModel>, id: Seq<char>)
    ensures
        forall|k: int|
            0 <= k < peers.len() && (#[trigger] peers[k]).instance_id == id && peers[k].dns_addr
                is Some && (forall|m: int|
                k < m < peers.len() && (#[trigger] peers[m]).instance_id == id
                    ==> peers[m].dns_addr is None) ==> dns_known(peers, id) == Some(
                DnsModel {
                    addr: peers[k].dns_addr->0,
                    port: peers[k].dns_port,
                    epoch: peers[k].dns_epoch,
                },
            ),
        (forall|k: int|
            0 <= k < peers.len() && (#[trigger] peers[k]).instance_id == id ==> peers[k].dns_addr
                is None) ==> dns_known(peers, id) is None,
    decreases peers.len(),
{
    if peers.len() > 0 {
        let front = peers.drop_last();
        let n = peers.len() - 1;
        lemma_last_dns(front, id);
        assert(forall|i: int| 0 <= i < n ==> #[trigger] front[i] == peers[i]);
        assert forall|k: int|
            0 <= k < peers.len() && (#[trigger] peers[k]).instance_id == id && peers[k].dns_addr
                is Some && (forall|m: int|
                k < m < peers.len() && (#[trigger] peers[m]).instance_id == id
                    ==> peers[m].dns_addr is None) implies dns_known(peers, id) == Some(
            DnsModel {
                addr: peers[k].dns_addr->0,
                port: peers[k].dns_port,
                epoch: peers[k].dns_epoch,
            },
        ) by {
            if k < n {
                assert(front[k] == peers[k]);
                assert(peers[n].instance_id == id ==> peers[n].dns_addr is None);
                assert forall|m: int|
                    k < m < front.len() && (#[trigger] front[m]).instance_id
                        == id implies front[m].dns_addr is None by {
                    assert(front[m] == peers[m]);
                }
            }
        }
        if forall|k: int|
            0 <= k < peers.len() && (#[trigger] peers[k]).instance_id == id ==> peers[k].dns_addr
                is None {
            assert forall|k: int|
                0 <= k < front.len() && (#[trigger] front[k]).instance_id
                    == id implies front[k].dns_addr is None by {
                assert(front[k] == peers[k]);
            }
            assert(peers[n].instance_id == id ==> peers[n].dns_addr is None);
        }
    }
}

/// The record of a peer says who it is, by its own name and key, and where it was
/// verified to be; it has no name to show and no date.
pub proof fn law_record_says_who_a_peer_is(p: PeerModel)
    ensures
        record_of(p).instance_id == p.instance_id,
        record_of(p).ed25519_pub == base64_encoded(p.verifying_key),
        record_of(p).last_addr == p.last_addr,
        record_of(p).claim_port == p.claim_port,
        record_of(p).display_name.len() == 0,
        record_of(p).paired_at.len() == 0,
{
}

/// Of the records of one peer an upsert replaces the first; where there is none it
/// appends; it touches no other.
pub proof fn law_upsert_replaces_the_first_record(
    before: Seq<RecordModel>,
    r: RecordModel,
    after: Seq<RecordModel>,
)
    requires
        upserted(before, r, after),
    ensures
        (forall|i: int| 0 <= i < before.len() ==> (#[trigger] before[i]).instance_id
            != r.instance_id) ==> after.len() == before.len() + 1 && after.last() == r
            && after.drop_last() == before,
        forall|i: int|
            0 <= i < before.len() && (#[trigger] before[i]).instance_id == r.instance_id && (
            forall|j: int| 0 <= j < i ==> (#[trigger] before[j]).instance_id != r.instance_id)
                ==> after == before.update(i, r),
{
    if forall|i: int| 0 <= i < before.len() ==> (#[trigger] before[i]).instance_id
        != r.instance_id {
        assert(after.drop_last() =~= before);
    }
    assert forall|i: int|
        0 <= i < before.len() && (#[trigger] before[i]).instance_id == r.instance_id && (forall|
            j: int,
        | 0 <= j < i ==> (#[trigger] before[j]).instance_id != r.instance_id) implies after
        == before.update(i, r) by {
        assert(has_record(before, r.instance_id));
        let k = choose|k: int| #[trigger]
            is_first_record(before, r.instance_id, k) && after == before.update(k, r);
        if k < i {
            assert(before[k].instance_id != r.instance_id);
        }
        if i < k {
            assert(before[i].instance_id != r.instance_id);
        }
    }
}

/// A peer is found under its own name, the first of that name, and is missed only
/// where nobody has it.
pub proof fn law_peer_is_found_by_its_name(peers: Seq<PeerModel>, id: Seq<char>, i: int)
    ensures
        is_first_peer(peers, id, i) ==> 0 <= i < peers.len() && peers[i].instance_id == id
            && peer_named(peers, id) == Some(peers[i]),
        is_first_peer(peers, id, i) ==> forall|j: int|
            0 <= j < i ==> (#[trigger] peers[j]).instance_id != id,
        0 <= i < peers.len() && peers[i].instance_id == id ==> has_peer(peers, id) && peer_named(
            peers,
            id,
        ) is Some,
        has_peer(peers, id) ==> peer_named(peers, id) is Some && peer_named(
            peers,
            id,
        )->0.instance_id == id,
        !has_peer(peers, id) ==> peer_named(peers, id) is None,
{
    if has_peer(peers, id) {
        let k = choose|k: int| 0 <= k < peers.len() && (#[trigger] peers[k]).instance_id == id;
        lemma_first_of_name(peers, id, k);
    }
    if is_first_peer(peers, id, i) {
        assert(peers[i].instance_id == id);
        let k = choose|k: int| is_first_peer(peers, id, k);
        if k < i {
            assert(peers[k].instance_id != id);
        }
        if i < k {
            assert(peers[i].instance_id != id);
        }
    }
}

proof fn lemma_first_of_name(peers: Seq<PeerModel>, id: Seq<char>, k: int)
    requires
        0 <= k < peers.len(),
        peers[k].instance_id == id,
    ensures
        exists|i: int| is_first_peer(peers, id, i),
    decreases k,
{
    if exists|j: int| 0 <= j < k && (#[trigger] peers[j]).instance_id == id {
        let j = choose|j: int| 0 <= j < k && (#[trigger] peers[j]).instance_id == id;
        lemma_first_of_name(peers, id, j);
    } else {
        assert(is_first_peer(peers, id, k));
    }
}

/// A peer is dialled where it was verified to be, and after that where DNS says it
/// is. Its own port goes before the one that DNS says, and only the address of
/// what was seen or said counts, not its port.
pub proof fn law_endpoints_in_order(p: PeerModel)
    ensures
        ({
            let e = endpoints(p);
            let seen = p.claim_port is Some && p.last_addr is Some;
            let said = p.dns_addr is Some && (p.claim_port is Some || p.dns_port is Some);
            &&& e.len() == (if seen {
                1int
            } else {
                0
            }) + (if said {
                1int
            } else {
                0
            })
            &&& seen ==> e[0] == (
                EndpointKind::Verified,
                SockAddr {
                    ip: p.last_addr->0.ip,
                    port: p.claim_port->0,
                    flowinfo: 0,
                    scope_id: 0,
                },
            )
            &&& said && p.claim_port is Some ==> e.last() == (
                EndpointKind::Dns,
                SockAddr { ip: p.dns_addr->0.ip, port: p.claim_port->0, flowinfo: 0, scope_id: 0 },
            )
            &&& said && p.claim_port is None ==> e.last() == (
                EndpointKind::Dns,
                SockAddr { ip: p.dns_addr->0.ip, port: p.dns_port->0, flowinfo: 0, scope_id: 0 },
            )
        }),
{
}

/// A frame can be addressed to a peer exactly if there is somewhere to send it and
/// an epoch to address it to; a peer without either is left out for want of the
/// endpoint.
pub proof fn law_peers_are_left_out_for_a_reason(p: PeerModel)
    ensures
        ({
            let somewhere = (p.claim_port is Some && p.last_addr is Some) || (p.dns_addr is Some && (
            p.claim_port is Some || p.dns_port is Some));
            &&& addressable(p) <==> somewhere && p.dns_epoch is Some
            &&& !somewhere ==> fanout_step(p) == FanoutStep::<Seq<char>>::Skip(
                PeerSend::NoEndpoint,
            )
            &&& somewhere && p.dns_epoch is None ==> fanout_step(p) == FanoutStep::<
                Seq<char>,
            >::Skip(PeerSend::NoEpoch)
            &&& somewhere ==> (p.dns_epoch matches Some(epoch) ==> fanout_step(p) == (
            FanoutStep::Address { recipient: p.instance_id, epoch }))
            &&& left_out(p) is None <==> addressable(p)
            &&& left_out(p) matches Some(why) ==> fanout_step(p) == FanoutStep::<Seq<char>>::Skip(
                why,
            )
        }),
{
    law_endpoints_in_order(p);
}

/// What became of each peer is what was reported for it: one that was left out
/// counts as that whatever is reported, and one without a report was not reached.
pub proof fn law_outcomes_are_as_reported(peers: Seq<PeerModel>, reports: Seq<SendReport>, i: int)
    requires
        0 <= i < peers.len(),
    ensures
        ({
            let out = fanout_outcomes(peers, reports);
            &&& out.len() == peers.len()
            &&& fanout_step(peers[i]) matches FanoutStep::Skip(why) ==> out[i] == why
            &&& fanout_step(peers[i]) is Address ==> {
                &&& i < reports.len() && reports[i] == SendReport::Delivered ==> out[i]
                    == PeerSend::Contacted
                &&& i < reports.len() && reports[i] == SendReport::SignFailed ==> out[i]
                    == PeerSend::SignFailed
                &&& i < reports.len() && reports[i] == SendReport::DialFailed ==> out[i]
                    == PeerSend::DialFailed
                &&& i >= reports.len() ==> out[i] == PeerSend::DialFailed
            }
        }),
{
}

/// A tally counts every send of its kind once and no other.
pub proof fn law_tally_counts_each_send(sends: Seq<PeerSend>, send: PeerSend, what: PeerSend)
    ensures
        tally(Seq::empty(), what) == 0,
        send == what ==> tally(sends.push(send), what) == tally(sends, what) + 1,
        send != what ==> tally(sends.push(send), what) == tally(sends, what),
{
    reveal(Seq::filter);
    assert(sends.push(send).drop_last() =~= sends);
}

/// An address may connect exactly if fewer than ten of its connections of the last
/// minute are known. What is older is forgotten, and a connection that is let in
/// is remembered.
pub proof fn law_ten_connections_a_minute(
    rates: Map<Ip, Seq<Nanos>>,
    ip: Ip,
    k: int,
    now: Nanos,
)
    requires
        rates.contains_key(ip),
        0 <= k <= rates[ip].len(),
        forall|i: int|
            0 <= i < k ==> (#[trigger] rates[ip][i]) <= now && now - rates[ip][i]
                >= 60_000_000_000,
        k < rates[ip].len() ==> now < rates[ip][k] || now - rates[ip][k] < 60_000_000_000,
    ensures
        may_connect(rates, ip, now) <==> rates[ip].len() - k < 10,
        rates[ip].len() - k < 10 ==> rates_after(rates, ip, now).contains_key(ip) && rates_after(
            rates,
            ip,
            now,
        )[ip] == rates[ip].skip(k).push(now),
        rates[ip].len() - k >= 10 ==> rates_after(rates, ip, now).contains_key(ip) && rates_after(
            rates,
            ip,
            now,
        )[ip] == rates[ip].skip(k),
{
    lemma_unexpired_from(rates[ip], k, now);
    let p = pruned(rates, now);
    if k < rates[ip].len() {
        assert(p.contains_key(ip));
        assert(p[ip] == rates[ip].skip(k));
    } else {
        assert(!p.contains_key(ip));
        assert(rates[ip].skip(k) =~= Seq::<Nanos>::empty());
    }
}

proof fn lemma_unexpired_from(seen: Seq<Nanos>, k: int, now: Nanos)
    requires
        0 <= k <= seen.len(),
        forall|i: int|
            0 <= i < k ==> (#[trigger] seen[i]) <= now && now - seen[i] >= 60_000_000_000,
        k < seen.len() ==> now < seen[k] || now - seen[k] < 60_000_000_000,
    ensures
        unexpired(seen, now) == seen.skip(k),
    decreases k,
{
    if k > 0 {
        assert(seen[0] <= now);
        let rest = seen.skip(1);
        assert forall|i: int| 0 <= i < k - 1 implies (#[trigger] rest[i]) <= now && now - rest[i]
            >= 60_000_000_000 by {
            assert(rest[i] == seen[i + 1]);
        }
        if k < seen.len() {
            assert(rest[k - 1] == seen[k]);
        }
        lemma_unexpired_from(rest, k - 1, now);
        assert(rest.skip(k - 1) =~= seen.skip(k));
    } else {
        assert(seen.skip(0) =~= seen);
    }
}

/// An address that nothing is known of may connect, and that is remembered of it.
pub proof fn law_strangers_may_connect(rates: Map<Ip, Seq<Nanos>>, ip: Ip, now: Nanos)
    requires
        !rates.contains_key(ip),
    ensures
        may_connect(rates, ip, now),
        rates_after(rates, ip, now).contains_key(ip),
        rates_after(rates, ip, now)[ip] == seq![now],
{
    assert(!pruned(rates, now).contains_key(ip));
    assert(Seq::<Nanos>::empty().push(now) =~= seq![now]);
}

/// A request for the listener is answered with its port, holds it up, and binds it
/// first where it is down; while coordination is disabled it is refused.
pub proof fn law_listener_is_brought_up(s: Supervisor, has_peers: bool)
    ensures
        ({
            let (next, action) = commanded(s, Command::Ensure, has_peers);
            &&& !s.enabled ==> next == s && action == SupervisorAction::AnswerDisabled
            &&& s.enabled ==> next == (Supervisor { provisional_hold: true, ..s })
            &&& s.enabled ==> (s.listening matches Some(port) ==> action
                == SupervisorAction::AnswerPort(port))
            &&& s.enabled && s.listening is None ==> action == (SupervisorAction::Bind {
                address: s.bind_address,
                port: s.fixed_port,
                goal: BindGoal::Ensure,
            })
        }),
{
}

/// Without the hold the listener stays up exactly for peers of an enabled
/// coordination.
pub proof fn law_released_listener_stays_for_peers(s: Supervisor, has_peers: bool)
    ensures
        ({
            let (next, action) = commanded(s, Command::Release, has_peers);
            &&& !next.provisional_hold
            &&& next.enabled == s.enabled && next.bind_address == s.bind_address
                && next.fixed_port == s.fixed_port
            &&& s.enabled && has_peers ==> next.listening == s.listening
            &&& !(s.enabled && has_peers) ==> next.listening is None && action
                == SupervisorAction::Done
            &&& s.enabled && has_peers && s.listening is Some ==> action == SupervisorAction::Done
            &&& s.enabled && has_peers && s.listening is None ==> action == (
            SupervisorAction::Bind {
                address: s.bind_address,
                port: s.fixed_port,
                goal: BindGoal::Reconcile,
            })
        }),
{
}

/// A new configuration takes hold at once, unless a listener is up that it wants
/// elsewhere: then the new one is bound first. One that disables coordination
/// takes the listener down, and one that changes nothing does nothing.
pub proof fn law_new_configuration_takes_hold(
    s: Supervisor,
    enabled: bool,
    address: Ip,
    port: Option<u16>,
    has_peers: bool,
)
    ensures
        ({
            let (next, action) = commanded(
                s,
                Command::Update { enabled, address, port },
                has_peers,
            );
            let same = s.enabled == enabled && s.bind_address == address && s.fixed_port == port;
            let set = Supervisor { enabled, bind_address: address, fixed_port: port, ..s };
            &&& same ==> next == s && action == SupervisorAction::AnswerOk
            &&& !same && enabled && s.listening is Some ==> next == s && action == (
            SupervisorAction::Bind { address, port, goal: BindGoal::Replace { address, port } })
            &&& !same && !enabled ==> next == (Supervisor { listening: None, ..set }) && action
                == SupervisorAction::AnswerOk
            &&& !same && enabled && s.listening is None ==> next == set
            &&& !same && enabled && s.listening is None && (has_peers || s.provisional_hold)
                ==> action == (SupervisorAction::Bind { address, port, goal: BindGoal::Apply })
            &&& !same && enabled && s.listening is None && !(has_peers || s.provisional_hold)
                ==> action == SupervisorAction::AnswerOk
        }),
{
}

/// A shutdown takes the listener down and ends.
pub proof fn law_shutdown_stops(s: Supervisor, has_peers: bool)
    ensures
        commanded(s, Command::Shutdown, has_peers) == (
            Supervisor { listening: None, ..s },
            SupervisorAction::Stop,
        ),
{
}

/// A bind that succeeds listens on the port that it got and is answered as it was
/// asked for; one that replaces a listener takes its configuration along, and is
/// taken down again where nobody wants it any more.
pub proof fn law_bound_listener_listens(s: Supervisor, got: u16, has_peers: bool)
    ensures
        bound_to(s, BindGoal::Ensure, Some(got), has_peers) == (
            Supervisor { listening: Some(got), ..s },
            SupervisorAction::AnswerPort(got),
        ),
        bound_to(s, BindGoal::Reconcile, Some(got), has_peers) == (
            Supervisor { listening: Some(got), ..s },
            SupervisorAction::Done,
        ),
        bound_to(s, BindGoal::Apply, Some(got), has_peers) == (
            Supervisor { listening: Some(got), ..s },
            SupervisorAction::AnswerOk,
        ),
        forall|address: Ip, port: Option<u16>| #[trigger]
            bound_to(s, BindGoal::Replace { address, port }, Some(got), has_peers) == (
                Supervisor {
                    enabled: true,
                    bind_address: address,
                    fixed_port: port,
                    provisional_hold: s.provisional_hold,
                    listening: if has_peers || s.provisional_hold {
                        Some(got)
                    } else {
                        None
                    },
                },
                SupervisorAction::AnswerOk,
            ),
{
}

/// A bind that fails changes nothing, and whoever waits for it is told.
pub proof fn law_failed_bind_is_told(s: Supervisor, goal: BindGoal, has_peers: bool)
    ensures
        bound_to(s, goal, None, has_peers).0 == s,
        goal == BindGoal::Reconcile ==> bound_to(s, goal, None, has_peers).1
            == SupervisorAction::Done,
        goal != BindGoal::Reconcile ==> bound_to(s, goal, None, has_peers).1
            == SupervisorAction::AnswerBindFailed,
{
}

/// A frame is refused, in this order, for being none or too late, for a sender that
/// is not paired, and for a sender without a key; else it is held against the
/// record of the first peer of its sender's name.
pub proof fn law_frame_is_held_against_its_sender(
    read: FrameRead,
    peers: Seq<PeerModel>,
    i: int,
)
    ensures
        read is Invalid ==> record_for(read, peers) == Err::<RecordModel, Rejection>(
            Rejection::InvalidFrame,
        ),
        read is Timeout ==> record_for(read, peers) == Err::<RecordModel, Rejection>(
            Rejection::ReadTimeout,
        ),
        read matches FrameRead::Frame { sender_instance_id } ==> {
            &&& (forall|j: int|
                0 <= j < peers.len() ==> (#[trigger] peers[j]).instance_id
                    != sender_instance_id@) ==> record_for(read, peers) == Err::<
                RecordModel,
                Rejection,
            >(Rejection::UnknownPeer)
            &&& 0 <= i < peers.len() && peers[i].instance_id == sender_instance_id@ && (forall|
                j: int,
            |
                0 <= j < i ==> (#[trigger] peers[j]).instance_id != sender_instance_id@) ==> {
                &&& peers[i].verifying_key.len() != 32 ==> record_for(read, peers) == Err::<
                    RecordModel,
                    Rejection,
                >(Rejection::NotVerified)
                &&& peers[i].verifying_key.len() == 32 ==> record_for(read, peers) == Ok::<
                    RecordModel,
                    Rejection,
                >(
                    RecordModel {
                        instance_id: sender_instance_id@,
                        ed25519_pub: base64_encoded(peers[i].verifying_key),
                        display_name: Seq::empty(),
                        paired_at: Seq::empty(),
                        last_addr: peers[i].last_addr,
                        claim_port: peers[i].claim_port,
                    },
                )
            }
        },
{
    if let FrameRead::Frame { sender_instance_id } = read {
        law_peer_is_found_by_its_name(peers, sender_instance_id@, i);
        if 0 <= i < peers.len() && peers[i].instance_id == sender_instance_id@ && (forall|j: int|
            0 <= j < i ==> (#[trigger] peers[j]).instance_id != sender_instance_id@) {
            assert(is_first_peer(peers, sender_instance_id@, i));
        }
    }
}

/// A frame that does not verify is refused as that even if it is stale too; one
/// that verifies is let in exactly if it is fresh.
pub proof fn law_only_verified_fresh_frames_enter(fresh: bool)
    ensures
        admission(false, fresh) == Err::<(), Rejection>(Rejection::NotVerified),
        admission(true, false) == Err::<(), Rejection>(Rejection::StaleCounterOrNonce),
        admission(true, true) == Ok::<(), Rejection>(()),
{
}

/// Every refusal is recorded by its name, but for a frame that does not verify.
pub proof fn law_refusals_are_named()
    ensures
        rejection_text(Rejection::InvalidFrame) == Some("invalid_frame"@),
        rejection_text(Rejection::ReadTimeout) == Some("read_timeout"@),
        rejection_text(Rejection::UnknownPeer) == Some("unknown_peer"@),
        rejection_text(Rejection::StaleCounterOrNonce) == Some("stale_counter_or_nonce"@),
        rejection_text(Rejection::NotVerified) is None,
{
}

/// Endpoints are dialled in order until one takes the frame, and nothing is dialled
/// after that; a peer is given up once its last endpoint has failed.
pub proof fn law_endpoints_are_dialled_in_turn(
    peer: ClaimPeer,
    tried: usize,
    delivered: bool,
    step: DialStep,
)
    requires
        call_ensures(send_to_peer, (&peer, tried, delivered), step),
    ensures
        step is Delivered <==> tried > 0 && delivered,
        step matches DialStep::Dial(kind, address) ==> tried < endpoints(peer@).len() && endpoints(
            peer@,
        )[tried as int] == (kind, address) && (tried == 0 || !delivered),
        tried < endpoints(peer@).len() && (tried == 0 || !delivered) ==> step is Dial,
        step is NoEndpoint ==> endpoints(peer@).len() == 0,
        step is Failed ==> tried > 0 || endpoints(peer@).len() > 0,
{
}

/// Port zero stands for no fixed port; a supervisor starts with the listener down
/// and unheld, under the configuration that it is given.
pub proof fn law_supervisor_starts_down(
    address: Ip,
    port: Option<u16>,
    enabled: bool,
    res: Supervisor,
    normal: Option<u16>,
)
    requires
        call_ensures(Supervisor::new, (address, port, enabled), res),
        call_ensures(normalize_port, (port,), normal),
    ensures
        res.bind_address == address && res.enabled == enabled,
        res.listening is None && !res.provisional_hold,
        res.fixed_port == normal,
        port is None || port == Some(0u16) <==> normal is None,
        normal is Some ==> normal == port,
{
}

/// A peer and a record are seen with all that they hold.
pub proof fn law_peers_are_seen_whole(p: ClaimPeer, r: PeerRecord)
    ensures
        p@.instance_id == p.instance_id@ && p@.verifying_key == p.verifying_key@,
        p@.last_addr == p.last_addr && p@.dns_addr == p.dns_addr,
        p@.claim_port == p.claim_port && p@.dns_port == p.dns_port,
        p.dns_epoch is Some <==> p@.dns_epoch is Some,
        p.dns_epoch matches Some(e) ==> p@.dns_epoch == Some(e@),
        r@.instance_id == r.instance_id@ && r@.ed25519_pub == r.ed25519_pub@,
        r@.display_name == r.display_name@ && r@.paired_at == r.paired_at@,
        r@.last_addr == r.last_addr && r@.claim_port == r.claim_port,
{
}

/// A feed is seen by its records and its peers, one for one.
pub proof fn law_feed_is_seen_one_for_one(f: PeerStoreFeed, i: int)
    ensures
        f.records_view().len() == f.records@.len(),
        0 <= i < f.records@.len() ==> f.records_view()[i] == f.records@[i]@,
        f.peers_view().len() == f.peers@.len(),
        0 <= i < f.peers@.len() ==> f.peers_view()[i] == f.peers@[i]@,
{
}

/// An upsert always leaves the record of the peer that it was given, once more
/// only where there was none.
pub proof fn law_upserted_record_is_there(before: Seq<RecordModel>, r: RecordModel, i: int)
    ensures
        (forall|j: int| 0 <= j < before.len() ==> (#[trigger] before[j]).instance_id
            != r.instance_id) ==> upserted(before, r, before.push(r)),
        0 <= i < before.len() && before[i].instance_id == r.instance_id && (forall|j: int|
            0 <= j < i ==> (#[trigger] before[j]).instance_id != r.instance_id) ==> upserted(
            before,
            r,
            before.update(i, r),
        ),
{
    if 0 <= i < before.len() && before[i].instance_id == r.instance_id && (forall|j: int|
        0 <= j < i ==> (#[trigger] before[j]).instance_id != r.instance_id) {
        assert(is_first_record(before, r.instance_id, i));
    }
}

/// A key is usable exactly if it is 32 bytes long and a point of the curve.
pub proof fn law_usable_key_is_a_point_of_the_curve(p: PeerModel)
    ensures
        key_ok(p) <==> p.verifying_key.len() == 32 && valid_key(p.verifying_key),
{
}

} // verus!
