//! The agent's configuration: the boards it serves and who may connect.
use vstd::prelude::*;

use crate::protocol::Platform;

verus! {

// ---------------------------------------------------------------------------
// Views shared by the configuration types
// ---------------------------------------------------------------------------

/// The text of an optional string.
pub open spec fn opt_text(o: Option<String>) -> Option<Seq<char>> {
    match o {
        Some(s) => Some(s@),
        None => None,
    }
}

/// The texts of an optional list of strings.
pub open spec fn opt_words(o: Option<Vec<String>>) -> Option<Seq<Seq<char>>> {
    match o {
        Some(v) => Some(v.deep_view()),
        None => None,
    }
}

/// A copy of a list of strings.
pub fn copy_words(v: &Vec<String>) -> (r: Vec<String>)
    ensures
        r.deep_view() == v.deep_view(),
{
    let mut r: Vec<String> = Vec::new();
    let mut i: usize = 0;
    while i < v.len()
        invariant
            i <= v.len(),
            r@.len() == i,
            forall|j: int| 0 <= j < i ==> r@[j]@ == v@[j]@,
        decreases v.len() - i,
    {
        let s = v[i].clone();
        assert(s@ == v@[i as int]@);
        r.push(s);
        i = i + 1;
    }
    assert(r.deep_view() =~= v.deep_view());
    r
}

/// A copy of an optional string.
pub fn copy_opt_text(o: &Option<String>) -> (r: Option<String>)
    ensures
        opt_text(r) == opt_text(*o),
{
    match o {
        Some(s) => Some(s.clone()),
        None => None,
    }
}

/// A copy of an optional list of strings.
pub fn copy_opt_words(o: &Option<Vec<String>>) -> (r: Option<Vec<String>>)
    ensures
        opt_words(r) == opt_words(*o),
{
    match o {
        Some(v) => Some(copy_words(v)),
        None => None,
    }
}

// ---------------------------------------------------------------------------
// SEGGER RTT monitor settings
// ---------------------------------------------------------------------------

/// Where a SEGGER RTT telnet endpoint listens.
pub struct SeggerRttConfig {
    pub host: String,
    pub port: u16,
    pub connect_timeout_ms: u64,
}

pub struct SeggerRttView {
    pub host: Seq<char>,
    pub port: u16,
    pub connect_timeout_ms: u64,
}

impl View for SeggerRttConfig {
    type V = SeggerRttView;

    open spec fn view(&self) -> SeggerRttView {
        SeggerRttView { host: self.host@, port: self.port, connect_timeout_ms: self.connect_timeout_ms }
    }
}

impl SeggerRttConfig {
    /// A copy of these settings.
    pub fn duplicate(&self) -> (r: Self)
        ensures
            r@ == self@,
    {
        SeggerRttConfig {
            host: self.host.clone(),
            port: self.port,
            connect_timeout_ms: self.connect_timeout_ms,
        }
    }
}

/// The host used when a SEGGER RTT monitor names none.
pub open spec fn default_host_text() -> Seq<char> {
    seq!['1', '2', '7', '.', '0', '.', '0', '.', '1']
}

/// The host used when a SEGGER RTT monitor names none: the local machine.
pub fn default_segger_rtt_host() -> (s: String)
    ensures
        s@ == default_host_text(),
{
    let s = String::from_str("127.0.0.1");
    proof {
        reveal_strlit("127.0.0.1");
    }
    s
}

/// The port used when a SEGGER RTT monitor names none.
pub fn default_segger_rtt_port() -> (p: u16)
    ensures
        p == 19021,
{
    19021
}

/// How long to wait for the RTT endpoint when a monitor names no timeout.
pub fn default_segger_rtt_connect_timeout_ms() -> (t: u64)
    ensures
        t == 5000,
{
    5000
}

// ---------------------------------------------------------------------------
// Per-target settings
// ---------------------------------------------------------------------------

/// How a target's logs are read.
pub enum MonitorConfig {
    /// A command template.
    Command(Vec<String>),
    /// A SEGGER RTT telnet endpoint.
    SeggerRtt(SeggerRttConfig),
}

pub enum MonitorView {
    Command(Seq<Seq<char>>),
    SeggerRtt(SeggerRttView),
}

impl View for MonitorConfig {
    type V = MonitorView;

    open spec fn view(&self) -> MonitorView {
        match self {
            MonitorConfig::Command(argv) => MonitorView::Command(argv.deep_view()),
            MonitorConfig::SeggerRtt(c) => MonitorView::SeggerRtt(c@),
        }
    }
}

/// The view of an optional monitor.
pub open spec fn opt_monitor(o: Option<MonitorConfig>) -> Option<MonitorView> {
    match o {
        Some(m) => Some(m@),
        None => None,
    }
}

impl MonitorConfig {
    /// A copy of this monitor setting.
    pub fn duplicate(&self) -> (r: Self)
        ensures
            r@ == self@,
    {
        match self {
            MonitorConfig::Command(argv) => MonitorConfig::Command(copy_words(argv)),
            MonitorConfig::SeggerRtt(c) => MonitorConfig::SeggerRtt(c.duplicate()),
        }
    }
}

/// A copy of an optional monitor setting.
pub fn copy_opt_monitor(o: &Option<MonitorConfig>) -> (r: Option<MonitorConfig>)
    ensures
        opt_monitor(r) == opt_monitor(*o),
{
    match o {
        Some(m) => Some(m.duplicate()),
        None => None,
    }
}

/// One configured board.
pub struct TargetConfig {
    pub platform: Option<Platform>,
    pub flash: Option<Vec<String>>,
    pub monitor: Option<MonitorConfig>,
    pub serial: Option<String>,
    pub baud: Option<u32>,
    pub chip: Option<String>,
}

pub struct TargetView {
    pub platform: Option<Platform>,
    pub flash: Option<Seq<Seq<char>>>,
    pub monitor: Option<MonitorView>,
    pub serial: Option<Seq<char>>,
    pub baud: Option<u32>,
    pub chip: Option<Seq<char>>,
}

impl View for TargetConfig {
    type V = TargetView;

    open spec fn view(&self) -> TargetView {
        TargetView {
            platform: self.platform,
            flash: opt_words(self.flash),
            monitor: opt_monitor(self.monitor),
            serial: opt_text(self.serial),
            baud: self.baud,
            chip: opt_text(self.chip),
        }
    }
}

// ---------------------------------------------------------------------------
// The table of targets
// ---------------------------------------------------------------------------

/// No two entries of `t` share a name.
pub open spec fn distinct_names(t: Seq<(Seq<char>, TargetView)>) -> bool {
    forall|i: int, j: int| 0 <= i < j < t.len() ==> t[i].0 != t[j].0
}

/// `t` holds an entry named `name`.
pub open spec fn has_name(t: Seq<(Seq<char>, TargetView)>, name: Seq<char>) -> bool {
    exists|i: int| 0 <= i < t.len() && t[i].0 == name
}

/// The configured targets, each under a name of its own.
pub struct TargetTable {
    entries: Vec<(String, TargetConfig)>,
}

impl View for TargetTable {
    type V = Seq<(Seq<char>, TargetView)>;

    closed spec fn view(&self) -> Seq<(Seq<char>, TargetView)> {
        self.entries@.map_values(|e: (String, TargetConfig)| (e.0@, e.1@))
    }
}

impl TargetTable {
    #[verifier::type_invariant]
    spec fn names_are_distinct(self) -> bool {
        distinct_names(self@)
    }

    /// An empty table.
    pub fn new() -> (t: Self)
        ensures
            t@ == Seq::<(Seq<char>, TargetView)>::empty(),
    {
        let t = TargetTable { entries: Vec::new() };
        assert(t@ =~= Seq::<(Seq<char>, TargetView)>::empty());
        t
    }

    /// The number of configured targets.
    pub fn len(&self) -> (n: usize)
        ensures
            n == self@.len(),
    {
        self.entries.len()
    }

    /// The name of entry `i`.
    pub fn name_at(&self, i: usize) -> (s: &String)
        requires
            i < self@.len(),
        ensures
            s@ == self@[i as int].0,
    {
        &self.entries[i].0
    }

    /// The settings of entry `i`.
    pub fn config_at(&self, i: usize) -> (c: &TargetConfig)
        requires
            i < self@.len(),
        ensures
            c@ == self@[i as int].1,
    {
        &self.entries[i].1
    }

    /// The index of the entry named `name`, if any; no other entry has that name.
    pub fn find(&self, name: &str) -> (r: Option<usize>)
        ensures
            r is None <==> !has_name(self@, name@),
            r matches Some(i) ==> i < self@.len() && self@[i as int].0 == name@ && forall|j: int|
                0 <= j < self@.len() && self@[j].0 == name@ ==> j == i,
    {
        proof {
            use_type_invariant(self);
        }
        let mut i: usize = 0;
        while i < self.entries.len()
            invariant
                i <= self@.len(),
                distinct_names(self@),
                forall|j: int| 0 <= j < i ==> self@[j].0 != name@,
            decreases self@.len() - i,
        {
            assert(self@[i as int].0 == self.entries@[i as int].0@);
            if crate::text::same_text(self.entries[i].0.as_str(), name) {
                return Some(i);
            }
            i = i + 1;
        }
        None
    }

    /// Sets the settings of the target `name`, replacing any earlier ones.
    pub fn insert(&mut self, name: String, config: TargetConfig)
        ensures
            has_name(old(self)@, name@) ==> exists|i: int|
                0 <= i < old(self)@.len() && old(self)@[i].0 == name@ && final(self)@ == old(
                    self,
                )@.update(i, (name@, config@)),
            !has_name(old(self)@, name@) ==> final(self)@ == old(self)@.push((name@, config@)),
    {
        proof {
            use_type_invariant(&*self);
        }
        let ghost before = self@;
        let ghost name_v = name@;
        let ghost config_v = config@;
        let mut i: usize = 0;
        while i < self.entries.len()
            invariant
                before == self@,
                before == old(self)@,
                name_v == name@,
                config_v == config@,
                i <= self@.len(),
                distinct_names(self@),
                forall|j: int| 0 <= j < i ==> self@[j].0 != name@,
            decreases self@.len() - i,
        {
            assert(self@[i as int].0 == self.entries@[i as int].0@);
            if self.entries[i].0 == name {
                let mut entries = Vec::new();
                std::mem::swap(&mut entries, &mut self.entries);
                let ghost kept = entries@;
                entries.set(i, (name, config));
                proof {
                    let new_view = entries@.map_values(
                        |e: (String, TargetConfig)| (e.0@, e.1@),
                    );
                    assert(new_view =~= before.update(i as int, (name_v, config_v)));
                    assert(before[i as int].0 == name_v);
                    assert forall|a: int, b: int| 0 <= a < b < new_view.len() implies new_view[a].0
                        != new_view[b].0 by {
                        if a != i && b != i {
                            assert(new_view[a].0 == before[a].0);
                            assert(new_view[b].0 == before[b].0);
                        } else if a == i {
                            assert(new_view[b].0 == before[b].0);
                            assert(before[a].0 == new_view[a].0);
                        } else {
                            assert(new_view[a].0 == before[a].0);
                            assert(before[b].0 == new_view[b].0);
                        }
                    }
                }
                self.entries = entries;
                assert(self@ =~= before.update(i as int, (name_v, config_v)));
                assert(has_name(before, name_v));
                return;
            }
            i = i + 1;
        }
        let mut entries = Vec::new();
        std::mem::swap(&mut entries, &mut self.entries);
        entries.push((name, config));
        proof {
            let new_view = entries@.map_values(|e: (String, TargetConfig)| (e.0@, e.1@));
            assert(new_view =~= before.push((name_v, config_v)));
        }
        self.entries = entries;
        proof {
            assert(self@ =~= before.push((name_v, config_v)));
            assert forall|a: int, b: int| 0 <= a < b < self@.len() implies self@[a].0
                != self@[b].0 by {
                if b == before.len() {
                    assert(self@[a].0 == before[a].0);
                } else {
                    assert(self@[a] == before[a]);
                    assert(self@[b] == before[b]);
                }
            }
        }
    }
}

// ---------------------------------------------------------------------------
// The agent's whole configuration
// ---------------------------------------------------------------------------

/// A peer's public key.
#[derive(Debug, Clone, Copy)]
pub struct PeerKey {
    pub bytes: [u8; 32],
}

/// The agent's configuration.
pub struct ServerConfig {
    /// When non-empty, only these peers may connect.
    pub authorized_peers: Vec<PeerKey>,
    /// Where uploads are staged while commands run.
    pub work_dir: Option<String>,
    pub targets: TargetTable,
}

/// The key bytes of each listed peer.
pub open spec fn key_bytes(peers: Seq<PeerKey>) -> Seq<Seq<u8>> {
    peers.map_values(|k: PeerKey| k.bytes@)
}

/// Whether `peer` may use an agent that authorizes `peers`: any peer when
/// none is listed, else a listed one.
pub open spec fn peer_allowed(peers: Seq<PeerKey>, peer: PeerKey) -> bool {
    peers.len() == 0 || key_bytes(peers).contains(peer.bytes@)
}

/// Every listed peer may connect, whichever its place in the list; a peer
/// whose key is not listed may not, unless no peer is listed at all.
pub proof fn lemma_listed_peers_allowed(peers: Seq<PeerKey>, peer: PeerKey)
    ensures
        forall|i: int| 0 <= i < peers.len() ==> peer_allowed(peers, #[trigger] peers[i]),
        (exists|i: int| 0 <= i < peers.len() && peers[i].bytes@ == peer.bytes@) ==> peer_allowed(
            peers,
            peer,
        ),
        peers.len() > 0 && (forall|i: int| 0 <= i < peers.len() ==> peers[i].bytes@ != peer.bytes@)
            ==> !peer_allowed(peers, peer),
        peers.len() == 0 ==> peer_allowed(peers, peer),
{
    assert forall|i: int| 0 <= i < peers.len() implies peer_allowed(peers, #[trigger] peers[i]) by {
        assert(key_bytes(peers)[i] == peers[i].bytes@);
    }
    if exists|i: int| 0 <= i < peers.len() && peers[i].bytes@ == peer.bytes@ {
        let i = choose|i: int| 0 <= i < peers.len() && peers[i].bytes@ == peer.bytes@;
        assert(key_bytes(peers)[i] == peer.bytes@);
    }
    if peers.len() > 0 && (forall|i: int| 0 <= i < peers.len() ==> peers[i].bytes@ != peer.bytes@) {
        if key_bytes(peers).contains(peer.bytes@) {
            let j = choose|j: int| 0 <= j < key_bytes(peers).len() && key_bytes(peers)[j] == peer.bytes@;
            assert(key_bytes(peers)[j] == peers[j].bytes@);
        }
    }
}

/// Whether two keys are equal.
fn same_key(a: &PeerKey, b: &PeerKey) -> (r: bool)
    ensures
        r == (a.bytes@ == b.bytes@),
{
    let mut i: usize = 0;
    while i < 32
        invariant
            i <= 32,
            forall|j: int| 0 <= j < i ==> a.bytes@[j] == b.bytes@[j],
        decreases 32 - i,
    {
        if a.bytes[i] != b.bytes[i] {
            return false;
        }
        i = i + 1;
    }
    assert(a.bytes@ =~= b.bytes@);
    true
}

impl ServerConfig {
    /// Whether `peer` may connect: any peer when no peer is listed, else only
    /// a listed one.
    pub fn is_authorized(&self, peer: &PeerKey) -> (r: bool)
        ensures
            r == peer_allowed(self.authorized_peers@, *peer),
    {
        if self.authorized_peers.len() == 0 {
            return true;
        }
        let mut i: usize = 0;
        while i < self.authorized_peers.len()
            invariant
                i <= self.authorized_peers@.len(),
                forall|j: int| 0 <= j < i ==> key_bytes(self.authorized_peers@)[j] != peer.bytes@,
            decreases self.authorized_peers@.len() - i,
        {
            if same_key(&self.authorized_peers[i], peer) {
                assert(key_bytes(self.authorized_peers@)[i as int] == peer.bytes@);
                return true;
            }
            i = i + 1;
        }
        assert(!key_bytes(self.authorized_peers@).contains(peer.bytes@));
        false
    }
}

} // verus!
