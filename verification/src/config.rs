//! The configuration of a device: who it is, where its data lies, and the peers it
//! syncs with. Reading and writing the configuration file is left to the caller.

use crate::error::{prefixed, ErrorView, VoiceError, VoiceResult};
use crate::ids::{host_name, new_id, parse_uuid, uuid_error_text, uuid_simple, uuid_value};
use crate::text::{all_hex, clone_opt, is_hex32, opt_str, opt_text, starts_with, str_eq};
use crate::validation::refusal;
use vstd::prelude::*;
use vstd::string::*;

verus! {

/// The colours of the interfaces.
#[derive(Debug)]
pub struct ThemeColours {
    /// The colour that marks ambiguous tags.
    pub warnings: String,
    pub tui_border_focused: String,
    pub tui_border_unfocused: String,
    /// The colour of warnings on a dark theme, where it differs.
    pub warnings_dark: Option<String>,
    /// The colour of warnings on a light theme, where it differs.
    pub warnings_light: Option<String>,
}

impl Default for ThemeColours {
    fn default() -> (c: ThemeColours)
        ensures
            c.warnings@ == "#FFFF00"@,
            c.tui_border_focused@ == "green"@,
            c.tui_border_unfocused@ == "blue"@,
            c.warnings_dark is None,
            c.warnings_light is None,
    {
        ThemeColours {
            warnings: String::from_str("#FFFF00"),
            tui_border_focused: String::from_str("green"),
            tui_border_unfocused: String::from_str("blue"),
            warnings_dark: None,
            warnings_light: None,
        }
    }
}

/// The themes.
#[derive(Debug)]
pub struct Themes {
    pub colours: ThemeColours,
}

impl Default for Themes {
    fn default() -> (t: Themes)
        ensures
            t.colours.warnings@ == "#FFFF00"@,
            t.colours.tui_border_focused@ == "green"@,
            t.colours.tui_border_unfocused@ == "blue"@,
            t.colours.warnings_dark is None,
            t.colours.warnings_light is None,
    {
        Themes { colours: ThemeColours::default() }
    }
}

/// A peer to sync with.
#[derive(Debug)]
pub struct PeerConfig {
    /// The device identifier of the peer: 32 hexadecimal digits.
    pub peer_id: String,
    pub peer_name: String,
    pub peer_url: String,
    /// The fingerprint of the certificate that the peer showed first; none until it
    /// showed one.
    pub certificate_fingerprint: Option<String>,
}

/// The model of a [`PeerConfig`].
pub struct PeerConfigView {
    pub peer_id: Seq<char>,
    pub peer_name: Seq<char>,
    pub peer_url: Seq<char>,
    pub certificate_fingerprint: Option<Seq<char>>,
}

impl View for PeerConfig {
    type V = PeerConfigView;

    open spec fn view(&self) -> PeerConfigView {
        PeerConfigView {
            peer_id: self.peer_id@,
            peer_name: self.peer_name@,
            peer_url: self.peer_url@,
            certificate_fingerprint: opt_text(self.certificate_fingerprint),
        }
    }
}

/// The models of the peers, in order.
pub open spec fn peer_config_views(peers: Seq<PeerConfig>) -> Seq<PeerConfigView> {
    Seq::new(peers.len(), |i: int| peers[i]@)
}

/// The first place at or after `i` of a peer with the identifier `id`; the number of peers
/// if there is none.
pub open spec fn peer_place(peers: Seq<PeerConfigView>, id: Seq<char>, i: int) -> int
    decreases peers.len() - i,
{
    if i < 0 || i >= peers.len() {
        peers.len() as int
    } else if peers[i].peer_id == id {
        i
    } else {
        peer_place(peers, id, i + 1)
    }
}

/// The first peer with the identifier `id`, if there is one.
pub open spec fn find_peer(peers: Seq<PeerConfigView>, id: Seq<char>) -> Option<PeerConfigView> {
    if peer_place(peers, id, 0) < peers.len() {
        Some(peers[peer_place(peers, id, 0)])
    } else {
        None
    }
}

/// The peers without those that have the identifier `id`.
pub open spec fn without_peer(peers: Seq<PeerConfigView>, id: Seq<char>) -> Seq<PeerConfigView>
    decreases peers.len(),
{
    if peers.len() == 0 {
        Seq::empty()
    } else if peers.last().peer_id == id {
        without_peer(peers.drop_last(), id)
    } else {
        without_peer(peers.drop_last(), id).push(peers.last())
    }
}

/// The peers after one was added or, where it was there, given a new name and address, and
/// a fingerprint where one comes with it.
pub open spec fn with_peer(
    peers: Seq<PeerConfigView>,
    id: Seq<char>,
    name: Seq<char>,
    url: Seq<char>,
    fingerprint: Option<Seq<char>>,
) -> Seq<PeerConfigView> {
    let at = peer_place(peers, id, 0);
    if at < peers.len() {
        peers.update(
            at,
            PeerConfigView {
                peer_id: id,
                peer_name: name,
                peer_url: url,
                certificate_fingerprint: match fingerprint {
                    Some(f) => Some(f),
                    None => peers[at].certificate_fingerprint,
                },
            },
        )
    } else {
        peers.push(
            PeerConfigView {
                peer_id: id,
                peer_name: name,
                peer_url: url,
                certificate_fingerprint: fingerprint,
            },
        )
    }
}

/// The peers after the first one with the identifier `id` was given the fingerprint.
pub open spec fn with_fingerprint(
    peers: Seq<PeerConfigView>,
    id: Seq<char>,
    fingerprint: Seq<char>,
) -> Seq<PeerConfigView> {
    let at = peer_place(peers, id, 0);
    if at < peers.len() {
        peers.update(
            at,
            PeerConfigView { certificate_fingerprint: Some(fingerprint), ..peers[at] },
        )
    } else {
        peers
    }
}

/// Whether `r` and the peers `after` are what adding a peer gives.
///
/// An identifier that is not made of 32 hexadecimal digits is refused; so is a peer that
/// is there, unless it may be updated. A refusal changes nothing.
pub open spec fn add_peer_outcome(
    r: VoiceResult<()>,
    after: Seq<PeerConfigView>,
    before: Seq<PeerConfigView>,
    id: Seq<char>,
    name: Seq<char>,
    url: Seq<char>,
    fingerprint: Option<Seq<char>>,
    allow_update: bool,
) -> bool {
    if !(id.len() == 32 && all_hex(id)) {
        after == before && match r {
            Ok(_) => false,
            Err(e) => e@ == refusal("peer_id"@, "must be 32 hex characters"@),
        }
    } else if find_peer(before, id) is Some && !allow_update {
        after == before && match r {
            Ok(_) => false,
            Err(e) => e@ == refusal("peer_id"@, "peer already exists"@),
        }
    } else {
        r is Ok && after == with_peer(before, id, name, url, fingerprint)
    }
}

/// How the device syncs.
#[derive(Debug)]
pub struct SyncConfig {
    pub enabled: bool,
    pub server_port: u16,
    pub peers: Vec<PeerConfig>,
}

impl Default for SyncConfig {
    fn default() -> (c: SyncConfig)
        ensures
            !c.enabled,
            c.server_port == 8384,
            c.peers@.len() == 0,
    {
        SyncConfig { enabled: false, server_port: 8384, peers: Vec::new() }
    }
}

/// Everything that the configuration file holds.
#[derive(Debug)]
pub struct ConfigData {
    /// Where the database lies.
    pub database_file: String,
    /// The interface to start; none to pick one.
    pub default_interface: Option<String>,
    pub window_geometry: Option<String>,
    /// Which implementation serves which component, by name.
    pub implementations: Vec<(String, String)>,
    pub themes: Themes,
    /// The identifier of this device: 32 hexadecimal digits.
    pub device_id: String,
    pub device_name: String,
    pub sync: SyncConfig,
    /// The fingerprint of this device's own certificate.
    pub server_certificate_fingerprint: Option<String>,
}

/// The name of a device that was given none: after the machine where it has a name.
pub open spec fn default_device_name(host: Option<Seq<char>>) -> Seq<char> {
    match host {
        Some(h) => "Voice on "@ + h,
        None => "Voice Device"@,
    }
}

/// The name of a device that was given none, on a machine named `host`.
pub fn device_name_for(host: Option<&str>) -> (name: String)
    ensures
        name@ == default_device_name(opt_str(host)),
{
    match host {
        Some(h) => prefixed("Voice on ", h),
        None => String::from_str("Voice Device"),
    }
}

impl ConfigData {
    /// The configuration of a device that has none yet, with the identifier and the name
    /// given.
    pub fn fresh(device_id: String, device_name: String) -> (d: ConfigData)
        ensures
            d.database_file@.len() == 0,
            d.default_interface is None,
            d.window_geometry is None,
            d.implementations@.len() == 0,
            d.themes.colours.warnings@ == "#FFFF00"@,
            d.themes.colours.tui_border_focused@ == "green"@,
            d.themes.colours.tui_border_unfocused@ == "blue"@,
            d.themes.colours.warnings_dark is None,
            d.themes.colours.warnings_light is None,
            d.device_id == device_id,
            d.device_name == device_name,
            !d.sync.enabled,
            d.sync.server_port == 8384,
            d.sync.peers@.len() == 0,
            d.server_certificate_fingerprint is None,
    {
        ConfigData {
            database_file: String::new(),
            default_interface: None,
            window_geometry: None,
            implementations: Vec::new(),
            themes: Themes::default(),
            device_id,
            device_name,
            sync: SyncConfig::default(),
            server_certificate_fingerprint: None,
        }
    }
}

impl Default for ConfigData {
    /// The configuration of a device that has none yet: a fresh identifier, a name after
    /// the machine, no peers, sync switched off.
    fn default() -> (d: ConfigData)
        ensures
            d.device_id@.len() == 32,
            all_hex(d.device_id@),
            d.database_file@.len() == 0,
            !d.sync.enabled,
            d.sync.server_port == 8384,
            d.sync.peers@.len() == 0,
            d.server_certificate_fingerprint is None,
            d.themes.colours.warnings@ == "#FFFF00"@,
    {
        let value = new_id();
        let id = uuid_simple(value);
        proof {
            crate::text::lemma_hex32(value);
        }
        let host = host_name();
        let name = match &host {
            Some(h) => device_name_for(Some(h.as_str())),
            None => device_name_for(None),
        };
        ConfigData::fresh(id, name)
    }
}

/// The configuration of a device, in memory.
pub struct Config {
    config_dir: String,
    data: ConfigData,
}

/// The value that the configuration gives for a key; none for a key that it does not know,
/// and for one that has no value.
pub open spec fn value_of(d: ConfigData, key: Seq<char>) -> Option<Seq<char>> {
    if key == "database_file"@ {
        Some(d.database_file@)
    } else if key == "default_interface"@ {
        opt_text(d.default_interface)
    } else if key == "device_id"@ {
        Some(d.device_id@)
    } else if key == "device_name"@ {
        Some(d.device_name@)
    } else if key == "server_certificate_fingerprint"@ {
        opt_text(d.server_certificate_fingerprint)
    } else {
        None
    }
}

/// Whether `r` and the configuration `after` are what setting a key gives: the value under
/// the key and everything else as it was; for a key that cannot be set, the refusal and
/// nothing changed.
pub open spec fn set_outcome(
    r: VoiceResult<()>,
    after: ConfigData,
    before: ConfigData,
    key: Seq<char>,
    value: Seq<char>,
) -> bool {
    if key == "database_file"@ {
        r is Ok && after.database_file@ == value && after == (ConfigData {
            database_file: after.database_file,
            ..before
        })
    } else if key == "default_interface"@ {
        r is Ok && opt_text(after.default_interface) == Some(value) && after == (ConfigData {
            default_interface: after.default_interface,
            ..before
        })
    } else if key == "device_name"@ {
        r is Ok && after.device_name@ == value && after == (ConfigData {
            device_name: after.device_name,
            ..before
        })
    } else if key == "server_certificate_fingerprint"@ {
        r is Ok && opt_text(after.server_certificate_fingerprint) == Some(value) && after
            == (ConfigData {
            server_certificate_fingerprint: after.server_certificate_fingerprint,
            ..before
        })
    } else {
        after == before && match r {
            Ok(_) => false,
            Err(e) => e@ == ErrorView::Config("Unknown config key: "@ + key),
        }
    }
}

impl Config {
    /// What the configuration holds.
    pub closed spec fn data(&self) -> ConfigData {
        self.data
    }

    /// The directory of the configuration.
    pub closed spec fn dir(&self) -> Seq<char> {
        self.config_dir@
    }

    /// The peers, in order.
    pub open spec fn peer_list(&self) -> Seq<PeerConfigView> {
        peer_config_views(self.data().sync.peers@)
    }

    /// The configuration of the directory `config_dir`: what was stored there, or that of
    /// a device that has none yet, with its database in the directory.
    pub fn new(config_dir: &str, stored: Option<ConfigData>) -> (c: Config)
        ensures
            c.dir() == config_dir@,
            stored matches Some(d) ==> c.data() == d,
            stored is None ==> c.data().database_file@ == config_dir@ + "/notes.db"@ && !c.data().sync.enabled
                && c.data().sync.server_port == 8384 && c.peer_list().len() == 0
                && c.data().device_id@.len() == 32 && all_hex(c.data().device_id@),
    {
        let data = match stored {
            Some(d) => d,
            None => {
                let mut d = ConfigData::default();
                d.database_file = prefixed(config_dir, "/notes.db");
                d
            },
        };
        let c = Config { config_dir: String::from_str(config_dir), data };
        assert(c.peer_list().len() == c.data().sync.peers@.len());
        c
    }

    /// Gives up the configuration for what it holds.
    pub fn into_stored(self) -> (d: ConfigData)
        ensures
            d == self.data(),
    {
        self.data
    }

    /// What is to be stored.
    pub fn stored(&self) -> (d: &ConfigData)
        ensures
            *d == self.data(),
    {
        &self.data
    }

    /// The directory of the configuration.
    pub fn config_dir(&self) -> (dir: &str)
        ensures
            dir@ == self.dir(),
    {
        self.config_dir.as_str()
    }

    /// Where the database lies.
    pub fn database_file(&self) -> (path: &str)
        ensures
            path@ == self.data().database_file@,
    {
        self.data.database_file.as_str()
    }

    /// The identifier of this device, read as the `uuid` crate reads identifiers: with or
    /// without hyphens, in braces, or as a URN.
    pub fn device_id(&self) -> (r: VoiceResult<u128>)
        ensures
            match uuid_value(self.data().device_id@) {
                Some(v) => r == Ok::<u128, VoiceError>(v),
                None => r matches Err(e) && (e@ matches ErrorView::Config(m) && starts_with(
                    m,
                    "Invalid device_id: "@,
                )),
            },
    {
        match parse_uuid(self.data.device_id.as_str()) {
            Ok(v) => Ok(v),
            Err(e) => {
                let m = prefixed("Invalid device_id: ", uuid_error_text(&e).as_str());
                assert(m@.subrange(0, "Invalid device_id: "@.len() as int)
                    =~= "Invalid device_id: "@);
                Err(VoiceError::Config(m))
            },
        }
    }

    /// The identifier of this device as the configuration writes it.
    pub fn device_id_hex(&self) -> (id: &str)
        ensures
            id@ == self.data().device_id@,
    {
        self.data.device_id.as_str()
    }

    /// The name of this device.
    pub fn device_name(&self) -> (name: &str)
        ensures
            name@ == self.data().device_name@,
    {
        self.data.device_name.as_str()
    }

    /// Names this device.
    pub fn set_device_name(&mut self, name: &str)
        ensures
            final(self).data().device_name@ == name@,
            final(self).dir() == old(self).dir(),
            final(self).data() == (ConfigData {
                device_name: final(self).data().device_name,
                ..old(self).data()
            }),
    {
        self.data.device_name = String::from_str(name);
    }

    /// How the device syncs.
    pub fn sync_config(&self) -> (c: &SyncConfig)
        ensures
            *c == self.data().sync,
    {
        &self.data.sync
    }

    /// Whether sync is switched on.
    pub fn is_sync_enabled(&self) -> (on: bool)
        ensures
            on == self.data().sync.enabled,
    {
        self.data.sync.enabled
    }

    /// Switches sync on or off.
    pub fn set_sync_enabled(&mut self, enabled: bool)
        ensures
            final(self).dir() == old(self).dir(),
            final(self).data() == (ConfigData {
                sync: SyncConfig { enabled, ..old(self).data().sync },
                ..old(self).data()
            }),
    {
        self.data.sync.enabled = enabled;
    }

    /// The port on which the device serves its peers.
    pub fn sync_server_port(&self) -> (port: u16)
        ensures
            port == self.data().sync.server_port,
    {
        self.data.sync.server_port
    }

    /// Sets the port on which the device serves its peers.
    pub fn set_sync_server_port(&mut self, port: u16)
        ensures
            final(self).dir() == old(self).dir(),
            final(self).data() == (ConfigData {
                sync: SyncConfig { server_port: port, ..old(self).data().sync },
                ..old(self).data()
            }),
    {
        self.data.sync.server_port = port;
    }

    /// The peers.
    pub fn peers(&self) -> (peers: &Vec<PeerConfig>)
        ensures
            peer_config_views(peers@) == self.peer_list(),
    {
        &self.data.sync.peers
    }

    fn peer_index(&self, peer_id: &str) -> (at: usize)
        ensures
            at == peer_place(self.peer_list(), peer_id@, 0),
            at <= self.data().sync.peers@.len(),
    {
        let mut i: usize = 0;
        while i < self.data.sync.peers.len()
            invariant
                i <= self.data.sync.peers.len(),
                peer_place(self.peer_list(), peer_id@, 0) == peer_place(
                    self.peer_list(),
                    peer_id@,
                    i as int,
                ),
            decreases self.data.sync.peers.len() - i,
        {
            assert(self.peer_list()[i as int] == self.data.sync.peers@[i as int]@);
            if str_eq(self.data.sync.peers[i].peer_id.as_str(), peer_id) {
                return i;
            }
            i += 1;
        }
        i
    }

    /// Adds a peer, or updates the one of the same identifier where `allow_update` says so.
    ///
    /// The identifier must be made of 32 hexadecimal digits. A peer that is there keeps its
    /// fingerprint where none is given.
    pub fn add_peer(
        &mut self,
        peer_id: &str,
        peer_name: &str,
        peer_url: &str,
        certificate_fingerprint: Option<&str>,
        allow_update: bool,
    ) -> (r: VoiceResult<()>)
        ensures
            final(self).dir() == old(self).dir(),
            final(self).data() == (ConfigData {
                sync: SyncConfig { peers: final(self).data().sync.peers, ..old(self).data().sync },
                ..old(self).data()
            }),
            add_peer_outcome(
                r,
                final(self).peer_list(),
                old(self).peer_list(),
                peer_id@,
                peer_name@,
                peer_url@,
                opt_str(certificate_fingerprint),
                allow_update,
            ),
    {
        if !is_hex32(peer_id) {
            return Err(VoiceError::validation("peer_id", "must be 32 hex characters"));
        }
        let at = self.peer_index(peer_id);
        let ghost before = self.peer_list();
        if at < self.data.sync.peers.len() {
            if !allow_update {
                return Err(VoiceError::validation("peer_id", "peer already exists"));
            }
            assert(before[at as int] == self.data.sync.peers@[at as int]@);
            let fingerprint = match certificate_fingerprint {
                Some(f) => Some(String::from_str(f)),
                None => clone_opt(&self.data.sync.peers[at].certificate_fingerprint),
            };
            let peer = PeerConfig {
                peer_id: String::from_str(peer_id),
                peer_name: String::from_str(peer_name),
                peer_url: String::from_str(peer_url),
                certificate_fingerprint: fingerprint,
            };
            self.data.sync.peers.set(at, peer);
            assert(self.peer_list() =~= with_peer(
                before,
                peer_id@,
                peer_name@,
                peer_url@,
                opt_str(certificate_fingerprint),
            ));
        } else {
            let peer = PeerConfig {
                peer_id: String::from_str(peer_id),
                peer_name: String::from_str(peer_name),
                peer_url: String::from_str(peer_url),
                certificate_fingerprint: match certificate_fingerprint {
                    Some(f) => Some(String::from_str(f)),
                    None => None,
                },
            };
            self.data.sync.peers.push(peer);
            assert(self.peer_list() =~= with_peer(
                before,
                peer_id@,
                peer_name@,
                peer_url@,
                opt_str(certificate_fingerprint),
            ));
        }
        Ok(())
    }

    /// Removes the peers of the identifier `peer_id`; tells whether there was one.
    pub fn remove_peer(&mut self, peer_id: &str) -> (removed: bool)
        ensures
            final(self).dir() == old(self).dir(),
            final(self).data() == (ConfigData {
                sync: SyncConfig { peers: final(self).data().sync.peers, ..old(self).data().sync },
                ..old(self).data()
            }),
            final(self).peer_list() == without_peer(old(self).peer_list(), peer_id@),
            removed == (find_peer(old(self).peer_list(), peer_id@) is Some),
    {
        let ghost before = self.peer_list();
        let at = self.peer_index(peer_id);
        let had = at < self.data.sync.peers.len();
        let mut kept: Vec<PeerConfig> = Vec::new();
        let mut i: usize = 0;
        assert(before.take(0) =~= Seq::<PeerConfigView>::empty());
        while i < self.data.sync.peers.len()
            invariant
                i <= self.data.sync.peers.len(),
                self.peer_list() == before,
                peer_config_views(kept@) == without_peer(before.take(i as int), peer_id@),
            decreases self.data.sync.peers.len() - i,
        {
            let peer = &self.data.sync.peers[i];
            proof {
                assert(before[i as int] == peer@);
                assert(before.take(i + 1).drop_last() =~= before.take(i as int));
                assert(before.take(i + 1).last() == peer@);
            }
            if !str_eq(peer.peer_id.as_str(), peer_id) {
                let copy = PeerConfig {
                    peer_id: peer.peer_id.clone(),
                    peer_name: peer.peer_name.clone(),
                    peer_url: peer.peer_url.clone(),
                    certificate_fingerprint: clone_opt(&peer.certificate_fingerprint),
                };
                let ghost old_kept = peer_config_views(kept@);
                kept.push(copy);
                assert(peer_config_views(kept@) =~= old_kept.push(peer@));
            }
            i += 1;
        }
        assert(before.take(before.len() as int) =~= before);
        self.data.sync.peers = kept;
        had
    }

    /// The first peer of the identifier `peer_id`, if there is one.
    pub fn get_peer(&self, peer_id: &str) -> (r: Option<&PeerConfig>)
        ensures
            match r {
                Some(p) => Some(p@),
                None => None,
            } == find_peer(self.peer_list(), peer_id@),
    {
        let at = self.peer_index(peer_id);
        if at < self.data.sync.peers.len() {
            assert(self.peer_list()[at as int] == self.data.sync.peers@[at as int]@);
            Some(&self.data.sync.peers[at])
        } else {
            None
        }
    }

    /// Gives the first peer of the identifier `peer_id` the fingerprint; tells whether
    /// there is such a peer.
    pub fn update_peer_certificate(&mut self, peer_id: &str, fingerprint: &str) -> (updated: bool)
        ensures
            final(self).dir() == old(self).dir(),
            final(self).data() == (ConfigData {
                sync: SyncConfig { peers: final(self).data().sync.peers, ..old(self).data().sync },
                ..old(self).data()
            }),
            final(self).peer_list() == with_fingerprint(
                old(self).peer_list(),
                peer_id@,
                fingerprint@,
            ),
            updated == (find_peer(old(self).peer_list(), peer_id@) is Some),
    {
        let at = self.peer_index(peer_id);
        let ghost before = self.peer_list();
        if at < self.data.sync.peers.len() {
            assert(before[at as int] == self.data.sync.peers@[at as int]@);
            let have = &self.data.sync.peers[at];
            let peer = PeerConfig {
                peer_id: have.peer_id.clone(),
                peer_name: have.peer_name.clone(),
                peer_url: have.peer_url.clone(),
                certificate_fingerprint: Some(String::from_str(fingerprint)),
            };
            self.data.sync.peers.set(at, peer);
            assert(self.peer_list() =~= with_fingerprint(before, peer_id@, fingerprint@));
            true
        } else {
            false
        }
    }

    /// The directory of the certificates: `certs` in the directory of the configuration.
    pub fn certs_dir(&self) -> (dir: String)
        ensures
            dir@ == self.dir() + "/certs"@,
    {
        prefixed(self.config_dir.as_str(), "/certs")
    }

    /// The colours of the borders: focused, then unfocused.
    pub fn tui_colors(&self) -> (c: (&str, &str))
        ensures
            c.0@ == self.data().themes.colours.tui_border_focused@,
            c.1@ == self.data().themes.colours.tui_border_unfocused@,
    {
        (
            self.data.themes.colours.tui_border_focused.as_str(),
            self.data.themes.colours.tui_border_unfocused.as_str(),
        )
    }

    /// The colour of warnings on the theme `theme`: the one set for `light` or, for any
    /// other theme, for dark; the common one where that is not set.
    pub fn warning_color(&self, theme: &str) -> (colour: &str)
        ensures
            colour@ == match if theme@ == "light"@ {
                opt_text(self.data().themes.colours.warnings_light)
            } else {
                opt_text(self.data().themes.colours.warnings_dark)
            } {
                Some(c) => c,
                None => self.data().themes.colours.warnings@,
            },
    {
        let chosen = if str_eq(theme, "light") {
            &self.data.themes.colours.warnings_light
        } else {
            &self.data.themes.colours.warnings_dark
        };
        match chosen {
            Some(c) => c.as_str(),
            None => self.data.themes.colours.warnings.as_str(),
        }
    }

    /// The value of a key.
    pub fn get(&self, key: &str) -> (r: Option<String>)
        ensures
            opt_text(r) == value_of(self.data(), key@),
    {
        if str_eq(key, "database_file") {
            Some(self.data.database_file.clone())
        } else if str_eq(key, "default_interface") {
            clone_opt(&self.data.default_interface)
        } else if str_eq(key, "device_id") {
            Some(self.data.device_id.clone())
        } else if str_eq(key, "device_name") {
            Some(self.data.device_name.clone())
        } else if str_eq(key, "server_certificate_fingerprint") {
            clone_opt(&self.data.server_certificate_fingerprint)
        } else {
            None
        }
    }

    /// Sets the value of a key. A key that cannot be set is refused, and nothing changes.
    pub fn set(&mut self, key: &str, value: &str) -> (r: VoiceResult<()>)
        ensures
            final(self).dir() == old(self).dir(),
            set_outcome(r, final(self).data(), old(self).data(), key@, value@),
    {
        if str_eq(key, "database_file") {
            self.data.database_file = String::from_str(value);
        } else if str_eq(key, "default_interface") {
            self.data.default_interface = Some(String::from_str(value));
        } else if str_eq(key, "device_name") {
            self.data.device_name = String::from_str(value);
        } else if str_eq(key, "server_certificate_fingerprint") {
            self.data.server_certificate_fingerprint = Some(String::from_str(value));
        } else {
            return Err(VoiceError::Config(prefixed("Unknown config key: ", key)));
        }
        Ok(())
    }
}

} // verus!
