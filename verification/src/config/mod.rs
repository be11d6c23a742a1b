//! Configuration module for omnect-os-init
//!
//! Provides a unified `Config` struct loaded once at startup and passed
//! explicitly through the init pipeline.

use vstd::prelude::*;
use vstd::string::*;

use crate::error::{concat2, io_failed, InitOutcome, InitramfsError, IoError};
use crate::map::OrderedMap;
use crate::partition::layout::text_values;
use crate::system::{outcome, text_of, Request, Session, Stop, Transcript};
use crate::text::{split_once, split_once_of, trim_char, trim_char_of, words, words_of};

verus! {

/// Parsed kernel command line parameters.
///
/// Handles both `key=value` pairs and bare flags (e.g. `quiet`, `ro`).
/// Bare flags are stored with an empty string value so `get("quiet")` returns
/// `Some("")` when the flag is present.
#[derive(Debug, Clone)]
pub struct CmdlineConfig {
    params: OrderedMap<String, String>,
}

impl View for CmdlineConfig {
    type V = Map<Seq<char>, Seq<char>>;

    closed spec fn view(&self) -> Map<Seq<char>, Seq<char>> {
        text_values(self.params@)
    }
}

/// The key and the value that a word of the command line sets.
pub open spec fn setting_of(word: Seq<char>) -> (Seq<char>, Seq<char>) {
    match split_once_of(word, '=') {
        Some((key, value)) => (key, trim_char_of(value, '"')),
        None => (word, Seq::empty()),
    }
}

/// What the words of a command line set, one after the other.
pub open spec fn params_of(ws: Seq<Seq<char>>) -> Map<Seq<char>, Seq<char>>
    decreases ws.len(),
{
    if ws.len() == 0 {
        Map::empty()
    } else {
        let (key, value) = setting_of(ws.last());
        params_of(ws.drop_last()).insert(key, value)
    }
}

/// Reads the command line of the kernel.
pub open spec fn cmdline_loaded(t: Transcript) -> (Transcript, InitOutcome<Map<Seq<char>, Seq<char>>>) {
    (
        t.ask(Request::ReadText("/proc/cmdline"@)),
        match t.next() {
            None => Err(Stop::Pending),
            Some(reply) => match text_of(reply) {
                Ok(raw) => Ok(params_of(words_of(raw))),
                Err(e) => Err(Stop::Failed(io_failed("failed to read /proc/cmdline: "@ + e.text()))),
            },
        },
    )
}

impl Default for CmdlineConfig {
    fn default() -> (r: Self)
        ensures
            r@ == Map::<Seq<char>, Seq<char>>::empty(),
    {
        let r = CmdlineConfig { params: OrderedMap::new() };
        assert(r@ =~= Map::<Seq<char>, Seq<char>>::empty());
        r
    }
}

impl CmdlineConfig {
    /// Load from `/proc/cmdline`.
    pub fn load(sys: &mut Session) -> (r: Result<Self, Stop<InitramfsError>>)
        ensures
            (final(sys)@, outcome(r)) == cmdline_loaded(old(sys)@),
    {
        match sys.fetch(Request::ReadText(String::from_str("/proc/cmdline"))) {
            None => Err(Stop::Pending),
            Some(Ok(raw)) => Ok(CmdlineConfig::parse(raw.as_str())),
            Some(Err(e)) => Err(
                Stop::Failed(
                    InitramfsError::Io(
                        IoError::other(concat2("failed to read /proc/cmdline: ", e.to_string().as_str())),
                    ),
                ),
            ),
        }
    }

    /// Parses a raw cmdline string; also usable directly in tests.
    ///
    /// Handles `key=value` pairs and bare flags (e.g. `quiet`, `ro`). Values
    /// containing spaces are not supported — the kernel splits the cmdline on
    /// whitespace, so quoted values with spaces arrive as separate tokens.
    /// Bare flags are stored with an empty string value.
    pub fn parse(cmdline: &str) -> (r: Self)
        ensures
            r@ == params_of(words_of(cmdline@)),
    {
        let mut r = CmdlineConfig::default();
        let ws = words(cmdline);
        let ghost all = words_of(cmdline@);
        let mut i: usize = 0;
        while i < ws.len()
            invariant
                i <= ws@.len(),
                ws.deep_view() == all,
                r@ == params_of(all.take(i as int)),
            decreases ws.len() - i,
        {
            let token = ws[i].as_str();
            assert(all[i as int] == token@);
            assert(all.take(i + 1).drop_last() =~= all.take(i as int));
            let ghost before = r.params@;
            match split_once(token, '=') {
                // The omnect kernel cmdline convention never uses single-quoted values.
                // This strip is purely defensive against the double-quoted root="..."
                // style that some bootloaders emit.
                Some((key, value)) => {
                    let bare = trim_char(value.as_str(), '"');
                    r.params.insert(key, bare);
                    assert(text_values(r.params@) =~= text_values(before).insert(key@, bare@));
                },
                None => {
                    let empty = String::new();
                    r.params.insert(token.to_owned(), empty);
                    assert(empty@ =~= Seq::<char>::empty());
                    assert(text_values(r.params@) =~= text_values(before).insert(token@, empty@));
                },
            }
            i = i + 1;
        }
        assert(all.take(i as int) =~= all);
        r
    }

    /// Get a parameter value by key. Returns `None` if the key is absent.
    pub fn get(&self, key: &str) -> (r: Option<&str>)
        ensures
            match r {
                Some(v) => self@.dom().contains(key@) && self@[key@] == v@,
                None => !self@.dom().contains(key@),
            },
    {
        match self.params.get(&key.to_owned()) {
            Some(v) => Some(v.as_str()),
            None => None,
        }
    }
}

/// The last word that sets a parameter decides about its value, and a parameter that no
/// word sets is absent.
pub proof fn law_last_setting_wins(ws: Seq<Seq<char>>, i: int, key: Seq<char>)
    ensures
        0 <= i < ws.len() && setting_of(ws[i]).0 == key && (forall|j: int|
            i < j < ws.len() ==> setting_of(#[trigger] ws[j]).0 != key) ==> params_of(ws).dom().contains(key)
            && params_of(ws)[key] == setting_of(ws[i]).1,
        (forall|j: int| 0 <= j < ws.len() ==> setting_of(#[trigger] ws[j]).0 != key) ==> !params_of(
            ws,
        ).dom().contains(key),
    decreases ws.len(),
{
    if ws.len() > 0 {
        let front = ws.drop_last();
        law_last_setting_wins(front, i, key);
        assert(forall|j: int| 0 <= j < front.len() ==> front[j] == ws[j]);
        if 0 <= i < ws.len() - 1 && setting_of(ws[i]).0 == key && (forall|j: int|
            i < j < ws.len() ==> setting_of(#[trigger] ws[j]).0 != key) {
            assert(setting_of(ws[ws.len() - 1]).0 != key);
            assert forall|j: int| i < j < front.len() implies setting_of(#[trigger] front[j]).0 != key by {
                assert(front[j] == ws[j]);
            }
        }
        if forall|j: int| 0 <= j < ws.len() ==> setting_of(#[trigger] ws[j]).0 != key {
            assert(setting_of(ws[ws.len() - 1]).0 != key);
            assert forall|j: int| 0 <= j < front.len() implies setting_of(#[trigger] front[j]).0 != key by {
                assert(front[j] == ws[j]);
            }
        }
    }
}

/// Configuration for overlay filesystem setup.
#[derive(Debug, Clone)]
pub struct OverlayConfig {
    /// Whether to enable persistent `/var/log`.
    pub persistent_var_log: bool,
}

impl Default for OverlayConfig {
    fn default() -> (r: Self)
        ensures
            !r.persistent_var_log,
    {
        OverlayConfig { persistent_var_log: false }
    }
}

/// Unified runtime configuration, loaded once during early init and passed
/// explicitly to all init sub-systems.
#[derive(Debug, Clone)]
pub struct Config {
    /// Parsed kernel command line.
    pub cmdline: CmdlineConfig,
    /// Overlay filesystem configuration.
    pub overlay: OverlayConfig,
}

impl Default for Config {
    fn default() -> (r: Self)
        ensures
            r.cmdline@ == Map::<Seq<char>, Seq<char>>::empty(),
            !r.overlay.persistent_var_log,
    {
        Config { cmdline: CmdlineConfig::default(), overlay: OverlayConfig::default() }
    }
}

impl Config {
    /// Load configuration from the running kernel environment.
    ///
    /// Reads `/proc/cmdline`. Whether `/var/log` is persistent is up to the image.
    pub fn load(persistent_var_log: bool, sys: &mut Session) -> (r: Result<Self, Stop<InitramfsError>>)
        ensures
            final(sys)@ == cmdline_loaded(old(sys)@).0,
            match r {
                Ok(config) => cmdline_loaded(old(sys)@).1 == InitOutcome::Ok(config.cmdline@)
                    && config.overlay.persistent_var_log == persistent_var_log,
                Err(e) => cmdline_loaded(old(sys)@).1 == InitOutcome::<Map<Seq<char>, Seq<char>>>::Err(e@),
            },
    {
        match CmdlineConfig::load(sys) {
            Err(e) => Err(e),
            Ok(cmdline) => Ok(Config { cmdline, overlay: OverlayConfig { persistent_var_log } }),
        }
    }
}

} // verus!
