//! Configuration of a factory reset
//!
//! The trigger in the boot environment names the mode and what to preserve; the lists of
//! preserved paths are in configuration files of the rootfs.

use vstd::prelude::*;
use vstd::string::*;

use crate::error::{concat2, concat3, concat4, FactoryResetError, InitErrorView, InitOutcome, InitramfsError, IoError};
use crate::fields::{field_of, lemma_last_occurs, members_of, opens, pair_of, read_pair, times};
use crate::json::{items_view, json_of, lemma_parts, member_from, opt_member, parse, Json, JsonView};
use crate::path::{climbs, extension, extension_of, has_parent_dir, join, joined, strip_root, without_root};
use crate::system::{
    flag_of, names_of, opt_view, outcome, text_of, IoErrorView, Request, Session, Stop, Transcript,
};
use crate::text::{dec_of, decimal, push_text, same};

verus! {

pub const FACTORY_RESET_CONFIG_FILE: &'static str = "etc/omnect/factory-reset.json";

pub const FACTORY_RESET_CONFIG_DIR: &'static str = "etc/omnect/factory-reset.d";

pub const PRESERVE_LIST_MANDATORY: &'static str = "/etc/omnect/factory-reset.d/";

pub const KEY_APPLICATIONS: &'static str = "applications";

pub const KEY_PATHS: &'static str = "paths";

/// An error of a factory reset by view.
pub type ResetErrorView = FactoryResetError<Seq<char>>;

/// How a step of a factory reset ended, by view.
pub type ResetFlow<T> = Result<T, Stop<ResetErrorView>>;

/// Validated factory-reset mode. Only `Mode1` is representable; any other value
/// is rejected when it is read, so an unsupported trigger never reaches the
/// reset sequence.
#[derive(Debug, Clone, Copy, PartialEq, Eq, Structural)]
pub enum ResetMode {
    Mode1,
}

impl ResetMode {
    /// The mode number on the wire.
    pub fn number(self) -> (r: u32)
        ensures
            r == 1,
    {
        1
    }

    /// The mode with a number, if it is supported.
    pub fn try_from(value: u32) -> (r: Result<ResetMode, String>)
        ensures
            match r {
                Ok(mode) => value == 1,
                Err(e) => value != 1 && e@ == unsupported_mode(value as nat),
            },
    {
        if value == 1 {
            Ok(ResetMode::Mode1)
        } else {
            Err(concat3("factory reset mode ", decimal(value as u64).as_str(), " is not supported"))
        }
    }
}

pub open spec fn unsupported_mode(value: nat) -> Seq<char> {
    "factory reset mode "@ + dec_of(value) + " is not supported"@
}

/// The trigger of a factory reset.
#[derive(Debug)]
pub struct FactoryResetConfig<L = Vec<String>> {
    pub mode: ResetMode,
    pub preserve: L,
}

/// The trigger of a factory reset by view.
pub type ResetConfigView = FactoryResetConfig<Seq<Seq<char>>>;

impl View for FactoryResetConfig {
    type V = ResetConfigView;

    open spec fn view(&self) -> ResetConfigView {
        FactoryResetConfig { mode: self.mode, preserve: self.preserve.deep_view() }
    }
}

/// The mode in a JSON value.
pub open spec fn mode_in(json: JsonView) -> Result<ResetMode, Seq<char>> {
    match json {
        JsonView::Number(Some(n)) => if 0 <= n <= u32::MAX {
            if n == 1 {
                Ok(ResetMode::Mode1)
            } else {
                Err(unsupported_mode(n as nat))
            }
        } else {
            Err("invalid value: expected u32"@)
        },
        _ => Err("invalid type: expected u32"@),
    }
}

/// The texts in a list, unless one of its items is none.
pub open spec fn texts_in(items: Seq<JsonView>) -> Result<Seq<Seq<char>>, Seq<char>>
    decreases items.len(),
{
    if items.len() == 0 {
        Ok(Seq::empty())
    } else {
        match texts_in(items.drop_last()) {
            Err(e) => Err(e),
            Ok(front) => match items.last() {
                JsonView::Text(s) => Ok(front.push(s)),
                _ => Err("invalid type: expected a string"@),
            },
        }
    }
}

/// The keys to preserve; none where nothing is said.
pub open spec fn preserve_in(json: Option<JsonView>) -> Result<Seq<Seq<char>>, Seq<char>> {
    match json {
        None => Ok(Seq::empty()),
        Some(JsonView::List(items)) => texts_in(items),
        Some(_) => Err("invalid type: expected a sequence"@),
    }
}

/// A trigger in JSON: an object, or a list of the mode and, if wanted, the keys to preserve.
pub open spec fn trigger_in(json: JsonView) -> Result<ResetConfigView, Seq<char>> {
    let parts = match json {
        JsonView::Object(_) => match json.member("mode"@) {
            Some(mode) => Ok((mode, json.member("preserve"@))),
            None => Err("missing field `mode`"@),
        },
        JsonView::List(items) => if items.len() == 1 {
            Ok((items[0], None))
        } else if items.len() == 2 {
            Ok((items[0], Some(items[1])))
        } else {
            Err("invalid length: expected struct FactoryResetConfig with 2 elements"@)
        },
        _ => Err("invalid type: expected struct FactoryResetConfig"@),
    };
    match parts {
        Err(e) => Err(e),
        Ok((mode, preserve)) => match mode_in(mode) {
            Err(e) => Err(e),
            Ok(mode) => match preserve_in(preserve) {
                Err(e) => Err(e),
                Ok(preserve) => Ok(FactoryResetConfig { mode, preserve }),
            },
        },
    }
}

/// A trigger in a JSON text. It is an error that one of its fields occurs twice; other names do
/// not matter.
pub open spec fn trigger_of(text: Seq<char>) -> Result<ResetConfigView, InitErrorView> {
    match (match pair_of(text, "mode"@, "preserve"@) {
        Err(e) => Err(e),
        Ok(json) => trigger_in(json),
    }) {
        Ok(config) => Ok(config),
        Err(e) => Err(
            InitramfsError::FactoryReset(
                FactoryResetError::InvalidConfig("Failed to parse factory-reset JSON: "@ + e),
            ),
        ),
    }
}

fn mode_from(json: &Json) -> (r: Result<ResetMode, String>)
    ensures
        match r {
            Ok(mode) => mode_in(json@) == Ok::<ResetMode, Seq<char>>(mode),
            Err(e) => mode_in(json@) == Err::<ResetMode, Seq<char>>(e@),
        },
{
    match json {
        Json::Number(Some(n)) => {
            let n: i128 = *n;
            if 0 <= n && n <= 0xffff_ffff {
                ResetMode::try_from(n as u32)
            } else {
                Err(String::from_str("invalid value: expected u32"))
            }
        },
        _ => Err(String::from_str("invalid type: expected u32")),
    }
}

/// A list whose beginning fails, fails with it.
proof fn lemma_failure_stays(items: Seq<JsonView>, n: int)
    requires
        0 <= n <= items.len(),
        texts_in(items.take(n)) is Err,
    ensures
        texts_in(items) == texts_in(items.take(n)),
    decreases items.len() - n,
{
    if n < items.len() {
        assert(items.take(n + 1).drop_last() =~= items.take(n));
        lemma_failure_stays(items, n + 1);
    } else {
        assert(items.take(n) =~= items);
    }
}

fn texts_from(items: &Vec<Json>) -> (r: Result<Vec<String>, String>)
    ensures
        match r {
            Ok(list) => texts_in(items_view(items@)) == Ok::<Seq<Seq<char>>, Seq<char>>(list.deep_view()),
            Err(e) => texts_in(items_view(items@)) == Err::<Seq<Seq<char>>, Seq<char>>(e@),
        },
{
    let ghost all = items_view(items@);
    let mut list: Vec<String> = Vec::new();
    assert(list.deep_view() =~= Seq::<Seq<char>>::empty());
    let mut i: usize = 0;
    while i < items.len()
        invariant
            i <= items@.len(),
            all == items_view(items@),
            texts_in(all.take(i as int)) == Ok::<Seq<Seq<char>>, Seq<char>>(list.deep_view()),
        decreases items.len() - i,
    {
        assert(all.take(i + 1).drop_last() =~= all.take(i as int));
        assert(all.take(i + 1).last() == items@[i as int]@);
        match &items[i] {
            Json::Text(s) => {
                push_text(&mut list, s.as_str());
            },
            _ => {
                proof {
                    lemma_failure_stays(all, i + 1);
                }
                return Err(String::from_str("invalid type: expected a string"));
            },
        }
        i = i + 1;
    }
    assert(all.take(i as int) =~= all);
    Ok(list)
}

impl FactoryResetConfig {
    /// The trigger in a JSON value.
    pub fn from_json(json: &Json) -> (r: Result<FactoryResetConfig, String>)
        ensures
            match r {
                Ok(c) => trigger_in(json@) == Ok::<ResetConfigView, Seq<char>>(c@),
                Err(e) => trigger_in(json@) == Err::<ResetConfigView, Seq<char>>(e@),
            },
    {
        proof {
            lemma_parts(*json);
        }
        let (mode, preserve) = match json {
            Json::Object(_) => match json.get("mode") {
                Some(mode) => (mode, json.get("preserve")),
                None => {
                    return Err(String::from_str("missing field `mode`"));
                },
            },
            Json::List(items) => {
                if items.len() == 1 {
                    assert(items_view(items@)[0] == items@[0]@);
                    (&items[0], None)
                } else if items.len() == 2 {
                    assert(items_view(items@)[0] == items@[0]@);
                    assert(items_view(items@)[1] == items@[1]@);
                    (&items[0], Some(&items[1]))
                } else {
                    return Err(
                        String::from_str("invalid length: expected struct FactoryResetConfig with 2 elements"),
                    );
                }
            },
            _ => {
                return Err(String::from_str("invalid type: expected struct FactoryResetConfig"));
            },
        };
        let mode = match mode_from(mode) {
            Err(e) => {
                return Err(e);
            },
            Ok(mode) => mode,
        };
        let preserve = match preserve {
            None => {
                let none: Vec<String> = Vec::new();
                assert(none.deep_view() =~= Seq::<Seq<char>>::empty());
                none
            },
            Some(list) => {
                proof {
                    lemma_parts(*list);
                }
                match list {
                    Json::List(items) => match texts_from(items) {
                        Err(e) => {
                            return Err(e);
                        },
                        Ok(list) => list,
                    },
                    _ => {
                        return Err(String::from_str("invalid type: expected a sequence"));
                    },
                }
            },
        };
        Ok(FactoryResetConfig { mode, preserve })
    }

    /// The trigger in a JSON text.
    pub fn parse(json: &str) -> (r: Result<FactoryResetConfig, InitramfsError>)
        ensures
            match r {
                Ok(c) => trigger_of(json@) == Ok::<ResetConfigView, InitErrorView>(c@),
                Err(e) => trigger_of(json@) == Err::<ResetConfigView, InitErrorView>(e@),
            },
    {
        let r = match read_pair(json, "mode", "preserve") {
            Err(e) => Err(e),
            Ok(value) => FactoryResetConfig::from_json(&value),
        };
        match r {
            Ok(config) => Ok(config),
            Err(e) => Err(
                InitramfsError::FactoryReset(
                    FactoryResetError::InvalidConfig(concat2("Failed to parse factory-reset JSON: ", e.as_str())),
                ),
            ),
        }
    }
}

/// What is wrong with a path to preserve.
pub open spec fn preserve_fault(path: Seq<char>) -> Option<ResetErrorView> {
    if without_root(path).len() == 0 {
        Some(FactoryResetError::InvalidConfig("preserve path must not be empty"@))
    } else if climbs(without_root(path)) {
        Some(
            FactoryResetError::InvalidConfig(
                "preserve path '"@ + path + "' contains '..' and would escape rootfs"@,
            ),
        )
    } else {
        None
    }
}

/// Reject a preserve-list entry that is empty or contains a `..` component,
/// which would otherwise let backup/restore escape the rootfs tree.
pub fn validate_preserve_path(path: &str) -> (r: Result<(), FactoryResetError>)
    ensures
        match r {
            Ok(_) => preserve_fault(path@) is None,
            Err(e) => preserve_fault(path@) == Some(e@),
        },
{
    let bare = strip_root(path);
    if bare.as_str().is_empty() {
        return Err(FactoryResetError::InvalidConfig(String::from_str("preserve path must not be empty")));
    }
    if has_parent_dir(bare.as_str()) {
        return Err(
            FactoryResetError::InvalidConfig(
                concat3("preserve path '", path, "' contains '..' and would escape rootfs"),
            ),
        );
    }
    Ok(())
}

/// `list` with the paths in `items` from position `i` on. An item that is no text fails with
/// `not_text`.
pub open spec fn paths_added(list: Seq<Seq<char>>, items: Seq<JsonView>, not_text: Seq<char>, i: int) -> Result<
    Seq<Seq<char>>,
    ResetErrorView,
>
    decreases items.len() - i,
{
    if i < 0 || i >= items.len() {
        Ok(list)
    } else {
        match items[i] {
            JsonView::Text(s) => match preserve_fault(s) {
                Some(e) => Err(e),
                None => paths_added(list.push(s), items, not_text, i + 1),
            },
            _ => Err(FactoryResetError::InvalidConfig(not_text)),
        }
    }
}

fn add_paths(list: &mut Vec<String>, items: &Vec<Json>, not_text: &str) -> (r: Result<(), FactoryResetError>)
    ensures
        match r {
            Ok(_) => paths_added(old(list).deep_view(), items_view(items@), not_text@, 0) == Ok::<
                Seq<Seq<char>>,
                ResetErrorView,
            >(final(list).deep_view()),
            Err(e) => paths_added(old(list).deep_view(), items_view(items@), not_text@, 0) == Err::<
                Seq<Seq<char>>,
                ResetErrorView,
            >(e@),
        },
{
    let ghost all = items_view(items@);
    let mut i: usize = 0;
    while i < items.len()
        invariant
            i <= items@.len(),
            all == items_view(items@),
            paths_added(list.deep_view(), all, not_text@, i as int) == paths_added(
                old(list).deep_view(),
                all,
                not_text@,
                0,
            ),
        decreases items.len() - i,
    {
        assert(all[i as int] == items@[i as int]@);
        match &items[i] {
            Json::Text(s) => {
                match validate_preserve_path(s.as_str()) {
                    Err(e) => {
                        return Err(e);
                    },
                    Ok(()) => {},
                }
                push_text(list, s.as_str());
            },
            _ => {
                return Err(FactoryResetError::InvalidConfig(not_text.to_owned()));
            },
        }
        i = i + 1;
    }
    Ok(())
}

/// The error of a file or directory that cannot be read.
pub open spec fn unreadable(what: Seq<char>, path: Seq<char>, e: IoErrorView) -> ResetErrorView {
    FactoryResetError::Io(IoError { kind: e.kind, message: what + path + ": "@ + e.text() })
}

fn unreadable_error(what: &str, path: &str, e: IoError) -> (r: FactoryResetError)
    ensures
        r@ == unreadable(what@, path@, e@),
{
    let text = e.to_string();
    FactoryResetError::Io(IoError { kind: e.kind, message: concat4(what, path, ": ", text.as_str()) })
}

/// `list` with the paths that an application's file names.
pub open spec fn application_added(list: Seq<Seq<char>>, path: Seq<char>, content: Seq<char>) -> Result<
    Seq<Seq<char>>,
    ResetErrorView,
> {
    match json_of(content) {
        Err(e) => Err(FactoryResetError::InvalidConfig(path + ": invalid JSON ("@ + e + ")"@)),
        Ok(value) => match value.member(KEY_PATHS@) {
            Some(JsonView::List(items)) => paths_added(
                list,
                items,
                path + ": '"@ + KEY_PATHS@ + "' array must contain only strings"@,
                0,
            ),
            _ => Ok(list),
        },
    }
}

fn add_application(list: &mut Vec<String>, path: &str, content: &str) -> (r: Result<(), FactoryResetError>)
    ensures
        match r {
            Ok(_) => application_added(old(list).deep_view(), path@, content@) == Ok::<
                Seq<Seq<char>>,
                ResetErrorView,
            >(final(list).deep_view()),
            Err(e) => application_added(old(list).deep_view(), path@, content@) == Err::<
                Seq<Seq<char>>,
                ResetErrorView,
            >(e@),
        },
{
    let value = match parse(content) {
        Err(e) => {
            return Err(
                FactoryResetError::InvalidConfig(concat4(path, ": invalid JSON (", e.as_str(), ")")),
            );
        },
        Ok(value) => value,
    };
    match value.get(KEY_PATHS) {
        Some(paths) => {
            proof {
                lemma_parts(*paths);
            }
            match paths {
                Json::List(items) => {
                    let not_text = concat4(path, ": '", KEY_PATHS, "' array must contain only strings");
                    add_paths(list, items, not_text.as_str())
                },
                _ => Ok(()),
            }
        },
        None => Ok(()),
    }
}

/// `list` with the paths of the application files from position `i` on, then the error that
/// ended the listing, if there is one.
pub open spec fn applications_added(
    t: Transcript,
    list: Seq<Seq<char>>,
    dir: Seq<char>,
    names: Seq<Seq<char>>,
    failed: Option<IoErrorView>,
    i: int,
) -> (Transcript, ResetFlow<Seq<Seq<char>>>)
    decreases names.len() - i,
{
    if i < 0 || i >= names.len() {
        (
            t,
            match failed {
                Some(e) => Err(Stop::Failed(unreadable("Failed to read entry in "@, dir, e))),
                None => Ok(list),
            },
        )
    } else if extension_of(names[i]) != Some("json"@) {
        applications_added(t, list, dir, names, failed, i + 1)
    } else {
        let path = joined(dir, names[i]);
        let t1 = t.ask(Request::ReadText(path));
        match t.next() {
            None => (t1, Err(Stop::Pending)),
            Some(reply) => match text_of(reply) {
                Err(e) => (t1, Err(Stop::Failed(unreadable("Failed to read "@, path, e)))),
                Ok(content) => match application_added(list, path, content) {
                    Err(e) => (t1, Err(Stop::Failed(e))),
                    Ok(more) => applications_added(t1, more, dir, names, failed, i + 1),
                },
            },
        }
    }
}

/// `list` with the paths that the applications want to preserve.
pub open spec fn applications_collected(t: Transcript, list: Seq<Seq<char>>, rootfs: Seq<char>) -> (
    Transcript,
    ResetFlow<Seq<Seq<char>>>,
) {
    let dir = joined(rootfs, FACTORY_RESET_CONFIG_DIR@);
    let t1 = t.ask(Request::Exists(dir));
    match t.next() {
        None => (t1, Err(Stop::Pending)),
        Some(there) => if !flag_of(there) {
            (t1, Ok(list))
        } else {
            let t2 = t1.ask(Request::ListDir(dir));
            match t1.next() {
                None => (t2, Err(Stop::Pending)),
                Some(reply) => match names_of(reply) {
                    Err(e) => (t2, Err(Stop::Failed(unreadable("Failed to read "@, dir, e)))),
                    Ok((names, failed)) => applications_added(t2, list, dir, names, failed, 0),
                },
            }
        },
    }
}

/// What a step comes to that leaves a list behind.
pub open spec fn with_list(r: Result<(), Stop<FactoryResetError>>, list: Seq<Seq<char>>) -> ResetFlow<Seq<Seq<char>>> {
    match r {
        Ok(_) => Ok(list),
        Err(e) => Err(e@),
    }
}

fn collect_application_paths(rootfs: &str, list: &mut Vec<String>, sys: &mut Session) -> (r: Result<
    (),
    Stop<FactoryResetError>,
>)
    ensures
        (final(sys)@, with_list(r, final(list).deep_view())) == applications_collected(
            old(sys)@,
            old(list).deep_view(),
            rootfs@,
        ),
{
    let dir = join(rootfs, FACTORY_RESET_CONFIG_DIR);
    match sys.query(Request::Exists(dir.clone())) {
        None => {
            return Err(Stop::Pending);
        },
        Some(false) => {
            return Ok(());
        },
        Some(true) => {},
    }
    let (names, failed) = match sys.list(Request::ListDir(dir.clone())) {
        None => {
            return Err(Stop::Pending);
        },
        Some(Err(e)) => {
            return Err(Stop::Failed(unreadable_error("Failed to read ", dir.as_str(), e)));
        },
        Some(Ok(p)) => p,
    };
    let ghost all = names.deep_view();
    let ghost err = opt_view(failed);
    let mut i: usize = 0;
    while i < names.len()
        invariant
            i <= names@.len(),
            all == names.deep_view(),
            applications_added(sys@, list.deep_view(), dir@, all, err, i as int) == applications_collected(
                old(sys)@,
                old(list).deep_view(),
                rootfs@,
            ),
        decreases names.len() - i,
    {
        assert(all[i as int] == names@[i as int]@);
        let is_json = match extension(names[i].as_str()) {
            Some(e) => same(e.as_str(), "json"),
            None => false,
        };
        if is_json {
            let path = join(dir.as_str(), names[i].as_str());
            let content = match sys.fetch(Request::ReadText(path.clone())) {
                None => {
                    return Err(Stop::Pending);
                },
                Some(Err(e)) => {
                    return Err(Stop::Failed(unreadable_error("Failed to read ", path.as_str(), e)));
                },
                Some(Ok(content)) => content,
            };
            match add_application(list, path.as_str(), content.as_str()) {
                Err(e) => {
                    return Err(Stop::Failed(e));
                },
                Ok(()) => {},
            }
        }
        i = i + 1;
    }
    // A per-entry read error (I/O error, race) must abort the reset, not silently drop an
    // application's preserve list — a dropped list means its paths are wiped and
    // restore_all still reports Success.
    match failed {
        Some(e) => Err(Stop::Failed(unreadable_error("Failed to read entry in ", dir.as_str(), e))),
        None => Ok(()),
    }
}

/// `list` with the paths that the configuration file names for a key.
pub open spec fn key_added(list: Seq<Seq<char>>, value: JsonView, file: Seq<char>, key: Seq<char>) -> Result<
    Seq<Seq<char>>,
    ResetErrorView,
> {
    match value.member(key) {
        None => Err(FactoryResetError::MissingField(file + ": no '"@ + key + "' key"@)),
        Some(JsonView::List(items)) => paths_added(
            list,
            items,
            file + ": value for key '"@ + key + "' must contain only strings"@,
            0,
        ),
        Some(_) => Err(
            FactoryResetError::InvalidConfig(file + ": value for key '"@ + key + "' must be an array"@),
        ),
    }
}

fn add_key(list: &mut Vec<String>, value: &Json, file: &str, key: &str) -> (r: Result<(), FactoryResetError>)
    ensures
        match r {
            Ok(_) => key_added(old(list).deep_view(), value@, file@, key@) == Ok::<
                Seq<Seq<char>>,
                ResetErrorView,
            >(final(list).deep_view()),
            Err(e) => key_added(old(list).deep_view(), value@, file@, key@) == Err::<
                Seq<Seq<char>>,
                ResetErrorView,
            >(e@),
        },
{
    let paths = match value.get(key) {
        None => {
            return Err(FactoryResetError::MissingField(concat4(file, ": no '", key, "' key")));
        },
        Some(paths) => paths,
    };
    proof {
        lemma_parts(*paths);
    }
    match paths {
        Json::List(items) => {
            let not_text = concat4(file, ": value for key '", key, "' must contain only strings");
            add_paths(list, items, not_text.as_str())
        },
        _ => Err(
            FactoryResetError::InvalidConfig(concat4(file, ": value for key '", key, "' must be an array")),
        ),
    }
}

/// `list` with the paths for the keys from position `i` on. `config` is the configuration
/// file, where it was needed.
pub open spec fn keys_added(
    t: Transcript,
    list: Seq<Seq<char>>,
    config: Option<JsonView>,
    rootfs: Seq<char>,
    keys: Seq<Seq<char>>,
    i: int,
) -> (Transcript, ResetFlow<Seq<Seq<char>>>)
    decreases keys.len() - i,
{
    if i < 0 || i >= keys.len() {
        (t, Ok(list))
    } else if keys[i] == KEY_APPLICATIONS@ {
        match applications_collected(t, list, rootfs) {
            (t1, Err(e)) => (t1, Err(e)),
            (t1, Ok(more)) => keys_added(t1, more, config, rootfs, keys, i + 1),
        }
    } else {
        match config {
            None => (t, Ok(list)),
            Some(value) => match key_added(
                list,
                value,
                joined(rootfs, FACTORY_RESET_CONFIG_FILE@),
                keys[i],
            ) {
                Err(e) => (t, Err(Stop::Failed(e))),
                Ok(more) => keys_added(t, more, config, rootfs, keys, i + 1),
            },
        }
    }
}

/// The configuration file is needed: some key is not about the applications.
pub open spec fn needs_file(keys: Seq<Seq<char>>) -> bool {
    exists|i: int| 0 <= i < keys.len() && #[trigger] keys[i] != KEY_APPLICATIONS@
}

/// Reads the configuration file.
pub open spec fn file_read(t: Transcript, rootfs: Seq<char>) -> (Transcript, ResetFlow<JsonView>) {
    let file = joined(rootfs, FACTORY_RESET_CONFIG_FILE@);
    (
        t.ask(Request::ReadText(file)),
        match t.next() {
            None => Err(Stop::Pending),
            Some(reply) => match text_of(reply) {
                Err(e) => Err(Stop::Failed(unreadable("Failed to read "@, file, e))),
                Ok(content) => match json_of(content) {
                    Ok(value) => Ok(value),
                    Err(e) => Err(
                        Stop::Failed(
                            FactoryResetError::InvalidConfig("Failed to parse "@ + file + ": "@ + e),
                        ),
                    ),
                },
            },
        },
    )
}

fn read_file(config_file: &str, rootfs: &str, sys: &mut Session) -> (r: Result<Json, Stop<FactoryResetError>>)
    requires
        config_file@ == joined(rootfs@, FACTORY_RESET_CONFIG_FILE@),
    ensures
        (final(sys)@, outcome(r)) == file_read(old(sys)@, rootfs@),
{
    match sys.fetch(Request::ReadText(config_file.to_owned())) {
        None => Err(Stop::Pending),
        Some(Err(e)) => Err(Stop::Failed(unreadable_error("Failed to read ", config_file, e))),
        Some(Ok(content)) => match parse(content.as_str()) {
            Ok(value) => Ok(value),
            Err(e) => Err(
                Stop::Failed(
                    FactoryResetError::InvalidConfig(concat4("Failed to parse ", config_file, ": ", e.as_str())),
                ),
            ),
        },
    }
}

/// Builds the list of the paths to preserve.
pub open spec fn preserve_list(t: Transcript, keys: Seq<Seq<char>>, rootfs: Seq<char>) -> (
    Transcript,
    ResetFlow<Seq<Seq<char>>>,
) {
    let first = seq![PRESERVE_LIST_MANDATORY@];
    if needs_file(keys) {
        match file_read(t, rootfs) {
            (t1, Err(e)) => (t1, Err(e)),
            (t1, Ok(value)) => keys_added(t1, first, Some(value), rootfs, keys, 0),
        }
    } else {
        keys_added(t, first, None, rootfs, keys, 0)
    }
}

fn file_needed(keys: &Vec<String>) -> (r: bool)
    ensures
        r == needs_file(keys.deep_view()),
{
    let mut i: usize = 0;
    while i < keys.len()
        invariant
            i <= keys@.len(),
            forall|j: int| 0 <= j < i ==> #[trigger] keys.deep_view()[j] == KEY_APPLICATIONS@,
        decreases keys.len() - i,
    {
        assert(keys.deep_view()[i as int] == keys@[i as int]@);
        if !same(keys[i].as_str(), KEY_APPLICATIONS) {
            return true;
        }
        i = i + 1;
    }
    false
}

fn preserve_paths(config: &FactoryResetConfig, rootfs: &str, sys: &mut Session) -> (r: Result<
    Vec<String>,
    Stop<FactoryResetError>,
>)
    ensures
        final(sys)@ == preserve_list(old(sys)@, config@.preserve, rootfs@).0,
        match r {
            Ok(list) => preserve_list(old(sys)@, config@.preserve, rootfs@).1 == ResetFlow::Ok(list.deep_view()),
            Err(e) => preserve_list(old(sys)@, config@.preserve, rootfs@).1 == ResetFlow::<Seq<Seq<char>>>::Err(e@),
        },
{
    let mut list: Vec<String> = Vec::new();
    push_text(&mut list, PRESERVE_LIST_MANDATORY);
    assert(list.deep_view() =~= seq![PRESERVE_LIST_MANDATORY@]);
    let config_file = join(rootfs, FACTORY_RESET_CONFIG_FILE);
    let needed = file_needed(&config.preserve);
    let key_config: Option<Json> = if needed {
        match read_file(config_file.as_str(), rootfs, sys) {
            Err(e) => {
                return Err(e);
            },
            Ok(value) => Some(value),
        }
    } else {
        None
    };
    let ghost keys = config.preserve.deep_view();
    let ghost value = opt_view(key_config);
    let mut i: usize = 0;
    while i < config.preserve.len()
        invariant
            i <= config.preserve@.len(),
            keys == config.preserve.deep_view(),
            config@.preserve == keys,
            config_file@ == joined(rootfs@, FACTORY_RESET_CONFIG_FILE@),
            value == opt_view(key_config),
            needs_file(keys) == (value is Some),
            keys_added(sys@, list.deep_view(), value, rootfs@, keys, i as int) == preserve_list(
                old(sys)@,
                keys,
                rootfs@,
            ),
        decreases config.preserve.len() - i,
    {
        let key = config.preserve[i].as_str();
        assert(keys[i as int] == key@);
        if same(key, KEY_APPLICATIONS) {
            match collect_application_paths(rootfs, &mut list, sys) {
                Err(e) => {
                    return Err(e);
                },
                Ok(()) => {},
            }
        } else {
            match &key_config {
                // The file was read: this key is not about the applications.
                None => {
                    assert(needs_file(keys));
                },
                Some(value) => match add_key(&mut list, value, config_file.as_str(), key) {
                    Err(e) => {
                        return Err(Stop::Failed(e));
                    },
                    Ok(()) => {},
                },
            }
        }
        i = i + 1;
    }
    Ok(list)
}

/// How a step of a factory reset ended, as the outcome of a boot procedure.
pub open spec fn reset_lifted<T>(r: ResetFlow<T>) -> InitOutcome<T> {
    match r {
        Ok(x) => Ok(x),
        Err(Stop::Pending) => Err(Stop::Pending),
        Err(Stop::Failed(e)) => Err(Stop::Failed(InitramfsError::FactoryReset(e))),
    }
}

/// Builds the list of the paths that a factory reset preserves.
pub fn build_preserve_list(config: &FactoryResetConfig, rootfs: &str, sys: &mut Session) -> (r: Result<
    Vec<String>,
    Stop<InitramfsError>,
>)
    ensures
        final(sys)@ == preserve_list(old(sys)@, config@.preserve, rootfs@).0,
        match r {
            Ok(list) => preserve_list(old(sys)@, config@.preserve, rootfs@).1 == ResetFlow::Ok(list.deep_view()),
            Err(e) => reset_lifted(preserve_list(old(sys)@, config@.preserve, rootfs@).1) == InitOutcome::<
                Seq<Seq<char>>,
            >::Err(e@),
        },
{
    match preserve_paths(config, rootfs, sys) {
        Ok(list) => Ok(list),
        Err(Stop::Pending) => Err(Stop::Pending),
        Err(Stop::Failed(e)) => Err(Stop::Failed(InitramfsError::FactoryReset(e))),
    }
}

/// The list starts with the mandatory entry, and every other entry stays inside the rootfs.
pub open spec fn confined(list: Seq<Seq<char>>) -> bool {
    &&& list.len() > 0
    &&& list[0] == PRESERVE_LIST_MANDATORY@
    &&& forall|i: int| 1 <= i < list.len() ==> preserve_fault(#[trigger] list[i]) is None
}

proof fn lemma_paths_confined(list: Seq<Seq<char>>, items: Seq<JsonView>, not_text: Seq<char>, i: int)
    requires
        confined(list),
    ensures
        paths_added(list, items, not_text, i) matches Ok(more) ==> confined(more),
    decreases items.len() - i,
{
    if 0 <= i < items.len() {
        match items[i] {
            JsonView::Text(s) => {
                if preserve_fault(s) is None {
                    lemma_paths_confined(list.push(s), items, not_text, i + 1);
                }
            },
            _ => {},
        }
    }
}

proof fn lemma_application_confined(list: Seq<Seq<char>>, path: Seq<char>, content: Seq<char>)
    requires
        confined(list),
    ensures
        application_added(list, path, content) matches Ok(more) ==> confined(more),
{
    match json_of(content) {
        Ok(value) => match value.member(KEY_PATHS@) {
            Some(JsonView::List(items)) => {
                lemma_paths_confined(
                    list,
                    items,
                    path + ": '"@ + KEY_PATHS@ + "' array must contain only strings"@,
                    0,
                );
            },
            _ => {},
        },
        _ => {},
    }
}

proof fn lemma_applications_confined(
    t: Transcript,
    list: Seq<Seq<char>>,
    dir: Seq<char>,
    names: Seq<Seq<char>>,
    failed: Option<IoErrorView>,
    i: int,
)
    requires
        confined(list),
    ensures
        applications_added(t, list, dir, names, failed, i).1 matches Ok(more) ==> confined(more),
    decreases names.len() - i,
{
    if 0 <= i < names.len() {
        if extension_of(names[i]) != Some("json"@) {
            lemma_applications_confined(t, list, dir, names, failed, i + 1);
        } else {
            let path = joined(dir, names[i]);
            match t.next() {
                Some(reply) => match text_of(reply) {
                    Ok(content) => {
                        lemma_application_confined(list, path, content);
                        match application_added(list, path, content) {
                            Ok(more) => {
                                lemma_applications_confined(
                                    t.ask(Request::ReadText(path)),
                                    more,
                                    dir,
                                    names,
                                    failed,
                                    i + 1,
                                );
                            },
                            _ => {},
                        }
                    },
                    _ => {},
                },
                None => {},
            }
        }
    }
}

proof fn lemma_collected_confined(t: Transcript, list: Seq<Seq<char>>, rootfs: Seq<char>)
    requires
        confined(list),
    ensures
        applications_collected(t, list, rootfs).1 matches Ok(more) ==> confined(more),
{
    let dir = joined(rootfs, FACTORY_RESET_CONFIG_DIR@);
    let t1 = t.ask(Request::Exists(dir));
    match t1.next() {
        Some(reply) => match names_of(reply) {
            Ok((names, failed)) => {
                lemma_applications_confined(t1.ask(Request::ListDir(dir)), list, dir, names, failed, 0);
            },
            _ => {},
        },
        None => {},
    }
}

proof fn lemma_keys_confined(
    t: Transcript,
    list: Seq<Seq<char>>,
    config: Option<JsonView>,
    rootfs: Seq<char>,
    keys: Seq<Seq<char>>,
    i: int,
)
    requires
        confined(list),
    ensures
        keys_added(t, list, config, rootfs, keys, i).1 matches Ok(more) ==> confined(more),
    decreases keys.len() - i,
{
    if 0 <= i < keys.len() {
        if keys[i] == KEY_APPLICATIONS@ {
            lemma_collected_confined(t, list, rootfs);
            match applications_collected(t, list, rootfs) {
                (t1, Ok(more)) => {
                    lemma_keys_confined(t1, more, config, rootfs, keys, i + 1);
                },
                _ => {},
            }
        } else {
            match config {
                Some(value) => {
                    let file = joined(rootfs, FACTORY_RESET_CONFIG_FILE@);
                    match value.member(keys[i]) {
                        Some(JsonView::List(items)) => {
                            lemma_paths_confined(
                                list,
                                items,
                                file + ": value for key '"@ + keys[i] + "' must contain only strings"@,
                                0,
                            );
                        },
                        _ => {},
                    }
                    match key_added(list, value, file, keys[i]) {
                        Ok(more) => {
                            lemma_keys_confined(t, more, config, rootfs, keys, i + 1);
                        },
                        _ => {},
                    }
                },
                None => {},
            }
        }
    }
}

/// Whatever the configuration files hold, a list that is built starts with the mandatory
/// entry and names no path that is empty or leaves the rootfs.
pub proof fn law_preserved_paths_stay_inside(t: Transcript, keys: Seq<Seq<char>>, rootfs: Seq<char>)
    ensures
        preserve_list(t, keys, rootfs).1 matches Ok(list) ==> confined(list),
{
    let first = seq![PRESERVE_LIST_MANDATORY@];
    if needs_file(keys) {
        match file_read(t, rootfs) {
            (t1, Ok(value)) => {
                lemma_keys_confined(t1, first, Some(value), rootfs, keys, 0);
            },
            _ => {},
        }
    } else {
        lemma_keys_confined(t, first, None, rootfs, keys, 0);
    }
}

/// The first of two optional members is found under its name alone.
proof fn lemma_first_member(one: Seq<char>, a: Option<JsonView>, other: Seq<char>, b: Option<JsonView>)
    requires
        one != other,
    ensures
        JsonView::Object(opt_member(one, a) + opt_member(other, b)).member(one) == a,
{
    reveal_with_fuel(member_from, 3);
}

/// Only the one supported mode is accepted as a trigger, and only where no field occurs twice.
pub proof fn law_only_supported_mode(text: Seq<char>)
    ensures
        trigger_of(text) is Ok ==> if opens(text, true) {
            &&& members_of(text) is Ok
            &&& times(members_of(text)->Ok_0, "mode"@) == 1
            &&& times(members_of(text)->Ok_0, "preserve"@) <= 1
            &&& field_of(members_of(text)->Ok_0, "mode"@) == Ok::<Option<JsonView>, Seq<char>>(
                Some(JsonView::Number(Some(1))),
            )
        } else {
            json_of(text) matches Ok(json) && match json {
                JsonView::Object(_) => json.member("mode"@) == Some(JsonView::Number(Some(1))),
                JsonView::List(items) => items.len() > 0 && items[0] == JsonView::Number(Some(1)),
                _ => false,
            }
        },
{
    if opens(text, true) && members_of(text) is Ok {
        let members = members_of(text)->Ok_0;
        lemma_last_occurs(members, "mode"@);
        reveal_strlit("mode");
        reveal_strlit("preserve");
        assert("mode"@.len() != "preserve"@.len());
        match (field_of(members, "mode"@), field_of(members, "preserve"@)) {
            (Ok(mode), Ok(preserve)) => {
                lemma_first_member("mode"@, mode, "preserve"@, preserve);
            },
            _ => {},
        }
    }
}

} // verus!
