//! Filesystem link creation from configuration
//!
//! Creates symbolic links based on fs-link configuration files.

use vstd::prelude::*;
use vstd::string::*;

use crate::error::{
    concat2, concat3, concat4, io_failed, io_step, perform_io, InitErrorView, InitOutcome, InitramfsError, IoError,
    IoErrorKind,
};
use crate::fields::{
    members_of, opens, opens_with, pair_of, parts_of, parts_view, read_members, read_pair, read_parts, sole, sole_of,
    PartView,
};
use crate::json::{items_view, json_of, lemma_parts, parse, Json, JsonView, Members};
use crate::order::{ordering_of, sort_names};
use crate::path::{
    climbs, extension, extension_of, has_parent_dir, is_absolute, is_absolute_of, join, joined, parent, parent_of,
};
use crate::system::{done_of, flag_of, names_of, outcome, text_of, Request, Session, Stop, Transcript};
use crate::text::same;

verus! {

/// Configuration file path for fs-link
pub const FS_LINK_CONFIG_PATH: &'static str = "etc/omnect/fs-link.json";

/// Fallback config path
pub const FS_LINK_CONFIG_PATH_D: &'static str = "etc/omnect/fs-link.d";

/// Configuration for fs-link
#[derive(Debug, Clone)]
pub struct FsLinkConfig {
    /// List of links to create
    pub links: Vec<LinkEntry>,
}

/// A single link entry
#[derive(Debug, Clone)]
pub struct LinkEntry<S = String> {
    /// Target of the symlink (what it points to)
    pub target: S,
    /// Path where the symlink is created
    pub link: S,
}

/// A link entry by view.
pub type LinkView = LinkEntry<Seq<char>>;

impl View for LinkEntry {
    type V = LinkView;

    open spec fn view(&self) -> LinkView {
        LinkEntry { target: self.target@, link: self.link@ }
    }
}

impl View for FsLinkConfig {
    type V = Seq<LinkView>;

    open spec fn view(&self) -> Seq<LinkView> {
        links_view(self.links@)
    }
}

/// Link entries by view.
pub open spec fn links_view(links: Seq<LinkEntry>) -> Seq<LinkView> {
    links.map_values(|l: LinkEntry| l@)
}

/// The text of a member that has to be there.
pub open spec fn required_text(value: Option<JsonView>, missing: Seq<char>) -> Result<Seq<char>, Seq<char>> {
    match value {
        None => Err(missing),
        Some(JsonView::Text(s)) => Ok(s),
        Some(_) => Err("invalid type: expected a string"@),
    }
}

/// A link entry in JSON: an object with both members, or a list of both in order.
pub open spec fn link_in(json: JsonView) -> Result<LinkView, Seq<char>> {
    let parts = match json {
        JsonView::Object(_) => Ok((json.member("target"@), json.member("link"@))),
        JsonView::List(items) => if items.len() == 2 {
            Ok((Some(items[0]), Some(items[1])))
        } else {
            Err("invalid length: expected struct LinkEntry with 2 elements"@)
        },
        _ => Err("invalid type: expected struct LinkEntry"@),
    };
    match parts {
        Err(e) => Err(e),
        Ok((target, link)) => match required_text(target, "missing field `target`"@) {
            Err(e) => Err(e),
            Ok(target) => match required_text(link, "missing field `link`"@) {
                Err(e) => Err(e),
                Ok(link) => Ok(LinkEntry { target, link }),
            },
        },
    }
}

/// All link entries in a list, unless one of them is none.
pub open spec fn links_in(items: Seq<JsonView>) -> Result<Seq<LinkView>, Seq<char>>
    decreases items.len(),
{
    if items.len() == 0 {
        Ok(Seq::empty())
    } else {
        match links_in(items.drop_last()) {
            Err(e) => Err(e),
            Ok(front) => match link_in(items.last()) {
                Err(e) => Err(e),
                Ok(l) => Ok(front.push(l)),
            },
        }
    }
}

/// A configuration in JSON: an object with the list of links, or a list with that list in it.
pub open spec fn config_in(json: JsonView) -> Result<Seq<LinkView>, Seq<char>> {
    let links = match json {
        JsonView::Object(_) => match json.member("links"@) {
            Some(links) => Ok(links),
            None => Err("missing field `links`"@),
        },
        JsonView::List(items) => if items.len() == 1 {
            Ok(items[0])
        } else {
            Err("invalid length: expected struct FsLinkConfig with 1 element"@)
        },
        _ => Err("invalid type: expected struct FsLinkConfig"@),
    };
    match links {
        Err(e) => Err(e),
        Ok(JsonView::List(items)) => links_in(items),
        Ok(_) => Err("invalid type: expected a sequence"@),
    }
}

/// What each part of a list holds for a link entry, unless one of them cannot be read.
pub open spec fn entries_of(parts: Seq<PartView>) -> Result<Seq<JsonView>, Seq<char>>
    decreases parts.len(),
{
    if parts.len() == 0 {
        Ok(Seq::empty())
    } else {
        match entries_of(parts.drop_last()) {
            Err(e) => Err(e),
            Ok(front) => match pair_of(parts.last().1, "target"@, "link"@) {
                Err(e) => Err(e),
                Ok(entry) => Ok(front.push(entry)),
            },
        }
    }
}

/// What a text holds for a list of link entries: of a list, its entries; anything else as it is.
pub open spec fn list_of(text: Seq<char>) -> Result<JsonView, Seq<char>> {
    if opens(text, false) {
        match parts_of(text, false) {
            Err(e) => Err(e),
            Ok(parts) => match entries_of(parts) {
                Err(e) => Err(e),
                Ok(entries) => Ok(JsonView::List(entries)),
            },
        }
    } else {
        json_of(text)
    }
}

/// What a text holds for a configuration: of an object, the list of links; of a list, its one
/// part; anything else as it is.
pub open spec fn fields_of(text: Seq<char>) -> Result<JsonView, Seq<char>> {
    if opens(text, true) {
        match members_of(text) {
            Err(e) => Err(e),
            Ok(members) => match sole_of(members, "links"@) {
                Err(e) => Err(e),
                Ok(None) => Ok(JsonView::Object(Seq::empty())),
                Ok(Some(value)) => match list_of(value) {
                    Err(e) => Err(e),
                    Ok(links) => Ok(JsonView::Object(seq![("links"@, links)])),
                },
            },
        }
    } else if opens(text, false) {
        match parts_of(text, false) {
            Err(e) => Err(e),
            Ok(parts) => if parts.len() == 1 {
                match list_of(parts[0].1) {
                    Err(e) => Err(e),
                    Ok(links) => Ok(JsonView::List(seq![links])),
                }
            } else {
                Ok(JsonView::List(Seq::empty()))
            },
        }
    } else {
        json_of(text)
    }
}

/// A configuration in a JSON text. It is an error that one of the fields occurs twice; other
/// names do not matter.
pub open spec fn config_of(text: Seq<char>) -> Result<Seq<LinkView>, Seq<char>> {
    match fields_of(text) {
        Err(e) => Err(e),
        Ok(json) => config_in(json),
    }
}

fn text_member(value: Option<&Json>, missing: &str) -> (r: Result<String, String>)
    ensures
        outcome_texts(r) == required_text(
            match value {
                Some(j) => Some(j@),
                None => None,
            },
            missing@,
        ),
{
    match value {
        None => Err(missing.to_owned()),
        Some(Json::Text(s)) => Ok(s.clone()),
        Some(_) => Err(String::from_str("invalid type: expected a string")),
    }
}

/// A text or an error by view.
pub open spec fn outcome_texts(r: Result<String, String>) -> Result<Seq<char>, Seq<char>> {
    match r {
        Ok(s) => Ok(s@),
        Err(e) => Err(e@),
    }
}

impl LinkEntry {
    /// The link entry in a JSON value.
    pub fn from_json(json: &Json) -> (r: Result<LinkEntry, String>)
        ensures
            match r {
                Ok(l) => link_in(json@) == Ok::<LinkView, Seq<char>>(l@),
                Err(e) => link_in(json@) == Err::<LinkView, Seq<char>>(e@),
            },
    {
        proof {
            lemma_parts(*json);
        }
        let (target, link) = match json {
            Json::Object(_) => (json.get("target"), json.get("link")),
            Json::List(items) => {
                if items.len() != 2 {
                    return Err(String::from_str("invalid length: expected struct LinkEntry with 2 elements"));
                }
                assert(items_view(items@)[0] == items@[0]@);
                assert(items_view(items@)[1] == items@[1]@);
                (Some(&items[0]), Some(&items[1]))
            },
            _ => {
                return Err(String::from_str("invalid type: expected struct LinkEntry"));
            },
        };
        match text_member(target, "missing field `target`") {
            Err(e) => Err(e),
            Ok(target) => match text_member(link, "missing field `link`") {
                Err(e) => Err(e),
                Ok(link) => Ok(LinkEntry { target, link }),
            },
        }
    }
}

fn links_from(items: &Vec<Json>) -> (r: Result<Vec<LinkEntry>, String>)
    ensures
        match r {
            Ok(links) => links_in(items_view(items@)) == Ok::<Seq<LinkView>, Seq<char>>(links_view(links@)),
            Err(e) => links_in(items_view(items@)) == Err::<Seq<LinkView>, Seq<char>>(e@),
        },
{
    let ghost all = items_view(items@);
    let mut links: Vec<LinkEntry> = Vec::new();
    assert(links_view(links@) =~= Seq::<LinkView>::empty());
    let mut i: usize = 0;
    while i < items.len()
        invariant
            i <= items@.len(),
            all == items_view(items@),
            links_in(all.take(i as int)) == Ok::<Seq<LinkView>, Seq<char>>(links_view(links@)),
        decreases items.len() - i,
    {
        assert(all.take(i + 1).drop_last() =~= all.take(i as int));
        assert(all.take(i + 1).last() == items@[i as int]@);
        match LinkEntry::from_json(&items[i]) {
            Err(e) => {
                proof {
                    lemma_failure_stays(all, i + 1);
                }
                return Err(e);
            },
            Ok(l) => {
                let ghost before = links_view(links@);
                links.push(l);
                assert(links_view(links@) =~= before.push(l@));
            },
        }
        i = i + 1;
    }
    assert(all.take(i as int) =~= all);
    Ok(links)
}

/// A list that starts with a failing part fails with it.
proof fn lemma_failure_stays(items: Seq<JsonView>, n: int)
    requires
        0 <= n <= items.len(),
        links_in(items.take(n)) is Err,
    ensures
        links_in(items) == links_in(items.take(n)),
    decreases items.len() - n,
{
    if n < items.len() {
        assert(items.take(n + 1).drop_last() =~= items.take(n));
        lemma_failure_stays(items, n + 1);
    } else {
        assert(items.take(n) =~= items);
    }
}

/// A list of parts whose beginning cannot be read, cannot be read.
proof fn lemma_fault_stays(parts: Seq<PartView>, n: int)
    requires
        0 <= n <= parts.len(),
        entries_of(parts.take(n)) is Err,
    ensures
        entries_of(parts) == entries_of(parts.take(n)),
    decreases parts.len() - n,
{
    if n < parts.len() {
        assert(parts.take(n + 1).drop_last() =~= parts.take(n));
        lemma_fault_stays(parts, n + 1);
    } else {
        assert(parts.take(n) =~= parts);
    }
}

fn read_list(text: &str) -> (r: Result<Json, String>)
    ensures
        match r {
            Ok(j) => list_of(text@) == Ok::<JsonView, Seq<char>>(j@),
            Err(e) => list_of(text@) == Err::<JsonView, Seq<char>>(e@),
        },
{
    if !opens_with(text, false) {
        return parse(text);
    }
    let parts = match read_parts(text, false) {
        Err(e) => {
            return Err(e);
        },
        Ok(parts) => parts,
    };
    let ghost all = parts_view(parts@);
    let mut entries: Vec<Json> = Vec::new();
    assert(items_view(entries@) =~= Seq::<JsonView>::empty());
    let mut i: usize = 0;
    while i < parts.len()
        invariant
            i <= parts@.len(),
            all == parts_view(parts@),
            entries_of(all.take(i as int)) == Ok::<Seq<JsonView>, Seq<char>>(items_view(entries@)),
            opens(text@, false),
            parts_of(text@, false) == Ok::<Seq<PartView>, Seq<char>>(all),
        decreases parts.len() - i,
    {
        assert(all.take(i + 1).drop_last() =~= all.take(i as int));
        assert(all.take(i + 1).last() == (parts@[i as int].0@, parts@[i as int].1@));
        match read_pair(parts[i].1.as_str(), "target", "link") {
            Err(e) => {
                proof {
                    lemma_fault_stays(all, i + 1);
                }
                return Err(e);
            },
            Ok(entry) => {
                let ghost before = entries@;
                entries.push(entry);
                assert(items_view(entries@) =~= items_view(before).push(entry@));
            },
        }
        i = i + 1;
    }
    assert(all.take(i as int) =~= all);
    let ghost seen = items_view(entries@);
    let list = Json::List(entries);
    proof {
        lemma_parts(list);
    }
    assert(list@ == JsonView::List(seen));
    Ok(list)
}

fn read_config(text: &str) -> (r: Result<Json, String>)
    ensures
        match r {
            Ok(j) => fields_of(text@) == Ok::<JsonView, Seq<char>>(j@),
            Err(e) => fields_of(text@) == Err::<JsonView, Seq<char>>(e@),
        },
{
    if opens_with(text, true) {
        let members = match read_members(text) {
            Err(e) => {
                return Err(e);
            },
            Ok(members) => members,
        };
        let mut object = Members::new();
        match sole(&members, "links") {
            Err(e) => {
                return Err(e);
            },
            Ok(None) => {},
            Ok(Some(value)) => match read_list(value.as_str()) {
                Err(e) => {
                    return Err(e);
                },
                Ok(links) => {
                    object.put("links", links);
                    assert(object@ =~= seq![("links"@, links@)]);
                },
            },
        }
        return Ok(object.finish());
    }
    if opens_with(text, false) {
        let parts = match read_parts(text, false) {
            Err(e) => {
                return Err(e);
            },
            Ok(parts) => parts,
        };
        let mut items: Vec<Json> = Vec::new();
        if parts.len() == 1 {
            assert(parts_view(parts@)[0] == (parts@[0].0@, parts@[0].1@));
            match read_list(parts[0].1.as_str()) {
                Err(e) => {
                    return Err(e);
                },
                Ok(links) => {
                    items.push(links);
                    assert(items_view(items@) =~= seq![links@]);
                },
            }
        } else {
            assert(items_view(items@) =~= Seq::<JsonView>::empty());
        }
        let ghost seen = items_view(items@);
        let list = Json::List(items);
        proof {
            lemma_parts(list);
        }
        assert(list@ == JsonView::List(seen));
        return Ok(list);
    }
    parse(text)
}

impl FsLinkConfig {
    /// The configuration in a JSON text.
    pub fn parse(text: &str) -> (r: Result<FsLinkConfig, String>)
        ensures
            match r {
                Ok(c) => config_of(text@) == Ok::<Seq<LinkView>, Seq<char>>(c@),
                Err(e) => config_of(text@) == Err::<Seq<LinkView>, Seq<char>>(e@),
            },
    {
        match read_config(text) {
            Err(e) => Err(e),
            Ok(json) => FsLinkConfig::from_json(&json),
        }
    }

    /// The configuration in a JSON value.
    pub fn from_json(json: &Json) -> (r: Result<FsLinkConfig, String>)
        ensures
            match r {
                Ok(c) => config_in(json@) == Ok::<Seq<LinkView>, Seq<char>>(c@),
                Err(e) => config_in(json@) == Err::<Seq<LinkView>, Seq<char>>(e@),
            },
    {
        proof {
            lemma_parts(*json);
        }
        let links = match json {
            Json::Object(_) => match json.get("links") {
                Some(links) => links,
                None => {
                    return Err(String::from_str("missing field `links`"));
                },
            },
            Json::List(items) => {
                if items.len() != 1 {
                    return Err(
                        String::from_str("invalid length: expected struct FsLinkConfig with 1 element"),
                    );
                }
                assert(items_view(items@)[0] == items@[0]@);
                &items[0]
            },
            _ => {
                return Err(String::from_str("invalid type: expected struct FsLinkConfig"));
            },
        };
        proof {
            lemma_parts(*links);
        }
        match links {
            Json::List(items) => match links_from(items) {
                Err(e) => Err(e),
                Ok(links) => Ok(FsLinkConfig { links }),
            },
            _ => Err(String::from_str("invalid type: expected a sequence")),
        }
    }
}

/// The error of a configuration that cannot be read as one.
pub open spec fn bad_config(path: Seq<char>, reason: Seq<char>) -> InitErrorView {
    InitramfsError::Io(
        IoError {
            kind: IoErrorKind::InvalidData,
            message: "Failed to parse fs-link config "@ + path + ": "@ + reason,
        },
    )
}

/// Loads a configuration file.
pub open spec fn config_loaded(t: Transcript, path: Seq<char>) -> (Transcript, InitOutcome<Seq<LinkView>>) {
    (
        t.ask(Request::ReadText(path)),
        match t.next() {
            None => Err(Stop::Pending),
            Some(reply) => match text_of(reply) {
                Err(e) => Err(Stop::Failed(InitramfsError::Io(e))),
                Ok(content) => match config_of(content) {
                    Ok(links) => Ok(links),
                    Err(e) => Err(Stop::Failed(bad_config(path, e))),
                },
            },
        },
    )
}

/// Load a single config file
pub fn load_config_file(path: &str, sys: &mut Session) -> (r: Result<FsLinkConfig, Stop<InitramfsError>>)
    ensures
        (final(sys)@, outcome(r)) == config_loaded(old(sys)@, path@),
{
    match sys.fetch(Request::ReadText(path.to_owned())) {
        None => Err(Stop::Pending),
        Some(Err(e)) => Err(Stop::Failed(InitramfsError::Io(e))),
        Some(Ok(content)) => match FsLinkConfig::parse(content.as_str()) {
            Ok(config) => Ok(config),
            Err(e) => Err(
                Stop::Failed(
                    InitramfsError::Io(
                        IoError {
                            kind: IoErrorKind::InvalidData,
                            message: concat4("Failed to parse fs-link config ", path, ": ", e.as_str()),
                        },
                    ),
                ),
            ),
        },
    }
}

/// The names with the extension `json`.
pub open spec fn json_names(names: Seq<Seq<char>>) -> Seq<Seq<char>>
    decreases names.len(),
{
    if names.len() == 0 {
        names
    } else if extension_of(names.last()) == Some("json"@) {
        json_names(names.drop_last()).push(names.last())
    } else {
        json_names(names.drop_last())
    }
}

fn keep_json_names(names: &Vec<String>) -> (r: Vec<String>)
    ensures
        r.deep_view() == json_names(names.deep_view()),
{
    let ghost all = names.deep_view();
    let mut r: Vec<String> = Vec::new();
    assert(r.deep_view() =~= all.take(0));
    let mut i: usize = 0;
    while i < names.len()
        invariant
            i <= names@.len(),
            all == names.deep_view(),
            r.deep_view() == json_names(all.take(i as int)),
        decreases names.len() - i,
    {
        assert(all.take(i + 1).drop_last() =~= all.take(i as int));
        assert(all.take(i + 1).last() == names@[i as int]@);
        let is_json = match extension(names[i].as_str()) {
            Some(e) => same(e.as_str(), "json"),
            None => false,
        };
        if is_json {
            crate::text::push_text(&mut r, names[i].as_str());
        }
        i = i + 1;
    }
    assert(all.take(i as int) =~= all);
    r
}

/// Adds the links of the configuration files from position `i` on.
pub open spec fn files_loaded(t: Transcript, links: Seq<LinkView>, dir: Seq<char>, names: Seq<Seq<char>>, i: int) -> (
    Transcript,
    InitOutcome<Seq<LinkView>>,
)
    decreases names.len() - i,
{
    if i < 0 || i >= names.len() {
        (t, Ok(links))
    } else {
        match config_loaded(t, joined(dir, names[i])) {
            (t1, Err(e)) => (t1, Err(e)),
            (t1, Ok(more)) => files_loaded(t1, links + more, dir, names, i + 1),
        }
    }
}

/// Adds the links of the configuration directory, if there is one. Files other than JSON
/// files, and entries that cannot be read, do not count; the rest are taken in order.
pub open spec fn directory_loaded(t: Transcript, links: Seq<LinkView>, rootfs: Seq<char>) -> (
    Transcript,
    InitOutcome<Seq<LinkView>>,
) {
    let dir = joined(rootfs, FS_LINK_CONFIG_PATH_D@);
    let t1 = t.ask(Request::IsDir(dir));
    match t.next() {
        None => (t1, Err(Stop::Pending)),
        Some(there) => if !flag_of(there) {
            (t1, Ok(links))
        } else {
            let t2 = t1.ask(Request::ListDir(dir));
            match t1.next() {
                None => (t2, Err(Stop::Pending)),
                Some(reply) => match names_of(reply) {
                    Err(e) => (t2, Err(Stop::Failed(InitramfsError::Io(e)))),
                    Ok((names, _)) => files_loaded(t2, links, dir, ordering_of(json_names(names)), 0),
                },
            }
        },
    }
}

/// Loads the configuration from all sources.
pub open spec fn all_loaded(t: Transcript, rootfs: Seq<char>) -> (Transcript, InitOutcome<Seq<LinkView>>) {
    let main = joined(rootfs, FS_LINK_CONFIG_PATH@);
    let t1 = t.ask(Request::Exists(main));
    match t.next() {
        None => (t1, Err(Stop::Pending)),
        Some(there) => if !flag_of(there) {
            directory_loaded(t1, Seq::empty(), rootfs)
        } else {
            match config_loaded(t1, main) {
                (t2, Err(e)) => (t2, Err(e)),
                (t2, Ok(links)) => directory_loaded(t2, links, rootfs),
            }
        },
    }
}

fn add_links(links: &mut Vec<LinkEntry>, more: Vec<LinkEntry>)
    ensures
        links_view(final(links)@) == links_view(old(links)@) + links_view(more@),
{
    let mut more = more;
    let ghost first = links@;
    let ghost second = more@;
    links.append(&mut more);
    assert(links_view(links@) =~= links_view(first) + links_view(second));
}

fn load_directory(rootfs_dir: &str, links: Vec<LinkEntry>, sys: &mut Session) -> (r: Result<
    FsLinkConfig,
    Stop<InitramfsError>,
>)
    ensures
        (final(sys)@, outcome(r)) == directory_loaded(old(sys)@, links_view(links@), rootfs_dir@),
{
    let dir = join(rootfs_dir, FS_LINK_CONFIG_PATH_D);
    match sys.query(Request::IsDir(dir.clone())) {
        None => {
            return Err(Stop::Pending);
        },
        Some(false) => {
            return Ok(FsLinkConfig { links });
        },
        Some(true) => {},
    }
    let names = match sys.list(Request::ListDir(dir.clone())) {
        None => {
            return Err(Stop::Pending);
        },
        Some(Err(e)) => {
            return Err(Stop::Failed(InitramfsError::Io(e)));
        },
        Some(Ok((names, _))) => names,
    };
    // Sort for deterministic order
    let names = sort_names(&keep_json_names(&names));
    let ghost all = names.deep_view();
    let mut found = links;
    let mut i: usize = 0;
    while i < names.len()
        invariant
            i <= names@.len(),
            all == names.deep_view(),
            files_loaded(sys@, links_view(found@), dir@, all, i as int) == directory_loaded(
                old(sys)@,
                links_view(links@),
                rootfs_dir@,
            ),
        decreases names.len() - i,
    {
        assert(all[i as int] == names@[i as int]@);
        match load_config_file(join(dir.as_str(), names[i].as_str()).as_str(), sys) {
            Err(e) => {
                return Err(e);
            },
            Ok(config) => {
                add_links(&mut found, config.links);
            },
        }
        i = i + 1;
    }
    Ok(FsLinkConfig { links: found })
}

/// Load fs-link configuration from all sources
pub fn load_fs_link_config(rootfs_dir: &str, sys: &mut Session) -> (r: Result<FsLinkConfig, Stop<InitramfsError>>)
    ensures
        (final(sys)@, outcome(r)) == all_loaded(old(sys)@, rootfs_dir@),
{
    // Load main config file
    let main_config_path = join(rootfs_dir, FS_LINK_CONFIG_PATH);
    match sys.query(Request::Exists(main_config_path.clone())) {
        None => Err(Stop::Pending),
        Some(false) => {
            let none: Vec<LinkEntry> = Vec::new();
            assert(links_view(none@) =~= Seq::<LinkView>::empty());
            load_directory(rootfs_dir, none, sys)
        },
        Some(true) => match load_config_file(main_config_path.as_str(), sys) {
            Err(e) => Err(e),
            Ok(config) => load_directory(rootfs_dir, config.links, sys),
        },
    }
}

/// What is wrong with a path that a link is to be created at.
pub open spec fn link_path_fault(path: Seq<char>) -> Option<InitErrorView> {
    if is_absolute_of(path) {
        Some(io_failed("fs-link path must be relative, got absolute path: "@ + path))
    } else if climbs(path) {
        Some(io_failed("fs-link path must not contain '..': "@ + path))
    } else {
        None
    }
}

/// Validate that a config-supplied path is a safe relative path.
///
/// Rejects absolute paths (joining one would silently discard rootfs_dir) and
/// paths containing `..` components (directory traversal outside rootfs).
pub fn validate_relative_path(path: &str) -> (r: Result<(), InitramfsError>)
    ensures
        match r {
            Ok(_) => link_path_fault(path@) is None,
            Err(e) => link_path_fault(path@) == Some(e@),
        },
{
    if is_absolute(path) {
        return Err(
            InitramfsError::Io(
                IoError::other(concat2("fs-link path must be relative, got absolute path: ", path)),
            ),
        );
    }
    if has_parent_dir(path) {
        return Err(
            InitramfsError::Io(IoError::other(concat2("fs-link path must not contain '..': ", path))),
        );
    }
    Ok(())
}

/// Makes sure that the parent directory of a link is there.
pub open spec fn parent_made(t: Transcript, path: Seq<char>) -> (Transcript, InitOutcome<()>) {
    match parent_of(path) {
        None => (t, Ok(())),
        Some(dir) => {
            let t1 = t.ask(Request::Exists(dir));
            match t.next() {
                None => (t1, Err(Stop::Pending)),
                Some(there) => if flag_of(there) {
                    (t1, Ok(()))
                } else {
                    (
                        t1.ask(Request::CreateDir(dir)),
                        match t1.next() {
                            None => Err(Stop::Pending),
                            Some(reply) => match done_of(reply) {
                                Ok(_) => Ok(()),
                                Err(e) => Err(Stop::Failed(InitramfsError::Io(e))),
                            },
                        },
                    )
                },
            }
        },
    }
}

fn make_parent(path: &str, sys: &mut Session) -> (r: Result<(), Stop<InitramfsError>>)
    ensures
        (final(sys)@, outcome(r)) == parent_made(old(sys)@, path@),
{
    let dir = match parent(path) {
        None => {
            return Ok(());
        },
        Some(dir) => dir,
    };
    match sys.query(Request::Exists(dir.clone())) {
        None => Err(Stop::Pending),
        Some(true) => Ok(()),
        Some(false) => match sys.perform(Request::CreateDir(dir)) {
            None => Err(Stop::Pending),
            Some(Ok(())) => Ok(()),
            Some(Err(e)) => Err(Stop::Failed(InitramfsError::Io(e))),
        },
    }
}

/// Removes what stands in the way of a link.
pub open spec fn way_removed(t: Transcript, path: Seq<char>) -> (Transcript, InitOutcome<()>) {
    io_step(t, Request::RemoveFile(path), "Failed to remove existing file "@ + path + ": "@)
}

/// Clears the way for a link: a file or a link that is there is removed, a plain directory is
/// an error.
pub open spec fn way_cleared(t: Transcript, path: Seq<char>) -> (Transcript, InitOutcome<()>) {
    let t1 = t.ask(Request::Exists(path));
    match t.next() {
        None => (t1, Err(Stop::Pending)),
        Some(there) => {
            let t2 = t1.ask(Request::IsSymlink(path));
            match t1.next() {
                None => (t2, Err(Stop::Pending)),
                Some(symlink) => if flag_of(symlink) {
                    way_removed(t2, path)
                } else if !flag_of(there) {
                    (t2, Ok(()))
                } else {
                    let t3 = t2.ask(Request::IsDir(path));
                    match t2.next() {
                        None => (t3, Err(Stop::Pending)),
                        Some(dir) => if flag_of(dir) {
                            (t3, Err(Stop::Failed(io_failed("Cannot replace directory with symlink: "@ + path))))
                        } else {
                            way_removed(t3, path)
                        },
                    }
                },
            }
        },
    }
}

fn remove_way(path: &str, sys: &mut Session) -> (r: Result<(), Stop<InitramfsError>>)
    ensures
        (final(sys)@, outcome(r)) == way_removed(old(sys)@, path@),
{
    perform_io(
        Request::RemoveFile(path.to_owned()),
        concat3("Failed to remove existing file ", path, ": ").as_str(),
        sys,
    )
}

fn clear_way(path: &str, sys: &mut Session) -> (r: Result<(), Stop<InitramfsError>>)
    ensures
        (final(sys)@, outcome(r)) == way_cleared(old(sys)@, path@),
{
    let there = match sys.query(Request::Exists(path.to_owned())) {
        None => {
            return Err(Stop::Pending);
        },
        Some(b) => b,
    };
    match sys.query(Request::IsSymlink(path.to_owned())) {
        None => {
            return Err(Stop::Pending);
        },
        Some(true) => {
            return remove_way(path, sys);
        },
        Some(false) => {
            if !there {
                return Ok(());
            }
        },
    }
    // A plain directory cannot be replaced by a symlink — flag it clearly.
    // Symlinks pointing to directories are fine and must be replaceable.
    match sys.query(Request::IsDir(path.to_owned())) {
        None => Err(Stop::Pending),
        Some(true) => Err(
            Stop::Failed(
                InitramfsError::Io(IoError::other(concat2("Cannot replace directory with symlink: ", path))),
            ),
        ),
        Some(false) => remove_way(path, sys),
    }
}

/// Creates one link.
pub open spec fn link_created(t: Transcript, rootfs: Seq<char>, entry: LinkView) -> (Transcript, InitOutcome<()>) {
    let path = joined(rootfs, entry.link);
    match link_path_fault(entry.link) {
        Some(e) => (t, Err(Stop::Failed(e))),
        None => match parent_made(t, path) {
            (t1, Err(e)) => (t1, Err(e)),
            (t1, Ok(_)) => match way_cleared(t1, path) {
                (t2, Err(e)) => (t2, Err(e)),
                (t2, Ok(_)) => io_step(
                    t2,
                    Request::Symlink { target: entry.target, link: path },
                    "Failed to create symlink "@ + path + " -> "@ + entry.target + ": "@,
                ),
            },
        },
    }
}

/// Create a single symbolic link
pub fn create_link(rootfs_dir: &str, entry: &LinkEntry, sys: &mut Session) -> (r: Result<(), Stop<InitramfsError>>)
    ensures
        (final(sys)@, outcome(r)) == link_created(old(sys)@, rootfs_dir@, entry@),
{
    match validate_relative_path(entry.link.as_str()) {
        Err(e) => {
            return Err(Stop::Failed(e));
        },
        Ok(()) => {},
    }
    let link_path = join(rootfs_dir, entry.link.as_str());
    // Ensure parent directory exists
    match make_parent(link_path.as_str(), sys) {
        Err(e) => {
            return Err(e);
        },
        Ok(()) => {},
    }
    // Remove existing link/file if present
    match clear_way(link_path.as_str(), sys) {
        Err(e) => {
            return Err(e);
        },
        Ok(()) => {},
    }
    // Create the symlink
    let context = concat2(
        concat4("Failed to create symlink ", link_path.as_str(), " -> ", entry.target.as_str()).as_str(),
        ": ",
    );
    perform_io(Request::Symlink { target: entry.target.clone(), link: link_path }, context.as_str(), sys)
}

/// Creates the links from position `i` on.
pub open spec fn links_created(t: Transcript, rootfs: Seq<char>, links: Seq<LinkView>, i: int) -> (
    Transcript,
    InitOutcome<()>,
)
    decreases links.len() - i,
{
    if i < 0 || i >= links.len() {
        (t, Ok(()))
    } else {
        match link_created(t, rootfs, links[i]) {
            (t1, Err(e)) => (t1, Err(e)),
            (t1, Ok(_)) => links_created(t1, rootfs, links, i + 1),
        }
    }
}

/// Creates all configured links.
pub open spec fn configured_links_created(t: Transcript, rootfs: Seq<char>) -> (Transcript, InitOutcome<()>) {
    match all_loaded(t, rootfs) {
        (t1, Err(e)) => (t1, Err(e)),
        (t1, Ok(links)) => links_created(t1, rootfs, links, 0),
    }
}

/// Create symbolic links based on fs-link configuration
pub fn create_fs_links(rootfs_dir: &str, sys: &mut Session) -> (r: Result<(), Stop<InitramfsError>>)
    ensures
        (final(sys)@, outcome(r)) == configured_links_created(old(sys)@, rootfs_dir@),
{
    let config = match load_fs_link_config(rootfs_dir, sys) {
        Err(e) => {
            return Err(e);
        },
        Ok(config) => config,
    };
    let ghost links = config@;
    let mut i: usize = 0;
    while i < config.links.len()
        invariant
            i <= config.links@.len(),
            links == links_view(config.links@),
            links_created(sys@, rootfs_dir@, links, i as int) == configured_links_created(
                old(sys)@,
                rootfs_dir@,
            ),
        decreases config.links.len() - i,
    {
        assert(links[i as int] == config.links@[i as int]@);
        match create_link(rootfs_dir, &config.links[i], sys) {
            Err(e) => {
                return Err(e);
            },
            Ok(()) => {},
        }
        i = i + 1;
    }
    Ok(())
}

/// For an absolute path, and for one that climbs, nothing is looked at and nothing is done.
pub proof fn law_no_link_outside_rootfs(t: Transcript, rootfs: Seq<char>, entry: LinkView)
    requires
        is_absolute_of(entry.link) || climbs(entry.link),
    ensures
        link_created(t, rootfs, entry).0 == t,
        link_created(t, rootfs, entry).1 is Err,
{
}

} // verus!
