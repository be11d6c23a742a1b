//! What a reset is told to preserve

use vstd::prelude::*;

use crate::bootloader::session_env::{BootloaderKind, SessionEnv};
use crate::bootloader::{BootEnv, BootEnvKey, EnvRead};
use crate::error::{FilesystemError, InitOutcome, InitramfsError};
use crate::json::{json_of, JsonView};
use crate::laws::{law_joined, lemma_places, lemma_unrooted, under, unrooted};
use crate::mode::factory_reset::config::{
    application_added, file_read, key_added, keys_added, needs_file, paths_added, preserve_fault, preserve_list,
};
use crate::mode::factory_reset::retry::failed_partition;
use crate::mode::{mode_detected, ModeView};
use crate::partition::layout::PartitionName;
use crate::system::{ReplyView, RequestView, Transcript};
use crate::text::split_of;
use crate::{first_boot_in, pending_in};

verus! {

/// A path that may be preserved: it names something, and does not lead out of the root
/// filesystem.
pub open spec fn preservable(path: Seq<char>) -> bool {
    unrooted(path).len() > 0 && !split_of(unrooted(path), '/').contains(".."@)
}

/// The paths of a list.
pub open spec fn paths_in(items: Seq<JsonView>) -> Seq<Seq<char>> {
    items.map_values(|item: JsonView| item->Text_0)
}

/// A list of paths is added as it stands, in its order, or refused as a whole.
pub proof fn law_paths_added(list: Seq<Seq<char>>, items: Seq<JsonView>, not_text: Seq<char>, i: int)
    requires
        0 <= i <= items.len(),
    ensures
        paths_added(list, items, not_text, i) matches Ok(more) ==> more == list + paths_in(items.skip(i)) && forall|k: int|
            i <= k < items.len() ==> #[trigger] items[k] is Text && preservable(items[k]->Text_0),
        (forall|k: int| i <= k < items.len() ==> #[trigger] items[k] is Text && preservable(items[k]->Text_0))
            ==> paths_added(list, items, not_text, i) is Ok,
    decreases items.len() - i,
{
    if i < items.len() {
        if items[i] is Text {
            let path = items[i]->Text_0;
            lemma_unrooted(path);
            assert(preserve_fault(path) is None <==> preservable(path));
            law_paths_added(list.push(path), items, not_text, i + 1);
            assert(items.skip(i).drop_first() =~= items.skip(i + 1));
            assert(paths_in(items.skip(i)) =~= seq![path] + paths_in(items.skip(i + 1)));
            assert(list.push(path) + paths_in(items.skip(i + 1)) =~= list + paths_in(items.skip(i)));
        }
    } else {
        assert(list + paths_in(items.skip(i)) =~= list);
    }
}

/// What the keys name in the configuration, one after the other.
pub open spec fn named(value: JsonView, keys: Seq<Seq<char>>, n: int) -> Seq<Seq<char>>
    decreases n,
{
    if n <= 0 {
        Seq::empty()
    } else {
        named(value, keys, n - 1) + paths_in(value.member(keys[n - 1])->0->List_0)
    }
}

proof fn lemma_keys_named(
    t: Transcript,
    first: Seq<Seq<char>>,
    value: JsonView,
    rootfs: Seq<char>,
    keys: Seq<Seq<char>>,
    i: int,
)
    requires
        0 <= i <= keys.len(),
        forall|k: int| 0 <= k < keys.len() ==> #[trigger] keys[k] != "applications"@,
    ensures
        ({
            let (end, r) = keys_added(t, first + named(value, keys, i), Some(value), rootfs, keys, i);
            end == t && (r matches Ok(list) ==> list == first + named(value, keys, keys.len() as int) && forall|k: int|
                i <= k < keys.len() ==> value.member(#[trigger] keys[k]) matches Some(JsonView::List(_)))
        }),
    decreases keys.len() - i,
{
    if i < keys.len() {
        assert(keys[i] != "applications"@);
        let list = first + named(value, keys, i);
        let file = crate::path::joined(rootfs, "etc/omnect/factory-reset.json"@);
        if let Ok(more) = key_added(list, value, file, keys[i]) {
            let items = value.member(keys[i])->0->List_0;
            let not_text = file + ": value for key '"@ + keys[i] + "' must contain only strings"@;
            law_paths_added(list, items, not_text, 0);
            assert(items.skip(0) =~= items);
            assert(more =~= first + named(value, keys, i + 1));
            lemma_keys_named(t, first, value, rootfs, keys, i + 1);
        }
    }
}

/// The keys of a reset name lists of paths in etc/omnect/factory-reset.json of the root
/// filesystem. All of them are preserved, in the order of the keys, behind the directory of the
/// configuration itself.
pub proof fn law_preserved(t: Transcript, keys: Seq<Seq<char>>, rootfs: Seq<char>, content: Seq<char>, value: JsonView)
    requires
        keys.len() > 0,
        forall|k: int| 0 <= k < keys.len() ==> #[trigger] keys[k] != "applications"@,
        t.rest.len() > 0,
        t.rest[0] == ReplyView::Text(content),
        json_of(content) == Ok::<JsonView, Seq<char>>(value),
    ensures
        preserve_list(t, keys, rootfs).0 == t.ask(
            RequestView::ReadText(under(rootfs, "etc/omnect/factory-reset.json"@)),
        ),
        preserve_list(t, keys, rootfs).1 matches Ok(list) ==> list == seq!["/etc/omnect/factory-reset.d/"@] + named(
            value,
            keys,
            keys.len() as int,
        ),
{
    reveal_strlit("etc/omnect/factory-reset.json");
    law_joined(rootfs, "etc/omnect/factory-reset.json"@);
    assert(keys[0] != "applications"@);
    assert(needs_file(keys));
    let first = seq!["/etc/omnect/factory-reset.d/"@];
    assert(first + named(value, keys, 0) =~= first);
    lemma_keys_named(file_read(t, rootfs).0, first, value, rootfs, keys, 0);
}

/// Without any key only the directory of the configuration is preserved.
pub proof fn law_preserved_without_keys(t: Transcript, rootfs: Seq<char>)
    ensures
        preserve_list(t, Seq::empty(), rootfs).0 == t,
        preserve_list(t, Seq::empty(), rootfs).1 matches Ok(list) && list == seq!["/etc/omnect/factory-reset.d/"@],
{
}

/// A file of an application names its paths under the key paths.
pub proof fn law_application(list: Seq<Seq<char>>, path: Seq<char>, content: Seq<char>, value: JsonView, items: Seq<JsonView>)
    requires
        json_of(content) == Ok::<JsonView, Seq<char>>(value),
        value.member("paths"@) == Some(JsonView::List(items)),
    ensures
        application_added(list, path, content) matches Ok(more) ==> more == list + paths_in(items),
{
    let not_text = path + ": '"@ + "paths"@ + "' array must contain only strings"@;
    law_paths_added(list, items, not_text, 0);
    assert(items.skip(0) =~= items);
}

/// A reset that could not mount a partition names the one at fault: that of the device, or that
/// whose layer failed.
pub proof fn law_at_fault(rootfs: Seq<char>, data: Seq<char>, etc: Seq<char>, target: Seq<char>, reason: Seq<char>)
    requires
        crate::path::components_of(data) != crate::path::components_of(etc),
    ensures
        failed_partition(
            InitramfsError::Filesystem(FilesystemError::MountFailed { src_path: data, target, reason }),
            rootfs,
            data,
            etc,
        ) == Some(PartitionName::Data),
        failed_partition(
            InitramfsError::Filesystem(FilesystemError::MountFailed { src_path: etc, target, reason }),
            rootfs,
            data,
            etc,
        ) == Some(PartitionName::Etc),
        failed_partition(
            InitramfsError::Filesystem(FilesystemError::OverlayFailed { target: under(rootfs, "home"@), reason }),
            rootfs,
            data,
            etc,
        ) == Some(PartitionName::Data),
        failed_partition(
            InitramfsError::Filesystem(FilesystemError::OverlayFailed { target: under(rootfs, "mnt/data"@), reason }),
            rootfs,
            data,
            etc,
        ) == Some(PartitionName::Data),
{
    lemma_places(rootfs);
    let place = crate::path::components_of(under(rootfs, "mnt/data"@));
    assert(place.is_prefix_of(place));
}

/// A boot is the first one until the variable of the first boot reads 1, an update is pending
/// while its variable holds anything, and a reset is asked for by its variable alone.
pub proof fn law_flags(t: Transcript, kind: BootloaderKind, value: Option<Seq<char>>)
    ensures
        SessionEnv::reads(t, kind, BootEnvKey::FirstBootDone).2 == EnvRead::Ok(value) ==> first_boot_in::<SessionEnv>(
            t,
            Some(kind),
        ).2 == Some(value != Some("1"@)),
        SessionEnv::reads(t, kind, BootEnvKey::ValidateUpdate).2 == EnvRead::Ok(value) ==> pending_in::<SessionEnv>(
            t,
            Some(kind),
        ).2 == Some(value is Some && value->0.len() > 0),
        SessionEnv::reads(t, kind, BootEnvKey::FactoryReset).2 == EnvRead::Ok(None) ==> mode_detected::<SessionEnv>(
            t,
            Some(kind),
        ).2 == InitOutcome::<ModeView>::Ok(ModeView::Normal),
        first_boot_in::<SessionEnv>(t, None).2 == Some(false),
        pending_in::<SessionEnv>(t, None).2 == Some(false),
{
}

} // verus!
